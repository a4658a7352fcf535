//! The mathematical model of password generation: what a valid request is,
//! which error an invalid request earns, and what a generated password
//! consists of.

use vstd::prelude::*;
use vstd::multiset::Multiset;

verus! {

/// No character occurs twice in `s`.
pub open spec fn distinct_chars(s: Seq<char>) -> bool {
    forall|i: int, j: int| 0 <= i < j < s.len() ==> s[i] != s[j]
}

/// Every character of `s` occurs in `pool`.
pub open spec fn drawn_from(s: Seq<char>, pool: Seq<char>) -> bool {
    forall|i: int| 0 <= i < s.len() ==> pool.contains(s[i])
}

/// Every character of `pw` occurs in one of the three pools.
pub open spec fn chars_from(
    pw: Seq<char>,
    letters: Seq<char>,
    digits: Seq<char>,
    symbols: Seq<char>,
) -> bool {
    forall|i: int| 0 <= i < pw.len()
        ==> letters.contains(#[trigger] pw[i]) || digits.contains(pw[i]) || symbols.contains(pw[i])
}

/// `pw` holds exactly the characters of `a`, `b` and `c` together, each class
/// drawn from its own pool; the interleaving is left open, since every
/// character lands at a freshly randomized position.
pub open spec fn class_split(
    pw: Seq<char>,
    a: Seq<char>,
    b: Seq<char>,
    c: Seq<char>,
    letters: Seq<char>,
    digits: Seq<char>,
    symbols: Seq<char>,
) -> bool {
    &&& pw.to_multiset() == a.to_multiset().add(b.to_multiset()).add(c.to_multiset())
    &&& drawn_from(a, letters)
    &&& drawn_from(b, digits)
    &&& drawn_from(c, symbols)
}

/// `pw` consists of `n_letters` characters of `letters`, `n_digits` of
/// `digits` and `n_symbols` of `symbols`, in some order.
pub open spec fn composed_of(
    pw: Seq<char>,
    n_letters: int,
    n_digits: int,
    n_symbols: int,
    letters: Seq<char>,
    digits: Seq<char>,
    symbols: Seq<char>,
) -> bool {
    exists|a: Seq<char>, b: Seq<char>, c: Seq<char>|
        #[trigger] class_split(pw, a, b, c, letters, digits, symbols)
        && a.len() == n_letters
        && b.len() == n_digits
        && c.len() == n_symbols
}

/// The fixed classes alone overrun the requested length.
pub open spec fn fails_total(length: int, num_digits: int, num_symbols: int) -> bool {
    num_digits + num_symbols > length
}

/// More distinct letters are requested than the letter pool offers.
pub open spec fn fails_letters(
    length: int,
    num_digits: int,
    num_symbols: int,
    allow_repeat: bool,
    letters: Seq<char>,
) -> bool {
    &&& !fails_total(length, num_digits, num_symbols)
    &&& !allow_repeat
    &&& length - num_digits - num_symbols > letters.len()
}

/// More distinct digits are requested than the digit pool offers.
pub open spec fn fails_digits(
    length: int,
    num_digits: int,
    num_symbols: int,
    allow_repeat: bool,
    letters: Seq<char>,
    digits: Seq<char>,
) -> bool {
    &&& !fails_total(length, num_digits, num_symbols)
    &&& !fails_letters(length, num_digits, num_symbols, allow_repeat, letters)
    &&& !allow_repeat
    &&& num_digits > digits.len()
}

/// More distinct symbols are requested than the symbol pool offers.
pub open spec fn fails_symbols(
    length: int,
    num_digits: int,
    num_symbols: int,
    allow_repeat: bool,
    letters: Seq<char>,
    digits: Seq<char>,
    symbols: Seq<char>,
) -> bool {
    &&& !fails_total(length, num_digits, num_symbols)
    &&& !fails_letters(length, num_digits, num_symbols, allow_repeat, letters)
    &&& !fails_digits(length, num_digits, num_symbols, allow_repeat, letters, digits)
    &&& !allow_repeat
    &&& num_symbols > symbols.len()
}

/// A request that passes every validation check against the given pools.
pub open spec fn valid_request(
    length: int,
    num_digits: int,
    num_symbols: int,
    allow_repeat: bool,
    letters: Seq<char>,
    digits: Seq<char>,
    symbols: Seq<char>,
) -> bool {
    &&& !fails_total(length, num_digits, num_symbols)
    &&& !fails_letters(length, num_digits, num_symbols, allow_repeat, letters)
    &&& !fails_digits(length, num_digits, num_symbols, allow_repeat, letters, digits)
    &&& !fails_symbols(length, num_digits, num_symbols, allow_repeat, letters, digits, symbols)
}

/// Everything a successful generation promises about its result: the exact
/// length, that every character comes from a pool in use, the class
/// composition, and the absence of repeats where they are disallowed.
pub open spec fn generated_password(
    pw: Seq<char>,
    length: int,
    num_digits: int,
    num_symbols: int,
    allow_repeat: bool,
    letters: Seq<char>,
    digits: Seq<char>,
    symbols: Seq<char>,
) -> bool {
    &&& pw.len() == length
    &&& chars_from(pw, letters, digits, symbols)
    &&& composed_of(pw, length - num_digits - num_symbols, num_digits, num_symbols, letters,
        digits, symbols)
    &&& (!allow_repeat ==> distinct_chars(pw))
}

/// No character of `a` occurs in `b`.
pub open spec fn disjoint_pools(a: Seq<char>, b: Seq<char>) -> bool {
    forall|x: char| a.contains(x) ==> !b.contains(x)
}

/// Pools under which generation with repeats disallowed can never starve:
/// each pool lists every character once, and no character serves two
/// classes. The built-in default pools are of this shape.
pub open spec fn sound_pools(letters: Seq<char>, digits: Seq<char>, symbols: Seq<char>) -> bool {
    &&& distinct_chars(letters)
    &&& distinct_chars(digits)
    &&& distinct_chars(symbols)
    &&& disjoint_pools(letters, digits)
    &&& disjoint_pools(letters, symbols)
    &&& disjoint_pools(digits, symbols)
}

/// How many positions of `pool` hold a character that occurs in `s`: the
/// pool positions no longer eligible when repeats are disallowed.
pub open spec fn used_count(pool: Seq<char>, s: Seq<char>) -> int
    decreases pool.len(),
{
    if pool.len() == 0 {
        0
    } else {
        used_count(pool.drop_last(), s) + if s.contains(pool.last()) {
            1int
        } else {
            0int
        }
    }
}

/// The characters of a sequence after an insertion are the inserted one and
/// the characters already there.
pub proof fn lemma_insert_contains(s: Seq<char>, k: int, c: char, x: char)
    requires
        0 <= k <= s.len(),
    ensures
        s.insert(k, c).contains(x) <==> (s.contains(x) || x == c),
{
    s.insert_ensures(k, c);
    let t = s.insert(k, c);
    if t.contains(x) {
        let p = choose|p: int| 0 <= p < t.len() && t[p] == x;
        if p < k {
            assert(s[p] == x);
            assert(s.contains(s[p]));
        } else if p > k {
            assert(s[p - 1] == x);
            assert(s.contains(s[p - 1]));
        }
    }
    if s.contains(x) {
        let p = choose|p: int| 0 <= p < s.len() && s[p] == x;
        if p < k {
            assert(t[p] == x);
            assert(t.contains(t[p]));
        } else {
            assert(t[p + 1] == x);
            assert(t.contains(t[p + 1]));
        }
    }
    if x == c {
        assert(t[k] == c);
        assert(t.contains(t[k]));
    }
}

/// When every character occurs at most once in `pool`, one insertion into
/// `s` takes at most one further pool position out of use.
pub proof fn lemma_used_count_insert(pool: Seq<char>, s: Seq<char>, k: int, c: char)
    requires
        distinct_chars(pool),
        0 <= k <= s.len(),
    ensures
        used_count(pool, s.insert(k, c)) <= used_count(pool, s) + if pool.contains(c) {
            1int
        } else {
            0int
        },
    decreases pool.len(),
{
    lemma_insert_contains(s, k, c, if pool.len() > 0 { pool.last() } else { c });
    if pool.len() > 0 {
        let p = pool.drop_last();
        let x = pool.last();
        assert(forall|i: int| 0 <= i < p.len() ==> p[i] == pool[i]);
        assert(distinct_chars(p));
        lemma_used_count_insert(p, s, k, c);
        if x == c {
            if p.contains(c) {
                let q = choose|q: int| 0 <= q < p.len() && p[q] == c;
                assert(pool[q] == c && pool[pool.len() - 1] == c);
                assert(false);
            }
            assert(!p.contains(c));
        } else {
            assert(pool.contains(c) <==> p.contains(c)) by {
                if pool.contains(c) {
                    let q = choose|q: int| 0 <= q < pool.len() && pool[q] == c;
                    assert(p[q] == c);
                    assert(p.contains(p[q]));
                }
                if p.contains(c) {
                    let q = choose|q: int| 0 <= q < p.len() && p[q] == c;
                    assert(pool.contains(pool[q]));
                }
            }
        }
    }
}

/// Characters absent from `s` leave every pool position in use.
pub proof fn lemma_used_count_zero(pool: Seq<char>, s: Seq<char>)
    requires
        forall|x: char| s.contains(x) ==> !pool.contains(x),
    ensures
        used_count(pool, s) == 0,
    decreases pool.len(),
{
    if pool.len() > 0 {
        let p = pool.drop_last();
        assert(forall|i: int| 0 <= i < p.len() ==> p[i] == pool[i]);
        assert forall|x: char| s.contains(x) implies !p.contains(x) by {
            if p.contains(x) {
                let q = choose|q: int| 0 <= q < p.len() && p[q] == x;
                assert(pool.contains(pool[q]));
            }
        }
        lemma_used_count_zero(p, s);
        assert(pool.contains(pool.last()));
        assert(!s.contains(pool.last()));
    }
}

/// Inserting a character that does not yet occur anywhere keeps the
/// characters of a sequence distinct.
pub proof fn lemma_insert_distinct(s: Seq<char>, i: int, c: char)
    requires
        0 <= i <= s.len(),
        distinct_chars(s),
        !s.contains(c),
    ensures
        distinct_chars(s.insert(i, c)),
{
    s.insert_ensures(i, c);
    let t = s.insert(i, c);
    assert forall|p: int, q: int| 0 <= p < q < t.len() implies t[p] != t[q] by {
        if q < i {
            assert(t[p] == s[p] && t[q] == s[q]);
        } else if q == i {
            assert(t[p] == s[p]);
            assert(s.contains(s[p]));
        } else if p == i {
            assert(t[q] == s[q - 1]);
            assert(s.contains(s[q - 1]));
        } else if p < i {
            assert(t[p] == s[p] && t[q] == s[q - 1]);
        } else {
            assert(t[p] == s[p - 1] && t[q] == s[q - 1]);
        }
    }
}

/// After an insertion, every character of the longer sequence is the inserted
/// one or was already present.
pub proof fn lemma_insert_elements(s: Seq<char>, i: int, c: char)
    requires
        0 <= i <= s.len(),
    ensures
        forall|k: int| 0 <= k < s.insert(i, c).len()
            ==> #[trigger] s.insert(i, c)[k] == c || s.contains(s.insert(i, c)[k]),
{
    s.insert_ensures(i, c);
    let t = s.insert(i, c);
    assert forall|k: int| 0 <= k < t.len() implies t[k] == c || s.contains(t[k]) by {
        if k < i {
            assert(t[k] == s[k]);
            assert(s.contains(s[k]));
        } else if k > i {
            assert(t[k] == s[k - 1]);
            assert(s.contains(s[k - 1]));
        }
    }
}

/// A password drawn from the given pools never contains a character that
/// occurs in none of them: supplying custom pools confines the result to
/// their union.
pub proof fn lemma_no_foreign_char(
    pw: Seq<char>,
    letters: Seq<char>,
    digits: Seq<char>,
    symbols: Seq<char>,
    c: char,
)
    requires
        chars_from(pw, letters, digits, symbols),
        !letters.contains(c),
        !digits.contains(c),
        !symbols.contains(c),
    ensures
        !pw.contains(c),
{
    assert forall|i: int| 0 <= i < pw.len() implies pw[i] != c by {
        assert(letters.contains(pw[i]) || digits.contains(pw[i]) || symbols.contains(pw[i]));
    }
}

/// When uppercase letters are excluded, the effective letter pool is the
/// lowercase pool alone, so a character that occurs only in the uppercase
/// pool cannot appear in the result.
pub proof fn lemma_excluded_uppercase_absent(
    pw: Seq<char>,
    lower: Seq<char>,
    upper: Seq<char>,
    digits: Seq<char>,
    symbols: Seq<char>,
    c: char,
)
    requires
        chars_from(pw, lower, digits, symbols),
        upper.contains(c),
        !lower.contains(c),
        !digits.contains(c),
        !symbols.contains(c),
    ensures
        !pw.contains(c),
{
    lemma_no_foreign_char(pw, lower, digits, symbols, c);
}

} // verus!
