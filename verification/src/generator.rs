//! The password engine: character pools, request validation, and the
//! draw-and-insert generation algorithm.

use vstd::multiset::Multiset;
use vstd::prelude::*;
use vstd::string::StrSliceExecFns;

use crate::errors::DigitsExceedsAvailableError;
use crate::errors::ExceedsTotalLengthError;
use crate::errors::GeneratorError;
use crate::errors::LettersExceedsAvailableError;
use crate::errors::SymbolsExceedsAvailableError;
use crate::model::class_split;
use crate::model::distinct_chars;
use crate::model::drawn_from;
use crate::model::fails_digits;
use crate::model::fails_letters;
use crate::model::fails_symbols;
use crate::model::fails_total;
use crate::model::generated_password;
use crate::model::lemma_insert_distinct;
use crate::model::lemma_insert_elements;
use crate::model::lemma_used_count_insert;
use crate::model::lemma_used_count_zero;
use crate::model::sound_pools;
use crate::model::used_count;
use crate::model::valid_request;

verus! {

/// The built-in character pools, used for any pool the caller leaves empty.
pub struct GeneratorConst;

impl GeneratorConst {
    /// The default list of lowercase letters.
    pub const LOWER_LETTERS: &'static str = "abcdefghijklmnopqrstuvwxyz";

    /// The default list of uppercase letters.
    pub const UPPER_LETTERS: &'static str = "ABCDEFGHIJKLMNOPQRSTUVWXYZ";

    /// The default list of permitted digits.
    pub const DIGITS: &'static str = "0123456789";

    /// The default list of symbols.
    pub const SYMBOLS: &'static str = "~!@#$%^&*()_+`-={}|[]\\:\"<>?,./";
}

/// The default lowercase pool, as a sequence of characters.
pub open spec fn default_lower() -> Seq<char> {
    GeneratorConst::LOWER_LETTERS@
}

/// The default uppercase pool, as a sequence of characters.
pub open spec fn default_upper() -> Seq<char> {
    GeneratorConst::UPPER_LETTERS@
}

/// The default digit pool, as a sequence of characters.
pub open spec fn default_digits() -> Seq<char> {
    GeneratorConst::DIGITS@
}

/// The default symbol pool, as a sequence of characters.
pub open spec fn default_symbols() -> Seq<char> {
    GeneratorConst::SYMBOLS@
}

/// The default effective letter pool: the lowercase letters, with the
/// uppercase letters appended unless they are excluded.
pub open spec fn default_letters(no_upper: bool) -> Seq<char> {
    if no_upper {
        default_lower()
    } else {
        default_lower() + default_upper()
    }
}

/// The stateful generator, holding the four character pools. The pools are
/// fixed at construction and never mutated, so one generator may serve any
/// number of independent calls.
pub struct Generator {
    lower_letters: Vec<char>,
    upper_letters: Vec<char>,
    digits: Vec<char>,
    symbols: Vec<char>,
}

/// The configuration accepted by [`Generator::new`]. Any pool left empty
/// falls back to the corresponding built-in default.
pub struct GeneratorInput<'a> {
    pub lower_letters: &'a str,
    pub upper_letters: &'a str,
    pub digits: &'a str,
    pub symbols: &'a str,
}

impl Generator {
    /// The lowercase pool of this generator.
    pub closed spec fn lower(&self) -> Seq<char> {
        self.lower_letters@
    }

    /// The uppercase pool of this generator.
    pub closed spec fn upper(&self) -> Seq<char> {
        self.upper_letters@
    }

    /// The digit pool of this generator.
    pub closed spec fn digit_pool(&self) -> Seq<char> {
        self.digits@
    }

    /// The symbol pool of this generator.
    pub closed spec fn symbol_pool(&self) -> Seq<char> {
        self.symbols@
    }

    /// The effective letter pool for one call: the lowercase letters, with
    /// the uppercase letters appended unless they are excluded.
    pub open spec fn letters(&self, no_upper: bool) -> Seq<char> {
        if no_upper {
            self.lower()
        } else {
            self.lower() + self.upper()
        }
    }
}

/// The pool a caller asked for, or the default where the request leaves the
/// pool empty.
pub open spec fn pool_or(custom: Seq<char>, default: Seq<char>) -> Seq<char> {
    if custom.len() == 0 {
        default
    } else {
        custom
    }
}

/// The lowercase pool named by a configuration, empty when none was given.
pub open spec fn requested_lower(i: Option<&GeneratorInput>) -> Seq<char> {
    match i {
        Some(gi) => gi.lower_letters@,
        None => Seq::<char>::empty(),
    }
}

/// The uppercase pool named by a configuration, empty when none was given.
pub open spec fn requested_upper(i: Option<&GeneratorInput>) -> Seq<char> {
    match i {
        Some(gi) => gi.upper_letters@,
        None => Seq::<char>::empty(),
    }
}

/// The digit pool named by a configuration, empty when none was given.
pub open spec fn requested_digits(i: Option<&GeneratorInput>) -> Seq<char> {
    match i {
        Some(gi) => gi.digits@,
        None => Seq::<char>::empty(),
    }
}

/// The symbol pool named by a configuration, empty when none was given.
pub open spec fn requested_symbols(i: Option<&GeneratorInput>) -> Seq<char> {
    match i {
        Some(gi) => gi.symbols@,
        None => Seq::<char>::empty(),
    }
}

/// The interface a password generator offers. The real [`Generator`]
/// implements it; a test may substitute a deterministic double wherever a
/// `PasswordGenerator` is expected, to mock responses for predictability.
pub trait PasswordGenerator {
    /// Whether the generator is in a state fit to serve requests.
    spec fn wf(&self) -> bool;

    /// Generates a password of `length` characters in total, `num_digits` of
    /// them digits and `num_symbols` of them symbols.
    fn generate(
        &self,
        length: usize,
        num_digits: usize,
        num_symbols: usize,
        no_upper: bool,
        allow_repeat: bool,
    ) -> Result<String, GeneratorError>
        requires
            self.wf(),
    ;
}

impl Generator {
    /// Creates a new generator from the specified configuration. If no
    /// configuration is given, all the default values are used; a pool left
    /// empty likewise falls back to its default. Construction cannot fail,
    /// and the resulting generator is safe for concurrent use.
    pub fn new(i: Option<&GeneratorInput>) -> (r: Result<Generator, GeneratorError>)
        ensures
            r is Ok,
            r->Ok_0.wf(),
            r->Ok_0.lower() == pool_or(requested_lower(i), default_lower()),
            r->Ok_0.upper() == pool_or(requested_upper(i), default_upper()),
            r->Ok_0.digit_pool() == pool_or(requested_digits(i), default_digits()),
            r->Ok_0.symbol_pool() == pool_or(requested_symbols(i), default_symbols()),
    {
        let lower_src: &str = match i {
            Some(gi) => gi.lower_letters,
            None => "",
        };
        let upper_src: &str = match i {
            Some(gi) => gi.upper_letters,
            None => "",
        };
        let digits_src: &str = match i {
            Some(gi) => gi.digits,
            None => "",
        };
        let symbols_src: &str = match i {
            Some(gi) => gi.symbols,
            None => "",
        };

        let lower_letters: Vec<char> = if lower_src.is_empty() {
            str_to_chars(GeneratorConst::LOWER_LETTERS)
        } else {
            str_to_chars(lower_src)
        };
        let upper_letters: Vec<char> = if upper_src.is_empty() {
            str_to_chars(GeneratorConst::UPPER_LETTERS)
        } else {
            str_to_chars(upper_src)
        };
        let digits: Vec<char> = if digits_src.is_empty() {
            str_to_chars(GeneratorConst::DIGITS)
        } else {
            str_to_chars(digits_src)
        };
        let symbols: Vec<char> = if symbols_src.is_empty() {
            str_to_chars(GeneratorConst::SYMBOLS)
        } else {
            str_to_chars(symbols_src)
        };

        proof {
            reveal_strlit("");
            reveal_strlit("abcdefghijklmnopqrstuvwxyz");
            reveal_strlit("ABCDEFGHIJKLMNOPQRSTUVWXYZ");
            reveal_strlit("0123456789");
            reveal_strlit("~!@#$%^&*()_+`-={}|[]\\:\"<>?,./");
            assert(default_lower().len() == 26);
            assert(default_upper().len() == 26);
            assert(default_digits().len() == 10);
            assert(default_symbols().len() == 30);
        }

        Ok(Generator { lower_letters, upper_letters, digits, symbols })
    }
}

/// The characters of `s`, in order, as a vector indexed by codepoint rather
/// than by encoded byte, so that drawing and inserting stay correct for
/// multi-byte characters.
fn str_to_chars(s: &str) -> (v: Vec<char>)
    ensures
        v@ == s@,
{
    let n: usize = s.unicode_len();
    let mut v: Vec<char> = Vec::new();
    let mut i: usize = 0;
    while i < n
        invariant
            i <= n,
            n == s@.len(),
            v@ == s@.subrange(0, i as int),
        decreases n - i,
    {
        let c: char = s.get_char(i);
        v.push(c);
        i = i + 1;
        proof {
            assert(v@ =~= s@.subrange(0, i as int));
        }
    }
    proof {
        assert(v@ =~= s@);
    }
    v
}

/// A copy of a pool, character by character.
fn copy_chars(a: &Vec<char>) -> (r: Vec<char>)
    ensures
        r@ == a@,
{
    let mut r: Vec<char> = Vec::new();
    let mut i: usize = 0;
    while i < a.len()
        invariant
            i <= a@.len(),
            r@ == a@.subrange(0, i as int),
        decreases a@.len() - i,
    {
        r.push(a[i]);
        i = i + 1;
        proof {
            assert(r@ =~= a@.subrange(0, i as int));
        }
    }
    proof {
        assert(r@ =~= a@);
    }
    r
}

/// Appends every character of `b` to `a`.
fn append_chars(a: &mut Vec<char>, b: &Vec<char>)
    ensures
        final(a)@ == old(a)@ + b@,
{
    let mut i: usize = 0;
    while i < b.len()
        invariant
            i <= b@.len(),
            a@ == old(a)@ + b@.subrange(0, i as int),
        decreases b@.len() - i,
    {
        a.push(b[i]);
        i = i + 1;
        proof {
            assert(a@ =~= old(a)@ + b@.subrange(0, i as int));
        }
    }
    proof {
        assert(a@ =~= old(a)@ + b@);
    }
}

/// Whether the result built so far already holds the given character.
fn contains_char(s: &Vec<char>, c: char) -> (b: bool)
    ensures
        b == s@.contains(c),
{
    let mut i: usize = 0;
    while i < s.len()
        invariant
            i <= s@.len(),
            forall|j: int| 0 <= j < i ==> s@[j] != c,
        decreases s@.len() - i,
    {
        if s[i] == c {
            return true;
        }
        i = i + 1;
    }
    false
}

/// Relies on `rand::Rng::gen_range` over `rand::rngs::OsRng`: it returns a
/// uniformly distributed value in `[0, bound)`, drawn from the operating
/// system's cryptographically secure entropy source. `gen_range` panics only
/// on an empty range, which the precondition rules out; `OsRng` panics if the
/// operating system's entropy source is unavailable.
#[verifier::external_body]
fn draw_uniform(bound: usize) -> (r: usize)
    requires
        0 < bound,
    ensures
        r < bound,
{
    rand::Rng::gen_range(&mut rand::rngs::OsRng, 0..bound)
}

/// Relies on `String`'s `FromIterator` implementation: collecting characters
/// yields the string of exactly those characters, in order.
#[verifier::external_body]
fn chars_to_string(v: &Vec<char>) -> (s: String)
    ensures
        s@ == v@,
{
    v.iter().collect()
}

/// Extracts one character from the given pool, each character of the pool
/// being equally likely.
pub fn random_element(pool: &Vec<char>) -> (r: Result<char, GeneratorError>)
    requires
        pool@.len() > 0,
    ensures
        r is Ok,
        pool@.contains(r->Ok_0),
{
    let n: usize = draw_uniform(pool.len());
    let c: char = pool[n];
    proof {
        assert(pool@.contains(pool@[n as int]));
    }
    Ok(c)
}

/// Inserts the given character at a uniformly random position of the result,
/// every position from the front to just past the back being equally likely,
/// so that no character class can cluster at a predictable place.
pub fn random_insert(s: &mut Vec<char>, c: char) -> (r: Result<(), GeneratorError>)
    requires
        old(s)@.len() < usize::MAX,
    ensures
        r is Ok,
        final(s)@.len() == old(s)@.len() + 1,
        final(s)@.to_multiset() == old(s)@.to_multiset().insert(c),
        exists|i: int| 0 <= i <= old(s)@.len() && final(s)@ == #[trigger] old(s)@.insert(i, c),
{
    let n: usize = if s.len() == 0 {
        0
    } else {
        draw_uniform(s.len() + 1)
    };
    s.insert(n, c);
    proof {
        vstd::seq_lib::to_multiset_insert(old(s)@, n as int, c);
    }
    Ok(())
}

/// Draws `count` characters from `pool`, each drawn uniformly at random and
/// put at a uniformly random position of `result`. When repeats are not
/// allowed, the draw is uniform over the pool positions whose character is
/// not yet in the result — the same distribution as discarding duplicates
/// and redrawing, but certain to make progress; it reports failure instead
/// of starving when no eligible position remains.
fn draw_from_pool(
    result: &mut Vec<char>,
    pool: &Vec<char>,
    count: usize,
    allow_repeat: bool,
) -> (ok: bool)
    requires
        pool@.len() > 0,
        old(result)@.len() + count <= usize::MAX,
        !allow_repeat ==> distinct_chars(old(result)@),
    ensures
        (allow_repeat || (distinct_chars(pool@) && used_count(pool@, old(result)@) + count
            <= pool@.len())) ==> ok,
        ok ==> final(result)@.len() == old(result)@.len() + count,
        ok ==> exists|d: Seq<char>|
            #[trigger] drawn_from(d, pool@) && d.len() == count && final(result)@.to_multiset()
                == old(result)@.to_multiset().add(d.to_multiset()),
        ok ==> forall|k: int| 0 <= k < final(result)@.len()
            ==> old(result)@.contains(#[trigger] final(result)@[k]) || pool@.contains(
                final(result)@[k],
            ),
        ok && !allow_repeat ==> distinct_chars(final(result)@),
{
    let mut i: usize = 0;
    let ghost mut d: Seq<char> = Seq::<char>::empty();
    proof {
        broadcast use vstd::seq_lib::group_to_multiset_ensures;

        assert(d.to_multiset() =~= Multiset::<char>::empty());
        assert(result@.to_multiset() =~= old(result)@.to_multiset().add(d.to_multiset()));
    }
    while i < count
        invariant
            i <= count,
            pool@.len() > 0,
            old(result)@.len() + count <= usize::MAX,
            result@.len() == old(result)@.len() + i,
            d.len() == i,
            drawn_from(d, pool@),
            result@.to_multiset() == old(result)@.to_multiset().add(d.to_multiset()),
            forall|k: int| 0 <= k < result@.len()
                ==> old(result)@.contains(#[trigger] result@[k]) || pool@.contains(result@[k]),
            !allow_repeat ==> distinct_chars(result@),
            !allow_repeat && distinct_chars(pool@) ==> used_count(pool@, result@) <= used_count(
                pool@,
                old(result)@,
            ) + i,
        decreases count - i,
    {
        let c: char;
        if allow_repeat {
            c = match random_element(pool) {
                Ok(ch) => ch,
                Err(_) => {
                    return false;
                },
            };
        } else {
            let mut avail: Vec<char> = Vec::new();
            let mut j: usize = 0;
            while j < pool.len()
                invariant
                    j <= pool@.len(),
                    forall|t: int| 0 <= t < avail@.len()
                        ==> pool@.contains(#[trigger] avail@[t]) && !result@.contains(avail@[t]),
                    avail@.len() == j - used_count(pool@.subrange(0, j as int), result@),
                decreases pool@.len() - j,
            {
                let pc: char = pool[j];
                proof {
                    assert(pool@.contains(pool@[j as int]));
                }
                if !contains_char(result, pc) {
                    avail.push(pc);
                }
                j = j + 1;
                proof {
                    let pre = pool@.subrange(0, j as int);
                    assert(pre.drop_last() =~= pool@.subrange(0, j - 1));
                    assert(pre.last() == pool@[j - 1]);
                }
            }
            proof {
                assert(pool@.subrange(0, pool@.len() as int) =~= pool@);
            }
            if avail.len() == 0 {
                return false;
            }
            let n: usize = draw_uniform(avail.len());
            c = avail[n];
            proof {
                assert(avail@.contains(avail@[n as int]));
            }
        }
        let ghost prev = result@;
        match random_insert(result, c) {
            Ok(_) => {},
            Err(_) => {
                return false;
            },
        }
        i = i + 1;
        proof {
            broadcast use vstd::seq_lib::group_to_multiset_ensures;

            d = d.push(c);
            assert(result@.to_multiset() =~= old(result)@.to_multiset().add(d.to_multiset()));
            let gi = choose|t: int| 0 <= t <= prev.len() && result@ == prev.insert(t, c);
            lemma_insert_elements(prev, gi, c);
            assert forall|k: int| 0 <= k < result@.len() implies old(result)@.contains(
                #[trigger] result@[k],
            ) || pool@.contains(result@[k]) by {
                if result@[k] != c {
                    assert(prev.contains(result@[k]));
                    let t = choose|t: int| 0 <= t < prev.len() && prev[t] == result@[k];
                    assert(old(result)@.contains(prev[t]) || pool@.contains(prev[t]));
                }
            }
            if !allow_repeat {
                lemma_insert_distinct(prev, gi, c);
                if distinct_chars(pool@) {
                    lemma_used_count_insert(pool@, prev, gi, c);
                }
            }
        }
    }
    proof {
        assert(drawn_from(d, pool@) && d.len() == count && result@.to_multiset()
            == old(result)@.to_multiset().add(d.to_multiset()));
    }
    true
}

impl Generator {
    /// Generates a password with the given requirements. `length` is the
    /// total number of characters in the password, `num_digits` and
    /// `num_symbols` how many of them come from the digit and symbol pools;
    /// `no_upper` excludes uppercase letters from the result, and
    /// `allow_repeat` allows characters to repeat.
    ///
    /// The algorithm favors entropy over speed, and every call is
    /// independent, so this function is safe for concurrent use.
    pub fn generate(
        &self,
        length: usize,
        num_digits: usize,
        num_symbols: usize,
        no_upper: bool,
        allow_repeat: bool,
    ) -> (r: Result<String, GeneratorError>)
        requires
            self.wf(),
        ensures
            r matches Ok(pw) ==> generated_password(
                pw@,
                length as int,
                num_digits as int,
                num_symbols as int,
                allow_repeat,
                self.letters(no_upper),
                self.digit_pool(),
                self.symbol_pool(),
            ),
            r is Ok ==> valid_request(
                length as int,
                num_digits as int,
                num_symbols as int,
                allow_repeat,
                self.letters(no_upper),
                self.digit_pool(),
                self.symbol_pool(),
            ),
            (r matches Err(GeneratorError::ParseExceedsTotalLengthError(_))) <==> fails_total(
                length as int,
                num_digits as int,
                num_symbols as int,
            ),
            fails_letters(
                length as int,
                num_digits as int,
                num_symbols as int,
                allow_repeat,
                self.letters(no_upper),
            ) ==> (r matches Err(GeneratorError::ParseLettersExceedsAvailableError(_))),
            fails_digits(
                length as int,
                num_digits as int,
                num_symbols as int,
                allow_repeat,
                self.letters(no_upper),
                self.digit_pool(),
            ) ==> (r matches Err(GeneratorError::ParseDigitsExceedsAvailableError(_))),
            fails_symbols(
                length as int,
                num_digits as int,
                num_symbols as int,
                allow_repeat,
                self.letters(no_upper),
                self.digit_pool(),
                self.symbol_pool(),
            ) ==> (r matches Err(GeneratorError::ParseSymbolsExceedsAvailableError(_))),
            r is Err ==> !(r matches Err(GeneratorError::ParseRnd()))
                && !(r matches Err(GeneratorError::ParseTryFromIntError())),
            allow_repeat ==> (r is Ok <==> !fails_total(
                length as int,
                num_digits as int,
                num_symbols as int,
            )),
            !allow_repeat && sound_pools(self.letters(no_upper), self.digit_pool(), self.symbol_pool())
                ==> {
                &&& (r is Ok <==> valid_request(
                    length as int,
                    num_digits as int,
                    num_symbols as int,
                    allow_repeat,
                    self.letters(no_upper),
                    self.digit_pool(),
                    self.symbol_pool(),
                ))
                &&& ((r matches Err(GeneratorError::ParseLettersExceedsAvailableError(_)))
                    <==> fails_letters(
                    length as int,
                    num_digits as int,
                    num_symbols as int,
                    allow_repeat,
                    self.letters(no_upper),
                ))
                &&& ((r matches Err(GeneratorError::ParseDigitsExceedsAvailableError(_)))
                    <==> fails_digits(
                    length as int,
                    num_digits as int,
                    num_symbols as int,
                    allow_repeat,
                    self.letters(no_upper),
                    self.digit_pool(),
                ))
                &&& ((r matches Err(GeneratorError::ParseSymbolsExceedsAvailableError(_)))
                    <==> fails_symbols(
                    length as int,
                    num_digits as int,
                    num_symbols as int,
                    allow_repeat,
                    self.letters(no_upper),
                    self.digit_pool(),
                    self.symbol_pool(),
                ))
            },
    {
        let mut letters: Vec<char> = copy_chars(&self.lower_letters);
        if !no_upper {
            append_chars(&mut letters, &self.upper_letters);
        }
        proof {
            assert(letters@ == self.letters(no_upper));
        }

        let fixed: usize = match num_digits.checked_add(num_symbols) {
            Some(t) => t,
            None => {
                return Err(
                    GeneratorError::ParseExceedsTotalLengthError(ExceedsTotalLengthError()),
                );
            },
        };
        let chars: usize = match length.checked_sub(fixed) {
            Some(x) => x,
            None => {
                return Err(
                    GeneratorError::ParseExceedsTotalLengthError(ExceedsTotalLengthError()),
                );
            },
        };

        if !allow_repeat && chars > letters.len() {
            return Err(
                GeneratorError::ParseLettersExceedsAvailableError(LettersExceedsAvailableError()),
            );
        }
        if !allow_repeat && num_digits > self.digits.len() {
            return Err(
                GeneratorError::ParseDigitsExceedsAvailableError(DigitsExceedsAvailableError()),
            );
        }
        if !allow_repeat && num_symbols > self.symbols.len() {
            return Err(
                GeneratorError::ParseSymbolsExceedsAvailableError(SymbolsExceedsAvailableError()),
            );
        }

        let ghost snd = sound_pools(self.letters(no_upper), self.digit_pool(), self.symbol_pool());
        let mut result: Vec<char> = Vec::new();

        proof {
            lemma_used_count_zero(letters@, result@);
        }
        let ghost s0 = result@;
        if !draw_from_pool(&mut result, &letters, chars, allow_repeat) {
            return Err(
                GeneratorError::ParseLettersExceedsAvailableError(LettersExceedsAvailableError()),
            );
        }
        let ghost s1 = result@;

        proof {
            if !allow_repeat && snd {
                assert forall|x: char| s1.contains(x) implies !self.digit_pool().contains(x) by {
                    let k = choose|k: int| 0 <= k < s1.len() && s1[k] == x;
                    assert(s0.contains(s1[k]) || letters@.contains(s1[k]));
                }
                lemma_used_count_zero(self.digits@, s1);
            }
        }
        if !draw_from_pool(&mut result, &self.digits, num_digits, allow_repeat) {
            return Err(
                GeneratorError::ParseDigitsExceedsAvailableError(DigitsExceedsAvailableError()),
            );
        }
        let ghost s2 = result@;

        proof {
            if !allow_repeat && snd {
                assert forall|x: char| s2.contains(x) implies !self.symbol_pool().contains(x) by {
                    let k = choose|k: int| 0 <= k < s2.len() && s2[k] == x;
                    assert(s1.contains(s2[k]) || self.digits@.contains(s2[k]));
                    if s1.contains(s2[k]) {
                        let t = choose|t: int| 0 <= t < s1.len() && s1[t] == s2[k];
                        assert(s0.contains(s1[t]) || letters@.contains(s1[t]));
                    }
                }
                lemma_used_count_zero(self.symbols@, s2);
            }
        }
        if !draw_from_pool(&mut result, &self.symbols, num_symbols, allow_repeat) {
            return Err(
                GeneratorError::ParseSymbolsExceedsAvailableError(SymbolsExceedsAvailableError()),
            );
        }
        let ghost s3 = result@;

        proof {
            broadcast use vstd::seq_lib::group_to_multiset_ensures;

            let d1 = choose|d: Seq<char>|
                #[trigger] drawn_from(d, letters@) && d.len() == chars && s1.to_multiset()
                    == s0.to_multiset().add(d.to_multiset());
            let d2 = choose|d: Seq<char>|
                #[trigger] drawn_from(d, self.digits@) && d.len() == num_digits && s2.to_multiset()
                    == s1.to_multiset().add(d.to_multiset());
            let d3 = choose|d: Seq<char>|
                #[trigger] drawn_from(d, self.symbols@) && d.len() == num_symbols
                    && s3.to_multiset() == s2.to_multiset().add(d.to_multiset());
            assert(s0.to_multiset() =~= Multiset::<char>::empty());
            assert(s3.to_multiset() =~= d1.to_multiset().add(d2.to_multiset()).add(
                d3.to_multiset(),
            ));
            assert(class_split(s3, d1, d2, d3, letters@, self.digit_pool(), self.symbol_pool()));
            assert forall|k: int| 0 <= k < s3.len() implies self.letters(no_upper).contains(
                #[trigger] s3[k],
            ) || self.digit_pool().contains(s3[k]) || self.symbol_pool().contains(s3[k]) by {
                assert(s2.contains(s3[k]) || self.symbols@.contains(s3[k]));
                if s2.contains(s3[k]) {
                    let t = choose|t: int| 0 <= t < s2.len() && s2[t] == s3[k];
                    assert(s1.contains(s2[t]) || self.digits@.contains(s2[t]));
                    if s1.contains(s2[t]) {
                        let u = choose|u: int| 0 <= u < s1.len() && s1[u] == s2[t];
                        assert(s0.contains(s1[u]) || letters@.contains(s1[u]));
                    }
                }
            }
        }

        let pw: String = chars_to_string(&result);
        Ok(pw)
    }
}

/// The built-in pools are sound: each lists every character exactly once,
/// and no character serves two classes, so generation without repeats can
/// never starve once the availability checks have passed.
pub proof fn lemma_default_pools_sound(no_upper: bool)
    ensures
        sound_pools(default_letters(no_upper), default_digits(), default_symbols()),
        default_lower().len() == 26,
        default_upper().len() == 26,
        default_digits().len() == 10,
        default_symbols().len() == 30,
{
    reveal_strlit("abcdefghijklmnopqrstuvwxyz");
    reveal_strlit("ABCDEFGHIJKLMNOPQRSTUVWXYZ");
    reveal_strlit("0123456789");
    reveal_strlit("~!@#$%^&*()_+`-={}|[]\\:\"<>?,./");
    let l = default_letters(no_upper);
    assert(distinct_chars(l));
    assert(distinct_chars(default_digits()));
    assert(distinct_chars(default_symbols()));
    assert forall|x: char| l.contains(x) implies !default_digits().contains(x) by {
        if default_digits().contains(x) {
            let j = choose|j: int| 0 <= j < default_digits().len() && default_digits()[j] == x;
            assert(!l.contains(x));
        }
    }
    assert forall|x: char| l.contains(x) implies !default_symbols().contains(x) by {
        if default_symbols().contains(x) {
            let j = choose|j: int| 0 <= j < default_symbols().len() && default_symbols()[j] == x;
            assert(!l.contains(x));
        }
    }
    assert forall|x: char| default_digits().contains(x) implies !default_symbols().contains(
        x,
    ) by {
        if default_symbols().contains(x) {
            let j = choose|j: int| 0 <= j < default_symbols().len() && default_symbols()[j] == x;
            assert(!default_digits().contains(x));
        }
    }
}

impl PasswordGenerator for Generator {
    /// A generator is fit to serve requests when none of its pools is empty,
    /// which [`Generator::new`] guarantees.
    open spec fn wf(&self) -> bool {
        &&& self.lower().len() > 0
        &&& self.upper().len() > 0
        &&& self.digit_pool().len() > 0
        &&& self.symbol_pool().len() > 0
    }

    fn generate(
        &self,
        length: usize,
        num_digits: usize,
        num_symbols: usize,
        no_upper: bool,
        allow_repeat: bool,
    ) -> Result<String, GeneratorError> {
        Generator::generate(self, length, num_digits, num_symbols, no_upper, allow_repeat)
    }
}

} // verus!
