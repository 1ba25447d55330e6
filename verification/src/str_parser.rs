//! Parsing a number out of free text: the first decimal number in the text
//! (digits, optionally followed by a fraction) is read as the target type.
use vstd::prelude::*;
use crate::numbers::{
    all_digits, bounded, digits_text_value, digits_value, is_digit, parse_i64, parse_unsigned,
    signed_text_value, unsigned_text_value,
};
use vstd::utf8::is_ascii_chars;

verus! {

/// Types that can be read out of free text.
pub trait Parse: Sized {
    type Error;

    fn parse(s: &str) -> Result<Self, Self::Error>;
}

/// The pattern of a decimal number: digits, optionally a dot and more digits.
pub open spec fn number_pattern() -> Seq<char> {
    "\\d+(\\.\\d+)?"@
}

/// The length of the run of ASCII digits in `s` starting at `i`.
pub open spec fn digit_run(s: Seq<char>, i: int) -> nat
    decreases s.len() - i,
{
    if 0 <= i < s.len() && is_digit(s[i]) {
        1 + digit_run(s, i + 1)
    } else {
        0
    }
}

/// The position of the first ASCII digit in `s` at or after `i`, or
/// `s.len()` when there is none.
pub open spec fn first_digit(s: Seq<char>, i: int) -> int
    decreases s.len() - i,
{
    if i < 0 || i >= s.len() {
        s.len() as int
    } else if is_digit(s[i]) {
        i
    } else {
        first_digit(s, i + 1)
    }
}

/// The leftmost match of `\d+(\.\d+)?` in an ASCII text: the first run of
/// digits, taken whole, and after it a dot with its whole run of digits when
/// the dot is followed by at least one digit; none when the text has no digit.
pub open spec fn number_match(s: Seq<char>) -> Option<Seq<char>> {
    let a = first_digit(s, 0);
    if a >= s.len() {
        None
    } else {
        let b = a + digit_run(s, a);
        if b + 1 < s.len() && s[b] == '.' && is_digit(s[b + 1]) {
            Some(s.subrange(a, b + 1 + digit_run(s, b + 1)))
        } else {
            Some(s.subrange(a, b))
        }
    }
}

/// What compiling `pattern` with the `regex` crate and taking the whole
/// first match in `haystack` gives: `None` when the pattern does not
/// compile, `Some(None)` when nothing matches, `Some(Some(m))` for the
/// matched text `m`.
pub uninterp spec fn regex_first_match(pattern: Seq<char>, haystack: Seq<char>) -> Option<
    Option<Seq<char>>,
>;

/// The text views of a search outcome.
pub open spec fn found_view(found: Option<Option<&str>>) -> Option<Option<Seq<char>>> {
    match found {
        Some(Some(m)) => Some(Some(m@)),
        Some(None) => Some(None),
        None => None,
    }
}

/// Compiles `pattern` with `regex::Regex::new`, searches `haystack` with
/// `Regex::captures` and takes capture group 0 (`Captures::get(0)`, which
/// the crate guarantees to be present) as text. The match is a contiguous
/// piece of the haystack. The crate's matches are leftmost-first with greedy
/// repetition, and on ASCII text `\d` is `[0-9]`, so for the number pattern
/// on an ASCII haystack the match is `number_match`; for other patterns and
/// text, which piece matches is left to the named result.
#[verifier::external_body]
fn first_match<'h>(pattern: &str, haystack: &'h str) -> (r: Option<Option<&'h str>>)
    ensures
        found_view(r) == regex_first_match(pattern@, haystack@),
        pattern@ == "\\d+(\\.\\d+)?"@ && is_ascii_chars(haystack@) ==> found_view(r) == Some(
            number_match(haystack@),
        ),
        r matches Some(Some(m)) ==> exists|i: int|
            0 <= i && i + m@.len() <= haystack@.len() && #[trigger] haystack@.subrange(
                i,
                i + m@.len(),
            ) == m@,
{
    match regex::Regex::new(pattern) {
        Ok(re) => match re.captures(haystack) {
            Some(caps) => match caps.get(0) {
                Some(m) => Some(Some(m.as_str())),
                None => Some(None),
            },
            None => Some(None),
        },
        Err(_) => None,
    }
}

/// Error text when no number is found.
pub open spec fn no_number_message() -> Seq<char> {
    "failed to parse string"@
}

/// Error text when the number found does not fit the target type.
pub open spec fn bad_number_message() -> Seq<char> {
    "failed to parse captured string"@
}

/// The outcome of reading a number no greater than `max` from a search outcome.
pub open spec fn parse_outcome(found: Option<Option<Seq<char>>>, max: nat) -> Result<
    nat,
    Seq<char>,
> {
    match found {
        Some(Some(m)) => match bounded(unsigned_text_value(m), max) {
            Some(v) => Ok(v),
            None => Err(bad_number_message()),
        },
        _ => Err(no_number_message()),
    }
}

/// The views of a parse result.
pub open spec fn result_view(r: Result<u64, String>) -> Result<nat, Seq<char>> {
    match r {
        Ok(v) => Ok(v as nat),
        Err(e) => Err(e@),
    }
}

/// Reads the matched text of a search outcome as an unsigned number no
/// greater than `max`.
pub fn parse_found(found: Option<Option<&str>>, max: u64) -> (r: Result<u64, String>)
    ensures
        result_view(r) == parse_outcome(found_view(found), max as nat),
{
    match found {
        Some(Some(m)) => match parse_unsigned(m, max) {
            Some(v) => Ok(v),
            None => Err(String::from_str("failed to parse captured string")),
        },
        _ => Err(String::from_str("failed to parse string")),
    }
}

/// Finds the first decimal number in `s` and reads it as an unsigned number
/// no greater than `max`.
pub fn parse_first_number(s: &str, max: u64) -> (r: Result<u64, String>)
    ensures
        result_view(r) == parse_outcome(regex_first_match(number_pattern(), s@), max as nat),
        is_ascii_chars(s@) ==> result_view(r) == parse_outcome(
            Some(number_match(s@)),
            max as nat,
        ),
{
    let found = first_match("\\d+(\\.\\d+)?", s);
    parse_found(found, max)
}

/// The outcome of reading a signed number from `min` to `max` from a search
/// outcome.
pub open spec fn parse_outcome_signed(found: Option<Option<Seq<char>>>, min: int, max: int) -> Result<
    int,
    Seq<char>,
> {
    match found {
        Some(Some(m)) => match signed_text_value(m) {
            Some(v) => if min <= v <= max {
                Ok(v)
            } else {
                Err(bad_number_message())
            },
            None => Err(bad_number_message()),
        },
        _ => Err(no_number_message()),
    }
}

/// The views of a signed parse result.
pub open spec fn signed_result_view(r: Result<i64, String>) -> Result<int, Seq<char>> {
    match r {
        Ok(v) => Ok(v as int),
        Err(e) => Err(e@),
    }
}

/// Reads the matched text of a search outcome as a signed number from `min`
/// to `max`.
pub fn parse_found_signed(found: Option<Option<&str>>, min: i64, max: i64) -> (r: Result<
    i64,
    String,
>)
    ensures
        signed_result_view(r) == parse_outcome_signed(found_view(found), min as int, max as int),
{
    match found {
        Some(Some(m)) => match parse_i64(m) {
            Some(v) => {
                if min <= v && v <= max {
                    Ok(v)
                } else {
                    Err(String::from_str("failed to parse captured string"))
                }
            },
            None => Err(String::from_str("failed to parse captured string")),
        },
        _ => Err(String::from_str("failed to parse string")),
    }
}

/// Finds the first decimal number in `s` and reads it as a signed number
/// from `min` to `max`.
pub fn parse_first_signed(s: &str, min: i64, max: i64) -> (r: Result<i64, String>)
    ensures
        signed_result_view(r) == parse_outcome_signed(
            regex_first_match(number_pattern(), s@),
            min as int,
            max as int,
        ),
        is_ascii_chars(s@) ==> signed_result_view(r) == parse_outcome_signed(
            Some(number_match(s@)),
            min as int,
            max as int,
        ),
{
    let found = first_match("\\d+(\\.\\d+)?", s);
    parse_found_signed(found, min, max)
}

impl Parse for i8 {
    type Error = String;

    fn parse(s: &str) -> (r: Result<i8, String>)
        ensures
            parse_outcome_signed(regex_first_match(number_pattern(), s@), -0x80, 0x7f) == match r {
                Ok(v) => Ok::<int, Seq<char>>(v as int),
                Err(e) => Err(e@),
            },
            is_ascii_chars(s@) ==> parse_outcome_signed(Some(number_match(s@)), -0x80, 0x7f) == match r {
                Ok(v) => Ok::<int, Seq<char>>(v as int),
                Err(e) => Err(e@),
            },
    {
        match parse_first_signed(s, -0x80, 0x7f) {
            Ok(v) => Ok(v as i8),
            Err(e) => Err(e),
        }
    }
}

impl Parse for i16 {
    type Error = String;

    fn parse(s: &str) -> (r: Result<i16, String>)
        ensures
            parse_outcome_signed(regex_first_match(number_pattern(), s@), -0x8000, 0x7fff)
                == match r {
                Ok(v) => Ok::<int, Seq<char>>(v as int),
                Err(e) => Err(e@),
            },
            is_ascii_chars(s@) ==> parse_outcome_signed(Some(number_match(s@)), -0x8000, 0x7fff)
                == match r {
                Ok(v) => Ok::<int, Seq<char>>(v as int),
                Err(e) => Err(e@),
            },
    {
        match parse_first_signed(s, -0x8000, 0x7fff) {
            Ok(v) => Ok(v as i16),
            Err(e) => Err(e),
        }
    }
}

impl Parse for i32 {
    type Error = String;

    fn parse(s: &str) -> (r: Result<i32, String>)
        ensures
            parse_outcome_signed(
                regex_first_match(number_pattern(), s@),
                -0x8000_0000,
                0x7fff_ffff,
            ) == match r {
                Ok(v) => Ok::<int, Seq<char>>(v as int),
                Err(e) => Err(e@),
            },
            is_ascii_chars(s@) ==> parse_outcome_signed(
                Some(number_match(s@)),
                -0x8000_0000,
                0x7fff_ffff,
            ) == match r {
                Ok(v) => Ok::<int, Seq<char>>(v as int),
                Err(e) => Err(e@),
            },
    {
        match parse_first_signed(s, -0x8000_0000, 0x7fff_ffff) {
            Ok(v) => Ok(v as i32),
            Err(e) => Err(e),
        }
    }
}

impl Parse for i64 {
    type Error = String;

    fn parse(s: &str) -> (r: Result<i64, String>)
        ensures
            parse_outcome_signed(
                regex_first_match(number_pattern(), s@),
                i64::MIN as int,
                i64::MAX as int,
            ) == match r {
                Ok(v) => Ok::<int, Seq<char>>(v as int),
                Err(e) => Err(e@),
            },
            is_ascii_chars(s@) ==> parse_outcome_signed(
                Some(number_match(s@)),
                i64::MIN as int,
                i64::MAX as int,
            ) == match r {
                Ok(v) => Ok::<int, Seq<char>>(v as int),
                Err(e) => Err(e@),
            },
    {
        parse_first_signed(s, i64::MIN, i64::MAX)
    }
}

impl Parse for u8 {
    type Error = String;

    fn parse(s: &str) -> (r: Result<u8, String>)
        ensures
            parse_outcome(regex_first_match(number_pattern(), s@), 0xff) == match r {
                Ok(v) => Ok::<nat, Seq<char>>(v as nat),
                Err(e) => Err(e@),
            },
            is_ascii_chars(s@) ==> parse_outcome(Some(number_match(s@)), 0xff) == match r {
                Ok(v) => Ok::<nat, Seq<char>>(v as nat),
                Err(e) => Err(e@),
            },
    {
        match parse_first_number(s, 0xff) {
            Ok(v) => Ok(v as u8),
            Err(e) => Err(e),
        }
    }
}

impl Parse for u16 {
    type Error = String;

    fn parse(s: &str) -> (r: Result<u16, String>)
        ensures
            parse_outcome(regex_first_match(number_pattern(), s@), 0xffff) == match r {
                Ok(v) => Ok::<nat, Seq<char>>(v as nat),
                Err(e) => Err(e@),
            },
            is_ascii_chars(s@) ==> parse_outcome(Some(number_match(s@)), 0xffff) == match r {
                Ok(v) => Ok::<nat, Seq<char>>(v as nat),
                Err(e) => Err(e@),
            },
    {
        match parse_first_number(s, 0xffff) {
            Ok(v) => Ok(v as u16),
            Err(e) => Err(e),
        }
    }
}

impl Parse for u32 {
    type Error = String;

    fn parse(s: &str) -> (r: Result<u32, String>)
        ensures
            parse_outcome(regex_first_match(number_pattern(), s@), 0xffff_ffff) == match r {
                Ok(v) => Ok::<nat, Seq<char>>(v as nat),
                Err(e) => Err(e@),
            },
            is_ascii_chars(s@) ==> parse_outcome(Some(number_match(s@)), 0xffff_ffff) == match r {
                Ok(v) => Ok::<nat, Seq<char>>(v as nat),
                Err(e) => Err(e@),
            },
    {
        match parse_first_number(s, 0xffff_ffff) {
            Ok(v) => Ok(v as u32),
            Err(e) => Err(e),
        }
    }
}

impl Parse for u64 {
    type Error = String;

    fn parse(s: &str) -> (r: Result<u64, String>)
        ensures
            parse_outcome(regex_first_match(number_pattern(), s@), 0xffff_ffff_ffff_ffff) == match r {
                Ok(v) => Ok::<nat, Seq<char>>(v as nat),
                Err(e) => Err(e@),
            },
            is_ascii_chars(s@) ==> parse_outcome(Some(number_match(s@)), 0xffff_ffff_ffff_ffff) == match r {
                Ok(v) => Ok::<nat, Seq<char>>(v as nat),
                Err(e) => Err(e@),
            },
    {
        parse_first_number(s, 0xffff_ffff_ffff_ffff)
    }
}

proof fn lemma_first_digit_at(s: Seq<char>, i: int, k: int)
    requires
        0 <= i <= k <= s.len(),
        forall|j: int| i <= j < k ==> !is_digit(#[trigger] s[j]),
        k < s.len() ==> is_digit(s[k]),
    ensures
        first_digit(s, i) == k,
    decreases k - i,
{
    if i < k {
        lemma_first_digit_at(s, i + 1, k);
    }
}

proof fn lemma_digit_run_to(s: Seq<char>, i: int, k: int)
    requires
        0 <= i <= k <= s.len(),
        forall|j: int| i <= j < k ==> is_digit(#[trigger] s[j]),
        k < s.len() ==> !is_digit(s[k]),
    ensures
        digit_run(s, i) == k - i,
    decreases k - i,
{
    if i < k {
        lemma_digit_run_to(s, i + 1, k);
    }
}

/// Whether `c` is not an ASCII digit.
pub open spec fn no_digits(p: Seq<char>) -> bool {
    forall|i: int| 0 <= i < p.len() ==> !is_digit(#[trigger] p[i])
}

/// Whether `t` can follow a number without extending it: it neither starts
/// with a digit nor with a dot followed by a digit.
pub open spec fn ends_number(t: Seq<char>) -> bool {
    t.len() > 0 ==> !is_digit(t[0]) && !(t[0] == '.' && t.len() > 1 && is_digit(t[1]))
}

/// In ASCII text `p + d + t`, where `p` holds no digit, `d` is a run of
/// digits and `t` does not go on with the number, the number found is `d`:
/// read as an unsigned number it is its value when that fits under `max`,
/// and otherwise the number does not fit; read as a signed number with a
/// lower bound at most zero, likewise.
pub proof fn lemma_first_number_is_whole_digit_run(
    p: Seq<char>,
    d: Seq<char>,
    t: Seq<char>,
    min: int,
    max: nat,
)
    requires
        no_digits(p),
        d.len() > 0,
        all_digits(d),
        ends_number(t),
        min <= 0,
    ensures
        number_match(p + d + t) == Some(d),
        parse_outcome(Some(number_match(p + d + t)), max) == if digits_value(d) <= max {
            Ok::<nat, Seq<char>>(digits_value(d))
        } else {
            Err("failed to parse captured string"@)
        },
        parse_outcome_signed(Some(number_match(p + d + t)), min, max as int) == if digits_value(d)
            <= max {
            Ok::<int, Seq<char>>(digits_value(d) as int)
        } else {
            Err("failed to parse captured string"@)
        },
{
    let s = p + d + t;
    let a = p.len() as int;
    let b = a + d.len();
    assert forall|j: int| 0 <= j < a implies !is_digit(#[trigger] s[j]) by {
        assert(s[j] == p[j]);
    }
    assert(s[a] == d[0]);
    lemma_first_digit_at(s, 0, a);
    assert forall|j: int| a <= j < b implies is_digit(#[trigger] s[j]) by {
        assert(s[j] == d[j - a]);
    }
    if b < s.len() {
        assert(s[b] == t[0]);
    }
    lemma_digit_run_to(s, a, b);
    if b + 1 < s.len() {
        assert(s[b + 1] == t[1]);
    }
    assert(s.subrange(a, b) =~= d);
    assert(d[0] != '+' && d[0] != '-') by {
        assert(is_digit(d[0]));
    }
    assert(digits_text_value(d) == Some(digits_value(d)));
}

/// In ASCII text `p + d + "." + f + t`, where `p` holds no digit, `d` and
/// `f` are runs of digits and `t` does not start with a digit, the number
/// found is `d.f`, which no integer type reads.
pub proof fn lemma_first_number_with_fraction(
    p: Seq<char>,
    d: Seq<char>,
    f: Seq<char>,
    t: Seq<char>,
    min: int,
    max: nat,
)
    requires
        no_digits(p),
        d.len() > 0,
        all_digits(d),
        f.len() > 0,
        all_digits(f),
        t.len() > 0 ==> !is_digit(t[0]),
    ensures
        number_match(p + d + seq!['.'] + f + t) == Some(d + seq!['.'] + f),
        parse_outcome(Some(number_match(p + d + seq!['.'] + f + t)), max) == Err::<nat, Seq<char>>(
            "failed to parse captured string"@,
        ),
        parse_outcome_signed(Some(number_match(p + d + seq!['.'] + f + t)), min, max as int)
            == Err::<int, Seq<char>>("failed to parse captured string"@),
{
    let s = p + d + seq!['.'] + f + t;
    let a = p.len() as int;
    let b = a + d.len();
    let c = b + 1 + f.len();
    assert forall|j: int| 0 <= j < a implies !is_digit(#[trigger] s[j]) by {
        assert(s[j] == p[j]);
    }
    assert(s[a] == d[0]);
    lemma_first_digit_at(s, 0, a);
    assert forall|j: int| a <= j < b implies is_digit(#[trigger] s[j]) by {
        assert(s[j] == d[j - a]);
    }
    assert(s[b] == '.');
    lemma_digit_run_to(s, a, b);
    assert forall|j: int| b + 1 <= j < c implies is_digit(#[trigger] s[j]) by {
        assert(s[j] == f[j - b - 1]);
    }
    if c < s.len() {
        assert(s[c] == t[0]);
    }
    assert(s[b + 1] == f[0]);
    lemma_digit_run_to(s, b + 1, c);
    let m = d + seq!['.'] + f;
    assert(s.subrange(a, c) =~= m);
    assert(m[0] == d[0]);
    assert(m[d.len() as int] == '.');
    assert(!all_digits(m));
    assert(m.drop_first()[d.len() - 1] == '.');
    assert(!all_digits(m.drop_first()));
}

/// ASCII text without a digit holds no number.
pub proof fn lemma_no_number_without_digits(s: Seq<char>, min: int, max: nat)
    requires
        no_digits(s),
    ensures
        number_match(s) is None,
        parse_outcome(Some(number_match(s)), max) == Err::<nat, Seq<char>>("failed to parse string"@),
        parse_outcome_signed(Some(number_match(s)), min, max as int) == Err::<int, Seq<char>>(
            "failed to parse string"@,
        ),
{
    lemma_first_digit_at(s, 0, s.len() as int);
}

} // verus!
