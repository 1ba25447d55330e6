//! The decisions of a number guessing game: the secret number, and what a
//! line typed by the player amounts to.
use vstd::prelude::*;
use crate::numbers::{parse_i64, signed_text_value};

verus! {

/// Whether `c` is Unicode white space (the `White_Space` property).
pub open spec fn is_white(c: char) -> bool {
    let u = c as u32;
    (0x09 <= u <= 0x0d) || u == 0x20 || u == 0x85 || u == 0xa0 || u == 0x1680 || (0x2000 <= u
        <= 0x200a) || u == 0x2028 || u == 0x2029 || u == 0x202f || u == 0x205f || u == 0x3000
}

/// The number of white space characters at the start of `s`.
pub open spec fn lead_white(s: Seq<char>) -> nat
    decreases s.len(),
{
    if s.len() == 0 {
        0
    } else if is_white(s[0]) {
        1 + lead_white(s.drop_first())
    } else {
        0
    }
}

/// The number of white space characters at the end of `s`.
pub open spec fn trail_white(s: Seq<char>) -> nat
    decreases s.len(),
{
    if s.len() == 0 {
        0
    } else if is_white(s.last()) {
        1 + trail_white(s.drop_last())
    } else {
        0
    }
}

/// `s` without leading and trailing white space.
pub open spec fn trimmed(s: Seq<char>) -> Seq<char> {
    let t = s.skip(lead_white(s) as int);
    t.take(t.len() - trail_white(t))
}

proof fn lemma_lead_white(s: Seq<char>, i: int)
    requires
        0 <= i <= s.len(),
        forall|k: int| 0 <= k < i ==> is_white(#[trigger] s[k]),
        i < s.len() ==> !is_white(s[i]),
    ensures
        lead_white(s) == i,
    decreases s.len(),
{
    if i > 0 {
        let t = s.drop_first();
        assert forall|k: int| 0 <= k < i - 1 implies is_white(#[trigger] t[k]) by {
            assert(t[k] == s[k + 1]);
        }
        if i - 1 < t.len() {
            assert(t[i - 1] == s[i]);
        }
        assert(is_white(s[0]));
        lemma_lead_white(t, i - 1);
    }
}

proof fn lemma_trail_white(s: Seq<char>, j: int)
    requires
        0 <= j <= s.len(),
        forall|k: int| j <= k < s.len() ==> is_white(#[trigger] s[k]),
        j > 0 ==> !is_white(s[j - 1]),
    ensures
        trail_white(s) == s.len() - j,
    decreases s.len(),
{
    if j < s.len() {
        let t = s.drop_last();
        assert forall|k: int| j <= k < t.len() implies is_white(#[trigger] t[k]) by {
            assert(t[k] == s[k]);
        }
        if j > 0 {
            assert(t[j - 1] == s[j - 1]);
        }
        assert(is_white(s.last()));
        lemma_trail_white(t, j);
    }
}

/// Whether `c` is Unicode white space.
fn white(c: char) -> (r: bool)
    ensures
        r == is_white(c),
{
    let u = c as u32;
    (0x09 <= u && u <= 0x0d) || u == 0x20 || u == 0x85 || u == 0xa0 || u == 0x1680 || (0x2000
        <= u && u <= 0x200a) || u == 0x2028 || u == 0x2029 || u == 0x202f || u == 0x205f || u
        == 0x3000
}

/// `s` without leading and trailing white space.
pub fn trim(s: &str) -> (r: &str)
    ensures
        r@ == trimmed(s@),
{
    let n = s.unicode_len();
    let mut i: usize = 0;
    while i < n && white(s.get_char(i))
        invariant
            n == s@.len(),
            i <= n,
            forall|k: int| 0 <= k < i ==> is_white(#[trigger] s@[k]),
        decreases n - i,
    {
        i = i + 1;
    }
    proof {
        lemma_lead_white(s@, i as int);
    }
    let mut j: usize = n;
    while j > i && white(s.get_char(j - 1))
        invariant
            n == s@.len(),
            i <= j <= n,
            forall|k: int| j <= k < n ==> is_white(#[trigger] s@[k]),
        decreases j - i,
    {
        j = j - 1;
    }
    let ghost t = s@.skip(i as int);
    proof {
        assert forall|k: int| j - i <= k < t.len() implies is_white(#[trigger] t[k]) by {
            assert(t[k] == s@[k + i]);
        }
        if j > i {
            assert(t[j - i - 1] == s@[j - 1]);
        }
        lemma_trail_white(t, j - i);
    }
    let r = s.substring_char(i, j);
    assert(r@ =~= t.take(t.len() - trail_white(t)));
    r
}

/// What a typed line amounts to against the secret number.
#[derive(Clone, Copy, Debug, PartialEq, Eq, Structural)]
pub enum Guess {
    /// Not a number: the line is ignored.
    NotANumber,
    /// The number is smaller than the secret.
    TooSmall,
    /// The number is larger than the secret.
    TooBig,
    /// The number is the secret: the game ends.
    Correct,
}

/// What the line `input` amounts to when the secret is `secret`.
pub open spec fn verdict(input: Seq<char>, secret: i64) -> Guess {
    match signed_text_value(trimmed(input)) {
        Some(g) => if g < i64::MIN || g > i64::MAX {
            Guess::NotANumber
        } else if g < secret {
            Guess::TooSmall
        } else if g > secret {
            Guess::TooBig
        } else {
            Guess::Correct
        },
        None => Guess::NotANumber,
    }
}

/// Judges one typed line (white space around it is ignored; it must read
/// as a 64-bit integer) against the secret.
pub fn judge(input: &str, secret: i64) -> (r: Guess)
    ensures
        r == verdict(input@, secret),
{
    let line = trim(input);
    match parse_i64(line) {
        Some(g) => {
            if g < secret {
                Guess::TooSmall
            } else if g > secret {
                Guess::TooBig
            } else {
                Guess::Correct
            }
        },
        None => Guess::NotANumber,
    }
}

/// A line is judged by the number it reads as, whatever its size: when the
/// line without the white space around it is a decimal 64-bit integer `g`,
/// the guess is too small exactly when `g` is below the secret, too big
/// exactly when it is above, and correct exactly when it equals it; the line
/// is taken for no number only when it does not read as a 64-bit integer.
pub proof fn lemma_judged_by_value(input: Seq<char>, secret: i64)
    ensures
        signed_text_value(trimmed(input)) matches Some(g) ==> (i64::MIN <= g <= i64::MAX ==> {
            &&& verdict(input, secret) == Guess::TooSmall <==> g < secret
            &&& verdict(input, secret) == Guess::TooBig <==> g > secret
            &&& verdict(input, secret) == Guess::Correct <==> g == secret
        }),
        verdict(input, secret) == Guess::NotANumber <==> !(signed_text_value(trimmed(input)) matches Some(
            g,
        ) && i64::MIN <= g <= i64::MAX),
{
}

#[verifier::external_type_specification]
#[verifier::external_body]
pub struct ExThreadRng(rand::rngs::ThreadRng);

/// Calls `rand::thread_rng`: the thread's random number generator.
#[verifier::external_body]
fn thread_rng() -> rand::rngs::ThreadRng {
    rand::thread_rng()
}

/// Whether `r` came out of a uniform random draw over `lo..=hi`.
pub uninterp spec fn drawn_between(r: i64, lo: i64, hi: i64) -> bool;

/// Calls `Rng::gen_range` on `lo..=hi`: a number drawn at random from that
/// range (which number is left to chance).
#[verifier::external_body]
fn gen_range_inclusive(rng: &mut rand::rngs::ThreadRng, lo: i64, hi: i64) -> (r: i64)
    requires
        lo <= hi,
    ensures
        lo <= r <= hi,
        drawn_between(r, lo, hi),
{
    rand::Rng::gen_range(rng, lo..=hi)
}

/// A secret number drawn at random from 0 to 100.
pub fn new_secret() -> (r: i64)
    ensures
        0 <= r <= 100,
        drawn_between(r, 0, 100),
{
    let mut rng = thread_rng();
    gen_range_inclusive(&mut rng, 0, 100)
}

} // verus!
