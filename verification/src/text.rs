//! Tokenizing and slicing of string slices.
use vstd::prelude::*;

verus! {

/// Index of the first occurrence of `d` in `s`, or `s.len()` when `d` does not occur.
pub open spec fn first_index(s: Seq<char>, d: char) -> nat
    decreases s.len(),
{
    if s.len() == 0 {
        0
    } else if s[0] == d {
        0
    } else {
        1 + first_index(s.drop_first(), d)
    }
}

/// What one `strtok` call makes of `s`: the part before the first `d` and
/// the rest after it, or all of `s` and nothing when `d` does not occur.
pub open spec fn strtok_step(s: Seq<char>, d: char) -> (Seq<char>, Seq<char>) {
    let i = first_index(s, d) as int;
    if i < s.len() {
        (s.subrange(0, i), s.subrange(i + 1, s.len() as int))
    } else {
        (s, Seq::empty())
    }
}

/// The pieces of `s` between occurrences of `d`, as `str::split` yields them.
pub open spec fn split_parts(s: Seq<char>, d: char) -> Seq<Seq<char>>
    decreases s.len(),
{
    let i = first_index(s, d) as int;
    if i < s.len() {
        seq![s.subrange(0, i)] + split_parts(s.subrange(i + 1, s.len() as int), d)
    } else {
        seq![s]
    }
}

/// The pieces joined again, with `d` between each two.
pub open spec fn join_parts(parts: Seq<Seq<char>>, d: char) -> Seq<char>
    decreases parts.len(),
{
    if parts.len() <= 1 {
        if parts.len() == 1 {
            parts[0]
        } else {
            Seq::empty()
        }
    } else {
        parts[0] + seq![d] + join_parts(parts.drop_first(), d)
    }
}

/// The pieces returned by `k` calls of `strtok` in a row, starting from `s`.
pub open spec fn strtok_tokens(s: Seq<char>, d: char, k: nat) -> Seq<Seq<char>>
    decreases k,
{
    if k == 0 {
        Seq::empty()
    } else {
        seq![strtok_step(s, d).0] + strtok_tokens(strtok_step(s, d).1, d, (k - 1) as nat)
    }
}

/// What is left of `s` after `k` calls of `strtok` in a row.
pub open spec fn strtok_rest(s: Seq<char>, d: char, k: nat) -> Seq<char>
    decreases k,
{
    if k == 0 {
        s
    } else {
        strtok_rest(strtok_step(s, d).1, d, (k - 1) as nat)
    }
}

proof fn lemma_first_index(s: Seq<char>, d: char)
    ensures
        first_index(s, d) <= s.len(),
        first_index(s, d) < s.len() ==> s[first_index(s, d) as int] == d,
        forall|j: int| 0 <= j < first_index(s, d) ==> s[j] != d,
    decreases s.len(),
{
    if s.len() > 0 && s[0] != d {
        lemma_first_index(s.drop_first(), d);
        assert forall|j: int| 0 <= j < first_index(s, d) implies s[j] != d by {
            if j > 0 {
                assert(s[j] == s.drop_first()[j - 1]);
            }
        }
    }
}

/// Calling `strtok` again and again yields the pieces of `str::split`, in
/// order, then empty pieces; once every piece was taken nothing is left.
pub proof fn lemma_strtok_splits(s: Seq<char>, d: char, k: nat)
    ensures
        strtok_tokens(s, d, k).len() == k,
        forall|j: int|
            0 <= j < k ==> #[trigger] strtok_tokens(s, d, k)[j] == if j < split_parts(s, d).len() {
                split_parts(s, d)[j]
            } else {
                Seq::<char>::empty()
            },
        k >= split_parts(s, d).len() ==> strtok_rest(s, d, k) == Seq::<char>::empty(),
    decreases k,
{
    if k > 0 {
        lemma_first_index(s, d);
        let (t, r) = strtok_step(s, d);
        lemma_strtok_splits(r, d, (k - 1) as nat);
        let toks = strtok_tokens(s, d, k);
        let rest_toks = strtok_tokens(r, d, (k - 1) as nat);
        assert(toks == seq![t] + rest_toks);
        let i = first_index(s, d) as int;
        if i < s.len() {
            assert(split_parts(s, d) == seq![t] + split_parts(r, d));
            assert forall|j: int| 0 <= j < k implies #[trigger] toks[j] == if j < split_parts(
                s,
                d,
            ).len() {
                split_parts(s, d)[j]
            } else {
                Seq::<char>::empty()
            } by {
                if j > 0 {
                    assert(toks[j] == rest_toks[j - 1]);
                }
            }
        } else {
            assert(r == Seq::<char>::empty());
            assert(split_parts(s, d) == seq![s]);
            assert(first_index(r, d) == 0);
            assert(split_parts(r, d) == seq![r]);
            assert forall|j: int| 0 <= j < k implies #[trigger] toks[j] == if j < split_parts(
                s,
                d,
            ).len() {
                split_parts(s, d)[j]
            } else {
                Seq::<char>::empty()
            } by {
                if j > 0 {
                    assert(toks[j] == rest_toks[j - 1]);
                }
            }
        }
    }
}

/// The pieces of `split_parts` contain no `d` and join back into `s`.
pub proof fn lemma_split_parts_join(s: Seq<char>, d: char)
    ensures
        split_parts(s, d).len() >= 1,
        join_parts(split_parts(s, d), d) == s,
        forall|j: int|
            0 <= j < split_parts(s, d).len() ==> !(#[trigger] split_parts(s, d)[j]).contains(d),
    decreases s.len(),
{
    lemma_first_index(s, d);
    let i = first_index(s, d) as int;
    let head = s.subrange(0, i);
    assert(!head.contains(d)) by {
        assert forall|j: int| 0 <= j < head.len() implies head[j] != d by {
            assert(head[j] == s[j]);
        }
    }
    if i < s.len() {
        let r = s.subrange(i + 1, s.len() as int);
        lemma_split_parts_join(r, d);
        let parts = split_parts(s, d);
        assert(parts == seq![head] + split_parts(r, d));
        assert(parts.drop_first() =~= split_parts(r, d));
        assert(parts.len() >= 2);
        assert(join_parts(parts, d) == head + seq![d] + join_parts(split_parts(r, d), d));
        assert(s =~= head + seq![d] + r);
        assert forall|j: int| 0 <= j < parts.len() implies !(#[trigger] parts[j]).contains(d) by {
            if j > 0 {
                assert(parts[j] == split_parts(r, d)[j - 1]);
            }
        }
    } else {
        assert(head =~= s);
    }
}

/// A position `i` with `s[i] == d` and no `d` before it is `first_index(s, d)`.
proof fn lemma_first_index_at(s: Seq<char>, d: char, i: int)
    requires
        0 <= i <= s.len(),
        i < s.len() ==> s[i] == d,
        forall|j: int| 0 <= j < i ==> s[j] != d,
    ensures
        first_index(s, d) == i,
    decreases s.len(),
{
    if s.len() > 0 && i > 0 {
        assert(s[0] != d);
        let t = s.drop_first();
        assert forall|j: int| 0 <= j < i - 1 implies t[j] != d by {
            assert(t[j] == s[j + 1]);
        }
        if i - 1 < t.len() {
            assert(t[i - 1] == s[i]);
        }
        lemma_first_index_at(t, d, i - 1);
    }
}

/// Splits `*s` at the first occurrence of `d`: returns the part before it and
/// leaves `*s` pointing just past it. Without an occurrence, returns all of
/// `*s` and leaves `*s` empty.
pub fn strtok<'a>(s: &mut &'a str, d: char) -> (prefix: &'a str)
    ensures
        ({
            let orig = old(s)@;
            let i = first_index(orig, d) as int;
            if i < orig.len() {
                &&& prefix@ == orig.subrange(0, i)
                &&& final(s)@ == orig.subrange(i + 1, orig.len() as int)
                &&& orig == prefix@ + seq![d] + final(s)@
                &&& !prefix@.contains(d)
            } else {
                &&& prefix@ == orig
                &&& final(s)@ == Seq::<char>::empty()
                &&& !prefix@.contains(d)
            }
        }),
        (prefix@, final(s)@) == strtok_step(old(s)@, d),
{
    let whole: &'a str = *s;
    let n = whole.unicode_len();
    let mut i: usize = 0;
    while i < n
        invariant
            n == whole@.len(),
            whole@ == old(s)@,
            i <= n,
            forall|j: int| 0 <= j < i ==> whole@[j] != d,
        decreases n - i,
    {
        if whole.get_char(i) == d {
            proof {
                lemma_first_index_at(whole@, d, i as int);
            }
            let prefix = whole.substring_char(0, i);
            *s = whole.substring_char(i + 1, n);
            assert(whole@ =~= prefix@ + seq![d] + whole@.subrange(i + 1, n as int));
            assert(!prefix@.contains(d)) by {
                assert forall|j: int| 0 <= j < prefix@.len() implies prefix@[j] != d by {
                    assert(prefix@[j] == whole@[j]);
                }
            }
            return prefix;
        }
        i = i + 1;
    }
    proof {
        lemma_first_index_at(whole@, d, n as int);
    }
    *s = whole.substring_char(n, n);
    assert(s@ =~= Seq::<char>::empty());
    assert(!whole@.contains(d));
    whole
}

/// Whether `name[1..]` is a valid slice: the string is non-empty and its
/// first character takes a single UTF-8 byte.
pub open spec fn drops_first_byte_cleanly(name: Seq<char>) -> bool {
    name.len() >= 1 && (name[0] as u32) < 0x80
}

/// The owned string "Tyr" without its first character.
pub fn lifetime1() -> (r: String)
    ensures
        r@ == seq!['y', 'r'],
{
    let name = String::from_str("Tyr");
    proof {
        reveal_strlit("Tyr");
    }
    let n = name.as_str().unicode_len();
    let rest = name.as_str().substring_char(1, n);
    rest.to_owned()
}

/// `name` without its first character.
pub fn lifetime2(name: String) -> (r: String)
    requires
        drops_first_byte_cleanly(name@),
    ensures
        r@ == name@.drop_first(),
{
    let n = name.as_str().unicode_len();
    let rest = name.as_str().substring_char(1, n);
    rest.to_owned()
}

/// The characters of `name`, in order.
pub fn lifetime3(name: &str) -> (r: Vec<char>)
    ensures
        r@ == name@,
{
    let n = name.unicode_len();
    let mut out: Vec<char> = Vec::new();
    let mut i: usize = 0;
    while i < n
        invariant
            n == name@.len(),
            i <= n,
            out@ == name@.subrange(0, i as int),
        decreases n - i,
    {
        out.push(name.get_char(i));
        i = i + 1;
        assert(out@ =~= name@.subrange(0, i as int));
    }
    assert(out@ =~= name@);
    out
}

} // verus!
