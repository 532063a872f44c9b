//! Byte strings: searching, comparing and joining. Names, paths and URLs are
//! held as bytes throughout.

use vstd::prelude::*;
use vstd::string::StringSliceAdditionalSpecFns;

verus! {

/// The first index at or after `from` at which `s` holds `c`.
pub open spec fn spec_find_from(s: Seq<u8>, c: u8, from: int) -> Option<int>
    decreases s.len() - from,
{
    if from < 0 || from >= s.len() {
        None
    } else if s[from] == c {
        Some(from)
    } else {
        spec_find_from(s, c, from + 1)
    }
}

/// The first index at which `s` holds `c`.
pub open spec fn spec_find(s: Seq<u8>, c: u8) -> Option<int> {
    spec_find_from(s, c, 0)
}

/// The last index below `end` at which `s` holds `c`.
pub open spec fn spec_rfind_below(s: Seq<u8>, c: u8, end: int) -> Option<int>
    decreases end,
{
    if end <= 0 || end > s.len() {
        None
    } else if s[end - 1] == c {
        Some(end - 1)
    } else {
        spec_rfind_below(s, c, end - 1)
    }
}

/// `spec_find_from` gives the first occurrence, and `None` where there is none.
pub proof fn lemma_find_from(s: Seq<u8>, c: u8, from: int)
    requires
        0 <= from,
    ensures
        match spec_find_from(s, c, from) {
            Some(k) => from <= k < s.len() && s[k] == c && forall|j: int|
                from <= j < k ==> s[j] != c,
            None => forall|j: int| from <= j < s.len() ==> s[j] != c,
        },
    decreases s.len() - from,
{
    if from < s.len() && s[from] != c {
        lemma_find_from(s, c, from + 1);
    }
}

/// `spec_rfind_below` gives the last occurrence below `end`, and `None` where
/// there is none.
pub proof fn lemma_rfind_below(s: Seq<u8>, c: u8, end: int)
    requires
        end <= s.len(),
    ensures
        match spec_rfind_below(s, c, end) {
            Some(k) => 0 <= k < end && s[k] == c && forall|j: int| k < j < end ==> s[j] != c,
            None => forall|j: int| 0 <= j < end ==> s[j] != c,
        },
    decreases end,
{
    if end > 0 && s[end - 1] != c {
        lemma_rfind_below(s, c, end - 1);
    }
}

/// Finds the first `c` in `s`.
pub fn find(s: &[u8], c: u8) -> (r: Option<usize>)
    ensures
        match r {
            Some(k) => spec_find(s@, c) == Some(k as int) && k < s@.len(),
            None => spec_find(s@, c) is None,
        },
{
    let mut i: usize = 0;
    while i < s.len()
        invariant
            i <= s.len(),
            spec_find_from(s@, c, i as int) == spec_find(s@, c),
        decreases s.len() - i,
    {
        if s[i] == c {
            return Some(i);
        }
        i += 1;
    }
    None
}

/// Finds the last `c` in `s[..end]`.
pub fn rfind_below(s: &[u8], c: u8, end: usize) -> (r: Option<usize>)
    requires
        end <= s.len(),
    ensures
        match r {
            Some(k) => spec_rfind_below(s@, c, end as int) == Some(k as int) && k < end,
            None => spec_rfind_below(s@, c, end as int) is None,
        },
{
    let mut i: usize = end;
    while i > 0
        invariant
            i <= end <= s.len(),
            spec_rfind_below(s@, c, i as int) == spec_rfind_below(s@, c, end as int),
        decreases i,
    {
        if s[i - 1] == c {
            return Some(i - 1);
        }
        i -= 1;
    }
    None
}

/// Tells whether two byte strings are equal.
pub fn bytes_eq(a: &[u8], b: &[u8]) -> (r: bool)
    ensures
        r == (a@ == b@),
{
    if a.len() != b.len() {
        return false;
    }
    let mut i: usize = 0;
    while i < a.len()
        invariant
            i <= a.len(),
            a.len() == b.len(),
            forall|j: int| 0 <= j < i ==> a@[j] == b@[j],
        decreases a.len() - i,
    {
        if a[i] != b[i] {
            return false;
        }
        i += 1;
    }
    assert(a@ =~= b@);
    true
}

/// Tells whether `s` starts with `prefix`.
pub fn starts_with(s: &[u8], prefix: &[u8]) -> (r: bool)
    ensures
        r == prefix@.is_prefix_of(s@),
{
    if prefix.len() > s.len() {
        return false;
    }
    let mut i: usize = 0;
    while i < prefix.len()
        invariant
            i <= prefix.len() <= s.len(),
            forall|j: int| 0 <= j < i ==> s@[j] == prefix@[j],
        decreases prefix.len() - i,
    {
        if s[i] != prefix[i] {
            assert(s@.subrange(0, prefix@.len() as int)[i as int] != prefix@[i as int]);
            return false;
        }
        i += 1;
    }
    assert(s@.subrange(0, prefix@.len() as int) =~= prefix@);
    true
}

/// Appends `s[from..to]` to `dst`.
pub fn push_range(dst: &mut Vec<u8>, s: &[u8], from: usize, to: usize)
    requires
        from <= to <= s.len(),
    ensures
        final(dst)@ == old(dst)@ + s@.subrange(from as int, to as int),
{
    let mut i: usize = from;
    while i < to
        invariant
            from <= i <= to <= s.len(),
            dst@ == old(dst)@ + s@.subrange(from as int, i as int),
        decreases to - i,
    {
        dst.push(s[i]);
        i += 1;
        assert(dst@ =~= old(dst)@ + s@.subrange(from as int, i as int));
    }
}

/// Appends `s` to `dst`.
pub fn push_all(dst: &mut Vec<u8>, s: &[u8])
    ensures
        final(dst)@ == old(dst)@ + s@,
{
    push_range(dst, s, 0, s.len());
    assert(s@.subrange(0, s@.len() as int) =~= s@);
}

/// A copy of `s` without its first `from` bytes.
pub fn copy_from(s: &[u8], from: usize) -> (r: Vec<u8>)
    requires
        from <= s.len(),
    ensures
        r@ == s@.skip(from as int),
{
    let r = copy_range(s, from, s.len());
    assert(s@.skip(from as int) =~= s@.subrange(from as int, s@.len() as int));
    r
}

/// A copy of `s[from..to]`.
pub fn copy_range(s: &[u8], from: usize, to: usize) -> (r: Vec<u8>)
    requires
        from <= to <= s.len(),
    ensures
        r@ == s@.subrange(from as int, to as int),
{
    let mut r: Vec<u8> = Vec::new();
    push_range(&mut r, s, from, to);
    r
}

/// A copy of `s`.
pub fn to_vec(s: &[u8]) -> (r: Vec<u8>)
    ensures
        r@ == s@,
{
    let r = copy_range(s, 0, s.len());
    assert(s@.subrange(0, s@.len() as int) =~= s@);
    r
}

/// The bytes of a string.
pub fn str_bytes(s: &str) -> (r: Vec<u8>)
    ensures
        r@ == s.spec_bytes(),
{
    to_vec(s.as_bytes())
}

} // verus!
