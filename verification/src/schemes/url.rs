//! URLs: a scheme, a colon, and a reference.

use vstd::prelude::*;
use vstd::string::StringSliceAdditionalSpecFns;
use crate::text::{copy_range, find, lemma_find_from, spec_find, str_bytes, to_vec};

verus! {

/// The colon between the scheme and the reference.
pub const SEPARATOR: u8 = 0x3A;

/// A URL, held as the bytes of its text.
#[derive(Debug)]
pub struct Url {
    pub string: Vec<u8>,
}

/// The scheme of the URL `s`: what stands before the first colon, and all
/// of `s` where it has none.
pub open spec fn spec_scheme(s: Seq<u8>) -> Seq<u8> {
    match spec_find(s, SEPARATOR) {
        Some(k) => s.subrange(0, k),
        None => s,
    }
}

/// The reference of the URL `s`: what stands behind the first colon, and
/// all of `s` where it has none.
pub open spec fn spec_reference(s: Seq<u8>) -> Seq<u8> {
    match spec_find(s, SEPARATOR) {
        Some(k) => s.subrange(k + 1, s.len() as int),
        None => s,
    }
}

impl View for Url {
    type V = Seq<u8>;

    open spec fn view(&self) -> Seq<u8> {
        self.string@
    }
}

impl Url {
    /// The empty URL.
    pub fn new() -> (url: Url)
        ensures
            url@.len() == 0,
    {
        Url { string: Vec::new() }
    }

    /// The URL with the text `url_str`.
    pub fn from_str(url_str: &str) -> (url: Url)
        ensures
            url@ == url_str.spec_bytes(),
    {
        Url { string: str_bytes(url_str) }
    }

    /// The URL with the text `url_string`.
    pub fn from_string(url_string: Vec<u8>) -> (url: Url)
        ensures
            url.string == url_string,
    {
        Url { string: url_string }
    }

    /// The text of the URL.
    pub fn to_string(&self) -> (text: Vec<u8>)
        ensures
            text@ == self@,
    {
        to_vec(self.string.as_slice())
    }

    /// The number of bytes of the URL.
    pub fn len(&self) -> (n: usize)
        ensures
            n == self@.len(),
    {
        self.string.len()
    }

    /// The scheme of the URL.
    pub fn scheme(&self) -> (scheme: Vec<u8>)
        ensures
            scheme@ == spec_scheme(self@),
    {
        let s = self.string.as_slice();
        match find(s, SEPARATOR) {
            Some(k) => copy_range(s, 0, k),
            None => to_vec(s),
        }
    }

    /// The reference of the URL.
    pub fn reference(&self) -> (reference: Vec<u8>)
        ensures
            reference@ == spec_reference(self@),
    {
        let s = self.string.as_slice();
        match find(s, SEPARATOR) {
            Some(k) => {
                assert(k < s.len());
                copy_range(s, k + 1, s.len())
            },
            None => to_vec(s),
        }
    }

    /// A copy of the URL.
    pub fn duplicate(&self) -> (url: Url)
        ensures
            url@ == self@,
    {
        Url { string: self.to_string() }
    }
}

/// A URL made of a scheme without a colon, a colon and a reference has that
/// scheme and that reference.
pub proof fn lemma_url_parts(scheme: Seq<u8>, reference: Seq<u8>)
    requires
        !scheme.contains(SEPARATOR),
    ensures
        spec_scheme(scheme + seq![SEPARATOR] + reference) == scheme,
        spec_reference(scheme + seq![SEPARATOR] + reference) == reference,
{
    let s = scheme + seq![SEPARATOR] + reference;
    lemma_find_from(s, SEPARATOR, 0);
    let k = scheme.len() as int;
    assert(s[k] == SEPARATOR);
    assert forall|j: int| 0 <= j < k implies s[j] != SEPARATOR by {
        assert(s[j] == scheme[j]);
        assert(scheme.contains(scheme[j]));
    }
    assert(spec_find(s, SEPARATOR) == Some(k));
    assert(s.subrange(0, k) =~= scheme);
    assert(s.subrange(k + 1, s.len() as int) =~= reference);
}

} // verus!
