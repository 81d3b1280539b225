use vstd::prelude::*;
use vstd::slice::slice_subrange;
use vstd::string::StringSliceAdditionalSpecFns;
use vstd::utf8::{decode_utf8, encode_utf8, encode_utf8_decode_utf8, valid_utf8};

verus! {

/// The text that a slice of bytes holds, if it holds any.
///
/// Trusted: `std::str::from_utf8` returns the slice as text exactly when the
/// bytes are well-formed UTF-8, and the text then has those bytes.
#[verifier::external_body]
pub(crate) fn text_of(bytes: &[u8]) -> (r: Option<&str>)
    ensures
        r is Some <==> valid_utf8(bytes@),
        r matches Some(s) ==> s.spec_bytes() == bytes@,
{
    std::str::from_utf8(bytes).ok()
}

/// The text in `bytes[start..end]`: none where the range does not lie in
/// `bytes` or its bytes are not well-formed UTF-8.
pub open spec fn span_text(bytes: Seq<u8>, start: int, end: int) -> Option<Seq<char>> {
    if 0 <= start <= end <= bytes.len() && valid_utf8(bytes.subrange(start, end)) {
        Some(decode_utf8(bytes.subrange(start, end)))
    } else {
        None
    }
}

/// The bytes in `bytes[start..end]`: none where the range does not lie in
/// `bytes`.
pub open spec fn span_bytes(bytes: Seq<u8>, start: int, end: int) -> Seq<u8> {
    if 0 <= start <= end <= bytes.len() {
        bytes.subrange(start, end)
    } else {
        Seq::empty()
    }
}

/// Texts are equal exactly when their encodings are.
pub proof fn lemma_text_by_bytes(a: Seq<char>, b: Seq<char>)
    ensures
        (a == b) <==> (encode_utf8(a) == encode_utf8(b)),
{
    encode_utf8_decode_utf8(a);
    encode_utf8_decode_utf8(b);
}

/// Whether two texts are the same.
pub fn text_eq(a: &str, b: &str) -> (r: bool)
    ensures
        r == (a@ == b@),
{
    let x = a.as_bytes();
    let y = b.as_bytes();
    proof {
        lemma_text_by_bytes(a@, b@);
    }
    if x.len() != y.len() {
        return false;
    }
    let mut i: usize = 0;
    while i < x.len()
        invariant
            i <= x.len(),
            x.len() == y.len(),
            x@ == encode_utf8(a@),
            y@ == encode_utf8(b@),
            (a@ == b@) <==> (encode_utf8(a@) == encode_utf8(b@)),
            forall|j: int| 0 <= j < i ==> x@[j] == y@[j],
        decreases x.len() - i,
    {
        if x[i] != y[i] {
            return false;
        }
        i += 1;
    }
    assert(x@ =~= y@);
    true
}

/// The text of `input` between two byte offsets.
pub fn text_at<'a>(input: &'a str, start: usize, end: usize) -> (r: Option<&'a str>)
    ensures
        match r {
            Some(t) => span_text(input.spec_bytes(), start as int, end as int) == Some(t@),
            None => span_text(input.spec_bytes(), start as int, end as int) is None,
        },
{
    let bytes = input.as_bytes();
    if start <= end && end <= bytes.len() {
        let slice = slice_subrange(bytes, start, end);
        let found = text_of(slice);
        proof {
            assert(slice@ == input.spec_bytes().subrange(start as int, end as int));
            if let Some(t) = found {
                encode_utf8_decode_utf8(t@);
                assert(decode_utf8(slice@) == t@);
            }
        }
        found
    } else {
        None
    }
}

/// The bytes of `input` between two byte offsets.
pub fn bytes_at<'a>(input: &'a str, start: usize, end: usize) -> (r: &'a [u8])
    ensures
        r@ == span_bytes(input.spec_bytes(), start as int, end as int),
{
    let bytes = input.as_bytes();
    if start <= end && end <= bytes.len() {
        slice_subrange(bytes, start, end)
    } else {
        let none = slice_subrange(bytes, 0, 0);
        assert(none@ =~= Seq::<u8>::empty());
        none
    }
}

} // verus!
