//! Decoding a label payload out of the fixed byte buffer.

use vstd::prelude::*;
use vstd::utf8::{decode_utf8, valid_utf8};
use crate::TrackerError;

verus! {

/// Length of the label in a raw payload buffer: the index of the first NUL
/// byte, or the whole buffer when none occurs.
pub open spec fn label_end(bytes: Seq<u8>) -> int
    decreases bytes.len(),
{
    if bytes.len() == 0 {
        0
    } else if bytes[0] == 0 {
        0
    } else {
        1 + label_end(bytes.drop_first())
    }
}

/// The label bytes of a raw payload buffer: everything before the first NUL.
pub open spec fn label_bytes(bytes: Seq<u8>) -> Seq<u8> {
    bytes.take(label_end(bytes))
}

/// What decoding a raw payload buffer yields: the bytes before the first
/// NUL read as UTF-8 text, or nothing when they are not valid UTF-8.
pub open spec fn spec_decode_label(bytes: Seq<u8>) -> Option<Seq<char>> {
    if valid_utf8(label_bytes(bytes)) {
        Some(decode_utf8(label_bytes(bytes)))
    } else {
        None
    }
}

/// Any position whose prefix is NUL-free and that hits a NUL or the end is
/// `label_end`.
pub proof fn lemma_label_end_unique(bytes: Seq<u8>, k: int)
    requires
        0 <= k <= bytes.len(),
        forall|i: int| 0 <= i < k ==> bytes[i] != 0,
        k < bytes.len() ==> bytes[k] == 0,
    ensures
        k == label_end(bytes),
    decreases bytes.len(),
{
    if bytes.len() > 0 && bytes[0] != 0 {
        assert(forall|i: int|
            0 <= i < bytes.drop_first().len()
                ==> #[trigger] bytes.drop_first()[i] == bytes[i + 1]);
        lemma_label_end_unique(bytes.drop_first(), k - 1);
    }
}

/// Copies the label bytes out of a raw payload buffer: everything before
/// the first NUL, mirroring how a C string is read out of the buffer.
pub fn extract_label_bytes(buffer: &Vec<u8>) -> (r: Vec<u8>)
    ensures
        r@ == label_bytes(buffer@),
{
    let n = buffer.len();
    let mut k: usize = 0;
    while k < n && buffer[k] != 0
        invariant
            0 <= k <= n,
            n == buffer@.len(),
            forall|i: int| 0 <= i < k ==> buffer@[i] != 0,
        decreases n - k,
    {
        k += 1;
    }
    let end = k;
    proof {
        lemma_label_end_unique(buffer@, end as int);
    }
    let mut r: Vec<u8> = Vec::new();
    let mut j: usize = 0;
    while j < end
        invariant
            0 <= j <= end <= buffer@.len(),
            r@.len() == j,
            forall|i: int| 0 <= i < j ==> r@[i] == buffer@[i],
        decreases end - j,
    {
        r.push(buffer[j]);
        j += 1;
    }
    proof {
        assert(r@ =~= buffer@.take(end as int));
    }
    r
}

/// Relies on `core::str::from_utf8`: it succeeds exactly when the bytes are
/// valid UTF-8, and then yields the text whose characters are the decoded
/// scalar values of those bytes.
#[verifier::external_body]
fn utf8_to_string(bytes: &Vec<u8>) -> (r: Option<String>)
    ensures
        r is Some <==> valid_utf8(bytes@),
        r is Some ==> r.unwrap()@ == decode_utf8(bytes@),
{
    match core::str::from_utf8(bytes.as_slice()) {
        Ok(s) => Some(s.to_owned()),
        Err(_) => None,
    }
}

/// Decodes one label payload: the bytes before the first NUL, read as UTF-8
/// text. An invalid payload is a `DecodeError`, fatal to the whole poll
/// call rather than to this entity alone.
pub fn decode_label(buffer: &Vec<u8>) -> (r: Result<String, TrackerError>)
    ensures
        r is Ok <==> spec_decode_label(buffer@) is Some,
        r is Ok ==> r.unwrap()@ == spec_decode_label(buffer@).unwrap(),
        r is Err ==> r.unwrap_err() == TrackerError::DecodeError,
{
    let prefix = extract_label_bytes(buffer);
    match utf8_to_string(&prefix) {
        Some(s) => Ok(s),
        None => Err(TrackerError::DecodeError),
    }
}

} // verus!
