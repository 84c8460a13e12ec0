//! The tag-length-value unit: one tag byte, one length byte, the content.
//!
//! Only the short form of the length is written, so a content of more than
//! 127 bytes cannot be wrapped.

use crate::endian::{be_bytes, int_len, lemma_be_bytes_len, lemma_int_len_i64};
use crate::types::SnmpError;
use vstd::prelude::*;
use vstd::slice::slice_to_vec;

verus! {

/// The tag of an Integer.
pub const TAG_INTEGER: u8 = 0x02;

/// The tag of an Octet String.
pub const TAG_OCTET_STRING: u8 = 0x04;

/// The tag of Null.
pub const TAG_NULL: u8 = 0x05;

/// The tag of an Object Identifier.
pub const TAG_OBJECT_ID: u8 = 0x06;

/// The tag of a Sequence.
pub const TAG_SEQUENCE: u8 = 0x30;

/// The tag of a GetRequest.
pub const TAG_GET_REQUEST: u8 = 0xA0;

/// The tag of a GetResponse.
pub const TAG_GET_RESPONSE: u8 = 0xA2;

/// The longest content that the short form of the length can declare.
pub const MAX_CONTENT: usize = 127;

/// The unit with the given tag and content.
pub open spec fn tlv(tag: u8, content: Seq<u8>) -> Seq<u8> {
    seq![tag, content.len() as u8] + content
}

/// What `wrap_tlv` returns.
pub open spec fn spec_wrap(tag: u8, content: Seq<u8>) -> Result<Seq<u8>, SnmpError> {
    if content.len() > MAX_CONTENT {
        Err(SnmpError::EncodingTooLarge)
    } else {
        Ok(tlv(tag, content))
    }
}

/// The Integer `n` on the wire: the shortest two's-complement content.
pub open spec fn integer_tlv(n: int) -> Seq<u8> {
    tlv(TAG_INTEGER, be_bytes(n, int_len(n)))
}

/// True when the second byte of `bytes` is the number of bytes after it.
pub open spec fn length_byte_matches(bytes: Seq<u8>) -> bool {
    bytes.len() >= 2 && bytes[1] == bytes.len() - 2
}

/// A unit starts with its tag and ends with its content, and its length byte
/// counts the content as long as that has at most 255 bytes.
pub proof fn lemma_wrap_shape(tag: u8, content: Seq<u8>)
    ensures
        tlv(tag, content).len() == content.len() + 2,
        tlv(tag, content)[0] == tag,
        tlv(tag, content).subrange(2, 2 + content.len() as int) == content,
        content.len() <= 255 ==> tlv(tag, content)[1] == content.len() && length_byte_matches(
            tlv(tag, content),
        ),
{
}

/// An encoded `i64` has three to ten bytes.
pub proof fn lemma_integer_tlv_shape(n: i64)
    ensures
        3 <= integer_tlv(n as int).len() <= 10,
        integer_tlv(n as int).len() == int_len(n as int) + 2,
        length_byte_matches(integer_tlv(n as int)),
{
    lemma_int_len_i64(n);
    lemma_be_bytes_len(n as int, int_len(n as int));
}

/// Puts the tag and the length in front of `content`. Fails with
/// `EncodingTooLarge` when the content has more than 127 bytes.
pub fn wrap_tlv(tag: u8, content: &[u8]) -> (r: Result<Vec<u8>, SnmpError>)
    ensures
        match r {
            Ok(bytes) => spec_wrap(tag, content@) == Ok::<Seq<u8>, SnmpError>(bytes@),
            Err(e) => spec_wrap(tag, content@) == Err::<Seq<u8>, SnmpError>(e),
        },
        r matches Ok(bytes) ==> length_byte_matches(bytes@),
{
    if content.len() > MAX_CONTENT {
        return Err(SnmpError::EncodingTooLarge);
    }
    let mut out: Vec<u8> = Vec::new();
    out.push(tag);
    out.push(content.len() as u8);
    let mut body = slice_to_vec(content);
    out.append(&mut body);
    assert(out@ =~= tlv(tag, content@));
    Ok(out)
}

} // verus!
