//! Decoding of one tag-length-value unit from the front of a buffer, and
//! what holds between encoding and decoding.

use crate::endian::{
    be_bytes, be_value, int_len, lemma_be_bytes_len, lemma_be_value_i64, lemma_be_value_of_bytes,
    lemma_int_len_fits, lemma_int_len_i64,
};
use crate::oid::{lemma_unpack_pack, spec_pack, spec_unpack, unpack_oid};
use crate::tlv::{
    length_byte_matches, lemma_wrap_shape, MAX_CONTENT, TAG_INTEGER, TAG_NULL, TAG_OBJECT_ID,
    TAG_OCTET_STRING,
};
use crate::traits::{spec_encode, DecodeSnmp};
use crate::types::{SnmpError, SnmpType, SnmpValue};
use vstd::prelude::*;
use vstd::slice::slice_subrange;
use vstd::utf8::{
    decode_utf8, encode_utf8, encode_utf8_decode_utf8, encode_utf8_valid_utf8, valid_utf8,
};

verus! {

/// The value that a unit with the given tag and content holds.
pub open spec fn spec_decode_content(tag: u8, content: Seq<u8>) -> Result<SnmpValue, SnmpError> {
    if tag == TAG_INTEGER {
        if 1 <= content.len() <= 8 {
            Ok(SnmpValue::Integer(be_value(content)))
        } else {
            Err(SnmpError::ParsingError)
        }
    } else if tag == TAG_OCTET_STRING {
        if valid_utf8(content) {
            Ok(SnmpValue::Text(decode_utf8(content)))
        } else {
            Err(SnmpError::ParsingError)
        }
    } else if tag == TAG_NULL {
        Ok(SnmpValue::Null)
    } else if tag == TAG_OBJECT_ID {
        match spec_unpack(content) {
            Ok(subids) => Ok(SnmpValue::ObjectId(subids)),
            Err(e) => Err(e),
        }
    } else {
        Err(SnmpError::InvalidType)
    }
}

/// What `extract_value` returns for the buffer `s`: the value of the unit at
/// its front and the number of bytes that the unit takes.
pub open spec fn spec_decode(s: Seq<u8>) -> Result<(SnmpValue, nat), SnmpError> {
    if s.len() < 2 || s.len() - 2 < s[1] {
        Err(SnmpError::PacketTooShort)
    } else {
        match spec_decode_content(s[0], s.subrange(2, 2 + s[1])) {
            Ok(v) => Ok((v, (2 + s[1]) as nat)),
            Err(e) => Err(e),
        }
    }
}

/// The values that come back unchanged from decoding what they encode to.
pub open spec fn round_trips(v: SnmpValue) -> bool {
    match v {
        SnmpValue::Integer(n) => i64::MIN <= n <= i64::MAX,
        SnmpValue::Text(t) => encode_utf8(t).len() <= MAX_CONTENT,
        SnmpValue::Null => true,
        SnmpValue::ObjectId(s) => {
            &&& s.len() >= 2
            &&& s[1] < 40
            &&& 40 * s[0] + s[1] <= 255
            &&& spec_pack(s)->Ok_0.len() <= MAX_CONTENT
        },
    }
}

/// Decoding the encoding of an integer of 64 bits, of a text of at most 127
/// bytes, of Null, or of an object identifier that packs into at most 127
/// bytes and unpacks to itself, gives the value back and takes every byte.
pub proof fn lemma_decode_encode(v: SnmpValue)
    requires
        round_trips(v),
    ensures
        spec_encode(v) is Ok,
        spec_decode(spec_encode(v)->Ok_0) == Ok::<(SnmpValue, nat), SnmpError>(
            (v, spec_encode(v)->Ok_0.len()),
        ),
{
    match v {
        SnmpValue::Integer(n) => {
            let k = int_len(n);
            lemma_int_len_i64(n as i64);
            lemma_int_len_fits(n);
            lemma_be_bytes_len(n, k);
            lemma_be_value_of_bytes(n, k);
            lemma_wrap_shape(TAG_INTEGER, be_bytes(n, k));
        },
        SnmpValue::Text(t) => {
            encode_utf8_valid_utf8(t);
            encode_utf8_decode_utf8(t);
            lemma_wrap_shape(TAG_OCTET_STRING, encode_utf8(t));
        },
        SnmpValue::Null => {},
        SnmpValue::ObjectId(s) => {
            lemma_unpack_pack(s);
            lemma_wrap_shape(TAG_OBJECT_ID, spec_pack(s)->Ok_0);
        },
    }
}

/// The second byte of every encoding is the number of bytes that follow it.
pub proof fn lemma_encode_length(v: SnmpValue)
    ensures
        spec_encode(v) matches Ok(bytes) ==> length_byte_matches(bytes),
{
    match v {
        SnmpValue::Integer(n) => lemma_wrap_shape(TAG_INTEGER, be_bytes(n, int_len(n))),
        SnmpValue::Text(t) => lemma_wrap_shape(TAG_OCTET_STRING, encode_utf8(t)),
        SnmpValue::Null => lemma_wrap_shape(TAG_NULL, Seq::empty()),
        SnmpValue::ObjectId(s) => lemma_wrap_shape(TAG_OBJECT_ID, spec_pack(s)->Ok_0),
    }
}

/// A buffer that ends before the content that its length byte declares is
/// refused as too short, whatever its tag.
pub proof fn lemma_truncated_is_too_short(s: Seq<u8>)
    requires
        s.len() < 2 || s.len() < 2 + s[1],
    ensures
        spec_decode(s) == Err::<(SnmpValue, nat), SnmpError>(SnmpError::PacketTooShort),
{
}

/// Decoding looks at the unit at the front of a buffer and at nothing that
/// stands behind it.
pub proof fn lemma_decode_front(unit: Seq<u8>, behind: Seq<u8>)
    requires
        unit.len() >= 2,
        unit.len() == 2 + unit[1],
    ensures
        spec_decode(unit + behind) == spec_decode(unit),
{
    assert((unit + behind).subrange(2, 2 + unit[1]) =~= unit.subrange(2, 2 + unit[1]));
}

/// Decodes the unit at the front of `data`. Returns its value and the number
/// of bytes that it takes, header included.
pub fn extract_value(data: &[u8]) -> (r: Result<(SnmpType, usize), SnmpError>)
    ensures
        match r {
            Ok((v, n)) => spec_decode(data@) == Ok::<(SnmpValue, nat), SnmpError>((v@, n as nat)),
            Err(e) => spec_decode(data@) == Err::<(SnmpValue, nat), SnmpError>(e),
        },
        r matches Ok((_, n)) ==> 2 <= n <= data@.len(),
        data@.len() < 2 || data@.len() < 2 + data@[1] ==> r matches Err(
            SnmpError::PacketTooShort,
        ),
{
    if data.len() < 2 {
        return Err(SnmpError::PacketTooShort);
    }
    let tag = data[0];
    let len = data[1] as usize;
    if data.len() - 2 < len {
        return Err(SnmpError::PacketTooShort);
    }
    let content = slice_subrange(data, 2, 2 + len);
    if tag == TAG_INTEGER {
        match i64::decode_snmp(content) {
            Ok(n) => {
                proof {
                    lemma_be_value_i64(content@);
                }
                Ok((SnmpType::SnmpInteger(n), 2 + len))
            },
            Err(e) => Err(e),
        }
    } else if tag == TAG_OCTET_STRING {
        match String::decode_snmp(content) {
            Ok(s) => Ok((SnmpType::SnmpString(s), 2 + len)),
            Err(e) => Err(e),
        }
    } else if tag == TAG_NULL {
        Ok((SnmpType::SnmpNull, 2 + len))
    } else if tag == TAG_OBJECT_ID {
        match unpack_oid(content) {
            Ok(subids) => Ok((SnmpType::SnmpObjectID(subids), 2 + len)),
            Err(e) => Err(e),
        }
    } else {
        Err(SnmpError::InvalidType)
    }
}

} // verus!
