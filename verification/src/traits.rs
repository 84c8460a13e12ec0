//! Encoding of single values into tag-length-value units, and decoding of
//! the content of such a unit.

use crate::endian::{be_bytes, be_value, int_len, integer_from_bytes, integer_to_bytes};
use crate::oid::{pack_oid, spec_pack};
use crate::tlv::{
    integer_tlv, length_byte_matches, spec_wrap, tlv, wrap_tlv, TAG_INTEGER, TAG_NULL,
    TAG_OBJECT_ID, TAG_OCTET_STRING,
};
use crate::types::{SnmpError, SnmpType, SnmpValue};
use vstd::prelude::*;
use vstd::slice::slice_to_vec;
use vstd::utf8::{decode_utf8, encode_utf8, valid_utf8};

verus! {

/// What `encode_snmp` returns for the value `v`.
pub open spec fn spec_encode(v: SnmpValue) -> Result<Seq<u8>, SnmpError> {
    match v {
        SnmpValue::Integer(n) => spec_wrap(TAG_INTEGER, be_bytes(n, int_len(n))),
        SnmpValue::Text(t) => spec_wrap(TAG_OCTET_STRING, encode_utf8(t)),
        SnmpValue::Null => Ok(tlv(TAG_NULL, Seq::empty())),
        SnmpValue::ObjectId(s) => match spec_pack(s) {
            Ok(packed) => spec_wrap(TAG_OBJECT_ID, packed),
            Err(e) => Err(e),
        },
    }
}

/// True when `r` is the outcome `s`, bytes for bytes and error for error.
pub open spec fn encoded_as(r: Result<Vec<u8>, SnmpError>, s: Result<Seq<u8>, SnmpError>) -> bool {
    match r {
        Ok(bytes) => s == Ok::<Seq<u8>, SnmpError>(bytes@),
        Err(e) => s == Err::<Seq<u8>, SnmpError>(e),
    }
}

/// A value that can be written as one tag-length-value unit.
pub trait EncodeSnmp {
    /// The unit that stands for the value, or the reason why there is none.
    spec fn encoding(&self) -> Result<Seq<u8>, SnmpError>;

    /// Encodes the value. The length byte of the result counts the bytes
    /// that follow it.
    fn encode_snmp(&self) -> (r: Result<Vec<u8>, SnmpError>)
        ensures
            encoded_as(r, self.encoding()),
            r matches Ok(bytes) ==> length_byte_matches(bytes@),
    ;
}

/// A value that can be read from the content bytes of a unit.
pub trait DecodeSnmp: Sized + View {
    /// The value that the content bytes hold, or the reason why they hold none.
    spec fn decoding(data: Seq<u8>) -> Result<Self::V, SnmpError>;

    /// Decodes the content bytes of a unit.
    fn decode_snmp(data: &[u8]) -> (r: Result<Self, SnmpError>)
        ensures
            match r {
                Ok(v) => Self::decoding(data@) == Ok::<Self::V, SnmpError>(v@),
                Err(e) => Self::decoding(data@) == Err::<Self::V, SnmpError>(e),
            },
    ;
}

/// Encodes `n` as an Integer with the shortest content.
pub fn encode_integer(n: i64) -> (out: Vec<u8>)
    ensures
        out@ == integer_tlv(n as int),
        spec_encode(SnmpValue::Integer(n as int)) == Ok::<Seq<u8>, SnmpError>(out@),
        length_byte_matches(out@),
{
    let mut content = integer_to_bytes(n);
    let mut out: Vec<u8> = Vec::new();
    out.push(TAG_INTEGER);
    out.push(content.len() as u8);
    out.append(&mut content);
    out
}

impl EncodeSnmp for i64 {
    open spec fn encoding(&self) -> Result<Seq<u8>, SnmpError> {
        Ok(integer_tlv(*self as int))
    }

    fn encode_snmp(&self) -> (r: Result<Vec<u8>, SnmpError>) {
        Ok(encode_integer(*self))
    }
}

impl EncodeSnmp for u8 {
    open spec fn encoding(&self) -> Result<Seq<u8>, SnmpError> {
        Ok(integer_tlv(*self as int))
    }

    fn encode_snmp(&self) -> (r: Result<Vec<u8>, SnmpError>) {
        Ok(encode_integer(*self as i64))
    }
}

impl EncodeSnmp for i16 {
    open spec fn encoding(&self) -> Result<Seq<u8>, SnmpError> {
        Ok(integer_tlv(*self as int))
    }

    fn encode_snmp(&self) -> (r: Result<Vec<u8>, SnmpError>) {
        Ok(encode_integer(*self as i64))
    }
}

impl EncodeSnmp for i32 {
    open spec fn encoding(&self) -> Result<Seq<u8>, SnmpError> {
        Ok(integer_tlv(*self as int))
    }

    fn encode_snmp(&self) -> (r: Result<Vec<u8>, SnmpError>) {
        Ok(encode_integer(*self as i64))
    }
}

impl EncodeSnmp for u32 {
    open spec fn encoding(&self) -> Result<Seq<u8>, SnmpError> {
        Ok(integer_tlv(*self as int))
    }

    fn encode_snmp(&self) -> (r: Result<Vec<u8>, SnmpError>) {
        Ok(encode_integer(*self as i64))
    }
}

impl EncodeSnmp for [u8] {
    open spec fn encoding(&self) -> Result<Seq<u8>, SnmpError> {
        spec_wrap(TAG_OCTET_STRING, self@)
    }

    fn encode_snmp(&self) -> (r: Result<Vec<u8>, SnmpError>) {
        wrap_tlv(TAG_OCTET_STRING, self)
    }
}

impl EncodeSnmp for SnmpType {
    open spec fn encoding(&self) -> Result<Seq<u8>, SnmpError> {
        spec_encode(self@)
    }

    fn encode_snmp(&self) -> (r: Result<Vec<u8>, SnmpError>) {
        match self {
            SnmpType::SnmpInteger(n) => Ok(encode_integer(*n)),
            SnmpType::SnmpString(s) => wrap_tlv(TAG_OCTET_STRING, s.as_str().as_bytes()),
            SnmpType::SnmpNull => {
                let empty: Vec<u8> = Vec::new();
                wrap_tlv(TAG_NULL, empty.as_slice())
            },
            SnmpType::SnmpObjectID(subids) => match pack_oid(subids.as_slice()) {
                Ok(packed) => wrap_tlv(TAG_OBJECT_ID, packed.as_slice()),
                Err(e) => Err(e),
            },
        }
    }
}

impl DecodeSnmp for i64 {
    open spec fn decoding(data: Seq<u8>) -> Result<i64, SnmpError> {
        if 1 <= data.len() <= 8 {
            Ok(be_value(data) as i64)
        } else {
            Err(SnmpError::ParsingError)
        }
    }

    fn decode_snmp(data: &[u8]) -> (r: Result<Self, SnmpError>) {
        match integer_from_bytes(data) {
            Some(n) => Ok(n),
            None => Err(SnmpError::ParsingError),
        }
    }
}

impl DecodeSnmp for String {
    open spec fn decoding(data: Seq<u8>) -> Result<Seq<char>, SnmpError> {
        if valid_utf8(data) {
            Ok(decode_utf8(data))
        } else {
            Err(SnmpError::ParsingError)
        }
    }

    fn decode_snmp(data: &[u8]) -> (r: Result<Self, SnmpError>) {
        match String::from_utf8(slice_to_vec(data)) {
            Ok(s) => Ok(s),
            Err(e) => Err(SnmpError::from(e)),
        }
    }
}

} // verus!
