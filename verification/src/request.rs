//! The builder of GetRequest messages.
//!
//! A message is a sequence of three units: the version, which is the Integer
//! 0; the community string; and the protocol data unit, tagged `0xA0` in a
//! GetRequest. The protocol data unit holds the request id, the error status,
//! the error index and a sequence of bindings. A binding is a sequence of an
//! object identifier and the value bound to it, which is Null in a request.
//! Exactly one binding is written.

use crate::endian::int_len;
use crate::oid::{pack_oid, spec_pack};
use crate::tlv::{
    integer_tlv, length_byte_matches, lemma_integer_tlv_shape, spec_wrap, tlv, wrap_tlv,
    TAG_GET_REQUEST, TAG_NULL, TAG_OBJECT_ID, TAG_OCTET_STRING, TAG_SEQUENCE,
};
use crate::traits::{encode_integer, encoded_as};
use crate::types::SnmpError;
use vstd::prelude::*;

verus! {

/// The variable bindings of a GetRequest for the object identifier `subids`:
/// a sequence that holds one sequence of the identifier and Null.
pub open spec fn spec_bindings(subids: Seq<u32>) -> Result<Seq<u8>, SnmpError> {
    match spec_pack(subids) {
        Err(e) => Err(e),
        Ok(packed) => match spec_wrap(TAG_OBJECT_ID, packed) {
            Err(e) => Err(e),
            Ok(name) => match spec_wrap(TAG_SEQUENCE, name + tlv(TAG_NULL, Seq::empty())) {
                Err(e) => Err(e),
                Ok(binding) => spec_wrap(TAG_SEQUENCE, binding),
            },
        },
    }
}

/// The GetRequest unit: request id, error status 0, error index 0 and the
/// variable bindings.
pub open spec fn spec_pdu(subids: Seq<u32>, request_id: int) -> Result<Seq<u8>, SnmpError> {
    match spec_bindings(subids) {
        Err(e) => Err(e),
        Ok(bindings) => spec_wrap(
            TAG_GET_REQUEST,
            integer_tlv(request_id) + integer_tlv(0) + integer_tlv(0) + bindings,
        ),
    }
}

/// What `build_get_request` returns: the whole message, or the first reason
/// why one of its units cannot be written, taken from the innermost outward.
pub open spec fn spec_get_request(community: Seq<u8>, subids: Seq<u32>, request_id: int) -> Result<
    Seq<u8>,
    SnmpError,
> {
    match spec_pdu(subids, request_id) {
        Err(e) => Err(e),
        Ok(pdu) => match spec_wrap(TAG_OCTET_STRING, community) {
            Err(e) => Err(e),
            Ok(name) => spec_wrap(TAG_SEQUENCE, integer_tlv(0) + name + pdu),
        },
    }
}

/// The number of bytes that follow the length byte of the message for a
/// community of `community` bytes, an object identifier packed into `packed`
/// bytes and the given request id.
pub open spec fn request_content_len(community: nat, packed: nat, request_id: int) -> nat {
    community + packed + int_len(request_id) + 23
}

/// A GetRequest can be built exactly when its object identifier can be
/// packed and the bytes that follow the length byte of the message are at
/// most 127. The first failure is the one of packing.
pub proof fn lemma_get_request_outcome(community: Seq<u8>, subids: Seq<u32>, request_id: int)
    requires
        i64::MIN <= request_id <= i64::MAX,
    ensures
        match spec_pack(subids) {
            Err(e) => spec_get_request(community, subids, request_id) == Err::<
                Seq<u8>,
                SnmpError,
            >(e),
            Ok(packed) => {
                let n = request_content_len(community.len(), packed.len(), request_id);
                if n > 127 {
                    spec_get_request(community, subids, request_id) == Err::<Seq<u8>, SnmpError>(
                        SnmpError::EncodingTooLarge,
                    )
                } else {
                    &&& spec_get_request(community, subids, request_id) matches Ok(bytes)
                    &&& bytes.len() == n + 2
                    &&& bytes[0] == TAG_SEQUENCE
                    &&& bytes[1] == n
                }
            },
        },
{
    lemma_integer_tlv_shape(request_id as i64);
    lemma_integer_tlv_shape(0);
}

/// Builds the variable bindings of a GetRequest.
fn build_bindings(subids: &[u32]) -> (r: Result<Vec<u8>, SnmpError>)
    ensures
        encoded_as(r, spec_bindings(subids@)),
{
    let packed = match pack_oid(subids) {
        Ok(packed) => packed,
        Err(e) => {
            return Err(e);
        },
    };
    let mut pair = match wrap_tlv(TAG_OBJECT_ID, packed.as_slice()) {
        Ok(name) => name,
        Err(e) => {
            return Err(e);
        },
    };
    pair.push(TAG_NULL);
    pair.push(0);
    assert(pair@ =~= tlv(TAG_OBJECT_ID, packed@) + tlv(TAG_NULL, Seq::empty()));
    let binding = match wrap_tlv(TAG_SEQUENCE, pair.as_slice()) {
        Ok(binding) => binding,
        Err(e) => {
            return Err(e);
        },
    };
    wrap_tlv(TAG_SEQUENCE, binding.as_slice())
}

/// Builds the GetRequest unit.
fn build_pdu(subids: &[u32], request_id: i64) -> (r: Result<Vec<u8>, SnmpError>)
    ensures
        encoded_as(r, spec_pdu(subids@, request_id as int)),
{
    let mut bindings = match build_bindings(subids) {
        Ok(bindings) => bindings,
        Err(e) => {
            return Err(e);
        },
    };
    let mut fields = encode_integer(request_id);
    let mut status = encode_integer(0);
    let mut index = encode_integer(0);
    fields.append(&mut status);
    fields.append(&mut index);
    fields.append(&mut bindings);
    wrap_tlv(TAG_GET_REQUEST, fields.as_slice())
}

/// Builds a complete GetRequest message for one object identifier. The
/// lengths are computed from the innermost unit outward. Fails with the error
/// of `pack_oid` when the object identifier cannot be packed, and with
/// `EncodingTooLarge` when a unit would have more than 127 bytes of content.
pub fn build_get_request(community: &[u8], subids: &[u32], request_id: i64) -> (r: Result<
    Vec<u8>,
    SnmpError,
>)
    ensures
        encoded_as(r, spec_get_request(community@, subids@, request_id as int)),
        r matches Ok(bytes) ==> bytes@[0] == TAG_SEQUENCE && length_byte_matches(bytes@),
{
    let mut pdu = match build_pdu(subids, request_id) {
        Ok(pdu) => pdu,
        Err(e) => {
            return Err(e);
        },
    };
    let mut name = match wrap_tlv(TAG_OCTET_STRING, community) {
        Ok(name) => name,
        Err(e) => {
            return Err(e);
        },
    };
    let mut content = encode_integer(0);
    content.append(&mut name);
    content.append(&mut pdu);
    wrap_tlv(TAG_SEQUENCE, content.as_slice())
}

} // verus!
