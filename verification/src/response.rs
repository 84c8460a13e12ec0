//! The parser of GetResponse messages.
//!
//! A response is laid out as a request is, with the protocol data unit
//! tagged `0xA2` and a value in the place of Null. The fields are read
//! strictly in the order in which they stand, and the first that is not as
//! it must be ends the parsing with its error.

use crate::codec::{extract_value, spec_decode};
use crate::tlv::{TAG_GET_RESPONSE, TAG_OBJECT_ID, TAG_SEQUENCE};
use crate::types::{SnmpError, SnmpType, SnmpValue};
use vstd::prelude::*;
use vstd::slice::slice_subrange;

verus! {

/// What a parsed response holds.
pub struct MessageView {
    /// The bytes that were parsed.
    pub packet: Seq<u8>,
    /// The community string.
    pub community: Seq<char>,
    /// The request id that the agent echoed.
    pub request_id: int,
    /// The object identifier of the binding.
    pub oid: Seq<u32>,
    /// The value of the binding.
    pub data: SnmpValue,
}

/// An Integer unit at the front of `s`: its value and the bytes it takes.
pub open spec fn spec_integer(s: Seq<u8>) -> Result<(int, nat), SnmpError> {
    match spec_decode(s) {
        Err(e) => Err(e),
        Ok((v, n)) => match v {
            SnmpValue::Integer(i) => Ok((i, n)),
            _ => Err(SnmpError::ParsingError),
        },
    }
}

/// True when `s` starts with the byte `tag` and one more byte, the length,
/// which is not looked at.
pub open spec fn spec_header(s: Seq<u8>, tag: u8) -> bool {
    s.len() >= 2 && s[0] == tag
}

/// What stands in front of the error status of a response.
pub struct Preamble {
    /// The community string.
    pub community: Seq<char>,
    /// The request id.
    pub request_id: int,
    /// The position of the error status in the buffer.
    pub end: nat,
}

/// The fields in front of the error status: the envelope, whose length byte
/// must count the rest of the buffer; version 0; the community string; the
/// GetResponse header; the request id.
pub open spec fn spec_preamble(p: Seq<u8>) -> Result<Preamble, SnmpError> {
    if p.len() == 0 {
        Err(SnmpError::PacketTooShort)
    } else if p[0] != TAG_SEQUENCE {
        Err(SnmpError::ParsingError)
    } else if p.len() < 2 || p[1] != p.len() - 2 {
        Err(SnmpError::PacketTooShort)
    } else {
        match spec_integer(p.skip(2)) {
            Err(e) => Err(e),
            Ok((version, n)) => if version != 0 {
                Err(SnmpError::ParsingError)
            } else {
                match spec_decode(p.skip(2).skip(n as int)) {
                    Err(e) => Err(e),
                    Ok((v, m)) => match v {
                        SnmpValue::Text(community) => {
                            let pdu = p.skip(2).skip(n as int).skip(m as int);
                            if !spec_header(pdu, TAG_GET_RESPONSE) {
                                Err(SnmpError::ParsingError)
                            } else {
                                match spec_integer(pdu.skip(2)) {
                                    Err(e) => Err(e),
                                    Ok((request_id, k)) => Ok(
                                        Preamble { community, request_id, end: 2 + n + m + 2 + k },
                                    ),
                                }
                            }
                        },
                        _ => Err(SnmpError::ParsingError),
                    },
                }
            },
        }
    }
}

/// The error status and the error index at the front of `s`: the bytes they
/// take when both are zero, else the first of them that is not, as the code
/// of a `ResponseError`.
pub open spec fn spec_status(s: Seq<u8>) -> Result<nat, SnmpError> {
    match spec_integer(s) {
        Err(e) => Err(e),
        Ok((status, n)) => if status != 0 {
            Err(SnmpError::ResponseError(status as i64))
        } else {
            match spec_integer(s.skip(n as int)) {
                Err(e) => Err(e),
                Ok((index, m)) => if index != 0 {
                    Err(SnmpError::ResponseError(index as i64))
                } else {
                    Ok(n + m)
                },
            }
        },
    }
}

/// The value of a binding at the front of `s`: an Integer, a string or Null.
/// A unit with any other tag is refused with `InvalidType`, once its content
/// is known to lie within `s`.
pub open spec fn spec_value(s: Seq<u8>) -> Result<SnmpValue, SnmpError> {
    if s.len() >= 2 && s.len() - 2 >= s[1] && s[0] == TAG_OBJECT_ID {
        Err(SnmpError::InvalidType)
    } else {
        match spec_decode(s) {
            Err(e) => Err(e),
            Ok((v, _)) => Ok(v),
        }
    }
}

/// The variable bindings at the front of `s`: two sequence headers, an
/// object identifier and the value bound to it.
pub open spec fn spec_binding(s: Seq<u8>) -> Result<(Seq<u32>, SnmpValue), SnmpError> {
    if !spec_header(s, TAG_SEQUENCE) || !spec_header(s.skip(2), TAG_SEQUENCE) {
        Err(SnmpError::ParsingError)
    } else {
        match spec_decode(s.skip(2).skip(2)) {
            Err(e) => Err(e),
            Ok((name, n)) => match name {
                SnmpValue::ObjectId(oid) => match spec_value(s.skip(2).skip(2).skip(n as int)) {
                    Err(e) => Err(e),
                    Ok(v) => Ok((oid, v)),
                },
                _ => Err(SnmpError::ParsingError),
            },
        }
    }
}

/// What `Message::from_packet` returns for the buffer `p`. The fields are
/// taken strictly in order, and the first that is not as it must be decides
/// the error.
pub open spec fn spec_response(p: Seq<u8>) -> Result<MessageView, SnmpError> {
    match spec_preamble(p) {
        Err(e) => Err(e),
        Ok(head) => match spec_status(p.skip(head.end as int)) {
            Err(e) => Err(e),
            Ok(n) => match spec_binding(p.skip(head.end as int).skip(n as int)) {
                Err(e) => Err(e),
                Ok((oid, data)) => Ok(
                    MessageView {
                        packet: p,
                        community: head.community,
                        request_id: head.request_id,
                        oid,
                        data,
                    },
                ),
            },
        },
    }
}

/// A buffer that does not start with the sequence tag is refused with
/// `ParsingError`, whatever follows.
pub proof fn lemma_envelope_rejected(p: Seq<u8>)
    requires
        p.len() > 0,
        p[0] != TAG_SEQUENCE,
    ensures
        spec_response(p) == Err::<MessageView, SnmpError>(SnmpError::ParsingError),
{
}

/// A response whose fields in front of the error status are in order and
/// whose error status is an Integer other than zero is refused with that
/// status as the code of a `ResponseError`, whatever its bindings hold.
pub proof fn lemma_error_status_rejected(p: Seq<u8>, head: Preamble, status: int, n: nat)
    requires
        spec_preamble(p) == Ok::<Preamble, SnmpError>(head),
        spec_integer(p.skip(head.end as int)) == Ok::<(int, nat), SnmpError>((status, n)),
        status != 0,
    ensures
        spec_response(p) == Err::<MessageView, SnmpError>(
            SnmpError::ResponseError(status as i64),
        ),
{
}

/// A response that is accepted holds zero as its error status and as its
/// error index, and its value is an Integer, a string or Null.
pub proof fn lemma_accepted_response(p: Seq<u8>)
    requires
        spec_response(p) is Ok,
    ensures
        spec_preamble(p) is Ok,
        ({
            let fields = p.skip(spec_preamble(p)->Ok_0.end as int);
            &&& spec_integer(fields) matches Ok((status, n))
            &&& status == 0
            &&& spec_integer(fields.skip(n as int)) matches Ok((index, _))
            &&& index == 0
        }),
        spec_response(p)->Ok_0.packet == p,
        !(spec_response(p)->Ok_0.data is ObjectId),
{
}

/// The bytes of `data` from position `n` on.
pub(crate) fn rest(data: &[u8], n: usize) -> (r: &[u8])
    requires
        n <= data@.len(),
    ensures
        r@ == data@.skip(n as int),
{
    slice_subrange(data, n, data.len())
}

/// Reads an Integer unit at the front of `data`.
pub(crate) fn read_integer(data: &[u8]) -> (r: Result<(i64, usize), SnmpError>)
    ensures
        match r {
            Ok((i, n)) => spec_integer(data@) == Ok::<(int, nat), SnmpError>((i as int, n as nat))
                && 2 <= n <= data@.len(),
            Err(e) => spec_integer(data@) == Err::<(int, nat), SnmpError>(e),
        },
{
    match extract_value(data) {
        Err(e) => Err(e),
        Ok((v, n)) => match v {
            SnmpType::SnmpInteger(i) => Ok((i, n)),
            _ => Err(SnmpError::ParsingError),
        },
    }
}

/// True when `data` starts with `tag` and a length byte.
pub(crate) fn has_header(data: &[u8], tag: u8) -> (b: bool)
    ensures
        b == spec_header(data@, tag),
{
    data.len() >= 2 && data[0] == tag
}

/// Reads the fields in front of the error status: the community, the
/// request id and the position of the error status.
pub(crate) fn read_preamble(packet: &[u8]) -> (r: Result<(String, i64, usize), SnmpError>)
    ensures
        match r {
            Ok((community, id, end)) => spec_preamble(packet@) == Ok::<Preamble, SnmpError>(
                Preamble { community: community@, request_id: id as int, end: end as nat },
            ) && end <= packet@.len(),
            Err(e) => spec_preamble(packet@) == Err::<Preamble, SnmpError>(e),
        },
{
    if packet.len() == 0 {
        return Err(SnmpError::PacketTooShort);
    }
    if packet[0] != TAG_SEQUENCE {
        return Err(SnmpError::ParsingError);
    }
    if packet.len() < 2 || packet.len() - 2 != packet[1] as usize {
        return Err(SnmpError::PacketTooShort);
    }
    let after_envelope = rest(packet, 2);
    let (version, n) = match read_integer(after_envelope) {
        Ok(found) => found,
        Err(e) => {
            return Err(e);
        },
    };
    if version != 0 {
        return Err(SnmpError::ParsingError);
    }
    let after_version = rest(after_envelope, n);
    let (community, m) = match extract_value(after_version) {
        Err(e) => {
            return Err(e);
        },
        Ok((v, m)) => match v {
            SnmpType::SnmpString(s) => (s, m),
            _ => {
                return Err(SnmpError::ParsingError);
            },
        },
    };
    let pdu = rest(after_version, m);
    if !has_header(pdu, TAG_GET_RESPONSE) {
        return Err(SnmpError::ParsingError);
    }
    let (id, k) = match read_integer(rest(pdu, 2)) {
        Ok(found) => found,
        Err(e) => {
            return Err(e);
        },
    };
    Ok((community, id, 2 + n + m + 2 + k))
}

/// Reads the error status and the error index.
pub(crate) fn read_status(data: &[u8]) -> (r: Result<usize, SnmpError>)
    ensures
        match r {
            Ok(n) => spec_status(data@) == Ok::<nat, SnmpError>(n as nat) && n <= data@.len(),
            Err(e) => spec_status(data@) == Err::<nat, SnmpError>(e),
        },
{
    let (status, n) = match read_integer(data) {
        Ok(found) => found,
        Err(e) => {
            return Err(e);
        },
    };
    if status != 0 {
        return Err(SnmpError::ResponseError(status));
    }
    let (index, m) = match read_integer(rest(data, n)) {
        Ok(found) => found,
        Err(e) => {
            return Err(e);
        },
    };
    if index != 0 {
        return Err(SnmpError::ResponseError(index));
    }
    Ok(n + m)
}

/// Reads the value of a binding.
pub(crate) fn read_value(data: &[u8]) -> (r: Result<SnmpType, SnmpError>)
    ensures
        match r {
            Ok(v) => spec_value(data@) == Ok::<SnmpValue, SnmpError>(v@),
            Err(e) => spec_value(data@) == Err::<SnmpValue, SnmpError>(e),
        },
{
    if data.len() >= 2 && data[0] == TAG_OBJECT_ID && data.len() - 2 >= data[1] as usize {
        return Err(SnmpError::InvalidType);
    }
    match extract_value(data) {
        Err(e) => Err(e),
        Ok((v, _)) => Ok(v),
    }
}

/// Reads the variable bindings.
pub(crate) fn read_binding(data: &[u8]) -> (r: Result<(Vec<u32>, SnmpType), SnmpError>)
    ensures
        match r {
            Ok((oid, v)) => spec_binding(data@) == Ok::<(Seq<u32>, SnmpValue), SnmpError>(
                (oid@, v@),
            ),
            Err(e) => spec_binding(data@) == Err::<(Seq<u32>, SnmpValue), SnmpError>(e),
        },
{
    if !has_header(data, TAG_SEQUENCE) {
        return Err(SnmpError::ParsingError);
    }
    let inner = rest(data, 2);
    if !has_header(inner, TAG_SEQUENCE) {
        return Err(SnmpError::ParsingError);
    }
    let pair = rest(inner, 2);
    let (oid, n) = match extract_value(pair) {
        Err(e) => {
            return Err(e);
        },
        Ok((v, n)) => match v {
            SnmpType::SnmpObjectID(oid) => (oid, n),
            _ => {
                return Err(SnmpError::ParsingError);
            },
        },
    };
    match read_value(rest(pair, n)) {
        Err(e) => Err(e),
        Ok(v) => Ok((oid, v)),
    }
}

} // verus!
