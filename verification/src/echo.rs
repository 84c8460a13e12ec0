//! A request, sent back with the tag of a response, is a response.

use crate::codec::{lemma_decode_encode, lemma_decode_front, spec_decode};
use crate::endian::be_bytes;
use crate::oid::spec_pack;
use crate::request::{spec_bindings, spec_get_request};
use crate::response::{
    spec_binding, spec_header, spec_preamble, spec_response, spec_status, MessageView, Preamble,
};
use crate::tlv::{
    integer_tlv, lemma_wrap_shape, tlv, TAG_GET_REQUEST, TAG_GET_RESPONSE, TAG_NULL,
    TAG_OBJECT_ID, TAG_OCTET_STRING, TAG_SEQUENCE,
};
use crate::types::{SnmpError, SnmpValue};
use vstd::prelude::*;
use vstd::utf8::encode_utf8;

verus! {

/// True when the unit at the front of `s` holds `v` and takes `n` bytes.
/// The proofs below pass this on from one to the other without looking into it.
#[verifier::opaque]
spec fn reads_as(s: Seq<u8>, v: SnmpValue, n: nat) -> bool {
    spec_decode(s) == Ok::<(SnmpValue, nat), SnmpError>((v, n))
}

/// An encoded integer in front of anything is read as that integer.
proof fn lemma_integer_front(n: int, behind: Seq<u8>)
    requires
        i64::MIN <= n <= i64::MAX,
    ensures
        reads_as(integer_tlv(n) + behind, SnmpValue::Integer(n), integer_tlv(n).len()),
        integer_tlv(0).len() == 3,
{
    reveal(reads_as);
    lemma_decode_encode(SnmpValue::Integer(n));
    lemma_decode_front(integer_tlv(n), behind);
    assert(integer_tlv(0).len() == 3) by {
        reveal_with_fuel(be_bytes, 2);
    }
}

/// An encoded string in front of anything is read as that string.
proof fn lemma_text_front(text: Seq<char>, behind: Seq<u8>)
    requires
        encode_utf8(text).len() <= 127,
    ensures
        reads_as(
            tlv(TAG_OCTET_STRING, encode_utf8(text)) + behind,
            SnmpValue::Text(text),
            tlv(TAG_OCTET_STRING, encode_utf8(text)).len(),
        ),
{
    reveal(reads_as);
    let unit = tlv(TAG_OCTET_STRING, encode_utf8(text));
    lemma_decode_encode(SnmpValue::Text(text));
    lemma_decode_front(unit, behind);
}

/// The fields in front of the error status, each read where the one in front
/// of it ends.
proof fn lemma_preamble_of_steps(
    p: Seq<u8>,
    n: nat,
    community: Seq<char>,
    m: nat,
    request_id: int,
    k: nat,
)
    requires
        p.len() >= 2,
        p[0] == TAG_SEQUENCE,
        p[1] == p.len() - 2,
        reads_as(p.skip(2), SnmpValue::Integer(0), n),
        reads_as(p.skip(2).skip(n as int), SnmpValue::Text(community), m),
        spec_header(p.skip(2).skip(n as int).skip(m as int), TAG_GET_RESPONSE),
        reads_as(
            p.skip(2).skip(n as int).skip(m as int).skip(2),
            SnmpValue::Integer(request_id),
            k,
        ),
    ensures
        spec_preamble(p) == Ok::<Preamble, SnmpError>(
            Preamble { community, request_id, end: 2 + n + m + 2 + k },
        ),
{
    reveal(reads_as);
}

/// Five parts one behind the other: where each starts, and what is left
/// behind the last.
proof fn lemma_skip_parts(
    first: Seq<u8>,
    second: Seq<u8>,
    third: Seq<u8>,
    fourth: Seq<u8>,
    fifth: Seq<u8>,
    behind: Seq<u8>,
)
    ensures
        ({
            let at_fifth = fifth + behind;
            let at_fourth = fourth + at_fifth;
            let at_third = third + at_fourth;
            let at_second = second + at_third;
            let p = first + at_second;
            let a = first.len() as int;
            let b = second.len() as int;
            let c = third.len() as int;
            let d = fourth.len() as int;
            let e = fifth.len() as int;
            &&& p.skip(a) == at_second
            &&& p.skip(a).skip(b) == at_third
            &&& p.skip(a).skip(b).skip(c) == at_fourth
            &&& p.skip(a).skip(b).skip(c).skip(d) == at_fifth
            &&& p.skip(a + b + c + d + e) == behind
        }),
{
}

/// What stands in front of the error status, written out, is read back.
proof fn lemma_preamble_of_fields(
    p: Seq<u8>,
    community: Seq<char>,
    length: u8,
    request_id: int,
    behind: Seq<u8>,
)
    requires
        i64::MIN <= request_id <= i64::MAX,
        encode_utf8(community).len() <= 127,
        p.len() <= 129,
        p == seq![TAG_SEQUENCE, (p.len() - 2) as u8] + (integer_tlv(0) + (tlv(
            TAG_OCTET_STRING,
            encode_utf8(community),
        ) + (seq![TAG_GET_RESPONSE, length] + (integer_tlv(request_id) + behind)))),
    ensures
        spec_preamble(p) is Ok,
        spec_preamble(p)->Ok_0.community == community,
        spec_preamble(p)->Ok_0.request_id == request_id,
        p.skip(spec_preamble(p)->Ok_0.end as int) == behind,
{
    let envelope = seq![TAG_SEQUENCE, (p.len() - 2) as u8];
    let version = integer_tlv(0);
    let owner = tlv(TAG_OCTET_STRING, encode_utf8(community));
    let header = seq![TAG_GET_RESPONSE, length];
    let id = integer_tlv(request_id);
    let pdu = header + (id + behind);
    lemma_skip_parts(envelope, version, owner, header, id, behind);
    lemma_integer_front(0, owner + pdu);
    lemma_text_front(community, pdu);
    lemma_integer_front(request_id, behind);
    lemma_preamble_of_steps(p, 3, community, owner.len(), request_id, id.len());
}

/// Two encoded zeros are an error status and an error index that pass.
proof fn lemma_status_of_zeros(behind: Seq<u8>)
    ensures
        spec_status(integer_tlv(0) + (integer_tlv(0) + behind)) == Ok::<nat, SnmpError>(6),
        (integer_tlv(0) + (integer_tlv(0) + behind)).skip(6) == behind,
{
    lemma_integer_front(0, integer_tlv(0) + behind);
}

/// The bindings of a request are read back as its object identifier, bound
/// to Null.
proof fn lemma_binding_of_request(subids: Seq<u32>)
    requires
        subids.len() >= 2,
        subids[1] < 40,
        spec_bindings(subids) is Ok,
    ensures
        spec_binding(spec_bindings(subids)->Ok_0) == Ok::<(Seq<u32>, SnmpValue), SnmpError>(
            (subids, SnmpValue::Null),
        ),
{
    let packed = spec_pack(subids)->Ok_0;
    let name = tlv(TAG_OBJECT_ID, packed);
    let null = tlv(TAG_NULL, Seq::empty());
    let pair = name + null;
    let binding = tlv(TAG_SEQUENCE, pair);
    lemma_wrap_shape(TAG_SEQUENCE, pair);
    lemma_wrap_shape(TAG_SEQUENCE, binding);
    lemma_decode_encode(SnmpValue::ObjectId(subids));
    lemma_decode_front(name, null);
}

/// Writing `tag` over the first byte of the middle part changes that byte
/// and no other.
proof fn lemma_retag(front: Seq<u8>, tag: u8, length: u8, behind: Seq<u8>, with: u8)
    ensures
        (front + (seq![tag, length] + behind)).update(front.len() as int, with) == front + (seq![
            with,
            length,
        ] + behind),
{
}

/// The units of a request that could be built, one behind the other, with
/// the tag of a GetResponse written over that of the GetRequest.
proof fn lemma_reply_layout(community: Seq<u8>, subids: Seq<u32>, request_id: int)
    requires
        i64::MIN <= request_id <= i64::MAX,
        spec_get_request(community, subids, request_id) is Ok,
    ensures
        community.len() <= 127,
        spec_bindings(subids) is Ok,
        ({
            let request = spec_get_request(community, subids, request_id)->Ok_0;
            let reply = request.update(7 + community.len() as int, TAG_GET_RESPONSE);
            let behind = integer_tlv(0) + (integer_tlv(0) + spec_bindings(subids)->Ok_0);
            &&& reply.len() <= 129
            &&& exists|length: u8|
                reply == seq![TAG_SEQUENCE, (reply.len() - 2) as u8] + (integer_tlv(0) + (tlv(
                    TAG_OCTET_STRING,
                    community,
                ) + (#[trigger] seq![TAG_GET_RESPONSE, length] + (integer_tlv(request_id)
                    + behind))))
        }),
{
    let request = spec_get_request(community, subids, request_id)->Ok_0;
    let front = seq![TAG_SEQUENCE, (request.len() - 2) as u8] + (integer_tlv(0) + tlv(
        TAG_OCTET_STRING,
        community,
    ));
    let behind = integer_tlv(request_id) + (integer_tlv(0) + (integer_tlv(0) + spec_bindings(
        subids,
    )->Ok_0));
    lemma_integer_front(0, Seq::empty());
    lemma_retag(front, TAG_GET_REQUEST, behind.len() as u8, behind, TAG_GET_RESPONSE);
}

/// A request whose GetRequest tag is turned into the tag of a GetResponse is
/// a response that is accepted: it gives back the community, the request id
/// and the object identifier of the request, bound to Null.
pub proof fn lemma_request_as_response(community: Seq<char>, subids: Seq<u32>, request_id: int)
    requires
        i64::MIN <= request_id <= i64::MAX,
        subids.len() >= 2,
        subids[1] < 40,
        spec_get_request(encode_utf8(community), subids, request_id) is Ok,
    ensures
        ({
            let request = spec_get_request(encode_utf8(community), subids, request_id)->Ok_0;
            let reply = request.update(7 + encode_utf8(community).len() as int, TAG_GET_RESPONSE);
            spec_response(reply) == Ok::<MessageView, SnmpError>(
                MessageView {
                    packet: reply,
                    community,
                    request_id,
                    oid: subids,
                    data: SnmpValue::Null,
                },
            )
        }),
{
    let c = encode_utf8(community);
    let request = spec_get_request(c, subids, request_id)->Ok_0;
    let reply = request.update(7 + c.len() as int, TAG_GET_RESPONSE);
    let bindings = spec_bindings(subids)->Ok_0;
    let fields = integer_tlv(0) + (integer_tlv(0) + bindings);
    lemma_reply_layout(c, subids, request_id);
    let length = choose|length: u8|
        reply == seq![TAG_SEQUENCE, (reply.len() - 2) as u8] + (integer_tlv(0) + (tlv(
            TAG_OCTET_STRING,
            c,
        ) + (#[trigger] seq![TAG_GET_RESPONSE, length] + (integer_tlv(request_id) + fields))));
    lemma_preamble_of_fields(reply, community, length, request_id, fields);
    lemma_status_of_zeros(bindings);
    lemma_binding_of_request(subids);
}

} // verus!
