//! Contains functions and structs for sending and receiving SNMPv1 messages.

use crate::request::{build_get_request, spec_get_request};
use crate::response::{
    read_binding, read_preamble, read_status, rest, spec_response, MessageView,
};
use crate::text::{decimal, integer_to_string};
use crate::tlv::{length_byte_matches, TAG_SEQUENCE};
use crate::traits::encoded_as;
use crate::types::{SnmpError, SnmpType, SnmpValue};
use vstd::prelude::*;
use vstd::slice::slice_to_vec;
use vstd::utf8::encode_utf8;

verus! {

/// The timeout of a request that names none, in milliseconds.
pub const DEFAULT_TIMEOUT: u64 = 1000;

/// Contains a SNMP response and some extracted metadata from it.
#[derive(Debug)]
pub struct Message {
    packet: Vec<u8>,
    community: String,
    request_id: i64,
    oid: Vec<u32>,
    data: SnmpType,
}

impl View for Message {
    type V = MessageView;

    closed spec fn view(&self) -> MessageView {
        MessageView {
            packet: self.packet@,
            community: self.community@,
            request_id: self.request_id as int,
            oid: self.oid@,
            data: self.data@,
        }
    }
}

/// Holds and parses SNMPv1 packets.
impl Message {
    /// A message is what parsing its packet gives.
    #[verifier::type_invariant]
    spec fn parsed(self) -> bool {
        spec_response(self.packet@) == Ok::<MessageView, SnmpError>(self@)
    }

    /// Parses a GetResponse. Every field is checked in the order in which it
    /// stands in the buffer, and the first that is not as it must be ends the
    /// parsing with its error.
    ///
    /// The length byte of the envelope must count the rest of the buffer.
    /// The length bytes of the GetResponse header and of the two sequences
    /// around the binding are read and not held against the buffer. The
    /// request id is kept and not compared with anything.
    pub fn from_packet(packet: &[u8]) -> (r: Result<Self, SnmpError>)
        ensures
            match r {
                Ok(m) => spec_response(packet@) == Ok::<MessageView, SnmpError>(m@),
                Err(e) => spec_response(packet@) == Err::<MessageView, SnmpError>(e),
            },
            packet@.len() > 0 && packet@[0] != TAG_SEQUENCE ==> r matches Err(
                SnmpError::ParsingError,
            ),
    {
        let (community, request_id, at) = match read_preamble(packet) {
            Ok(found) => found,
            Err(e) => {
                return Err(e);
            },
        };
        let fields = rest(packet, at);
        let n = match read_status(fields) {
            Ok(n) => n,
            Err(e) => {
                return Err(e);
            },
        };
        let (oid, data) = match read_binding(rest(fields, n)) {
            Ok(found) => found,
            Err(e) => {
                return Err(e);
            },
        };
        Ok(Message { packet: slice_to_vec(packet), community, request_id, oid, data })
    }

    /// What an exchange comes to, given what the transport handed back: its
    /// failure as a `TransportError`, else the reply parsed.
    pub fn from_reply(reply: Result<Vec<u8>, std::io::Error>) -> (r: Result<Self, SnmpError>)
        ensures
            match reply {
                Err(failure) => r matches Err(SnmpError::TransportError(e)) && e == failure,
                Ok(packet) => match r {
                    Ok(m) => spec_response(packet@) == Ok::<MessageView, SnmpError>(m@),
                    Err(e) => spec_response(packet@) == Err::<MessageView, SnmpError>(e),
                },
            },
    {
        match reply {
            Err(failure) => Err(SnmpError::from(failure)),
            Ok(packet) => Message::from_packet(packet.as_slice()),
        }
    }

    /// Returns the full packet received.
    pub fn packet(&self) -> (r: &[u8])
        ensures
            r@ == self@.packet,
            spec_response(r@) == Ok::<MessageView, SnmpError>(self@),
    {
        proof {
            use_type_invariant(self);
        }
        self.packet.as_slice()
    }

    /// Returns the community string of the response.
    pub fn community(&self) -> (r: &str)
        ensures
            r@ == self@.community,
    {
        self.community.as_str()
    }

    /// Returns the request id that the agent echoed. It is for the caller to
    /// hold it against the id of the request.
    pub fn request_id(&self) -> (r: i64)
        ensures
            r as int == self@.request_id,
    {
        self.request_id
    }

    /// Returns the sub-identifiers of the object that the value is bound to.
    pub fn oid(&self) -> (r: &[u32])
        ensures
            r@ == self@.oid,
    {
        self.oid.as_slice()
    }

    /// Returns the value of the binding.
    pub fn value(&self) -> (r: &SnmpType)
        ensures
            r@ == self@.data,
            !(r@ is ObjectId),
    {
        proof {
            use_type_invariant(self);
        }
        &self.data
    }

    /// Gives the data of the packet as text: a string as it is, an integer
    /// in decimal. Fails with `InvalidType` on Null.
    pub fn to_string(&self) -> (r: Result<String, SnmpError>)
        ensures
            match self@.data {
                SnmpValue::Integer(i) => r matches Ok(s) && s@ == decimal(i),
                SnmpValue::Text(t) => r matches Ok(s) && s@ == t,
                _ => r matches Err(SnmpError::InvalidType),
            },
    {
        match &self.data {
            SnmpType::SnmpInteger(i) => Ok(integer_to_string(*i)),
            SnmpType::SnmpString(s) => Ok(s.clone()),
            _ => Err(SnmpError::InvalidType),
        }
    }

    /// If the message is a SnmpInteger, returns the number. Fails with
    /// `InvalidType` on anything else.
    pub fn to_int(&self) -> (r: Result<i64, SnmpError>)
        ensures
            match self@.data {
                SnmpValue::Integer(i) => r matches Ok(n) && n as int == i,
                _ => r matches Err(SnmpError::InvalidType),
            },
    {
        match &self.data {
            SnmpType::SnmpInteger(i) => Ok(*i),
            _ => Err(SnmpError::InvalidType),
        }
    }
}

/// What `parse` returns for the buffer `p`.
pub open spec fn spec_parse(p: Seq<u8>) -> Result<Seq<char>, SnmpError> {
    match spec_response(p) {
        Err(e) => Err(e),
        Ok(m) => match m.data {
            SnmpValue::Integer(i) => Ok(decimal(i)),
            SnmpValue::Text(t) => Ok(t),
            _ => Err(SnmpError::InvalidType),
        },
    }
}

/// Parses a GetResponse and gives the value of its binding as text.
pub fn parse(packet: &[u8]) -> (r: Result<String, SnmpError>)
    ensures
        match r {
            Ok(s) => spec_parse(packet@) == Ok::<Seq<char>, SnmpError>(s@),
            Err(e) => spec_parse(packet@) == Err::<Seq<char>, SnmpError>(e),
        },
{
    match Message::from_packet(packet) {
        Err(e) => Err(e),
        Ok(m) => m.to_string(),
    }
}

/// Calls `rand::random` for a `u32`. The number comes from the generator of
/// the thread, so nothing is known of it.
#[verifier::external_body]
fn fresh_request_id() -> (id: u32) {
    rand::random::<u32>()
}

/// Contains fields describing a SNMPv1 request.
#[derive(Debug)]
pub struct Request {
    /// The address of the agent, such as `demo.snmplabs.com:161`.
    pub address: String,
    /// The sub-identifiers of the object that is asked for.
    pub mibvals: Vec<u32>,
    /// The community string.
    pub community: String,
    /// The id that the agent is to echo.
    pub request_id: u32,
    /// The time to wait for the answer, in milliseconds.
    pub timeout: u64,
}

impl Request {
    /// Creates a request with the given request id and a timeout of 1000 ms.
    pub fn with_request_id(
        address: String,
        community: String,
        mibvals: Vec<u32>,
        request_id: u32,
    ) -> (r: Request)
        ensures
            r.address == address,
            r.mibvals == mibvals,
            r.community == community,
            r.request_id == request_id,
            r.timeout == DEFAULT_TIMEOUT,
    {
        Request { address, mibvals, community, request_id, timeout: DEFAULT_TIMEOUT }
    }

    /// Creates a request with only the essential arguments.
    /// Defaults requestID to a random number, and timeout to 1000ms.
    pub fn new(address: String, community: String, mibvals: Vec<u32>) -> (r: Request)
        ensures
            r.address == address,
            r.mibvals == mibvals,
            r.community == community,
            r.timeout == DEFAULT_TIMEOUT,
    {
        Request::with_request_id(address, community, mibvals, fresh_request_id())
    }

    /// Builds the GetRequest message of this request.
    pub fn createpacket(&self) -> (r: Result<Vec<u8>, SnmpError>)
        ensures
            encoded_as(
                r,
                spec_get_request(
                    encode_utf8(self.community@),
                    self.mibvals@,
                    self.request_id as int,
                ),
            ),
            r matches Ok(bytes) ==> bytes@[0] == TAG_SEQUENCE && length_byte_matches(bytes@),
    {
        build_get_request(
            self.community.as_str().as_bytes(),
            self.mibvals.as_slice(),
            self.request_id as i64,
        )
    }
}

} // verus!
