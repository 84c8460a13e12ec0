//! The values and errors that the codec works with.

use vstd::prelude::*;
use vstd::std_specs::convert::FromSpecImpl;

verus! {

/// The error of `std::io`, carried through untouched.
#[verifier::external_type_specification]
#[verifier::external_body]
pub struct ExIoError(std::io::Error);

/// The error that `String::from_utf8` hands back, carried through untouched.
#[verifier::external_type_specification]
#[verifier::external_body]
pub struct ExFromUtf8Error(std::string::FromUtf8Error);

/// Enum containing the various SNMP datatypes.
#[derive(Debug, Clone, PartialEq, Eq)]
pub enum SnmpType {
    /// An integer.
    SnmpInteger(i64),
    /// An octet string that holds UTF-8 text.
    SnmpString(String),
    /// Null.
    SnmpNull,
    /// An object identifier, one entry per sub-identifier.
    SnmpObjectID(Vec<u32>),
}

/// The mathematical value that an `SnmpType` stands for.
pub enum SnmpValue {
    Integer(int),
    Text(Seq<char>),
    Null,
    ObjectId(Seq<u32>),
}

impl View for SnmpType {
    type V = SnmpValue;

    open spec fn view(&self) -> SnmpValue {
        match self {
            SnmpType::SnmpInteger(i) => SnmpValue::Integer(*i as int),
            SnmpType::SnmpString(s) => SnmpValue::Text(s@),
            SnmpType::SnmpNull => SnmpValue::Null,
            SnmpType::SnmpObjectID(o) => SnmpValue::ObjectId(o@),
        }
    }
}

/// Various errors that can occur.
#[derive(Debug)]
pub enum SnmpError {
    /// The packet is shorter than a length that it declares.
    PacketTooShort,
    /// The type tag found in the packet is not one that is understood.
    InvalidType,
    /// The packet could not be parsed in the wanted manner.
    ParsingError,
    /// The agent answered with a nonzero error status or error index.
    ResponseError(i64),
    /// A value or a wrapper would need a length above 127.
    EncodingTooLarge,
    /// An IO error occured when sending or receiving the packets.
    TransportError(std::io::Error),
}

impl From<std::io::Error> for SnmpError {
    fn from(error: std::io::Error) -> (ret: Self) {
        SnmpError::TransportError(error)
    }
}

impl FromSpecImpl<std::io::Error> for SnmpError {
    open spec fn obeys_from_spec() -> bool {
        true
    }

    open spec fn from_spec(error: std::io::Error) -> Self {
        SnmpError::TransportError(error)
    }
}

impl From<std::string::FromUtf8Error> for SnmpError {
    fn from(error: std::string::FromUtf8Error) -> (ret: Self) {
        SnmpError::ParsingError
    }
}

impl FromSpecImpl<std::string::FromUtf8Error> for SnmpError {
    open spec fn obeys_from_spec() -> bool {
        true
    }

    open spec fn from_spec(error: std::string::FromUtf8Error) -> Self {
        SnmpError::ParsingError
    }
}

} // verus!
