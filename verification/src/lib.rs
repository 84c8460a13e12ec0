//! Encoding and decoding of SNMP version 1 GET exchanges.
//!
//! The crate holds the binary codec only: the big-endian integers
//! ([`endian`]), the packing of object identifiers ([`oid`]), the
//! tag-length-value unit ([`tlv`]), the encoding and decoding of single
//! values ([`traits`], [`codec`]), decimal text ([`text`]), the builder of
//! GetRequest messages ([`request`]), the parser of GetResponse messages
//! ([`response`]), what holds between the two ([`echo`]), and the requests
//! and messages that callers handle ([`snmpv1`]). Sockets are left to the
//! caller.

pub mod codec;
pub mod echo;
pub mod endian;
pub mod oid;
pub mod request;
pub mod response;
pub mod snmpv1;
pub mod text;
pub mod tlv;
pub mod traits;
pub mod types;
