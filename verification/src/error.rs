//! Error types.

use crate::name::LowerName;
use crate::net::IpAddress;
use trust_dns_proto::error::ProtoError;
use vstd::prelude::*;

verus! {

/// Why a request body could not be read as JSON.
#[derive(Clone, Copy, Debug, PartialEq, Eq, Structural)]
pub enum JsonRejection {
    /// The body is JSON of the wrong shape.
    JsonDataError,
    /// The body is not JSON.
    JsonSyntaxError,
    /// The request does not declare a JSON body.
    MissingJsonContentType,
    /// The body could not be read at all.
    BytesRejection,
}

/// The possible error states.
#[derive(Debug)]
pub enum Error {
    /// The operation is not offered.
    NotImplemented,
    /// An update came from an address outside every network that may update
    /// the subdomain.
    AuthForbidden(IpAddress, LowerName),
    /// The request body was rejected.
    JsonExtractorRejection(JsonRejection),
    /// The TXT value is not a DNS-01 challenge response: the unpadded
    /// URL-safe base64 encoding of a 32 byte digest.
    InvalidDNS01,
    /// A TXT store was given a key that is not fully qualified.
    NotFQDN(LowerName),
    /// The API bind address is neither loopback nor private.
    InsecureAPIBind(IpAddress),
    /// Reading or writing failed; the text says how.
    IO(String),
    /// JSON could not be written or read; the text says why.
    InvalidJSON(String),
    /// A name or another part of the DNS protocol is malformed.
    DNSError(ProtoError),
}

} // verus!
