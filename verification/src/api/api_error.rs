//! How errors are shown to clients of the HTTP API.

use crate::error::{Error, JsonRejection};
use vstd::prelude::*;

verus! {

/// 400 Bad Request.
pub const BAD_REQUEST: u16 = 400;

/// 403 Forbidden.
pub const FORBIDDEN: u16 = 403;

/// 415 Unsupported Media Type.
pub const UNSUPPORTED_MEDIA_TYPE: u16 = 415;

/// 422 Unprocessable Entity.
pub const UNPROCESSABLE_ENTITY: u16 = 422;

/// 500 Internal Server Error.
pub const INTERNAL_SERVER_ERROR: u16 = 500;

/// 501 Not Implemented.
pub const NOT_IMPLEMENTED: u16 = 501;

/// The HTTP status that an error is answered with.
pub open spec fn status_of(err: Error) -> u16 {
    match err {
        Error::AuthForbidden(_, _) => FORBIDDEN,
        Error::NotImplemented => NOT_IMPLEMENTED,
        Error::InvalidDNS01 => BAD_REQUEST,
        Error::DNSError(_) => BAD_REQUEST,
        Error::JsonExtractorRejection(rejection) => match rejection {
            JsonRejection::JsonDataError => UNPROCESSABLE_ENTITY,
            JsonRejection::JsonSyntaxError => BAD_REQUEST,
            JsonRejection::MissingJsonContentType => UNSUPPORTED_MEDIA_TYPE,
            JsonRejection::BytesRejection => INTERNAL_SERVER_ERROR,
        },
        Error::NotFQDN(_) => INTERNAL_SERVER_ERROR,
        Error::InsecureAPIBind(_) => INTERNAL_SERVER_ERROR,
        Error::IO(_) => INTERNAL_SERVER_ERROR,
        Error::InvalidJSON(_) => INTERNAL_SERVER_ERROR,
    }
}

/// An error on its way to a client of the HTTP API.
#[derive(Debug)]
pub struct APIError(pub Error);

impl APIError {
    /// The HTTP status of the response: refused updates are forbidden, bad
    /// challenge values and bad names are bad requests, a request body is
    /// judged by how it was rejected, and whatever else went wrong is an
    /// internal error.
    pub fn status(&self) -> (status: u16)
        ensures
            status == status_of(self.0),
    {
        match &self.0 {
            Error::AuthForbidden(_, _) => FORBIDDEN,
            Error::NotImplemented => NOT_IMPLEMENTED,
            Error::InvalidDNS01 => BAD_REQUEST,
            Error::DNSError(_) => BAD_REQUEST,
            Error::JsonExtractorRejection(rejection) => match rejection {
                JsonRejection::JsonDataError => UNPROCESSABLE_ENTITY,
                JsonRejection::JsonSyntaxError => BAD_REQUEST,
                JsonRejection::MissingJsonContentType => UNSUPPORTED_MEDIA_TYPE,
                JsonRejection::BytesRejection => INTERNAL_SERVER_ERROR,
            },
            _ => INTERNAL_SERVER_ERROR,
        }
    }

    /// The error of the registration endpoint, which is not offered.
    pub fn register() -> (err: APIError)
        ensures
            err.0 is NotImplemented,
    {
        APIError(Error::NotImplemented)
    }
}

} // verus!
