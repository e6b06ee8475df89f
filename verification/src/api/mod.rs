//! The update gateway: what the HTTP API does with a request once the
//! transport has read it.
//!
//! An update names a subdomain of the configured domain and a TXT value.
//! It is accepted from an address within a network that the ACL allows to
//! update that subdomain, with a value that is a DNS-01 challenge response.
//! The accepted value is echoed.

pub mod api_error;
pub mod model;
pub mod routes;
