//! The authoritative answer engine.
//!
//! A query is answered from the configuration and the TXT store alone:
//!
//! * `TXT` for a name that the ACL lets somebody update is answered with
//!   the values held for it, which may be none. Any other name does not
//!   exist.
//! * `SOA` for the configured domain is answered with the nameserver, the
//!   administrator and the day's serial.
//! * `A`, `AAAA` and `NS` are answered from the static maps of the
//!   configuration. A name that is listed exists, also where it has no
//!   address of the family asked for.
//!
//! Everything else is not implemented.

pub mod handlers;
pub mod message;
