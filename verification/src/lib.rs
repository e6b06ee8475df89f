//! A small authoritative DNS responder for ACME DNS-01 challenges.
//!
//! Clients on trusted networks publish short-lived TXT challenge values
//! through an update gateway; the answer engine serves those values
//! together with a handful of statically configured records.
//!
//! Everything in this crate is plain data in, plain data out: sockets,
//! files and locks belong to the program that embeds it.

pub mod api;
pub mod config;
pub mod dns;
pub mod error;
pub mod name;
pub mod name_map;
pub mod net;
pub mod txt_store;

pub use config::{Config, Shared};
pub use txt_store::file::FileTxtStore;
pub use txt_store::memory::InMemoryTxtStore;
