//! An in-memory key/value cache speaking the memcached binary wire protocol.
//!
//! The crate is organized around three pieces: a streaming wire codec that
//! turns bytes into typed requests and typed responses back into bytes, a
//! storage engine holding the record table, and a request handler that maps
//! each decoded request to one storage call and builds the response.

pub mod binary;
pub mod binary_codec;
pub mod error;
pub mod handler;
pub mod server;
pub mod storage;
pub mod wire;
