//! A uniform, dynamically typed query layer over two database backends: a
//! single-file relational engine and a document store.  Callers name a live
//! connection by a string key, issue a command with a list of generic values,
//! and receive rows as mappings from column or field names to generic values,
//! whichever backend answered.
//!
//! The pure core lives here, verified: connection-string parsing and
//! validation, classification of driver failures, the parameter-binding and
//! cell-decoding codec for the relational backend, the reply decoder for the
//! document backend, and the registry that tracks live connections by name.
//! The drivers themselves do asynchronous I/O, which stays outside; they hand
//! this crate plain values and take plain values back.

pub mod connection_pool;
pub mod decode;
pub mod document;
pub mod error;
pub mod record;
pub mod registry;
pub mod text;
pub mod value;
