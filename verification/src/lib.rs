//! Binding of query parameters for the MySQL binary protocol.
//!
//! A prepared statement is executed with an ordered list of typed values, one for each
//! placeholder. This crate turns such a list into the three blocks that the execute packet
//! carries: a bit-packed mask that says which parameters are `NULL`, one wire-type descriptor
//! per parameter, and the encoded bytes of the parameters that are not `NULL`.
//!
//! - [`encode`] and [`types`] hold what a value must offer to be bound.
//! - [`arguments`] says what binding means for any driver, and what holds of every list that
//!   was built by binding.
//! - [`mysql`] holds the argument list of MySQL, its NULL bitmap, and the values that it can
//!   bind.
pub mod arguments;
pub mod database;
pub mod encode;
pub mod mysql;
pub mod types;
