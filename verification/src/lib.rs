//! Verified decision core of a device management server.
//!
//! The library holds the rules of the server: what a request may do, how a
//! durable job moves from phase to phase, how a result is paged and signed,
//! how a failure is reported. It performs no input or output: a caller reads
//! rows and bytes, hands them over as plain values and carries out what comes
//! back.
pub mod cli;
pub mod config;
pub mod crypto;
pub mod encoding;
pub mod error;
pub mod id;
pub mod inventory;
pub mod inventory_runtime;
pub mod json;
pub mod lifecycle;
pub mod maintenance;
pub mod management;
pub mod map;
pub mod number;
pub mod order;
pub mod pick;
pub mod set;
pub mod text;
