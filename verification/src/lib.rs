//! A Redis-wire-compatible key/value engine built around hash-slot sharding.
//!
//! The crate holds the parts of the server that can be reasoned about on
//! plain values: the slot arithmetic, the RESP frame codec, the command
//! model, the storage shards, the connection registry and the decisions of
//! the per-connection pipeline.

pub mod cluster;
pub mod cmd;
pub mod connection;
pub mod context;
pub mod dialer;
pub mod frame;
pub mod handle;
pub mod hash;
pub mod storage;
pub mod supervisor;
pub mod text;
