//! Finality and chain synchronisation for a BFT-finalised blockchain node.
//!
//! The crate holds the decision logic of the synchronisation layer: what a node
//! knows about blocks and their justifications, what it asks of its peers and
//! when, and how incoming justifications travel from raw bytes to the task that
//! finalises blocks. Everything that waits, sleeps, sends or receives lives with
//! the caller, which hands events in and carries the returned actions out.

pub mod block;
pub mod compatibility;
pub mod config;
pub mod data;
pub mod forest;
pub mod forest_model;
pub mod handler;
pub mod import;
pub mod justification;
pub mod network;
pub mod policy;
pub mod primitives;
pub mod service;
pub mod session;
pub mod task_queue;
pub mod ticker;

pub use block::{BlockHash, BlockId, BlockNumber, Header, HeaderView, PeerId};
