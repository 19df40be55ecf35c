//! Core of a decentralized peer-to-peer folder synchronizer.
//!
//! The library holds the verified logic of the node: the line-delimited
//! wire codec, the broker that owns the peer registry and the in-flight
//! set, the file store semantics, the per-connection state machine and
//! the watcher event mapping. Sockets, filesystem notifications and the
//! event loop itself live outside the library and drive it with plain
//! values.

use vstd::prelude::*;

pub mod base64;
pub mod broker;
pub mod chars;
pub mod codec;
pub mod conn;
pub mod ids;
pub mod json;
pub mod num;
pub mod peer;
pub mod rendezvous;
pub mod store;
pub mod watch;

verus! {

/// Size in bytes of one file chunk carried by a single write command;
/// the final chunk of a file may be shorter.
pub const CHUNK_SIZE: usize = 256;

/// The node's command-line arguments: the root folder to synchronize.
/// The argument parsing itself lives outside the library.
pub struct CmdArgs {
    pub folder: String,
}

/// Number of chunks a file of `len` bytes is split into.
pub open spec fn spec_chunk_count(len: nat) -> nat {
    if len == 0 {
        0
    } else {
        ((len - 1) / CHUNK_SIZE as int + 1) as nat
    }
}

} // verus!
