//! Frames of a shell, and the size of the queues that carry them.
use vstd::prelude::*;

verus! {

/// How many frames of a shell wait in one direction.
pub const SHELL_TUNNEL_CHANNEL_CAPACITY: usize = 64;

/// How many pieces of a forwarded port wait in one direction.
pub const PORT_TUNNEL_CHANNEL_CAPACITY: usize = 64;

/// A frame of a shell.
#[derive(Clone, Debug, PartialEq, Eq)]
pub enum ShellFrame {
    Text(String),
    Binary(Vec<u8>),
    Ping(Vec<u8>),
    Pong(Vec<u8>),
    Close(Option<ShellClose>),
}

/// Why a shell was closed.
#[derive(Clone, Debug, PartialEq, Eq)]
pub struct ShellClose {
    pub code: u16,
    pub reason: String,
}

} // verus!
