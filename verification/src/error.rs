//! The error taxonomy of the proxy core.
//!
//! Protocol faults are given their own kinds here: `InvalidData` marks a
//! non-conforming peer, `Unsupported` marks a packet the protocol defines
//! but this proxy does not handle, and `UnexpectedEof` marks input that
//! ended inside a value (the framer treats it as "need more bytes" while
//! reading a length prefix). `Timeout` and `Io` stand for the conditions
//! that the surrounding I/O layer reports; nothing in the core constructs
//! `Io` itself.
use vstd::prelude::*;

verus! {

#[derive(Debug, Clone, Copy, PartialEq, Eq, Structural)]
pub enum Error {
    /// The peer sent data that the protocol does not allow.
    InvalidData,
    /// A packet the protocol defines but this proxy does not implement.
    Unsupported,
    /// The input ended in the middle of a value.
    UnexpectedEof,
    /// A read timeout elapsed.
    Timeout,
    /// An underlying socket or process error.
    Io,
}

impl Error {
    /// A short human-readable description, for logs.
    pub fn message(&self) -> (r: &'static str)
        ensures
            r@ == self.message_spec(),
    {
        match self {
            Error::InvalidData => "invalid data",
            Error::Unsupported => "unsupported",
            Error::UnexpectedEof => "unexpected end of input",
            Error::Timeout => "timeout",
            Error::Io => "io error",
        }
    }

    pub open spec fn message_spec(&self) -> Seq<char> {
        match self {
            Error::InvalidData => "invalid data"@,
            Error::Unsupported => "unsupported"@,
            Error::UnexpectedEof => "unexpected end of input"@,
            Error::Timeout => "timeout"@,
            Error::Io => "io error"@,
        }
    }
}

} // verus!
