//! The failures that cross the host boundary.

use crate::utils::{decimal, push_decimal};
use vstd::prelude::*;
use vstd::string::StringExecFns;

verus! {

/// A failure that a contract reports in its own words.
#[derive(Debug, Clone, PartialEq, Eq)]
pub struct ErrorWithMsg {
    pub msg: String,
}

/// Everything that can go wrong between a contract and its host.
#[derive(Debug, Clone, PartialEq, Eq)]
pub enum Error {
    /// The host holds no argument at that index, or no value under that key.
    NotFound,
    /// A fixed-width value was decoded from the wrong number of bytes.
    LengthMismatch { expected: usize, actual: usize },
    /// The bytes of a string are not well-formed UTF-8.
    InvalidUtf8,
    /// The byte of a boolean is neither 0 nor 1.
    InvalidBoolValue(u8),
    /// A call frame ends before the bytes that its prefixes announce.
    TruncatedFrame,
    /// A host primitive reported failure, or answered outside its protocol.
    HostCallFailure,
    /// A call into another contract failed.
    RemoteCallFailure,
    /// A failure raised by the contract itself.
    WithMsg(ErrorWithMsg),
}

/// Wraps a message of the contract's own into an error.
pub fn from_str(msg: &str) -> (e: Error)
    ensures
        e matches Error::WithMsg(m) && m.msg@ == msg@,
{
    Error::WithMsg(ErrorWithMsg { msg: msg.to_owned() })
}

/// The line that tells of an error in the log.
pub open spec fn message_of(e: Error) -> Seq<char> {
    match e {
        Error::NotFound => "not found"@,
        Error::LengthMismatch { expected, actual } => "a length of bytes must be "@ + decimal(
            expected as nat,
        ) + ", but got "@ + decimal(actual as nat),
        Error::InvalidUtf8 => "invalid UTF-8 sequence"@,
        Error::InvalidBoolValue(n) => "expected a boolean value, but got "@ + decimal(n as nat),
        Error::TruncatedFrame => "truncated frame"@,
        Error::HostCallFailure => "host call failed"@,
        Error::RemoteCallFailure => "failed to call contract"@,
        Error::WithMsg(m) => m.msg@,
    }
}

impl Error {
    /// The line that tells of the error in the log.
    pub fn message(&self) -> (text: String)
        ensures
            text@ == message_of(*self),
    {
        match self {
            Error::NotFound => "not found".to_owned(),
            Error::LengthMismatch { expected, actual } => {
                let mut text = "a length of bytes must be ".to_owned();
                push_decimal(&mut text, *expected as u64);
                text.append(", but got ");
                push_decimal(&mut text, *actual as u64);
                text
            },
            Error::InvalidUtf8 => "invalid UTF-8 sequence".to_owned(),
            Error::InvalidBoolValue(n) => {
                let mut text = "expected a boolean value, but got ".to_owned();
                push_decimal(&mut text, *n as u64);
                text
            },
            Error::TruncatedFrame => "truncated frame".to_owned(),
            Error::HostCallFailure => "host call failed".to_owned(),
            Error::RemoteCallFailure => "failed to call contract".to_owned(),
            Error::WithMsg(m) => m.msg.clone(),
        }
    }
}

} // verus!
