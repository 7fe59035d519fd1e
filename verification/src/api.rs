//! What a contract makes of the host's answers.
//!
//! The host's primitives answer with an integer: the sentinel for "not
//! found" or "failed", else a byte count or a handle.  The functions here
//! decide what an answer means; the calls themselves are made by whoever
//! links against the host.

use crate::error::Error;
use crate::frame::{arg_views, frame, serialize_args};
use crate::reader::SENTINEL;
use crate::types::FromBytes;
use vstd::prelude::*;
use vstd::slice::slice_to_vec;
use vstd::string::StringExecFns;
use vstd::utf8::encode_utf8;

verus! {

/// What an invocation leaves behind when it ends at once: a line for the
/// log, a response, and whether it succeeded.
pub struct Reply {
    pub log: Option<Vec<u8>>,
    pub response: Option<Vec<u8>>,
    pub success: bool,
}

/// The meaning of the answer of a primitive that fills a buffer with a
/// fixed number of bytes, such as a digest: `value` unless the host failed.
pub fn host_result<T>(ret: i32, value: T) -> (r: Result<T, Error>)
    ensures
        r == if ret == SENTINEL {
            Err::<T, Error>(Error::HostCallFailure)
        } else {
            Ok::<T, Error>(value)
        },
{
    if ret == SENTINEL {
        Err(Error::HostCallFailure)
    } else {
        Ok(value)
    }
}

/// The meaning of the answer of a primitive that looks something up, such
/// as the sender: `value` unless the host has none.
pub fn lookup_result<T>(ret: i32, value: T) -> (r: Result<T, Error>)
    ensures
        r == if ret == SENTINEL {
            Err::<T, Error>(Error::NotFound)
        } else {
            Ok::<T, Error>(value)
        },
{
    if ret == SENTINEL {
        Err(Error::NotFound)
    } else {
        Ok(value)
    }
}

/// A call into another contract, as it is handed to the host.
pub struct RemoteCall {
    pub address: Vec<u8>,
    pub entry: Vec<u8>,
    /// The arguments, packed into one frame.
    pub frame: Vec<u8>,
}

/// Prepares the call of the entry point `entry` of the contract at `addr`
/// with the arguments `args`.
pub fn call_contract(addr: &[u8], entry: &[u8], args: &[&[u8]]) -> (call: RemoteCall)
    ensures
        call.address@ == addr@,
        call.entry@ == entry@,
        call.frame@ == frame(arg_views(args@)),
{
    RemoteCall {
        address: slice_to_vec(addr),
        entry: slice_to_vec(entry),
        frame: serialize_args(args),
    }
}

/// The handle of a remote call's result, from the answer to the call.
pub open spec fn handle_of(ret: int) -> Result<usize, Error> {
    if ret == SENTINEL {
        Err(Error::RemoteCallFailure)
    } else if ret < 0 {
        Err(Error::HostCallFailure)
    } else {
        Ok(ret as usize)
    }
}

/// The meaning of the answer to a call into another contract: the handle
/// under which the result can be read, page by page.
pub fn remote_handle(ret: i32) -> (r: Result<usize, Error>)
    ensures
        r == handle_of(ret as int),
{
    if ret == SENTINEL {
        Err(Error::RemoteCallFailure)
    } else if ret < 0 {
        Err(Error::HostCallFailure)
    } else {
        Ok(ret as usize)
    }
}

/// Whether the parts of a signature have the lengths that recovery asks
/// for: 32 bytes of digest, one byte `v`, 32 bytes each of `r` and `s`.
/// The first part of another length is reported.
pub open spec fn recovery_args(h: Seq<u8>, v: Seq<u8>, r: Seq<u8>, s: Seq<u8>) -> Result<
    (),
    Error,
> {
    if h.len() != 32 {
        Err(Error::LengthMismatch { expected: 32, actual: h.len() as usize })
    } else if v.len() != 1 {
        Err(Error::LengthMismatch { expected: 1, actual: v.len() as usize })
    } else if r.len() != 32 {
        Err(Error::LengthMismatch { expected: 32, actual: r.len() as usize })
    } else if s.len() != 32 {
        Err(Error::LengthMismatch { expected: 32, actual: s.len() as usize })
    } else {
        Ok(())
    }
}

/// Checks the parts of a signature before the host is asked to recover the
/// signer's key.
pub fn ecrecover(h: &[u8], v: &[u8], r: &[u8], s: &[u8]) -> (checked: Result<(), Error>)
    ensures
        checked == recovery_args(h@, v@, r@, s@),
{
    if h.len() != 32 {
        Err(Error::LengthMismatch { expected: 32, actual: h.len() })
    } else if v.len() != 1 {
        Err(Error::LengthMismatch { expected: 1, actual: v.len() })
    } else if r.len() != 32 {
        Err(Error::LengthMismatch { expected: 32, actual: r.len() })
    } else if s.len() != 32 {
        Err(Error::LengthMismatch { expected: 32, actual: s.len() })
    } else {
        Ok(())
    }
}

/// Checks the parts of a signature before the host is asked to recover the
/// signer's address.
pub fn ecrecover_address(h: &[u8], v: &[u8], r: &[u8], s: &[u8]) -> (checked: Result<(), Error>)
    ensures
        checked == recovery_args(h@, v@, r@, s@),
{
    ecrecover(h, v, r, s)
}

/// The text that a read yields: the error of a read that failed, else the
/// bytes read as UTF-8.
pub open spec fn text_of(read: Result<Vec<u8>, Error>) -> Result<Seq<char>, Error> {
    match read {
        Ok(bytes) => <String as FromBytes>::decode(bytes@),
        Err(e) => Err(e),
    }
}

/// The argument that was read, as text.
pub fn get_arg_str(arg: Result<Vec<u8>, Error>) -> (r: Result<String, Error>)
    ensures
        crate::types::decoded(r) == text_of(arg),
{
    match arg {
        Ok(bytes) => <String as FromBytes>::from_bytes(bytes.as_slice()),
        Err(e) => Err(e),
    }
}

/// The stored value that was read, as text.
pub fn read_state_str(state: Result<Vec<u8>, Error>) -> (r: Result<String, Error>)
    ensures
        crate::types::decoded(r) == text_of(state),
{
    match state {
        Ok(bytes) => <String as FromBytes>::from_bytes(bytes.as_slice()),
        Err(e) => Err(e),
    }
}

/// The numeral of one hexadecimal digit, in upper case.
pub open spec fn upper_hex_digit(d: nat) -> Seq<char> {
    if d == 0 {
        "0"@
    } else if d == 1 {
        "1"@
    } else if d == 2 {
        "2"@
    } else if d == 3 {
        "3"@
    } else if d == 4 {
        "4"@
    } else if d == 5 {
        "5"@
    } else if d == 6 {
        "6"@
    } else if d == 7 {
        "7"@
    } else if d == 8 {
        "8"@
    } else if d == 9 {
        "9"@
    } else if d == 10 {
        "A"@
    } else if d == 11 {
        "B"@
    } else if d == 12 {
        "C"@
    } else if d == 13 {
        "D"@
    } else if d == 14 {
        "E"@
    } else {
        "F"@
    }
}

/// The hexadecimal numeral of a byte, in upper case and without a leading
/// zero.
pub open spec fn upper_hex(b: u8) -> Seq<char> {
    if b < 16 {
        upper_hex_digit(b as nat)
    } else {
        upper_hex_digit((b / 16) as nat) + upper_hex_digit((b % 16) as nat)
    }
}

/// The numerals of `bytes`, separated by a comma and a space.
pub open spec fn hex_list(bytes: Seq<u8>) -> Seq<char>
    decreases bytes.len(),
{
    if bytes.len() == 0 {
        Seq::empty()
    } else if bytes.len() == 1 {
        upper_hex(bytes[0])
    } else {
        hex_list(bytes.drop_last()) + ", "@ + upper_hex(bytes.last())
    }
}

/// `bytes` as a bracketed list of hexadecimal numerals, such as `[1, A, FF]`.
pub open spec fn debug_hex(bytes: Seq<u8>) -> Seq<char> {
    "["@ + hex_list(bytes) + "]"@
}

fn upper_hex_str(d: u8) -> (s: &'static str)
    requires
        d < 16,
    ensures
        s@ == upper_hex_digit(d as nat),
{
    if d == 0 {
        "0"
    } else if d == 1 {
        "1"
    } else if d == 2 {
        "2"
    } else if d == 3 {
        "3"
    } else if d == 4 {
        "4"
    } else if d == 5 {
        "5"
    } else if d == 6 {
        "6"
    } else if d == 7 {
        "7"
    } else if d == 8 {
        "8"
    } else if d == 9 {
        "9"
    } else if d == 10 {
        "A"
    } else if d == 11 {
        "B"
    } else if d == 12 {
        "C"
    } else if d == 13 {
        "D"
    } else if d == 14 {
        "E"
    } else {
        "F"
    }
}

/// The sender that was looked up, as a bracketed list of hexadecimal
/// numerals.
pub fn get_sender_str(sender: Result<[u8; 20], Error>) -> (r: Result<String, Error>)
    ensures
        match sender {
            Ok(address) => r matches Ok(text) && text@ == debug_hex(address@),
            Err(e) => r == Err::<String, Error>(e),
        },
{
    let address = match sender {
        Ok(address) => address,
        Err(e) => {
            return Err(e);
        },
    };
    let mut list = String::new();
    let mut i: usize = 0;
    assert(address@.take(0) =~= Seq::<u8>::empty());
    while i < 20
        invariant
            i <= 20,
            address@.len() == 20,
            list@ == hex_list(address@.take(i as int)),
        decreases 20 - i,
    {
        let ghost before = list@;
        proof {
            assert(address@.take(i + 1).drop_last() =~= address@.take(i as int));
            assert(address@.take(i + 1).last() == address@[i as int]);
        }
        if i > 0 {
            list.append(", ");
        }
        let b: u8 = address[i];
        if b >= 16 {
            list.append(upper_hex_str(b / 16));
        }
        list.append(upper_hex_str(b % 16));
        proof {
            if i == 0 {
                assert(list@ =~= upper_hex(b));
            } else {
                assert(list@ =~= before + ", "@ + upper_hex(b));
            }
        }
        i = i + 1;
    }
    assert(address@.take(20) =~= address@);
    let mut text = "[".to_owned();
    text.append(list.as_str());
    text.append("]");
    Ok(text)
}

/// Ends the invocation in failure: `msg` goes to the log, nothing is
/// returned.
pub fn revert(msg: String) -> (reply: Reply)
    ensures
        reply.log matches Some(line) && line@ == encode_utf8(msg@),
        reply.response is None,
        !reply.success,
{
    Reply { log: Some(slice_to_vec(msg.as_str().as_bytes())), response: None, success: false }
}

} // verus!
