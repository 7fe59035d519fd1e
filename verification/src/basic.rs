//! A small contract on top of the marshaling layer: a counter for each
//! sender, kept in the state as a decimal numeral, and a call that asks a
//! token contract for a balance.

use crate::api::{call_contract as remote_call, get_arg_str, revert, RemoteCall, Reply};
use crate::error::{from_str, message_of, Error};
use crate::frame::frame;
use crate::utils::{hex_to_bytes, hex_value, push_signed_decimal, signed_decimal};
use vstd::prelude::*;
use vstd::slice::slice_to_vec;
use vstd::utf8::{decode_utf8_encode_utf8, encode_utf8, valid_utf8};

verus! {

/// Whether every byte of `text` is a decimal digit.
pub open spec fn all_digits(text: Seq<u8>) -> bool {
    forall|i: int| 0 <= i < text.len() ==> 0x30 <= #[trigger] text[i] <= 0x39
}

/// The number that a string of decimal digits denotes.
pub open spec fn digits_value(text: Seq<u8>) -> nat
    decreases text.len(),
{
    if text.len() == 0 {
        0
    } else {
        10 * digits_value(text.drop_last()) + (text.last() - 0x30) as nat
    }
}

/// The digits of a numeral: what follows its sign.
pub open spec fn numeral_digits(text: Seq<u8>) -> Seq<u8> {
    if text.len() > 0 && (text[0] == 0x2d || text[0] == 0x2b) {
        text.skip(1)
    } else {
        text
    }
}

/// The 64-bit integer that a decimal numeral denotes: an optional `+` or
/// `-`, then at least one digit and nothing else.  `None` for any other
/// text and for a number that does not fit.
pub open spec fn parse_decimal(text: Seq<u8>) -> Option<i64> {
    let digits = numeral_digits(text);
    let value = if text.len() > 0 && text[0] == 0x2d {
        -(digits_value(digits) as int)
    } else {
        digits_value(digits) as int
    };
    if digits.len() > 0 && all_digits(digits) && i64::MIN <= value <= i64::MAX {
        Some(value as i64)
    } else {
        None
    }
}

proof fn lemma_digits_value_grows(text: Seq<u8>, n: int)
    requires
        0 <= n <= text.len(),
        all_digits(text),
    ensures
        digits_value(text.take(n)) <= digits_value(text),
    decreases text.len() - n,
{
    if n < text.len() {
        assert(text.take(n + 1).drop_last() =~= text.take(n));
        assert(text.take(n + 1).last() == text[n]);
        lemma_digits_value_grows(text, n + 1);
    } else {
        assert(text.take(n) =~= text);
    }
}

/// Reads a decimal numeral.
pub fn parse_i64(text: &[u8]) -> (r: Option<i64>)
    ensures
        r == parse_decimal(text@),
{
    let negative: bool = text.len() > 0 && text[0] == 0x2d;
    let start: usize = if text.len() > 0 && (text[0] == 0x2d || text[0] == 0x2b) {
        1
    } else {
        0
    };
    let ghost digits = numeral_digits(text@);
    assert(digits =~= text@.skip(start as int));
    if start == text.len() {
        return None;
    }
    let limit: u64 = 0x8000_0000_0000_0000;
    let mut acc: u64 = 0;
    let mut i: usize = start;
    assert(digits.take(0) =~= Seq::<u8>::empty());
    while i < text.len()
        invariant
            start <= i <= text@.len(),
            digits == text@.skip(start as int),
            digits == numeral_digits(text@),
            negative == (text@.len() > 0 && text@[0] == 0x2d),
            all_digits(digits.take(i - start)),
            acc == digits_value(digits.take(i - start)),
            acc <= limit,
            limit == 0x8000_0000_0000_0000,
        decreases text@.len() - i,
    {
        let b: u8 = text[i];
        proof {
            assert(digits.take(i + 1 - start).drop_last() =~= digits.take(i - start));
            assert(digits.take(i + 1 - start).last() == b);
            assert(digits[i - start] == b);
        }
        if b < 0x30 || b > 0x39 {
            return None;
        }
        let d: u64 = (b - 0x30) as u64;
        if acc > (limit - d) / 10 {
            proof {
                if all_digits(digits) {
                    lemma_digits_value_grows(digits, i + 1 - start);
                }
            }
            return None;
        }
        acc = acc * 10 + d;
        proof {
            assert forall|k: int| 0 <= k < digits.take(i + 1 - start).len() implies 0x30
                <= #[trigger] digits.take(i + 1 - start)[k] <= 0x39 by {
                if k < i - start {
                    assert(digits.take(i - start)[k] == digits[k]);
                }
            }
        }
        i = i + 1;
    }
    assert(digits.take(i - start) =~= digits);
    if negative {
        if acc == limit {
            Some(i64::MIN)
        } else {
            Some(-(acc as i64))
        }
    } else if acc == limit {
        None
    } else {
        Some(acc as i64)
    }
}

/// What the counter does with an amount and the value stored for the
/// sender: the numeral to store, or the message of the failure.
///
/// The amount has to be a positive number.  A sender without a stored
/// value starts from 0.  Nothing is stored on failure.
pub open spec fn counted(arg: Result<Vec<u8>, Error>, state: Result<Vec<u8>, Error>) -> Result<
    Seq<u8>,
    Seq<char>,
> {
    match arg {
        Err(e) => Err(message_of(e)),
        Ok(text) => if !valid_utf8(text@) {
            Err(message_of(Error::InvalidUtf8))
        } else {
            match parse_decimal(text@) {
                None => Err("amount is not a number"@),
                Some(amount) => if amount <= 0 {
                    Err("must specify positive value, not "@ + signed_decimal(amount as int))
                } else {
                    match state {
                        Err(_) => Ok(encode_utf8(signed_decimal(amount as int))),
                        Ok(stored) => if !valid_utf8(stored@) {
                            Err(message_of(Error::InvalidUtf8))
                        } else {
                            match parse_decimal(stored@) {
                                None => Err("stored value is not a number"@),
                                Some(old) => if old + amount > i64::MAX {
                                    Err("counter overflow"@)
                                } else {
                                    Ok(encode_utf8(signed_decimal(old + amount)))
                                },
                            }
                        },
                    }
                },
            }
        },
    }
}

/// The numeral of `n` as bytes.
fn numeral(n: i64) -> (bytes: Vec<u8>)
    ensures
        bytes@ == encode_utf8(signed_decimal(n as int)),
{
    let mut text = String::new();
    push_signed_decimal(&mut text, n);
    assert(text@ =~= signed_decimal(n as int));
    slice_to_vec(text.as_str().as_bytes())
}

/// Adds the amount that was passed as the first argument to the counter
/// of the sender.  `arg` is what reading that argument gave and `state`
/// what reading the value stored for the sender gave; the result is the
/// value to store for the sender.
pub fn app_main(arg: Result<Vec<u8>, Error>, state: Result<Vec<u8>, Error>) -> (r: Result<
    Vec<u8>,
    Error,
>)
    ensures
        match r {
            Ok(value) => counted(arg, state) == Ok::<Seq<u8>, Seq<char>>(value@),
            Err(e) => counted(arg, state) == Err::<Seq<u8>, Seq<char>>(message_of(e)),
        },
{
    let text = match arg {
        Ok(text) => text,
        Err(e) => {
            return Err(e);
        },
    };
    proof {
        if valid_utf8(text@) {
            decode_utf8_encode_utf8(text@);
        }
    }
    let checked = get_arg_str(Ok(text));
    let amount_text = match checked {
        Ok(s) => s,
        Err(e) => {
            return Err(e);
        },
    };
    let amount: i64 = match parse_i64(amount_text.as_str().as_bytes()) {
        Some(amount) => amount,
        None => {
            return Err(from_str("amount is not a number"));
        },
    };
    if amount <= 0 {
        let mut msg = "must specify positive value, not ".to_owned();
        push_signed_decimal(&mut msg, amount);
        return Err(from_str(msg.as_str()));
    }
    let stored = match state {
        Ok(stored) => stored,
        Err(_) => {
            return Ok(numeral(amount));
        },
    };
    proof {
        if valid_utf8(stored@) {
            decode_utf8_encode_utf8(stored@);
        }
    }
    let stored_text = match get_arg_str(Ok(stored)) {
        Ok(s) => s,
        Err(e) => {
            return Err(e);
        },
    };
    let old: i64 = match parse_i64(stored_text.as_str().as_bytes()) {
        Some(old) => old,
        None => {
            return Err(from_str("stored value is not a number"));
        },
    };
    match old.checked_add(amount) {
        Some(v) => Ok(numeral(v)),
        None => Err(from_str("counter overflow")),
    }
}

/// Prepares the call that asks the token contract for the balance of the
/// caller.  `arg` is what reading the first argument gave: the address of
/// the token contract in hexadecimal.
pub fn call_contract(arg: Result<Vec<u8>, Error>) -> (r: Result<RemoteCall, Error>)
    ensures
        match r {
            Ok(call) => {
                &&& arg matches Ok(text)
                &&& valid_utf8(text@)
                &&& call.address@ == hex_value(text@)
                &&& call.entry@ == encode_utf8("get_balance"@)
                &&& call.frame@ == frame(Seq::empty())
            },
            Err(e) => match arg {
                Ok(text) => !valid_utf8(text@) && e == Error::InvalidUtf8,
                Err(e0) => e == e0,
            },
        },
{
    proof {
        if arg is Ok && valid_utf8(arg->Ok_0@) {
            decode_utf8_encode_utf8(arg->Ok_0@);
        }
    }
    let text = match get_arg_str(arg) {
        Ok(s) => s,
        Err(e) => {
            return Err(e);
        },
    };
    let token_addr = hex_to_bytes(text.as_str());
    let args: Vec<&[u8]> = Vec::new();
    assert(crate::frame::arg_views(args@) =~= Seq::<Seq<u8>>::empty());
    Ok(remote_call(token_addr.as_slice(), "get_balance".as_bytes(), args.as_slice()))
}

/// What the caller's balance request leaves behind: the result of the
/// remote call as the response, or its error in the log.
pub fn balance_reply(result: Result<Vec<u8>, Error>) -> (reply: Reply)
    ensures
        match result {
            Ok(v) => reply.success && reply.log is None && reply.response == Some(v),
            Err(e) => {
                &&& !reply.success
                &&& reply.response is None
                &&& reply.log matches Some(line) && line@ == encode_utf8(message_of(e))
            },
        },
{
    match result {
        Ok(v) => Reply { log: None, response: Some(v), success: true },
        Err(e) => revert(e.message()),
    }
}

} // verus!
