use vstd::prelude::*;
use vstd::string::StringExecFns;
use vstd::utf8::{encode_utf8, encode_utf8_decode_utf8};

verus! {

/// The value of an ASCII hexadecimal digit, or `None` for any other byte.
pub open spec fn hex_digit_value(b: u8) -> Option<u8> {
    if 0x30 <= b <= 0x39 {
        Some((b - 0x30) as u8)
    } else if 0x61 <= b <= 0x66 {
        Some((b - 0x61 + 10) as u8)
    } else if 0x41 <= b <= 0x46 {
        Some((b - 0x41 + 10) as u8)
    } else {
        None
    }
}

/// Reads one byte as a hexadecimal digit.
pub fn hex_digit(b: u8) -> (digit: Option<u8>)
    ensures
        digit == hex_digit_value(b),
{
    if 0x30 <= b && b <= 0x39 {
        Some(b - 0x30)
    } else if 0x61 <= b && b <= 0x66 {
        Some(b - 0x61 + 10)
    } else if 0x41 <= b && b <= 0x46 {
        Some(b - 0x41 + 10)
    } else {
        None
    }
}

/// The hexadecimal digits among `text`, each as its value, in order; other
/// bytes are passed over.
pub open spec fn hex_digits(text: Seq<u8>) -> Seq<u8>
    decreases text.len(),
{
    if text.len() == 0 {
        Seq::empty()
    } else {
        match hex_digit_value(text.last()) {
            Some(d) => hex_digits(text.drop_last()).push(d),
            None => hex_digits(text.drop_last()),
        }
    }
}

/// The bytes that pairs of digits make, high digit first; a last digit
/// without a partner is dropped.
pub open spec fn digit_pairs(digits: Seq<u8>) -> Seq<u8> {
    Seq::new(digits.len() / 2, |i: int| (digits[2 * i] * 16 + digits[2 * i + 1]) as u8)
}

/// `text` without a leading `0x`.
pub open spec fn without_hex_prefix(text: Seq<u8>) -> Seq<u8> {
    if text.len() >= 2 && text[0] == 0x30 && text[1] == 0x78 {
        text.subrange(2, text.len() as int)
    } else {
        text
    }
}

/// The bytes that a hexadecimal text denotes.
pub open spec fn hex_value(text: Seq<u8>) -> Seq<u8> {
    digit_pairs(hex_digits(without_hex_prefix(text)))
}

proof fn lemma_hex_digits_bound(text: Seq<u8>)
    ensures
        forall|i: int| 0 <= i < hex_digits(text).len() ==> hex_digits(text)[i] < 16,
    decreases text.len(),
{
    if text.len() > 0 {
        lemma_hex_digits_bound(text.drop_last());
        let rest = hex_digits(text.drop_last());
        assert forall|i: int| 0 <= i < hex_digits(text).len() implies hex_digits(text)[i] < 16 by {
            if i < rest.len() {
                assert(hex_digits(text)[i] == rest[i]);
            }
        }
    }
}

/// Reads hexadecimal text, with or without a leading `0x`, as bytes.
pub fn hex_to_bytes(hex_asm: &str) -> (bytes: Vec<u8>)
    ensures
        bytes@ == hex_value(encode_utf8(hex_asm@)),
{
    let all = hex_asm.as_bytes();
    let start: usize = if all.len() >= 2 && all[0] == 0x30 && all[1] == 0x78 {
        2
    } else {
        0
    };
    let ghost text = without_hex_prefix(all@);
    assert(text =~= all@.subrange(start as int, all@.len() as int));
    let mut bytes: Vec<u8> = Vec::new();
    let mut high: Option<u8> = None;
    let mut i: usize = start;
    assert(text.take(0) =~= Seq::<u8>::empty());
    while i < all.len()
        invariant
            start <= i <= all@.len(),
            text == all@.subrange(start as int, all@.len() as int),
            bytes@ == digit_pairs(hex_digits(text.take(i - start))),
            high == if hex_digits(text.take(i - start)).len() % 2 == 1 {
                Some(hex_digits(text.take(i - start)).last())
            } else {
                None::<u8>
            },
        decreases all@.len() - i,
    {
        let ghost before = hex_digits(text.take(i - start));
        proof {
            assert(text.take(i + 1 - start).drop_last() =~= text.take(i - start));
            assert(text.take(i + 1 - start).last() == all@[i as int]);
            lemma_hex_digits_bound(text.take(i - start));
        }
        match hex_digit(all[i]) {
            Some(l) => {
                match high {
                    Some(h) => {
                        bytes.push(h * 16 + l);
                        high = None;
                        assert(bytes@ =~= digit_pairs(before.push(l)));
                    },
                    None => {
                        high = Some(l);
                        assert(bytes@ =~= digit_pairs(before.push(l)));
                    },
                }
            },
            None => {},
        }
        i = i + 1;
    }
    assert(text.take(i - start) =~= text);
    bytes
}

/// The numeral of one decimal digit.
pub open spec fn digit_text(d: nat) -> Seq<char> {
    if d == 0 {
        "0"@
    } else if d == 1 {
        "1"@
    } else if d == 2 {
        "2"@
    } else if d == 3 {
        "3"@
    } else if d == 4 {
        "4"@
    } else if d == 5 {
        "5"@
    } else if d == 6 {
        "6"@
    } else if d == 7 {
        "7"@
    } else if d == 8 {
        "8"@
    } else {
        "9"@
    }
}

/// The decimal numeral of a natural number, without leading zeros.
pub open spec fn decimal(n: nat) -> Seq<char>
    decreases n,
{
    if n < 10 {
        digit_text(n)
    } else {
        decimal(n / 10) + digit_text(n % 10)
    }
}

/// The decimal numeral of an integer, with `-` before a negative one.
pub open spec fn signed_decimal(n: int) -> Seq<char> {
    if n < 0 {
        "-"@ + decimal((-n) as nat)
    } else {
        decimal(n as nat)
    }
}

fn digit_str(d: u64) -> (s: &'static str)
    requires
        d < 10,
    ensures
        s@ == digit_text(d as nat),
{
    if d == 0 {
        "0"
    } else if d == 1 {
        "1"
    } else if d == 2 {
        "2"
    } else if d == 3 {
        "3"
    } else if d == 4 {
        "4"
    } else if d == 5 {
        "5"
    } else if d == 6 {
        "6"
    } else if d == 7 {
        "7"
    } else if d == 8 {
        "8"
    } else {
        "9"
    }
}

/// Appends the decimal numeral of `n` to `out`.
pub fn push_decimal(out: &mut String, n: u64)
    ensures
        final(out)@ == old(out)@ + decimal(n as nat),
    decreases n,
{
    if n >= 10 {
        push_decimal(out, n / 10);
    }
    out.append(digit_str(n % 10));
    assert(out@ =~= old(out)@ + decimal(n as nat));
}

/// Appends the decimal numeral of `n` to `out`.
pub fn push_signed_decimal(out: &mut String, n: i64)
    ensures
        final(out)@ == old(out)@ + signed_decimal(n as int),
{
    if n < 0 {
        out.append("-");
        push_decimal(out, (-(n + 1)) as u64 + 1);
        assert(out@ =~= old(out)@ + signed_decimal(n as int));
    } else {
        push_decimal(out, n as u64);
    }
}

/// Whether two strings hold the same text.
pub fn str_eq(a: &str, b: &str) -> (same: bool)
    ensures
        same == (a@ == b@),
{
    let x = a.as_bytes();
    let y = b.as_bytes();
    proof {
        encode_utf8_decode_utf8(a@);
        encode_utf8_decode_utf8(b@);
    }
    if x.len() != y.len() {
        return false;
    }
    let mut i: usize = 0;
    while i < x.len()
        invariant
            i <= x@.len(),
            x@.len() == y@.len(),
            x@ == encode_utf8(a@),
            y@ == encode_utf8(b@),
            forall|j: int| 0 <= j < i ==> x@[j] == y@[j],
        decreases x@.len() - i,
    {
        if x[i] != y[i] {
            return false;
        }
        i = i + 1;
    }
    assert(x@ =~= y@);
    true
}

} // verus!
