//! The typed value codec: native values to and from their byte encodings.

use crate::big_endian::{
    be_bytes, be_value, decode_be, encode_be, lemma_be_value_bound, lemma_pow256_values, signed_of,
    to_signed, to_unsigned, unsigned_of,
};
use crate::error::Error;
use vstd::prelude::*;
use vstd::slice::slice_to_vec;
use vstd::utf8::*;

verus! {

/// A value as it is stored by the host.
pub type Value = Vec<u8>;

/// An argument as the host hands it over.
pub type ArgBytes = Vec<u8>;

/// An account or contract identifier.
pub type Address = [u8; 20];

/// A message digest or a signature component.
pub type Hash = [u8; 32];

/// What an entry point returns: a value, nothing, or an error.
pub type R<T> = Result<Option<T>, Error>;

/// The result of a decoding, seen through the view of the decoded value.
pub open spec fn decoded<T: View>(r: Result<T, Error>) -> Result<T::V, Error> {
    match r {
        Ok(v) => Ok(v@),
        Err(e) => Err(e),
    }
}

/// What decoding a fixed-width value from `bytes` reports when the width is wrong.
pub open spec fn length_mismatch(expected: nat, bytes: Seq<u8>) -> Error {
    Error::LengthMismatch { expected: expected as usize, actual: bytes.len() as usize }
}

/// Types that can be decoded from the bytes of an argument or of a stored value.
pub trait FromBytes: Sized + View {
    /// What `bytes` decode to.
    spec fn decode(bytes: Seq<u8>) -> Result<Self::V, Error>;

    fn from_bytes(value: &[u8]) -> (r: Result<Self, Error>)
        ensures
            decoded(r) == Self::decode(value@),
    ;
}

/// Types that can be encoded as the bytes of an argument or of a stored value.
pub trait ToBytes: Sized + View {
    /// The bytes that stand for `value`.
    spec fn encode(value: Self::V) -> Seq<u8>;

    fn to_bytes(&self) -> (bytes: Vec<u8>)
        ensures
            bytes@ == Self::encode(self@),
    ;
}

/// `String::from_utf8` accepts exactly the well-formed UTF-8 byte strings, and
/// the string it returns has the given bytes as its UTF-8 encoding.
pub assume_specification[ std::string::String::from_utf8 ](vec: std::vec::Vec<u8>) -> (r: Result<
    std::string::String,
    std::string::FromUtf8Error,
>)
    ensures
        r is Ok <==> valid_utf8(vec@),
        r matches Ok(s) ==> encode_utf8(s@) == vec@,
;

/// The error of `String::from_utf8`.
#[verifier::external_type_specification]
#[verifier::external_body]
pub struct ExFromUtf8Error(std::string::FromUtf8Error);

impl FromBytes for String {
    open spec fn decode(bytes: Seq<u8>) -> Result<Seq<char>, Error> {
        if valid_utf8(bytes) {
            Ok(decode_utf8(bytes))
        } else {
            Err(Error::InvalidUtf8)
        }
    }

    fn from_bytes(value: &[u8]) -> (r: Result<String, Error>) {
        match String::from_utf8(slice_to_vec(value)) {
            Ok(s) => {
                proof {
                    encode_utf8_decode_utf8(s@);
                }
                Ok(s)
            },
            Err(_) => Err(Error::InvalidUtf8),
        }
    }
}

impl FromBytes for Vec<u8> {
    open spec fn decode(bytes: Seq<u8>) -> Result<Seq<u8>, Error> {
        Ok(bytes)
    }

    fn from_bytes(value: &[u8]) -> (r: Result<Vec<u8>, Error>) {
        Ok(slice_to_vec(value))
    }
}

impl FromBytes for [u8; 20] {
    open spec fn decode(bytes: Seq<u8>) -> Result<Seq<u8>, Error> {
        if bytes.len() == 20 {
            Ok(bytes)
        } else {
            Err(length_mismatch(20, bytes))
        }
    }

    fn from_bytes(value: &[u8]) -> (r: Result<[u8; 20], Error>) {
        if value.len() != 20 {
            return Err(Error::LengthMismatch { expected: 20, actual: value.len() });
        }
        let mut addr: [u8; 20] = [0u8; 20];
        let mut i: usize = 0;
        while i < 20
            invariant
                i <= 20,
                value@.len() == 20,
                forall|j: int| 0 <= j < i ==> addr@[j] == value@[j],
            decreases 20 - i,
        {
            addr[i] = value[i];
            i = i + 1;
        }
        assert(addr@ =~= value@);
        Ok(addr)
    }
}

impl FromBytes for [u8; 32] {
    open spec fn decode(bytes: Seq<u8>) -> Result<Seq<u8>, Error> {
        if bytes.len() == 32 {
            Ok(bytes)
        } else {
            Err(length_mismatch(32, bytes))
        }
    }

    fn from_bytes(value: &[u8]) -> (r: Result<[u8; 32], Error>) {
        if value.len() != 32 {
            return Err(Error::LengthMismatch { expected: 32, actual: value.len() });
        }
        let mut hash: [u8; 32] = [0u8; 32];
        let mut i: usize = 0;
        while i < 32
            invariant
                i <= 32,
                value@.len() == 32,
                forall|j: int| 0 <= j < i ==> hash@[j] == value@[j],
            decreases 32 - i,
        {
            hash[i] = value[i];
            i = i + 1;
        }
        assert(hash@ =~= value@);
        Ok(hash)
    }
}

impl FromBytes for bool {
    open spec fn decode(bytes: Seq<u8>) -> Result<bool, Error> {
        if bytes.len() != 1 {
            Err(length_mismatch(1, bytes))
        } else if bytes[0] == 0 {
            Ok(false)
        } else if bytes[0] == 1 {
            Ok(true)
        } else {
            Err(Error::InvalidBoolValue(bytes[0]))
        }
    }

    fn from_bytes(value: &[u8]) -> (r: Result<bool, Error>) {
        if value.len() != 1 {
            Err(Error::LengthMismatch { expected: 1, actual: value.len() })
        } else {
            let n: u8 = value[0];
            if n == 0 {
                Ok(false)
            } else if n == 1 {
                Ok(true)
            } else {
                Err(Error::InvalidBoolValue(n))
            }
        }
    }
}

impl FromBytes for u8 {
    open spec fn decode(bytes: Seq<u8>) -> Result<u8, Error> {
        if bytes.len() == 1 {
            Ok(be_value(bytes) as u8)
        } else {
            Err(length_mismatch(1, bytes))
        }
    }

    fn from_bytes(value: &[u8]) -> (r: Result<u8, Error>) {
        if value.len() != 1 {
            Err(Error::LengthMismatch { expected: 1, actual: value.len() })
        } else {
            proof {
                lemma_be_value_bound(value@);
                lemma_pow256_values();
            }
            Ok(decode_be(value) as u8)
        }
    }
}

impl FromBytes for u16 {
    open spec fn decode(bytes: Seq<u8>) -> Result<u16, Error> {
        if bytes.len() == 2 {
            Ok(be_value(bytes) as u16)
        } else {
            Err(length_mismatch(2, bytes))
        }
    }

    fn from_bytes(value: &[u8]) -> (r: Result<u16, Error>) {
        if value.len() != 2 {
            Err(Error::LengthMismatch { expected: 2, actual: value.len() })
        } else {
            proof {
                lemma_be_value_bound(value@);
                lemma_pow256_values();
            }
            Ok(decode_be(value) as u16)
        }
    }
}

impl FromBytes for u32 {
    open spec fn decode(bytes: Seq<u8>) -> Result<u32, Error> {
        if bytes.len() == 4 {
            Ok(be_value(bytes) as u32)
        } else {
            Err(length_mismatch(4, bytes))
        }
    }

    fn from_bytes(value: &[u8]) -> (r: Result<u32, Error>) {
        if value.len() != 4 {
            Err(Error::LengthMismatch { expected: 4, actual: value.len() })
        } else {
            proof {
                lemma_be_value_bound(value@);
                lemma_pow256_values();
            }
            Ok(decode_be(value) as u32)
        }
    }
}

impl FromBytes for u64 {
    open spec fn decode(bytes: Seq<u8>) -> Result<u64, Error> {
        if bytes.len() == 8 {
            Ok(be_value(bytes) as u64)
        } else {
            Err(length_mismatch(8, bytes))
        }
    }

    fn from_bytes(value: &[u8]) -> (r: Result<u64, Error>) {
        if value.len() != 8 {
            Err(Error::LengthMismatch { expected: 8, actual: value.len() })
        } else {
            proof {
                lemma_be_value_bound(value@);
                lemma_pow256_values();
            }
            Ok(decode_be(value))
        }
    }
}

impl FromBytes for i8 {
    open spec fn decode(bytes: Seq<u8>) -> Result<i8, Error> {
        if bytes.len() == 1 {
            Ok(to_signed(be_value(bytes), 1) as i8)
        } else {
            Err(length_mismatch(1, bytes))
        }
    }

    fn from_bytes(value: &[u8]) -> (r: Result<i8, Error>) {
        if value.len() != 1 {
            Err(Error::LengthMismatch { expected: 1, actual: value.len() })
        } else {
            proof {
                lemma_be_value_bound(value@);
                lemma_pow256_values();
            }
            Ok(signed_of(decode_be(value), 1) as i8)
        }
    }
}

impl FromBytes for i16 {
    open spec fn decode(bytes: Seq<u8>) -> Result<i16, Error> {
        if bytes.len() == 2 {
            Ok(to_signed(be_value(bytes), 2) as i16)
        } else {
            Err(length_mismatch(2, bytes))
        }
    }

    fn from_bytes(value: &[u8]) -> (r: Result<i16, Error>) {
        if value.len() != 2 {
            Err(Error::LengthMismatch { expected: 2, actual: value.len() })
        } else {
            proof {
                lemma_be_value_bound(value@);
                lemma_pow256_values();
            }
            Ok(signed_of(decode_be(value), 2) as i16)
        }
    }
}

impl FromBytes for i32 {
    open spec fn decode(bytes: Seq<u8>) -> Result<i32, Error> {
        if bytes.len() == 4 {
            Ok(to_signed(be_value(bytes), 4) as i32)
        } else {
            Err(length_mismatch(4, bytes))
        }
    }

    fn from_bytes(value: &[u8]) -> (r: Result<i32, Error>) {
        if value.len() != 4 {
            Err(Error::LengthMismatch { expected: 4, actual: value.len() })
        } else {
            proof {
                lemma_be_value_bound(value@);
                lemma_pow256_values();
            }
            Ok(signed_of(decode_be(value), 4) as i32)
        }
    }
}

impl FromBytes for i64 {
    open spec fn decode(bytes: Seq<u8>) -> Result<i64, Error> {
        if bytes.len() == 8 {
            Ok(to_signed(be_value(bytes), 8) as i64)
        } else {
            Err(length_mismatch(8, bytes))
        }
    }

    fn from_bytes(value: &[u8]) -> (r: Result<i64, Error>) {
        if value.len() != 8 {
            Err(Error::LengthMismatch { expected: 8, actual: value.len() })
        } else {
            proof {
                lemma_be_value_bound(value@);
                lemma_pow256_values();
            }
            Ok(signed_of(decode_be(value), 8))
        }
    }
}

impl ToBytes for Vec<u8> {
    open spec fn encode(value: Seq<u8>) -> Seq<u8> {
        value
    }

    fn to_bytes(&self) -> (bytes: Vec<u8>) {
        slice_to_vec(self.as_slice())
    }
}

impl ToBytes for String {
    open spec fn encode(value: Seq<char>) -> Seq<u8> {
        encode_utf8(value)
    }

    fn to_bytes(&self) -> (bytes: Vec<u8>) {
        slice_to_vec(self.as_str().as_bytes())
    }
}

impl ToBytes for [u8; 20] {
    open spec fn encode(value: Seq<u8>) -> Seq<u8> {
        value
    }

    fn to_bytes(&self) -> (bytes: Vec<u8>) {
        slice_to_vec(self.as_slice())
    }
}

impl ToBytes for [u8; 32] {
    open spec fn encode(value: Seq<u8>) -> Seq<u8> {
        value
    }

    fn to_bytes(&self) -> (bytes: Vec<u8>) {
        slice_to_vec(self.as_slice())
    }
}

impl ToBytes for bool {
    open spec fn encode(value: bool) -> Seq<u8> {
        if value {
            seq![1u8]
        } else {
            seq![0u8]
        }
    }

    fn to_bytes(&self) -> (bytes: Vec<u8>) {
        if *self {
            vec![1u8]
        } else {
            vec![0u8]
        }
    }
}

impl ToBytes for u8 {
    open spec fn encode(value: u8) -> Seq<u8> {
        be_bytes(value as nat, 1)
    }

    fn to_bytes(&self) -> (bytes: Vec<u8>) {
        encode_be(*self as u64, 1)
    }
}

impl ToBytes for u16 {
    open spec fn encode(value: u16) -> Seq<u8> {
        be_bytes(value as nat, 2)
    }

    fn to_bytes(&self) -> (bytes: Vec<u8>) {
        encode_be(*self as u64, 2)
    }
}

impl ToBytes for u32 {
    open spec fn encode(value: u32) -> Seq<u8> {
        be_bytes(value as nat, 4)
    }

    fn to_bytes(&self) -> (bytes: Vec<u8>) {
        encode_be(*self as u64, 4)
    }
}

impl ToBytes for u64 {
    open spec fn encode(value: u64) -> Seq<u8> {
        be_bytes(value as nat, 8)
    }

    fn to_bytes(&self) -> (bytes: Vec<u8>) {
        encode_be(*self, 8)
    }
}

impl ToBytes for i8 {
    open spec fn encode(value: i8) -> Seq<u8> {
        be_bytes(to_unsigned(value as int, 1), 1)
    }

    fn to_bytes(&self) -> (bytes: Vec<u8>) {
        proof {
            lemma_pow256_values();
        }
        encode_be(unsigned_of(*self as i64, 1), 1)
    }
}

impl ToBytes for i16 {
    open spec fn encode(value: i16) -> Seq<u8> {
        be_bytes(to_unsigned(value as int, 2), 2)
    }

    fn to_bytes(&self) -> (bytes: Vec<u8>) {
        proof {
            lemma_pow256_values();
        }
        encode_be(unsigned_of(*self as i64, 2), 2)
    }
}

impl ToBytes for i32 {
    open spec fn encode(value: i32) -> Seq<u8> {
        be_bytes(to_unsigned(value as int, 4), 4)
    }

    fn to_bytes(&self) -> (bytes: Vec<u8>) {
        proof {
            lemma_pow256_values();
        }
        encode_be(unsigned_of(*self as i64, 4), 4)
    }
}

impl ToBytes for i64 {
    open spec fn encode(value: i64) -> Seq<u8> {
        be_bytes(to_unsigned(value as int, 8), 8)
    }

    fn to_bytes(&self) -> (bytes: Vec<u8>) {
        proof {
            lemma_pow256_values();
        }
        encode_be(unsigned_of(*self, 8), 8)
    }
}

} // verus!
