//! Values of the primitive vocabulary with their type at run time, for
//! dispatch that is driven by an interface description.

use crate::abi::{AbiInteger, AbiPrimitive};
use crate::big_endian::{
    be_value, lemma_be_bytes_len, lemma_be_bytes_of_value, lemma_be_value_bound,
    lemma_be_value_of_bytes, lemma_pow256_values, lemma_signed_unsigned, lemma_unsigned_signed,
    to_unsigned,
};
use crate::error::Error;
use crate::types::{length_mismatch, FromBytes, ToBytes};
use vstd::prelude::*;
use vstd::utf8::{decode_utf8_encode_utf8, encode_utf8_decode_utf8, encode_utf8_valid_utf8};

verus! {

/// A value of one of the types of the vocabulary.
#[derive(Debug, Clone, PartialEq, Eq)]
pub enum TypedValue {
    I8(i8),
    I16(i16),
    I32(i32),
    I64(i64),
    U8(u8),
    U16(u16),
    U32(u32),
    U64(u64),
    Bool(bool),
    Bytes(Vec<u8>),
    String(std::string::String),
    Address([u8; 20]),
    Hash([u8; 32]),
}

/// A value of the vocabulary as specifications speak of it.
pub ghost enum TypedView {
    I8(i8),
    I16(i16),
    I32(i32),
    I64(i64),
    U8(u8),
    U16(u16),
    U32(u32),
    U64(u64),
    Bool(bool),
    Bytes(Seq<u8>),
    String(Seq<char>),
    Address(Seq<u8>),
    Hash(Seq<u8>),
}

impl View for TypedValue {
    type V = TypedView;

    open spec fn view(&self) -> TypedView {
        match *self {
            TypedValue::I8(x) => TypedView::I8(x),
            TypedValue::I16(x) => TypedView::I16(x),
            TypedValue::I32(x) => TypedView::I32(x),
            TypedValue::I64(x) => TypedView::I64(x),
            TypedValue::U8(x) => TypedView::U8(x),
            TypedValue::U16(x) => TypedView::U16(x),
            TypedValue::U32(x) => TypedView::U32(x),
            TypedValue::U64(x) => TypedView::U64(x),
            TypedValue::Bool(b) => TypedView::Bool(b),
            TypedValue::Bytes(v) => TypedView::Bytes(v@),
            TypedValue::String(s) => TypedView::String(s@),
            TypedValue::Address(a) => TypedView::Address(a@),
            TypedValue::Hash(h) => TypedView::Hash(h@),
        }
    }
}

impl TypedView {
    /// The type of the value.
    pub open spec fn kind(self) -> AbiPrimitive {
        match self {
            TypedView::I8(_) => AbiPrimitive::Integer(AbiInteger::I8),
            TypedView::I16(_) => AbiPrimitive::Integer(AbiInteger::I16),
            TypedView::I32(_) => AbiPrimitive::Integer(AbiInteger::I32),
            TypedView::I64(_) => AbiPrimitive::Integer(AbiInteger::I64),
            TypedView::U8(_) => AbiPrimitive::Integer(AbiInteger::U8),
            TypedView::U16(_) => AbiPrimitive::Integer(AbiInteger::U16),
            TypedView::U32(_) => AbiPrimitive::Integer(AbiInteger::U32),
            TypedView::U64(_) => AbiPrimitive::Integer(AbiInteger::U64),
            TypedView::Bool(_) => AbiPrimitive::Bool,
            TypedView::Bytes(_) => AbiPrimitive::Bytes,
            TypedView::String(_) => AbiPrimitive::String,
            TypedView::Address(_) => AbiPrimitive::Address,
            TypedView::Hash(_) => AbiPrimitive::Hash,
        }
    }

    /// Whether the value is one that the type holds: an address has 20
    /// bytes and a hash 32.
    pub open spec fn in_range(self) -> bool {
        match self {
            TypedView::Address(a) => a.len() == 20,
            TypedView::Hash(h) => h.len() == 32,
            _ => true,
        }
    }
}

/// The bytes that stand for a value.
pub open spec fn encode_value(value: TypedView) -> Seq<u8> {
    match value {
        TypedView::I8(x) => <i8 as ToBytes>::encode(x),
        TypedView::I16(x) => <i16 as ToBytes>::encode(x),
        TypedView::I32(x) => <i32 as ToBytes>::encode(x),
        TypedView::I64(x) => <i64 as ToBytes>::encode(x),
        TypedView::U8(x) => <u8 as ToBytes>::encode(x),
        TypedView::U16(x) => <u16 as ToBytes>::encode(x),
        TypedView::U32(x) => <u32 as ToBytes>::encode(x),
        TypedView::U64(x) => <u64 as ToBytes>::encode(x),
        TypedView::Bool(b) => <bool as ToBytes>::encode(b),
        TypedView::Bytes(v) => <Vec<u8> as ToBytes>::encode(v),
        TypedView::String(s) => <std::string::String as ToBytes>::encode(s),
        TypedView::Address(a) => <[u8; 20] as ToBytes>::encode(a),
        TypedView::Hash(h) => <[u8; 32] as ToBytes>::encode(h),
    }
}

/// What `bytes` decode to when they are read as a value of type `kind`.
pub open spec fn decode_value(kind: AbiPrimitive, bytes: Seq<u8>) -> Result<TypedView, Error> {
    match kind {
        AbiPrimitive::Integer(AbiInteger::I8) => match <i8 as FromBytes>::decode(bytes) {
            Ok(x) => Ok(TypedView::I8(x)),
            Err(e) => Err(e),
        },
        AbiPrimitive::Integer(AbiInteger::I16) => match <i16 as FromBytes>::decode(bytes) {
            Ok(x) => Ok(TypedView::I16(x)),
            Err(e) => Err(e),
        },
        AbiPrimitive::Integer(AbiInteger::I32) => match <i32 as FromBytes>::decode(bytes) {
            Ok(x) => Ok(TypedView::I32(x)),
            Err(e) => Err(e),
        },
        AbiPrimitive::Integer(AbiInteger::I64) => match <i64 as FromBytes>::decode(bytes) {
            Ok(x) => Ok(TypedView::I64(x)),
            Err(e) => Err(e),
        },
        AbiPrimitive::Integer(AbiInteger::U8) => match <u8 as FromBytes>::decode(bytes) {
            Ok(x) => Ok(TypedView::U8(x)),
            Err(e) => Err(e),
        },
        AbiPrimitive::Integer(AbiInteger::U16) => match <u16 as FromBytes>::decode(bytes) {
            Ok(x) => Ok(TypedView::U16(x)),
            Err(e) => Err(e),
        },
        AbiPrimitive::Integer(AbiInteger::U32) => match <u32 as FromBytes>::decode(bytes) {
            Ok(x) => Ok(TypedView::U32(x)),
            Err(e) => Err(e),
        },
        AbiPrimitive::Integer(AbiInteger::U64) => match <u64 as FromBytes>::decode(bytes) {
            Ok(x) => Ok(TypedView::U64(x)),
            Err(e) => Err(e),
        },
        AbiPrimitive::Bool => match <bool as FromBytes>::decode(bytes) {
            Ok(b) => Ok(TypedView::Bool(b)),
            Err(e) => Err(e),
        },
        AbiPrimitive::Bytes => match <Vec<u8> as FromBytes>::decode(bytes) {
            Ok(v) => Ok(TypedView::Bytes(v)),
            Err(e) => Err(e),
        },
        AbiPrimitive::String => match <std::string::String as FromBytes>::decode(bytes) {
            Ok(s) => Ok(TypedView::String(s)),
            Err(e) => Err(e),
        },
        AbiPrimitive::Address => match <[u8; 20] as FromBytes>::decode(bytes) {
            Ok(a) => Ok(TypedView::Address(a)),
            Err(e) => Err(e),
        },
        AbiPrimitive::Hash => match <[u8; 32] as FromBytes>::decode(bytes) {
            Ok(h) => Ok(TypedView::Hash(h)),
            Err(e) => Err(e),
        },
    }
}

impl TypedValue {
    /// The type of the value.
    pub fn kind(&self) -> (kind: AbiPrimitive)
        ensures
            kind == self@.kind(),
            self@.in_range(),
    {
        match self {
            TypedValue::I8(_) => AbiPrimitive::Integer(AbiInteger::I8),
            TypedValue::I16(_) => AbiPrimitive::Integer(AbiInteger::I16),
            TypedValue::I32(_) => AbiPrimitive::Integer(AbiInteger::I32),
            TypedValue::I64(_) => AbiPrimitive::Integer(AbiInteger::I64),
            TypedValue::U8(_) => AbiPrimitive::Integer(AbiInteger::U8),
            TypedValue::U16(_) => AbiPrimitive::Integer(AbiInteger::U16),
            TypedValue::U32(_) => AbiPrimitive::Integer(AbiInteger::U32),
            TypedValue::U64(_) => AbiPrimitive::Integer(AbiInteger::U64),
            TypedValue::Bool(_) => AbiPrimitive::Bool,
            TypedValue::Bytes(_) => AbiPrimitive::Bytes,
            TypedValue::String(_) => AbiPrimitive::String,
            TypedValue::Address(_) => AbiPrimitive::Address,
            TypedValue::Hash(_) => AbiPrimitive::Hash,
        }
    }

    /// Decodes `value` as the type `kind`.
    pub fn from_bytes(kind: AbiPrimitive, value: &[u8]) -> (r: Result<TypedValue, Error>)
        ensures
            crate::types::decoded(r) == decode_value(kind, value@),
            r is Ok ==> r->Ok_0@.kind() == kind,
    {
        match kind {
            AbiPrimitive::Integer(AbiInteger::I8) => match i8::from_bytes(value) {
                Ok(x) => Ok(TypedValue::I8(x)),
                Err(e) => Err(e),
            },
            AbiPrimitive::Integer(AbiInteger::I16) => match i16::from_bytes(value) {
                Ok(x) => Ok(TypedValue::I16(x)),
                Err(e) => Err(e),
            },
            AbiPrimitive::Integer(AbiInteger::I32) => match i32::from_bytes(value) {
                Ok(x) => Ok(TypedValue::I32(x)),
                Err(e) => Err(e),
            },
            AbiPrimitive::Integer(AbiInteger::I64) => match i64::from_bytes(value) {
                Ok(x) => Ok(TypedValue::I64(x)),
                Err(e) => Err(e),
            },
            AbiPrimitive::Integer(AbiInteger::U8) => match u8::from_bytes(value) {
                Ok(x) => Ok(TypedValue::U8(x)),
                Err(e) => Err(e),
            },
            AbiPrimitive::Integer(AbiInteger::U16) => match u16::from_bytes(value) {
                Ok(x) => Ok(TypedValue::U16(x)),
                Err(e) => Err(e),
            },
            AbiPrimitive::Integer(AbiInteger::U32) => match u32::from_bytes(value) {
                Ok(x) => Ok(TypedValue::U32(x)),
                Err(e) => Err(e),
            },
            AbiPrimitive::Integer(AbiInteger::U64) => match u64::from_bytes(value) {
                Ok(x) => Ok(TypedValue::U64(x)),
                Err(e) => Err(e),
            },
            AbiPrimitive::Bool => match bool::from_bytes(value) {
                Ok(b) => Ok(TypedValue::Bool(b)),
                Err(e) => Err(e),
            },
            AbiPrimitive::Bytes => match Vec::<u8>::from_bytes(value) {
                Ok(v) => Ok(TypedValue::Bytes(v)),
                Err(e) => Err(e),
            },
            AbiPrimitive::String => match <std::string::String as FromBytes>::from_bytes(value) {
                Ok(s) => Ok(TypedValue::String(s)),
                Err(e) => Err(e),
            },
            AbiPrimitive::Address => match <[u8; 20] as FromBytes>::from_bytes(value) {
                Ok(a) => Ok(TypedValue::Address(a)),
                Err(e) => Err(e),
            },
            AbiPrimitive::Hash => match <[u8; 32] as FromBytes>::from_bytes(value) {
                Ok(h) => Ok(TypedValue::Hash(h)),
                Err(e) => Err(e),
            },
        }
    }
}

impl ToBytes for TypedValue {
    open spec fn encode(value: TypedView) -> Seq<u8> {
        encode_value(value)
    }

    fn to_bytes(&self) -> (bytes: Vec<u8>) {
        match self {
            TypedValue::I8(x) => x.to_bytes(),
            TypedValue::I16(x) => x.to_bytes(),
            TypedValue::I32(x) => x.to_bytes(),
            TypedValue::I64(x) => x.to_bytes(),
            TypedValue::U8(x) => x.to_bytes(),
            TypedValue::U16(x) => x.to_bytes(),
            TypedValue::U32(x) => x.to_bytes(),
            TypedValue::U64(x) => x.to_bytes(),
            TypedValue::Bool(b) => b.to_bytes(),
            TypedValue::Bytes(v) => v.to_bytes(),
            TypedValue::String(s) => s.to_bytes(),
            TypedValue::Address(a) => a.to_bytes(),
            TypedValue::Hash(h) => h.to_bytes(),
        }
    }
}

/// The unsigned number that the bytes of an integer denote.
pub open spec fn unsigned_value(value: TypedView) -> nat {
    match value {
        TypedView::I8(x) => to_unsigned(x as int, 1),
        TypedView::I16(x) => to_unsigned(x as int, 2),
        TypedView::I32(x) => to_unsigned(x as int, 4),
        TypedView::I64(x) => to_unsigned(x as int, 8),
        TypedView::U8(x) => x as nat,
        TypedView::U16(x) => x as nat,
        TypedView::U32(x) => x as nat,
        TypedView::U64(x) => x as nat,
        _ => 0,
    }
}

proof fn lemma_integer_encoding(value: TypedView)
    requires
        value.kind() is Integer,
    ensures
        encode_value(value).len() == value.kind()->Integer_0.width(),
        be_value(encode_value(value)) == unsigned_value(value),
{
    let width = value.kind()->Integer_0.width();
    lemma_pow256_values();
    lemma_be_bytes_len(unsigned_value(value), width);
    match value {
        TypedView::I8(x) => lemma_signed_unsigned(x as int, 1),
        TypedView::I16(x) => lemma_signed_unsigned(x as int, 2),
        TypedView::I32(x) => lemma_signed_unsigned(x as int, 4),
        TypedView::I64(x) => lemma_signed_unsigned(x as int, 8),
        _ => {},
    }
    lemma_be_value_of_bytes(unsigned_value(value), width);
}

/// Round trip: for every type of the vocabulary and every value of it,
/// decoding the encoding of the value as that type gives the value back.
pub proof fn lemma_round_trip(value: TypedView)
    requires
        value.in_range(),
    ensures
        decode_value(value.kind(), encode_value(value)) == Ok::<TypedView, Error>(value),
{
    match value {
        TypedView::Bool(b) => {},
        TypedView::Bytes(v) => {},
        TypedView::String(s) => {
            encode_utf8_valid_utf8(s);
            encode_utf8_decode_utf8(s);
        },
        TypedView::Address(a) => {},
        TypedView::Hash(h) => {},
        _ => {
            lemma_integer_encoding(value);
            lemma_pow256_values();
            match value {
                TypedView::I8(x) => lemma_signed_unsigned(x as int, 1),
                TypedView::I16(x) => lemma_signed_unsigned(x as int, 2),
                TypedView::I32(x) => lemma_signed_unsigned(x as int, 4),
                TypedView::I64(x) => lemma_signed_unsigned(x as int, 8),
                _ => {},
            }
        },
    }
}

/// Encodings are canonical: the bytes that decode to a value are the
/// encoding of that value, and the value is one of the type asked for.
pub proof fn lemma_decode_then_encode(kind: AbiPrimitive, bytes: Seq<u8>)
    requires
        decode_value(kind, bytes) is Ok,
    ensures
        decode_value(kind, bytes)->Ok_0.kind() == kind,
        decode_value(kind, bytes)->Ok_0.in_range(),
        encode_value(decode_value(kind, bytes)->Ok_0) == bytes,
{
    match kind {
        AbiPrimitive::Integer(i) => {
            lemma_pow256_values();
            lemma_be_value_bound(bytes);
            lemma_be_bytes_of_value(bytes);
            lemma_unsigned_signed(be_value(bytes), i.width());
        },
        AbiPrimitive::Bool => {
            assert(encode_value(decode_value(kind, bytes)->Ok_0) =~= bytes);
        },
        AbiPrimitive::String => {
            decode_utf8_encode_utf8(bytes);
        },
        _ => {},
    }
}

/// Cross-type decode: the encoding of an integer decodes as any integer
/// type of the same width, to the value with the same bytes, and as an
/// integer type of another width it fails with `LengthMismatch`.
pub proof fn lemma_cross_type_decode(value: TypedView, target: AbiInteger)
    requires
        value.kind() is Integer,
    ensures
        ({
            let source = value.kind()->Integer_0;
            let read = decode_value(AbiPrimitive::Integer(target), encode_value(value));
            if source.width() == target.width() {
                &&& read is Ok
                &&& read->Ok_0.kind() == AbiPrimitive::Integer(target)
                &&& encode_value(read->Ok_0) == encode_value(value)
            } else {
                read == Err::<TypedView, Error>(
                    Error::LengthMismatch {
                        expected: target.width() as usize,
                        actual: source.width() as usize,
                    },
                )
            }
        }),
{
    lemma_integer_encoding(value);
    if value.kind()->Integer_0.width() == target.width() {
        lemma_decode_then_encode(AbiPrimitive::Integer(target), encode_value(value));
    }
}

/// Address and hash strictness: exactly 20 bytes decode as an address and
/// exactly 32 as a hash, each to a copy of the bytes; every other length
/// fails with `LengthMismatch`.
pub proof fn lemma_fixed_bytes_strict(bytes: Seq<u8>)
    ensures
        decode_value(AbiPrimitive::Address, bytes) == if bytes.len() == 20 {
            Ok::<TypedView, Error>(TypedView::Address(bytes))
        } else {
            Err::<TypedView, Error>(length_mismatch(20, bytes))
        },
        decode_value(AbiPrimitive::Hash, bytes) == if bytes.len() == 32 {
            Ok::<TypedView, Error>(TypedView::Hash(bytes))
        } else {
            Err::<TypedView, Error>(length_mismatch(32, bytes))
        },
{
}

} // verus!
