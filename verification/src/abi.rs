//! The primitive type vocabulary of contract interfaces.

use crate::utils::str_eq;
use vstd::prelude::*;

verus! {

/// The fixed-width integers of the vocabulary.
#[derive(Debug, Clone, Copy, PartialEq, Eq, Structural)]
pub enum AbiInteger {
    I8,
    I16,
    I32,
    I64,
    U8,
    U16,
    U32,
    U64,
}

/// The types that an entry point may take and return.
#[derive(Debug, Clone, Copy, PartialEq, Eq, Structural)]
pub enum AbiPrimitive {
    Integer(AbiInteger),
    Bool,
    Bytes,
    String,
    Address,
    Hash,
}

impl AbiInteger {
    /// The number of bytes of the integer's encoding.
    pub open spec fn width(self) -> nat {
        match self {
            AbiInteger::I8 | AbiInteger::U8 => 1,
            AbiInteger::I16 | AbiInteger::U16 => 2,
            AbiInteger::I32 | AbiInteger::U32 => 4,
            AbiInteger::I64 | AbiInteger::U64 => 8,
        }
    }

    /// Whether the integer is read in two's complement.
    pub open spec fn signed(self) -> bool {
        match self {
            AbiInteger::I8 | AbiInteger::I16 | AbiInteger::I32 | AbiInteger::I64 => true,
            AbiInteger::U8 | AbiInteger::U16 | AbiInteger::U32 | AbiInteger::U64 => false,
        }
    }
}

/// The name under which a type of the vocabulary appears in an interface catalog.
pub open spec fn primitive_name(prim: AbiPrimitive) -> Seq<char> {
    match prim {
        AbiPrimitive::Integer(AbiInteger::I8) => "i8"@,
        AbiPrimitive::Integer(AbiInteger::I16) => "i16"@,
        AbiPrimitive::Integer(AbiInteger::I32) => "i32"@,
        AbiPrimitive::Integer(AbiInteger::I64) => "i64"@,
        AbiPrimitive::Integer(AbiInteger::U8) => "u8"@,
        AbiPrimitive::Integer(AbiInteger::U16) => "u16"@,
        AbiPrimitive::Integer(AbiInteger::U32) => "u32"@,
        AbiPrimitive::Integer(AbiInteger::U64) => "u64"@,
        AbiPrimitive::Bool => "bool"@,
        AbiPrimitive::Bytes => "bytes"@,
        AbiPrimitive::String => "string"@,
        AbiPrimitive::Address => "address"@,
        AbiPrimitive::Hash => "hash"@,
    }
}

/// The type of the vocabulary that a type name of contract source stands for.
pub open spec fn primitive_of(rust_type: Seq<char>) -> Option<AbiPrimitive> {
    if rust_type == "i8"@ {
        Some(AbiPrimitive::Integer(AbiInteger::I8))
    } else if rust_type == "i16"@ {
        Some(AbiPrimitive::Integer(AbiInteger::I16))
    } else if rust_type == "i32"@ {
        Some(AbiPrimitive::Integer(AbiInteger::I32))
    } else if rust_type == "i64"@ {
        Some(AbiPrimitive::Integer(AbiInteger::I64))
    } else if rust_type == "u8"@ {
        Some(AbiPrimitive::Integer(AbiInteger::U8))
    } else if rust_type == "u16"@ {
        Some(AbiPrimitive::Integer(AbiInteger::U16))
    } else if rust_type == "u32"@ {
        Some(AbiPrimitive::Integer(AbiInteger::U32))
    } else if rust_type == "u64"@ {
        Some(AbiPrimitive::Integer(AbiInteger::U64))
    } else if rust_type == "bool"@ {
        Some(AbiPrimitive::Bool)
    } else if rust_type == "String"@ {
        Some(AbiPrimitive::String)
    } else if rust_type == "Address"@ {
        Some(AbiPrimitive::Address)
    } else if rust_type == "Hash"@ {
        Some(AbiPrimitive::Hash)
    } else if rust_type == "Vec"@ {
        Some(AbiPrimitive::Bytes)
    } else {
        None
    }
}

pub fn get_primitive_name(prim: AbiPrimitive) -> (name: String)
    ensures
        name@ == primitive_name(prim),
{
    match prim {
        AbiPrimitive::Integer(x) => match x {
            AbiInteger::I8 => "i8",
            AbiInteger::I16 => "i16",
            AbiInteger::I32 => "i32",
            AbiInteger::I64 => "i64",
            AbiInteger::U8 => "u8",
            AbiInteger::U16 => "u16",
            AbiInteger::U32 => "u32",
            AbiInteger::U64 => "u64",
        },
        AbiPrimitive::Bool => "bool",
        AbiPrimitive::Bytes => "bytes",
        AbiPrimitive::String => "string",
        AbiPrimitive::Address => "address",
        AbiPrimitive::Hash => "hash",
    }.to_owned()
}

pub fn to_abi_primitive(rust_type: &String) -> (prim: Option<AbiPrimitive>)
    ensures
        prim == primitive_of(rust_type@),
{
    let t = rust_type.as_str();
    if str_eq(t, "i8") {
        Some(AbiPrimitive::Integer(AbiInteger::I8))
    } else if str_eq(t, "i16") {
        Some(AbiPrimitive::Integer(AbiInteger::I16))
    } else if str_eq(t, "i32") {
        Some(AbiPrimitive::Integer(AbiInteger::I32))
    } else if str_eq(t, "i64") {
        Some(AbiPrimitive::Integer(AbiInteger::I64))
    } else if str_eq(t, "u8") {
        Some(AbiPrimitive::Integer(AbiInteger::U8))
    } else if str_eq(t, "u16") {
        Some(AbiPrimitive::Integer(AbiInteger::U16))
    } else if str_eq(t, "u32") {
        Some(AbiPrimitive::Integer(AbiInteger::U32))
    } else if str_eq(t, "u64") {
        Some(AbiPrimitive::Integer(AbiInteger::U64))
    } else if str_eq(t, "bool") {
        Some(AbiPrimitive::Bool)
    } else if str_eq(t, "String") {
        Some(AbiPrimitive::String)
    } else if str_eq(t, "Address") {
        Some(AbiPrimitive::Address)
    } else if str_eq(t, "Hash") {
        Some(AbiPrimitive::Hash)
    } else if str_eq(t, "Vec") {
        Some(AbiPrimitive::Bytes)
    } else {
        None
    }
}

} // verus!
