//! Function declarations of contract source, as far as interface
//! extraction and dispatch generation read them.

use vstd::prelude::*;

verus! {

/// A type as it is written in a declaration.
pub enum Type {
    /// A path such as `i64`, `Vec<u8>` or `hmcdk::prelude::Address`.
    Path(TypePath),
    /// Any other form of type: a reference, a tuple, a slice and so on.
    Other,
}

pub struct TypePath {
    pub segments: Vec<PathSegment>,
}

/// One segment of a path, with the arguments written behind it.
pub struct PathSegment {
    pub ident: String,
    pub arguments: PathArguments,
}

pub enum PathArguments {
    /// No arguments are written.
    Absent,
    /// The arguments of `Vec<u8>` or `R<i64>`.
    AngleBracketed(Vec<GenericArgument>),
    /// The arguments of `Fn(u8) -> u8`.
    Parenthesized,
}

pub enum GenericArgument {
    Type(Type),
    /// A lifetime, a constant, a binding or a constraint.
    Other,
}

/// The pattern of a parameter.
pub enum Pat {
    /// A plain name.
    Ident(String),
    Other,
}

/// A parameter of a function.
pub enum FnArg {
    /// `self` in one of its forms.
    Receiver,
    Typed { pat: Pat, ty: Type },
}

pub enum ReturnType {
    /// No type is written: the function returns `()`.
    Default,
    Type(Type),
}

/// What stands in the parentheses of an attribute.
pub enum AttributeArgs {
    /// Nothing, as in `#[contract]`.
    Absent,
    /// Arguments in delimiters, as in `#[contract(readonly)]`: the text
    /// between the delimiters.
    Delimited(String),
    /// Tokens that are no arguments in delimiters, as in `#[contract = "x"]`,
    /// with what the parser said of them.
    Malformed(String),
}

pub struct Attribute {
    /// The names of the path's segments.
    pub path: Vec<String>,
    pub args: AttributeArgs,
}

/// A free function: its attributes and its signature.
pub struct ItemFn {
    pub attrs: Vec<Attribute>,
    pub ident: String,
    pub inputs: Vec<FnArg>,
    pub output: ReturnType,
}

} // verus!
