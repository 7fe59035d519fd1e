//! Parameters and results of entry points, resolved to the vocabulary.

use crate::abi::{get_primitive_name, primitive_name, primitive_of, to_abi_primitive, AbiPrimitive};
use crate::syntax::{GenericArgument, PathArguments, Type};
use crate::utils::str_eq;
use vstd::prelude::*;

verus! {

/// Why a declared type has no place in an interface.
#[derive(Debug, Clone, PartialEq, Eq)]
pub enum ArgumentError {
    /// The type, or the parameter, is not of a form that can be resolved.
    UnrecognizedType,
    /// The named type is outside the vocabulary.
    UnsupportedType(String),
    /// The argument of the entry-point annotation is malformed.
    InvalidAnnotation(String),
}

/// An error of resolution as specifications speak of it.
pub ghost enum ArgumentErrorView {
    UnrecognizedType,
    UnsupportedType(Seq<char>),
    InvalidAnnotation(Seq<char>),
}

impl View for ArgumentError {
    type V = ArgumentErrorView;

    open spec fn view(&self) -> ArgumentErrorView {
        match *self {
            ArgumentError::UnrecognizedType => ArgumentErrorView::UnrecognizedType,
            ArgumentError::UnsupportedType(name) => ArgumentErrorView::UnsupportedType(name@),
            ArgumentError::InvalidAnnotation(msg) => ArgumentErrorView::InvalidAnnotation(msg@),
        }
    }
}

/// One input or output of an entry point.
#[derive(Debug, Clone, PartialEq, Eq)]
pub struct Argument {
    pub ty: String,
    pub name: String,
}

/// An input or output as specifications speak of it.
pub ghost struct ArgumentView {
    pub kind: Seq<char>,
    pub name: Seq<char>,
}

impl View for Argument {
    type V = ArgumentView;

    open spec fn view(&self) -> ArgumentView {
        ArgumentView { kind: self.ty@, name: self.name@ }
    }
}

/// The type of the vocabulary that a declared type stands for.
///
/// The last segment of a path decides.  `R<T>`, the wrapper of an entry
/// point's result, stands for what `T` stands for.
pub open spec fn resolve(ty: Type) -> Result<AbiPrimitive, ArgumentErrorView>
    decreases ty,
{
    match ty {
        Type::Path(path) => {
            if path.segments@.len() == 0 {
                Err(ArgumentErrorView::UnrecognizedType)
            } else {
                let segment = path.segments@.last();
                match primitive_of(segment.ident@) {
                    Some(prim) => Ok(prim),
                    None => if segment.ident@ == "R"@ {
                        match segment.arguments {
                            PathArguments::AngleBracketed(args) => if args@.len() > 0 {
                                match args@[0] {
                                    GenericArgument::Type(inner) => resolve(inner),
                                    GenericArgument::Other => Err(
                                        ArgumentErrorView::UnsupportedType("R"@),
                                    ),
                                }
                            } else {
                                Err(ArgumentErrorView::UnsupportedType("R"@))
                            },
                            _ => Err(ArgumentErrorView::UnsupportedType("R"@)),
                        }
                    } else {
                        Err(ArgumentErrorView::UnsupportedType(segment.ident@))
                    },
                }
            }
        },
        Type::Other => Err(ArgumentErrorView::UnrecognizedType),
    }
}

/// The outcome of a resolution, seen through the views of its parts.
pub open spec fn resolved(r: Result<Argument, ArgumentError>) -> Result<
    ArgumentView,
    ArgumentErrorView,
> {
    match r {
        Ok(argument) => Ok(argument@),
        Err(e) => Err(e@),
    }
}

/// The entry of the catalog for a parameter or a result called `name` and
/// declared with the type `ty`.
pub open spec fn argument_of(name: Seq<char>, ty: Type) -> Result<ArgumentView, ArgumentErrorView> {
    match resolve(ty) {
        Ok(prim) => Ok(ArgumentView { kind: primitive_name(prim), name }),
        Err(e) => Err(e),
    }
}

/// The outcome of resolving a type, seen through the view of the error.
pub open spec fn resolution(r: Result<AbiPrimitive, ArgumentError>) -> Result<
    AbiPrimitive,
    ArgumentErrorView,
> {
    match r {
        Ok(prim) => Ok(prim),
        Err(e) => Err(e@),
    }
}

/// Resolves a declared type to the vocabulary.
pub fn resolve_type(ty: &Type) -> (r: Result<AbiPrimitive, ArgumentError>)
    ensures
        resolution(r) == resolve(*ty),
    decreases ty,
{
    match ty {
        Type::Path(type_path) => {
            let n: usize = type_path.segments.len();
            if n == 0 {
                return Err(ArgumentError::UnrecognizedType);
            }
            let pair = &type_path.segments[n - 1];
            match to_abi_primitive(&pair.ident) {
                Some(x) => Ok(x),
                None => {
                    if str_eq(pair.ident.as_str(), "R") {
                        match &pair.arguments {
                            PathArguments::AngleBracketed(args) => {
                                if args.len() > 0 {
                                    match &args[0] {
                                        GenericArgument::Type(inner) => resolve_type(inner),
                                        GenericArgument::Other => Err(
                                            ArgumentError::UnsupportedType("R".to_owned()),
                                        ),
                                    }
                                } else {
                                    Err(ArgumentError::UnsupportedType("R".to_owned()))
                                }
                            },
                            _ => Err(ArgumentError::UnsupportedType("R".to_owned())),
                        }
                    } else {
                        Err(ArgumentError::UnsupportedType(pair.ident.clone()))
                    }
                },
            }
        },
        Type::Other => Err(ArgumentError::UnrecognizedType),
    }
}

/// Resolves the declared type `ty` of the parameter or result `name`.
pub fn from_name_and_type(name: &String, ty: &Type) -> (r: Result<Argument, ArgumentError>)
    ensures
        resolved(r) == argument_of(name@, *ty),
{
    match resolve_type(ty) {
        Ok(x) => Ok(Argument { ty: get_primitive_name(x), name: name.clone() }),
        Err(e) => Err(e),
    }
}

} // verus!
