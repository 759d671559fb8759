//! Declared types and the classifier that recognises generic wrappers.

use vstd::prelude::*;
use crate::text::text_eq;

verus! {

/// One argument between the angle brackets of a path segment.
#[derive(Debug, PartialEq, Eq)]
pub enum GenericArg {
    /// A type argument.
    Type(TypeExpr),
    /// A lifetime, a constant, a binding or a constraint.
    Other,
}

/// What follows the identifier of a path segment.
#[derive(Debug, PartialEq, Eq)]
pub enum Arguments {
    /// Nothing, as in `String`.
    Absent,
    /// An angle-bracketed list, as in `Vec<u8>`.
    AngleBracketed(Vec<GenericArg>),
    /// A parenthesised list, as in `Fn(u8) -> bool`.
    Parenthesized,
}

/// One segment of a named path.
#[derive(Debug, PartialEq, Eq)]
pub struct Segment {
    pub ident: String,
    pub arguments: Arguments,
}

/// The form of a declared type, as far as the classifier reads it.
#[derive(Debug, PartialEq, Eq)]
pub enum TypeKind {
    /// A named path such as `std::option::Option<u8>`, segment by segment.
    Path(Vec<Segment>),
    /// Any other type: a reference, a tuple, an array and so on.
    Other,
}

/// A declared type: its source text and its form.
#[derive(Debug, PartialEq, Eq)]
pub struct TypeExpr {
    /// The type as it was written. It is carried through for messages and
    /// for emitting the type again; the classifier never reads it.
    pub text: String,
    pub kind: TypeKind,
}

/// The generic wrappers that the classifier recognises.
#[derive(Clone, Copy, Debug, PartialEq, Eq, Structural)]
pub enum Wrapper {
    /// The wrapper of a value that may be absent, spelled `Option`.
    Optional,
    /// The wrapper of an ordered collection, spelled `Vec`.
    Repeated,
}

/// Why a segment that bears a wrapper's name is not a use of that wrapper.
#[derive(Clone, Copy, Debug, PartialEq, Eq, Structural)]
pub enum WrapperFault {
    /// The name is not followed by angle brackets.
    NoAngleBrackets,
    /// The angle brackets hold no argument.
    NoArgument,
    /// The angle brackets hold more than one argument.
    TooManyArguments,
    /// The single argument is not a type.
    NotAType,
}

/// A wrapper's name used without exactly one type argument.
#[derive(Clone, Copy, Debug, PartialEq, Eq, Structural)]
pub struct MalformedWrapper {
    pub wrapper: Wrapper,
    pub fault: WrapperFault,
}

/// What the classifier makes of a declared type. Only the outermost wrapper
/// is stripped: the inner type is handed on as it stands.
#[derive(Clone, Copy, Debug, PartialEq, Eq)]
pub enum TypeShape<'a> {
    /// No wrapper: the declared type itself.
    Plain(&'a TypeExpr),
    /// `Option` of the inner type.
    OptionalOf(&'a TypeExpr),
    /// `Vec` of the inner type.
    RepeatedOf(&'a TypeExpr),
}

impl Wrapper {
    /// The name by which the wrapper is recognised in a declared type.
    pub open spec fn name(self) -> Seq<char> {
        match self {
            Wrapper::Optional => "Option"@,
            Wrapper::Repeated => "Vec"@,
        }
    }

    /// The name by which the wrapper is recognised in a declared type.
    pub fn spelling(self) -> (res: &'static str)
        ensures
            res@ == self.name(),
    {
        match self {
            Wrapper::Optional => "Option",
            Wrapper::Repeated => "Vec",
        }
    }
}

impl Segment {
    /// The single type argument of this segment, or why there is none.
    pub open spec fn sole_type_argument(&self) -> Result<&TypeExpr, WrapperFault> {
        match self.arguments {
            Arguments::AngleBracketed(args) => if args@.len() == 0 {
                Err(WrapperFault::NoArgument)
            } else if args@.len() > 1 {
                Err(WrapperFault::TooManyArguments)
            } else {
                match args@[0] {
                    GenericArg::Type(inner) => Ok(&inner),
                    GenericArg::Other => Err(WrapperFault::NotAType),
                }
            },
            _ => Err(WrapperFault::NoAngleBrackets),
        }
    }
}

impl TypeExpr {
    /// The last segment of a named path: the one that names the type itself.
    pub open spec fn outer_segment(&self) -> Option<Segment> {
        match self.kind {
            TypeKind::Path(segments) => if segments@.len() > 0 {
                Some(segments@.last())
            } else {
                None
            },
            TypeKind::Other => None,
        }
    }

    /// What stripping the wrapper called `name` off this type gives: the inner
    /// type, `None` where the type does not bear that name, or the fault where
    /// it bears the name without exactly one type argument.
    pub open spec fn unwrapped(&self, name: Seq<char>) -> Result<Option<&TypeExpr>, WrapperFault> {
        match self.outer_segment() {
            Some(segment) => if segment.ident@ == name {
                match segment.sole_type_argument() {
                    Ok(inner) => Ok(Some(inner)),
                    Err(fault) => Err(fault),
                }
            } else {
                Ok(None)
            },
            None => Ok(None),
        }
    }

    /// The shape of this type: the wrapper that its outermost segment names
    /// and the type inside, or the type itself where it names none. The names
    /// are compared as text: a type of the user's that is called `Option` or
    /// `Vec` counts as the wrapper.
    pub open spec fn shape(&self) -> Result<TypeShape<'_>, MalformedWrapper> {
        match self.unwrapped(Wrapper::Optional.name()) {
            Err(fault) => Err(MalformedWrapper { wrapper: Wrapper::Optional, fault }),
            Ok(Some(inner)) => Ok(TypeShape::OptionalOf(inner)),
            Ok(None) => match self.unwrapped(Wrapper::Repeated.name()) {
                Err(fault) => Err(MalformedWrapper { wrapper: Wrapper::Repeated, fault }),
                Ok(Some(inner)) => Ok(TypeShape::RepeatedOf(inner)),
                Ok(None) => Ok(TypeShape::Plain(self)),
            },
        }
    }

    /// Strips the wrapper called `wrapper_name` off this type.
    pub fn unwrap_generic<'a>(&'a self, wrapper_name: &str) -> (res: Result<
        Option<&'a TypeExpr>,
        WrapperFault,
    >)
        ensures
            res == self.unwrapped(wrapper_name@),
    {
        match &self.kind {
            TypeKind::Other => Ok(None),
            TypeKind::Path(segments) => {
                let n: usize = segments.len();
                if n == 0 {
                    return Ok(None);
                }
                let segment = &segments[n - 1];
                if !text_eq(segment.ident.as_str(), wrapper_name) {
                    return Ok(None);
                }
                match &segment.arguments {
                    Arguments::AngleBracketed(args) => {
                        if args.len() == 0 {
                            Err(WrapperFault::NoArgument)
                        } else if args.len() > 1 {
                            Err(WrapperFault::TooManyArguments)
                        } else {
                            match &args[0] {
                                GenericArg::Type(inner) => Ok(Some(inner)),
                                GenericArg::Other => Err(WrapperFault::NotAType),
                            }
                        }
                    },
                    _ => Err(WrapperFault::NoAngleBrackets),
                }
            },
        }
    }

    /// The type inside `Option`, where this type is one.
    pub fn unwrap_option<'a>(&'a self) -> (res: Result<Option<&'a TypeExpr>, WrapperFault>)
        ensures
            res == self.unwrapped(Wrapper::Optional.name()),
    {
        self.unwrap_generic(Wrapper::Optional.spelling())
    }

    /// The type inside `Vec`, where this type is one.
    pub fn unwrap_vec<'a>(&'a self) -> (res: Result<Option<&'a TypeExpr>, WrapperFault>)
        ensures
            res == self.unwrapped(Wrapper::Repeated.name()),
    {
        self.unwrap_generic(Wrapper::Repeated.spelling())
    }

    /// The type inside `Option` where this type is one, and the type itself
    /// where it is not.
    pub fn expected_type<'a>(&'a self) -> (res: Result<&'a TypeExpr, WrapperFault>)
        ensures
            res == match self.unwrapped(Wrapper::Optional.name()) {
                Ok(Some(inner)) => Ok::<&TypeExpr, WrapperFault>(inner),
                Ok(None) => Ok(self),
                Err(fault) => Err(fault),
            },
    {
        match self.unwrap_option() {
            Ok(Some(inner)) => Ok(inner),
            Ok(None) => Ok(self),
            Err(fault) => Err(fault),
        }
    }

    /// Whether this type is `Option` of some type.
    pub fn is_option(&self) -> (res: Result<bool, WrapperFault>)
        ensures
            res == match self.unwrapped(Wrapper::Optional.name()) {
                Ok(inner) => Ok::<bool, WrapperFault>(inner is Some),
                Err(fault) => Err(fault),
            },
    {
        match self.unwrap_option() {
            Ok(inner) => Ok(inner.is_some()),
            Err(fault) => Err(fault),
        }
    }

    /// Whether this type is `Vec` of some type.
    pub fn is_vec(&self) -> (res: Result<bool, WrapperFault>)
        ensures
            res == match self.unwrapped(Wrapper::Repeated.name()) {
                Ok(inner) => Ok::<bool, WrapperFault>(inner is Some),
                Err(fault) => Err(fault),
            },
    {
        match self.unwrap_vec() {
            Ok(inner) => Ok(inner.is_some()),
            Err(fault) => Err(fault),
        }
    }
}

/// Classifies a declared type by its outermost wrapper.
pub fn classify<'a>(declared_type: &'a TypeExpr) -> (res: Result<TypeShape<'a>, MalformedWrapper>)
    ensures
        res == declared_type.shape(),
{
    match declared_type.unwrap_option() {
        Err(fault) => Err(MalformedWrapper { wrapper: Wrapper::Optional, fault }),
        Ok(Some(inner)) => Ok(TypeShape::OptionalOf(inner)),
        Ok(None) => match declared_type.unwrap_vec() {
            Err(fault) => Err(MalformedWrapper { wrapper: Wrapper::Repeated, fault }),
            Ok(Some(inner)) => Ok(TypeShape::RepeatedOf(inner)),
            Ok(None) => Ok(TypeShape::Plain(declared_type)),
        },
    }
}

} // verus!
