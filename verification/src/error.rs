//! The errors of a generation pass, and the one error of a finished builder.

use vstd::prelude::*;
use crate::annotations::{Flaw, Part};
use crate::record::FieldDeclaration;
use crate::types::{MalformedWrapper, WrapperFault};

verus! {

/// The syntax node of a field that an error points at.
#[derive(Clone, Copy, Debug, PartialEq, Eq, Structural)]
pub enum Node {
    /// The declared type of the field.
    DeclaredType,
    /// A part of the annotation at `index` among the field's annotations.
    Annotation { index: usize, part: Part },
}

/// The kinds of error that a generation pass reports.
#[derive(Clone, Copy, Debug, PartialEq, Eq, Structural)]
pub enum ErrorKind {
    /// A wrapper's name without exactly one type argument.
    MalformedWrapper(MalformedWrapper),
    /// An annotation that is not `builder(each = "name")`.
    MalformedAnnotation(Flaw),
    /// More than one annotation on one field.
    DuplicateAnnotation,
    /// A directive on a field whose declared type is not `Vec` of some type.
    ExpectedRepeatedType,
}

/// An error of a generation pass: what is wrong, and where.
#[derive(Clone, Copy, Debug, PartialEq, Eq)]
pub struct GenerationError<'a> {
    pub kind: ErrorKind,
    /// The field at which the error lies.
    pub field: &'a FieldDeclaration,
    /// The node of that field at which the error lies.
    pub node: Node,
}

/// The error of finishing a builder while a required field was never set.
#[derive(Clone, Copy, Debug, PartialEq, Eq)]
pub struct MissingField<'a> {
    /// The identifier of the field.
    pub field: &'a String,
}

impl WrapperFault {
    /// The fault in words.
    pub open spec fn text(self) -> Seq<char> {
        match self {
            WrapperFault::NoAngleBrackets => "` without angle brackets"@,
            WrapperFault::NoArgument => "` without a type argument"@,
            WrapperFault::TooManyArguments => "` with more than one argument"@,
            WrapperFault::NotAType => "` with an argument that is not a type"@,
        }
    }

    /// The fault in words.
    pub fn describe(self) -> (res: &'static str)
        ensures
            res@ == self.text(),
    {
        match self {
            WrapperFault::NoAngleBrackets => "` without angle brackets",
            WrapperFault::NoArgument => "` without a type argument",
            WrapperFault::TooManyArguments => "` with more than one argument",
            WrapperFault::NotAType => "` with an argument that is not a type",
        }
    }
}

impl Flaw {
    /// The flaw in words.
    pub open spec fn text(self) -> Seq<char> {
        match self {
            Flaw::NotAList => "expected `builder(each = \"...\")`"@,
            Flaw::WrongFamily => "not a `builder` annotation"@,
            Flaw::EmptyList => "`builder` without `each`"@,
            Flaw::NotNameValue => "expected `each = \"...\"`"@,
            Flaw::UnknownKey => "unknown key, did you mean `each`?"@,
            Flaw::NotAString => "expected a string literal"@,
            Flaw::NotAnIdentifier => "expected one identifier in the string"@,
            Flaw::ExtraEntry => "unexpected second entry"@,
        }
    }

    /// The flaw in words.
    pub fn describe(self) -> (res: &'static str)
        ensures
            res@ == self.text(),
    {
        match self {
            Flaw::NotAList => "expected `builder(each = \"...\")`",
            Flaw::WrongFamily => "not a `builder` annotation",
            Flaw::EmptyList => "`builder` without `each`",
            Flaw::NotNameValue => "expected `each = \"...\"`",
            Flaw::UnknownKey => "unknown key, did you mean `each`?",
            Flaw::NotAString => "expected a string literal",
            Flaw::NotAnIdentifier => "expected one identifier in the string",
            Flaw::ExtraEntry => "unexpected second entry",
        }
    }
}

impl<'a> GenerationError<'a> {
    /// The message: the field by its identifier, then what is wrong with it.
    /// A malformed wrapper is named, and so is the declared type that should
    /// have been `Vec` of some type.
    pub open spec fn message_text(&self) -> Seq<char> {
        let head = "field `"@ + self.field.identifier@ + "`: "@;
        match self.kind {
            ErrorKind::MalformedWrapper(m) => head + "`"@ + m.wrapper.name() + m.fault.text(),
            ErrorKind::MalformedAnnotation(flaw) => head + flaw.text(),
            ErrorKind::DuplicateAnnotation => head + "unexpected second annotation"@,
            ErrorKind::ExpectedRepeatedType => head + "expected `Vec` of some type, found `"@
                + self.field.declared_type.text@ + "`"@,
        }
    }

    /// The message of the error, for a person to read.
    pub fn message(&self) -> (res: String)
        ensures
            res@ == self.message_text(),
    {
        let mut m = String::from_str("field `");
        m.append(self.field.identifier.as_str());
        m.append("`: ");
        match self.kind {
            ErrorKind::MalformedWrapper(w) => {
                m.append("`");
                m.append(w.wrapper.spelling());
                m.append(w.fault.describe());
            },
            ErrorKind::MalformedAnnotation(flaw) => {
                m.append(flaw.describe());
            },
            ErrorKind::DuplicateAnnotation => {
                m.append("unexpected second annotation");
            },
            ErrorKind::ExpectedRepeatedType => {
                m.append("expected `Vec` of some type, found `");
                m.append(self.field.declared_type.text.as_str());
                m.append("`");
            },
        }
        m
    }
}

impl<'a> MissingField<'a> {
    /// The message: the identifier of the field that was never set.
    pub open spec fn message_text(&self) -> Seq<char> {
        "Field: "@ + self.field@
    }

    /// The message of the error, for a person to read.
    pub fn message(&self) -> (res: String)
        ensures
            res@ == self.message_text(),
    {
        let mut m = String::from_str("Field: ");
        m.append(self.field.as_str());
        m
    }
}

} // verus!
