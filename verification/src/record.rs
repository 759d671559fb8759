//! Record declarations, as a front end hands them over.

use vstd::prelude::*;
use crate::annotations::Annotation;
use crate::types::TypeExpr;

verus! {

/// One named field of a record.
#[derive(Debug, PartialEq, Eq)]
pub struct FieldDeclaration {
    pub identifier: String,
    pub declared_type: TypeExpr,
    /// The raw annotations of the field, in source order.
    pub annotations: Vec<Annotation>,
}

/// A record: its name and its fields in declaration order.
#[derive(Debug, PartialEq, Eq)]
pub struct RecordDeclaration {
    pub name: String,
    pub fields: Vec<FieldDeclaration>,
}

} // verus!
