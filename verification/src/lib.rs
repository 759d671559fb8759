//! A verified engine for deriving builders from record declarations.
//!
//! A front end hands over a record: its name and its named fields, each with
//! a declared type and its raw annotations. The engine plans each field as
//! required, optional or repeated, and generates the code artifacts of the
//! record's builder: the slots of an accumulator, its setters, the steps of
//! the operation that finishes it, and what a fresh accumulator holds. What
//! is wrong with a field is reported as one error that names the field and
//! the syntax node at fault; then nothing is generated.
//!
//! - [`record`]: the declarations that come in.
//! - [`types`]: declared types, and the classifier of `Option` and `Vec`.
//! - [`annotations`]: annotations, and the parser of `builder(each = "name")`.
//! - `ident`: the call of `syn` that reads an identifier out of a string.
//! - [`plan`]: the category of each field.
//! - [`synth`]: the code artifacts, and the pass from a record to them.
//! - [`error`]: the errors, with their messages.
//! - [`model`]: an accumulator that is run against the artifacts, which says
//!   what the generated builder does.
//! - [`laws`]: what is proved of every builder that is generated.
//! - [`search`], [`text`]: first positions in sequences, and equal texts.

pub mod annotations;
pub mod error;
mod ident;
pub mod laws;
pub mod model;
pub mod plan;
pub mod record;
pub mod search;
pub mod synth;
pub mod text;
pub mod types;
