use builder_engine::annotations::{Flaw, Part};
use builder_engine::error::{ErrorKind, GenerationError, MissingField, Node};
use builder_engine::record::FieldDeclaration;
use builder_engine::types::{MalformedWrapper, TypeExpr, TypeKind, Wrapper, WrapperFault};

fn field(identifier: &str, text: &str) -> FieldDeclaration {
    FieldDeclaration {
        identifier: identifier.to_string(),
        declared_type: TypeExpr { text: text.to_string(), kind: TypeKind::Other },
        annotations: vec![],
    }
}

fn message(kind: ErrorKind, field: &FieldDeclaration) -> String {
    GenerationError { kind, field, node: Node::DeclaredType }.message()
}

#[test]
fn malformed_wrapper_names_the_wrapper_and_the_field() {
    let f = field("note", "Option");
    let wrapper = |wrapper, fault| ErrorKind::MalformedWrapper(MalformedWrapper { wrapper, fault });
    assert_eq!(
        message(wrapper(Wrapper::Optional, WrapperFault::NoAngleBrackets), &f),
        "field `note`: `Option` without angle brackets"
    );
    assert_eq!(
        message(wrapper(Wrapper::Repeated, WrapperFault::NoArgument), &f),
        "field `note`: `Vec` without a type argument"
    );
    assert_eq!(
        message(wrapper(Wrapper::Repeated, WrapperFault::TooManyArguments), &f),
        "field `note`: `Vec` with more than one argument"
    );
    assert_eq!(
        message(wrapper(Wrapper::Optional, WrapperFault::NotAType), &f),
        "field `note`: `Option` with an argument that is not a type"
    );
}

#[test]
fn expected_repeated_type_names_the_field_and_the_declared_type() {
    let f = field("count", "i64");
    assert_eq!(
        message(ErrorKind::ExpectedRepeatedType, &f),
        "field `count`: expected `Vec` of some type, found `i64`"
    );
}

#[test]
fn duplicate_annotation_names_the_field() {
    let f = field("tags", "Vec<String>");
    let error = GenerationError {
        kind: ErrorKind::DuplicateAnnotation,
        field: &f,
        node: Node::Annotation { index: 1, part: Part::Whole },
    };
    assert_eq!(error.message(), "field `tags`: unexpected second annotation");
}

#[test]
fn malformed_annotation_says_what_is_wrong() {
    let f = field("tags", "Vec<String>");
    let cases = [
        (Flaw::NotAList, "field `tags`: expected `builder(each = \"...\")`"),
        (Flaw::WrongFamily, "field `tags`: not a `builder` annotation"),
        (Flaw::EmptyList, "field `tags`: `builder` without `each`"),
        (Flaw::NotNameValue, "field `tags`: expected `each = \"...\"`"),
        (Flaw::UnknownKey, "field `tags`: unknown key, did you mean `each`?"),
        (Flaw::NotAString, "field `tags`: expected a string literal"),
        (Flaw::NotAnIdentifier, "field `tags`: expected one identifier in the string"),
        (Flaw::ExtraEntry, "field `tags`: unexpected second entry"),
    ];
    for (flaw, expected) in cases {
        assert_eq!(message(ErrorKind::MalformedAnnotation(flaw), &f), expected);
        assert_eq!(format!("field `tags`: {}", flaw.describe()), expected);
    }
}

#[test]
fn missing_field_names_the_field() {
    let name = "id".to_string();
    assert_eq!(MissingField { field: &name }.message(), "Field: id");
}
