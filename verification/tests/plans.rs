use builder_engine::annotations::{
    Annotation, AppendDirective, Entry, Flaw, Literal, MetaPath, Part,
};
use builder_engine::error::{ErrorKind, GenerationError, Node};
use builder_engine::plan::{plan, plan_each, plan_fields, Category, FieldPlan};
use builder_engine::record::FieldDeclaration;
use builder_engine::types::{
    Arguments, GenericArg, MalformedWrapper, Segment, TypeExpr, TypeKind, Wrapper, WrapperFault,
};

fn named(name: &str) -> TypeExpr {
    TypeExpr {
        text: name.to_string(),
        kind: TypeKind::Path(vec![Segment { ident: name.to_string(), arguments: Arguments::Absent }]),
    }
}

fn generic(name: &str, inner: TypeExpr) -> TypeExpr {
    TypeExpr {
        text: format!("{}<{}>", name, inner.text),
        kind: TypeKind::Path(vec![Segment {
            ident: name.to_string(),
            arguments: Arguments::AngleBracketed(vec![GenericArg::Type(inner)]),
        }]),
    }
}

fn each_value(value: Literal) -> Annotation {
    Annotation::List {
        path: MetaPath { leading_colon: false, segments: vec!["builder".to_string()] },
        entries: vec![Entry::NameValue {
            path: MetaPath { leading_colon: false, segments: vec!["each".to_string()] },
            value,
        }],
    }
}

fn each(name: &str) -> Annotation {
    each_value(Literal::Str(name.to_string()))
}

fn field(identifier: &str, declared_type: TypeExpr, annotations: Vec<Annotation>) -> FieldDeclaration {
    FieldDeclaration { identifier: identifier.to_string(), declared_type, annotations }
}

fn repeated(name: &str) -> Category<'static> {
    Category::Repeated { directive: AppendDirective { name: name.to_string() } }
}

#[test]
fn field_of_a_plain_type_is_required() {
    let f = field("id", named("i64"), vec![]);
    assert_eq!(plan(&f), Ok(FieldPlan { field: &f, category: Category::Required }));
}

#[test]
fn field_of_an_option_is_optional() {
    let f = field("note", generic("Option", named("String")), vec![]);
    let inner = named("String");
    assert_eq!(plan(&f), Ok(FieldPlan { field: &f, category: Category::Optional { inner: &inner } }));
}

#[test]
fn field_of_a_vec_without_directive_is_required() {
    let f = field("tags", generic("Vec", named("String")), vec![]);
    assert_eq!(plan(&f), Ok(FieldPlan { field: &f, category: Category::Required }));
}

#[test]
fn field_with_a_directive_is_repeated() {
    let f = field("tags", generic("Vec", named("String")), vec![each("tag")]);
    assert_eq!(plan(&f), Ok(FieldPlan { field: &f, category: repeated("tag") }));
}

#[test]
fn field_with_a_directive_is_repeated_whatever_its_type() {
    let f = field("count", named("i64"), vec![each("one")]);
    assert_eq!(plan(&f), Ok(FieldPlan { field: &f, category: repeated("one") }));
    let f = field("maybe", generic("Option", named("i64")), vec![each("one")]);
    assert_eq!(plan(&f), Ok(FieldPlan { field: &f, category: repeated("one") }));
    let f = field("bare", named("Vec"), vec![each("one")]);
    assert_eq!(plan(&f), Ok(FieldPlan { field: &f, category: repeated("one") }));
}

#[test]
fn malformed_annotation_is_located_at_the_annotation() {
    let f = field("tags", generic("Vec", named("String")), vec![each_value(Literal::Other)]);
    assert_eq!(
        plan(&f),
        Err(GenerationError {
            kind: ErrorKind::MalformedAnnotation(Flaw::NotAString),
            field: &f,
            node: Node::Annotation { index: 0, part: Part::Value },
        })
    );
}

#[test]
fn duplicate_annotation_is_located_at_the_second() {
    let f = field("tags", generic("Vec", named("String")), vec![each("x"), each("x")]);
    assert_eq!(
        plan(&f),
        Err(GenerationError {
            kind: ErrorKind::DuplicateAnnotation,
            field: &f,
            node: Node::Annotation { index: 1, part: Part::Whole },
        })
    );
}

#[test]
fn malformed_wrapper_is_located_at_the_declared_type() {
    let f = field("note", named("Option"), vec![]);
    assert_eq!(
        plan(&f),
        Err(GenerationError {
            kind: ErrorKind::MalformedWrapper(MalformedWrapper {
                wrapper: Wrapper::Optional,
                fault: WrapperFault::NoAngleBrackets,
            }),
            field: &f,
            node: Node::DeclaredType,
        })
    );
    let f = field("tags", named("Vec"), vec![]);
    assert_eq!(
        plan(&f).unwrap_err().kind,
        ErrorKind::MalformedWrapper(MalformedWrapper {
            wrapper: Wrapper::Repeated,
            fault: WrapperFault::NoAngleBrackets,
        })
    );
}

#[test]
fn error_in_the_annotations_comes_before_the_wrapper() {
    let f = field("note", named("Option"), vec![Annotation::Other]);
    assert_eq!(
        plan(&f),
        Err(GenerationError {
            kind: ErrorKind::MalformedAnnotation(Flaw::NotAList),
            field: &f,
            node: Node::Annotation { index: 0, part: Part::Whole },
        })
    );
}

#[test]
fn fields_are_planned_in_order() {
    let fields = vec![
        field("id", named("i64"), vec![]),
        field("tags", generic("Vec", named("String")), vec![each("tag")]),
        field("note", generic("Option", named("String")), vec![]),
    ];
    let inner = named("String");
    assert_eq!(
        plan_fields(&fields),
        Ok(vec![
            FieldPlan { field: &fields[0], category: Category::Required },
            FieldPlan { field: &fields[1], category: repeated("tag") },
            FieldPlan { field: &fields[2], category: Category::Optional { inner: &inner } },
        ])
    );
    assert_eq!(plan_fields(&vec![]), Ok(vec![]));
}

#[test]
fn first_field_without_a_plan_ends_the_pass() {
    let fields = vec![
        field("id", named("i64"), vec![]),
        field("note", named("Option"), vec![]),
        field("tags", generic("Vec", named("String")), vec![Annotation::Other]),
    ];
    let error = plan_fields(&fields).unwrap_err();
    assert_eq!(error.field.identifier, "note");
    assert_eq!(error.node, Node::DeclaredType);
}

#[test]
fn each_field_has_its_own_outcome() {
    let fields = vec![
        field("id", named("i64"), vec![]),
        field("note", named("Option"), vec![]),
        field("tags", generic("Vec", named("String")), vec![Annotation::Other]),
        field("args", generic("Vec", named("String")), vec![each("arg")]),
    ];
    assert_eq!(
        plan_each(&fields),
        vec![
            Ok(FieldPlan { field: &fields[0], category: Category::Required }),
            Err(GenerationError {
                kind: ErrorKind::MalformedWrapper(MalformedWrapper {
                    wrapper: Wrapper::Optional,
                    fault: WrapperFault::NoAngleBrackets,
                }),
                field: &fields[1],
                node: Node::DeclaredType,
            }),
            Err(GenerationError {
                kind: ErrorKind::MalformedAnnotation(Flaw::NotAList),
                field: &fields[2],
                node: Node::Annotation { index: 0, part: Part::Whole },
            }),
            Ok(FieldPlan { field: &fields[3], category: repeated("arg") }),
        ]
    );
    assert_eq!(plan_each(&vec![]), vec![]);
}

#[test]
fn planning_each_field_agrees_with_planning_one() {
    let fields = vec![
        field("id", named("i64"), vec![each("x"), each("y")]),
        field("note", generic("Option", named("u8")), vec![]),
    ];
    let each_outcome = plan_each(&fields);
    assert_eq!(each_outcome.len(), 2);
    assert_eq!(each_outcome[0], plan(&fields[0]));
    assert_eq!(each_outcome[1], plan(&fields[1]));
}
