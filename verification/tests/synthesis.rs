use builder_engine::annotations::{Annotation, Entry, Flaw, Literal, MetaPath, Part};
use builder_engine::error::{ErrorKind, GenerationError, Node};
use builder_engine::plan::{plan_fields, Category, FieldPlan};
use builder_engine::record::{FieldDeclaration, RecordDeclaration};
use builder_engine::synth::{
    builder_impl, impl_derive_builder, struct_decl, synthesize, CodeArtifacts, FinalStep,
    Initial, Setter, SetterKind, Slot, Storage,
};
use builder_engine::types::{
    Arguments, GenericArg, MalformedWrapper, Segment, TypeExpr, TypeKind, Wrapper, WrapperFault,
};

fn named(name: &str) -> TypeExpr {
    TypeExpr {
        text: name.to_string(),
        kind: TypeKind::Path(vec![Segment { ident: name.to_string(), arguments: Arguments::Absent }]),
    }
}

fn generic(name: &str, inner: TypeExpr) -> TypeExpr {
    TypeExpr {
        text: format!("{}<{}>", name, inner.text),
        kind: TypeKind::Path(vec![Segment {
            ident: name.to_string(),
            arguments: Arguments::AngleBracketed(vec![GenericArg::Type(inner)]),
        }]),
    }
}

fn each_value(value: Literal) -> Annotation {
    Annotation::List {
        path: MetaPath { leading_colon: false, segments: vec!["builder".to_string()] },
        entries: vec![Entry::NameValue {
            path: MetaPath { leading_colon: false, segments: vec!["each".to_string()] },
            value,
        }],
    }
}

fn each(name: &str) -> Annotation {
    each_value(Literal::Str(name.to_string()))
}

fn field(identifier: &str, declared_type: TypeExpr, annotations: Vec<Annotation>) -> FieldDeclaration {
    FieldDeclaration { identifier: identifier.to_string(), declared_type, annotations }
}

fn record(name: &str, fields: Vec<FieldDeclaration>) -> RecordDeclaration {
    RecordDeclaration { name: name.to_string(), fields }
}

fn command() -> RecordDeclaration {
    record(
        "Command",
        vec![
            field("id", named("i64"), vec![]),
            field("tags", generic("Vec", named("String")), vec![each("tag")]),
            field("note", generic("Option", named("String")), vec![]),
        ],
    )
}

#[test]
fn artifacts_of_a_record_with_one_field_of_each_category() {
    let record = command();
    let artifacts = impl_derive_builder(&record).unwrap();
    let integer = named("i64");
    let string = named("String");
    let strings = generic("Vec", named("String"));

    assert_eq!(artifacts.record, "Command");
    assert_eq!(
        artifacts.slots,
        vec![
            Slot { field: &"id".to_string(), storage: Storage::AbsentCapable { holds: &integer } },
            Slot {
                field: &"tags".to_string(),
                storage: Storage::Collection { whole: &strings, item: &string },
            },
            Slot { field: &"note".to_string(), storage: Storage::AbsentCapable { holds: &string } },
        ]
    );
    assert_eq!(
        artifacts.setters,
        vec![
            Setter { name: "id".to_string(), slot: 0, kind: SetterKind::Overwrite, parameter: &integer },
            Setter {
                name: "tags".to_string(),
                slot: 1,
                kind: SetterKind::Overwrite,
                parameter: &strings,
            },
            Setter {
                name: "note".to_string(),
                slot: 2,
                kind: SetterKind::Overwrite,
                parameter: &string,
            },
            Setter { name: "tag".to_string(), slot: 1, kind: SetterKind::Append, parameter: &string },
        ]
    );
    assert_eq!(
        artifacts.finalization,
        vec![FinalStep::Require, FinalStep::CopyThrough, FinalStep::CopyThrough]
    );
    assert_eq!(artifacts.factory, vec![Initial::Absent, Initial::Empty, Initial::Absent]);
    assert!(artifacts.is_consistent());
}

#[test]
fn repeated_field_with_another_name_has_both_setters() {
    let record = record(
        "Command",
        vec![
            field("args", generic("Vec", named("String")), vec![each("arg")]),
            field("env", generic("Vec", named("u8")), vec![each("var")]),
        ],
    );
    let artifacts = impl_derive_builder(&record).unwrap();
    let names: Vec<&str> = artifacts.setters.iter().map(|s| s.name.as_str()).collect();
    assert_eq!(names, vec!["args", "env", "arg", "var"]);
    let kinds: Vec<SetterKind> = artifacts.setters.iter().map(|s| s.kind).collect();
    assert_eq!(
        kinds,
        vec![SetterKind::Overwrite, SetterKind::Overwrite, SetterKind::Append, SetterKind::Append]
    );
    let slots: Vec<usize> = artifacts.setters.iter().map(|s| s.slot).collect();
    assert_eq!(slots, vec![0, 1, 0, 1]);
}

#[test]
fn repeated_field_with_its_own_name_has_one_setter() {
    let record = record(
        "Command",
        vec![
            field("args", generic("Vec", named("String")), vec![each("args")]),
            field("env", generic("Vec", named("u8")), vec![each("var")]),
        ],
    );
    let artifacts = impl_derive_builder(&record).unwrap();
    let strings = generic("Vec", named("String"));
    let bytes = generic("Vec", named("u8"));
    let byte = named("u8");
    assert_eq!(
        artifacts.setters,
        vec![
            Setter {
                name: "args".to_string(),
                slot: 0,
                kind: SetterKind::Overwrite,
                parameter: &strings,
            },
            Setter { name: "env".to_string(), slot: 1, kind: SetterKind::Overwrite, parameter: &bytes },
            Setter { name: "var".to_string(), slot: 1, kind: SetterKind::Append, parameter: &byte },
        ]
    );
    assert_eq!(artifacts.factory, vec![Initial::Empty, Initial::Empty]);
    assert_eq!(artifacts.finalization, vec![FinalStep::CopyThrough, FinalStep::CopyThrough]);
}

#[test]
fn vec_without_directive_is_one_required_value() {
    let record = record("Command", vec![field("args", generic("Vec", named("String")), vec![])]);
    let artifacts = impl_derive_builder(&record).unwrap();
    let strings = generic("Vec", named("String"));
    assert_eq!(
        artifacts.slots,
        vec![Slot { field: &"args".to_string(), storage: Storage::AbsentCapable { holds: &strings } }]
    );
    assert_eq!(artifacts.setters.len(), 1);
    assert_eq!(artifacts.setters[0].parameter, &strings);
    assert_eq!(artifacts.finalization, vec![FinalStep::Require]);
    assert_eq!(artifacts.factory, vec![Initial::Absent]);
}

#[test]
fn value_that_is_no_string_fails_the_pass() {
    let record = record(
        "Command",
        vec![
            field("id", named("i64"), vec![]),
            field("tags", generic("Vec", named("String")), vec![each_value(Literal::Other)]),
        ],
    );
    assert_eq!(
        impl_derive_builder(&record),
        Err(GenerationError {
            kind: ErrorKind::MalformedAnnotation(Flaw::NotAString),
            field: &record.fields[1],
            node: Node::Annotation { index: 0, part: Part::Value },
        })
    );
}

#[test]
fn two_directives_on_one_field_fail_the_pass_at_the_second() {
    let record = record(
        "Command",
        vec![field("tags", generic("Vec", named("String")), vec![each("x"), each("x")])],
    );
    assert_eq!(
        impl_derive_builder(&record),
        Err(GenerationError {
            kind: ErrorKind::DuplicateAnnotation,
            field: &record.fields[0],
            node: Node::Annotation { index: 1, part: Part::Whole },
        })
    );
}

#[test]
fn directive_on_a_plain_type_is_an_error() {
    let record = record("Command", vec![field("count", named("i64"), vec![each("one")])]);
    assert_eq!(
        impl_derive_builder(&record),
        Err(GenerationError {
            kind: ErrorKind::ExpectedRepeatedType,
            field: &record.fields[0],
            node: Node::DeclaredType,
        })
    );
}

#[test]
fn directive_on_a_type_that_is_no_vec_is_an_error_under_any_name() {
    let same = record("Command", vec![field("count", named("i64"), vec![each("count")])]);
    assert_eq!(impl_derive_builder(&same).unwrap_err().kind, ErrorKind::ExpectedRepeatedType);
    let optional = record(
        "Command",
        vec![field("maybe", generic("Option", named("i64")), vec![each("one")])],
    );
    assert_eq!(impl_derive_builder(&optional).unwrap_err().kind, ErrorKind::ExpectedRepeatedType);
}

#[test]
fn directive_on_a_malformed_vec_is_a_malformed_wrapper() {
    let record = record("Command", vec![field("tags", named("Vec"), vec![each("tag")])]);
    assert_eq!(
        impl_derive_builder(&record),
        Err(GenerationError {
            kind: ErrorKind::MalformedWrapper(MalformedWrapper {
                wrapper: Wrapper::Repeated,
                fault: WrapperFault::NoAngleBrackets,
            }),
            field: &record.fields[0],
            node: Node::DeclaredType,
        })
    );
}

#[test]
fn every_field_is_planned_before_code_is_generated() {
    let record = record(
        "Command",
        vec![
            field("count", named("i64"), vec![each("one")]),
            field("tags", generic("Vec", named("String")), vec![Annotation::Other]),
        ],
    );
    let error = impl_derive_builder(&record).unwrap_err();
    assert_eq!(error.kind, ErrorKind::MalformedAnnotation(Flaw::NotAList));
    assert_eq!(error.field.identifier, "tags");
}

#[test]
fn first_unfit_plan_ends_synthesis() {
    let record = record(
        "Command",
        vec![
            field("id", named("i64"), vec![]),
            field("count", named("i64"), vec![each("one")]),
            field("tags", named("Vec"), vec![each("tag")]),
        ],
    );
    let plans = plan_fields(&record.fields).unwrap();
    let expected = GenerationError {
        kind: ErrorKind::ExpectedRepeatedType,
        field: &record.fields[1],
        node: Node::DeclaredType,
    };
    assert_eq!(synthesize(&record.name, &plans), Err(expected));
    assert_eq!(struct_decl(&plans), Err(expected));
    assert_eq!(builder_impl(&plans), Err(expected));
}

#[test]
fn synthesis_follows_the_plans_it_is_given() {
    let f = field("note", named("String"), vec![]);
    let inner = named("u8");
    let plans = vec![FieldPlan { field: &f, category: Category::Optional { inner: &inner } }];
    let name = "Note".to_string();
    let artifacts = synthesize(&name, &plans).unwrap();
    assert_eq!(
        artifacts,
        CodeArtifacts {
            record: &name,
            slots: vec![Slot {
                field: &"note".to_string(),
                storage: Storage::AbsentCapable { holds: &inner },
            }],
            setters: vec![Setter {
                name: "note".to_string(),
                slot: 0,
                kind: SetterKind::Overwrite,
                parameter: &inner,
            }],
            finalization: vec![FinalStep::CopyThrough],
            factory: vec![Initial::Absent],
        }
    );
}

#[test]
fn accumulator_and_operations_are_laid_out_field_by_field() {
    let record = command();
    let plans = plan_fields(&record.fields).unwrap();
    let artifacts = synthesize(&record.name, &plans).unwrap();
    assert_eq!(struct_decl(&plans), Ok(artifacts.slots));
    assert_eq!(builder_impl(&plans), Ok((artifacts.setters, artifacts.finalization)));
}

#[test]
fn pieces_of_one_plan() {
    let record = command();
    let plans = plan_fields(&record.fields).unwrap();
    let string = named("String");
    let strings = generic("Vec", named("String"));

    assert_eq!(plans[0].item_type(), Ok(None));
    assert_eq!(plans[1].item_type(), Ok(Some(&string)));
    assert_eq!(plans[0].initial(), Initial::Absent);
    assert_eq!(plans[1].initial(), Initial::Empty);
    assert_eq!(plans[2].initial(), Initial::Absent);
    assert_eq!(plans[0].final_step(), FinalStep::Require);
    assert_eq!(plans[1].final_step(), FinalStep::CopyThrough);
    assert_eq!(plans[2].final_step(), FinalStep::CopyThrough);
    assert_eq!(
        plans[1].slot(),
        Ok(Slot {
            field: &"tags".to_string(),
            storage: Storage::Collection { whole: &strings, item: &string },
        })
    );
    assert_eq!(
        plans[1].whole_setter(7),
        Setter { name: "tags".to_string(), slot: 7, kind: SetterKind::Overwrite, parameter: &strings }
    );
    assert_eq!(
        plans[1].item_setter(7),
        Ok(Some(Setter {
            name: "tag".to_string(),
            slot: 7,
            kind: SetterKind::Append,
            parameter: &string,
        }))
    );
    assert_eq!(plans[0].item_setter(0), Ok(None));
    assert_eq!(plans[2].item_setter(2), Ok(None));
}

#[test]
fn record_without_fields_has_empty_artifacts() {
    let record = record("Unit", vec![]);
    let artifacts = impl_derive_builder(&record).unwrap();
    assert!(artifacts.slots.is_empty());
    assert!(artifacts.setters.is_empty());
    assert!(artifacts.finalization.is_empty());
    assert!(artifacts.factory.is_empty());
    assert!(artifacts.is_consistent());
}

#[test]
fn artifacts_that_do_not_belong_together_are_not_consistent() {
    let record = command();
    let mut artifacts = impl_derive_builder(&record).unwrap();
    artifacts.factory[1] = Initial::Absent;
    assert!(!artifacts.is_consistent());

    let mut artifacts = impl_derive_builder(&record).unwrap();
    artifacts.finalization.pop();
    assert!(!artifacts.is_consistent());

    let mut artifacts = impl_derive_builder(&record).unwrap();
    artifacts.finalization[1] = FinalStep::Require;
    assert!(!artifacts.is_consistent());

    let mut artifacts = impl_derive_builder(&record).unwrap();
    artifacts.setters[3].slot = 3;
    assert!(!artifacts.is_consistent());

    let mut artifacts = impl_derive_builder(&record).unwrap();
    artifacts.setters[3].slot = 0;
    assert!(!artifacts.is_consistent());
}

#[test]
fn setters_are_found_by_name() {
    let record = command();
    let artifacts = impl_derive_builder(&record).unwrap();
    assert_eq!(artifacts.setter_named("id"), Some(0));
    assert_eq!(artifacts.setter_named("tags"), Some(1));
    assert_eq!(artifacts.setter_named("note"), Some(2));
    assert_eq!(artifacts.setter_named("tag"), Some(3));
    assert_eq!(artifacts.setter_named("ta"), None);
}
