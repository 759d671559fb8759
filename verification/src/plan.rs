//! The plan of a field: the category under which its code is generated.

use vstd::prelude::*;
use crate::annotations::{
    annotations_view, parse_annotations, parsed_annotations, AnnotationError, AppendDirective,
    Part, Reading,
};
use crate::error::{ErrorKind, GenerationError, Node};
use crate::record::FieldDeclaration;
use crate::search::{first, lemma_first_in_at, lemma_first_in_none};
use crate::types::{classify, TypeExpr, TypeShape};

verus! {

/// The category of a field.
#[derive(Debug, PartialEq, Eq)]
pub enum Category<'a> {
    /// The field must be set before the record is built. Its value has the
    /// declared type as it stands.
    Required,
    /// The field may stay unset. Its value, where it has one, has the type
    /// inside `Option`.
    Optional { inner: &'a TypeExpr },
    /// The field collects items, and a directive names the setter of one item.
    /// The type of an item is read off the declared type when code is
    /// generated.
    Repeated { directive: AppendDirective },
}

/// A category, with the name that a directive gives as plain text.
pub enum CategoryView<'a> {
    Required,
    Optional { inner: &'a TypeExpr },
    Repeated { append_name: Seq<char> },
}

impl<'a> View for Category<'a> {
    type V = CategoryView<'a>;

    open spec fn view(&self) -> CategoryView<'a> {
        match self {
            Category::Required => CategoryView::Required,
            Category::Optional { inner } => CategoryView::Optional { inner: *inner },
            Category::Repeated { directive } => CategoryView::Repeated { append_name: directive@ },
        }
    }
}

/// The plan of one field: the field and its category.
#[derive(Debug, PartialEq, Eq)]
pub struct FieldPlan<'a> {
    pub field: &'a FieldDeclaration,
    pub category: Category<'a>,
}

/// A plan, with the name that a directive gives as plain text.
pub struct PlanView<'a> {
    pub field: &'a FieldDeclaration,
    pub category: CategoryView<'a>,
}

impl<'a> View for FieldPlan<'a> {
    type V = PlanView<'a>;

    open spec fn view(&self) -> PlanView<'a> {
        PlanView { field: self.field, category: self.category@ }
    }
}

/// The views of a sequence of plans.
pub open spec fn plan_views<'a>(plans: Seq<FieldPlan<'a>>) -> Seq<PlanView<'a>> {
    plans.map_values(|p: FieldPlan<'a>| p@)
}

/// The error of a field whose annotations give no directive.
pub open spec fn annotation_error<'a>(
    field: &'a FieldDeclaration,
    error: AnnotationError,
) -> GenerationError<'a> {
    match error {
        AnnotationError::Malformed { index, flaw } => GenerationError {
            kind: ErrorKind::MalformedAnnotation(flaw),
            field,
            node: Node::Annotation { index, part: flaw.part() },
        },
        AnnotationError::Duplicate { index } => GenerationError {
            kind: ErrorKind::DuplicateAnnotation,
            field,
            node: Node::Annotation { index, part: Part::Whole },
        },
    }
}

/// The category of a field, or the error for which it has none, given the
/// readings of the string literals of its annotations. The annotations are
/// read first, and an error in them comes before any other. A directive makes
/// the field repeated, whatever its declared type. Without one the declared
/// type decides: `Option` of a type makes the field optional, anything else
/// makes it required, `Vec` of a type too.
pub open spec fn category_of<'a>(field: &'a FieldDeclaration, readings: Seq<Reading>) -> Result<
    CategoryView<'a>,
    GenerationError<'a>,
> {
    match parsed_annotations(field.annotations@, readings) {
        Err(error) => Err(annotation_error(field, error)),
        Ok(Some(name)) => Ok(CategoryView::Repeated { append_name: name }),
        Ok(None) => match field.declared_type.shape() {
            Err(malformed) => Err(
                GenerationError {
                    kind: ErrorKind::MalformedWrapper(malformed),
                    field,
                    node: Node::DeclaredType,
                },
            ),
            Ok(TypeShape::OptionalOf(inner)) => Ok(CategoryView::Optional { inner }),
            Ok(_) => Ok(CategoryView::Required),
        },
    }
}

/// The plan of a field, or the error for which it has none, given the
/// readings of the string literals of its annotations.
pub open spec fn planned<'a>(field: &'a FieldDeclaration, readings: Seq<Reading>) -> Result<
    PlanView<'a>,
    GenerationError<'a>,
> {
    match category_of(field, readings) {
        Err(error) => Err(error),
        Ok(category) => Ok(PlanView { field, category }),
    }
}

/// The outcome of planning one field, with a directive's name as plain text.
pub open spec fn plan_view<'a>(res: Result<FieldPlan<'a>, GenerationError<'a>>) -> Result<
    PlanView<'a>,
    GenerationError<'a>,
> {
    match res {
        Ok(plan) => Ok(plan@),
        Err(error) => Err(error),
    }
}

/// The outcomes of planning one field after the other.
pub open spec fn plan_views_each<'a>(
    results: Seq<Result<FieldPlan<'a>, GenerationError<'a>>>,
) -> Seq<Result<PlanView<'a>, GenerationError<'a>>> {
    results.map_values(|r: Result<FieldPlan<'a>, GenerationError<'a>>| plan_view(r))
}

/// The outcome of planning the fields of a record, with the names of the
/// directives as plain text.
pub open spec fn plans_view<'a>(res: Result<Vec<FieldPlan<'a>>, GenerationError<'a>>) -> Result<
    Seq<PlanView<'a>>,
    GenerationError<'a>,
> {
    match res {
        Ok(plans) => Ok(plan_views(plans@)),
        Err(error) => Err(error),
    }
}

/// Whether `readings` holds one reading for each annotation of each field.
pub open spec fn readings_fit(fields: Seq<FieldDeclaration>, readings: Seq<Seq<Reading>>) -> bool {
    &&& readings.len() == fields.len()
    &&& forall|i: int|
        0 <= i < fields.len() ==> (#[trigger] readings[i]).len() == fields[i].annotations@.len()
}

/// What planning gives for each field, given the readings of the string
/// literals of its annotations.
pub open spec fn plan_outcomes<'a>(
    fields: Seq<FieldDeclaration>,
    readings: Seq<Seq<Reading>>,
) -> Seq<Result<PlanView<'a>, GenerationError<'a>>> {
    Seq::new(fields.len(), |i: int| planned(&fields[i], readings[i]))
}

/// Whether a field has no plan.
pub open spec fn unplannable(outcome: Result<PlanView<'_>, GenerationError<'_>>) -> bool {
    outcome is Err
}

/// The plans of the fields of a record, in order, or the error of the first
/// field that has none.
pub open spec fn planned_fields<'a>(
    fields: Seq<FieldDeclaration>,
    readings: Seq<Seq<Reading>>,
) -> Result<Seq<PlanView<'a>>, GenerationError<'a>> {
    let given = plan_outcomes(fields, readings);
    match first(given, |o: Result<PlanView<'a>, GenerationError<'a>>| unplannable(o)) {
        Some(i) => Err(given[i]->Err_0),
        None => Ok(Seq::new(fields.len(), |i: int| given[i]->Ok_0)),
    }
}

/// Plans one field. The outcome is what follows from some readings of the
/// string literals of its annotations.
pub fn plan<'a>(field: &'a FieldDeclaration) -> (res: Result<FieldPlan<'a>, GenerationError<'a>>)
    ensures
        exists|readings: Seq<Reading>|
            readings.len() == field.annotations@.len() && #[trigger] planned(field, readings)
                == plan_view(res),
{
    let parsed = parse_annotations(&field.annotations);
    let ghost readings = choose|readings: Seq<Reading>|
        readings.len() == field.annotations@.len() && #[trigger] parsed_annotations(
            field.annotations@,
            readings,
        ) == annotations_view(parsed);
    let res = match parsed {
        Err(error) => {
            let (kind, node) = match error {
                AnnotationError::Malformed { index, flaw } => (
                    ErrorKind::MalformedAnnotation(flaw),
                    Node::Annotation { index, part: flaw.located() },
                ),
                AnnotationError::Duplicate { index } => (
                    ErrorKind::DuplicateAnnotation,
                    Node::Annotation { index, part: Part::Whole },
                ),
            };
            Err(GenerationError { kind, field, node })
        },
        Ok(Some(directive)) => Ok(FieldPlan { field, category: Category::Repeated { directive } }),
        Ok(None) => match classify(&field.declared_type) {
            Err(malformed) => Err(
                GenerationError {
                    kind: ErrorKind::MalformedWrapper(malformed),
                    field,
                    node: Node::DeclaredType,
                },
            ),
            Ok(TypeShape::OptionalOf(inner)) => Ok(
                FieldPlan { field, category: Category::Optional { inner } },
            ),
            Ok(_) => Ok(FieldPlan { field, category: Category::Required }),
        },
    };
    assert(planned(field, readings) == plan_view(res));
    res
}

/// Plans every field of a record and hands back one outcome for each, in
/// declaration order: an error in one field keeps no other from being
/// planned.
pub fn plan_each<'a>(fields: &'a Vec<FieldDeclaration>) -> (res: Vec<
    Result<FieldPlan<'a>, GenerationError<'a>>,
>)
    ensures
        exists|readings: Seq<Seq<Reading>>|
            readings_fit(fields@, readings) && #[trigger] plan_outcomes(fields@, readings)
                == plan_views_each(res@),
{
    let ghost mut readings: Seq<Seq<Reading>> = Seq::empty();
    let n: usize = fields.len();
    let mut results: Vec<Result<FieldPlan<'a>, GenerationError<'a>>> = Vec::new();
    let mut i: usize = 0;
    while i < n
        invariant
            n == fields@.len(),
            0 <= i <= n,
            readings.len() == i,
            results@.len() == i,
            forall|j: int|
                0 <= j < i ==> (#[trigger] readings[j]).len() == fields@[j].annotations@.len(),
            forall|j: int|
                0 <= j < i ==> planned(&fields@[j], readings[j]) == plan_view(
                    #[trigger] results@[j],
                ),
        decreases n - i,
    {
        let planned_field = plan(&fields[i]);
        proof {
            let given = choose|given: Seq<Reading>|
                given.len() == fields@[i as int].annotations@.len() && #[trigger] planned(
                    &fields@[i as int],
                    given,
                ) == plan_view(planned_field);
            readings = readings.push(given);
        }
        results.push(planned_field);
        i = i + 1;
    }
    proof {
        assert(plan_outcomes(fields@, readings) =~= plan_views_each(results@));
    }
    results
}

/// Plans the fields of a record in declaration order. The first field that
/// has no plan ends the pass, and its error is the outcome. The outcome is
/// what follows from some readings of the string literals of the
/// annotations.
pub fn plan_fields<'a>(fields: &'a Vec<FieldDeclaration>) -> (res: Result<
    Vec<FieldPlan<'a>>,
    GenerationError<'a>,
>)
    ensures
        exists|readings: Seq<Seq<Reading>>|
            readings_fit(fields@, readings) && #[trigger] planned_fields(fields@, readings)
                == plans_view(res),
{
    let ghost mut readings: Seq<Seq<Reading>> = Seq::empty();
    let n: usize = fields.len();
    let mut plans: Vec<FieldPlan<'a>> = Vec::new();
    let mut i: usize = 0;
    while i < n
        invariant
            n == fields@.len(),
            0 <= i <= n,
            readings.len() == i,
            plans@.len() == i,
            forall|j: int|
                0 <= j < i ==> (#[trigger] readings[j]).len() == fields@[j].annotations@.len(),
            forall|j: int|
                0 <= j < i ==> planned(&fields@[j], readings[j]) == Ok::<
                    PlanView,
                    GenerationError,
                >((#[trigger] plans@[j])@),
        decreases n - i,
    {
        let planned_field = plan(&fields[i]);
        let ghost given = choose|given: Seq<Reading>|
            given.len() == fields@[i as int].annotations@.len() && #[trigger] planned(
                &fields@[i as int],
                given,
            ) == plan_view(planned_field);
        match planned_field {
            Err(error) => {
                proof {
                    let p = |o: Result<PlanView<'a>, GenerationError<'a>>| unplannable(o);
                    let all = readings.push(given) + Seq::new(
                        (n - i - 1) as nat,
                        |k: int|
                            Seq::new(
                                fields@[i + 1 + k].annotations@.len(),
                                |m: int| None::<Seq<char>>,
                            ),
                    );
                    let outcomes = plan_outcomes(fields@, all);
                    assert forall|j: int| 0 <= j < i implies !p(#[trigger] outcomes[j]) by {
                        assert(all[j] == readings[j]);
                        assert(planned(&fields@[j], readings[j]) == Ok::<
                            PlanView,
                            GenerationError,
                        >(plans@[j]@));
                    }
                    assert(all[i as int] == given);
                    assert forall|j: int| 0 <= j < n implies (#[trigger] all[j]).len()
                        == fields@[j].annotations@.len() by {
                        if j < i {
                            assert(all[j] == readings[j]);
                        } else if j > i {
                            assert(all[j] == Seq::new(
                                fields@[i + 1 + (j - i - 1)].annotations@.len(),
                                |m: int| None::<Seq<char>>,
                            ));
                        }
                    }
                    lemma_first_in_at(outcomes, p, i as int, n as nat);
                    assert(planned_fields(fields@, all) == plans_view(
                        Err::<Vec<FieldPlan>, GenerationError>(error),
                    ));
                }
                return Err(error);
            },
            Ok(field_plan) => {
                proof {
                    readings = readings.push(given);
                }
                plans.push(field_plan);
            },
        }
        i = i + 1;
    }
    proof {
        let p = |o: Result<PlanView<'a>, GenerationError<'a>>| unplannable(o);
        let outcomes = plan_outcomes(fields@, readings);
        assert forall|j: int| 0 <= j < n implies !p(#[trigger] outcomes[j]) by {
            assert(planned(&fields@[j], readings[j]) == Ok::<PlanView, GenerationError>(
                plans@[j]@,
            ));
        }
        lemma_first_in_none(outcomes, p, n as nat);
        assert(planned_fields(fields@, readings)->Ok_0 =~= plan_views(plans@));
    }
    Ok(plans)
}

} // verus!
