//! The synthesis of a builder: from the plans of a record's fields to the
//! code artifacts that make up its builder.

use vstd::prelude::*;
use crate::error::{ErrorKind, GenerationError, Node};
use crate::annotations::Reading;
use crate::plan::{
    plan_fields, plan_views, planned_fields, plans_view, readings_fit, Category, CategoryView,
    FieldPlan, PlanView,
};
use crate::record::RecordDeclaration;
use crate::search::{first, lemma_first_in_at, lemma_first_in_none};
use crate::types::{classify, TypeExpr, TypeShape};

verus! {

/// How the accumulator stores a field.
#[derive(Clone, Copy, Debug, PartialEq, Eq)]
pub enum Storage<'a> {
    /// A slot that is absent until it is set, and then holds one value of
    /// type `holds`.
    AbsentCapable { holds: &'a TypeExpr },
    /// An ordered collection that is empty at first. `whole` is the type of
    /// the collection and `item` the type of one item.
    Collection { whole: &'a TypeExpr, item: &'a TypeExpr },
}

/// The slot of one field in the accumulator.
#[derive(Clone, Copy, Debug, PartialEq, Eq)]
pub struct Slot<'a> {
    /// The identifier of the field.
    pub field: &'a String,
    pub storage: Storage<'a>,
}

/// What a setter does to its slot.
#[derive(Clone, Copy, Debug, PartialEq, Eq, Structural)]
pub enum SetterKind {
    /// It puts its argument in place of whatever the slot held.
    Overwrite,
    /// It adds its argument at the end of the collection.
    Append,
}

/// One setter of the accumulator.
#[derive(Debug, PartialEq, Eq)]
pub struct Setter<'a> {
    pub name: String,
    /// The position of the slot that it writes.
    pub slot: usize,
    pub kind: SetterKind,
    /// The type of its one parameter.
    pub parameter: &'a TypeExpr,
}

/// A setter, with its name as plain text.
pub struct SetterView<'a> {
    pub name: Seq<char>,
    pub slot: usize,
    pub kind: SetterKind,
    pub parameter: &'a TypeExpr,
}

impl<'a> View for Setter<'a> {
    type V = SetterView<'a>;

    open spec fn view(&self) -> SetterView<'a> {
        SetterView { name: self.name@, slot: self.slot, kind: self.kind, parameter: self.parameter }
    }
}

/// What finishing the builder does with one slot.
#[derive(Clone, Copy, Debug, PartialEq, Eq, Structural)]
pub enum FinalStep {
    /// The value is handed on where the slot holds one; an absent slot is the
    /// error of a missing field.
    Require,
    /// The slot is handed on as it stands: absent stays absent, and an empty
    /// collection stays empty.
    CopyThrough,
}

/// What a fresh accumulator holds in one slot.
#[derive(Clone, Copy, Debug, PartialEq, Eq, Structural)]
pub enum Initial {
    /// Nothing.
    Absent,
    /// An empty collection.
    Empty,
}

/// The code artifacts of one record: what its builder consists of.
#[derive(Debug, PartialEq, Eq)]
pub struct CodeArtifacts<'a> {
    /// The name of the record that the builder builds.
    pub record: &'a String,
    /// The accumulator: one slot for each field, in declaration order.
    pub slots: Vec<Slot<'a>>,
    /// The setters: for each field the one that takes the whole value, in
    /// declaration order, and after them the setters of one item.
    pub setters: Vec<Setter<'a>>,
    /// The finishing operation: one step for each field, taken in
    /// declaration order.
    pub finalization: Vec<FinalStep>,
    /// The factory of a fresh accumulator: what each slot holds at first.
    pub factory: Vec<Initial>,
}

/// Code artifacts, with the names of the setters as plain text.
pub struct Artifacts<'a> {
    pub record: &'a String,
    pub slots: Seq<Slot<'a>>,
    pub setters: Seq<SetterView<'a>>,
    pub finalization: Seq<FinalStep>,
    pub factory: Seq<Initial>,
}

/// The views of a sequence of setters.
pub open spec fn setter_views<'a>(setters: Seq<Setter<'a>>) -> Seq<SetterView<'a>> {
    setters.map_values(|s: Setter<'a>| s@)
}

impl<'a> View for CodeArtifacts<'a> {
    type V = Artifacts<'a>;

    open spec fn view(&self) -> Artifacts<'a> {
        Artifacts {
            record: self.record,
            slots: self.slots@,
            setters: setter_views(self.setters@),
            finalization: self.finalization@,
            factory: self.factory@,
        }
    }
}

impl<'a> Artifacts<'a> {
    /// Whether the four artifacts belong together: each has one entry for
    /// each slot, a collection starts empty and any other slot absent, only
    /// a slot that can be absent is required, and each setter writes a slot
    /// that exists, appending only to a collection.
    pub open spec fn wf(&self) -> bool {
        &&& self.finalization.len() == self.slots.len()
        &&& self.factory.len() == self.slots.len()
        &&& forall|i: int|
            0 <= i < self.slots.len() ==> (#[trigger] self.factory[i] == Initial::Empty
                <==> self.slots[i].storage is Collection)
        &&& forall|i: int|
            0 <= i < self.slots.len() && #[trigger] self.finalization[i] == FinalStep::Require
                ==> self.slots[i].storage is AbsentCapable
        &&& forall|j: int|
            0 <= j < self.setters.len() ==> (#[trigger] self.setters[j]).slot < self.slots.len()
                && (self.setters[j].kind == SetterKind::Append ==> self.slots[self.setters[j].slot
                as int].storage is Collection)
    }
}

impl<'a> CodeArtifacts<'a> {
    /// Checks that the four artifacts belong together.
    pub fn is_consistent(&self) -> (res: bool)
        ensures
            res == self@.wf(),
    {
        let n: usize = self.slots.len();
        if self.finalization.len() != n || self.factory.len() != n {
            return false;
        }
        let mut i: usize = 0;
        while i < n
            invariant
                n == self.slots@.len(),
                self.finalization@.len() == n,
                self.factory@.len() == n,
                0 <= i <= n,
                forall|k: int|
                    0 <= k < i ==> (#[trigger] self@.factory[k] == Initial::Empty
                        <==> self@.slots[k].storage is Collection),
                forall|k: int|
                    0 <= k < i && #[trigger] self@.finalization[k] == FinalStep::Require
                        ==> self@.slots[k].storage is AbsentCapable,
            decreases n - i,
        {
            let collection = match self.slots[i].storage {
                Storage::Collection { .. } => true,
                Storage::AbsentCapable { .. } => false,
            };
            let empty = self.factory[i] == Initial::Empty;
            let require = self.finalization[i] == FinalStep::Require;
            if empty != collection || (require && collection) {
                return false;
            }
            i = i + 1;
        }
        let m: usize = self.setters.len();
        let mut j: usize = 0;
        while j < m
            invariant
                n == self.slots@.len(),
                m == self.setters@.len(),
                0 <= j <= m,
                forall|k: int|
                    0 <= k < j ==> (#[trigger] self@.setters[k]).slot < n && (self@.setters[k].kind
                        == SetterKind::Append
                        ==> self@.slots[self@.setters[k].slot as int].storage is Collection),
            decreases m - j,
        {
            let setter = &self.setters[j];
            assert(self@.setters[j as int] == setter@);
            if setter.slot >= n {
                return false;
            }
            let collection = match self.slots[setter.slot].storage {
                Storage::Collection { .. } => true,
                Storage::AbsentCapable { .. } => false,
            };
            if setter.kind == SetterKind::Append && !collection {
                return false;
            }
            j = j + 1;
        }
        true
    }
}

impl<'a> PlanView<'a> {
    /// The error of a directive on this field's declared type, where that is
    /// no `Vec` of a type.
    pub open spec fn expected_repeated(&self) -> GenerationError<'a> {
        GenerationError {
            kind: ErrorKind::ExpectedRepeatedType,
            field: self.field,
            node: Node::DeclaredType,
        }
    }

    /// The type of one item of a repeated field, read off its declared type,
    /// which has to be `Vec` of that type. Other fields have no item type.
    pub open spec fn item_type(&self) -> Result<Option<&'a TypeExpr>, GenerationError<'a>> {
        match self.category {
            CategoryView::Repeated { .. } => match self.field.declared_type.shape() {
                Ok(TypeShape::RepeatedOf(item)) => Ok(Some(item)),
                Ok(_) => Err(self.expected_repeated()),
                Err(malformed) => Err(
                    GenerationError {
                        kind: ErrorKind::MalformedWrapper(malformed),
                        field: self.field,
                        node: Node::DeclaredType,
                    },
                ),
            },
            _ => Ok(None),
        }
    }

    /// The slot of the field. A required field is stored under its declared
    /// type and an optional one under the type inside `Option`, both absent
    /// at first; a repeated one is a collection of its items.
    pub open spec fn slot(&self) -> Slot<'a> {
        Slot {
            field: &self.field.identifier,
            storage: match self.category {
                CategoryView::Required => Storage::AbsentCapable {
                    holds: &self.field.declared_type,
                },
                CategoryView::Optional { inner } => Storage::AbsentCapable { holds: inner },
                CategoryView::Repeated { .. } => Storage::Collection {
                    whole: &self.field.declared_type,
                    item: self.item_type()->Ok_0->0,
                },
            },
        }
    }

    /// What a fresh accumulator holds for the field.
    pub open spec fn initial(&self) -> Initial {
        match self.category {
            CategoryView::Repeated { .. } => Initial::Empty,
            _ => Initial::Absent,
        }
    }

    /// The setter that takes the whole value of the field. It bears the
    /// field's identifier and overwrites the slot at `slot`.
    pub open spec fn whole_setter(&self, slot: usize) -> SetterView<'a> {
        SetterView {
            name: self.field.identifier@,
            slot,
            kind: SetterKind::Overwrite,
            parameter: match self.category {
                CategoryView::Optional { inner } => inner,
                _ => &self.field.declared_type,
            },
        }
    }

    /// The setter that appends one item to a repeated field, under the name
    /// that the directive gives. There is none where that name is the field's
    /// own identifier: the setter of the whole value bears it already.
    pub open spec fn item_setter(&self, slot: usize) -> Option<SetterView<'a>> {
        match self.category {
            CategoryView::Repeated { append_name } => if append_name == self.field.identifier@ {
                None
            } else {
                Some(
                    SetterView {
                        name: append_name,
                        slot,
                        kind: SetterKind::Append,
                        parameter: self.item_type()->Ok_0->0,
                    },
                )
            },
            _ => None,
        }
    }

    /// What finishing the builder does with the field's slot.
    pub open spec fn final_step(&self) -> FinalStep {
        match self.category {
            CategoryView::Required => FinalStep::Require,
            _ => FinalStep::CopyThrough,
        }
    }
}

impl<'a> FieldPlan<'a> {
    /// Reads the type of one item off the declared type of a repeated field.
    pub fn item_type(&self) -> (res: Result<Option<&'a TypeExpr>, GenerationError<'a>>)
        ensures
            res == self@.item_type(),
    {
        match &self.category {
            Category::Repeated { .. } => match classify(&self.field.declared_type) {
                Ok(TypeShape::RepeatedOf(item)) => Ok(Some(item)),
                Ok(_) => Err(
                    GenerationError {
                        kind: ErrorKind::ExpectedRepeatedType,
                        field: self.field,
                        node: Node::DeclaredType,
                    },
                ),
                Err(malformed) => Err(
                    GenerationError {
                        kind: ErrorKind::MalformedWrapper(malformed),
                        field: self.field,
                        node: Node::DeclaredType,
                    },
                ),
            },
            _ => Ok(None),
        }
    }

    /// The slot of the field in the accumulator.
    pub fn slot(&self) -> (res: Result<Slot<'a>, GenerationError<'a>>)
        ensures
            self@.item_type() matches Err(error) ==> res == Err::<Slot, GenerationError>(error),
            self@.item_type() is Ok ==> res == Ok::<Slot, GenerationError>(self@.slot()),
    {
        let storage = match &self.category {
            Category::Required => Storage::AbsentCapable { holds: &self.field.declared_type },
            Category::Optional { inner } => Storage::AbsentCapable { holds: *inner },
            Category::Repeated { .. } => match self.item_type() {
                Err(error) => {
                    return Err(error);
                },
                Ok(Some(item)) => Storage::Collection { whole: &self.field.declared_type, item },
                Ok(None) => Storage::AbsentCapable { holds: &self.field.declared_type },
            },
        };
        Ok(Slot { field: &self.field.identifier, storage })
    }

    /// What a fresh accumulator holds for the field.
    pub fn initial(&self) -> (res: Initial)
        ensures
            res == self@.initial(),
    {
        match &self.category {
            Category::Repeated { .. } => Initial::Empty,
            _ => Initial::Absent,
        }
    }

    /// The setter that takes the whole value of the field.
    pub fn whole_setter(&self, slot: usize) -> (res: Setter<'a>)
        ensures
            res@ == self@.whole_setter(slot),
    {
        let parameter = match &self.category {
            Category::Optional { inner } => *inner,
            _ => &self.field.declared_type,
        };
        Setter { name: self.field.identifier.clone(), slot, kind: SetterKind::Overwrite, parameter }
    }

    /// The setter that appends one item, where the field has one.
    pub fn item_setter(&self, slot: usize) -> (res: Result<Option<Setter<'a>>, GenerationError<'a>>)
        ensures
            self@.item_type() matches Err(error) ==> res == Err::<Option<Setter>, GenerationError>(
                error,
            ),
            self@.item_type() is Ok ==> (res matches Ok(setter) && match setter {
                Some(s) => self@.item_setter(slot) == Some(s@),
                None => self@.item_setter(slot) is None,
            }),
    {
        match &self.category {
            Category::Repeated { directive } => match self.item_type() {
                Err(error) => Err(error),
                Ok(Some(item)) => {
                    if directive.name == self.field.identifier {
                        Ok(None)
                    } else {
                        Ok(
                            Some(
                                Setter {
                                    name: directive.name.clone(),
                                    slot,
                                    kind: SetterKind::Append,
                                    parameter: item,
                                },
                            ),
                        )
                    }
                },
                Ok(None) => Ok(None),
            },
            _ => Ok(None),
        }
    }

    /// What finishing the builder does with the field's slot.
    pub fn final_step(&self) -> (res: FinalStep)
        ensures
            res == self@.final_step(),
    {
        match &self.category {
            Category::Required => FinalStep::Require,
            _ => FinalStep::CopyThrough,
        }
    }
}

/// Whether no code can be generated for a plan.
pub open spec fn unfit(plan: PlanView<'_>) -> bool {
    plan.item_type() is Err
}

/// The slots of the accumulator: one for each plan, in order.
pub open spec fn slots_of<'a>(plans: Seq<PlanView<'a>>) -> Seq<Slot<'a>> {
    Seq::new(plans.len(), |i: int| plans[i].slot())
}

/// The setters of whole values: one for each plan, in order.
pub open spec fn whole_setters_of<'a>(plans: Seq<PlanView<'a>>) -> Seq<SetterView<'a>> {
    Seq::new(plans.len(), |i: int| plans[i].whole_setter(i as usize))
}

/// The setters of one item that the first `n` plans have, in order.
pub open spec fn item_setters_of<'a>(plans: Seq<PlanView<'a>>, n: nat) -> Seq<SetterView<'a>>
    decreases n,
{
    if n == 0 {
        Seq::empty()
    } else {
        let before = item_setters_of(plans, (n - 1) as nat);
        match plans[n - 1].item_setter((n - 1) as usize) {
            Some(setter) => before.push(setter),
            None => before,
        }
    }
}

/// All the setters: those of whole values, then those of one item.
pub open spec fn setters_of<'a>(plans: Seq<PlanView<'a>>) -> Seq<SetterView<'a>> {
    whole_setters_of(plans) + item_setters_of(plans, plans.len())
}

/// The steps of the finishing operation: one for each plan, in order.
pub open spec fn finalization_of(plans: Seq<PlanView<'_>>) -> Seq<FinalStep> {
    Seq::new(plans.len(), |i: int| plans[i].final_step())
}

/// What a fresh accumulator holds: one entry for each plan, in order.
pub open spec fn factory_of(plans: Seq<PlanView<'_>>) -> Seq<Initial> {
    Seq::new(plans.len(), |i: int| plans[i].initial())
}

/// The code artifacts of a record with these plans.
pub open spec fn artifacts_of<'a>(record: &'a String, plans: Seq<PlanView<'a>>) -> Artifacts<'a> {
    Artifacts {
        record,
        slots: slots_of(plans),
        setters: setters_of(plans),
        finalization: finalization_of(plans),
        factory: factory_of(plans),
    }
}

/// The outcome of synthesis: the artifacts, or the error of the first plan
/// for which no code can be generated.
pub open spec fn synthesized<'a>(record: &'a String, plans: Seq<PlanView<'a>>) -> Result<
    Artifacts<'a>,
    GenerationError<'a>,
> {
    match first(plans, |p: PlanView<'a>| unfit(p)) {
        Some(i) => Err(plans[i].item_type()->Err_0),
        None => Ok(artifacts_of(record, plans)),
    }
}

/// The outcome of a whole pass over a record, given the readings of the
/// string literals of the annotations: every field is planned, and the first
/// that has no plan ends the pass; then code is generated for the plans.
pub open spec fn derived<'a>(record: &'a RecordDeclaration, readings: Seq<Seq<Reading>>) -> Result<
    Artifacts<'a>,
    GenerationError<'a>,
> {
    match planned_fields(record.fields@, readings) {
        Err(error) => Err(error),
        Ok(plans) => synthesized(&record.name, plans),
    }
}

/// The outcome of generating code, with the names of the setters as plain
/// text.
pub open spec fn artifacts_view<'a>(res: Result<CodeArtifacts<'a>, GenerationError<'a>>) -> Result<
    Artifacts<'a>,
    GenerationError<'a>,
> {
    match res {
        Ok(artifacts) => Ok(artifacts@),
        Err(error) => Err(error),
    }
}

/// The position, among all the setters, of the setter of one item that the
/// plan at `i` has: after the setters of whole values and after the setters
/// of one item of the plans before it.
pub open spec fn item_setter_index(plans: Seq<PlanView<'_>>, i: int) -> int {
    (plans.len() + item_setters_of(plans, i as nat).len()) as int
}

/// The plan from which the setter at position `j` comes, among the setters of
/// one item that the first `n` plans have.
pub open spec fn item_setter_origin(plans: Seq<PlanView<'_>>, n: nat, j: int) -> int
    decreases n,
{
    if n == 0 {
        0
    } else if plans[n - 1].item_setter((n - 1) as usize) is Some && j == item_setters_of(
        plans,
        (n - 1) as nat,
    ).len() {
        n - 1
    } else {
        item_setter_origin(plans, (n - 1) as nat, j)
    }
}

/// Each setter of one item comes from a plan that has one, and stands after
/// those of the plans before it.
pub proof fn lemma_item_setter_origin(plans: Seq<PlanView<'_>>, n: nat, j: int)
    requires
        n <= plans.len(),
        0 <= j < item_setters_of(plans, n).len(),
    ensures
        ({
            let k = item_setter_origin(plans, n, j);
            &&& 0 <= k < n
            &&& plans[k].item_setter(k as usize) == Some(item_setters_of(plans, n)[j])
            &&& item_setters_of(plans, k as nat).len() == j
        }),
    decreases n,
{
    if n > 0 {
        let before = item_setters_of(plans, (n - 1) as nat);
        if plans[n - 1].item_setter((n - 1) as usize) is Some && j == before.len() {
        } else {
            lemma_item_setter_origin(plans, (n - 1) as nat, j);
        }
    }
}

/// The setter of one item that plan `k` has stands at the position that is
/// the number of such setters of the plans before it.
pub proof fn lemma_item_setter_position(plans: Seq<PlanView<'_>>, k: int, n: nat)
    requires
        0 <= k < n <= plans.len(),
        plans[k].item_setter(k as usize) is Some,
    ensures
        ({
            let j = item_setters_of(plans, k as nat).len() as int;
            &&& j < item_setters_of(plans, n).len()
            &&& item_setters_of(plans, n)[j] == plans[k].item_setter(k as usize)->0
        }),
    decreases n,
{
    if k < n - 1 {
        lemma_item_setter_position(plans, k, (n - 1) as nat);
    }
}

/// The artifacts of any plans belong together.
pub proof fn lemma_artifacts_wf<'a>(record: &'a String, plans: Seq<PlanView<'a>>)
    requires
        plans.len() <= usize::MAX,
    ensures
        artifacts_of(record, plans).wf(),
{
    let a = artifacts_of(record, plans);
    let n = plans.len();
    assert forall|j: int| 0 <= j < a.setters.len() implies (#[trigger] a.setters[j]).slot
        < a.slots.len() && (a.setters[j].kind == SetterKind::Append
        ==> a.slots[a.setters[j].slot as int].storage is Collection) by {
        if j >= n {
            lemma_item_setter_origin(plans, n, j - n);
        }
    }
}

/// Lays out the accumulator: the slot of each plan, in order.
pub fn struct_decl<'a>(plans: &Vec<FieldPlan<'a>>) -> (res: Result<
    Vec<Slot<'a>>,
    GenerationError<'a>,
>)
    ensures
        first(plan_views(plans@), |p: PlanView<'a>| unfit(p)) matches Some(i) ==> res == Err::<
            Vec<Slot>,
            GenerationError,
        >(plan_views(plans@)[i].item_type()->Err_0),
        first(plan_views(plans@), |p: PlanView<'a>| unfit(p)) is None ==> (res matches Ok(slots)
            && slots@ == slots_of(plan_views(plans@))),
{
    let ghost views = plan_views(plans@);
    let ghost p = |p: PlanView<'a>| unfit(p);
    let n: usize = plans.len();
    let mut slots: Vec<Slot<'a>> = Vec::new();
    let mut i: usize = 0;
    while i < n
        invariant
            n == plans@.len(),
            0 <= i <= n,
            views == plan_views(plans@),
            p == (|p: PlanView<'a>| unfit(p)),
            forall|j: int| 0 <= j < i ==> !p(#[trigger] views[j]),
            slots@.len() == i,
            forall|j: int| 0 <= j < i ==> #[trigger] slots@[j] == views[j].slot(),
        decreases n - i,
    {
        match plans[i].slot() {
            Err(error) => {
                proof {
                    lemma_first_in_at(views, p, i as int, n as nat);
                }
                return Err(error);
            },
            Ok(slot) => {
                slots.push(slot);
            },
        }
        i = i + 1;
    }
    proof {
        lemma_first_in_none(views, p, n as nat);
        assert(slots@ =~= slots_of(views));
    }
    Ok(slots)
}

/// Writes the operations of the accumulator: the setters of whole values,
/// the setters of one item, and the steps of the finishing operation.
pub fn builder_impl<'a>(plans: &Vec<FieldPlan<'a>>) -> (res: Result<
    (Vec<Setter<'a>>, Vec<FinalStep>),
    GenerationError<'a>,
>)
    ensures
        first(plan_views(plans@), |p: PlanView<'a>| unfit(p)) matches Some(i) ==> res == Err::<
            (Vec<Setter>, Vec<FinalStep>),
            GenerationError,
        >(plan_views(plans@)[i].item_type()->Err_0),
        first(plan_views(plans@), |p: PlanView<'a>| unfit(p)) is None ==> (res matches Ok(ops)
            && setter_views(ops.0@) == setters_of(plan_views(plans@)) && ops.1@
            == finalization_of(plan_views(plans@))),
{
    let ghost views = plan_views(plans@);
    let ghost p = |p: PlanView<'a>| unfit(p);
    let n: usize = plans.len();

    let mut setters: Vec<Setter<'a>> = Vec::new();
    let mut i: usize = 0;
    while i < n
        invariant
            n == plans@.len(),
            0 <= i <= n,
            views == plan_views(plans@),
            setters@.len() == i,
            forall|j: int|
                0 <= j < i ==> (#[trigger] setters@[j])@ == views[j].whole_setter(j as usize),
        decreases n - i,
    {
        setters.push(plans[i].whole_setter(i));
        i = i + 1;
    }
    assert(setter_views(setters@) =~= whole_setters_of(views));

    let mut single_setters: Vec<Setter<'a>> = Vec::new();
    let mut i: usize = 0;
    while i < n
        invariant
            n == plans@.len(),
            0 <= i <= n,
            views == plan_views(plans@),
            p == (|p: PlanView<'a>| unfit(p)),
            forall|j: int| 0 <= j < i ==> !p(#[trigger] views[j]),
            setter_views(single_setters@) == item_setters_of(views, i as nat),
        decreases n - i,
    {
        match plans[i].item_setter(i) {
            Err(error) => {
                proof {
                    lemma_first_in_at(views, p, i as int, n as nat);
                }
                return Err(error);
            },
            Ok(Some(setter)) => {
                let ghost before = single_setters@;
                single_setters.push(setter);
                assert(setter_views(single_setters@) =~= setter_views(before).push(setter@));
            },
            Ok(None) => {},
        }
        i = i + 1;
    }
    proof {
        lemma_first_in_none(views, p, n as nat);
    }
    let ghost whole = setters@;
    let ghost single = single_setters@;
    setters.append(&mut single_setters);
    assert(setter_views(setters@) =~= setter_views(whole) + setter_views(single));

    let mut finalization: Vec<FinalStep> = Vec::new();
    let mut i: usize = 0;
    while i < n
        invariant
            n == plans@.len(),
            0 <= i <= n,
            views == plan_views(plans@),
            finalization@.len() == i,
            forall|j: int| 0 <= j < i ==> #[trigger] finalization@[j] == views[j].final_step(),
        decreases n - i,
    {
        finalization.push(plans[i].final_step());
        i = i + 1;
    }
    assert(finalization@ =~= finalization_of(views));
    Ok((setters, finalization))
}

/// Generates the code artifacts of a record from the plans of its fields.
/// The first plan for which no code can be generated ends the pass with its
/// error, and then there are no artifacts at all.
pub fn synthesize<'a>(record_name: &'a String, plans: &Vec<FieldPlan<'a>>) -> (res: Result<
    CodeArtifacts<'a>,
    GenerationError<'a>,
>)
    ensures
        res matches Ok(artifacts) ==> artifacts@.wf() && synthesized(
            record_name,
            plan_views(plans@),
        ) == Ok::<Artifacts, GenerationError>(artifacts@),
        res matches Err(error) ==> synthesized(record_name, plan_views(plans@)) == Err::<
            Artifacts,
            GenerationError,
        >(error),
{
    let ghost views = plan_views(plans@);
    let slots = match struct_decl(plans) {
        Err(error) => {
            return Err(error);
        },
        Ok(slots) => slots,
    };
    let (setters, finalization) = match builder_impl(plans) {
        Err(error) => {
            return Err(error);
        },
        Ok(ops) => ops,
    };
    let n: usize = plans.len();
    let mut factory: Vec<Initial> = Vec::new();
    let mut i: usize = 0;
    while i < n
        invariant
            n == plans@.len(),
            0 <= i <= n,
            views == plan_views(plans@),
            factory@.len() == i,
            forall|j: int| 0 <= j < i ==> #[trigger] factory@[j] == views[j].initial(),
        decreases n - i,
    {
        factory.push(plans[i].initial());
        i = i + 1;
    }
    assert(factory@ =~= factory_of(views));
    proof {
        lemma_artifacts_wf(record_name, views);
    }
    Ok(CodeArtifacts { record: record_name, slots, setters, finalization, factory })
}

/// Derives the builder of a record: plans its fields and generates the code
/// artifacts. On an error nothing is generated. The outcome is what follows
/// from some readings of the string literals of the annotations.
pub fn impl_derive_builder<'a>(record: &'a RecordDeclaration) -> (res: Result<
    CodeArtifacts<'a>,
    GenerationError<'a>,
>)
    ensures
        res matches Ok(artifacts) ==> artifacts@.wf(),
        exists|readings: Seq<Seq<Reading>>|
            readings_fit(record.fields@, readings) && #[trigger] derived(record, readings)
                == artifacts_view(res),
{
    let planned = plan_fields(&record.fields);
    let ghost readings = choose|readings: Seq<Seq<Reading>>|
        readings_fit(record.fields@, readings) && #[trigger] planned_fields(
            record.fields@,
            readings,
        ) == plans_view(planned);
    let res = match planned {
        Err(error) => Err(error),
        Ok(plans) => synthesize(&record.name, &plans),
    };
    assert(derived(record, readings) == artifacts_view(res));
    res
}

} // verus!
