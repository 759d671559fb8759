//! What holds of every builder that is generated.

use vstd::prelude::*;
use crate::annotations::Reading;
use crate::error::{GenerationError, MissingField};
use crate::model::{ArgumentView, Call, State, StoredView};
use crate::plan::{plan_outcomes, planned, planned_fields, unplannable, PlanView};
use crate::record::RecordDeclaration;
use crate::search::{lemma_first_in, lemma_first_in_at};
use crate::synth::{
    artifacts_of, derived, item_setter_index, lemma_artifacts_wf, lemma_item_setter_origin,
    lemma_item_setter_position, Artifacts, FinalStep, SetterKind,
};
use crate::types::TypeShape;

verus! {

/// What a pass over a record generates, where it generates anything, are the
/// artifacts of the plans of its fields, and each field has its plan.
pub proof fn lemma_derived<'a>(record: &'a RecordDeclaration, readings: Seq<Seq<Reading>>)
    requires
        derived(record, readings) is Ok,
    ensures
        planned_fields(record.fields@, readings) matches Ok(plans) && plans.len()
            == record.fields@.len() && derived(record, readings) == Ok::<
            Artifacts,
            GenerationError,
        >(artifacts_of(&record.name, plans)) && artifacts_of(&record.name, plans).wf()
            && forall|i: int|
            0 <= i < plans.len() ==> planned(&record.fields@[i], readings[i]) == Ok::<
                PlanView,
                GenerationError,
            >(#[trigger] plans[i]),
{
    let fields = record.fields@;
    let given = plan_outcomes(fields, readings);
    let plans = planned_fields(fields, readings)->Ok_0;
    lemma_first_in(
        given,
        |o: Result<PlanView<'a>, GenerationError<'a>>| unplannable(o),
        given.len(),
    );
    assert(record.fields.len() == fields.len());
    lemma_artifacts_wf(&record.name, plans);
    assert forall|i: int| 0 <= i < plans.len() implies planned(&fields[i], readings[i]) == Ok::<
        PlanView,
        GenerationError,
    >(#[trigger] plans[i]) by {
        assert(!unplannable(given[i]));
    }
}

/// A fresh accumulator has the form that the slots lay down.
pub proof fn lemma_fresh_fits<V>(a: Artifacts<'_>)
    requires
        a.wf(),
    ensures
        a.fits(a.fresh::<V>()),
{
}

/// A call leaves every slot but the one that it writes as it was, and keeps
/// the form of the state.
pub proof fn lemma_after<V>(a: Artifacts<'_>, state: State<V>, call: Call<V>)
    requires
        a.wf(),
        a.fits(state),
    ensures
        a.fits(a.after(state, call)),
        forall|i: int|
            0 <= i < state.len() && !a.writes(call, i) ==> #[trigger] a.after(state, call)[i]
                == state[i],
{
}

/// Calls keep the form of the state.
pub proof fn lemma_run_fits<V>(a: Artifacts<'_>, state: State<V>, calls: Seq<Call<V>>)
    requires
        a.wf(),
        a.fits(state),
    ensures
        a.fits(a.run(state, calls)),
    decreases calls.len(),
{
    if calls.len() > 0 {
        lemma_run_fits(a, state, calls.drop_last());
        lemma_after(a, a.run(state, calls.drop_last()), calls.last());
    }
}

/// Running two sequences of calls one after the other is running them as
/// one.
pub proof fn lemma_run_concat<V>(
    a: Artifacts<'_>,
    state: State<V>,
    first: Seq<Call<V>>,
    second: Seq<Call<V>>,
)
    ensures
        a.run(state, first + second) == a.run(a.run(state, first), second),
    decreases second.len(),
{
    if second.len() == 0 {
        assert(first + second =~= first);
    } else {
        assert((first + second).drop_last() =~= first + second.drop_last());
        assert((first + second).last() == second.last());
        lemma_run_concat(a, state, first, second.drop_last());
    }
}

/// A slot that can be absent is absent after some calls exactly when it was
/// absent before and none of the calls wrote it.
pub proof fn lemma_absent_iff_never_set<V>(
    a: Artifacts<'_>,
    state: State<V>,
    calls: Seq<Call<V>>,
    slot: int,
)
    requires
        a.wf(),
        a.fits(state),
        0 <= slot < a.slots.len(),
        a.slots[slot].storage is AbsentCapable,
    ensures
        a.run(state, calls)[slot] is Absent <==> state[slot] is Absent && !a.was_set(calls, slot),
    decreases calls.len(),
{
    if calls.len() > 0 {
        let front = calls.drop_last();
        let mid = a.run(state, front);
        lemma_absent_iff_never_set(a, state, front, slot);
        lemma_run_fits(a, state, front);
        lemma_after(a, mid, calls.last());
        if a.writes(calls.last(), slot) {
            assert(a.writes(calls[calls.len() - 1], slot));
        } else {
            if a.was_set(calls, slot) {
                let k = choose|k: int| 0 <= k < calls.len() && a.writes(#[trigger] calls[k], slot);
                assert(a.writes(front[k], slot));
            }
            if a.was_set(front, slot) {
                let k = choose|k: int| 0 <= k < front.len() && a.writes(#[trigger] front[k], slot);
                assert(a.writes(calls[k], slot));
            }
        }
    }
}

/// Finishing succeeds exactly when no required field is absent, and then the
/// record holds what the slots held. Where it fails, the error names the
/// first required field, in declaration order, that is absent.
pub proof fn lemma_finished<V>(a: Artifacts<'_>, state: State<V>)
    requires
        a.wf(),
        a.fits(state),
    ensures
        a.finished(state) is Ok <==> forall|i: int|
            0 <= i < state.len() ==> !(a.finalization[i] == FinalStep::Require
                && #[trigger] state[i] is Absent),
        a.finished(state) is Ok ==> a.finished(state) == Ok::<State<V>, MissingField>(state),
        forall|i: int|
            0 <= i < state.len() && a.finalization[i] == FinalStep::Require && state[i] is Absent
                && (forall|j: int|
                0 <= j < i ==> !(a.finalization[j] == FinalStep::Require
                    && #[trigger] state[j] is Absent)) ==> a.finished(state) == Err::<
                State<V>,
                MissingField,
            >(MissingField { field: a.slots[i].field }),
{
    let missing = a.missing(state);
    let p = |b: bool| b;
    lemma_first_in(missing, p, missing.len());
    if a.finished(state) is Ok {
        assert forall|i: int| 0 <= i < state.len() implies !(a.finalization[i]
            == FinalStep::Require && #[trigger] state[i] is Absent) by {
            assert(!p(missing[i]));
        }
    }
    assert forall|i: int|
        0 <= i < state.len() && a.finalization[i] == FinalStep::Require && state[i] is Absent
            && (forall|j: int|
            0 <= j < i ==> !(a.finalization[j] == FinalStep::Require
                && #[trigger] state[j] is Absent)) implies a.finished(state) == Err::<
        State<V>,
        MissingField,
    >(MissingField { field: a.slots[i].field }) by {
        assert forall|j: int| 0 <= j < i implies !p(#[trigger] missing[j]) by {
            assert(!(a.finalization[j] == FinalStep::Require && state[j] is Absent));
        }
        lemma_first_in_at(missing, p, i, missing.len());
    }
}

/// A record of required fields only is built exactly when every field was
/// set at least once. Where one field was never set and every field before it
/// was, finishing fails with the error of a missing field that names it.
pub proof fn law_required_fields<'a, V>(
    record: &'a String,
    plans: Seq<PlanView<'a>>,
    calls: Seq<Call<V>>,
)
    requires
        plans.len() <= usize::MAX,
        forall|i: int| 0 <= i < plans.len() ==> (#[trigger] plans[i]).category is Required,
    ensures
        ({
            let a = artifacts_of(record, plans);
            let end = a.run(a.fresh::<V>(), calls);
            &&& a.finished(end) is Ok <==> forall|i: int|
                0 <= i < plans.len() ==> #[trigger] a.was_set(calls, i)
            &&& forall|i: int|
                0 <= i < plans.len() && !(#[trigger] a.was_set(calls, i)) && (forall|j: int|
                    0 <= j < i ==> #[trigger] a.was_set(calls, j)) ==> a.finished(end) == Err::<
                    State<V>,
                    MissingField,
                >(MissingField { field: &plans[i].field.identifier })
        }),
{
    let a = artifacts_of(record, plans);
    let start = a.fresh::<V>();
    let end = a.run(start, calls);
    lemma_artifacts_wf(record, plans);
    lemma_fresh_fits::<V>(a);
    lemma_run_fits(a, start, calls);
    lemma_finished(a, end);
    assert forall|i: int| 0 <= i < plans.len() implies (end[i] is Absent <==> !a.was_set(
        calls,
        i,
    )) by {
        lemma_absent_iff_never_set(a, start, calls, i);
    }
    if a.finished(end) is Ok {
        assert forall|i: int| 0 <= i < plans.len() implies #[trigger] a.was_set(calls, i) by {
            assert(!(a.finalization[i] == FinalStep::Require && end[i] is Absent));
        }
    }
    if forall|i: int| 0 <= i < plans.len() ==> #[trigger] a.was_set(calls, i) {
        assert forall|i: int| 0 <= i < end.len() implies !(a.finalization[i]
            == FinalStep::Require && #[trigger] end[i] is Absent) by {
            assert(a.was_set(calls, i));
        }
    }
    assert forall|i: int|
        0 <= i < plans.len() && !(#[trigger] a.was_set(calls, i)) && (forall|j: int|
            0 <= j < i ==> #[trigger] a.was_set(calls, j)) implies a.finished(end) == Err::<
        State<V>,
        MissingField,
    >(MissingField { field: &plans[i].field.identifier }) by {
        assert forall|j: int| 0 <= j < i implies !(a.finalization[j] == FinalStep::Require
            && #[trigger] end[j] is Absent) by {
            assert(a.was_set(calls, j));
        }
        assert(a.finalization[i] == FinalStep::Require && end[i] is Absent);
    }
}

/// An optional field never stops the finishing of the builder, and its field
/// in the record is absent exactly when it was never set.
pub proof fn law_optional_field<'a, V>(
    record: &'a String,
    plans: Seq<PlanView<'a>>,
    calls: Seq<Call<V>>,
    i: int,
)
    requires
        plans.len() <= usize::MAX,
        0 <= i < plans.len(),
        plans[i].category is Optional,
    ensures
        ({
            let a = artifacts_of(record, plans);
            let end = a.run(a.fresh::<V>(), calls);
            &&& a.first_missing(end) != Some(i)
            &&& a.finished(end) matches Ok(built) ==> (built[i] is Absent <==> !a.was_set(
                calls,
                i,
            ))
        }),
{
    let a = artifacts_of(record, plans);
    let start = a.fresh::<V>();
    let end = a.run(start, calls);
    lemma_artifacts_wf(record, plans);
    lemma_fresh_fits::<V>(a);
    lemma_run_fits(a, start, calls);
    lemma_absent_iff_never_set(a, start, calls, i);
    lemma_first_in(a.missing(end), |b: bool| b, a.missing(end).len());
}

/// A record without required fields is built whatever was set.
pub proof fn law_without_required_fields<'a, V>(
    record: &'a String,
    plans: Seq<PlanView<'a>>,
    calls: Seq<Call<V>>,
)
    requires
        plans.len() <= usize::MAX,
        forall|i: int| 0 <= i < plans.len() ==> !((#[trigger] plans[i]).category is Required),
    ensures
        ({
            let a = artifacts_of(record, plans);
            let end = a.run(a.fresh::<V>(), calls);
            a.finished(end) == Ok::<State<V>, MissingField>(end)
        }),
{
    let a = artifacts_of(record, plans);
    let start = a.fresh::<V>();
    let end = a.run(start, calls);
    lemma_artifacts_wf(record, plans);
    lemma_fresh_fits::<V>(a);
    lemma_run_fits(a, start, calls);
    lemma_finished(a, end);
    assert forall|i: int| 0 <= i < end.len() implies !(a.finalization[i] == FinalStep::Require
        && #[trigger] end[i] is Absent) by {
        assert(!(plans[i].category is Required));
    }
}

/// The setters that write the slot of a repeated field are the setter of the
/// whole collection and, where the field has one, its setter of one item.
pub proof fn lemma_setters_of_slot<'a>(record: &'a String, plans: Seq<PlanView<'a>>, i: int)
    requires
        plans.len() <= usize::MAX,
        0 <= i < plans.len(),
    ensures
        ({
            let a = artifacts_of(record, plans);
            let item = item_setter_index(plans, i);
            &&& a.setters[i] == plans[i].whole_setter(i as usize)
            &&& plans[i].item_setter(i as usize) matches Some(setter) ==> item < a.setters.len()
                && a.setters[item] == setter
            &&& forall|k: int|
                0 <= k < a.setters.len() && (#[trigger] a.setters[k]).slot == i ==> k == i || (
                plans[i].item_setter(i as usize) is Some && k == item)
        }),
{
    let a = artifacts_of(record, plans);
    let n = plans.len();
    if plans[i].item_setter(i as usize) is Some {
        lemma_item_setter_position(plans, i, n);
    }
    assert forall|k: int| 0 <= k < a.setters.len() && (#[trigger] a.setters[k]).slot == i implies k
        == i || (plans[i].item_setter(i as usize) is Some && k == item_setter_index(
        plans,
        i,
    )) by {
        if k >= n {
            lemma_item_setter_origin(plans, n, k - n);
        }
    }
}

/// For a repeated field whose directive gives a name other than the field's
/// identifier, two setters are generated: one under the identifier, which
/// takes a collection of the declared type and overwrites the whole
/// collection, and one under the directive's name, which takes one item of
/// the type inside `Vec` and appends it. No other setter writes the field's
/// slot.
pub proof fn law_repeated_field_setters<'a>(
    record: &'a String,
    plans: Seq<PlanView<'a>>,
    i: int,
)
    requires
        plans.len() <= usize::MAX,
        0 <= i < plans.len(),
        plans[i].category is Repeated,
        plans[i].category->append_name != plans[i].field.identifier@,
    ensures
        ({
            let a = artifacts_of(record, plans);
            let item = item_setter_index(plans, i);
            &&& a.setters[i].name == plans[i].field.identifier@
            &&& a.setters[i].kind == SetterKind::Overwrite
            &&& a.setters[i].slot == i
            &&& plans.len() <= item < a.setters.len()
            &&& a.setters[item].name == plans[i].category->append_name
            &&& a.setters[item].kind == SetterKind::Append
            &&& a.setters[item].slot == i
            &&& a.setters[i].parameter == &plans[i].field.declared_type
            &&& plans[i].field.declared_type.shape() matches Ok(TypeShape::RepeatedOf(inner))
                ==> a.setters[item].parameter == inner
            &&& forall|k: int|
                0 <= k < a.setters.len() && (#[trigger] a.setters[k]).slot == i ==> k == i || k
                    == item
        }),
{
    lemma_setters_of_slot(record, plans, i);
}

/// For a repeated field whose directive gives the field's own identifier,
/// one setter is generated and no second one under the same name: the setter
/// of the whole collection, which overwrites.
pub proof fn law_same_name_single_setter<'a>(
    record: &'a String,
    plans: Seq<PlanView<'a>>,
    i: int,
)
    requires
        plans.len() <= usize::MAX,
        0 <= i < plans.len(),
        plans[i].category is Repeated,
        plans[i].category->append_name == plans[i].field.identifier@,
    ensures
        ({
            let a = artifacts_of(record, plans);
            &&& a.setters[i].name == plans[i].field.identifier@
            &&& a.setters[i].kind == SetterKind::Overwrite
            &&& a.setters[i].slot == i
            &&& forall|k: int|
                0 <= k < a.setters.len() && (#[trigger] a.setters[k]).slot == i ==> k == i
        }),
{
    lemma_setters_of_slot(record, plans, i);
}

/// Calls of which none overwrites a collection leave in it what it held
/// before, and after that the items that they append, in the order of the
/// calls.
pub proof fn lemma_appends_only<V>(
    a: Artifacts<'_>,
    state: State<V>,
    calls: Seq<Call<V>>,
    slot: int,
)
    requires
        a.wf(),
        a.fits(state),
        0 <= slot < a.slots.len(),
        a.slots[slot].storage is Collection,
        forall|k: int| 0 <= k < calls.len() ==> !a.overwrites(#[trigger] calls[k], slot),
    ensures
        a.run(state, calls)[slot] == StoredView::Many(
            state[slot]->Many_0 + a.appended(calls, slot),
        ),
    decreases calls.len(),
{
    if calls.len() == 0 {
        assert(state[slot]->Many_0 + a.appended(calls, slot) =~= state[slot]->Many_0);
    } else {
        let front = calls.drop_last();
        let mid = a.run(state, front);
        assert forall|k: int| 0 <= k < front.len() implies !a.overwrites(
            #[trigger] front[k],
            slot,
        ) by {
            assert(front[k] == calls[k]);
        }
        lemma_appends_only(a, state, front, slot);
        lemma_run_fits(a, state, front);
        lemma_after(a, mid, calls.last());
        assert(!a.overwrites(calls[calls.len() - 1], slot));
        if a.appends(calls.last(), slot) {
            assert((state[slot]->Many_0 + a.appended(front, slot)).push(
                calls.last().argument->Value_0,
            ) =~= state[slot]->Many_0 + a.appended(calls, slot));
        }
    }
}

/// The last overwrite that `last_overwrite` finds is one, and no call after
/// it overwrites the slot; where it finds none, no call overwrites the slot.
pub proof fn lemma_last_overwrite<V>(a: Artifacts<'_>, calls: Seq<Call<V>>, slot: int)
    ensures
        a.last_overwrite(calls, slot) matches Some(k) ==> 0 <= k < calls.len() && a.overwrites(
            calls[k],
            slot,
        ) && forall|j: int| k < j < calls.len() ==> !a.overwrites(#[trigger] calls[j], slot),
        a.last_overwrite(calls, slot) is None ==> forall|j: int|
            0 <= j < calls.len() ==> !a.overwrites(#[trigger] calls[j], slot),
    decreases calls.len(),
{
    if calls.len() > 0 && !a.overwrites(calls.last(), slot) {
        let front = calls.drop_last();
        lemma_last_overwrite(a, front, slot);
        match a.last_overwrite(front, slot) {
            Some(k) => {
                assert forall|j: int| k < j < calls.len() implies !a.overwrites(
                    #[trigger] calls[j],
                    slot,
                ) by {
                    if j < front.len() {
                        assert(front[j] == calls[j]);
                    }
                }
            },
            None => {
                assert forall|j: int| 0 <= j < calls.len() implies !a.overwrites(
                    #[trigger] calls[j],
                    slot,
                ) by {
                    if j < front.len() {
                        assert(front[j] == calls[j]);
                    }
                }
            },
        }
    }
}

/// The collection of a repeated field holds, after any calls on a fresh
/// accumulator, what the last call of the setter of the whole collection put
/// there, or nothing where there was no such call, and after that the items
/// that the setter of one item appended since, in the order of the calls.
pub proof fn law_repeated_field_collects<'a, V>(
    record: &'a String,
    plans: Seq<PlanView<'a>>,
    calls: Seq<Call<V>>,
    i: int,
)
    requires
        plans.len() <= usize::MAX,
        0 <= i < plans.len(),
        plans[i].category is Repeated,
    ensures
        ({
            let a = artifacts_of(record, plans);
            let end = a.run(a.fresh::<V>(), calls);
            &&& end[i] == StoredView::Many(a.collected(calls, i))
            &&& a.finished(end) matches Ok(built) ==> built[i] == StoredView::Many(
                a.collected(calls, i),
            )
        }),
{
    let a = artifacts_of(record, plans);
    let start = a.fresh::<V>();
    lemma_artifacts_wf(record, plans);
    lemma_fresh_fits::<V>(a);
    lemma_last_overwrite(a, calls, i);
    match a.last_overwrite(calls, i) {
        None => {
            lemma_appends_only(a, start, calls, i);
            assert(Seq::<V>::empty() + a.appended(calls, i) =~= a.appended(calls, i));
        },
        Some(k) => {
            let upto = calls.subrange(0, k + 1);
            let since = calls.subrange(k + 1, calls.len() as int);
            assert(calls =~= upto + since);
            lemma_run_concat(a, start, upto, since);
            let mid = a.run(start, upto);
            lemma_run_fits(a, start, upto.drop_last());
            lemma_run_fits(a, start, upto);
            assert(upto.last() == calls[k]);
            assert(mid[i] == StoredView::Many(calls[k].argument->Collection_0));
            assert forall|j: int| 0 <= j < since.len() implies !a.overwrites(
                #[trigger] since[j],
                i,
            ) by {
                assert(since[j] == calls[k + 1 + j]);
            }
            lemma_appends_only(a, mid, since, i);
        },
    }
}

/// Two calls in a row of a setter that appends add their two items at the
/// end of the collection, in the order of the calls.
pub proof fn law_append_twice<V>(a: Artifacts<'_>, state: State<V>, setter: int, x: V, y: V)
    requires
        a.wf(),
        a.fits(state),
        0 <= setter < a.setters.len(),
        a.setters[setter].kind == SetterKind::Append,
    ensures
        ({
            let slot = a.setters[setter].slot as int;
            let calls = seq![
                Call { setter, argument: ArgumentView::Value(x) },
                Call { setter, argument: ArgumentView::Value(y) },
            ];
            a.run(state, calls)[slot] == StoredView::Many(state[slot]->Many_0.push(x).push(y))
        }),
{
    let slot = a.setters[setter].slot as int;
    let c1 = Call { setter, argument: ArgumentView::Value(x) };
    let c2 = Call { setter, argument: ArgumentView::Value(y) };
    let calls = seq![c1, c2];
    assert(calls.drop_last() =~= seq![c1]);
    assert(seq![c1].drop_last() =~= Seq::<Call<V>>::empty());
    assert(a.run(state, Seq::<Call<V>>::empty()) == state);
    assert(a.run(state, seq![c1]) == a.after(state, c1));
    assert(a.run(state, calls) == a.after(a.after(state, c1), c2));
}

/// Two calls that write different slots can be made in either order: the
/// state after them is the same.
pub proof fn law_calls_on_different_fields_commute<V>(
    a: Artifacts<'_>,
    state: State<V>,
    one: Call<V>,
    other: Call<V>,
)
    requires
        a.wf(),
        a.fits(state),
        a.accepts(one.setter, one.argument),
        a.accepts(other.setter, other.argument),
        a.setters[one.setter].slot != a.setters[other.setter].slot,
    ensures
        a.after(a.after(state, one), other) == a.after(a.after(state, other), one),
{
    assert(a.after(a.after(state, one), other) =~= a.after(a.after(state, other), one));
}

} // verus!
