//! What the generated builder does: an accumulator that is run against the
//! code artifacts, with one slot for each field.

use vstd::prelude::*;
use crate::error::MissingField;
use crate::search::{first, lemma_first_in_at, lemma_first_in_none};
use crate::synth::{
    Artifacts, CodeArtifacts, FinalStep, Initial, SetterKind, SetterView, Storage,
};
use crate::text::text_eq;

verus! {

/// What a slot of the accumulator holds, and what a field of the built
/// record holds.
#[derive(Debug, PartialEq, Eq)]
pub enum Stored<V> {
    /// Nothing.
    Absent,
    /// One value.
    Single(V),
    /// An ordered collection of items.
    Many(Vec<V>),
}

/// What a slot holds, with a collection as a sequence.
pub enum StoredView<V> {
    Absent,
    Single(V),
    Many(Seq<V>),
}

impl<V> View for Stored<V> {
    type V = StoredView<V>;

    open spec fn view(&self) -> StoredView<V> {
        match self {
            Stored::Absent => StoredView::Absent,
            Stored::Single(value) => StoredView::Single(*value),
            Stored::Many(items) => StoredView::Many(items@),
        }
    }
}

/// The argument of a call of a setter.
#[derive(Debug, PartialEq, Eq)]
pub enum Argument<V> {
    /// One value: the whole value of a field, or one item of a collection.
    Value(V),
    /// A whole collection.
    Collection(Vec<V>),
}

/// An argument, with a collection as a sequence.
pub enum ArgumentView<V> {
    Value(V),
    Collection(Seq<V>),
}

impl<V> View for Argument<V> {
    type V = ArgumentView<V>;

    open spec fn view(&self) -> ArgumentView<V> {
        match self {
            Argument::Value(value) => ArgumentView::Value(*value),
            Argument::Collection(items) => ArgumentView::Collection(items@),
        }
    }
}

/// Why a call of a setter is turned down.
#[derive(Clone, Copy, Debug, PartialEq, Eq, Structural)]
pub enum CallError {
    /// The accumulator has no setter at that position.
    UnknownSetter,
    /// The setter does not take an argument of that form.
    WrongArgument,
}

/// The views of a sequence of slot contents.
pub open spec fn stored_views<V>(slots: Seq<Stored<V>>) -> Seq<StoredView<V>> {
    slots.map_values(|s: Stored<V>| s@)
}

/// The contents of the slots of an accumulator, in the order of the fields.
pub type State<V> = Seq<StoredView<V>>;

impl<'a> Artifacts<'a> {
    /// What a fresh accumulator holds: nothing in a slot that can be absent,
    /// and the empty collection in a collection.
    pub open spec fn fresh<V>(&self) -> State<V> {
        Seq::new(
            self.factory.len(),
            |i: int|
                match self.factory[i] {
                    Initial::Absent => StoredView::Absent,
                    Initial::Empty => StoredView::Many(Seq::empty()),
                },
        )
    }

    /// Whether a state has the form that the slots lay down: one entry for
    /// each slot, and a collection exactly where the slot is one.
    pub open spec fn fits<V>(&self, state: State<V>) -> bool {
        &&& state.len() == self.slots.len()
        &&& forall|i: int|
            0 <= i < state.len() ==> (#[trigger] state[i] is Many
                <==> self.slots[i].storage is Collection)
    }

    /// Whether the setter at `setter` takes `argument`. One that overwrites
    /// takes a value for a slot that can be absent and a collection for a
    /// collection; one that appends takes a value.
    pub open spec fn accepts<V>(&self, setter: int, argument: ArgumentView<V>) -> bool {
        &&& 0 <= setter < self.setters.len()
        &&& {
            let storage = self.slots[self.setters[setter].slot as int].storage;
            match (self.setters[setter].kind, argument) {
                (SetterKind::Overwrite, ArgumentView::Value(_)) => storage is AbsentCapable,
                (SetterKind::Overwrite, ArgumentView::Collection(_)) => storage is Collection,
                (SetterKind::Append, ArgumentView::Value(_)) => true,
                (SetterKind::Append, ArgumentView::Collection(_)) => false,
            }
        }
    }

    /// The state after a call that the setter takes. Overwriting puts the
    /// argument in place of what the slot held, whatever that was; appending
    /// adds the argument at the end of the collection.
    pub open spec fn effect<V>(
        &self,
        state: State<V>,
        setter: int,
        argument: ArgumentView<V>,
    ) -> State<V> {
        let slot = self.setters[setter].slot as int;
        match (self.setters[setter].kind, argument) {
            (SetterKind::Overwrite, ArgumentView::Value(value)) => state.update(
                slot,
                StoredView::Single(value),
            ),
            (SetterKind::Overwrite, ArgumentView::Collection(items)) => state.update(
                slot,
                StoredView::Many(items),
            ),
            (SetterKind::Append, ArgumentView::Value(value)) => state.update(
                slot,
                StoredView::Many(state[slot]->Many_0.push(value)),
            ),
            (SetterKind::Append, ArgumentView::Collection(_)) => state,
        }
    }

    /// The outcome of a call: the next state, or why the call is turned down.
    pub open spec fn step<V>(
        &self,
        state: State<V>,
        setter: int,
        argument: ArgumentView<V>,
    ) -> Result<State<V>, CallError> {
        if !(0 <= setter < self.setters.len()) {
            Err(CallError::UnknownSetter)
        } else if !self.accepts(setter, argument) {
            Err(CallError::WrongArgument)
        } else {
            Ok(self.effect(state, setter, argument))
        }
    }

    /// Whether finishing stops at each slot: the field is required and the
    /// slot is absent.
    pub open spec fn missing<V>(&self, state: State<V>) -> Seq<bool> {
        Seq::new(
            state.len(),
            |i: int| self.finalization[i] == FinalStep::Require && state[i] is Absent,
        )
    }

    /// The first slot, in declaration order, at which finishing stops.
    pub open spec fn first_missing<V>(&self, state: State<V>) -> Option<int> {
        first(self.missing(state), |b: bool| b)
    }

    /// The outcome of finishing: the record, which holds for each field what
    /// its slot held, or the error of the first required field that was never
    /// set.
    pub open spec fn finished<V>(&self, state: State<V>) -> Result<State<V>, MissingField<'a>> {
        match self.first_missing(state) {
            Some(i) => Err(MissingField { field: self.slots[i].field }),
            None => Ok(state),
        }
    }

    /// The position of the first setter that bears `name`.
    pub open spec fn named(&self, name: Seq<char>) -> Option<int> {
        first(self.setters, |s: SetterView<'a>| s.name == name)
    }
}

/// One call of a setter: the position of the setter, and the argument.
pub struct Call<V> {
    pub setter: int,
    pub argument: ArgumentView<V>,
}

impl<'a> Artifacts<'a> {
    /// The state after one call: a call that is turned down changes nothing.
    pub open spec fn after<V>(&self, state: State<V>, call: Call<V>) -> State<V> {
        match self.step(state, call.setter, call.argument) {
            Ok(next) => next,
            Err(_) => state,
        }
    }

    /// The state after a sequence of calls, made in order.
    pub open spec fn run<V>(&self, state: State<V>, calls: Seq<Call<V>>) -> State<V>
        decreases calls.len(),
    {
        if calls.len() == 0 {
            state
        } else {
            self.after(self.run(state, calls.drop_last()), calls.last())
        }
    }

    /// Whether a call writes the slot at `slot`: its setter takes the
    /// argument and is a setter of that slot.
    pub open spec fn writes<V>(&self, call: Call<V>, slot: int) -> bool {
        self.accepts(call.setter, call.argument) && self.setters[call.setter].slot == slot
    }

    /// Whether a call overwrites the slot at `slot`.
    pub open spec fn overwrites<V>(&self, call: Call<V>, slot: int) -> bool {
        self.writes(call, slot) && self.setters[call.setter].kind == SetterKind::Overwrite
    }

    /// Whether a call appends to the slot at `slot`.
    pub open spec fn appends<V>(&self, call: Call<V>, slot: int) -> bool {
        self.writes(call, slot) && self.setters[call.setter].kind == SetterKind::Append
    }

    /// Whether one of the calls writes the slot at `slot`.
    pub open spec fn was_set<V>(&self, calls: Seq<Call<V>>, slot: int) -> bool {
        exists|k: int| 0 <= k < calls.len() && self.writes(#[trigger] calls[k], slot)
    }

    /// The items that the calls append to the slot at `slot`, in the order of
    /// the calls.
    pub open spec fn appended<V>(&self, calls: Seq<Call<V>>, slot: int) -> Seq<V>
        decreases calls.len(),
    {
        if calls.len() == 0 {
            Seq::empty()
        } else {
            let before = self.appended(calls.drop_last(), slot);
            if self.appends(calls.last(), slot) {
                before.push(calls.last().argument->Value_0)
            } else {
                before
            }
        }
    }

    /// The position of the last call that overwrites the slot at `slot`.
    pub open spec fn last_overwrite<V>(&self, calls: Seq<Call<V>>, slot: int) -> Option<int>
        decreases calls.len(),
    {
        if calls.len() == 0 {
            None
        } else if self.overwrites(calls.last(), slot) {
            Some(calls.len() - 1)
        } else {
            self.last_overwrite(calls.drop_last(), slot)
        }
    }

    /// What the calls leave in a collection that was empty before them: the
    /// collection that the last overwrite put there, or the empty one where
    /// there was none, and after it the items appended since, in the order of
    /// the calls.
    pub open spec fn collected<V>(&self, calls: Seq<Call<V>>, slot: int) -> Seq<V> {
        match self.last_overwrite(calls, slot) {
            Some(k) => calls[k].argument->Collection_0 + self.appended(
                calls.subrange(k + 1, calls.len() as int),
                slot,
            ),
            None => self.appended(calls, slot),
        }
    }
}

impl<'a> CodeArtifacts<'a> {
    /// Finds the first setter that bears `name`.
    pub fn setter_named(&self, name: &str) -> (res: Option<usize>)
        ensures
            res matches Some(j) ==> self@.named(name@) == Some(j as int),
            res is None ==> self@.named(name@) is None,
    {
        let ghost p = |s: SetterView<'a>| s.name == name@;
        let m: usize = self.setters.len();
        let mut j: usize = 0;
        while j < m
            invariant
                m == self.setters@.len(),
                0 <= j <= m,
                p == (|s: SetterView<'a>| s.name == name@),
                forall|k: int| 0 <= k < j ==> !p(#[trigger] self@.setters[k]),
            decreases m - j,
        {
            assert(self@.setters[j as int] == self.setters@[j as int]@);
            if text_eq(self.setters[j].name.as_str(), name) {
                proof {
                    lemma_first_in_at(self@.setters, p, j as int, m as nat);
                }
                return Some(j);
            }
            j = j + 1;
        }
        proof {
            lemma_first_in_none(self@.setters, p, m as nat);
        }
        None
    }
}

/// The accumulator of a builder: one slot for each field of the record.
pub struct Accumulator<'b, 'a, V> {
    artifacts: &'b CodeArtifacts<'a>,
    slots: Vec<Stored<V>>,
}

impl<'b, 'a, V> View for Accumulator<'b, 'a, V> {
    type V = State<V>;

    closed spec fn view(&self) -> State<V> {
        stored_views(self.slots@)
    }
}

impl<'b, 'a, V> Accumulator<'b, 'a, V> {
    /// The artifacts that the accumulator is run against.
    pub closed spec fn artifacts(&self) -> &'b CodeArtifacts<'a> {
        self.artifacts
    }

    /// Whether the accumulator is sound: its artifacts belong together, and
    /// its slots have the form that they lay down.
    pub open spec fn wf(&self) -> bool {
        &&& self.artifacts()@.wf()
        &&& self.artifacts()@.fits(self@)
    }

    /// Makes a fresh accumulator for artifacts that belong together, and
    /// none for others.
    pub fn new(artifacts: &'b CodeArtifacts<'a>) -> (res: Option<Self>)
        ensures
            res is Some <==> artifacts@.wf(),
            res matches Some(accumulator) ==> accumulator.wf() && accumulator.artifacts()
                == artifacts && accumulator@ == artifacts@.fresh::<V>(),
    {
        if !artifacts.is_consistent() {
            return None;
        }
        let n: usize = artifacts.factory.len();
        let mut slots: Vec<Stored<V>> = Vec::new();
        let mut i: usize = 0;
        while i < n
            invariant
                n == artifacts.factory@.len(),
                0 <= i <= n,
                slots@.len() == i,
                forall|k: int| 0 <= k < i ==> (#[trigger] slots@[k])@ == artifacts@.fresh::<V>()[k],
            decreases n - i,
        {
            let initial = match artifacts.factory[i] {
                Initial::Absent => Stored::Absent,
                Initial::Empty => Stored::Many(Vec::new()),
            };
            slots.push(initial);
            i = i + 1;
        }
        assert(stored_views(slots@) =~= artifacts@.fresh::<V>());
        Some(Accumulator { artifacts, slots })
    }

    /// What the slots hold now, in the order of the fields.
    pub fn slots(&self) -> (res: &Vec<Stored<V>>)
        ensures
            stored_views(res@) == self@,
    {
        &self.slots
    }

    /// Calls the setter at position `setter` with `argument`. A call that the
    /// setter does not take leaves the accumulator as it was.
    pub fn call(&mut self, setter: usize, argument: Argument<V>) -> (res: Result<(), CallError>)
        requires
            old(self).wf(),
        ensures
            final(self).wf(),
            final(self).artifacts() == old(self).artifacts(),
            old(self).artifacts()@.step(old(self)@, setter as int, argument@) matches Ok(next)
                ==> res is Ok && final(self)@ == next,
            old(self).artifacts()@.step(old(self)@, setter as int, argument@) matches Err(error)
                ==> res == Err::<(), CallError>(error) && final(self)@ == old(self)@,
    {
        if setter >= self.artifacts.setters.len() {
            return Err(CallError::UnknownSetter);
        }
        let target = &self.artifacts.setters[setter];
        assert(self.artifacts@.setters[setter as int] == target@);
        let slot: usize = target.slot;
        let collection = match self.artifacts.slots[slot].storage {
            Storage::Collection { .. } => true,
            Storage::AbsentCapable { .. } => false,
        };
        let ghost before = self.slots@;
        match (target.kind, argument) {
            (SetterKind::Overwrite, Argument::Value(value)) => {
                if collection {
                    return Err(CallError::WrongArgument);
                }
                self.slots.remove(slot);
                self.slots.insert(slot, Stored::Single(value));
                assert(stored_views(self.slots@) =~= stored_views(before).update(
                    slot as int,
                    StoredView::Single(value),
                ));
                Ok(())
            },
            (SetterKind::Overwrite, Argument::Collection(items)) => {
                if !collection {
                    return Err(CallError::WrongArgument);
                }
                self.slots.remove(slot);
                self.slots.insert(slot, Stored::Many(items));
                assert(stored_views(self.slots@) =~= stored_views(before).update(
                    slot as int,
                    StoredView::Many(items@),
                ));
                Ok(())
            },
            (SetterKind::Append, Argument::Value(value)) => {
                assert(stored_views(before)[slot as int] is Many);
                let held = self.slots.remove(slot);
                let mut items = match held {
                    Stored::Many(items) => items,
                    _ => Vec::new(),
                };
                items.push(value);
                self.slots.insert(slot, Stored::Many(items));
                assert(stored_views(self.slots@) =~= stored_views(before).update(
                    slot as int,
                    StoredView::Many(stored_views(before)[slot as int]->Many_0.push(value)),
                ));
                Ok(())
            },
            (SetterKind::Append, Argument::Collection(_)) => Err(CallError::WrongArgument),
        }
    }

    /// Finishes the builder: hands out the record, or the error of the first
    /// required field, in declaration order, that was never set.
    pub fn build(self) -> (res: Result<Vec<Stored<V>>, MissingField<'a>>)
        requires
            self.wf(),
        ensures
            self.artifacts()@.finished(self@) matches Ok(record) ==> (res matches Ok(values)
                && stored_views(values@) == record),
            self.artifacts()@.finished(self@) matches Err(error) ==> res == Err::<
                Vec<Stored<V>>,
                MissingField,
            >(error),
    {
        let ghost p = |b: bool| b;
        let ghost missing = self.artifacts@.missing(self@);
        let n: usize = self.slots.len();
        let mut i: usize = 0;
        while i < n
            invariant
                self.wf(),
                n == self.slots@.len(),
                0 <= i <= n,
                p == (|b: bool| b),
                missing == self.artifacts@.missing(self@),
                forall|k: int| 0 <= k < i ==> !p(#[trigger] missing[k]),
            decreases n - i,
        {
            let absent = match &self.slots[i] {
                Stored::Absent => true,
                _ => false,
            };
            if absent && self.artifacts.finalization[i] == FinalStep::Require {
                proof {
                    lemma_first_in_at(missing, p, i as int, n as nat);
                }
                return Err(MissingField { field: self.artifacts.slots[i].field });
            }
            i = i + 1;
        }
        proof {
            lemma_first_in_none(missing, p, n as nat);
        }
        Ok(self.slots)
    }
}

} // verus!
