use vstd::prelude::*;
use crate::builder_gen::SlotKind;

verus! {

/// What a builder holds for one field.
pub enum Slot<V> {
    /// A field set whole: `None` until set.
    Single(Option<V>),
    /// A collection field: the elements gathered so far.
    Many(Vec<V>),
}

pub ghost enum SlotView<V> {
    Single(Option<V>),
    Many(Seq<V>),
}

pub open spec fn slot_view<V>(s: Slot<V>) -> SlotView<V> {
    match s {
        Slot::Single(o) => SlotView::Single(o),
        Slot::Many(v) => SlotView::Many(v@),
    }
}

/// A call on the builder, as plain values.
pub ghost enum Op<V> {
    /// Setter of a field that is not a collection.
    Assign(nat, V),
    /// All-at-once setter of a collection field.
    AssignAll(nat, Seq<V>),
    /// Accumulating method of a collection field.
    Append(nat, V),
}

/// The slots before any call: collections empty, other fields unset.
pub open spec fn initial<V>(kinds: Seq<SlotKind>) -> Seq<SlotView<V>> {
    Seq::new(kinds.len(), |i: int| if kinds[i] == SlotKind::Collection {
        SlotView::Many(Seq::empty())
    } else {
        SlotView::Single(None)
    })
}

/// The slots after one call.
pub open spec fn step<V>(s: Seq<SlotView<V>>, op: Op<V>) -> Seq<SlotView<V>> {
    match op {
        Op::Assign(i, v) => s.update(i as int, SlotView::Single(Some(v))),
        Op::AssignAll(i, vs) => s.update(i as int, SlotView::Many(vs)),
        Op::Append(i, v) => match s[i as int] {
            SlotView::Many(vs) => s.update(i as int, SlotView::Many(vs.push(v))),
            SlotView::Single(_) => s,
        },
    }
}

/// The slots after a sequence of calls.
pub open spec fn apply<V>(s: Seq<SlotView<V>>, ops: Seq<Op<V>>) -> Seq<SlotView<V>>
    decreases ops.len(),
{
    if ops.len() == 0 {
        s
    } else {
        step(apply(s, ops.drop_last()), ops.last())
    }
}

/// Each call fits the field it names.
pub open spec fn ops_fit<V>(kinds: Seq<SlotKind>, ops: Seq<Op<V>>) -> bool {
    forall|k: int| 0 <= k < ops.len() ==> match #[trigger] ops[k] {
        Op::Assign(i, _) => i < kinds.len() && kinds[i as int] != SlotKind::Collection,
        Op::AssignAll(i, _) => i < kinds.len() && kinds[i as int] == SlotKind::Collection,
        Op::Append(i, _) => i < kinds.len() && kinds[i as int] == SlotKind::Collection,
    }
}

/// The value of the last setter call on field `i`, if any.
pub open spec fn last_set<V>(ops: Seq<Op<V>>, i: nat) -> Option<V>
    decreases ops.len(),
{
    if ops.len() == 0 {
        None
    } else {
        match ops.last() {
            Op::Assign(j, v) => if j == i { Some(v) } else { last_set(ops.drop_last(), i) },
            _ => last_set(ops.drop_last(), i),
        }
    }
}

/// The elements of collection field `i`: those of its last all-at-once
/// setter call, then every element appended after it, in call order.
pub open spec fn gathered<V>(ops: Seq<Op<V>>, i: nat) -> Seq<V>
    decreases ops.len(),
{
    if ops.len() == 0 {
        Seq::empty()
    } else {
        match ops.last() {
            Op::AssignAll(j, vs) => if j == i { vs } else { gathered(ops.drop_last(), i) },
            Op::Append(j, v) => if j == i { gathered(ops.drop_last(), i).push(v) } else { gathered(ops.drop_last(), i) },
            _ => gathered(ops.drop_last(), i),
        }
    }
}

/// The state of a generated builder: the kind of each field and what is
/// held for it.
pub struct BuilderState<V> {
    pub kinds: Vec<SlotKind>,
    pub slots: Vec<Slot<V>>,
}

impl<V> BuilderState<V> {
    pub open spec fn view(&self) -> Seq<SlotView<V>> {
        self.slots@.map_values(|s: Slot<V>| slot_view(s))
    }

    /// One slot per field, and a collection slot exactly for a collection
    /// field.
    pub open spec fn wf(&self) -> bool {
        &&& self.kinds@.len() == self.slots@.len()
        &&& forall|i: int| 0 <= i < self.kinds@.len() ==>
            ((self.kinds@[i] == SlotKind::Collection) == (#[trigger] self.slots@[i] is Many))
    }

    /// A fresh builder for fields of these kinds.
    pub fn new(kinds: Vec<SlotKind>) -> (r: Self)
        ensures
            r.wf(),
            r.kinds@ == kinds@,
            r.view() == initial::<V>(kinds@),
    {
        let mut slots: Vec<Slot<V>> = Vec::new();
        let mut i: usize = 0;
        while i < kinds.len()
            invariant
                i <= kinds@.len(),
                slots@.len() == i,
                forall|j: int| 0 <= j < i ==> ((kinds@[j] == SlotKind::Collection) == (#[trigger] slots@[j] is Many)),
                slots@.map_values(|s: Slot<V>| slot_view(s)) == initial::<V>(kinds@.take(i as int)),
            decreases kinds@.len() - i,
        {
            let ghost before = slots@;
            if kinds[i] == SlotKind::Collection {
                let empty: Vec<V> = Vec::new();
                assert(empty@ =~= Seq::<V>::empty());
                slots.push(Slot::Many(empty));
            } else {
                slots.push(Slot::Single(None));
            }
            proof {
                let next = initial::<V>(kinds@.take(i as int + 1));
                let cur = slots@.map_values(|s: Slot<V>| slot_view(s));
                assert forall|j: int| 0 <= j < i + 1 implies cur[j] == next[j] by {
                    if j < i {
                        assert(slots@[j] == before[j]);
                        assert(before.map_values(|s: Slot<V>| slot_view(s))[j] == initial::<V>(kinds@.take(i as int))[j]);
                    }
                }
                assert(cur =~= next);
            }
            i = i + 1;
        }
        assert(kinds@.take(kinds@.len() as int) =~= kinds@);
        BuilderState { kinds, slots }
    }

    fn replace(&mut self, i: usize, s: Slot<V>) -> (prev: Slot<V>)
        requires
            old(self).wf(),
            i < old(self).slots@.len(),
            (old(self).kinds@[i as int] == SlotKind::Collection) == (s is Many),
        ensures
            final(self).wf(),
            final(self).kinds@ == old(self).kinds@,
            final(self).view() == old(self).view().update(i as int, slot_view(s)),
            prev == old(self).slots@[i as int],
    {
        let prev = self.slots.remove(i);
        self.slots.insert(i, s);
        assert(self.view() =~= old(self).view().update(i as int, slot_view(s)));
        proof {
            assert forall|j: int| 0 <= j < self.kinds@.len() implies
                ((self.kinds@[j] == SlotKind::Collection) == (#[trigger] self.slots@[j] is Many)) by {
                if j != i {
                    assert(self.slots@[j] == old(self).slots@[j]);
                }
            }
        }
        prev
    }

    /// The setter of field `i`: the new value replaces any earlier one.
    pub fn set(&mut self, i: usize, v: V)
        requires
            old(self).wf(),
            i < old(self).kinds@.len(),
            old(self).kinds@[i as int] != SlotKind::Collection,
        ensures
            final(self).wf(),
            final(self).kinds@ == old(self).kinds@,
            final(self).view() == step(old(self).view(), Op::Assign(i as nat, v)),
    {
        let _ = self.replace(i, Slot::Single(Some(v)));
    }

    /// The all-at-once setter of collection field `i`.
    pub fn set_all(&mut self, i: usize, vs: Vec<V>)
        requires
            old(self).wf(),
            i < old(self).kinds@.len(),
            old(self).kinds@[i as int] == SlotKind::Collection,
        ensures
            final(self).wf(),
            final(self).kinds@ == old(self).kinds@,
            final(self).view() == step(old(self).view(), Op::AssignAll(i as nat, vs@)),
    {
        let _ = self.replace(i, Slot::Many(vs));
    }

    /// The accumulating method of collection field `i`: appends `v`.
    pub fn push(&mut self, i: usize, v: V)
        requires
            old(self).wf(),
            i < old(self).kinds@.len(),
            old(self).kinds@[i as int] == SlotKind::Collection,
        ensures
            final(self).wf(),
            final(self).kinds@ == old(self).kinds@,
            final(self).view() == step(old(self).view(), Op::Append(i as nat, v)),
    {
        let prev = self.replace(i, Slot::Many(Vec::new()));
        match prev {
            Slot::Many(mut vs) => {
                vs.push(v);
                let _ = self.replace(i, Slot::Many(vs));
                assert(self.view() =~= step(old(self).view(), Op::Append(i as nat, v)));
            },
            Slot::Single(_) => {
                assert(false);
            },
        }
    }

    /// Finalizes: fails with the index of the first required field that was
    /// never set, and hands back what is held otherwise.
    pub fn finish(self) -> (r: Result<Vec<Slot<V>>, usize>)
        requires
            self.wf(),
        ensures
            match r {
                Ok(slots) => slots@.map_values(|s: Slot<V>| slot_view(s)) == self.view()
                    && forall|i: int| 0 <= i < self.kinds@.len() ==> (self.kinds@[i] == SlotKind::Required
                        ==> !(#[trigger] self.view()[i] == SlotView::<V>::Single(None))),
                Err(i) => i < self.kinds@.len() && self.kinds@[i as int] == SlotKind::Required
                    && self.view()[i as int] == SlotView::<V>::Single(None)
                    && forall|j: int| 0 <= j < i ==> (self.kinds@[j] == SlotKind::Required
                        ==> !(#[trigger] self.view()[j] == SlotView::<V>::Single(None))),
            },
    {
        let mut i: usize = 0;
        while i < self.kinds.len()
            invariant
                i <= self.kinds@.len(),
                self.wf(),
                forall|j: int| 0 <= j < i ==> (self.kinds@[j] == SlotKind::Required
                    ==> !(#[trigger] self.view()[j] == SlotView::<V>::Single(None))),
            decreases self.kinds@.len() - i,
        {
            if self.kinds[i] == SlotKind::Required {
                if let Slot::Single(None) = &self.slots[i] {
                    assert(self.view()[i as int] == SlotView::<V>::Single(None));
                    return Err(i);
                }
                assert(!(self.view()[i as int] == SlotView::<V>::Single(None)));
            }
            i = i + 1;
        }
        Ok(self.slots)
    }
}

/// Round trip: after any sequence of calls that fit their fields, a field
/// set whole holds the value of its last setter call (or nothing), and a
/// collection field holds the elements of its last all-at-once call
/// followed by every element appended after it, in call order.
pub proof fn law_round_trip<V>(kinds: Seq<SlotKind>, ops: Seq<Op<V>>)
    requires
        ops_fit(kinds, ops),
    ensures
        apply(initial::<V>(kinds), ops).len() == kinds.len(),
        forall|i: int| 0 <= i < kinds.len() ==> #[trigger] apply(initial::<V>(kinds), ops)[i] == if kinds[i]
            == SlotKind::Collection {
            SlotView::Many(gathered(ops, i as nat))
        } else {
            SlotView::Single(last_set(ops, i as nat))
        },
    decreases ops.len(),
{
    if ops.len() > 0 {
        let rest = ops.drop_last();
        assert(ops_fit(kinds, rest)) by {
            assert forall|k: int| 0 <= k < rest.len() implies match #[trigger] rest[k] {
                Op::Assign(i, _) => i < kinds.len() && kinds[i as int] != SlotKind::Collection,
                Op::AssignAll(i, _) => i < kinds.len() && kinds[i as int] == SlotKind::Collection,
                Op::Append(i, _) => i < kinds.len() && kinds[i as int] == SlotKind::Collection,
            } by {
                assert(rest[k] == ops[k]);
            }
        }
        law_round_trip(kinds, rest);
        assert(match ops[ops.len() - 1] {
            Op::Assign(i, _) => i < kinds.len() && kinds[i as int] != SlotKind::Collection,
            Op::AssignAll(i, _) => i < kinds.len() && kinds[i as int] == SlotKind::Collection,
            Op::Append(i, _) => i < kinds.len() && kinds[i as int] == SlotKind::Collection,
        });
    }
}

/// After calls that fit their fields, a required field is unset exactly when
/// no setter call named it, so finalizing fails exactly then.
pub proof fn law_missing_iff_never_set<V>(kinds: Seq<SlotKind>, ops: Seq<Op<V>>, i: int)
    requires
        ops_fit(kinds, ops),
        0 <= i < kinds.len(),
        kinds[i] == SlotKind::Required,
    ensures
        (apply(initial::<V>(kinds), ops)[i] == SlotView::<V>::Single(None)) == (last_set(ops, i as nat) is None),
{
    law_round_trip(kinds, ops);
}

} // verus!
