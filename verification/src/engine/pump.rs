//! The pump's work on the table: reference-count operations, applied in
//! the order in which they were queued.

use vstd::prelude::*;
use crate::channel::{net_count, RefOp};
use crate::engine::{
    find_slot, lemma_table_push, lemma_table_update, place_in, slot_in, table_of, LoadEngine, Table,
};
use crate::error::RefCountError;
use crate::ids::LoadHandle;
use crate::slot::{LoadSlot, SlotView};

verus! {

/// The error that `op` meets on `table`, if any: a `Decrease` of a count of
/// zero, or an `Increase` of a count that cannot grow.
pub open spec fn op_error(table: Table, op: RefOp) -> Option<RefCountError> {
    match op {
        RefOp::Increase(id) => if slot_in(table, id).refs >= u64::MAX {
            Some(RefCountError::Overflow(id))
        } else {
            None
        },
        RefOp::Decrease(id) => if slot_in(table, id).refs == 0 {
            Some(RefCountError::Underflow(id))
        } else {
            None
        },
    }
}

/// The table after `op`. An operation that meets an error changes nothing.
pub open spec fn after_op(table: Table, op: RefOp) -> Table {
    if op_error(table, op) is Some {
        table
    } else {
        match op {
            RefOp::Increase(id) => table.insert(id, slot_in(table, id).ref_added()),
            RefOp::Decrease(id) => table.insert(id, slot_in(table, id).ref_removed()),
        }
    }
}

/// A table after a run of the pump, with the error that stopped the run.
pub struct Pumped {
    pub table: Table,
    pub error: Option<RefCountError>,
}

/// Applies `ops` in order, up to and without the first one that meets an
/// error.
pub open spec fn pumped(table: Table, ops: Seq<RefOp>) -> Pumped
    decreases ops.len(),
{
    if ops.len() == 0 {
        Pumped { table, error: None }
    } else {
        let before = pumped(table, ops.drop_last());
        if before.error is Some {
            before
        } else {
            Pumped {
                table: after_op(before.table, ops.last()),
                error: op_error(before.table, ops.last()),
            }
        }
    }
}

impl LoadEngine {
    /// Applies one reference-count operation. An `Increase` of an
    /// identifier that is not tracked starts tracking it. A `Decrease` with
    /// no reference to answer, and an `Increase` beyond what can be counted,
    /// change nothing and are reported.
    pub fn apply_ref_op(&mut self, op: RefOp) -> (applied: Result<(), RefCountError>)
        ensures
            final(self)@ == after_op(old(self)@, op),
            match applied {
                Ok(_) => op_error(old(self)@, op) is None,
                Err(error) => op_error(old(self)@, op) == Some(error),
            },
    {
        proof {
            use_type_invariant(&*self);
        }
        let mut slots: Vec<LoadSlot> = Vec::new();
        std::mem::swap(&mut self.slots, &mut slots);
        let applied = match op {
            RefOp::Increase(id) => {
                match find_slot(&slots, id) {
                    Some(i) => {
                        let ghost before = slots@;
                        let counted = slots[i].add_ref();
                        proof {
                            lemma_table_update(before, i as int, slots[i as int]);
                            assert(slots@ =~= before.update(i as int, slots[i as int]));
                            if counted is Err {
                                assert(table_of(slots@) =~= old(self)@);
                            }
                        }
                        counted
                    },
                    None => {
                        let mut slot = LoadSlot::new(id);
                        let counted = slot.add_ref();
                        proof {
                            lemma_table_push(slots@, slot);
                        }
                        slots.push(slot);
                        counted
                    },
                }
            },
            RefOp::Decrease(id) => {
                match find_slot(&slots, id) {
                    Some(i) => {
                        let ghost before = slots@;
                        let counted = slots[i].remove_ref();
                        proof {
                            lemma_table_update(before, i as int, slots[i as int]);
                            assert(slots@ =~= before.update(i as int, slots[i as int]));
                            if counted is Err {
                                assert(table_of(slots@) =~= old(self)@);
                            }
                        }
                        counted
                    },
                    None => Err(RefCountError::Underflow(id)),
                }
            },
        };
        std::mem::swap(&mut self.slots, &mut slots);
        applied
    }

    /// Applies `ops` in order and stops before the first one that meets an
    /// error, which is returned.
    pub fn apply_ref_ops(&mut self, ops: &Vec<RefOp>) -> (applied: Result<(), RefCountError>)
        ensures
            final(self)@ == pumped(old(self)@, ops@).table,
            match applied {
                Ok(_) => pumped(old(self)@, ops@).error is None,
                Err(error) => pumped(old(self)@, ops@).error == Some(error),
            },
    {
        let mut i: usize = 0;
        while i < ops.len()
            invariant
                i <= ops.len(),
                pumped(old(self)@, ops@.take(i as int)).error is None,
                self@ == pumped(old(self)@, ops@.take(i as int)).table,
            decreases ops.len() - i,
        {
            let ghost done = ops@.take(i as int);
            let ghost next = ops@.take(i + 1);
            proof {
                assert(next.drop_last() =~= done);
                assert(next.last() == ops@[i as int]);
            }
            match self.apply_ref_op(ops[i]) {
                Ok(_) => {},
                Err(error) => {
                    proof {
                        lemma_pumped_stops(old(self)@, next, ops@);
                    }
                    return Err(error);
                },
            }
            i = i + 1;
        }
        proof {
            assert(ops@.take(i as int) =~= ops@);
        }
        Ok(())
    }
}

/// Once a run has met an error, further operations change nothing.
pub proof fn lemma_pumped_stops(table: Table, done: Seq<RefOp>, ops: Seq<RefOp>)
    requires
        done.len() <= ops.len(),
        done == ops.take(done.len() as int),
        pumped(table, done).error is Some,
    ensures
        pumped(table, ops) == pumped(table, done),
    decreases ops.len(),
{
    if done.len() < ops.len() {
        assert(ops.drop_last().take(done.len() as int) =~= done);
        lemma_pumped_stops(table, done, ops.drop_last());
    } else {
        assert(ops.take(done.len() as int) =~= ops);
    }
}

/// Whether every count of `table` is one that can be held.
pub open spec fn counts_fit(table: Table) -> bool {
    forall|id: LoadHandle| (#[trigger] slot_in(table, id)).refs <= u64::MAX
}

/// Whether the counts stay in their range all along `ops`: after every
/// operation each count is at least zero and can be held.
pub open spec fn in_range(table: Table, ops: Seq<RefOp>) -> bool {
    forall|id: LoadHandle, k: int|
        0 <= k <= ops.len() ==> 0 <= slot_in(table, id).refs + #[trigger] net_count(
            ops.take(k),
            id,
        ) <= u64::MAX
}

impl LoadEngine {
    /// The counts of an engine are such as can be held.
    pub proof fn lemma_counts_fit(&self)
        ensures
            counts_fit(self@),
    {
        assert forall|id: LoadHandle| (#[trigger] slot_in(self@, id)).refs <= u64::MAX by {
            if self@.contains_key(id) {
                let p = place_in(self.slots@, id);
                assert(self.slots@[p].id == id);
            }
        }
    }
}

/// A run that met no error ran to its end on every shorter run too.
pub proof fn lemma_pumped_prefix(table: Table, ops: Seq<RefOp>, k: int)
    requires
        0 <= k <= ops.len(),
        pumped(table, ops).error is None,
    ensures
        pumped(table, ops.take(k)).error is None,
    decreases ops.len(),
{
    if k == ops.len() {
        assert(ops.take(k) =~= ops);
    } else {
        assert(ops.drop_last().take(k) =~= ops.take(k));
        lemma_pumped_prefix(table, ops.drop_last(), k);
    }
}

/// What a run of the pump that met no error leaves: each count is what it
/// was plus the constructions and minus the destructions among `ops`, and
/// nothing else of any slot has changed.
pub proof fn lemma_pumped_counts(table: Table, ops: Seq<RefOp>)
    requires
        pumped(table, ops).error is None,
    ensures
        forall|id: LoadHandle|
            #![trigger slot_in(pumped(table, ops).table, id)]
            slot_in(pumped(table, ops).table, id) == (SlotView {
                refs: (slot_in(table, id).refs + net_count(ops, id)) as nat,
                ..slot_in(table, id)
            }) && slot_in(table, id).refs + net_count(ops, id) >= 0,
    decreases ops.len(),
{
    if ops.len() > 0 {
        let front = ops.drop_last();
        lemma_pumped_counts(table, front);
        let mid = pumped(table, front).table;
        let op = ops.last();
        assert forall|id: LoadHandle|
            #![trigger slot_in(pumped(table, ops).table, id)]
            slot_in(pumped(table, ops).table, id) == (SlotView {
                refs: (slot_in(table, id).refs + net_count(ops, id)) as nat,
                ..slot_in(table, id)
            }) && slot_in(table, id).refs + net_count(ops, id) >= 0 by {
            let held = slot_in(mid, id);
            assert(held == (SlotView {
                refs: (slot_in(table, id).refs + net_count(front, id)) as nat,
                ..slot_in(table, id)
            }));
        }
    }
}

/// The count the pump leaves is constructions minus destructions, and the
/// pump fails exactly where a count would leave its range.
///
/// For any operations taken from the queue: the run meets no error exactly
/// if, after every operation, every count is at least zero and can be held;
/// and then each identifier's count has grown by the `Increase`s and shrunk
/// by the `Decrease`s of `ops`, and is not negative.
pub proof fn lemma_pump_counts_handles(table: Table, ops: Seq<RefOp>)
    requires
        counts_fit(table),
    ensures
        pumped(table, ops).error is None <==> in_range(table, ops),
        pumped(table, ops).error is None ==> forall|id: LoadHandle|
            #![trigger slot_in(pumped(table, ops).table, id)]
            slot_in(pumped(table, ops).table, id).refs == slot_in(table, id).refs + net_count(
                ops,
                id,
            ),
    decreases ops.len(),
{
    if pumped(table, ops).error is None {
        lemma_pumped_counts(table, ops);
        assert forall|id: LoadHandle, k: int| 0 <= k <= ops.len() implies 0 <= slot_in(
            table,
            id,
        ).refs + #[trigger] net_count(ops.take(k), id) <= u64::MAX by {
            lemma_pumped_prefix(table, ops, k);
            lemma_pumped_counts(table, ops.take(k));
            lemma_pumped_fit(table, ops.take(k));
            let held = slot_in(pumped(table, ops.take(k)).table, id);
            assert(held.refs <= u64::MAX);
        }
    }
    if in_range(table, ops) {
        if ops.len() > 0 {
            let front = ops.drop_last();
            assert forall|id: LoadHandle, k: int| 0 <= k <= front.len() implies 0 <= slot_in(
                table,
                id,
            ).refs + #[trigger] net_count(front.take(k), id) <= u64::MAX by {
                assert(front.take(k) =~= ops.take(k));
            }
            lemma_pump_counts_handles(table, front);
            lemma_pumped_counts(table, front);
            let mid = pumped(table, front).table;
            let id = ops.last().target();
            let held = slot_in(mid, id);
            assert(held.refs == slot_in(table, id).refs + net_count(front, id));
            assert(ops.take(ops.len() as int) =~= ops);
            assert(0 <= slot_in(table, id).refs + net_count(ops.take(ops.len() as int), id)
                <= u64::MAX);
        }
    }
}

/// A run that starts from counts that can be held leaves such counts.
pub proof fn lemma_pumped_fit(table: Table, ops: Seq<RefOp>)
    requires
        counts_fit(table),
    ensures
        counts_fit(pumped(table, ops).table),
    decreases ops.len(),
{
    if ops.len() > 0 {
        let front = ops.drop_last();
        lemma_pumped_fit(table, front);
        let mid = pumped(table, front).table;
        assert forall|id: LoadHandle| (#[trigger] slot_in(pumped(table, ops).table, id)).refs
            <= u64::MAX by {
            assert(slot_in(mid, id).refs <= u64::MAX);
        }
    }
}

} // verus!
