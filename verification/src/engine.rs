//! The load engine: the bookkeeping table of load slots. The pump that
//! counts references is in `pump`, the cycle that moves the loads on in
//! `cycle`.

use vstd::prelude::*;
use crate::ids::{AssetTypeId, LoadHandle};
use crate::slot::{LoadSlot, LoadStatus, SlotView};

pub mod cycle;
pub mod pump;

verus! {

/// The table as the contracts see it: the tracked identifiers, each with
/// its slot.
pub type Table = Map<LoadHandle, SlotView>;

/// The slot of `id` in `table`; an identifier that is not tracked stands as
/// a fresh slot.
pub open spec fn slot_in(table: Table, id: LoadHandle) -> SlotView {
    if table.contains_key(id) {
        table[id]
    } else {
        SlotView::fresh(id)
    }
}

/// Whether `id` has a slot among `slots`.
pub open spec fn tracked_in(slots: Seq<LoadSlot>, id: LoadHandle) -> bool {
    exists|i: int| 0 <= i < slots.len() && (#[trigger] slots[i]).id == id
}

/// A place at which `id` has its slot among `slots`.
pub open spec fn place_in(slots: Seq<LoadSlot>, id: LoadHandle) -> int {
    choose|i: int| 0 <= i < slots.len() && (#[trigger] slots[i]).id == id
}

/// No identifier has two slots.
pub open spec fn distinct_ids(slots: Seq<LoadSlot>) -> bool {
    forall|i: int, j: int|
        0 <= i < j < slots.len() ==> (#[trigger] slots[i]).id != (#[trigger] slots[j]).id
}

/// No slot has committed a version number that was not handed out.
pub open spec fn versions_fit(slots: Seq<LoadSlot>) -> bool {
    forall|i: int| 0 <= i < slots.len() ==> (#[trigger] slots[i]).version <= slots[i].attempts
}

/// The table that `slots` stand for.
pub open spec fn table_of(slots: Seq<LoadSlot>) -> Table {
    Map::new(|id: LoadHandle| tracked_in(slots, id), |id: LoadHandle| slots[place_in(slots, id)]@)
}

proof fn lemma_table_lookup(slots: Seq<LoadSlot>, i: int)
    requires
        distinct_ids(slots),
        0 <= i < slots.len(),
    ensures
        tracked_in(slots, slots[i].id),
        place_in(slots, slots[i].id) == i,
        table_of(slots).contains_key(slots[i].id),
        table_of(slots)[slots[i].id] == slots[i]@,
{
    let id = slots[i].id;
    let p = place_in(slots, id);
    assert(slots[p].id == id);
}

proof fn lemma_table_push(slots: Seq<LoadSlot>, slot: LoadSlot)
    requires
        distinct_ids(slots),
        !tracked_in(slots, slot.id),
    ensures
        distinct_ids(slots.push(slot)),
        table_of(slots.push(slot)) == table_of(slots).insert(slot.id, slot@),
{
    let after = slots.push(slot);
    let n = slots.len() as int;
    assert(after[n].id == slot.id);
    assert forall|i: int, j: int| 0 <= i < j < after.len() implies (#[trigger] after[i]).id != (
    #[trigger] after[j]).id by {
        if j == n {
            assert(slots[i].id != slot.id);
        } else {
            assert(slots[i].id != slots[j].id);
        }
    }
    assert forall|id: LoadHandle| tracked_in(after, id) == (tracked_in(slots, id) || id
        == slot.id) by {
        if tracked_in(slots, id) {
            let p = place_in(slots, id);
            assert(after[p].id == id);
        }
        if tracked_in(after, id) {
            let p = place_in(after, id);
            if p < n {
                assert(slots[p].id == id);
            }
        }
    }
    assert forall|id: LoadHandle| tracked_in(after, id) implies #[trigger] table_of(after)[id]
        == table_of(slots).insert(slot.id, slot@)[id] by {
        let p = place_in(after, id);
        lemma_table_lookup(after, p);
        if p < n {
            lemma_table_lookup(slots, p);
        }
    }
    assert(table_of(after) =~= table_of(slots).insert(slot.id, slot@));
}

proof fn lemma_table_update(slots: Seq<LoadSlot>, i: int, slot: LoadSlot)
    requires
        distinct_ids(slots),
        0 <= i < slots.len(),
        slot.id == slots[i].id,
    ensures
        distinct_ids(slots.update(i, slot)),
        table_of(slots.update(i, slot)) == table_of(slots).insert(slot.id, slot@),
{
    let after = slots.update(i, slot);
    assert forall|a: int, b: int| 0 <= a < b < after.len() implies (#[trigger] after[a]).id != (
    #[trigger] after[b]).id by {
        assert(slots[a].id != slots[b].id);
    }
    assert forall|id: LoadHandle| tracked_in(after, id) == tracked_in(slots, id) by {
        if tracked_in(slots, id) {
            let p = place_in(slots, id);
            assert(after[p].id == id);
        }
        if tracked_in(after, id) {
            let p = place_in(after, id);
            assert(slots[p].id == id);
        }
    }
    lemma_table_lookup(slots, i);
    assert forall|id: LoadHandle| tracked_in(after, id) implies #[trigger] table_of(after)[id]
        == table_of(slots).insert(slot.id, slot@)[id] by {
        let p = place_in(after, id);
        lemma_table_lookup(after, p);
        lemma_table_lookup(slots, p);
    }
    assert(table_of(after) =~= table_of(slots).insert(slot.id, slot@));
}

/// The place of `id` among `slots`, if it has a slot.
fn find_slot(slots: &Vec<LoadSlot>, id: LoadHandle) -> (found: Option<usize>)
    requires
        distinct_ids(slots@),
    ensures
        match found {
            Some(i) => i < slots.len() && slots[i as int].id == id && table_of(
                slots@,
            ).contains_key(id) && table_of(slots@)[id] == slots[i as int]@,
            None => !tracked_in(slots@, id) && !table_of(slots@).contains_key(id),
        },
{
    let mut i: usize = 0;
    while i < slots.len()
        invariant
            distinct_ids(slots@),
            i <= slots.len(),
            forall|j: int| 0 <= j < i ==> (#[trigger] slots[j]).id != id,
        decreases slots.len() - i,
    {
        if slots[i].id == id {
            proof {
                lemma_table_lookup(slots@, i as int);
            }
            return Some(i);
        }
        i = i + 1;
    }
    None
}

/// The place of the slot of `id` among `slots`, which gets a fresh slot at
/// the end where it has none.
fn find_or_track(slots: &mut Vec<LoadSlot>, id: LoadHandle) -> (i: usize)
    requires
        distinct_ids(old(slots)@),
        versions_fit(old(slots)@),
    ensures
        distinct_ids(final(slots)@),
        versions_fit(final(slots)@),
        i < final(slots).len(),
        final(slots)[i as int].id == id,
        final(slots)[i as int]@ == slot_in(table_of(old(slots)@), id),
        table_of(final(slots)@) == table_of(old(slots)@).insert(
            id,
            slot_in(table_of(old(slots)@), id),
        ),
{
    match find_slot(slots, id) {
        Some(i) => {
            proof {
                assert(table_of(slots@) =~= table_of(slots@).insert(id, table_of(slots@)[id]));
            }
            i
        },
        None => {
            let slot = LoadSlot::new(id);
            proof {
                lemma_table_push(slots@, slot);
            }
            slots.push(slot);
            slots.len() - 1
        },
    }
}

/// The engine's bookkeeping: one slot for each tracked identifier.
pub struct LoadEngine {
    slots: Vec<LoadSlot>,
}

impl View for LoadEngine {
    type V = Table;

    closed spec fn view(&self) -> Table {
        table_of(self.slots@)
    }
}

impl LoadEngine {
    #[verifier::type_invariant]
    spec fn well_formed(self) -> bool {
        &&& distinct_ids(self.slots@)
        &&& versions_fit(self.slots@)
    }

    /// The slot of `id`; an identifier that is not tracked stands as a
    /// fresh slot.
    pub open spec fn slot(&self, id: LoadHandle) -> SlotView {
        slot_in(self@, id)
    }

    /// An engine that tracks nothing.
    pub fn new() -> (engine: Self)
        ensures
            engine@ == Map::<LoadHandle, SlotView>::empty(),
    {
        let engine = LoadEngine { slots: Vec::new() };
        assert(engine@ =~= Map::<LoadHandle, SlotView>::empty());
        engine
    }

    /// Whether `id` has a slot.
    pub fn is_tracked(&self, id: LoadHandle) -> (present: bool)
        ensures
            present == self@.contains_key(id),
    {
        proof {
            use_type_invariant(self);
        }
        find_slot(&self.slots, id).is_some()
    }

    /// What a poll of `id` reports. It is `Loaded` exactly while a version
    /// is committed.
    pub fn status(&self, id: LoadHandle) -> (status: LoadStatus)
        ensures
            status == self.slot(id).status(),
    {
        proof {
            use_type_invariant(self);
        }
        match find_slot(&self.slots, id) {
            Some(i) => self.slots[i].status(),
            None => LoadStatus::NotRequested,
        }
    }

    /// The reference count of `id` as the pump has left it.
    pub fn ref_count(&self, id: LoadHandle) -> (refs: u64)
        ensures
            refs == self.slot(id).refs,
    {
        proof {
            use_type_invariant(self);
        }
        match find_slot(&self.slots, id) {
            Some(i) => self.slots[i].refs,
            None => 0,
        }
    }

    /// The committed version of `id`, while one is committed.
    pub fn committed_version(&self, id: LoadHandle) -> (version: Option<u32>)
        ensures
            version is Some == (self.slot(id).state is Committed),
            version is Some ==> version->0 == self.slot(id).version,
    {
        proof {
            use_type_invariant(self);
        }
        match find_slot(&self.slots, id) {
            Some(i) => {
                if self.slots[i].status() == LoadStatus::Loaded {
                    Some(self.slots[i].version)
                } else {
                    None
                }
            },
            None => None,
        }
    }

    /// Asks for a load of `id`. Returns whether one was started: a request
    /// for an identifier whose load is under way, or whose asset is
    /// committed, is merged into what is there.
    pub fn request(&mut self, id: LoadHandle) -> (started: bool)
        ensures
            final(self)@ == old(self)@.insert(id, old(self).slot(id).requested()),
            started == old(self).slot(id).accepts_request(),
    {
        proof {
            use_type_invariant(&*self);
        }
        let mut slots: Vec<LoadSlot> = Vec::new();
        std::mem::swap(&mut self.slots, &mut slots);
        let i = find_or_track(&mut slots, id);
        let ghost before = slots@;
        let started = slots[i].request();
        proof {
            lemma_table_update(before, i as int, slots[i as int]);
            assert(slots@ =~= before.update(i as int, slots[i as int]));
            assert(table_of(slots@) =~= old(self)@.insert(id, old(self).slot(id).requested()));
        }
        std::mem::swap(&mut self.slots, &mut slots);
        started
    }

    /// Hands the slot of `id` the bytes a worker fetched, with the type
    /// they came with. Returns whether the slot was waiting for them; where
    /// it was not, nothing changes and the bytes are discarded.
    pub fn deliver(&mut self, id: LoadHandle, asset_type: AssetTypeId, data: Vec<u8>) -> (accepted:
        bool)
        ensures
            accepted == (old(self).slot(id).state is BytesPending),
            accepted ==> final(self)@ == old(self)@.insert(
                id,
                old(self).slot(id).delivered(asset_type, data@),
            ),
            !accepted ==> final(self)@ == old(self)@,
    {
        proof {
            use_type_invariant(&*self);
        }
        let mut slots: Vec<LoadSlot> = Vec::new();
        std::mem::swap(&mut self.slots, &mut slots);
        let accepted = match find_slot(&slots, id) {
            Some(i) => {
                let ghost before = slots@;
                let accepted = slots[i].deliver(asset_type, data);
                proof {
                    lemma_table_update(before, i as int, slots[i as int]);
                    assert(slots@ =~= before.update(i as int, slots[i as int]));
                    if !accepted {
                        assert(table_of(slots@) =~= old(self)@);
                    }
                }
                accepted
            },
            None => false,
        };
        std::mem::swap(&mut self.slots, &mut slots);
        accepted
    }

    /// Records that the backend could not supply the bytes of `id`: the
    /// slot returns to `Unloaded`. Returns whether the slot was waiting for
    /// bytes; where it was not, nothing changes.
    pub fn fail_fetch(&mut self, id: LoadHandle) -> (accepted: bool)
        ensures
            accepted == (old(self).slot(id).state is BytesPending),
            accepted ==> final(self)@ == old(self)@.insert(id, old(self).slot(id).fetch_failed()),
            !accepted ==> final(self)@ == old(self)@,
    {
        proof {
            use_type_invariant(&*self);
        }
        let mut slots: Vec<LoadSlot> = Vec::new();
        std::mem::swap(&mut self.slots, &mut slots);
        let accepted = match find_slot(&slots, id) {
            Some(i) => {
                let ghost before = slots@;
                let accepted = slots[i].fail_fetch();
                proof {
                    lemma_table_update(before, i as int, slots[i as int]);
                    assert(slots@ =~= before.update(i as int, slots[i as int]));
                    if !accepted {
                        assert(table_of(slots@) =~= old(self)@);
                    }
                }
                accepted
            },
            None => false,
        };
        std::mem::swap(&mut self.slots, &mut slots);
        accepted
    }
}

} // verus!
