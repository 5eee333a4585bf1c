//! The cycle: one step of every load, and what it asks of the storages.

use vstd::prelude::*;
use crate::engine::{
    distinct_ids, lemma_table_lookup, place_in, table_of, tracked_in, versions_fit, LoadEngine,
    Table,
};
use crate::error::{AssetLoadError, AssetServerError};
use crate::ids::{AssetTypeId, LoadHandle};
use crate::registry::{AssetTypeRegistry, StorageVisitor};
use crate::slot::{LoadSlot, LoadState, SlotAction, SlotView};

verus! {

/// What one cycle did for one slot.
#[derive(Debug)]
pub struct CycleEvent {
    pub load_handle: LoadHandle,
    /// What the slot called for.
    pub action: SlotAction,
    /// Why it could not be done, if it could not.
    pub error: Option<AssetServerError>,
}

/// Whether `action` reaches a storage through `registry`.
pub open spec fn touches_storage<V>(registry: &AssetTypeRegistry<V>, action: SlotAction) -> bool {
    match action {
        SlotAction::Decode { asset_type, version } => registry.is_registered(asset_type),
        SlotAction::Free { asset_type, version } => registry.is_registered(asset_type),
        _ => false,
    }
}

/// The errors that can come with `action`: none with a fetch; with an
/// operation on a type that is not registered, the error that names the
/// type; with a decode, the storage's own error.
pub open spec fn error_fits<V>(
    registry: &AssetTypeRegistry<V>,
    action: SlotAction,
    error: Option<AssetServerError>,
) -> bool {
    match action {
        SlotAction::Idle => false,
        SlotAction::Fetch => error is None,
        SlotAction::Exhausted => error == Some(
            AssetServerError::AssetLoadError(AssetLoadError::VersionsExhausted),
        ),
        SlotAction::Decode { asset_type, version } => if registry.is_registered(asset_type) {
            error is None || (error matches Some(AssetServerError::AssetLoadError(_)))
        } else {
            error == Some(AssetServerError::MissingAssetRegistration(asset_type))
        },
        SlotAction::Free { asset_type, version } => if registry.is_registered(asset_type) {
            error is None
        } else {
            error == Some(AssetServerError::MissingAssetRegistration(asset_type))
        },
    }
}

/// Whether `event` tells what led a slot from `before` to `after`.
pub open spec fn event_explains<V>(
    registry: &AssetTypeRegistry<V>,
    before: SlotView,
    after: SlotView,
    event: CycleEvent,
) -> bool {
    &&& event.load_handle == before.id
    &&& event.action == before.action()
    &&& error_fits(registry, event.action, event.error)
    &&& after == before.stepped(event.error is None)
}

/// Whether `events` tell what one cycle made of `before`: the same
/// identifiers are tracked in `after`; a slot that called for nothing is
/// as it was; every other slot has exactly one event, which explains it.
pub open spec fn cycle_relates<V>(
    registry: &AssetTypeRegistry<V>,
    before: Table,
    after: Table,
    events: Seq<CycleEvent>,
) -> bool {
    &&& after.dom() == before.dom()
    &&& forall|id: LoadHandle|
        #![trigger after[id]]
        before.contains_key(id) && before[id].action() is Idle ==> after[id] == before[id]
    &&& forall|k: int|
        0 <= k < events.len() ==> before.contains_key((#[trigger] events[k]).load_handle)
            && event_explains(
            registry,
            before[events[k].load_handle],
            after[events[k].load_handle],
            events[k],
        )
    &&& forall|id: LoadHandle|
        #![trigger before[id]]
        before.contains_key(id) && !(before[id].action() is Idle) ==> exists|k: int|
            0 <= k < events.len() && (#[trigger] events[k]).load_handle == id
    &&& forall|a: int, b: int|
        0 <= a < b < events.len() ==> (#[trigger] events[a]).load_handle != (
        #[trigger] events[b]).load_handle
}

/// Whether the versions have only grown from `before` to `after`: no slot
/// has lost a committed version or a version number handed out, none has
/// committed a number that was not handed out, and every decode that
/// succeeded has committed a number greater than the one committed before,
/// the one its event names.
pub open spec fn versions_rise(before: Table, after: Table, events: Seq<CycleEvent>) -> bool {
    &&& forall|id: LoadHandle|
        #![trigger after[id]]
        before.contains_key(id) ==> {
            &&& before[id].version <= before[id].attempts
            &&& before[id].version <= after[id].version
            &&& before[id].attempts <= after[id].attempts
            &&& after[id].version <= after[id].attempts
        }
    &&& forall|k: int|
        0 <= k < events.len() && (#[trigger] events[k]).action is Decode && events[k].error
            is None ==> {
            &&& before[events[k].load_handle].version < after[events[k].load_handle].version
            &&& after[events[k].load_handle].version == events[k].action->Decode_version
        }
}

/// Whether `event` tells what was asked of the storages between `before`
/// and `after`, for a slot that stood as `slot`: a decode hands the slot's
/// bytes to the visitor of their type under the next version and, where
/// that succeeds, commits that version at once; a release hands the
/// committed version to the visitor; anything else, and any operation on a
/// type that is not registered, leaves the resource set alone.
pub open spec fn storage_step<V: StorageVisitor<R>, R>(
    registry: &AssetTypeRegistry<V>,
    slot: SlotView,
    event: CycleEvent,
    before: R,
    after: R,
) -> bool {
    match event.action {
        SlotAction::Decode { asset_type, version } => if registry.is_registered(asset_type) {
            match event.error {
                None => exists|staged: R|
                    #[trigger] registry.visitor(asset_type).updates(
                        before,
                        slot.id,
                        slot.data,
                        version,
                        staged,
                        Ok(()),
                    ) && registry.visitor(asset_type).commits(staged, slot.id, version, after),
                Some(AssetServerError::AssetLoadError(error)) => registry.visitor(
                    asset_type,
                ).updates(before, slot.id, slot.data, version, after, Err(error)),
                Some(_) => false,
            }
        } else {
            after == before
        },
        SlotAction::Free { asset_type, version } => if registry.is_registered(asset_type) {
            registry.visitor(asset_type).frees(before, slot.id, version, after)
        } else {
            after == before
        },
        _ => after == before,
    }
}

/// Whether `states` are the resource set before the first event, between
/// the events, and after the last.
pub open spec fn storage_trace<V: StorageVisitor<R>, R>(
    registry: &AssetTypeRegistry<V>,
    table: Table,
    events: Seq<CycleEvent>,
    states: Seq<R>,
) -> bool {
    &&& states.len() == events.len() + 1
    &&& forall|k: int|
        0 <= k < events.len() ==> storage_step(
            registry,
            table[(#[trigger] events[k]).load_handle],
            events[k],
            states[k],
            states[k + 1],
        )
}

/// Whether the events account for the way from `before` to `after`: the
/// storages were asked what the events tell, in their order, and nothing
/// else.
pub open spec fn storage_follows<V: StorageVisitor<R>, R>(
    registry: &AssetTypeRegistry<V>,
    table: Table,
    events: Seq<CycleEvent>,
    before: R,
    after: R,
) -> bool {
    exists|states: Seq<R>|
        #[trigger] storage_trace(registry, table, events, states) && states[0] == before
            && states[events.len() as int] == after
}

/// Whether no slot of `table` calls for an operation on a registered
/// storage.
pub open spec fn quiet<V>(registry: &AssetTypeRegistry<V>, table: Table) -> bool {
    forall|id: LoadHandle|
        table.contains_key(id) ==> !touches_storage(registry, #[trigger] table[id].action())
}

/// The table without the slots that hold nothing.
pub open spec fn swept(table: Table) -> Table {
    table.remove_keys(Set::new(|id: LoadHandle| table.contains_key(id) && table[id].disposable()))
}

proof fn lemma_same_ids(before: Seq<LoadSlot>, after: Seq<LoadSlot>)
    requires
        distinct_ids(before),
        before.len() == after.len(),
        forall|j: int| 0 <= j < before.len() ==> (#[trigger] after[j]).id == before[j].id,
    ensures
        distinct_ids(after),
        table_of(after).dom() == table_of(before).dom(),
        forall|j: int|
            0 <= j < before.len() ==> table_of(before).contains_key(#[trigger] before[j].id)
                && table_of(before)[before[j].id] == before[j]@ && table_of(after)[before[j].id]
                == after[j]@,
{
    assert forall|a: int, b: int| 0 <= a < b < after.len() implies (#[trigger] after[a]).id != (
    #[trigger] after[b]).id by {
        assert(before[a].id != before[b].id);
    }
    assert forall|id: LoadHandle| tracked_in(after, id) == tracked_in(before, id) by {
        if tracked_in(before, id) {
            let p = place_in(before, id);
            assert(after[p].id == id);
        }
        if tracked_in(after, id) {
            let p = place_in(after, id);
            assert(before[p].id == id);
        }
    }
    assert(table_of(after).dom() =~= table_of(before).dom());
    assert forall|j: int| 0 <= j < before.len() implies table_of(before).contains_key(
        #[trigger] before[j].id,
    ) && table_of(before)[before[j].id] == before[j]@ && table_of(after)[before[j].id]
        == after[j]@ by {
        lemma_table_lookup(before, j);
        lemma_table_lookup(after, j);
    }
}

impl LoadEngine {
    /// Moves every slot on by one step and returns what was done for each
    /// slot that called for something.
    ///
    /// A requested load is handed out to be fetched. Bytes that have arrived
    /// are decoded through `registry` and, where that succeeds, committed at
    /// once under the next version; where it fails, the slot returns to
    /// `Unloaded` and the event carries the error. A committed asset without
    /// references is released. Nothing else reaches a storage.
    pub fn process<V: StorageVisitor<R>, R>(
        &mut self,
        registry: &AssetTypeRegistry<V>,
        resources: &mut R,
    ) -> (events: Vec<CycleEvent>)
        ensures
            cycle_relates(registry, old(self)@, final(self)@, events@),
            versions_rise(old(self)@, final(self)@, events@),
            storage_follows(registry, old(self)@, events@, *old(resources), *final(resources)),
            quiet(registry, old(self)@) ==> *final(resources) == *old(resources),
    {
        proof {
            use_type_invariant(&*self);
        }
        let mut slots: Vec<LoadSlot> = Vec::new();
        std::mem::swap(&mut self.slots, &mut slots);
        let ghost start = slots@;
        let ghost mut owner: Seq<int> = Seq::empty();
        let ghost mut states: Seq<R> = seq![*resources];
        let mut events: Vec<CycleEvent> = Vec::new();
        let mut i: usize = 0;
        while i < slots.len()
            invariant
                distinct_ids(start),
                versions_fit(start),
                versions_fit(slots@),
                slots.len() == start.len(),
                i <= slots.len(),
                forall|j: int| 0 <= j < start.len() ==> (#[trigger] slots[j]).id == start[j].id,
                forall|j: int| i <= j < start.len() ==> #[trigger] slots[j] == start[j],
                forall|j: int|
                    0 <= j < i && start[j]@.action() is Idle ==> (#[trigger] slots[j])@
                        == start[j]@,
                owner.len() == events.len(),
                forall|k: int| 0 <= k < owner.len() ==> 0 <= #[trigger] owner[k] < i,
                forall|a: int, b: int|
                    0 <= a < b < owner.len() ==> #[trigger] owner[a] < #[trigger] owner[b],
                forall|k: int|
                    0 <= k < events.len() ==> event_explains(
                        registry,
                        start[owner[k]]@,
                        slots[owner[k]]@,
                        #[trigger] events[k],
                    ),
                forall|j: int|
                    0 <= j < i && !(start[j]@.action() is Idle) ==> exists|k: int|
                        0 <= k < owner.len() && #[trigger] owner[k] == j,
                (forall|j: int|
                    0 <= j < i ==> !touches_storage(registry, (#[trigger] start[j])@.action()))
                    ==> *resources == *old(resources),
                states.len() == events.len() + 1,
                states[0] == *old(resources),
                states[events.len() as int] == *resources,
                forall|k: int|
                    0 <= k < events.len() ==> storage_step(
                        registry,
                        start[owner[k]]@,
                        #[trigger] events[k],
                        states[k],
                        states[k + 1],
                    ),
            decreases slots.len() - i,
        {
            let id = slots[i].id;
            let action = slots[i].action();
            let ghost held = slots@;
            let ghost known = owner;
            let ghost told = events@;
            let ghost seen = states;
            let ghost entered = *resources;
            let ghost mut staged = *resources;
            match action {
                SlotAction::Idle => {},
                SlotAction::Fetch => {
                    slots[i].advance(true);
                    events.push(CycleEvent { load_handle: id, action, error: None });
                },
                SlotAction::Exhausted => {
                    slots[i].advance(false);
                    events.push(
                        CycleEvent {
                            load_handle: id,
                            action,
                            error: Some(
                                AssetServerError::AssetLoadError(AssetLoadError::VersionsExhausted),
                            ),
                        },
                    );
                },
                SlotAction::Decode { asset_type, version } => {
                    let data = slots[i].data.clone();
                    match registry.update_asset(resources, asset_type, data, id, version) {
                        Ok(_) => {
                            proof {
                                staged = *resources;
                            }
                            registry.commit_asset_version(resources, asset_type, id, version);
                            slots[i].advance(true);
                            events.push(CycleEvent { load_handle: id, action, error: None });
                        },
                        Err(error) => {
                            slots[i].advance(false);
                            events.push(
                                CycleEvent { load_handle: id, action, error: Some(error) },
                            );
                        },
                    }
                },
                SlotAction::Free { asset_type, version } => {
                    let routed = registry.free(resources, asset_type, id, version);
                    slots[i].advance(true);
                    let error = if routed {
                        None
                    } else {
                        Some(AssetServerError::MissingAssetRegistration(asset_type))
                    };
                    events.push(CycleEvent { load_handle: id, action, error });
                },
            }
            proof {
                assert(start[i as int] == held[i as int]);
                if !(action is Idle) {
                    owner = known.push(i as int);
                    states = seen.push(*resources);
                    assert(events@ =~= told.push(events@[told.len() as int]));
                    let last = told.len() as int;
                    assert(states[last] == entered);
                    assert(states[last + 1] == *resources);
                    if action is Decode && events@[last].error is None {
                        let asset_type = action->Decode_asset_type;
                        let version = action->Decode_version;
                        assert(registry.is_registered(asset_type));
                        assert(registry.visitor(asset_type).updates(
                            entered,
                            id,
                            start[i as int]@.data,
                            version,
                            staged,
                            Ok(()),
                        ));
                    }
                    assert(storage_step(
                        registry,
                        start[i as int]@,
                        events@[last],
                        states[last],
                        states[last + 1],
                    ));
                    assert forall|k: int| 0 <= k < events.len() implies storage_step(
                        registry,
                        start[owner[k]]@,
                        #[trigger] events[k],
                        states[k],
                        states[k + 1],
                    ) by {
                        if k < told.len() {
                            assert(events[k] == told[k]);
                            assert(owner[k] == known[k]);
                            assert(states[k] == seen[k]);
                            assert(states[k + 1] == seen[k + 1]);
                        }
                    }
                    assert forall|k: int| 0 <= k < events.len() implies event_explains(
                        registry,
                        start[owner[k]]@,
                        slots[owner[k]]@,
                        #[trigger] events[k],
                    ) by {
                        if k < told.len() {
                            assert(events[k] == told[k]);
                            assert(owner[k] == known[k]);
                            assert(slots[owner[k]] == held[known[k]]);
                        }
                    }
                    assert(owner[known.len() as int] == i);
                    assert forall|j: int|
                        0 <= j < i + 1 && !(start[j]@.action() is Idle) implies exists|k: int|
                        0 <= k < owner.len() && #[trigger] owner[k] == j by {
                        if j < i {
                            let k = choose|k: int| 0 <= k < known.len() && #[trigger] known[k] == j;
                            assert(owner[k] == j);
                        }
                    }
                } else {
                    assert forall|k: int| 0 <= k < events.len() implies event_explains(
                        registry,
                        start[owner[k]]@,
                        slots[owner[k]]@,
                        #[trigger] events[k],
                    ) by {
                        assert(slots[owner[k]] == held[known[k]]);
                    }
                }
            }
            i = i + 1;
        }
        proof {
            lemma_same_ids(start, slots@);
            let before = table_of(start);
            let after = table_of(slots@);
            assert forall|id: LoadHandle|
                #![trigger after[id]]
                before.contains_key(id) implies before[id].version <= before[id].attempts
                && before[id].version <= after[id].version && before[id].attempts
                <= after[id].attempts && after[id].version <= after[id].attempts by {
                let j = place_in(start, id);
                assert(start[j].id == id);
                assert(before[start[j].id] == start[j]@);
                assert(after[start[j].id] == slots[j]@);
                assert(start[j].version <= start[j].attempts);
                assert(slots[j].version <= slots[j].attempts);
                if start[j]@.action() is Idle {
                    assert(slots[j]@ == start[j]@);
                } else {
                    let k = choose|k: int| 0 <= k < owner.len() && #[trigger] owner[k] == j;
                    assert(event_explains(registry, start[j]@, slots[j]@, events[k]));
                }
            }
            assert forall|k: int|
                0 <= k < events.len() && (#[trigger] events[k]).action is Decode
                    && events[k].error is None implies before[events[k].load_handle].version
                < after[events[k].load_handle].version && after[events[k].load_handle].version
                == events[k].action->Decode_version by {
                let j = owner[k];
                assert(event_explains(registry, start[j]@, slots[j]@, events[k]));
                assert(start[j].id == events[k].load_handle);
                assert(before[start[j].id] == start[j]@);
                assert(after[start[j].id] == slots[j]@);
                assert(start[j].version <= start[j].attempts);
            }
            assert forall|k: int| 0 <= k < events.len() implies storage_step(
                registry,
                before[(#[trigger] events[k]).load_handle],
                events[k],
                states[k],
                states[k + 1],
            ) by {
                let j = owner[k];
                assert(event_explains(registry, start[j]@, slots[j]@, events[k]));
                assert(start[j].id == events[k].load_handle);
                assert(before[start[j].id] == start[j]@);
            }
            assert(storage_trace(registry, before, events@, states));
            assert forall|id: LoadHandle|
                before.contains_key(id) && before[id].action() is Idle implies #[trigger] after[id]
                == before[id] by {
                let j = place_in(start, id);
                assert(start[j].id == id);
            }
            assert forall|k: int| 0 <= k < events.len() implies before.contains_key(
                (#[trigger] events[k]).load_handle,
            ) && event_explains(
                registry,
                before[events[k].load_handle],
                after[events[k].load_handle],
                events[k],
            ) by {
                let j = owner[k];
                assert(start[j].id == events[k].load_handle);
            }
            assert forall|id: LoadHandle|
                #![trigger before[id]]
                before.contains_key(id) && !(before[id].action() is Idle) implies exists|k: int|
                0 <= k < events.len() && (#[trigger] events[k]).load_handle == id by {
                let j = place_in(start, id);
                assert(start[j].id == id);
                let k = choose|k: int| 0 <= k < owner.len() && #[trigger] owner[k] == j;
                assert(events[k].load_handle == id);
            }
            assert forall|a: int, b: int| 0 <= a < b < events.len() implies (
            #[trigger] events[a]).load_handle != (#[trigger] events[b]).load_handle by {
                assert(owner[a] < owner[b]);
                assert(start[owner[a]].id != start[owner[b]].id);
            }
            if forall|id: LoadHandle|
                before.contains_key(id) ==> !touches_storage(
                    registry,
                    #[trigger] before[id].action(),
                ) {
                assert forall|j: int| 0 <= j < start.len() implies !touches_storage(
                    registry,
                    (#[trigger] start[j])@.action(),
                ) by {
                    assert(before.contains_key(start[j].id));
                    assert(before[start[j].id] == start[j]@);
                }
            }
        }
        std::mem::swap(&mut self.slots, &mut slots);
        events
    }
}

impl LoadEngine {
    /// Drops every slot that holds nothing: those that are released, or
    /// unloaded, and have no reference left. Returns their identifiers,
    /// which may be used anew. The other slots stay as they are.
    pub fn sweep(&mut self) -> (removed: Vec<LoadHandle>)
        ensures
            final(self)@ == swept(old(self)@),
            forall|id: LoadHandle|
                #![trigger final(self)@.contains_key(id)]
                final(self)@.contains_key(id) <==> {
                    &&& old(self)@.contains_key(id)
                    &&& !old(self)@[id].disposable()
                },
            forall|id: LoadHandle|
                #![trigger final(self)@[id]]
                final(self)@.contains_key(id) ==> final(self)@[id] == old(self)@[id],
            forall|id: LoadHandle|
                #![trigger removed@.contains(id)]
                removed@.contains(id) <==> {
                    &&& old(self)@.contains_key(id)
                    &&& old(self)@[id].disposable()
                },
            forall|a: int, b: int|
                0 <= a < b < removed.len() ==> #[trigger] removed[a] != #[trigger] removed[b],
    {
        proof {
            use_type_invariant(&*self);
        }
        let mut slots: Vec<LoadSlot> = Vec::new();
        std::mem::swap(&mut self.slots, &mut slots);
        let ghost start = slots@;
        let ghost mut origin: Seq<int> = Seq::empty();
        let ghost mut gone: Seq<int> = Seq::empty();
        let mut kept: Vec<LoadSlot> = Vec::new();
        let mut removed: Vec<LoadHandle> = Vec::new();
        let mut i: usize = 0;
        while i < slots.len()
            invariant
                distinct_ids(start),
                versions_fit(start),
                versions_fit(kept@),
                slots.len() == start.len(),
                i <= slots.len(),
                forall|j: int| i <= j < start.len() ==> #[trigger] slots[j] == start[j],
                origin.len() == kept.len(),
                forall|p: int| 0 <= p < origin.len() ==> 0 <= #[trigger] origin[p] < i,
                forall|a: int, b: int|
                    0 <= a < b < origin.len() ==> #[trigger] origin[a] < #[trigger] origin[b],
                forall|p: int|
                    0 <= p < kept.len() ==> #[trigger] kept[p] == start[origin[p]]
                        && !start[origin[p]]@.disposable(),
                forall|j: int|
                    0 <= j < i && !start[j]@.disposable() ==> exists|p: int|
                        0 <= p < origin.len() && #[trigger] origin[p] == j,
                gone.len() == removed.len(),
                forall|p: int| 0 <= p < gone.len() ==> 0 <= #[trigger] gone[p] < i,
                forall|a: int, b: int|
                    0 <= a < b < gone.len() ==> #[trigger] gone[a] < #[trigger] gone[b],
                forall|p: int|
                    0 <= p < removed.len() ==> #[trigger] removed[p] == start[gone[p]].id
                        && start[gone[p]]@.disposable(),
                forall|j: int|
                    0 <= j < i && start[j]@.disposable() ==> exists|p: int|
                        0 <= p < gone.len() && #[trigger] gone[p] == j,
            decreases slots.len() - i,
        {
            let ghost had = origin;
            let ghost lost = gone;
            let ghost held = kept@;
            let ghost dropped = removed@;
            let mut slot = LoadSlot::new(LoadHandle(0));
            std::mem::swap(&mut slots[i], &mut slot);
            assert(slot == start[i as int]);
            let ghost moved = slot;
            if slot.is_disposable() {
                removed.push(slot.id);
                proof {
                    assert(kept@ == held);
                    assert forall|p: int| 0 <= p < kept.len() implies #[trigger] kept[p]
                        == start[origin[p]] && !start[origin[p]]@.disposable() by {
                        assert(kept[p] == held[p]);
                        assert(origin[p] == had[p]);
                    }
                    gone = lost.push(i as int);
                    assert(gone[lost.len() as int] == i);
                    assert forall|j: int| 0 <= j < i + 1 && start[j]@.disposable() implies exists|
                        p: int,
                    |
                        0 <= p < gone.len() && #[trigger] gone[p] == j by {
                        if j < i {
                            let p = choose|p: int| 0 <= p < lost.len() && #[trigger] lost[p] == j;
                            assert(gone[p] == j);
                        }
                    }
                    assert forall|p: int| 0 <= p < removed.len() implies #[trigger] removed[p]
                        == start[gone[p]].id && start[gone[p]]@.disposable() by {
                        if p < dropped.len() {
                            assert(removed[p] == dropped[p]);
                            assert(gone[p] == lost[p]);
                        }
                    }
                }
            } else {
                kept.push(slot);
                proof {
                    origin = had.push(i as int);
                    assert(origin[had.len() as int] == i);
                    assert forall|j: int| 0 <= j < i + 1 && !start[j]@.disposable() implies exists|
                        p: int,
                    |
                        0 <= p < origin.len() && #[trigger] origin[p] == j by {
                        if j < i {
                            let p = choose|p: int| 0 <= p < had.len() && #[trigger] had[p] == j;
                            assert(origin[p] == j);
                        }
                    }
                    assert(kept@ =~= held.push(moved));
                    assert forall|p: int| 0 <= p < kept.len() implies #[trigger] kept[p]
                        == start[origin[p]] && !start[origin[p]]@.disposable() by {
                        if p < held.len() {
                            assert(kept[p] == held[p]);
                            assert(origin[p] == had[p]);
                        } else {
                            assert(kept[p] == moved);
                            assert(origin[p] == i);
                            assert(!moved@.disposable());
                        }
                    }
                }
            }
            i = i + 1;
        }
        proof {
            let before = table_of(start);
            let after = table_of(kept@);
            assert forall|a: int, b: int| 0 <= a < b < kept.len() implies (#[trigger] kept[a]).id
                != (#[trigger] kept[b]).id by {
                assert(origin[a] < origin[b]);
                assert(start[origin[a]].id != start[origin[b]].id);
            }
            assert forall|id: LoadHandle|
                #![trigger after.contains_key(id)]
                after.contains_key(id) <==> before.contains_key(id)
                    && !before[id].disposable() by {
                if after.contains_key(id) {
                    let p = place_in(kept@, id);
                    assert(kept[p].id == id);
                    lemma_table_lookup(start, origin[p]);
                }
                if before.contains_key(id) && !before[id].disposable() {
                    let j = place_in(start, id);
                    assert(start[j].id == id);
                    lemma_table_lookup(start, j);
                    let p = choose|p: int| 0 <= p < origin.len() && #[trigger] origin[p] == j;
                    assert(kept[p].id == id);
                }
            }
            assert forall|id: LoadHandle|
                #![trigger after[id]]
                after.contains_key(id) implies after[id] == before[id] by {
                let p = place_in(kept@, id);
                assert(kept[p].id == id);
                lemma_table_lookup(kept@, p);
                lemma_table_lookup(start, origin[p]);
            }
            assert forall|a: int, b: int| 0 <= a < b < removed.len() implies #[trigger] removed[a]
                != #[trigger] removed[b] by {
                assert(gone[a] < gone[b]);
                assert(start[gone[a]].id != start[gone[b]].id);
            }
            assert forall|id: LoadHandle|
                #![trigger removed@.contains(id)]
                removed@.contains(id) <==> before.contains_key(id) && before[id].disposable() by {
                if removed@.contains(id) {
                    let p = choose|p: int| 0 <= p < removed.len() && removed[p] == id;
                    lemma_table_lookup(start, gone[p]);
                }
                if before.contains_key(id) && before[id].disposable() {
                    let j = place_in(start, id);
                    assert(start[j].id == id);
                    lemma_table_lookup(start, j);
                    let p = choose|p: int| 0 <= p < gone.len() && #[trigger] gone[p] == j;
                    assert(removed[p] == id);
                }
            }
        }
        proof {
            assert(table_of(kept@) =~= swept(table_of(start)));
        }
        std::mem::swap(&mut self.slots, &mut kept);
        removed
    }
}

/// Whatever a cycle released had no reference left and a committed version,
/// and is `Freed` after the cycle.
pub proof fn lemma_cycle_frees_only_unreferenced<V>(
    registry: &AssetTypeRegistry<V>,
    before: Table,
    after: Table,
    events: Seq<CycleEvent>,
    k: int,
)
    requires
        cycle_relates(registry, before, after, events),
        0 <= k < events.len(),
        events[k].action is Free,
    ensures
        before.contains_key(events[k].load_handle),
        before[events[k].load_handle].refs == 0,
        before[events[k].load_handle].state is Committed,
        after[events[k].load_handle].state is Freed,
{
}

/// Bytes of a type that nobody registered reach no storage: the load is
/// dropped, its event carries the error that names the type, and the
/// resource set is the same before and after that event. The other slots
/// move on as `cycle_relates` tells. (A slot that has used every version
/// number reports that instead, whatever its type.)
pub proof fn lemma_unregistered_type_is_reported<V: StorageVisitor<R>, R>(
    registry: &AssetTypeRegistry<V>,
    before: Table,
    after: Table,
    events: Seq<CycleEvent>,
    states: Seq<R>,
    id: LoadHandle,
)
    requires
        cycle_relates(registry, before, after, events),
        storage_trace(registry, before, events, states),
        before.contains_key(id),
        before[id].state is Decoding,
        before[id].attempts < u32::MAX,
        !registry.is_registered(before[id].asset_type),
    ensures
        !touches_storage(registry, before[id].action()),
        after[id].state is Unloaded,
        after[id].failed,
        exists|k: int|
            0 <= k < events.len() && (#[trigger] events[k]).load_handle == id && events[k].error
                == Some(AssetServerError::MissingAssetRegistration(before[id].asset_type))
                && states[k + 1] == states[k],
{
    let k = choose|k: int| 0 <= k < events.len() && (#[trigger] events[k]).load_handle == id;
    assert(event_explains(registry, before[id], after[id], events[k]));
    assert(storage_step(registry, before[id], events[k], states[k], states[k + 1]));
}

/// Whether `visitor` decodes whatever it is handed: its `update_asset`
/// never answers with an error.
pub open spec fn never_refuses<V: StorageVisitor<R>, R>(visitor: V) -> bool {
    forall|before: R, id: LoadHandle, data: Seq<u8>, version: u32, after: R, error: AssetLoadError|
        !#[trigger] visitor.updates(before, id, data, version, after, Err(error))
}

/// A cycle hands every requested load to a worker: the slot waits for its
/// bytes afterwards, and its event is a fetch without an error.
pub proof fn lemma_requested_load_is_fetched<V>(
    registry: &AssetTypeRegistry<V>,
    before: Table,
    after: Table,
    events: Seq<CycleEvent>,
    id: LoadHandle,
)
    requires
        cycle_relates(registry, before, after, events),
        before.contains_key(id),
        before[id].state is Requested,
    ensures
        after[id] == (SlotView { state: LoadState::BytesPending, ..before[id] }),
        exists|k: int|
            0 <= k < events.len() && (#[trigger] events[k]).load_handle == id && events[k].action
                is Fetch && events[k].error is None,
{
    let k = choose|k: int| 0 <= k < events.len() && (#[trigger] events[k]).load_handle == id;
    assert(event_explains(registry, before[id], after[id], events[k]));
}

/// With a storage that never refuses, bytes that have arrived are committed
/// by the next cycle: the storage of their type is handed exactly these
/// bytes under the next version, then the commit of that same version, and
/// the slot is `Committed` at it.
pub proof fn lemma_delivered_bytes_are_committed<V: StorageVisitor<R>, R>(
    registry: &AssetTypeRegistry<V>,
    before: Table,
    after: Table,
    events: Seq<CycleEvent>,
    states: Seq<R>,
    id: LoadHandle,
)
    requires
        cycle_relates(registry, before, after, events),
        storage_trace(registry, before, events, states),
        before.contains_key(id),
        before[id].state is Decoding,
        before[id].attempts < u32::MAX,
        registry.is_registered(before[id].asset_type),
        never_refuses(registry.visitor(before[id].asset_type)),
    ensures
        after[id].state is Committed,
        after[id].version == before[id].attempts + 1,
        exists|k: int, staged: R|
            0 <= k < events.len() && (#[trigger] events[k]).load_handle == id && events[k].error
                is None && #[trigger] registry.visitor(before[id].asset_type).updates(
                states[k],
                id,
                before[id].data,
                (before[id].attempts + 1) as u32,
                staged,
                Ok(()),
            ) && registry.visitor(before[id].asset_type).commits(
                staged,
                id,
                (before[id].attempts + 1) as u32,
                states[k + 1],
            ),
{
    let k = choose|k: int| 0 <= k < events.len() && (#[trigger] events[k]).load_handle == id;
    assert(event_explains(registry, before[id], after[id], events[k]));
    assert(storage_step(registry, before[id], events[k], states[k], states[k + 1]));
    let visitor = registry.visitor(before[id].asset_type);
    let version = (before[id].attempts + 1) as u32;
    assert(events[k].error is None);
    let staged = choose|staged: R|
        #[trigger] visitor.updates(states[k], id, before[id].data, version, staged, Ok(()))
            && visitor.commits(staged, id, version, states[k + 1]);
    assert(visitor.updates(states[k], id, before[id].data, version, staged, Ok(())));
}

/// A load that was asked for runs to its commit: one cycle hands it to a
/// worker, the bytes are delivered, and with a storage that never refuses
/// the next cycle stages and commits exactly these bytes under the next
/// version.
pub proof fn lemma_load_runs_to_commit<V: StorageVisitor<R>, R>(
    registry: &AssetTypeRegistry<V>,
    asked: Table,
    fetching: Table,
    fetch_events: Seq<CycleEvent>,
    asset_type: AssetTypeId,
    data: Seq<u8>,
    committed: Table,
    events: Seq<CycleEvent>,
    states: Seq<R>,
    id: LoadHandle,
)
    requires
        asked.contains_key(id),
        asked[id].state is Requested,
        asked[id].attempts < u32::MAX,
        cycle_relates(registry, asked, fetching, fetch_events),
        cycle_relates(
            registry,
            fetching.insert(id, fetching[id].delivered(asset_type, data)),
            committed,
            events,
        ),
        storage_trace(
            registry,
            fetching.insert(id, fetching[id].delivered(asset_type, data)),
            events,
            states,
        ),
        registry.is_registered(asset_type),
        never_refuses(registry.visitor(asset_type)),
    ensures
        fetching[id].state is BytesPending,
        committed[id].state is Committed,
        committed[id].version == asked[id].attempts + 1,
        exists|k: int, staged: R|
            0 <= k < events.len() && (#[trigger] events[k]).load_handle == id && events[k].error
                is None && #[trigger] registry.visitor(asset_type).updates(
                states[k],
                id,
                data,
                (asked[id].attempts + 1) as u32,
                staged,
                Ok(()),
            ) && registry.visitor(asset_type).commits(
                staged,
                id,
                (asked[id].attempts + 1) as u32,
                states[k + 1],
            ),
{
    lemma_requested_load_is_fetched(registry, asked, fetching, fetch_events, id);
    let delivered = fetching.insert(id, fetching[id].delivered(asset_type, data));
    lemma_delivered_bytes_are_committed(registry, delivered, committed, events, states, id);
}

/// Once the last reference is gone, the next cycle releases a committed
/// asset, and releases it once: exactly one event names the identifier, it
/// hands the committed version to the storage, and the slot is `Freed`, so
/// that no later cycle calls for anything on it.
pub proof fn lemma_unreferenced_asset_is_freed_once<V: StorageVisitor<R>, R>(
    registry: &AssetTypeRegistry<V>,
    before: Table,
    after: Table,
    events: Seq<CycleEvent>,
    states: Seq<R>,
    id: LoadHandle,
)
    requires
        cycle_relates(registry, before, after, events),
        storage_trace(registry, before, events, states),
        before.contains_key(id),
        before[id].state is Committed,
        before[id].refs == 0,
        registry.is_registered(before[id].asset_type),
    ensures
        after[id].state is Freed,
        after[id].action() is Idle,
        exists|k: int|
            0 <= k < events.len() && (#[trigger] events[k]).load_handle == id && events[k].action
                is Free && events[k].error is None && registry.visitor(
                before[id].asset_type,
            ).frees(states[k], id, events[k].action->Free_version, states[k + 1]) && forall|j: int|
                0 <= j < events.len() && j != k ==> (#[trigger] events[j]).load_handle != id,
{
    let k = choose|k: int| 0 <= k < events.len() && (#[trigger] events[k]).load_handle == id;
    assert(event_explains(registry, before[id], after[id], events[k]));
    assert(storage_step(registry, before[id], events[k], states[k], states[k + 1]));
    assert forall|j: int| 0 <= j < events.len() && j != k implies (
    #[trigger] events[j]).load_handle != id by {
        if j < k {
            assert(events[j].load_handle != events[k].load_handle);
        } else {
            assert(events[k].load_handle != events[j].load_handle);
        }
    }
}

} // verus!
