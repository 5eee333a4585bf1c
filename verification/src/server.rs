//! The coordinator: hands out handles, resolves logical names, and once per
//! cycle applies the queued reference-count operations and moves the loads
//! on.

use vstd::prelude::*;
use crate::channel::{capacity_of, channel_of, queued, take_op, RefOp, RefOpChannel};
use crate::engine::cycle::{
    cycle_relates, quiet, storage_follows, swept, versions_rise, CycleEvent,
};
use crate::engine::pump::{counts_fit, pumped};
use crate::engine::{slot_in, LoadEngine, Table};
use crate::error::{ConfigurationError, RefCountError};
use crate::handle::{GenericHandle, Handle};
use crate::ids::{AssetTypeId, LoadHandle};
use crate::indirect::IndirectionTable;
use crate::registry::{AssetTypeRegistry, StorageVisitor};
use crate::settings::{select_backend, selection_matches, AssetServerSettings, Backend};
use crate::slot::LoadStatus;

verus! {

/// Info about a specific asset, such as its path and its current load state.
#[derive(Debug)]
pub struct AssetInfo {
    pub load_handle: LoadHandle,
    pub path: String,
    pub load_state: LoadStatus,
}

/// A load for a worker to carry out: the slot, and the logical name under
/// which its bytes are found. A slot that was asked for by its identifier
/// has no name: the identifier is all the backend gets.
#[derive(Debug)]
pub struct LoadRequest {
    pub load_handle: LoadHandle,
    pub locator: Option<String>,
}

/// What one run of the pump took from the queue and made of it.
#[derive(Debug)]
pub struct PumpReport {
    /// The operations taken from the queue, in their order.
    pub applied: Vec<RefOp>,
    /// The error that stopped the run. The operation that met it, and those
    /// after it, were not applied.
    pub error: Option<RefCountError>,
}

/// What one cycle of the coordinator did.
#[derive(Debug)]
pub struct CycleReport {
    /// The run of the pump that opened the cycle.
    pub pump: PumpReport,
    /// What was done for each slot that called for something. Empty where
    /// the pump met an error: the cycle ends there.
    pub events: Vec<CycleEvent>,
}

/// What `load` makes of a coordinator: `path` is resolved to `id`, the same
/// as before where it was resolved before and a handle never issued where
/// it was not; the other names resolve as they did; and the slot of `id`
/// has been asked for its load.
///
/// An identifier that is issued for a new name has stood for no name
/// before, but it may be tracked already: `get_handle` and `load_direct`
/// take any identifier, also one that is issued only later. The load then
/// joins the slot that is there, with its count and its state: that is
/// what the clause on the table says.
pub open spec fn load_relates(
    before: AssetServer,
    path: Seq<char>,
    after: AssetServer,
    id: LoadHandle,
) -> bool {
    &&& after.indirections().knows(path)
    &&& after.indirections().handle_of(path) == id
    &&& before.indirections().knows(path) ==> id == before.indirections().handle_of(path)
        && after.indirections().entries() == before.indirections().entries()
        && after.indirections().issued() == before.indirections().issued()
    &&& !before.indirections().knows(path) ==> id == LoadHandle(
        (before.indirections().issued() + 1) as u64,
    ) && !before.indirections().names(id) && after.indirections().issued()
        == before.indirections().issued() + 1
    &&& forall|other: Seq<char>|
        other != path ==> (after.indirections().knows(other) == before.indirections().knows(other))
            && (before.indirections().knows(other) ==> after.indirections().handle_of(other)
            == before.indirections().handle_of(other))
    &&& after.table() == before.table().insert(id, before.slot(id).requested())
    &&& after.selected() == before.selected()
    &&& after.queue() == before.queue()
}

/// Asking twice for the same name gives the same identifier, and the second
/// request starts no second load: the table and the resolutions are as the
/// first request left them.
pub proof fn lemma_same_name_same_handle(
    start: AssetServer,
    once: AssetServer,
    twice: AssetServer,
    path: Seq<char>,
    first: LoadHandle,
    second: LoadHandle,
)
    requires
        load_relates(start, path, once, first),
        load_relates(once, path, twice, second),
    ensures
        second == first,
        twice.table() == once.table(),
        twice.indirections().entries() == once.indirections().entries(),
{
    assert(once.table().contains_key(first));
    assert(once.slot(first) == start.slot(first).requested());
    assert(once.slot(first).requested() == once.slot(first));
    assert(twice.table() =~= once.table());
}

/// Loads assets and hands out the handles that keep them alive.
pub struct AssetServer {
    backend: Backend,
    engine: LoadEngine,
    indirections: IndirectionTable,
    queue: RefOpChannel,
}

impl AssetServer {
    /// The bookkeeping table of the load engine.
    pub closed spec fn table(&self) -> Table {
        self.engine@
    }

    /// The logical names resolved so far.
    pub closed spec fn indirections(&self) -> IndirectionTable {
        self.indirections
    }

    /// The backend that was selected at startup.
    pub closed spec fn selected(&self) -> Backend {
        self.backend
    }

    /// The channel that this coordinator's pump reads.
    pub closed spec fn queue(&self) -> int {
        self.queue.id()
    }

    /// The slot of `id`; an identifier that is not tracked stands as a
    /// fresh slot.
    pub open spec fn slot(&self, id: LoadHandle) -> crate::slot::SlotView {
        slot_in(self.table(), id)
    }

    /// The counts of a coordinator's table are such as can be held, which
    /// is what the laws of the pump ask of a table.
    pub proof fn lemma_counts_fit(&self)
        ensures
            counts_fit(self.table()),
    {
        self.engine.lemma_counts_fit();
    }

    /// A coordinator for `settings`, with nothing loaded and no name
    /// resolved. The backend is selected, not started: opening the archive
    /// or starting the daemon is left to the caller.
    pub fn new(settings: &AssetServerSettings, daemon_available: bool) -> (made: Result<
        Self,
        ConfigurationError,
    >)
        ensures
            match made {
                Ok(server) => {
                    &&& selection_matches(*settings, daemon_available, Ok(server.selected()))
                    &&& server.table() == Map::<LoadHandle, crate::slot::SlotView>::empty()
                    &&& server.indirections().entries().len() == 0
                    &&& server.indirections().issued() == 0
                    &&& !server.indirections().exhausted()
                },
                Err(error) => selection_matches(*settings, daemon_available, Err(error)),
            },
    {
        match select_backend(settings, daemon_available) {
            Ok(backend) => Ok(
                AssetServer {
                    backend,
                    engine: LoadEngine::new(),
                    indirections: IndirectionTable::new(),
                    queue: RefOpChannel::new(),
                },
            ),
            Err(error) => Err(error),
        }
    }

    /// The backend that was selected at startup.
    pub fn backend(&self) -> (backend: &Backend)
        ensures
            *backend == self.selected(),
    {
        &self.backend
    }

    /// A sending end of this coordinator's queue of reference-count
    /// operations. The queue is unbounded: sending on it never waits.
    pub fn ref_op_tx(&self) -> (tx: crossbeam_channel::Sender<RefOp>)
        ensures
            capacity_of(tx) is None,
            channel_of(tx) == self.queue(),
    {
        self.queue.sender()
    }

    /// A handle for an identifier that is known already. No load is asked
    /// for; the handle's `Increase` is enqueued, on this coordinator's
    /// queue, before it is returned.
    pub fn get_handle<T>(&self, id: LoadHandle) -> (handle: Handle<T>)
        ensures
            handle.id() == id,
            handle.channel() == self.queue(),
    {
        Handle::new(self.ref_op_tx(), id)
    }

    /// As `get_handle`, without a type.
    pub fn get_handle_untyped(&self, id: LoadHandle) -> (handle: GenericHandle)
        ensures
            handle.id() == id,
            handle.channel() == self.queue(),
    {
        GenericHandle::new(self.ref_op_tx(), id)
    }

    /// Whether `load` may be called on `path`: always, but for a new name
    /// when every handle has been issued.
    pub fn can_load(&self, path: &str) -> (loadable: bool)
        ensures
            loadable == self.indirections().can_resolve(path@),
    {
        self.indirections.is_resolvable(path)
    }

    /// Resolves `path` and asks for its load. Returns at once, with a handle
    /// whose `Increase` is enqueued. A name that was resolved before gives
    /// the same identifier, and a load that is under way is not started a
    /// second time.
    pub fn load<T>(&mut self, path: &str) -> (handle: Handle<T>)
        requires
            old(self).indirections().can_resolve(path@),
        ensures
            load_relates(*old(self), path@, *final(self), handle.id()),
            handle.channel() == final(self).queue(),
    {
        self.load_untyped(path).typed()
    }

    /// As `load`, without a type.
    pub fn load_untyped(&mut self, path: &str) -> (handle: GenericHandle)
        requires
            old(self).indirections().can_resolve(path@),
        ensures
            load_relates(*old(self), path@, *final(self), handle.id()),
            handle.channel() == final(self).queue(),
    {
        let id = self.indirections.resolve(path).load_handle;
        self.engine.request(id);
        GenericHandle::new(self.ref_op_tx(), id)
    }

    /// Asks for the load of an identifier that is known already, without a
    /// name to resolve. Returns at once, with a handle whose `Increase` is
    /// enqueued. A load that is under way is not started a second time.
    ///
    /// Identifiers given here and identifiers issued for names are of one
    /// kind: an identifier that is tracked through this call and issued for
    /// a name later stands for one slot.
    pub fn load_direct<T>(&mut self, id: LoadHandle) -> (handle: Handle<T>)
        ensures
            handle.id() == id,
            handle.channel() == final(self).queue(),
            final(self).table() == old(self).table().insert(id, old(self).slot(id).requested()),
            final(self).indirections() == old(self).indirections(),
            final(self).selected() == old(self).selected(),
            final(self).queue() == old(self).queue(),
    {
        self.load_direct_untyped(id).typed()
    }

    /// As `load_direct`, without a type.
    pub fn load_direct_untyped(&mut self, id: LoadHandle) -> (handle: GenericHandle)
        ensures
            handle.id() == id,
            handle.channel() == final(self).queue(),
            final(self).table() == old(self).table().insert(id, old(self).slot(id).requested()),
            final(self).indirections() == old(self).indirections(),
            final(self).selected() == old(self).selected(),
            final(self).queue() == old(self).queue(),
    {
        self.engine.request(id);
        GenericHandle::new(self.ref_op_tx(), id)
    }

    /// Hands the engine the bytes a worker fetched for `id`, with the type
    /// they came with. Returns whether the slot was waiting for them; where
    /// it was not, nothing changes.
    pub fn deliver(&mut self, id: LoadHandle, asset_type: AssetTypeId, data: Vec<u8>) -> (accepted:
        bool)
        ensures
            accepted == (old(self).slot(id).state is BytesPending),
            accepted ==> final(self).table() == old(self).table().insert(
                id,
                old(self).slot(id).delivered(asset_type, data@),
            ),
            !accepted ==> final(self).table() == old(self).table(),
            final(self).indirections() == old(self).indirections(),
            final(self).selected() == old(self).selected(),
            final(self).queue() == old(self).queue(),
    {
        self.engine.deliver(id, asset_type, data)
    }

    /// Tells the engine that the backend could not supply the bytes of
    /// `id`: only that request fails, and the slot returns to `Unloaded`.
    /// Returns whether the slot was waiting for bytes.
    pub fn fail_fetch(&mut self, id: LoadHandle) -> (accepted: bool)
        ensures
            accepted == (old(self).slot(id).state is BytesPending),
            accepted ==> final(self).table() == old(self).table().insert(
                id,
                old(self).slot(id).fetch_failed(),
            ),
            !accepted ==> final(self).table() == old(self).table(),
            final(self).indirections() == old(self).indirections(),
            final(self).selected() == old(self).selected(),
            final(self).queue() == old(self).queue(),
    {
        self.engine.fail_fetch(id)
    }

    /// What a poll of `id` reports. Before a version is committed it is
    /// never `Loaded`.
    pub fn load_status(&self, id: LoadHandle) -> (status: LoadStatus)
        ensures
            status == self.slot(id).status(),
            status is Loaded <==> self.slot(id).state is Committed,
    {
        self.engine.status(id)
    }

    /// The reference count of `id` as the pump has left it.
    pub fn ref_count(&self, id: LoadHandle) -> (refs: u64)
        ensures
            refs == self.slot(id).refs,
    {
        self.engine.ref_count(id)
    }

    /// The committed version of `id`, while one is committed.
    pub fn committed_version(&self, id: LoadHandle) -> (version: Option<u32>)
        ensures
            version is Some == (self.slot(id).state is Committed),
            version is Some ==> version->0 == self.slot(id).version,
    {
        self.engine.committed_version(id)
    }

    /// The name and load state of `id`, where `id` stands for a name.
    pub fn asset_info(&self, id: LoadHandle) -> (info: Option<AssetInfo>)
        ensures
            info is Some == self.indirections().names(id),
            info is Some ==> {
                &&& info->0.load_handle == id
                &&& info->0.path@ == self.indirections().path_of(id)
                &&& info->0.load_state == self.slot(id).status()
            },
    {
        match self.indirections.locator(id) {
            Some(path) => Some(
                AssetInfo { load_handle: id, path, load_state: self.engine.status(id) },
            ),
            None => None,
        }
    }

    /// The request to hand to a worker for `id`: with the name `id` stands
    /// for, where it stands for one.
    pub fn load_request(&self, id: LoadHandle) -> (request: LoadRequest)
        ensures
            request.load_handle == id,
            request.locator is Some == self.indirections().names(id),
            request.locator is Some ==> request.locator->0@ == self.indirections().path_of(id),
    {
        LoadRequest { load_handle: id, locator: self.indirections.locator(id) }
    }

    /// Takes from the queue the operations that are waiting in it.
    fn drain(&self) -> (ops: Vec<RefOp>) {
        let waiting = queued(&self.queue.rx);
        let mut ops: Vec<RefOp> = Vec::new();
        let mut taken: usize = 0;
        while taken < waiting
            invariant
                taken <= waiting,
            decreases waiting - taken,
        {
            match take_op(&self.queue.rx) {
                Some(op) => {
                    ops.push(op);
                    taken = taken + 1;
                },
                None => {
                    taken = waiting;
                },
            }
        }
        ops
    }

    /// The pump: takes the queued operations and applies them, in their
    /// order, to the reference counts. It stops at an operation that would
    /// take a count below zero, or beyond what can be counted, and reports
    /// it; nothing is clamped.
    pub fn apply_pending(&mut self) -> (report: PumpReport)
        ensures
            final(self).table() == pumped(old(self).table(), report.applied@).table,
            report.error == pumped(old(self).table(), report.applied@).error,
            final(self).indirections() == old(self).indirections(),
            final(self).selected() == old(self).selected(),
            final(self).queue() == old(self).queue(),
    {
        let applied = self.drain();
        let error = match self.engine.apply_ref_ops(&applied) {
            Ok(_) => None,
            Err(error) => Some(error),
        };
        PumpReport { applied, error }
    }

    /// One cycle: the pump first, then one step of every load, so that a
    /// reference that arrived in this cycle is counted before anything is
    /// released. Where the pump meets an error the cycle ends with it, and
    /// no storage is touched.
    pub fn process_system<V: StorageVisitor<R>, R>(
        &mut self,
        registry: &AssetTypeRegistry<V>,
        resources: &mut R,
    ) -> (report: CycleReport)
        ensures
            report.pump.error == pumped(old(self).table(), report.pump.applied@).error,
            report.pump.error is Some ==> report.events@.len() == 0 && final(self).table()
                == pumped(old(self).table(), report.pump.applied@).table && *final(resources)
                == *old(resources),
            report.pump.error is None ==> cycle_relates(
                registry,
                pumped(old(self).table(), report.pump.applied@).table,
                final(self).table(),
                report.events@,
            ),
            report.pump.error is None ==> versions_rise(
                pumped(old(self).table(), report.pump.applied@).table,
                final(self).table(),
                report.events@,
            ),
            report.pump.error is None ==> storage_follows(
                registry,
                pumped(old(self).table(), report.pump.applied@).table,
                report.events@,
                *old(resources),
                *final(resources),
            ),
            report.pump.error is None && quiet(
                registry,
                pumped(old(self).table(), report.pump.applied@).table,
            ) ==> *final(resources) == *old(resources),
            final(self).indirections() == old(self).indirections(),
            final(self).selected() == old(self).selected(),
            final(self).queue() == old(self).queue(),
    {
        let pump = self.apply_pending();
        let events = if pump.error.is_none() {
            self.engine.process(registry, resources)
        } else {
            Vec::new()
        };
        CycleReport { pump, events }
    }

    /// Stops tracking every identifier that holds nothing: released or
    /// unloaded, and without a reference. Returns those identifiers.
    pub fn recycle(&mut self) -> (removed: Vec<LoadHandle>)
        ensures
            final(self).table() == swept(old(self).table()),
            forall|id: LoadHandle|
                #![trigger removed@.contains(id)]
                removed@.contains(id) <==> {
                    &&& old(self).table().contains_key(id)
                    &&& old(self).table()[id].disposable()
                },
            forall|a: int, b: int|
                0 <= a < b < removed.len() ==> #[trigger] removed[a] != #[trigger] removed[b],
            final(self).indirections() == old(self).indirections(),
            final(self).selected() == old(self).selected(),
            final(self).queue() == old(self).queue(),
    {
        self.engine.sweep()
    }
}

} // verus!
