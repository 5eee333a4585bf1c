//! One load slot: its states, and what each event does to it.

use vstd::prelude::*;
use crate::error::RefCountError;
use crate::ids::{AssetTypeId, LoadHandle};

verus! {

/// Where a load stands.
#[derive(Clone, Copy, Debug, PartialEq, Eq, Structural)]
pub enum LoadState {
    /// Nothing is loaded and nothing is under way.
    Unloaded,
    /// A load was asked for; no worker has taken it yet.
    Requested,
    /// A worker is fetching the bytes.
    BytesPending,
    /// The bytes have arrived and wait to be decoded into a staged value.
    Decoding,
    /// A version is committed and visible to readers.
    Committed,
    /// The committed version was released: the end of this load. A new
    /// request starts a new one.
    Freed,
}

/// What a poll of a slot reports.
#[derive(Clone, Copy, Debug, PartialEq, Eq, Structural)]
pub enum LoadStatus {
    /// There is no request for the asset to be loaded.
    NotRequested,
    /// The asset is being loaded.
    Loading,
    /// The asset is loaded and ready to use.
    Loaded,
    /// The last load of the asset failed.
    Error,
}

/// What one cycle has to do for a slot.
#[derive(Clone, Copy, Debug, PartialEq, Eq, Structural)]
pub enum SlotAction {
    /// Nothing.
    Idle,
    /// Hand the request to a worker.
    Fetch,
    /// Decode the bytes held by the slot and stage them under `version`.
    Decode { asset_type: AssetTypeId, version: u32 },
    /// The bytes cannot be staged: no version number is left.
    Exhausted,
    /// Release `version` from the storage of `asset_type`.
    Free { asset_type: AssetTypeId, version: u32 },
}

/// A slot as a value: what the contracts speak of.
pub struct SlotView {
    pub id: LoadHandle,
    pub state: LoadState,
    /// Live references, as far as the pump has seen them.
    pub refs: nat,
    /// Version numbers handed out so far.
    pub attempts: nat,
    /// The committed version; 0 before the first commit.
    pub version: nat,
    /// The type the bytes arrived with; set from `Decoding` on.
    pub asset_type: AssetTypeId,
    /// The bytes that wait to be decoded; empty outside `Decoding`.
    pub data: Seq<u8>,
    /// Whether the last load ended in an error.
    pub failed: bool,
}

impl SlotView {
    /// A slot nobody has asked anything of.
    pub open spec fn fresh(id: LoadHandle) -> SlotView {
        SlotView {
            id,
            state: LoadState::Unloaded,
            refs: 0,
            attempts: 0,
            version: 0,
            asset_type: AssetTypeId(0),
            data: Seq::empty(),
            failed: false,
        }
    }

    /// Whether a load is under way.
    pub open spec fn in_flight(self) -> bool {
        self.state is Requested || self.state is BytesPending || self.state is Decoding
    }

    /// Whether a request starts a load: only where none is under way and
    /// nothing is committed.
    pub open spec fn accepts_request(self) -> bool {
        self.state is Unloaded || self.state is Freed
    }

    /// After a load was asked for. A request for a slot whose load is under
    /// way, or whose asset is committed, changes nothing.
    pub open spec fn requested(self) -> SlotView {
        if self.accepts_request() {
            SlotView { state: LoadState::Requested, failed: false, ..self }
        } else {
            self
        }
    }

    /// After the bytes arrived with their type tag.
    pub open spec fn delivered(self, asset_type: AssetTypeId, data: Seq<u8>) -> SlotView {
        if self.state is BytesPending {
            SlotView { state: LoadState::Decoding, asset_type, data, ..self }
        } else {
            self
        }
    }

    /// After the backend failed to supply the bytes.
    pub open spec fn fetch_failed(self) -> SlotView {
        if self.state is BytesPending {
            SlotView { state: LoadState::Unloaded, failed: true, ..self }
        } else {
            self
        }
    }

    /// After the pump applied an `Increase`.
    pub open spec fn ref_added(self) -> SlotView {
        SlotView { refs: self.refs + 1, ..self }
    }

    /// After the pump applied a `Decrease`.
    pub open spec fn ref_removed(self) -> SlotView {
        SlotView { refs: (self.refs - 1) as nat, ..self }
    }

    /// What the next cycle does for the slot.
    pub open spec fn action(self) -> SlotAction {
        match self.state {
            LoadState::Requested => SlotAction::Fetch,
            LoadState::Decoding => if self.attempts < u32::MAX {
                SlotAction::Decode {
                    asset_type: self.asset_type,
                    version: (self.attempts + 1) as u32,
                }
            } else {
                SlotAction::Exhausted
            },
            LoadState::Committed => if self.refs == 0 {
                SlotAction::Free { asset_type: self.asset_type, version: self.version as u32 }
            } else {
                SlotAction::Idle
            },
            _ => SlotAction::Idle,
        }
    }

    /// After one cycle, of which `decoded` says whether the bytes could be
    /// staged (it matters only where the action is `Decode`).
    pub open spec fn stepped(self, decoded: bool) -> SlotView {
        match self.action() {
            SlotAction::Idle => self,
            SlotAction::Fetch => SlotView { state: LoadState::BytesPending, ..self },
            SlotAction::Exhausted => SlotView {
                state: LoadState::Unloaded,
                data: Seq::empty(),
                failed: true,
                ..self
            },
            SlotAction::Decode { asset_type, version } => if decoded {
                SlotView {
                    state: LoadState::Committed,
                    attempts: self.attempts + 1,
                    version: self.attempts + 1,
                    data: Seq::empty(),
                    failed: false,
                    ..self
                }
            } else {
                SlotView {
                    state: LoadState::Unloaded,
                    attempts: self.attempts + 1,
                    data: Seq::empty(),
                    failed: true,
                    ..self
                }
            },
            SlotAction::Free { asset_type, version } => SlotView {
                state: LoadState::Freed,
                ..self
            },
        }
    }

    /// What a poll reports.
    pub open spec fn status(self) -> LoadStatus {
        match self.state {
            LoadState::Committed => LoadStatus::Loaded,
            LoadState::Requested | LoadState::BytesPending | LoadState::Decoding =>
                LoadStatus::Loading,
            LoadState::Unloaded | LoadState::Freed => if self.failed {
                LoadStatus::Error
            } else {
                LoadStatus::NotRequested
            },
        }
    }

    /// Whether the slot holds nothing worth keeping: nothing is loaded or
    /// under way, and no reference is left.
    pub open spec fn disposable(self) -> bool {
        (self.state is Freed || self.state is Unloaded) && self.refs == 0
    }
}

/// One entry of the engine's bookkeeping table.
pub struct LoadSlot {
    pub id: LoadHandle,
    pub state: LoadState,
    pub refs: u64,
    pub attempts: u32,
    pub version: u32,
    pub asset_type: AssetTypeId,
    pub data: Vec<u8>,
    pub failed: bool,
}

impl View for LoadSlot {
    type V = SlotView;

    open spec fn view(&self) -> SlotView {
        SlotView {
            id: self.id,
            state: self.state,
            refs: self.refs as nat,
            attempts: self.attempts as nat,
            version: self.version as nat,
            asset_type: self.asset_type,
            data: self.data@,
            failed: self.failed,
        }
    }
}

impl LoadSlot {
    pub fn new(id: LoadHandle) -> (slot: Self)
        ensures
            slot@ == SlotView::fresh(id),
    {
        LoadSlot {
            id,
            state: LoadState::Unloaded,
            refs: 0,
            attempts: 0,
            version: 0,
            asset_type: AssetTypeId(0),
            data: Vec::new(),
            failed: false,
        }
    }

    /// Asks for a load. Returns whether one was started.
    pub fn request(&mut self) -> (started: bool)
        ensures
            final(self)@ == old(self)@.requested(),
            started == old(self)@.accepts_request(),
    {
        match self.state {
            LoadState::Unloaded | LoadState::Freed => {
                self.state = LoadState::Requested;
                self.failed = false;
                true
            },
            _ => false,
        }
    }

    /// Takes the bytes a worker fetched. Returns whether the slot was
    /// waiting for them; if not, they are discarded.
    pub fn deliver(&mut self, asset_type: AssetTypeId, data: Vec<u8>) -> (accepted: bool)
        ensures
            final(self)@ == old(self)@.delivered(asset_type, data@),
            accepted == (old(self)@.state is BytesPending),
    {
        match self.state {
            LoadState::BytesPending => {
                self.state = LoadState::Decoding;
                self.asset_type = asset_type;
                self.data = data;
                true
            },
            _ => false,
        }
    }

    /// Records that the backend could not supply the bytes. Returns whether
    /// the slot was waiting for them.
    pub fn fail_fetch(&mut self) -> (accepted: bool)
        ensures
            final(self)@ == old(self)@.fetch_failed(),
            accepted == (old(self)@.state is BytesPending),
    {
        match self.state {
            LoadState::BytesPending => {
                self.state = LoadState::Unloaded;
                self.failed = true;
                true
            },
            _ => false,
        }
    }

    /// Counts one more reference. The count is left as it is where it
    /// cannot grow.
    pub fn add_ref(&mut self) -> (counted: Result<(), RefCountError>)
        ensures
            old(self)@.refs < u64::MAX ==> counted is Ok && final(self)@ == old(self)@.ref_added(),
            old(self)@.refs == u64::MAX ==> counted == Err::<(), RefCountError>(
                RefCountError::Overflow(old(self)@.id),
            ) && final(self)@ == old(self)@,
    {
        if self.refs == u64::MAX {
            Err(RefCountError::Overflow(self.id))
        } else {
            self.refs = self.refs + 1;
            Ok(())
        }
    }

    /// Counts one reference less. A count of zero is left as it is: the
    /// release has no reference to answer.
    pub fn remove_ref(&mut self) -> (counted: Result<(), RefCountError>)
        ensures
            old(self)@.refs > 0 ==> counted is Ok && final(self)@ == old(self)@.ref_removed(),
            old(self)@.refs == 0 ==> counted == Err::<(), RefCountError>(
                RefCountError::Underflow(old(self)@.id),
            ) && final(self)@ == old(self)@,
    {
        if self.refs == 0 {
            Err(RefCountError::Underflow(self.id))
        } else {
            self.refs = self.refs - 1;
            Ok(())
        }
    }

    /// What the next cycle has to do for the slot.
    pub fn action(&self) -> (action: SlotAction)
        ensures
            action == self@.action(),
    {
        match self.state {
            LoadState::Requested => SlotAction::Fetch,
            LoadState::Decoding => {
                if self.attempts < u32::MAX {
                    SlotAction::Decode { asset_type: self.asset_type, version: self.attempts + 1 }
                } else {
                    SlotAction::Exhausted
                }
            },
            LoadState::Committed => {
                if self.refs == 0 {
                    SlotAction::Free { asset_type: self.asset_type, version: self.version }
                } else {
                    SlotAction::Idle
                }
            },
            _ => SlotAction::Idle,
        }
    }

    /// Moves the slot on by one cycle; `decoded` says whether the bytes
    /// could be staged.
    pub fn advance(&mut self, decoded: bool)
        ensures
            final(self)@ == old(self)@.stepped(decoded),
    {
        match self.action() {
            SlotAction::Idle => {},
            SlotAction::Fetch => {
                self.state = LoadState::BytesPending;
            },
            SlotAction::Exhausted => {
                self.state = LoadState::Unloaded;
                self.data = Vec::new();
                self.failed = true;
            },
            SlotAction::Decode { asset_type, version } => {
                self.attempts = version;
                self.data = Vec::new();
                if decoded {
                    self.state = LoadState::Committed;
                    self.version = version;
                    self.failed = false;
                } else {
                    self.state = LoadState::Unloaded;
                    self.failed = true;
                }
            },
            SlotAction::Free { asset_type, version } => {
                self.state = LoadState::Freed;
            },
        }
    }

    /// What a poll reports.
    pub fn status(&self) -> (status: LoadStatus)
        ensures
            status == self@.status(),
    {
        match self.state {
            LoadState::Committed => LoadStatus::Loaded,
            LoadState::Requested | LoadState::BytesPending | LoadState::Decoding =>
                LoadStatus::Loading,
            LoadState::Unloaded | LoadState::Freed => {
                if self.failed {
                    LoadStatus::Error
                } else {
                    LoadStatus::NotRequested
                }
            },
        }
    }

    /// Whether the slot can leave the table.
    pub fn is_disposable(&self) -> (disposable: bool)
        ensures
            disposable == self@.disposable(),
    {
        (match self.state {
            LoadState::Freed | LoadState::Unloaded => true,
            _ => false,
        }) && self.refs == 0
    }
}

/// A release is called for exactly where a version is committed and no
/// reference is left.
pub proof fn lemma_free_needs_commit_and_no_refs(slot: SlotView)
    ensures
        slot.action() is Free <==> slot.state is Committed && slot.refs == 0,
        slot.action() is Free ==> slot.stepped(true).state is Freed && slot.stepped(false).state
            is Freed,
{
}

/// A poll reports `Loaded` exactly while a version is committed. From the
/// request up to the commit every poll reports `Loading`; the step that
/// decodes ends in `Loaded` or, on an error, in `Error`.
pub proof fn lemma_not_ready_before_commit(
    slot: SlotView,
    asset_type: AssetTypeId,
    data: Seq<u8>,
)
    requires
        slot.accepts_request(),
    ensures
        forall|any: SlotView| any.status() is Loaded <==> any.state is Committed,
        slot.status() !is Loaded,
        slot.requested().status() is Loading,
        slot.requested().stepped(true).status() is Loading,
        slot.requested().stepped(true).delivered(asset_type, data).status() is Loading,
        slot.requested().stepped(true).fetch_failed().status() is Error,
        slot.attempts < u32::MAX ==> slot.requested().stepped(true).delivered(
            asset_type,
            data,
        ).stepped(true).status() is Loaded,
        slot.requested().stepped(true).delivered(asset_type, data).stepped(false).status()
            is Error,
{
}

/// The committed version changes in one step only: where bytes were decoded
/// and staged, from the old number straight to the staged one. Every other
/// event, a failed decode among them, leaves it as it is.
pub proof fn lemma_version_changes_only_by_commit(
    slot: SlotView,
    asset_type: AssetTypeId,
    data: Seq<u8>,
)
    ensures
        slot.requested().version == slot.version,
        slot.delivered(asset_type, data).version == slot.version,
        slot.fetch_failed().version == slot.version,
        slot.ref_added().version == slot.version,
        slot.ref_removed().version == slot.version,
        slot.stepped(false).version == slot.version,
        slot.action() is Decode ==> slot.stepped(true).version == slot.attempts + 1
            && slot.stepped(true).state is Committed && slot.action()->Decode_version
            == slot.attempts + 1,
        !(slot.action() is Decode) ==> slot.stepped(true).version == slot.version,
{
}

/// The versions of one identifier only grow. Whatever happens to a slot
/// whose committed version is among the numbers handed out, the numbers
/// handed out do not shrink, the committed version does not fall, and it
/// stays among the numbers handed out. A decode that succeeds commits a
/// number greater than the one committed before.
pub proof fn lemma_versions_only_grow(slot: SlotView, asset_type: AssetTypeId, data: Seq<u8>)
    requires
        slot.version <= slot.attempts,
    ensures
        forall|next: SlotView|
            #![trigger next.version]
            (next == slot.requested() || next == slot.delivered(asset_type, data) || next
                == slot.fetch_failed() || next == slot.ref_added() || next == slot.ref_removed()
                || next == slot.stepped(true) || next == slot.stepped(false)) ==> {
                &&& slot.attempts <= next.attempts
                &&& slot.version <= next.version
                &&& next.version <= next.attempts
            },
        slot.action() is Decode ==> slot.version < slot.stepped(true).version,
{
}

/// A request for a slot whose load is under way, or whose asset is
/// committed, is merged into what is there: asking twice is asking once.
pub proof fn lemma_request_is_idempotent(slot: SlotView)
    ensures
        slot.requested().requested() == slot.requested(),
        !slot.requested().accepts_request(),
{
}

/// After a failed decode the slot is `Unloaded` and holds no bytes. A new
/// request starts afresh: the bytes decoded are those of the new delivery,
/// under a version number that the failed attempt did not use.
pub proof fn lemma_retry_starts_afresh(slot: SlotView, asset_type: AssetTypeId, data: Seq<u8>)
    requires
        slot.action() is Decode,
    ensures
        slot.stepped(false).state is Unloaded,
        slot.stepped(false).failed,
        slot.stepped(false).data.len() == 0,
        slot.stepped(false).version == slot.version,
        slot.stepped(false).action() is Idle,
        slot.stepped(false).requested().state is Requested,
        ({
            let retry = slot.stepped(false).requested().stepped(true).delivered(asset_type, data);
            &&& retry.state is Decoding
            &&& retry.data == data
            &&& retry.attempts == slot.attempts + 1
            &&& retry.attempts < u32::MAX ==> retry.action() == (SlotAction::Decode {
                asset_type,
                version: (slot.attempts + 2) as u32,
            }) && retry.action()->Decode_version != slot.action()->Decode_version
        }),
{
}

} // verus!
