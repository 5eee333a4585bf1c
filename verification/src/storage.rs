//! A typed storage: for each identifier a staged version, which nobody
//! sees, and a visible one. Decoding fills the staged version; a commit
//! makes it the visible one as a whole.

use vstd::prelude::*;
use crate::error::AssetLoadError;
use crate::ids::LoadHandle;
use crate::engine::cycle::never_refuses;
use crate::registry::StorageVisitor;

verus! {

/// Turns raw bytes into the typed value of one asset type.
///
/// What comes out of which bytes is the implementor's to say: `decode`
/// promises the relation `decodes` that the implementor defines. A
/// decoder that is not verified cannot state a relation: it inherits the
/// one written here, which promises nothing.
pub trait Decode {
    type Asset;

    /// Whether `outcome` may come out of `data`.
    open spec fn decodes(
        &self,
        data: Seq<u8>,
        outcome: Result<Self::Asset, AssetLoadError>,
    ) -> bool {
        true
    }

    fn decode(&self, data: &Vec<u8>) -> (outcome: Result<Self::Asset, AssetLoadError>)
        ensures
            self.decodes(data@, outcome),
    ;
}

/// The decoder that keeps the bytes as they are. It never fails.
pub struct RawBytes;

impl Decode for RawBytes {
    type Asset = Vec<u8>;

    open spec fn decodes(&self, data: Seq<u8>, outcome: Result<Vec<u8>, AssetLoadError>) -> bool {
        outcome matches Ok(value) && value@ == data
    }

    fn decode(&self, data: &Vec<u8>) -> (outcome: Result<Vec<u8>, AssetLoadError>) {
        Ok(data.clone())
    }
}

/// The two versions a storage holds of one asset, each with its number.
pub struct Versions<A> {
    /// Decoded and not yet visible.
    pub staged: Option<(u32, A)>,
    /// What readers see.
    pub visible: Option<(u32, A)>,
}

/// One identifier with its versions.
pub struct AssetEntry<A> {
    pub load_handle: LoadHandle,
    pub versions: Versions<A>,
}

/// What a storage holds: the identifiers it knows, each with its versions.
pub type Held<A> = Map<LoadHandle, Versions<A>>;

/// The versions of `id` in `held`; an identifier that is not held has none.
pub open spec fn versions_in<A>(held: Held<A>, id: LoadHandle) -> Versions<A> {
    if held.contains_key(id) {
        held[id]
    } else {
        Versions { staged: None, visible: None }
    }
}

/// Whether `id` occurs among `entries`.
pub open spec fn held_in<A>(entries: Seq<AssetEntry<A>>, id: LoadHandle) -> bool {
    exists|i: int| 0 <= i < entries.len() && (#[trigger] entries[i]).load_handle == id
}

/// A place at which `id` occurs among `entries`.
pub open spec fn place_held<A>(entries: Seq<AssetEntry<A>>, id: LoadHandle) -> int {
    choose|i: int| 0 <= i < entries.len() && (#[trigger] entries[i]).load_handle == id
}

/// No identifier occurs twice.
pub open spec fn distinct_held<A>(entries: Seq<AssetEntry<A>>) -> bool {
    forall|i: int, j: int|
        0 <= i < j < entries.len() ==> (#[trigger] entries[i]).load_handle != (
        #[trigger] entries[j]).load_handle
}

/// What `entries` stand for.
pub open spec fn held_of<A>(entries: Seq<AssetEntry<A>>) -> Held<A> {
    Map::new(
        |id: LoadHandle| held_in(entries, id),
        |id: LoadHandle| entries[place_held(entries, id)].versions,
    )
}

proof fn lemma_held_lookup<A>(entries: Seq<AssetEntry<A>>, i: int)
    requires
        distinct_held(entries),
        0 <= i < entries.len(),
    ensures
        held_in(entries, entries[i].load_handle),
        place_held(entries, entries[i].load_handle) == i,
        held_of(entries).contains_key(entries[i].load_handle),
        held_of(entries)[entries[i].load_handle] == entries[i].versions,
{
    let p = place_held(entries, entries[i].load_handle);
    assert(entries[p].load_handle == entries[i].load_handle);
}

proof fn lemma_held_push<A>(entries: Seq<AssetEntry<A>>, entry: AssetEntry<A>)
    requires
        distinct_held(entries),
        !held_in(entries, entry.load_handle),
    ensures
        distinct_held(entries.push(entry)),
        held_of(entries.push(entry)) == held_of(entries).insert(entry.load_handle, entry.versions),
{
    let after = entries.push(entry);
    let n = entries.len() as int;
    assert(after[n].load_handle == entry.load_handle);
    assert forall|i: int, j: int| 0 <= i < j < after.len() implies (#[trigger] after[i]).load_handle
        != (#[trigger] after[j]).load_handle by {
        if j == n {
            assert(entries[i].load_handle != entry.load_handle);
        } else {
            assert(entries[i].load_handle != entries[j].load_handle);
        }
    }
    assert forall|id: LoadHandle| held_in(after, id) == (held_in(entries, id) || id
        == entry.load_handle) by {
        if held_in(entries, id) {
            let p = place_held(entries, id);
            assert(after[p].load_handle == id);
        }
        if held_in(after, id) {
            let p = place_held(after, id);
            if p < n {
                assert(entries[p].load_handle == id);
            }
        }
    }
    assert forall|id: LoadHandle| held_in(after, id) implies #[trigger] held_of(after)[id]
        == held_of(entries).insert(entry.load_handle, entry.versions)[id] by {
        let p = place_held(after, id);
        lemma_held_lookup(after, p);
        if p < n {
            lemma_held_lookup(entries, p);
        }
    }
    assert(held_of(after) =~= held_of(entries).insert(entry.load_handle, entry.versions));
}

proof fn lemma_held_update<A>(entries: Seq<AssetEntry<A>>, i: int, entry: AssetEntry<A>)
    requires
        distinct_held(entries),
        0 <= i < entries.len(),
        entry.load_handle == entries[i].load_handle,
    ensures
        distinct_held(entries.update(i, entry)),
        held_of(entries.update(i, entry)) == held_of(entries).insert(
            entry.load_handle,
            entry.versions,
        ),
{
    let after = entries.update(i, entry);
    assert forall|a: int, b: int| 0 <= a < b < after.len() implies (#[trigger] after[a]).load_handle
        != (#[trigger] after[b]).load_handle by {
        assert(entries[a].load_handle != entries[b].load_handle);
    }
    assert forall|id: LoadHandle| held_in(after, id) == held_in(entries, id) by {
        if held_in(entries, id) {
            let p = place_held(entries, id);
            assert(after[p].load_handle == id);
        }
        if held_in(after, id) {
            let p = place_held(after, id);
            assert(entries[p].load_handle == id);
        }
    }
    assert forall|id: LoadHandle| held_in(after, id) implies #[trigger] held_of(after)[id]
        == held_of(entries).insert(entry.load_handle, entry.versions)[id] by {
        let p = place_held(after, id);
        lemma_held_lookup(after, p);
        lemma_held_lookup(entries, p);
    }
    assert(held_of(after) =~= held_of(entries).insert(entry.load_handle, entry.versions));
}

proof fn lemma_held_remove<A>(entries: Seq<AssetEntry<A>>, i: int)
    requires
        distinct_held(entries),
        0 <= i < entries.len(),
    ensures
        distinct_held(entries.remove(i)),
        held_of(entries.remove(i)) == held_of(entries).remove(entries[i].load_handle),
{
    let after = entries.remove(i);
    let gone = entries[i].load_handle;
    assert forall|a: int| 0 <= a < after.len() implies #[trigger] after[a] == entries[if a < i {
        a
    } else {
        a + 1
    }] by {}
    assert forall|a: int, b: int| 0 <= a < b < after.len() implies (#[trigger] after[a]).load_handle
        != (#[trigger] after[b]).load_handle by {
        let x = if a < i { a } else { a + 1 };
        let y = if b < i { b } else { b + 1 };
        assert(entries[x].load_handle != entries[y].load_handle);
    }
    assert forall|id: LoadHandle| held_in(after, id) == (held_in(entries, id) && id != gone) by {
        if held_in(entries, id) && id != gone {
            let p = place_held(entries, id);
            assert(entries[p].load_handle == id);
            let q = if p < i { p } else { p - 1 };
            assert(after[q].load_handle == id);
        }
        if held_in(after, id) {
            let q = place_held(after, id);
            let p = if q < i { q } else { q + 1 };
            assert(entries[p].load_handle == id);
            if id == gone {
                assert(entries[p].load_handle == entries[i].load_handle);
                assert(p != i);
                if p < i {
                    assert(entries[p].load_handle != entries[i].load_handle);
                } else {
                    assert(entries[i].load_handle != entries[p].load_handle);
                }
            }
        }
    }
    assert forall|id: LoadHandle| held_in(after, id) implies #[trigger] held_of(after)[id]
        == held_of(entries).remove(gone)[id] by {
        let q = place_held(after, id);
        let p = if q < i { q } else { q + 1 };
        lemma_held_lookup(after, q);
        lemma_held_lookup(entries, p);
    }
    assert(held_of(after) =~= held_of(entries).remove(gone));
}

/// The assets of one type, decoded by `D`.
pub struct Assets<D: Decode> {
    decoder: D,
    entries: Vec<AssetEntry<D::Asset>>,
}

impl<D: Decode> View for Assets<D> {
    type V = Held<D::Asset>;

    closed spec fn view(&self) -> Held<D::Asset> {
        held_of(self.entries@)
    }
}

/// What `update_asset` makes of a storage: where the bytes decode, the
/// value that came out of them is staged under `version`, whole, and what
/// readers see is as before; where they do not, nothing changes.
pub open spec fn update_relates<D: Decode>(
    before: Assets<D>,
    load_handle: LoadHandle,
    data: Seq<u8>,
    version: u32,
    after: Assets<D>,
    outcome: Result<(), AssetLoadError>,
) -> bool {
    &&& after.decoder() == before.decoder()
    &&& match outcome {
        Ok(_) => {
            &&& versions_in(after@, load_handle).staged matches Some(staged)
            &&& staged.0 == version
            &&& before.decoder().decodes(data, Ok(staged.1))
            &&& after@ == before@.insert(
                load_handle,
                Versions {
                    staged: Some(staged),
                    visible: versions_in(before@, load_handle).visible,
                },
            )
        },
        Err(error) => before.decoder().decodes(data, Err(error)) && after@ == before@,
    }
}

/// Whether `version` is staged for `load_handle`.
pub open spec fn is_staged<A>(held: Held<A>, load_handle: LoadHandle, version: u32) -> bool {
    versions_in(held, load_handle).staged matches Some(staged) && staged.0 == version
}

/// What `commit_asset_version` makes of a storage: the staged version, if
/// it is the one named, becomes the visible one as it is, and nothing is
/// staged any more. Otherwise nothing changes.
pub open spec fn commit_relates<D: Decode>(
    before: Assets<D>,
    load_handle: LoadHandle,
    version: u32,
    after: Assets<D>,
) -> bool {
    &&& after.decoder() == before.decoder()
    &&& if is_staged(before@, load_handle, version) {
        after@ == before@.insert(
            load_handle,
            Versions { staged: None, visible: versions_in(before@, load_handle).staged },
        )
    } else {
        after@ == before@
    }
}

/// What `free` makes of a storage: the identifier is no longer held.
pub open spec fn free_relates<D: Decode>(
    before: Assets<D>,
    load_handle: LoadHandle,
    after: Assets<D>,
) -> bool {
    &&& after.decoder() == before.decoder()
    &&& after@ == before@.remove(load_handle)
}

impl<D: Decode> Assets<D> {
    #[verifier::type_invariant]
    spec fn well_formed(self) -> bool {
        distinct_held(self.entries@)
    }

    /// The decoder the storage was made with.
    pub closed spec fn decoder(&self) -> D {
        self.decoder
    }

    /// An empty storage.
    pub fn new(decoder: D) -> (assets: Self)
        ensures
            assets@ == Map::<LoadHandle, Versions<D::Asset>>::empty(),
            assets.decoder() == decoder,
    {
        let assets = Assets { decoder, entries: Vec::new() };
        assert(assets@ =~= Map::<LoadHandle, Versions<D::Asset>>::empty());
        assets
    }

    fn find(&self, load_handle: LoadHandle) -> (found: Option<usize>)
        ensures
            match found {
                Some(i) => i < self.entries@.len() && self.entries@[i as int].load_handle
                    == load_handle && self@.contains_key(load_handle) && self@[load_handle]
                    == self.entries@[i as int].versions,
                None => !self@.contains_key(load_handle),
            },
    {
        proof {
            use_type_invariant(self);
        }
        let mut i: usize = 0;
        while i < self.entries.len()
            invariant
                self.well_formed(),
                i <= self.entries.len(),
                forall|j: int|
                    0 <= j < i ==> (#[trigger] self.entries[j]).load_handle != load_handle,
            decreases self.entries.len() - i,
        {
            if self.entries[i].load_handle == load_handle {
                proof {
                    lemma_held_lookup(self.entries@, i as int);
                }
                return Some(i);
            }
            i = i + 1;
        }
        None
    }

    /// The value readers see for `load_handle`: the committed one, whole,
    /// or none before the first commit.
    pub fn get(&self, load_handle: LoadHandle) -> (asset: Option<&D::Asset>)
        ensures
            match asset {
                Some(value) => versions_in(self@, load_handle).visible matches Some(visible)
                    && *value == visible.1,
                None => versions_in(self@, load_handle).visible is None,
            },
    {
        match self.find(load_handle) {
            Some(i) => {
                match &self.entries[i].versions.visible {
                    Some(visible) => Some(&visible.1),
                    None => None,
                }
            },
            None => None,
        }
    }

    /// The number of the version readers see for `load_handle`.
    pub fn get_version(&self, load_handle: LoadHandle) -> (version: Option<u32>)
        ensures
            match version {
                Some(number) => versions_in(self@, load_handle).visible matches Some(visible)
                    && number == visible.0,
                None => versions_in(self@, load_handle).visible is None,
            },
    {
        match self.find(load_handle) {
            Some(i) => {
                match &self.entries[i].versions.visible {
                    Some(visible) => Some(visible.0),
                    None => None,
                }
            },
            None => None,
        }
    }

    /// Decodes `data` and stages the value under `version`. What readers
    /// see does not change.
    pub fn update_asset(
        &mut self,
        load_handle: LoadHandle,
        data: Vec<u8>,
        version: u32,
    ) -> (outcome: Result<(), AssetLoadError>)
        ensures
            update_relates(*old(self), load_handle, data@, version, *final(self), outcome),
    {
        proof {
            use_type_invariant(&*self);
        }
        match self.decoder.decode(&data) {
            Ok(value) => {
                let found = self.find(load_handle);
                let mut entries: Vec<AssetEntry<D::Asset>> = Vec::new();
                std::mem::swap(&mut self.entries, &mut entries);
                let ghost before = entries@;
                match found {
                    Some(i) => {
                        entries[i].versions.staged = Some((version, value));
                        proof {
                            lemma_held_update(before, i as int, entries[i as int]);
                            assert(entries@ =~= before.update(i as int, entries[i as int]));
                        }
                    },
                    None => {
                        let entry = AssetEntry {
                            load_handle,
                            versions: Versions { staged: Some((version, value)), visible: None },
                        };
                        proof {
                            lemma_held_push(before, entry);
                        }
                        entries.push(entry);
                    },
                }
                std::mem::swap(&mut self.entries, &mut entries);
                Ok(())
            },
            Err(error) => Err(error),
        }
    }

    /// Makes the staged `version` of `load_handle` the visible one. The
    /// switch is one step: before it readers see the old value, after it
    /// the new one, each whole. Returns whether `version` was staged.
    pub fn commit_asset_version(&mut self, load_handle: LoadHandle, version: u32) -> (committed:
        bool)
        ensures
            commit_relates(*old(self), load_handle, version, *final(self)),
            committed == is_staged(old(self)@, load_handle, version),
    {
        proof {
            use_type_invariant(&*self);
        }
        let found = self.find(load_handle);
        let mut entries: Vec<AssetEntry<D::Asset>> = Vec::new();
        std::mem::swap(&mut self.entries, &mut entries);
        let ghost before = entries@;
        let committed = match found {
            Some(i) => {
                let staged = entries[i].versions.staged.take();
                match staged {
                    Some(pair) => {
                        if pair.0 == version {
                            entries[i].versions.visible = Some(pair);
                            proof {
                                lemma_held_update(before, i as int, entries[i as int]);
                                assert(entries@ =~= before.update(i as int, entries[i as int]));
                            }
                            true
                        } else {
                            entries[i].versions.staged = Some(pair);
                            proof {
                                assert(entries[i as int].versions == before[i as int].versions);
                                assert(entries@ =~= before);
                            }
                            false
                        }
                    },
                    None => {
                        proof {
                            assert(entries[i as int].versions == before[i as int].versions);
                            assert(entries@ =~= before);
                        }
                        false
                    },
                }
            },
            None => false,
        };
        std::mem::swap(&mut self.entries, &mut entries);
        committed
    }

    /// Releases what is held for `load_handle`. Returns whether anything
    /// was held.
    pub fn free(&mut self, load_handle: LoadHandle, version: u32) -> (released: bool)
        ensures
            free_relates(*old(self), load_handle, *final(self)),
            released == old(self)@.contains_key(load_handle),
    {
        proof {
            use_type_invariant(&*self);
        }
        let found = self.find(load_handle);
        let mut entries: Vec<AssetEntry<D::Asset>> = Vec::new();
        std::mem::swap(&mut self.entries, &mut entries);
        let released = match found {
            Some(i) => {
                proof {
                    lemma_held_remove(entries@, i as int);
                }
                entries.remove(i);
                true
            },
            None => {
                proof {
                    assert(held_of(entries@) =~= held_of(entries@).remove(load_handle));
                }
                false
            },
        };
        std::mem::swap(&mut self.entries, &mut entries);
        released
    }
}

/// Readers never see part of a decoded value. While a value is staged they
/// see what they saw before; after the commit they see the value that came
/// out of the bytes, whole, under its version; and no other identifier is
/// touched on the way.
pub proof fn lemma_readers_see_whole_versions<D: Decode>(
    start: Assets<D>,
    staged: Assets<D>,
    committed: Assets<D>,
    load_handle: LoadHandle,
    data: Seq<u8>,
    version: u32,
)
    requires
        update_relates(start, load_handle, data, version, staged, Ok(())),
        commit_relates(staged, load_handle, version, committed),
    ensures
        versions_in(staged@, load_handle).visible == versions_in(start@, load_handle).visible,
        versions_in(committed@, load_handle).staged is None,
        versions_in(committed@, load_handle).visible matches Some(shown) && shown.0 == version
            && start.decoder().decodes(data, Ok(shown.1)),
        forall|other: LoadHandle|
            other != load_handle ==> versions_in(committed@, other) == versions_in(start@, other),
{
    assert(is_staged(staged@, load_handle, version));
}

/// The visitor for a host whose resource set is one storage.
pub struct Direct;

impl<D: Decode> StorageVisitor<Assets<D>> for Direct {
    open spec fn updates(
        &self,
        before: Assets<D>,
        load_handle: LoadHandle,
        data: Seq<u8>,
        version: u32,
        after: Assets<D>,
        outcome: Result<(), AssetLoadError>,
    ) -> bool {
        update_relates(before, load_handle, data, version, after, outcome)
    }

    open spec fn commits(
        &self,
        before: Assets<D>,
        load_handle: LoadHandle,
        version: u32,
        after: Assets<D>,
    ) -> bool {
        commit_relates(before, load_handle, version, after)
    }

    open spec fn frees(
        &self,
        before: Assets<D>,
        load_handle: LoadHandle,
        version: u32,
        after: Assets<D>,
    ) -> bool {
        free_relates(before, load_handle, after)
    }

    fn update_asset(
        &self,
        resources: &mut Assets<D>,
        load_handle: LoadHandle,
        data: Vec<u8>,
        version: u32,
    ) -> (outcome: Result<(), AssetLoadError>) {
        resources.update_asset(load_handle, data, version)
    }

    fn commit_asset_version(
        &self,
        resources: &mut Assets<D>,
        load_handle: LoadHandle,
        version: u32,
    ) {
        resources.commit_asset_version(load_handle, version);
    }

    fn free(&self, resources: &mut Assets<D>, load_handle: LoadHandle, version: u32) {
        resources.free(load_handle, version);
    }
}

/// A storage of raw bytes, reached directly, is one that never refuses:
/// whatever bytes arrive are staged.
pub proof fn lemma_raw_bytes_never_refuse()
    ensures
        never_refuses::<Direct, Assets<RawBytes>>(Direct),
{
}

} // verus!
