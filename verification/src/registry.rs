//! The registry of asset types: for each registered type a visitor that
//! reaches the type's storage inside the host's resource set. Loaded bytes
//! carry only a type tag; this is where the tag meets the typed storage.

use vstd::prelude::*;
use crate::error::{AssetLoadError, AssetServerError};
use crate::ids::{AssetTypeId, LoadHandle};

verus! {

/// Reaches the storage of one asset type inside a resource set of type `R`
/// and performs the storage operations on it.
///
/// What an operation does to the resource set is the implementor's to say:
/// each method promises the relation that the implementor defines for it,
/// and the registry hands that relation on to its callers. A host that
/// is not verified cannot state a relation: its implementation inherits the
/// ones written here, which promise nothing.
pub trait StorageVisitor<R> {
    /// How `update_asset` may change the resource set and answer.
    open spec fn updates(
        &self,
        before: R,
        load_handle: LoadHandle,
        data: Seq<u8>,
        version: u32,
        after: R,
        outcome: Result<(), AssetLoadError>,
    ) -> bool {
        true
    }

    /// How `commit_asset_version` may change the resource set.
    open spec fn commits(
        &self,
        before: R,
        load_handle: LoadHandle,
        version: u32,
        after: R,
    ) -> bool {
        true
    }

    /// How `free` may change the resource set.
    open spec fn frees(&self, before: R, load_handle: LoadHandle, version: u32, after: R) -> bool {
        true
    }

    /// Decodes `data` and stores the value as the staged, not yet visible
    /// `version` of `load_handle`; answers with the error where the bytes
    /// cannot be decoded.
    fn update_asset(
        &self,
        resources: &mut R,
        load_handle: LoadHandle,
        data: Vec<u8>,
        version: u32,
    ) -> (outcome: Result<(), AssetLoadError>)
        ensures
            self.updates(*old(resources), load_handle, data@, version, *final(resources), outcome),
    ;

    /// Makes the staged `version` the visible value of `load_handle`, as
    /// one unit.
    fn commit_asset_version(&self, resources: &mut R, load_handle: LoadHandle, version: u32)
        ensures
            self.commits(*old(resources), load_handle, version, *final(resources)),
    ;

    /// Releases what the storage holds for `load_handle`.
    fn free(&self, resources: &mut R, load_handle: LoadHandle, version: u32)
        ensures
            self.frees(*old(resources), load_handle, version, *final(resources)),
    ;
}

/// One asset type and the visitor installed for it.
pub struct Registration<V> {
    pub type_id: AssetTypeId,
    pub visitor: V,
}

/// Asset types by their tag, each with its visitor. A type is registered
/// once; its registration is never replaced.
pub struct AssetTypeRegistry<V> {
    registrations: Vec<Registration<V>>,
}

/// Whether `type_id` occurs among `registrations`.
pub open spec fn listed<V>(registrations: Seq<Registration<V>>, type_id: AssetTypeId) -> bool {
    exists|i: int| 0 <= i < registrations.len() && (#[trigger] registrations[i]).type_id == type_id
}

/// A place at which `type_id` occurs among `registrations`.
pub open spec fn place_of<V>(registrations: Seq<Registration<V>>, type_id: AssetTypeId) -> int {
    choose|i: int| 0 <= i < registrations.len() && (#[trigger] registrations[i]).type_id == type_id
}

impl<V> AssetTypeRegistry<V> {
    #[verifier::type_invariant]
    spec fn distinct(self) -> bool {
        forall|i: int, j: int|
            0 <= i < j < self.registrations.len() ==> (#[trigger] self.registrations[i]).type_id
                != (#[trigger] self.registrations[j]).type_id
    }

    /// The registrations, in the order in which they were made.
    pub closed spec fn entries(&self) -> Seq<Registration<V>> {
        self.registrations@
    }

    /// Whether a visitor is installed for `type_id`.
    pub open spec fn is_registered(&self, type_id: AssetTypeId) -> bool {
        listed(self.entries(), type_id)
    }

    /// The visitor installed for `type_id`, where there is one.
    pub open spec fn visitor(&self, type_id: AssetTypeId) -> V {
        self.entries()[place_of(self.entries(), type_id)].visitor
    }

    pub fn new() -> (registry: Self)
        ensures
            registry.entries().len() == 0,
    {
        AssetTypeRegistry { registrations: Vec::new() }
    }

    fn find(&self, type_id: AssetTypeId) -> (found: Option<usize>)
        ensures
            match found {
                Some(i) => i < self.entries().len() && self.entries()[i as int].type_id == type_id
                    && i == place_of(self.entries(), type_id) && self.is_registered(type_id),
                None => !self.is_registered(type_id),
            },
    {
        proof {
            use_type_invariant(self);
        }
        let mut i: usize = 0;
        while i < self.registrations.len()
            invariant
                self.distinct(),
                i <= self.registrations.len(),
                forall|j: int| 0 <= j < i ==> (#[trigger] self.registrations[j]).type_id != type_id,
            decreases self.registrations.len() - i,
        {
            if self.registrations[i].type_id == type_id {
                return Some(i);
            }
            i = i + 1;
        }
        None
    }

    /// Whether a visitor is installed for `type_id`.
    pub fn contains(&self, type_id: AssetTypeId) -> (registered: bool)
        ensures
            registered == self.is_registered(type_id),
    {
        self.find(type_id).is_some()
    }

    /// Installs `visitor` for `type_id`. A type that is registered already
    /// keeps its visitor, and the answer is `false`.
    pub fn register(&mut self, type_id: AssetTypeId, visitor: V) -> (installed: bool)
        ensures
            installed == !old(self).is_registered(type_id),
            installed ==> final(self).entries() == old(self).entries().push(
                (Registration { type_id, visitor }),
            ),
            installed ==> final(self).is_registered(type_id) && final(self).visitor(type_id)
                == visitor,
            !installed ==> final(self).entries() == old(self).entries(),
            forall|other: AssetTypeId|
                other != type_id ==> {
                    &&& final(self).is_registered(other) == old(self).is_registered(other)
                    &&& old(self).is_registered(other) ==> final(self).visitor(other)
                        == old(self).visitor(other)
                },
    {
        proof {
            use_type_invariant(&*self);
        }
        match self.find(type_id) {
            Some(_) => false,
            None => {
                let ghost before = self.registrations@;
                let mut registrations: Vec<Registration<V>> = Vec::new();
                std::mem::swap(&mut self.registrations, &mut registrations);
                registrations.push(Registration { type_id, visitor });
                let ghost after = registrations@;
                proof {
                    assert(after[before.len() as int].type_id == type_id);
                    assert forall|other: AssetTypeId| other != type_id implies (listed(
                        after,
                        other,
                    ) == listed(before, other)) && (listed(before, other) ==> after[place_of(
                        after,
                        other,
                    )].visitor == before[place_of(before, other)].visitor) by {
                        if listed(before, other) {
                            let i = place_of(before, other);
                            assert(after[i].type_id == other);
                            let j = place_of(after, other);
                            assert(j < before.len());
                            assert(before[j].type_id == other);
                            assert(i == j);
                        }
                        if listed(after, other) {
                            let j = place_of(after, other);
                            assert(j < before.len());
                            assert(before[j].type_id == other);
                        }
                    }
                    let k = place_of(after, type_id);
                    assert(k == before.len());
                }
                std::mem::swap(&mut self.registrations, &mut registrations);
                true
            },
        }
    }

    /// Routes `update_asset` to the storage of `asset_type_id`. Where no
    /// visitor is installed for the type, nothing is touched and the error
    /// names the type.
    pub fn update_asset<R>(
        &self,
        resources: &mut R,
        asset_type_id: AssetTypeId,
        data: Vec<u8>,
        load_handle: LoadHandle,
        version: u32,
    ) -> (outcome: Result<(), AssetServerError>) where V: StorageVisitor<R>
        ensures
            !self.is_registered(asset_type_id) ==> *final(resources) == *old(resources) && outcome
                == Err::<(), AssetServerError>(
                AssetServerError::MissingAssetRegistration(asset_type_id),
            ),
            self.is_registered(asset_type_id) ==> match outcome {
                Ok(()) => self.visitor(asset_type_id).updates(
                    *old(resources),
                    load_handle,
                    data@,
                    version,
                    *final(resources),
                    Ok(()),
                ),
                Err(AssetServerError::AssetLoadError(error)) => self.visitor(
                    asset_type_id,
                ).updates(
                    *old(resources),
                    load_handle,
                    data@,
                    version,
                    *final(resources),
                    Err(error),
                ),
                Err(_) => false,
            },
    {
        match self.find(asset_type_id) {
            Some(i) => {
                let answer = self.registrations[i].visitor.update_asset(
                    resources,
                    load_handle,
                    data,
                    version,
                );
                match answer {
                    Ok(unit) => {
                        assert(answer == Ok::<(), AssetLoadError>(()));
                        Ok(())
                    },
                    Err(error) => Err(AssetServerError::AssetLoadError(error)),
                }
            },
            None => Err(AssetServerError::MissingAssetRegistration(asset_type_id)),
        }
    }

    /// Routes `commit_asset_version` to the storage of `asset_type_id`.
    /// Returns whether a visitor is installed for the type; where none is,
    /// nothing is touched.
    pub fn commit_asset_version<R>(
        &self,
        resources: &mut R,
        asset_type_id: AssetTypeId,
        load_handle: LoadHandle,
        version: u32,
    ) -> (routed: bool) where V: StorageVisitor<R>
        ensures
            routed == self.is_registered(asset_type_id),
            !routed ==> *final(resources) == *old(resources),
            routed ==> self.visitor(asset_type_id).commits(
                *old(resources),
                load_handle,
                version,
                *final(resources),
            ),
    {
        match self.find(asset_type_id) {
            Some(i) => {
                self.registrations[i].visitor.commit_asset_version(resources, load_handle, version);
                true
            },
            None => false,
        }
    }

    /// Routes `free` to the storage of `asset_type_id`. Returns whether a
    /// visitor is installed for the type; where none is, nothing is touched.
    pub fn free<R>(
        &self,
        resources: &mut R,
        asset_type_id: AssetTypeId,
        load_handle: LoadHandle,
        version: u32,
    ) -> (routed: bool) where V: StorageVisitor<R>
        ensures
            routed == self.is_registered(asset_type_id),
            !routed ==> *final(resources) == *old(resources),
            routed ==> self.visitor(asset_type_id).frees(
                *old(resources),
                load_handle,
                version,
                *final(resources),
            ),
    {
        match self.find(asset_type_id) {
            Some(i) => {
                self.registrations[i].visitor.free(resources, load_handle, version);
                true
            },
            None => false,
        }
    }
}

} // verus!
