//! Identifiers of load slots and of asset types, and the allocator that
//! issues the former.

use vstd::prelude::*;

verus! {

/// The type used for asset versioning.
pub type AssetVersion = u32;

/// Names one load slot for as long as the slot is tracked.
#[derive(Clone, Copy, Debug, PartialEq, Eq, Structural)]
pub struct LoadHandle(pub u64);

/// Stable tag of an asset type, the key under which its storage is registered.
#[derive(Clone, Copy, Debug, PartialEq, Eq, Structural)]
pub struct AssetTypeId(pub u128);

/// Issues load handles, each one once. The first handle is 1; a handle is
/// never issued again.
pub struct HandleAllocator {
    issued: u64,
}

impl HandleAllocator {
    /// How many handles have been issued so far.
    pub closed spec fn issued(&self) -> nat {
        self.issued as nat
    }

    /// The handles issued so far are exactly `1 ..= issued()`.
    pub open spec fn was_issued(&self, handle: LoadHandle) -> bool {
        1 <= handle.0 <= self.issued()
    }

    pub open spec fn exhausted(&self) -> bool {
        self.issued() == u64::MAX
    }

    pub fn new() -> (allocator: Self)
        ensures
            allocator.issued() == 0,
    {
        HandleAllocator { issued: 0 }
    }

    /// Whether every handle of the domain has been issued.
    pub fn is_exhausted(&self) -> (full: bool)
        ensures
            full == self.exhausted(),
    {
        self.issued == u64::MAX
    }

    /// Issues the next handle. It differs from every handle issued before.
    pub fn allocate(&mut self) -> (handle: LoadHandle)
        requires
            !old(self).exhausted(),
        ensures
            handle.0 == old(self).issued() + 1,
            final(self).issued() == old(self).issued() + 1,
            !old(self).was_issued(handle),
            final(self).was_issued(handle),
        no_unwind
    {
        self.issued = self.issued + 1;
        LoadHandle(self.issued)
    }
}

} // verus!
