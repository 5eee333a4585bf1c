//! Logical names and the load handles they resolve to. A name is resolved
//! once; every later resolution of it gives the same handle.

use vstd::prelude::*;
use crate::ids::{HandleAllocator, LoadHandle};

verus! {

/// One logical name with the handle it resolved to.
pub struct PathEntry {
    pub path: String,
    pub load_handle: LoadHandle,
}

/// What a name resolved to.
#[derive(Clone, Copy, Debug, PartialEq, Eq, Structural)]
pub struct Resolution {
    pub load_handle: LoadHandle,
    /// Whether the name was resolved for the first time.
    pub fresh: bool,
}

/// Whether `path` occurs among `entries`.
pub open spec fn path_listed(entries: Seq<PathEntry>, path: Seq<char>) -> bool {
    exists|i: int| 0 <= i < entries.len() && (#[trigger] entries[i]).path@ == path
}

/// A place at which `path` occurs among `entries`.
pub open spec fn path_place(entries: Seq<PathEntry>, path: Seq<char>) -> int {
    choose|i: int| 0 <= i < entries.len() && (#[trigger] entries[i]).path@ == path
}

/// Whether `handle` occurs among `entries`.
pub open spec fn handle_listed(entries: Seq<PathEntry>, handle: LoadHandle) -> bool {
    exists|i: int| 0 <= i < entries.len() && (#[trigger] entries[i]).load_handle == handle
}

/// A place at which `handle` occurs among `entries`.
pub open spec fn handle_place(entries: Seq<PathEntry>, handle: LoadHandle) -> int {
    choose|i: int| 0 <= i < entries.len() && (#[trigger] entries[i]).load_handle == handle
}

/// The resolutions made so far, and the allocator that issues a handle for
/// each new name.
pub struct IndirectionTable {
    entries: Vec<PathEntry>,
    allocator: HandleAllocator,
}

impl IndirectionTable {
    #[verifier::type_invariant]
    spec fn well_formed(self) -> bool {
        &&& forall|i: int, j: int|
            0 <= i < j < self.entries.len() ==> (#[trigger] self.entries[i]).path@ != (
            #[trigger] self.entries[j]).path@
        &&& forall|i: int, j: int|
            0 <= i < j < self.entries.len() ==> (#[trigger] self.entries[i]).load_handle != (
            #[trigger] self.entries[j]).load_handle
        &&& forall|i: int|
            0 <= i < self.entries.len() ==> self.allocator.was_issued(
                (#[trigger] self.entries[i]).load_handle,
            )
    }

    /// The resolutions in the order in which they were made.
    pub closed spec fn entries(&self) -> Seq<PathEntry> {
        self.entries@
    }

    /// How many handles have been issued.
    pub closed spec fn issued(&self) -> nat {
        self.allocator.issued()
    }

    /// Whether `path` has been resolved.
    pub open spec fn knows(&self, path: Seq<char>) -> bool {
        path_listed(self.entries(), path)
    }

    /// The handle `path` resolved to, where it has been resolved.
    pub open spec fn handle_of(&self, path: Seq<char>) -> LoadHandle {
        self.entries()[path_place(self.entries(), path)].load_handle
    }

    /// Whether `handle` stands for a name.
    pub open spec fn names(&self, handle: LoadHandle) -> bool {
        handle_listed(self.entries(), handle)
    }

    /// The name `handle` stands for, where it stands for one.
    pub open spec fn path_of(&self, handle: LoadHandle) -> Seq<char> {
        self.entries()[handle_place(self.entries(), handle)].path@
    }

    /// Whether every handle has been issued.
    pub open spec fn exhausted(&self) -> bool {
        self.issued() == u64::MAX
    }

    /// Whether `path` can be resolved: it is known, or a handle is left to
    /// issue for it.
    pub open spec fn can_resolve(&self, path: Seq<char>) -> bool {
        self.knows(path) || !self.exhausted()
    }

    pub fn new() -> (table: Self)
        ensures
            table.entries().len() == 0,
            table.issued() == 0,
            !table.exhausted(),
    {
        IndirectionTable { entries: Vec::new(), allocator: HandleAllocator::new() }
    }

    fn find_path(&self, path: &String) -> (found: Option<usize>)
        ensures
            match found {
                Some(i) => {
                    &&& i < self.entries().len()
                    &&& self.entries()[i as int].path@ == path@
                    &&& self.knows(path@)
                    &&& self.handle_of(path@) == self.entries()[i as int].load_handle
                },
                None => !self.knows(path@),
            },
    {
        proof {
            use_type_invariant(self);
        }
        let mut i: usize = 0;
        while i < self.entries.len()
            invariant
                self.well_formed(),
                i <= self.entries.len(),
                forall|j: int| 0 <= j < i ==> (#[trigger] self.entries[j]).path@ != path@,
            decreases self.entries.len() - i,
        {
            if self.entries[i].path == *path {
                proof {
                    let p = path_place(self.entries@, path@);
                    assert(self.entries[p].path@ == path@);
                }
                return Some(i);
            }
            i = i + 1;
        }
        None
    }

    fn find_handle(&self, handle: LoadHandle) -> (found: Option<usize>)
        ensures
            match found {
                Some(i) => i < self.entries().len() && self.entries()[i as int].load_handle
                    == handle && self.names(handle) && self.path_of(handle)
                    == self.entries()[i as int].path@,
                None => !self.names(handle),
            },
    {
        proof {
            use_type_invariant(self);
        }
        let mut i: usize = 0;
        while i < self.entries.len()
            invariant
                self.well_formed(),
                i <= self.entries.len(),
                forall|j: int| 0 <= j < i ==> (#[trigger] self.entries[j]).load_handle != handle,
            decreases self.entries.len() - i,
        {
            if self.entries[i].load_handle == handle {
                proof {
                    let p = handle_place(self.entries@, handle);
                    assert(self.entries[p].load_handle == handle);
                }
                return Some(i);
            }
            i = i + 1;
        }
        None
    }

    /// Whether `resolve` may be called on `path`.
    pub fn is_resolvable(&self, path: &str) -> (resolvable: bool)
        ensures
            resolvable == self.can_resolve(path@),
    {
        let owned = path.to_owned();
        self.find_path(&owned).is_some() || !self.allocator.is_exhausted()
    }

    /// The handle `path` resolved to, if it has been resolved.
    pub fn lookup(&self, path: &str) -> (handle: Option<LoadHandle>)
        ensures
            handle is Some == self.knows(path@),
            handle is Some ==> handle->0 == self.handle_of(path@),
    {
        let owned = path.to_owned();
        match self.find_path(&owned) {
            Some(i) => Some(self.entries[i].load_handle),
            None => None,
        }
    }

    /// The name `handle` stands for, if it stands for one.
    pub fn locator(&self, handle: LoadHandle) -> (path: Option<String>)
        ensures
            path is Some == self.names(handle),
            path is Some ==> path->0@ == self.path_of(handle),
    {
        match self.find_handle(handle) {
            Some(i) => Some(self.entries[i].path.clone()),
            None => None,
        }
    }

    /// Resolves `path`: to the handle it resolved to before, or, the first
    /// time, to a handle that was never issued.
    pub fn resolve(&mut self, path: &str) -> (resolved: Resolution)
        requires
            old(self).can_resolve(path@),
        ensures
            resolved.fresh == !old(self).knows(path@),
            final(self).knows(path@),
            final(self).handle_of(path@) == resolved.load_handle,
            old(self).knows(path@) ==> {
                &&& resolved.load_handle == old(self).handle_of(path@)
                &&& final(self).entries() == old(self).entries()
                &&& final(self).issued() == old(self).issued()
            },
            !old(self).knows(path@) ==> {
                &&& resolved.load_handle == LoadHandle((old(self).issued() + 1) as u64)
                &&& !old(self).names(resolved.load_handle)
                &&& final(self).issued() == old(self).issued() + 1
                &&& final(self).entries().len() == old(self).entries().len() + 1
                &&& final(self).entries().drop_last() == old(self).entries()
                &&& final(self).entries().last().path@ == path@
                &&& final(self).entries().last().load_handle == resolved.load_handle
            },
            forall|other: Seq<char>|
                other != path@ ==> {
                    &&& final(self).knows(other) == old(self).knows(other)
                    &&& old(self).knows(other) ==> final(self).handle_of(other)
                        == old(self).handle_of(other)
                },
    {
        proof {
            use_type_invariant(&*self);
        }
        let owned = path.to_owned();
        match self.find_path(&owned) {
            Some(i) => Resolution { load_handle: self.entries[i].load_handle, fresh: false },
            None => {
                let ghost before = self.entries@;
                let mut entries: Vec<PathEntry> = Vec::new();
                std::mem::swap(&mut self.entries, &mut entries);
                let handle = self.allocator.allocate();
                proof {
                    if handle_listed(before, handle) {
                        let p = handle_place(before, handle);
                        assert(before[p].load_handle == handle);
                    }
                }
                entries.push(PathEntry { path: owned, load_handle: handle });
                let ghost after = entries@;
                proof {
                    let n = before.len() as int;
                    assert(after[n].path@ == path@);
                    assert(after.drop_last() =~= before);
                    assert forall|i: int, j: int| 0 <= i < j < after.len() implies (
                    #[trigger] after[i]).path@ != (#[trigger] after[j]).path@ by {
                        if j == n {
                            assert(before[i].path@ != path@);
                        } else {
                            assert(before[i].path@ != before[j].path@);
                        }
                    }
                    assert forall|i: int, j: int| 0 <= i < j < after.len() implies (
                    #[trigger] after[i]).load_handle != (#[trigger] after[j]).load_handle by {
                        if j == n {
                            assert(before[i].load_handle != handle);
                        } else {
                            assert(before[i].load_handle != before[j].load_handle);
                        }
                    }
                    assert forall|i: int| 0 <= i < after.len() implies self.allocator.was_issued(
                        (#[trigger] after[i]).load_handle,
                    ) by {
                        if i < n {
                            assert(before[i].load_handle.0 <= old(self).allocator.issued());
                        }
                    }
                    let p = path_place(after, path@);
                    assert(p == n);
                    assert forall|other: Seq<char>| other != path@ implies (path_listed(
                        after,
                        other,
                    ) == path_listed(before, other)) && (path_listed(before, other)
                        ==> after[path_place(after, other)].load_handle == before[path_place(
                        before,
                        other,
                    )].load_handle) by {
                        if path_listed(before, other) {
                            let i = path_place(before, other);
                            assert(after[i].path@ == other);
                            let j = path_place(after, other);
                            assert(j < n);
                            assert(before[j].path@ == other);
                            assert(i == j);
                        }
                        if path_listed(after, other) {
                            let j = path_place(after, other);
                            assert(j < n);
                            assert(before[j].path@ == other);
                        }
                    }
                }
                std::mem::swap(&mut self.entries, &mut entries);
                Resolution { load_handle: handle, fresh: true }
            },
        }
    }
}

} // verus!
