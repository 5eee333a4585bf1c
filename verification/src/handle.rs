//! Handles: reference tokens for one load slot each. Making or cloning one
//! enqueues an `Increase`, dropping one enqueues a `Decrease`.

use vstd::prelude::*;
use crate::channel::{capacity, capacity_of, channel_of, clone_sender, send_op, RefOp};
use crate::ids::LoadHandle;
use std::marker::PhantomData;

verus! {

/// The counted reference inside every handle.
pub struct HandleRef {
    tx: crossbeam_channel::Sender<RefOp>,
    id: LoadHandle,
}

impl HandleRef {
    /// A reference writes to an unbounded queue: its operations never wait.
    #[verifier::type_invariant]
    spec fn well_formed(self) -> bool {
        capacity_of(self.tx) is None
    }

    pub closed spec fn id(&self) -> LoadHandle {
        self.id
    }

    /// The channel the reference writes its operations to.
    pub closed spec fn channel(&self) -> int {
        channel_of(self.tx)
    }

    /// Enqueues an `Increase` for `id` on `tx`, then holds the reference.
    /// The queue must be unbounded: on a bounded one the call could wait.
    pub fn new(tx: crossbeam_channel::Sender<RefOp>, id: LoadHandle) -> (handle: Self)
        requires
            capacity_of(tx) is None,
        ensures
            handle.id() == id,
            handle.channel() == channel_of(tx),
    {
        send_op(&tx, RefOp::Increase(id));
        HandleRef { tx, id }
    }

    /// As `new`, for any sender: where the queue of `tx` is bounded nothing
    /// is enqueued and no reference is made.
    pub fn try_new(tx: crossbeam_channel::Sender<RefOp>, id: LoadHandle) -> (handle: Option<Self>)
        ensures
            handle is Some == (capacity_of(tx) is None),
            handle is Some ==> handle->0.id() == id && handle->0.channel() == channel_of(tx),
    {
        match capacity(&tx) {
            Some(_) => None,
            None => Some(HandleRef::new(tx, id)),
        }
    }

    pub fn load_handle(&self) -> (id: LoadHandle)
        ensures
            id == self.id(),
    {
        self.id
    }
}

impl Clone for HandleRef {
    /// Enqueues another `Increase`: the copy is a reference of its own.
    fn clone(&self) -> (copy: Self)
        ensures
            copy.id() == self.id(),
            copy.channel() == self.channel(),
    {
        proof {
            use_type_invariant(self);
        }
        send_op(&self.tx, RefOp::Increase(self.id));
        HandleRef { tx: clone_sender(&self.tx), id: self.id }
    }
}

impl Drop for HandleRef {
    /// Enqueues the `Decrease` that answers this reference's `Increase`.
    fn drop(&mut self)
        opens_invariants none
        no_unwind
    {
        proof {
            use_type_invariant(&*self);
        }
        send_op(&self.tx, RefOp::Decrease(self.id));
    }
}

/// Handle to an asset whose type is not known to the holder.
pub struct GenericHandle {
    handle_ref: HandleRef,
}

impl GenericHandle {
    /// The identifier the handle refers to.
    pub closed spec fn id(&self) -> LoadHandle {
        self.handle_ref.id()
    }

    /// The channel the handle writes its operations to.
    pub closed spec fn channel(&self) -> int {
        self.handle_ref.channel()
    }

    /// Enqueues an `Increase` for `id` on `tx` and returns the handle. The
    /// queue must be unbounded: on a bounded one the call could wait.
    pub fn new(tx: crossbeam_channel::Sender<RefOp>, id: LoadHandle) -> (handle: Self)
        requires
            capacity_of(tx) is None,
        ensures
            handle.id() == id,
            handle.channel() == channel_of(tx),
    {
        GenericHandle { handle_ref: HandleRef::new(tx, id) }
    }

    /// As `new`, for any sender: where the queue of `tx` is bounded nothing
    /// is enqueued and no handle is made.
    pub fn try_new(tx: crossbeam_channel::Sender<RefOp>, id: LoadHandle) -> (handle: Option<Self>)
        ensures
            handle is Some == (capacity_of(tx) is None),
            handle is Some ==> handle->0.id() == id && handle->0.channel() == channel_of(tx),
    {
        match HandleRef::try_new(tx, id) {
            Some(handle_ref) => Some(GenericHandle { handle_ref }),
            None => None,
        }
    }

    pub fn load_handle(&self) -> (id: LoadHandle)
        ensures
            id == self.id(),
    {
        self.handle_ref.load_handle()
    }

    /// The same reference, typed. No operation is enqueued.
    pub fn typed<T>(self) -> (handle: Handle<T>)
        ensures
            handle.id() == self.id(),
            handle.channel() == self.channel(),
    {
        Handle { handle_ref: self.handle_ref, marker: PhantomData }
    }
}

impl Clone for GenericHandle {
    fn clone(&self) -> (copy: Self)
        ensures
            copy.id() == self.id(),
            copy.channel() == self.channel(),
    {
        GenericHandle { handle_ref: self.handle_ref.clone() }
    }
}

/// Handle to an asset of type `T`.
pub struct Handle<T> {
    handle_ref: HandleRef,
    marker: PhantomData<T>,
}

impl<T> Handle<T> {
    /// The identifier the handle refers to.
    pub closed spec fn id(&self) -> LoadHandle {
        self.handle_ref.id()
    }

    /// The channel the handle writes its operations to.
    pub closed spec fn channel(&self) -> int {
        self.handle_ref.channel()
    }

    /// Enqueues an `Increase` for `id` on `tx` and returns the handle. The
    /// queue must be unbounded: on a bounded one the call could wait.
    pub fn new(tx: crossbeam_channel::Sender<RefOp>, id: LoadHandle) -> (handle: Self)
        requires
            capacity_of(tx) is None,
        ensures
            handle.id() == id,
            handle.channel() == channel_of(tx),
    {
        Handle { handle_ref: HandleRef::new(tx, id), marker: PhantomData }
    }

    /// As `new`, for any sender: where the queue of `tx` is bounded nothing
    /// is enqueued and no handle is made.
    pub fn try_new(tx: crossbeam_channel::Sender<RefOp>, id: LoadHandle) -> (handle: Option<Self>)
        ensures
            handle is Some == (capacity_of(tx) is None),
            handle is Some ==> handle->0.id() == id && handle->0.channel() == channel_of(tx),
    {
        match HandleRef::try_new(tx, id) {
            Some(handle_ref) => Some(Handle { handle_ref, marker: PhantomData }),
            None => None,
        }
    }

    pub fn load_handle(&self) -> (id: LoadHandle)
        ensures
            id == self.id(),
    {
        self.handle_ref.load_handle()
    }

    /// The same reference without its type. No operation is enqueued.
    pub fn untyped(self) -> (handle: GenericHandle)
        ensures
            handle.id() == self.id(),
            handle.channel() == self.channel(),
    {
        GenericHandle { handle_ref: self.handle_ref }
    }
}

impl<T> Clone for Handle<T> {
    fn clone(&self) -> (copy: Self)
        ensures
            copy.id() == self.id(),
            copy.channel() == self.channel(),
    {
        Handle { handle_ref: self.handle_ref.clone(), marker: PhantomData }
    }
}

} // verus!
