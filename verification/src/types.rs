//! Reference-counted handles.

use crate::boundary::{Machine, ObjectKind, Reply, Request, Step};
use vstd::prelude::*;

verus! {

/// A view of a kernel object that carries its own reference count.
///
/// The count lives in the kernel. `inc_ref` and `dec_ref` say which request
/// adds a reference and which one drops it; they never fail.
pub trait AlwaysRefCounted: Copy {
    /// The kind of object this is a view of.
    spec fn kind() -> ObjectKind;

    /// The address of the object.
    spec fn address(&self) -> usize;

    /// The request that adds one reference to the object.
    fn inc_ref(&self) -> (request: Request)
        ensures
            request == (Request::Increment { kind: Self::kind(), object: self.address() }),
    ;

    /// The request that drops one reference to the object. Only the owner of a
    /// reference may have it performed, and once for that reference.
    fn dec_ref(&self) -> (request: Request)
        ensures
            request == (Request::Decrement { kind: Self::kind(), object: self.address() }),
    ;
}

/// An owned reference to a kernel object: one unit of the object's reference
/// count belongs to each `ARef`.
///
/// There is no way to copy an `ARef`. [`ARef::clone_ref`] asks the kernel for
/// one more reference and yields the second handle once that is answered;
/// [`ARef::release`] ends a handle and hands its reference back.
#[derive(Debug, PartialEq, Eq)]
pub struct ARef<T: AlwaysRefCounted> {
    obj: T,
}

/// A reference that has been asked for and is not yet counted.
#[derive(Debug, PartialEq, Eq)]
pub struct Acquire<T: AlwaysRefCounted> {
    /// The object asked for.
    pub obj: T,
}

impl<T: AlwaysRefCounted> ARef<T> {
    /// The object the handle refers to.
    pub closed spec fn object(&self) -> T {
        self.obj
    }

    /// The handle to `obj`.
    pub closed spec fn holding(obj: T) -> Self {
        ARef { obj }
    }

    /// A handle is known by its object.
    pub proof fn lemma_holding(self)
        ensures
            self == Self::holding(self.object()),
            forall|obj: T| #[trigger] Self::holding(obj).object() == obj,
    {
    }

    /// The request that ends this handle.
    pub open spec fn release_request(&self) -> Request {
        Request::Decrement { kind: T::kind(), object: self.object().address() }
    }

    /// Wraps a reference that the kernel has already counted for the caller.
    /// No request is made: the handle takes that reference over.
    pub fn from_raw(obj: T) -> (handle: Self)
        ensures
            handle == Self::holding(obj),
            handle.object() == obj,
    {
        ARef { obj }
    }

    /// Starts a new handle to an object the caller can see: asks for one more
    /// reference.
    pub fn from_ref(obj: &T) -> (step: Step<Acquire<T>, ARef<T>>)
        ensures
            step == Acquire::<T>::begin(*obj),
    {
        Step::Call(Acquire { obj: *obj })
    }

    /// Starts a second handle to the same object.
    pub fn clone_ref(&self) -> (step: Step<Acquire<T>, ARef<T>>)
        ensures
            step == Acquire::<T>::begin(self.object()),
    {
        Step::Call(Acquire { obj: self.obj })
    }

    /// The object behind the handle, borrowed for as long as the handle is.
    pub fn as_ref(&self) -> (obj: &T)
        ensures
            *obj == self.object(),
    {
        &self.obj
    }

    /// Gives up the handle without dropping its reference, which from now on
    /// belongs to whoever holds the returned view.
    pub fn into_raw(self) -> (obj: T)
        ensures
            obj == self.object(),
    {
        self.obj
    }

    /// Ends the handle. The returned request drops its reference.
    pub fn release(self) -> (request: Request)
        ensures
            request == self.release_request(),
    {
        self.obj.dec_ref()
    }
}

impl<T: AlwaysRefCounted> Acquire<T> {
    /// The request that counts one more reference to `obj`.
    pub open spec fn increment(obj: T) -> Request {
        Request::Increment { kind: T::kind(), object: obj.address() }
    }

    /// The first step of acquiring a reference to `obj`.
    pub open spec fn begin(obj: T) -> Step<Acquire<T>, ARef<T>> {
        Step::Call(Acquire { obj })
    }
}

impl<T: AlwaysRefCounted> Machine for Acquire<T> {
    type Output = ARef<T>;

    open spec fn pending(self) -> Request {
        Self::increment(self.obj)
    }

    open spec fn next(self, reply: Reply) -> Step<Acquire<T>, ARef<T>> {
        if reply is Done {
            Step::Done(ARef::holding(self.obj))
        } else {
            Step::Call(self)
        }
    }

    open spec fn budget(self) -> nat {
        1
    }

    fn request(&self) -> (request: Request) {
        self.obj.inc_ref()
    }

    /// Once the increment is answered the new handle exists.
    fn step(self, reply: Reply) -> (step: Step<Acquire<T>, ARef<T>>) {
        match reply {
            Reply::Done => Step::Done(ARef { obj: self.obj }),
            _ => Step::Call(self),
        }
    }

    proof fn lemma_no_answer(self, reply: Reply) {
    }

    proof fn lemma_answer(self, reply: Reply) {
    }
}

} // verus!
