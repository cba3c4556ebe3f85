//! Credentials.

use crate::boundary::{ObjectKind, Request};
use crate::types::AlwaysRefCounted;
use vstd::prelude::*;

verus! {

/// A user id as the kernel keeps it, before any mapping into a user
/// namespace.
#[derive(Clone, Copy, Debug, PartialEq, Eq, Structural)]
pub struct Kuid {
    kuid: u32,
}

impl Kuid {
    /// The raw id.
    pub closed spec fn raw(&self) -> u32 {
        self.kuid
    }

    /// Wraps a raw id read from the kernel.
    pub fn from_raw(kuid: u32) -> (id: Kuid)
        ensures
            id.raw() == kuid,
    {
        Kuid { kuid }
    }

    /// The raw id.
    pub fn into_raw(self) -> (kuid: u32)
        ensures
            kuid == self.raw(),
    {
        self.kuid
    }
}

/// A view of a credential (`struct cred`): the security context of a task or
/// of an open file.
///
/// A credential does not change once it is in use, and the view offers no way
/// to change it. The view holds no reference of its own: it is good for as
/// long as whatever it was read from keeps the credential alive.
#[derive(Clone, Copy, Debug, PartialEq, Eq, Structural)]
pub struct Credential {
    ptr: usize,
}

impl Credential {
    #[verifier::type_invariant]
    spec fn non_null(self) -> bool {
        self.ptr != 0
    }

    /// Makes a view of the credential at `ptr`.
    ///
    /// The caller answers for what cannot be checked here: that `ptr` points
    /// at a credential, and that the credential stays alive for as long as
    /// the view is used.
    pub fn from_ptr(ptr: usize) -> (cred: Credential)
        requires
            ptr != 0,
        ensures
            cred.address() == ptr,
    {
        Credential { ptr }
    }

    /// The request that yields the security id of this credential, as a
    /// [`crate::boundary::Reply::Word`].
    pub fn get_secid(&self) -> (request: Request)
        ensures
            request == (Request::ReadSecid { cred: self.address() }),
    {
        Request::ReadSecid { cred: self.ptr }
    }

    /// The request that yields the effective user id of this credential, as
    /// a [`crate::boundary::Reply::Word`] for [`Kuid::from_raw`].
    pub fn euid(&self) -> (request: Request)
        ensures
            request == (Request::ReadEuid { cred: self.address() }),
    {
        Request::ReadEuid { cred: self.ptr }
    }
}

impl AlwaysRefCounted for Credential {
    open spec fn kind() -> ObjectKind {
        ObjectKind::Credential
    }

    closed spec fn address(&self) -> usize {
        self.ptr
    }

    fn inc_ref(&self) -> (request: Request) {
        Request::Increment { kind: ObjectKind::Credential, object: self.ptr }
    }

    fn dec_ref(&self) -> (request: Request) {
        Request::Decrement { kind: ObjectKind::Credential, object: self.ptr }
    }
}

} // verus!
