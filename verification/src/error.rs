//! Kernel error codes.

use vstd::prelude::*;

verus! {

/// The largest errno the kernel uses.
pub const MAX_ERRNO: i32 = 4095;

/// No such process.
pub const ESRCH: i32 = 3;

/// Bad file number.
pub const EBADF: i32 = 9;

/// Invalid argument.
pub const EINVAL: i32 = 22;

/// Too many open files.
pub const EMFILE: i32 = 24;

/// A kernel error: a negative errno between `-MAX_ERRNO` and `-1`.
#[derive(Clone, Copy, Debug, PartialEq, Eq, Structural)]
pub struct Error {
    errno: i32,
}

impl Error {
    #[verifier::type_invariant]
    spec fn in_range(self) -> bool {
        -MAX_ERRNO <= self.errno < 0
    }

    /// The errno, as the kernel returns it: negative.
    pub closed spec fn errno(&self) -> i32 {
        self.errno
    }

    /// The error with this errno.
    pub closed spec fn of(errno: i32) -> Error {
        Error { errno }
    }

    /// An error is known by its errno.
    pub proof fn lemma_of(self)
        ensures
            self == Self::of(self.errno()),
            forall|errno: i32| #[trigger] Self::of(errno).errno() == errno,
    {
    }

    /// The errno that `from_errno` settles on: `errno` itself where it is a
    /// kernel errno, `-EINVAL` for any other number.
    pub open spec fn clamp(errno: i32) -> i32 {
        if -MAX_ERRNO <= errno < 0 {
            errno
        } else {
            (-EINVAL) as i32
        }
    }

    /// Makes an error from a number returned by the kernel. A number that is
    /// no errno gives `EINVAL`.
    pub fn from_errno(errno: i32) -> (error: Error)
        ensures
            error == Error::of(Error::clamp(errno)),
            error.errno() == Error::clamp(errno),
    {
        if errno < -MAX_ERRNO || errno >= 0 {
            Error { errno: -EINVAL }
        } else {
            Error { errno }
        }
    }

    /// The errno of this error.
    pub fn to_errno(&self) -> (errno: i32)
        ensures
            errno == self.errno(),
            -MAX_ERRNO <= errno < 0,
    {
        proof {
            use_type_invariant(self);
        }
        self.errno
    }
}

} // verus!
