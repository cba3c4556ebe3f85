//! What holds of the handles against every kernel that keeps the contract of
//! [`crate::contract`].
//!
//! Each law is a proof function. Its parameters are the kernel's state
//! before, what the library is asked to do, and what the kernel answers; its
//! `requires` says no more than that the state is one a kernel can be in and
//! that the answers are ones the kernel may give.

pub mod closer;
pub mod handles;
pub mod poll;
pub mod reservation;
