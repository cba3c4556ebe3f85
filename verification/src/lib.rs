//! Reference-counted handles over kernel objects, written without I/O.
//!
//! The kernel owns every object this crate speaks of: files, credentials,
//! descriptor slots, wait lists. Nothing here calls the kernel. Each operation
//! says which [`boundary::Request`] has to be made. Where the kernel's answer
//! decides how to go on, the operation is a [`boundary::Machine`]: it takes the
//! [`boundary::Reply`] and yields the next request or the result. Whoever
//! embeds the crate performs the requests; [`driver::run`] does the rest.
//!
//! - [`types`] holds the counted handle, [`types::ARef`].
//! - [`cred`] and [`file`] hold the views of credentials and of open files,
//!   the two-step reservation of a descriptor, and the deferred close.
//! - [`sync::poll`] holds poll tables and the condition variables that can be
//!   registered with them.
//! - [`contract`] states what the kernel promises for each request, over a
//!   model of its state.
//! - [`laws`] proves, for every kernel that keeps those promises, that handles
//!   neither leak nor release twice, that a reservation ends in exactly one of
//!   its two exits, that a deferred close frees the descriptor at once and the
//!   file only at a safe point, and that a wait list is out of the kernel's
//!   reach once its condition variable is torn down.

pub mod boundary;
pub mod contract;
pub mod cred;
pub mod driver;
pub mod error;
pub mod file;
pub mod laws;
pub mod sync;
pub mod types;
