//! Synchronisation.

pub mod poll;
