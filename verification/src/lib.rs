//! Editing a day of time-tracking entries as a gap-free timeline, and keeping
//! the edits in step with a store that answers later.
//!
//! Everything here is plain data in, plain data out: the terminal, the
//! channels and the database live with the caller.

pub mod action;
pub mod clock;
pub mod components;
pub mod config;
pub mod ids;
pub mod layout;
pub mod persist;
pub mod seqs;
pub mod shared;
pub mod text;
