//! What travels between the editor and the store, and what the store's
//! keeper decides.

pub mod actor;
pub mod handle;
pub mod model;
