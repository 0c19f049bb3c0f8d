//! The calendar page, as far as it computes.

pub mod export;
pub mod keys;
pub mod widgets;
