//! The editors of the five cells of a row. At most one of them is open at
//! a time, on the selected cell.

pub mod description;
pub mod duration;
pub mod mode;
pub mod project;
pub mod select;
pub mod shared;
pub mod ticket;
pub mod time;
