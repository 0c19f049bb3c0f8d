//! The parts of the interface, each as a state and the steps it can take.

pub mod calendar;
pub mod home;
pub mod statusbar;
