//! Booking a day's work on the tickets' own pages.

pub mod jira;
