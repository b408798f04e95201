//! A2L browser: what it shows, and how it reacts.

pub mod categories;
pub mod state;
pub mod panels;
pub mod tables;
