//! The flashing wizard: one decision per screen, nothing flashed that was not
//! described first.

pub mod firmware;
pub mod screens;
pub mod state;
pub mod steps;
