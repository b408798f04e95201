//! What holds of the operations as a whole, said of what goes in and what comes
//! out.

pub mod checksums;
pub mod commands;
pub mod containers;
pub mod describing;
pub mod flashing;
pub mod guiding;
pub mod identifying;
pub mod immobilizer;
pub mod monitoring;
pub mod reading;
pub mod showing;
pub mod tables;
pub mod talking;
pub mod texts;
pub mod unlocking;
pub mod viewing;
