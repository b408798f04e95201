//! SAE J2534 04.04 PassThru devices: the messages they exchange, how a channel is
//! opened, and what becomes of what they deliver.

pub mod channel;
pub mod driver;
pub mod wire;
