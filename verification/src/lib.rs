//! Flashing toolkit for VW/Audi control modules: firmware containers, block
//! checksums, module identification, immobilizer pre-flight checks, the flash
//! sequence itself and A2L descriptions, each stated and proved.

pub mod a2l;
pub mod binfile;
pub mod bytes;
pub mod cboot;
pub mod checksum;
pub mod cli;
pub mod fixup;
pub mod flash;
pub mod frf;
pub mod identify;
pub mod immo;
pub mod immo_text;
pub mod interface;
pub mod j2534;
pub mod laws;
pub mod logging;
pub mod module;
pub mod prepare;
pub mod sequence;
pub mod session;
pub mod text;
pub mod uds;
pub mod unlock;
pub mod viewer;
pub mod wizard;
pub mod workshop;
