//! A2L (ASAP2) descriptions of what is measured and calibrated in a control
//! module.

pub mod lexer;
pub mod number;
pub mod table;
pub mod types;
pub mod parser;
pub mod nesting;
pub mod reader;
