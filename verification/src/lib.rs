//! A Little Man Computer service core: an assembler front end and a
//! single-step execution engine, driven one instruction at a time by a caller
//! that owns all state between steps.

pub mod assembler;
pub mod instruction;
pub mod io;
pub mod laws;
pub mod machine;
pub mod parser;
pub mod service;
pub mod statement;
pub mod text;
pub mod word;
