//! Documentation backend for assembly language sources.
//!
//! The crate ingests reference documents describing instructions, registers
//! and assembler directives for several target architectures, builds
//! name-to-entry indices over them, and answers two editor queries: hover
//! documentation for the token under a cursor, and completion candidates for
//! a trigger context.

pub mod complete;
pub mod docs;
pub mod filter;
pub mod hover;
pub mod index;
pub mod parser;
pub mod store;
pub mod text;
pub mod trusted;
pub mod types;
pub mod util;
pub mod xml;
