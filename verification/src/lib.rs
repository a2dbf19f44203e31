//! FTD documents: sections, parsed documents and the interpreter's work queue,
//! with contracts proved by Verus.
pub mod text;
pub mod p1;
pub mod names;
pub mod ast;
pub mod document;
pub mod interpreter;
pub mod value;
pub mod doc;
pub mod config;
pub mod resolve;
pub mod imports;
pub mod ftd2021;
pub mod laws;
pub mod library;
