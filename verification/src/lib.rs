//! Build-time pipeline that turns the C interface of an embedded operating
//! system into Rust source: it settles on one set of compiler flags, gives
//! preprocessor macros a callable form, and patches the transpiled inline
//! functions so that they compile next to the generated declarations.

pub mod consensus;
pub mod consensus_proofs;
pub mod enums;
pub mod error;
pub mod exports;
pub mod extractor;
pub mod flags;
pub mod lines;
pub mod macro_table;
pub mod macros;
pub mod macros_proofs;
pub mod markers;
pub mod reconcile;
pub mod reconcile_proofs;
pub mod text;
pub mod transpile;
pub mod trusted;
pub mod words;
