//! Handle-based slab storage, the `RustFuture` scheduling state machine and the
//! naming/lowering rules of the Kotlin JNI bindings generator.

pub mod text;
pub mod slab;
pub mod rustfuture;
pub mod names;
pub mod ffitypes;
pub mod deconstruct;
pub mod error;
pub mod context;
pub mod nodes;
pub mod types;
pub mod callables;
pub mod callbacks;
pub mod records;
pub mod enums;
pub mod version_mismatch;
pub mod codetype;
pub mod packages;
pub mod export;
