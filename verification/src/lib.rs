//! Session layer of a language server for Verse projects.
//!
//! The crate holds the server's state and every decision it takes: position
//! translation, the registry of project containers, the message queue with
//! cancellation and compile gating, the merge of diagnostics that are
//! published, and the encoding of semantic tokens. Reading the transport,
//! walking the disk and calling the analysis engine are left to the caller,
//! which hands the results in as plain values.

pub mod diagnostics;
pub mod features;
pub mod ffi;
pub mod paths;
pub mod protocol;
pub mod server;
pub mod span;
pub mod uri_map;
pub mod utils;
pub mod verse;
pub mod vproject;
