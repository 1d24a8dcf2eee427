//! Discovery, metadata extraction, renaming and safe archiving of
//! Windows-style binary event-log files.
//!
//! The library holds the decision logic of the pipeline: content-signature
//! classification, dotted-path lookup over a record tree, deterministic
//! filename computation, and the archive / verify / delete state machine.
//! All filesystem work is left to the surrounding application, which hands
//! the library plain values and carries out the actions it decides on.

pub mod archive;
pub mod discover;
pub mod json_tree;
pub mod metadata;
pub mod paths;
pub mod rename;
pub mod signature;
