//! A small database-migration runner, as a verified library.
//!
//! A project keeps numbered SQL files in a migrations directory. The library
//! decides which of them are still pending relative to a persisted high-water
//! mark, in which order they are applied, and how a run advances that mark
//! one unit at a time. Reading the disk and starting the external tools is
//! left to the caller, who hands over plain values and carries out the
//! actions that the library returns.

pub mod catalog;
pub mod command;
pub mod decimal;
pub mod error;
pub mod executor;
pub mod identity;
pub mod layout;
pub mod ordering;
pub mod progress;
pub mod runs;
pub mod store;
pub mod text;
pub mod token;
pub mod tools;
