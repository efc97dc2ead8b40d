//! The ways in which a command of the runner can end without doing its work.

use vstd::prelude::*;
use crate::catalog::{MigrationUnit, ScanError};

verus! {

/// Why a command stopped.
#[derive(Clone, Debug, PartialEq, Eq)]
pub enum MigrationError {
    /// The working directory holds no project.
    NotInitialized,
    /// The working directory already holds a project.
    AlreadyInitialized,
    /// No configuration of the given name exists.
    ConfigNotFound,
    /// A configuration of the given name exists already.
    ConfigAlreadyExists,
    /// A stored configuration or progress record cannot be read.
    ConfigUnreadable,
    /// A stored configuration or progress record does not have its shape.
    ConfigMalformed,
    /// The migrations directory could not be scanned.
    CatalogScanError(ScanError),
    /// The backup tool reported a failure; nothing was applied.
    BackupFailed,
    /// The SQL tool reported a failure on this unit; the units in front of
    /// it are applied and recorded, this one and the later ones stay pending.
    UnitApplyFailed(MigrationUnit),
}

} // verus!
