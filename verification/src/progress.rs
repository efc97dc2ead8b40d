//! The progress record: how far a project's database has been migrated.

use vstd::prelude::*;
use crate::error::MigrationError;
use crate::store::Stored;

verus! {

/// The high-water mark of one project: the version token of the last
/// migration unit that was applied, or zero if none was.
#[derive(Clone, Copy, Debug, PartialEq, Eq, Structural)]
pub struct ProgressRecord {
    pub high_water_mark: u128,
}

impl ProgressRecord {
    /// The record of a project to which nothing was applied yet.
    pub open spec fn fresh() -> ProgressRecord {
        ProgressRecord { high_water_mark: 0 }
    }
}

impl Default for ProgressRecord {
    fn default() -> (record: ProgressRecord)
        ensures
            record == ProgressRecord::fresh(),
    {
        ProgressRecord { high_water_mark: 0 }
    }
}

/// The progress record that a run starts from.
#[derive(Clone, Copy, Debug, PartialEq, Eq, Structural)]
pub struct Opened {
    pub record: ProgressRecord,
    /// Nothing was stored for the project: the record is the fresh one, and
    /// is to be stored before the run goes on.
    pub created: bool,
}

/// Settles the progress record of a project from what is stored for it: the
/// stored record as it is, or the fresh record where nothing is stored. The
/// fresh record is not stored by this.
pub fn load(stored: Stored<ProgressRecord>) -> (r: Result<ProgressRecord, MigrationError>)
    ensures
        match stored {
            Stored::Found(record) => r == Ok::<ProgressRecord, MigrationError>(record),
            Stored::Absent => r == Ok::<ProgressRecord, MigrationError>(ProgressRecord::fresh()),
            Stored::Unreadable => r matches Err(MigrationError::ConfigUnreadable),
            Stored::Malformed => r matches Err(MigrationError::ConfigMalformed),
        },
{
    match stored {
        Stored::Found(record) => Ok(record),
        Stored::Absent => Ok(ProgressRecord { high_water_mark: 0 }),
        Stored::Unreadable => Err(MigrationError::ConfigUnreadable),
        Stored::Malformed => Err(MigrationError::ConfigMalformed),
    }
}

/// Settles the progress record that a run starts from, and tells whether it
/// has to be stored first: it has where nothing was stored yet.
pub fn open(stored: Stored<ProgressRecord>) -> (r: Result<Opened, MigrationError>)
    ensures
        match stored {
            Stored::Found(record) => r == Ok::<Opened, MigrationError>(
                Opened { record, created: false },
            ),
            Stored::Absent => r == Ok::<Opened, MigrationError>(
                Opened { record: ProgressRecord::fresh(), created: true },
            ),
            Stored::Unreadable => r matches Err(MigrationError::ConfigUnreadable),
            Stored::Malformed => r matches Err(MigrationError::ConfigMalformed),
        },
{
    let created = match stored {
        Stored::Absent => true,
        _ => false,
    };
    match load(stored) {
        Ok(record) => Ok(Opened { record, created }),
        Err(error) => Err(error),
    }
}

} // verus!
