//! The commands of the runner, and what each of them decides before it
//! touches anything.

use vstd::prelude::*;
use crate::catalog::{
    discovered, is_work_list, name_texts, pending, scan_fails, unit_views, well_named, Listing,
};
use crate::error::MigrationError;
use crate::executor::{initial, Executor};
use crate::layout::{initialized, is_project_folder_inited, present, something_exist, PathProbe,
    ProjectProbe};
use crate::progress::ProgressRecord;

verus! {

/// What the user asks for.
#[derive(Clone, Debug, PartialEq, Eq)]
pub enum Command {
    /// Make the working directory a project.
    Init,
    /// Add a configuration of this name to the project.
    InitConfig(String),
    /// Add an empty migration file, named after the present time.
    Create,
    /// Say how many units are pending under the configuration of this name.
    Check(String),
    /// Apply the pending units under the configuration of this name.
    Migrate(String),
}

/// What was found around a command: the project's directories, and the file
/// of the configuration that the command names.
#[derive(Clone, Copy, Debug, PartialEq, Eq, Structural)]
pub struct Surroundings {
    pub project: ProjectProbe,
    pub config: PathProbe,
}

/// The name of the configuration that `init` makes.
pub open spec fn default_config_name() -> Seq<char> {
    "default"@
}

impl Command {
    /// The name of the configuration that the command works with, if it
    /// works with one.
    pub open spec fn config_name_of(self) -> Option<Seq<char>> {
        match self {
            Command::Init => Some(default_config_name()),
            Command::InitConfig(name) => Some(name@),
            Command::Create => None,
            Command::Check(name) => Some(name@),
            Command::Migrate(name) => Some(name@),
        }
    }

    /// The name of the configuration that the command works with, if it
    /// works with one.
    pub fn config_name(&self) -> (name: Option<&str>)
        ensures
            match name {
                Some(text) => self.config_name_of() == Some(text@),
                None => self.config_name_of() is None,
            },
    {
        match self {
            Command::Init => Some("default"),
            Command::InitConfig(name) => Some(name.as_str()),
            Command::Create => None,
            Command::Check(name) => Some(name.as_str()),
            Command::Migrate(name) => Some(name.as_str()),
        }
    }
}

/// Decides whether a command may go ahead in the surroundings it was given
/// in. `init` needs a directory that is no project yet; every other command
/// needs a project. `init-config` needs the name to be free; `check` and
/// `migrate` need the configuration to exist. The state of the project is
/// looked at first.
pub fn preflight(command: &Command, found: Surroundings) -> (r: Result<(), MigrationError>)
    ensures
        match *command {
            Command::Init => if initialized(found.project) {
                r matches Err(MigrationError::AlreadyInitialized)
            } else {
                r is Ok
            },
            Command::Create => if initialized(found.project) {
                r is Ok
            } else {
                r matches Err(MigrationError::NotInitialized)
            },
            Command::InitConfig(_) => if !initialized(found.project) {
                r matches Err(MigrationError::NotInitialized)
            } else if present(found.config) {
                r matches Err(MigrationError::ConfigAlreadyExists)
            } else {
                r is Ok
            },
            Command::Check(_) | Command::Migrate(_) => if !initialized(found.project) {
                r matches Err(MigrationError::NotInitialized)
            } else if !present(found.config) {
                r matches Err(MigrationError::ConfigNotFound)
            } else {
                r is Ok
            },
        },
{
    let inited = is_project_folder_inited(found.project);
    let configured = something_exist(found.config);
    match command {
        Command::Init => {
            if inited {
                Err(MigrationError::AlreadyInitialized)
            } else {
                Ok(())
            }
        },
        Command::Create => {
            if inited {
                Ok(())
            } else {
                Err(MigrationError::NotInitialized)
            }
        },
        Command::InitConfig(_) => {
            if !inited {
                Err(MigrationError::NotInitialized)
            } else if configured {
                Err(MigrationError::ConfigAlreadyExists)
            } else {
                Ok(())
            }
        },
        Command::Check(_) | Command::Migrate(_) => {
            if !inited {
                Err(MigrationError::NotInitialized)
            } else if !configured {
                Err(MigrationError::ConfigNotFound)
            } else {
                Ok(())
            }
        },
    }
}

/// Counts the units that are pending under `record`: the migration files
/// of the listing whose token lies above the record's high-water mark.
pub fn check(listing: &Listing, record: ProgressRecord) -> (r: Result<usize, MigrationError>)
    ensures
        match r {
            Ok(count) => {
                &&& listing matches Listing::Entries(names)
                &&& well_named(name_texts(names@))
                &&& count == discovered(name_texts(names@), record.high_water_mark).len()
            },
            Err(MigrationError::CatalogScanError(error)) => scan_fails(*listing, error),
            Err(_) => false,
        },
{
    match pending(listing, record.high_water_mark) {
        Ok(units) => Ok(units.len()),
        Err(error) => Err(MigrationError::CatalogScanError(error)),
    }
}

/// Prepares the run that `migrate` makes under `record`: a run that has not
/// begun, over the pending units in ascending order, from the record's
/// high-water mark.
pub fn migrate(listing: &Listing, record: ProgressRecord) -> (r: Result<Executor, MigrationError>)
    ensures
        match r {
            Ok(run) => {
                &&& is_work_list(run@.work, *listing, record.high_water_mark)
                &&& run@ == initial(run@.work, record.high_water_mark)
                &&& run@.orderly()
                &&& run@.consistent()
            },
            Err(MigrationError::CatalogScanError(error)) => scan_fails(*listing, error),
            Err(_) => false,
        },
{
    match pending(listing, record.high_water_mark) {
        Ok(units) => {
            proof {
                let work = unit_views(units@);
                assert forall|i: int| 0 <= i < work.len() implies (#[trigger] work[i]).token
                    > record.high_water_mark by {
                    assert(work[i] == units@[i]@);
                }
            }
            Ok(Executor::new(units, record.high_water_mark))
        },
        Err(error) => Err(MigrationError::CatalogScanError(error)),
    }
}

} // verus!
