//! Where a project keeps its files, and whether a directory is a project.

use vstd::prelude::*;
use vstd::string::StringExecFns;
use crate::decimal::{append_decimal, decimal_text};

verus! {

/// What a look at one path found.
#[derive(Clone, Copy, Debug, PartialEq, Eq, Structural)]
pub struct PathProbe {
    /// The path names a directory.
    pub is_dir: bool,
    /// The path names a regular file.
    pub is_file: bool,
}

/// What a look at the three directories of a project found.
#[derive(Clone, Copy, Debug, PartialEq, Eq, Structural)]
pub struct ProjectProbe {
    /// The project directory.
    pub project: PathProbe,
    /// The directory of the backups.
    pub backup: PathProbe,
    /// The directory of the migration files.
    pub migrations: PathProbe,
}

/// A path counts as present when it is a directory or a regular file.
pub open spec fn present(probe: PathProbe) -> bool {
    probe.is_dir || probe.is_file
}

/// A directory holds a project when the project directory and both of its
/// subdirectories are present.
pub open spec fn initialized(probe: ProjectProbe) -> bool {
    present(probe.project) && present(probe.backup) && present(probe.migrations)
}

/// The project directory inside the working directory `root`.
pub open spec fn project_dir_of(root: Seq<char>) -> Seq<char> {
    root + "/migrust"@
}

/// The directory of the backups.
pub open spec fn backup_dir_of(root: Seq<char>) -> Seq<char> {
    root + "/migrust/backup"@
}

/// The directory of the migration files.
pub open spec fn migrations_dir_of(root: Seq<char>) -> Seq<char> {
    root + "/migrust/migrations"@
}

/// The file of the configuration called `name`.
pub open spec fn config_file_of(root: Seq<char>, name: Seq<char>) -> Seq<char> {
    root + "/migrust/"@ + name + ".json"@
}

/// The migration file called `file_name`.
pub open spec fn migration_file_of(root: Seq<char>, file_name: Seq<char>) -> Seq<char> {
    root + "/migrust/migrations/"@ + file_name
}

/// The file of the backup taken at `now_millis`.
pub open spec fn backup_file_of(root: Seq<char>, now_millis: u128) -> Seq<char> {
    root + "/migrust/backup/"@ + decimal_text(now_millis as nat) + ".sql"@
}

/// The file of the progress record of the project `id`, inside the user's
/// directory `store`.
pub open spec fn progress_file_of(store: Seq<char>, id: Seq<char>) -> Seq<char> {
    store + "/"@ + id + ".json"@
}

/// Tells whether the probed path holds something the runner can use.
pub fn something_exist(probe: PathProbe) -> (found: bool)
    ensures
        found == present(probe),
{
    probe.is_dir || probe.is_file
}

/// Tells whether the probed working directory holds a project.
pub fn is_project_folder_inited(probe: ProjectProbe) -> (inited: bool)
    ensures
        inited == initialized(probe),
{
    something_exist(probe.project) && something_exist(probe.backup) && something_exist(
        probe.migrations,
    )
}

/// The path of the project directory.
pub fn project_dir(root: &str) -> (path: String)
    ensures
        path@ == project_dir_of(root@),
{
    String::from_str(root).concat("/migrust")
}

/// The path of the directory of the backups.
pub fn backup_dir(root: &str) -> (path: String)
    ensures
        path@ == backup_dir_of(root@),
{
    String::from_str(root).concat("/migrust/backup")
}

/// The path of the directory of the migration files.
pub fn migrations_dir(root: &str) -> (path: String)
    ensures
        path@ == migrations_dir_of(root@),
{
    String::from_str(root).concat("/migrust/migrations")
}

/// The path of the file of the configuration called `name`.
pub fn config_file(root: &str, name: &str) -> (path: String)
    ensures
        path@ == config_file_of(root@, name@),
{
    String::from_str(root).concat("/migrust/").concat(name).concat(".json")
}

/// The path of the migration file called `file_name`.
pub fn migration_file(root: &str, file_name: &str) -> (path: String)
    ensures
        path@ == migration_file_of(root@, file_name@),
{
    String::from_str(root).concat("/migrust/migrations/").concat(file_name)
}

/// The path of the file of the backup taken at `now_millis`, in milliseconds
/// since the Unix epoch.
pub fn backup_file(root: &str, now_millis: u128) -> (path: String)
    ensures
        path@ == backup_file_of(root@, now_millis),
{
    let mut path = String::from_str(root).concat("/migrust/backup/");
    append_decimal(&mut path, now_millis);
    path.concat(".sql")
}

/// The path of the file of the progress record of the project `id`.
pub fn progress_file(store: &str, id: &str) -> (path: String)
    ensures
        path@ == progress_file_of(store@, id@),
{
    String::from_str(store).concat("/").concat(id).concat(".json")
}

} // verus!
