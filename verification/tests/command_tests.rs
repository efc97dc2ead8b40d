use migrust::command::{preflight, Command, Surroundings};
use migrust::error::MigrationError;
use migrust::layout::{PathProbe, ProjectProbe};

const DIR: PathProbe = PathProbe { is_dir: true, is_file: false };
const FILE: PathProbe = PathProbe { is_dir: false, is_file: true };
const NOTHING: PathProbe = PathProbe { is_dir: false, is_file: false };

fn around(inited: bool, config: PathProbe) -> Surroundings {
    let project = if inited {
        ProjectProbe { project: DIR, backup: DIR, migrations: DIR }
    } else {
        ProjectProbe { project: DIR, backup: NOTHING, migrations: DIR }
    };
    Surroundings { project, config }
}

#[test]
fn init_needs_a_directory_that_is_no_project() {
    assert_eq!(preflight(&Command::Init, around(false, NOTHING)), Ok(()));
    assert_eq!(preflight(&Command::Init, around(false, FILE)), Ok(()));
    assert_eq!(
        preflight(&Command::Init, around(true, NOTHING)),
        Err(MigrationError::AlreadyInitialized)
    );
    assert_eq!(
        preflight(&Command::Init, around(true, FILE)),
        Err(MigrationError::AlreadyInitialized)
    );
}

#[test]
fn create_needs_a_project() {
    assert_eq!(preflight(&Command::Create, around(true, NOTHING)), Ok(()));
    assert_eq!(
        preflight(&Command::Create, around(false, FILE)),
        Err(MigrationError::NotInitialized)
    );
}

#[test]
fn init_config_needs_a_project_and_a_free_name() {
    let command = Command::InitConfig("staging".to_string());
    assert_eq!(preflight(&command, around(true, NOTHING)), Ok(()));
    assert_eq!(
        preflight(&command, around(true, FILE)),
        Err(MigrationError::ConfigAlreadyExists)
    );
    assert_eq!(preflight(&command, around(false, NOTHING)), Err(MigrationError::NotInitialized));
    assert_eq!(preflight(&command, around(false, FILE)), Err(MigrationError::NotInitialized));
}

#[test]
fn check_and_migrate_need_a_project_and_the_configuration() {
    for command in [Command::Check("default".to_string()), Command::Migrate("default".to_string())]
    {
        assert_eq!(preflight(&command, around(true, FILE)), Ok(()));
        assert_eq!(preflight(&command, around(true, DIR)), Ok(()));
        assert_eq!(
            preflight(&command, around(true, NOTHING)),
            Err(MigrationError::ConfigNotFound)
        );
        assert_eq!(
            preflight(&command, around(false, FILE)),
            Err(MigrationError::NotInitialized)
        );
        assert_eq!(
            preflight(&command, around(false, NOTHING)),
            Err(MigrationError::NotInitialized)
        );
    }
}

#[test]
fn commands_name_their_configuration() {
    assert_eq!(Command::Init.config_name(), Some("default"));
    assert_eq!(Command::Create.config_name(), None);
    assert_eq!(Command::InitConfig("a".to_string()).config_name(), Some("a"));
    assert_eq!(Command::Check("b".to_string()).config_name(), Some("b"));
    assert_eq!(Command::Migrate("c".to_string()).config_name(), Some("c"));
}
