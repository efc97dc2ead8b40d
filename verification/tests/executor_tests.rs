use migrust::catalog::{pending, Listing, MigrationUnit};
use migrust::command::{check, migrate};
use migrust::error::MigrationError;
use migrust::executor::{Action, Event, Executor, Phase};
use migrust::progress::ProgressRecord;

fn unit(token: u128) -> MigrationUnit {
    MigrationUnit { version_token: token, path: format!("{token}.sql") }
}

fn work(tokens: &[u128]) -> Vec<MigrationUnit> {
    tokens.iter().map(|token| unit(*token)).collect()
}

fn listing(names: &[&str]) -> Listing {
    Listing::Entries(names.iter().map(|name| name.to_string()).collect())
}

fn saved(token: u128) -> Action {
    Action::SaveCheckpoint(ProgressRecord { high_water_mark: token })
}

/// Runs the executor the way a caller does: each tool call is answered with
/// the next exit code, each checkpoint is written to `stored`.
fn drive(run: &mut Executor, backup: i32, units: &[i32], stored: &mut u128) -> Vec<Action> {
    let mut actions = Vec::new();
    let mut exits = units.iter();
    let mut action = run.step(Event::Begin);
    loop {
        actions.push(action);
        let event = match action {
            Action::RunBackup => Event::BackupExited(backup),
            Action::ApplyUnit(_) => Event::UnitExited(*exits.next().unwrap()),
            Action::SaveCheckpoint(record) => {
                *stored = record.high_water_mark;
                Event::CheckpointSaved
            }
            Action::Stop | Action::Ignore => return actions,
        };
        action = run.step(event);
    }
}

#[test]
fn run_backs_up_once_then_applies_and_records_each_unit() {
    let mut run = Executor::new(work(&[100, 200, 300]), 50);
    assert_eq!(run.phase(), Phase::Idle);
    assert_eq!(run.len(), 3);
    assert_eq!(run.high_water_mark(), 50);
    assert_eq!(run.outcome(), None);

    assert_eq!(run.step(Event::Begin), Action::RunBackup);
    assert_eq!(run.phase(), Phase::BackingUp);
    assert_eq!(run.step(Event::BackupExited(0)), Action::ApplyUnit(0));
    assert_eq!(run.phase(), Phase::Applying);
    assert_eq!(run.applied(), 0);
    assert_eq!(run.high_water_mark(), 50);

    assert_eq!(run.step(Event::UnitExited(0)), saved(100));
    assert_eq!(run.phase(), Phase::Checkpointing);
    assert_eq!(run.applied(), 1);
    assert_eq!(run.high_water_mark(), 100);
    assert_eq!(run.step(Event::CheckpointSaved), Action::ApplyUnit(1));

    assert_eq!(run.step(Event::UnitExited(0)), saved(200));
    assert_eq!(run.step(Event::CheckpointSaved), Action::ApplyUnit(2));
    assert_eq!(run.step(Event::UnitExited(0)), saved(300));
    assert_eq!(run.outcome(), None);
    assert_eq!(run.step(Event::CheckpointSaved), Action::Stop);

    assert_eq!(run.phase(), Phase::Done);
    assert_eq!(run.applied(), 3);
    assert_eq!(run.high_water_mark(), 300);
    assert_eq!(run.outcome(), Some(Ok(3)));
}

#[test]
fn empty_work_list_ends_without_backup() {
    let mut run = Executor::new(Vec::new(), 77);
    assert_eq!(run.step(Event::Begin), Action::Stop);
    assert_eq!(run.phase(), Phase::Done);
    assert_eq!(run.outcome(), Some(Ok(0)));
    assert_eq!(run.high_water_mark(), 77);
    assert_eq!(run.step(Event::BackupExited(0)), Action::Stop);
    assert_eq!(run.step(Event::UnitExited(0)), Action::Stop);
    assert_eq!(run.high_water_mark(), 77);
}

#[test]
fn empty_migrations_directory_starts_no_tool() {
    let mut stored = 0;
    let mut run = migrate(&listing(&[]), ProgressRecord { high_water_mark: stored }).unwrap();
    let actions = drive(&mut run, 0, &[], &mut stored);
    assert_eq!(actions, [Action::Stop]);
    assert_eq!(run.outcome(), Some(Ok(0)));
    assert_eq!(stored, 0);
    assert_eq!(check(&listing(&[]), ProgressRecord { high_water_mark: stored }), Ok(0));
}

#[test]
fn failed_backup_stops_the_run_before_any_unit() {
    let mut stored = 50;
    let mut run = Executor::new(work(&[100, 200]), stored);
    let actions = drive(&mut run, 1, &[], &mut stored);
    assert_eq!(actions, [Action::RunBackup, Action::Stop]);
    assert_eq!(run.phase(), Phase::BackupFailed);
    assert_eq!(run.outcome(), Some(Err(MigrationError::BackupFailed)));
    assert_eq!(run.applied(), 0);
    assert_eq!(run.high_water_mark(), 50);
    assert_eq!(stored, 50);
}

#[test]
fn any_nonzero_exit_code_is_a_failure() {
    for code in [1, 2, 127, 255, -1, i32::MIN, i32::MAX] {
        let mut run = Executor::new(work(&[1]), 0);
        run.step(Event::Begin);
        assert_eq!(run.step(Event::BackupExited(code)), Action::Stop);
        assert_eq!(run.phase(), Phase::BackupFailed);

        let mut run = Executor::new(work(&[1]), 0);
        run.step(Event::Begin);
        run.step(Event::BackupExited(0));
        assert_eq!(run.step(Event::UnitExited(code)), Action::Stop);
        assert_eq!(run.phase(), Phase::UnitFailed);
    }
}

#[test]
fn failed_unit_keeps_the_records_made_before_it() {
    let mut stored = 50;
    let mut run = migrate(
        &listing(&["100.sql", "50.sql", "200.sql"]),
        ProgressRecord { high_water_mark: stored },
    )
    .unwrap();
    let actions = drive(&mut run, 0, &[0, 3], &mut stored);
    assert_eq!(
        actions,
        [Action::RunBackup, Action::ApplyUnit(0), saved(100), Action::ApplyUnit(1), Action::Stop]
    );
    assert_eq!(run.phase(), Phase::UnitFailed);
    assert_eq!(
        run.outcome(),
        Some(Err(MigrationError::UnitApplyFailed(MigrationUnit {
            version_token: 200,
            path: "200.sql".to_string()
        })))
    );
    assert_eq!(run.applied(), 1);
    assert_eq!(run.high_water_mark(), 100);
    assert_eq!(stored, 100);
    let names = listing(&["100.sql", "50.sql", "200.sql"]);
    assert_eq!(check(&names, ProgressRecord { high_water_mark: stored }), Ok(1));
}

#[test]
fn first_unit_failing_leaves_the_mark_unchanged() {
    let mut stored = 50;
    let mut run = Executor::new(work(&[100, 200]), stored);
    drive(&mut run, 0, &[9], &mut stored);
    assert_eq!(run.phase(), Phase::UnitFailed);
    assert_eq!(run.applied(), 0);
    assert_eq!(run.high_water_mark(), 50);
    assert_eq!(stored, 50);
    assert_eq!(run.outcome(), Some(Err(MigrationError::UnitApplyFailed(unit(100)))));
}

#[test]
fn run_after_a_failure_takes_up_at_the_failed_unit() {
    let names = ["40.sql", "10.sql", "30.sql", "20.sql", "50.sql"];
    for failed in 0..5usize {
        let mut stored = 0;
        let mut exits = vec![0; failed];
        exits.push(1);
        let mut first = migrate(&listing(&names), ProgressRecord { high_water_mark: stored })
            .unwrap();
        drive(&mut first, 0, &exits, &mut stored);
        assert_eq!(first.applied(), failed);
        assert_eq!(stored, [0, 10, 20, 30, 40][failed]);

        let again = pending(&listing(&names), stored).unwrap();
        let expected: Vec<MigrationUnit> =
            [10u128, 20, 30, 40, 50][failed..].iter().map(|token| unit(*token)).collect();
        assert_eq!(again, expected);

        let mut second = Executor::new(again, stored);
        let actions = drive(&mut second, 0, &[0, 0, 0, 0, 0], &mut stored);
        assert_eq!(second.outcome(), Some(Ok(5 - failed)));
        assert_eq!(stored, 50);
        assert_eq!(actions.iter().filter(|a| matches!(a, Action::ApplyUnit(_))).count(), 5 - failed);
    }
}

#[test]
fn mark_never_falls_over_a_series_of_runs() {
    let mut stored = 0;
    let mut marks = vec![stored];
    let series: [(&[&str], i32, &[i32]); 5] = [
        (&["3.sql", "1.sql", "2.sql"], 0, &[0, 1]),
        (&["3.sql", "1.sql", "2.sql"], 1, &[]),
        (&["3.sql", "1.sql", "2.sql"], 0, &[0, 0]),
        (&["3.sql", "1.sql", "2.sql"], 0, &[]),
        (&["3.sql", "1.sql", "2.sql", "5.sql", "4.sql"], 0, &[0, 0]),
    ];
    for (names, backup, exits) in series {
        let mut run = migrate(&listing(names), ProgressRecord { high_water_mark: stored }).unwrap();
        drive(&mut run, backup, exits, &mut stored);
        assert_eq!(stored, run.high_water_mark());
        marks.push(stored);
    }
    assert_eq!(marks, [0, 1, 1, 3, 3, 5]);
}

#[test]
fn events_that_the_run_does_not_wait_for_change_nothing() {
    let mut run = Executor::new(work(&[100]), 0);
    assert_eq!(run.step(Event::BackupExited(0)), Action::Ignore);
    assert_eq!(run.step(Event::UnitExited(0)), Action::Ignore);
    assert_eq!(run.step(Event::CheckpointSaved), Action::Ignore);
    assert_eq!(run.phase(), Phase::Idle);
    run.step(Event::Begin);
    assert_eq!(run.step(Event::Begin), Action::Ignore);
    assert_eq!(run.step(Event::UnitExited(0)), Action::Ignore);
    assert_eq!(run.phase(), Phase::BackingUp);
    run.step(Event::BackupExited(0));
    assert_eq!(run.step(Event::BackupExited(0)), Action::Ignore);
    assert_eq!(run.step(Event::CheckpointSaved), Action::Ignore);
    assert_eq!(run.phase(), Phase::Applying);
    run.step(Event::UnitExited(0));
    assert_eq!(run.step(Event::UnitExited(0)), Action::Ignore);
    assert_eq!(run.applied(), 1);
    assert_eq!(run.step(Event::CheckpointSaved), Action::Stop);
    assert_eq!(run.step(Event::Begin), Action::Stop);
    assert_eq!(run.outcome(), Some(Ok(1)));
}

#[test]
fn units_are_found_by_their_place() {
    let run = Executor::new(work(&[100, 200]), 0);
    assert_eq!(run.unit(0), Some(&unit(100)));
    assert_eq!(run.unit(1), Some(&unit(200)));
    assert_eq!(run.unit(2), None);
}

#[test]
fn migrate_reports_a_failed_scan() {
    let record = ProgressRecord { high_water_mark: 0 };
    assert!(matches!(
        migrate(&Listing::Unreadable, record),
        Err(MigrationError::CatalogScanError(migrust::catalog::ScanError::Unreadable))
    ));
    assert_eq!(
        check(&listing(&["1.sql", "two.sql"]), record),
        Err(MigrationError::CatalogScanError(migrust::catalog::ScanError::BadToken {
            index: 1,
            reason: migrust::decimal::NumeralError::InvalidDigit
        }))
    );
}
