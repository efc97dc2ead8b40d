use migrust::catalog::{pending, Listing, MigrationUnit, ScanError};
use migrust::decimal::NumeralError;

fn listing(names: &[&str]) -> Listing {
    Listing::Entries(names.iter().map(|name| name.to_string()).collect())
}

fn unit(token: u128, path: &str) -> MigrationUnit {
    MigrationUnit { version_token: token, path: path.to_string() }
}

fn paths(units: &[MigrationUnit]) -> Vec<&str> {
    units.iter().map(|unit| unit.path.as_str()).collect()
}

#[test]
fn pending_units_come_in_ascending_order() {
    let found = pending(&listing(&["100.sql", "50.sql", "200.sql"]), 50).unwrap();
    assert_eq!(found, vec![unit(100, "100.sql"), unit(200, "200.sql")]);
}

#[test]
fn pending_is_strictly_above_the_mark() {
    let names = listing(&["100.sql", "50.sql", "200.sql"]);
    assert_eq!(paths(&pending(&names, 0).unwrap()), ["50.sql", "100.sql", "200.sql"]);
    assert_eq!(paths(&pending(&names, 49).unwrap()), ["50.sql", "100.sql", "200.sql"]);
    assert_eq!(paths(&pending(&names, 99).unwrap()), ["100.sql", "200.sql"]);
    assert_eq!(paths(&pending(&names, 100).unwrap()), ["200.sql"]);
    assert_eq!(paths(&pending(&names, 199).unwrap()), ["200.sql"]);
    assert!(pending(&names, 200).unwrap().is_empty());
    assert!(pending(&names, u128::MAX).unwrap().is_empty());
}

#[test]
fn order_of_the_listing_does_not_show() {
    let expected = vec![unit(1, "1.sql"), unit(2, "2.sql"), unit(10, "10.sql"), unit(30, "30.sql")];
    let orders: [[&str; 4]; 6] = [
        ["1.sql", "2.sql", "10.sql", "30.sql"],
        ["30.sql", "10.sql", "2.sql", "1.sql"],
        ["10.sql", "1.sql", "30.sql", "2.sql"],
        ["2.sql", "30.sql", "1.sql", "10.sql"],
        ["10.sql", "2.sql", "30.sql", "1.sql"],
        ["1.sql", "30.sql", "2.sql", "10.sql"],
    ];
    for order in orders {
        assert_eq!(pending(&listing(&order), 0).unwrap(), expected);
    }
}

#[test]
fn tokens_are_ordered_as_numbers_not_as_text() {
    let found = pending(&listing(&["9.sql", "10.sql", "100.sql", "11.sql"]), 0).unwrap();
    assert_eq!(paths(&found), ["9.sql", "10.sql", "11.sql", "100.sql"]);
}

#[test]
fn other_entries_are_passed_over() {
    let names = listing(&["notes.txt", "3.sql", "backup", "1.sql.bak", "2.SQL", "1.sql"]);
    assert_eq!(paths(&pending(&names, 0).unwrap()), ["1.sql", "3.sql"]);
}

#[test]
fn token_ends_at_the_first_dot() {
    let names = listing(&["20.add_index.sql", "10.create.table.sql"]);
    assert_eq!(
        pending(&names, 0).unwrap(),
        vec![unit(10, "10.create.table.sql"), unit(20, "20.add_index.sql")]
    );
}

#[test]
fn empty_listing_gives_an_empty_work_list() {
    assert_eq!(pending(&listing(&[]), 0), Ok(vec![]));
    assert_eq!(pending(&listing(&["readme.md"]), 0), Ok(vec![]));
}

#[test]
fn unreadable_directory_is_an_error() {
    assert_eq!(pending(&Listing::Unreadable, 0), Err(ScanError::Unreadable));
}

#[test]
fn first_file_without_a_token_fails_the_scan() {
    let names = listing(&["1.sql", "notes.txt", "init.sql", ".sql", "2.sql"]);
    assert_eq!(
        pending(&names, 0),
        Err(ScanError::BadToken { index: 2, reason: NumeralError::InvalidDigit })
    );
    let names = listing(&["1.sql", ".sql", "init.sql"]);
    assert_eq!(
        pending(&names, 0),
        Err(ScanError::BadToken { index: 1, reason: NumeralError::Empty })
    );
    let names = listing(&["999999999999999999999999999999999999999999.sql"]);
    assert_eq!(
        pending(&names, 0),
        Err(ScanError::BadToken { index: 0, reason: NumeralError::Overflow })
    );
}

#[test]
fn a_file_without_a_token_fails_the_scan_even_when_nothing_is_pending() {
    let names = listing(&["1.sql", "x.sql"]);
    assert_eq!(
        pending(&names, 1000),
        Err(ScanError::BadToken { index: 1, reason: NumeralError::InvalidDigit })
    );
}

#[test]
fn files_with_one_token_keep_the_order_of_the_listing() {
    let names = listing(&["7.sql", "5.sql", "05.sql", "6.sql", "+5.sql", "5.b.sql"]);
    assert_eq!(
        paths(&pending(&names, 0).unwrap()),
        ["5.sql", "05.sql", "+5.sql", "5.b.sql", "6.sql", "7.sql"]
    );
    let names = listing(&["5.b.sql", "+5.sql", "6.sql", "05.sql", "5.sql", "7.sql"]);
    assert_eq!(
        paths(&pending(&names, 0).unwrap()),
        ["5.b.sql", "+5.sql", "05.sql", "5.sql", "6.sql", "7.sql"]
    );
}

#[test]
fn large_tokens_are_kept_exactly() {
    let names = listing(&[
        "340282366920938463463374607431768211455.sql",
        "340282366920938463463374607431768211454.sql",
    ]);
    let found = pending(&names, 340282366920938463463374607431768211453).unwrap();
    assert_eq!(found[0].version_token, u128::MAX - 1);
    assert_eq!(found[1].version_token, u128::MAX);
    assert_eq!(pending(&names, u128::MAX - 1).unwrap().len(), 1);
}
