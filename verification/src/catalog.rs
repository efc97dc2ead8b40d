//! The migration catalog: which units of a directory listing are pending,
//! and in which order they are applied.

use vstd::prelude::*;
use crate::decimal::NumeralError;
use crate::text::chars_of;
use crate::token::{ends_in_sql, has_sql_suffix, token_of_chars, version_token};

verus! {

/// One migration file: the token that orders it and the name it is found
/// under.
#[derive(Clone, Debug, PartialEq, Eq)]
pub struct MigrationUnit {
    /// The number in front of the file's name.
    pub version_token: u128,
    /// The file's name inside the migrations directory.
    pub path: String,
}

/// A migration unit as a mathematical value.
pub ghost struct UnitView {
    pub token: u128,
    pub path: Seq<char>,
}

impl View for MigrationUnit {
    type V = UnitView;

    open spec fn view(&self) -> UnitView {
        UnitView { token: self.version_token, path: self.path@ }
    }
}

/// The views of a sequence of units.
pub open spec fn unit_views(units: Seq<MigrationUnit>) -> Seq<UnitView> {
    units.map_values(|u: MigrationUnit| u@)
}

/// The texts of a sequence of names.
pub open spec fn name_texts(names: Seq<String>) -> Seq<Seq<char>> {
    names.map_values(|s: String| s@)
}

/// What a look into the migrations directory gave.
#[derive(Clone, Debug, PartialEq, Eq)]
pub enum Listing {
    /// The directory is missing or cannot be read.
    Unreadable,
    /// The names of the directory's entries, in the order they were met.
    Entries(Vec<String>),
}

/// Why no work list could be made.
#[derive(Clone, Copy, Debug, PartialEq, Eq, Structural)]
pub enum ScanError {
    /// The migrations directory is missing or cannot be read.
    Unreadable,
    /// The entry at `index` is a migration file whose name does not start
    /// with a version token.
    BadToken { index: usize, reason: NumeralError },
}

/// The unit that a migration file's name stands for.
pub open spec fn unit_of(name: Seq<char>) -> UnitView {
    UnitView { token: version_token(name).unwrap(), path: name }
}

/// `name` is a migration file whose token cannot be read.
pub open spec fn is_malformed(name: Seq<char>) -> bool {
    has_sql_suffix(name) && version_token(name) is Err
}

/// No migration file of the listing has a token that cannot be read.
pub open spec fn well_named(names: Seq<Seq<char>>) -> bool {
    forall|i: int| 0 <= i < names.len() ==> !is_malformed(#[trigger] names[i])
}

/// `name` is a migration file whose token lies above the high-water mark.
pub open spec fn is_pending(name: Seq<char>, high_water_mark: u128) -> bool {
    has_sql_suffix(name) && version_token(name) is Ok && version_token(name).unwrap()
        > high_water_mark
}

/// The pending units of a listing, in the order of the listing.
pub open spec fn discovered(names: Seq<Seq<char>>, high_water_mark: u128) -> Seq<UnitView>
    decreases names.len(),
{
    if names.len() == 0 {
        Seq::empty()
    } else {
        let earlier = discovered(names.drop_last(), high_water_mark);
        if is_pending(names.last(), high_water_mark) {
            earlier.push(unit_of(names.last()))
        } else {
            earlier
        }
    }
}

/// Tokens never fall from one unit to a later one.
pub open spec fn ascending(units: Seq<UnitView>) -> bool {
    forall|i: int, j: int| 0 <= i <= j < units.len() ==> units[i].token <= units[j].token
}

/// Tokens rise from each unit to every later one.
pub open spec fn strictly_ascending(units: Seq<UnitView>) -> bool {
    forall|i: int, j: int| 0 <= i < j < units.len() ==> units[i].token < units[j].token
}

/// The units of `units` that carry the token `token`, in the order of `units`.
pub open spec fn with_token(units: Seq<UnitView>, token: u128) -> Seq<UnitView>
    decreases units.len(),
{
    if units.len() == 0 {
        Seq::empty()
    } else {
        let earlier = with_token(units.drop_last(), token);
        if units.last().token == token {
            earlier.push(units.last())
        } else {
            earlier
        }
    }
}

/// `sorted` holds exactly the units of `found`, ascending by token, and the
/// units that share a token in the order they have in `found`.
pub open spec fn is_arrangement_of(sorted: Seq<UnitView>, found: Seq<UnitView>) -> bool {
    &&& ascending(sorted)
    &&& forall|token: u128| #[trigger] with_token(sorted, token) == with_token(found, token)
}

/// `units` is the work list that `listing` gives under `high_water_mark`:
/// the listing is readable, every migration file in it carries a token, and
/// the units are its pending ones in ascending order.
pub open spec fn is_work_list(units: Seq<UnitView>, listing: Listing, high_water_mark: u128) -> bool {
    &&& listing matches Listing::Entries(names)
    &&& well_named(name_texts(names@))
    &&& is_arrangement_of(units, discovered(name_texts(names@), high_water_mark))
    &&& units.len() == discovered(name_texts(names@), high_water_mark).len()
}

/// The scan of `listing` fails with `error`: the listing is unreadable, or
/// `error` names the first migration file without a token and says what is
/// wrong with its name.
pub open spec fn scan_fails(listing: Listing, error: ScanError) -> bool {
    match error {
        ScanError::Unreadable => listing is Unreadable,
        ScanError::BadToken { index, reason } => {
            &&& listing matches Listing::Entries(names)
            &&& index < names.len()
            &&& well_named(name_texts(names@).take(index as int))
            &&& is_malformed(names@[index as int]@)
            &&& version_token(names@[index as int]@) == Err::<u128, NumeralError>(reason)
        },
    }
}

/// Putting a unit in front of the units with greater tokens adds it at the
/// end of the units with its own token, and changes nothing for other tokens.
pub proof fn lemma_with_token_insert(units: Seq<UnitView>, at: int, unit: UnitView, token: u128)
    requires
        0 <= at <= units.len(),
        forall|j: int| at <= j < units.len() ==> (#[trigger] units[j]).token > unit.token,
    ensures
        with_token(units.insert(at, unit), token) == if token == unit.token {
            with_token(units, token).push(unit)
        } else {
            with_token(units, token)
        },
    decreases units.len() - at,
{
    let grown = units.insert(at, unit);
    if at == units.len() {
        assert(grown.drop_last() == units);
    } else {
        let init = units.drop_last();
        assert(grown.drop_last() == init.insert(at, unit));
        assert forall|j: int| at <= j < init.len() implies (#[trigger] init[j]).token
            > unit.token by {
            assert(init[j] == units[j]);
        }
        lemma_with_token_insert(init, at, unit, token);
        assert(units.last().token > unit.token);
    }
}

/// The first position whose unit has a token above `token`: where a unit
/// with that token goes.
fn insertion_point(units: &Vec<MigrationUnit>, token: u128) -> (at: usize)
    requires
        ascending(unit_views(units@)),
    ensures
        at <= units.len(),
        forall|j: int| 0 <= j < at ==> (#[trigger] unit_views(units@)[j]).token <= token,
        forall|j: int| at <= j < units.len() ==> (#[trigger] unit_views(units@)[j]).token > token,
{
    let ghost views = unit_views(units@);
    let mut at: usize = units.len();
    while at > 0 && units[at - 1].version_token > token
        invariant
            at <= units.len(),
            views == unit_views(units@),
            forall|j: int| at <= j < units.len() ==> (#[trigger] views[j]).token > token,
        decreases at,
    {
        at -= 1;
    }
    assert forall|j: int| 0 <= j < at implies (#[trigger] views[j]).token <= token by {
        assert(views[j].token <= views[at - 1].token);
    }
    at
}

/// Puts a unit into an ascending list, behind the units with tokens up to
/// its own.
fn place(units: &mut Vec<MigrationUnit>, unit: MigrationUnit) -> (at: Ghost<int>)
    requires
        ascending(unit_views(old(units)@)),
    ensures
        0 <= at@ <= old(units).len(),
        final(units)@ == old(units)@.insert(at@, unit),
        ascending(unit_views(final(units)@)),
        forall|token: u128| #[trigger]
            with_token(unit_views(final(units)@), token) == if token == unit.version_token {
                with_token(unit_views(old(units)@), token).push(unit@)
            } else {
                with_token(unit_views(old(units)@), token)
            },
{
    let ghost before = unit_views(units@);
    let at = insertion_point(units, unit.version_token);
    let ghost added = unit@;
    units.insert(at, unit);
    proof {
        let after = unit_views(units@);
        assert(after =~= before.insert(at as int, added));
        assert forall|token: u128| #[trigger]
            with_token(after, token) == if token == added.token {
                with_token(before, token).push(added)
            } else {
                with_token(before, token)
            } by {
            lemma_with_token_insert(before, at as int, added, token);
        }
        assert forall|p: int, q: int| 0 <= p <= q < after.len() implies after[p].token
            <= after[q].token by {
            let low = if p < at { before[p] } else if p == at { added } else { before[p - 1] };
            let high = if q < at { before[q] } else if q == at { added } else { before[q - 1] };
            assert(after[p] == low && after[q] == high);
        }
    }
    Ghost(at as int)
}

/// Makes the work list of a run: the migration files of the listing whose
/// token lies above the high-water mark, ascending by token.
///
/// A file counts as a migration file when its name ends in `.sql`; other
/// entries are passed over. Every migration file must carry a token, also
/// one that is not pending: the first that does not fails the scan. Files
/// that share a token stay in the order of the listing. An empty work list
/// is no error.
pub fn pending(listing: &Listing, high_water_mark: u128) -> (r: Result<
    Vec<MigrationUnit>,
    ScanError,
>)
    ensures
        match r {
            Ok(units) => {
                &&& is_work_list(unit_views(units@), *listing, high_water_mark)
                &&& forall|k: int|
                    0 <= k < units.len() ==> is_pending(
                        (#[trigger] units@[k]).path@,
                        high_water_mark,
                    ) && units@[k]@ == unit_of(units@[k].path@)
            },
            Err(error) => scan_fails(*listing, error),
        },
{
    let names = match listing {
        Listing::Unreadable => {
            return Err(ScanError::Unreadable);
        },
        Listing::Entries(names) => names,
    };
    let ghost texts = name_texts(names@);
    let mut units: Vec<MigrationUnit> = Vec::new();
    let mut i: usize = 0;
    while i < names.len()
        invariant
            i <= names.len(),
            listing matches Listing::Entries(listed) && listed == names,
            texts == name_texts(names@),
            well_named(texts.take(i as int)),
            is_arrangement_of(unit_views(units@), discovered(texts.take(i as int), high_water_mark)),
            units.len() == discovered(texts.take(i as int), high_water_mark).len(),
            forall|k: int|
                0 <= k < units.len() ==> is_pending((#[trigger] units@[k]).path@, high_water_mark)
                    && units@[k]@ == unit_of(units@[k].path@),
        decreases names.len() - i,
    {
        let ghost seen = texts.take(i as int);
        let ghost next = texts.take(i + 1);
        let ghost found = discovered(seen, high_water_mark);
        let ghost before = unit_views(units@);
        assert(next.drop_last() == seen);
        let chars = chars_of(names[i].as_str());
        if ends_in_sql(&chars) {
            match token_of_chars(&chars) {
                Err(reason) => {
                    return Err(ScanError::BadToken { index: i, reason });
                },
                Ok(token) => {
                    if token > high_water_mark {
                        let unit = MigrationUnit { version_token: token, path: names[i].clone() };
                        let ghost added = unit@;
                        place(&mut units, unit);
                        assert forall|other: u128| #[trigger]
                            with_token(unit_views(units@), other) == with_token(
                                found.push(added),
                                other,
                            ) by {
                            assert(found.push(added).drop_last() == found);
                            assert(with_token(before, other) == with_token(found, other));
                        }
                    }
                },
            }
        }
        assert forall|j: int| 0 <= j < next.len() implies !is_malformed(#[trigger] next[j]) by {
            if j < i {
                assert(next[j] == seen[j]);
            }
        }
        i += 1;
    }
    assert(texts.take(names.len() as int) == texts);
    Ok(units)
}

} // verus!
