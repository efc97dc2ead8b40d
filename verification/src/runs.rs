//! What holds of every run: the high-water mark never falls, a failed run
//! is taken up where it stopped, and an empty work list touches nothing.

use vstd::prelude::*;
use crate::catalog::{
    ascending, discovered, is_arrangement_of, is_pending, is_work_list, name_texts, with_token,
    Listing, UnitView,
};
use crate::executor::{action_at, after, initial, step, Action, Event, Phase, RunState};
use crate::decimal::NumeralError;
use crate::ordering::{
    lemma_ascending_unique, lemma_with_token_hit, lemma_with_token_miss, lemma_with_token_sound,
};
use crate::token::version_token;

verus! {

/// One move keeps a run well-formed, leaves its work list alone, and never
/// lowers the number of applied units nor the high-water mark.
pub proof fn lemma_step_never_lowers_mark(s: RunState, event: Event)
    requires
        s.consistent(),
        s.orderly(),
    ensures
        step(s, event).0.consistent(),
        step(s, event).0.orderly(),
        step(s, event).0.work == s.work,
        step(s, event).0.base == s.base,
        step(s, event).0.applied >= s.applied,
        step(s, event).0.mark() >= s.mark(),
        step(s, event).1 matches Action::SaveCheckpoint(record) ==> record.high_water_mark
            == step(s, event).0.mark(),
{
    if step(s, event).0.applied > s.applied {
        // The unit that was applied lies above the base, and not below the
        // unit in front of it.
        assert(s.work[s.applied as int].token > s.base);
        if s.applied > 0 {
            assert(s.work[s.applied - 1].token <= s.work[s.applied as int].token);
        }
    }
}

/// Whatever happens during a run, its high-water mark never falls below
/// the mark it started from, and it is the token of the last applied unit
/// as soon as one is applied.
pub proof fn lemma_mark_never_falls(s: RunState, events: Seq<Event>)
    requires
        s.consistent(),
        s.orderly(),
    ensures
        after(s, events).consistent(),
        after(s, events).orderly(),
        after(s, events).work == s.work,
        after(s, events).base == s.base,
        after(s, events).applied >= s.applied,
        after(s, events).mark() >= s.mark(),
        after(s, events).applied > 0 ==> after(s, events).mark() == s.work[after(
            s,
            events,
        ).applied - 1].token,
    decreases events.len(),
{
    if events.len() > 0 {
        lemma_mark_never_falls(s, events.drop_last());
        lemma_step_never_lowers_mark(after(s, events.drop_last()), events.last());
    }
}

/// One run of a series: the state it starts in and what happened in it.
pub ghost struct Run {
    pub start: RunState,
    pub events: Seq<Event>,
}

impl Run {
    /// The state in which the run ends.
    pub open spec fn end(self) -> RunState {
        after(self.start, self.events)
    }
}

/// The high-water mark that is stored after a series of runs on a database
/// whose mark was `first` before them.
pub open spec fn mark_after(first: u128, runs: Seq<Run>) -> u128 {
    if runs.len() == 0 {
        first
    } else {
        runs.last().end().mark()
    }
}

/// The runs follow each other on one database: each is a run of a work list
/// as the catalog makes it, starts from the mark that is stored when it
/// begins, and has not begun yet.
pub open spec fn in_series(first: u128, runs: Seq<Run>) -> bool {
    forall|k: int|
        0 <= k < runs.len() ==> {
            &&& (#[trigger] runs[k]).start == initial(
                runs[k].start.work,
                mark_after(first, runs.take(k)),
            )
            &&& runs[k].start.consistent()
            &&& runs[k].start.orderly()
        }
}

/// The last unit that any run of the series applied, if one did.
pub open spec fn last_applied(runs: Seq<Run>) -> Option<UnitView>
    decreases runs.len(),
{
    if runs.len() == 0 {
        None
    } else {
        let end = runs.last().end();
        if end.applied > 0 {
            Some(end.work[end.applied - 1])
        } else {
            last_applied(runs.drop_last())
        }
    }
}

/// Over any series of runs the stored high-water mark never falls, and it
/// is the token of the last unit that was applied in any of them.
pub proof fn lemma_marks_never_fall(first: u128, runs: Seq<Run>, i: int, j: int)
    requires
        in_series(first, runs),
        0 <= i <= j <= runs.len(),
    ensures
        mark_after(first, runs.take(i)) <= mark_after(first, runs.take(j)),
        mark_after(first, runs) == match last_applied(runs) {
            Some(unit) => unit.token,
            None => first,
        },
    decreases runs.len(),
{
    if runs.len() > 0 {
        let earlier = runs.drop_last();
        let run = runs.last();
        assert forall|k: int| 0 <= k < earlier.len() implies {
            &&& (#[trigger] earlier[k]).start == initial(
                earlier[k].start.work,
                mark_after(first, earlier.take(k)),
            )
            &&& earlier[k].start.consistent()
            &&& earlier[k].start.orderly()
        } by {
            assert(earlier[k] == runs[k]);
            assert(earlier.take(k) == runs.take(k));
        }
        // The last run starts from the mark that the earlier runs left, and
        // does not lower it.
        assert(runs.take(runs.len() - 1) == earlier);
        assert(run.start.mark() == mark_after(first, earlier));
        lemma_mark_never_falls(run.start, run.events);
        assert(runs.take(runs.len() as int) == runs);
        if j < runs.len() {
            lemma_marks_never_fall(first, earlier, i, j);
            assert(earlier.take(i) == runs.take(i));
            assert(earlier.take(j) == runs.take(j));
        } else if i < runs.len() {
            lemma_marks_never_fall(first, earlier, i, runs.len() - 1);
            assert(earlier.take(i) == runs.take(i));
            assert(earlier.take(earlier.len() as int) == earlier);
        } else {
            lemma_marks_never_fall(first, earlier, 0, 0);
        }
    } else {
        assert(runs.take(i) == runs);
        assert(runs.take(j) == runs);
    }
}

/// What happens in a run while all goes well: the run begins, the backup
/// succeeds, and `count` units are applied and recorded.
pub open spec fn smooth_events(count: nat) -> Seq<Event>
    decreases count,
{
    if count == 0 {
        seq![Event::Begin, Event::BackupExited(0)]
    } else {
        smooth_events((count - 1) as nat).push(Event::UnitExited(0)).push(Event::CheckpointSaved)
    }
}

/// After `count` units went well, the run has applied just these, and either
/// waits for the next unit or is done.
pub proof fn lemma_smooth_run(work: Seq<UnitView>, base: u128, count: nat)
    requires
        0 < work.len() <= usize::MAX,
        count <= work.len(),
    ensures
        after(initial(work, base), smooth_events(count)) == (RunState {
            work,
            base,
            applied: count,
            phase: if count < work.len() {
                Phase::Applying
            } else {
                Phase::Done
            },
        }),
    decreases count,
{
    let s = initial(work, base);
    if count == 0 {
        lemma_after_one_more(s, Seq::empty(), Event::Begin);
        lemma_after_one_more(s, seq![Event::Begin], Event::BackupExited(0));
        assert(smooth_events(0) =~= seq![Event::Begin].push(Event::BackupExited(0)));
    } else {
        lemma_smooth_run(work, base, (count - 1) as nat);
        let before = smooth_events((count - 1) as nat);
        lemma_after_one_more(s, before, Event::UnitExited(0));
        lemma_after_one_more(s, before.push(Event::UnitExited(0)), Event::CheckpointSaved);
    }
}

/// The state after one more event is one move from the state before it.
pub proof fn lemma_after_one_more(s: RunState, events: Seq<Event>, event: Event)
    ensures
        after(s, events.push(event)) == step(after(s, events), event).0,
{
    assert(events.push(event).drop_last() == events);
}

/// A run in which the unit at place `failed` fails after the units in front
/// of it went well stops there: its mark is the token of the unit in front,
/// or the mark it started from. Run again on the same listing from that
/// mark, the work list is the failed unit and what follows it, and nothing
/// that was applied.
///
/// The token of the failed unit must differ from that of the unit in front
/// of it: two files with one token are told apart by no mark.
pub proof fn lemma_failed_run_resumes(
    listing: Listing,
    base: u128,
    work: Seq<UnitView>,
    failed: nat,
    code: i32,
    again: Seq<UnitView>,
)
    requires
        is_work_list(work, listing, base),
        work.len() <= usize::MAX,
        failed < work.len(),
        code != 0,
        failed > 0 ==> work[failed - 1].token < work[failed as int].token,
        is_work_list(
            again,
            listing,
            after(initial(work, base), smooth_events(failed).push(Event::UnitExited(code))).mark(),
        ),
    ensures
        ({
            let end = after(initial(work, base), smooth_events(failed).push(Event::UnitExited(code)));
            &&& end.phase == Phase::UnitFailed
            &&& end.applied == failed
            &&& end.mark() == if failed == 0 {
                base
            } else {
                work[failed - 1].token
            }
        }),
        again == work.skip(failed as int),
{
    // The run stops at the failed unit.
    let events = smooth_events(failed).push(Event::UnitExited(code));
    let end = after(initial(work, base), events);
    lemma_smooth_run(work, base, failed);
    lemma_after_one_more(initial(work, base), smooth_events(failed), Event::UnitExited(code));
    // What is left of the work list is ascending, and holds for each token
    // what the listing gives from the new mark.
    let names = name_texts(listing->Entries_0@);
    let found = discovered(names, base);
    let rest = work.skip(failed as int);
    let mark = end.mark();
    assert(ascending(rest)) by {
        assert forall|i: int, j: int| 0 <= i <= j < rest.len() implies rest[i].token
            <= rest[j].token by {
            assert(work[failed + i].token <= work[failed + j].token);
        }
    }
    assert forall|token: u128| #[trigger]
        with_token(again, token) == with_token(rest, token) by {
        assert(with_token(again, token) == with_token(discovered(names, mark), token));
        assert(with_token(work, token) == with_token(found, token));
        if failed > 0 {
            lemma_unit_is_pending(names, base, work, failed - 1);
        }
        lemma_found_above(names, base, mark, token);
        lemma_skip_with_token(work, failed as int, token);
        if failed == 0 {
            assert(rest == work);
        }
    }
    lemma_ascending_unique(again, rest);
}

/// Every unit of a work list has a token above the mark it was made for.
pub proof fn lemma_unit_is_pending(
    names: Seq<Seq<char>>,
    high_water_mark: u128,
    work: Seq<UnitView>,
    i: int,
)
    requires
        is_arrangement_of(work, discovered(names, high_water_mark)),
        0 <= i < work.len(),
    ensures
        work[i].token > high_water_mark,
{
    // The unit is among the units found for its token, so it was found.
    let found = discovered(names, high_water_mark);
    let token = work[i].token;
    lemma_with_token_hit(work, i);
    assert(with_token(work, token) == with_token(found, token));
    lemma_with_token_sound(found, token, 0);
    let k = choose|k: int| 0 <= k < found.len() && found[k] == with_token(found, token)[0];
    lemma_found_is_pending(names, high_water_mark, k);
}

/// Every unit that was found stands for a pending name.
pub proof fn lemma_found_is_pending(names: Seq<Seq<char>>, high_water_mark: u128, k: int)
    requires
        0 <= k < discovered(names, high_water_mark).len(),
    ensures
        discovered(names, high_water_mark)[k].token > high_water_mark,
        is_pending(discovered(names, high_water_mark)[k].path, high_water_mark),
        version_token(discovered(names, high_water_mark)[k].path) == Ok::<u128, NumeralError>(
            discovered(names, high_water_mark)[k].token,
        ),
    decreases names.len(),
{
    let found = discovered(names, high_water_mark);
    if !(is_pending(names.last(), high_water_mark) && k == found.len() - 1) {
        lemma_found_is_pending(names.drop_last(), high_water_mark, k);
    }
}

/// Raising the mark drops the units at or below the new mark from what is
/// found, and keeps the others as they were.
pub proof fn lemma_found_above(names: Seq<Seq<char>>, low: u128, high: u128, token: u128)
    requires
        low <= high,
    ensures
        with_token(discovered(names, high), token) == if token > high {
            with_token(discovered(names, low), token)
        } else {
            Seq::<UnitView>::empty()
        },
    decreases names.len(),
{
    if names.len() > 0 {
        let init = names.drop_last();
        lemma_found_above(init, low, high, token);
        if is_pending(names.last(), high) {
            assert(discovered(names, high).drop_last() == discovered(init, high));
        }
        if is_pending(names.last(), low) {
            assert(discovered(names, low).drop_last() == discovered(init, low));
        }
    }
}

/// What follows a place of an ascending sequence at which the token rises
/// holds the units with greater tokens, and these only.
pub proof fn lemma_skip_with_token(work: Seq<UnitView>, at: int, token: u128)
    requires
        ascending(work),
        0 <= at <= work.len(),
        0 < at < work.len() ==> work[at - 1].token < work[at].token,
    ensures
        at > 0 ==> with_token(work.skip(at), token) == if token > work[at - 1].token {
            with_token(work, token)
        } else {
            Seq::<UnitView>::empty()
        },
    decreases work.len(),
{
    if at > 0 {
        let rest = work.skip(at);
        if at == work.len() {
            // Nothing follows, and nothing has a token above the last one.
            assert(rest =~= Seq::<UnitView>::empty());
            if token > work[at - 1].token {
                assert forall|i: int| 0 <= i < work.len() implies (#[trigger] work[i]).token
                    != token by {
                    assert(work[i].token <= work[at - 1].token);
                }
                lemma_with_token_miss(work, token);
            }
        } else {
            // The last unit follows the place, and its token lies above the
            // token in front of the place.
            let init = work.drop_last();
            assert(ascending(init)) by {
                assert forall|i: int, j: int| 0 <= i <= j < init.len() implies init[i].token
                    <= init[j].token by {
                    assert(work[i].token <= work[j].token);
                }
            }
            lemma_skip_with_token(init, at, token);
            assert(rest.drop_last() == init.skip(at));
            assert(rest.last() == work.last());
            assert(work[at].token <= work.last().token);
        }
    }
}

/// What happens after a first series of events is what happens to the state
/// that the first series leaves.
pub proof fn lemma_after_both(s: RunState, first: Seq<Event>, second: Seq<Event>)
    ensures
        after(s, first + second) == after(after(s, first), second),
    decreases second.len(),
{
    if second.len() == 0 {
        assert(first + second == first);
    } else {
        lemma_after_both(s, first, second.drop_last());
        assert((first + second).drop_last() == first + second.drop_last());
    }
}

/// A run that has left the idle phase does not come back to it.
pub proof fn lemma_never_idle_again(s: RunState, events: Seq<Event>)
    requires
        !(s.phase is Idle),
    ensures
        !(after(s, events).phase is Idle),
    decreases events.len(),
{
    if events.len() > 0 {
        lemma_never_idle_again(s, events.drop_last());
    }
}

/// A run asks for the backup once at most.
pub proof fn lemma_backup_runs_once(s: RunState, events: Seq<Event>, i: int, j: int)
    requires
        0 <= i < j < events.len(),
        action_at(s, events, i) is RunBackup,
    ensures
        !(action_at(s, events, j) is RunBackup),
{
    let first = events.take(i + 1);
    let second = events.subrange(i + 1, j);
    assert(first.drop_last() == events.take(i));
    assert(first + second == events.take(j));
    lemma_after_both(s, first, second);
    lemma_never_idle_again(after(s, first), second);
}

/// A well-formed run stays well-formed.
pub proof fn lemma_stays_consistent(s: RunState, events: Seq<Event>)
    requires
        s.consistent(),
    ensures
        after(s, events).consistent(),
    decreases events.len(),
{
    if events.len() > 0 {
        lemma_stays_consistent(s, events.drop_last());
    }
}

/// The unit at place `place` is being applied, or the run is past it.
pub open spec fn at_or_past(s: RunState, place: nat) -> bool {
    ||| s.phase is Applying && s.applied == place
    ||| s.applied > place
    ||| s.ended()
}

/// A run that is at a unit or past it stays so.
pub proof fn lemma_stays_at_or_past(s: RunState, events: Seq<Event>, place: nat)
    requires
        s.consistent(),
        at_or_past(s, place),
    ensures
        after(s, events).consistent(),
        at_or_past(after(s, events), place),
    decreases events.len(),
{
    if events.len() > 0 {
        lemma_stays_at_or_past(s, events.drop_last(), place);
    }
}

/// A run asks for each unit once at most, and for the units in the order
/// of the work list: of two requests to apply a unit, the later one names a
/// later place.
pub proof fn lemma_units_apply_once(s: RunState, events: Seq<Event>, i: int, j: int)
    requires
        s.consistent(),
        0 <= i < j < events.len(),
        action_at(s, events, i) is ApplyUnit,
        action_at(s, events, j) is ApplyUnit,
    ensures
        action_at(s, events, i)->ApplyUnit_0 < action_at(s, events, j)->ApplyUnit_0,
{
    let first = events.take(i + 1);
    let second = events.subrange(i + 1, j);
    let place = action_at(s, events, i)->ApplyUnit_0;
    assert(first.drop_last() == events.take(i));
    assert(first + second == events.take(j));
    lemma_stays_consistent(s, events.take(i));
    lemma_after_both(s, first, second);
    lemma_stays_at_or_past(after(s, first), second, place as nat);
}

/// A unit is applied only after the unit in front of it is recorded: the
/// request to apply a unit that is not the first answers the news that the
/// record of the unit in front of it is saved, and the mark is that unit's
/// token by then.
pub proof fn lemma_apply_follows_checkpoint(s: RunState, event: Event)
    requires
        s.consistent(),
        step(s, event).1 matches Action::ApplyUnit(place) && place > 0,
    ensures
        s.phase is Checkpointing,
        event is CheckpointSaved,
        s.mark() == s.work[step(s, event).1->ApplyUnit_0 - 1].token,
{
}

/// A unit is applied only after the backup succeeded: the request to apply
/// the first unit answers the news that the backup tool ended with 0.
pub proof fn lemma_first_apply_follows_backup(s: RunState, event: Event)
    requires
        s.consistent(),
        step(s, event).1 == Action::ApplyUnit(0),
    ensures
        s.phase is BackingUp,
        event == Event::BackupExited(0),
{
}

/// A run of an empty work list ends at once: it asks for no backup, applies
/// nothing, saves nothing, and leaves the high-water mark where it was.
pub proof fn lemma_nothing_pending(base: u128, events: Seq<Event>, i: int)
    requires
        0 <= i < events.len(),
    ensures
        step(initial(Seq::empty(), base), Event::Begin) == (
            RunState { phase: Phase::Done, ..initial(Seq::empty(), base) },
            Action::Stop,
        ),
        action_at(initial(Seq::empty(), base), events, i) is Stop || action_at(
            initial(Seq::empty(), base),
            events,
            i,
        ) is Ignore,
        after(initial(Seq::empty(), base), events).mark() == base,
        after(initial(Seq::empty(), base), events).applied == 0,
{
    let s = initial(Seq::<UnitView>::empty(), base);
    lemma_idle_or_done(base, events.take(i));
    lemma_idle_or_done(base, events);
}

/// A run of an empty work list is idle or done, whatever it is told.
pub proof fn lemma_idle_or_done(base: u128, events: Seq<Event>)
    ensures
        ({
            let end = after(initial(Seq::empty(), base), events);
            &&& end.work == Seq::<UnitView>::empty()
            &&& end.base == base
            &&& end.applied == 0
            &&& (end.phase is Idle || end.phase is Done)
        }),
    decreases events.len(),
{
    if events.len() > 0 {
        lemma_idle_or_done(base, events.drop_last());
    }
}

} // verus!
