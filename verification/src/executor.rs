//! The run of a work list: one backup, then the units one by one, each
//! recorded as soon as it is applied.
//!
//! The executor starts no tool and writes no file. It is told what happened
//! (an `Event`) and answers what to do next (an `Action`); the caller carries
//! the action out and reports back.

use vstd::prelude::*;
use crate::catalog::{ascending, unit_views, MigrationUnit, UnitView};
use crate::error::MigrationError;
use crate::progress::ProgressRecord;

verus! {

/// Where a run stands.
#[derive(Clone, Copy, Debug, PartialEq, Eq, Structural)]
pub enum Phase {
    /// Nothing was done yet.
    Idle,
    /// The backup tool is running.
    BackingUp,
    /// The SQL tool is running on the next unit.
    Applying,
    /// The progress record of the unit just applied is being saved.
    Checkpointing,
    /// Every unit of the work list is applied and recorded.
    Done,
    /// The backup failed; nothing was applied.
    BackupFailed,
    /// The next unit failed; the units in front of it are recorded.
    UnitFailed,
}

/// What the caller reports to the executor.
#[derive(Clone, Copy, Debug, PartialEq, Eq, Structural)]
pub enum Event {
    /// The run is to begin.
    Begin,
    /// The backup tool ended with this exit code.
    BackupExited(i32),
    /// The SQL tool ended with this exit code.
    UnitExited(i32),
    /// The progress record was saved.
    CheckpointSaved,
}

/// What the executor asks the caller to do.
#[derive(Clone, Copy, Debug, PartialEq, Eq, Structural)]
pub enum Action {
    /// Back the database up, then report `BackupExited`.
    RunBackup,
    /// Apply the unit at this place of the work list, then report
    /// `UnitExited`.
    ApplyUnit(usize),
    /// Save this progress record, then report `CheckpointSaved`.
    SaveCheckpoint(ProgressRecord),
    /// The run is over.
    Stop,
    /// The event is not the one the run waits for; nothing changed.
    Ignore,
}

/// A run as a mathematical value.
pub ghost struct RunState {
    /// The work list.
    pub work: Seq<UnitView>,
    /// The high-water mark at the start of the run.
    pub base: u128,
    /// How many units of the work list are applied.
    pub applied: nat,
    pub phase: Phase,
}

impl RunState {
    /// The number of applied units fits the phase.
    pub open spec fn consistent(self) -> bool {
        &&& self.work.len() <= usize::MAX
        &&& match self.phase {
            Phase::Idle => self.applied == 0,
            Phase::BackingUp => self.applied == 0 && self.work.len() > 0,
            Phase::Applying => self.applied < self.work.len(),
            Phase::Checkpointing => 0 < self.applied <= self.work.len(),
            Phase::Done => self.applied == self.work.len(),
            Phase::BackupFailed => self.applied == 0 && self.work.len() > 0,
            Phase::UnitFailed => self.applied < self.work.len(),
        }
    }

    /// The work list is one that the catalog makes: ascending, with every
    /// token above the mark the run starts from.
    pub open spec fn orderly(self) -> bool {
        &&& ascending(self.work)
        &&& forall|i: int| 0 <= i < self.work.len() ==> (#[trigger] self.work[i]).token > self.base
    }

    /// The high-water mark that the run has reached: the token of the last
    /// applied unit, or the mark it started from.
    pub open spec fn mark(self) -> u128 {
        if 0 < self.applied <= self.work.len() {
            self.work[self.applied - 1].token
        } else {
            self.base
        }
    }

    /// The run is over.
    pub open spec fn ended(self) -> bool {
        self.phase is Done || self.phase is BackupFailed || self.phase is UnitFailed
    }
}

/// The state in which a run of `work` starts.
pub open spec fn initial(work: Seq<UnitView>, base: u128) -> RunState {
    RunState { work, base, applied: 0, phase: Phase::Idle }
}

/// One move of a run: the state after `event` and the action it calls for.
pub open spec fn step(s: RunState, event: Event) -> (RunState, Action) {
    match (s.phase, event) {
        (Phase::Idle, Event::Begin) => if s.work.len() == 0 {
            (RunState { phase: Phase::Done, ..s }, Action::Stop)
        } else {
            (RunState { phase: Phase::BackingUp, ..s }, Action::RunBackup)
        },
        (Phase::BackingUp, Event::BackupExited(code)) => if code == 0 {
            (RunState { phase: Phase::Applying, ..s }, Action::ApplyUnit(0))
        } else {
            (RunState { phase: Phase::BackupFailed, ..s }, Action::Stop)
        },
        (Phase::Applying, Event::UnitExited(code)) => if code == 0 {
            (
                RunState { phase: Phase::Checkpointing, applied: s.applied + 1, ..s },
                Action::SaveCheckpoint(
                    ProgressRecord { high_water_mark: s.work[s.applied as int].token },
                ),
            )
        } else {
            (RunState { phase: Phase::UnitFailed, ..s }, Action::Stop)
        },
        (Phase::Checkpointing, Event::CheckpointSaved) => if s.applied >= s.work.len() {
            (RunState { phase: Phase::Done, ..s }, Action::Stop)
        } else {
            (RunState { phase: Phase::Applying, ..s }, Action::ApplyUnit(s.applied as usize))
        },
        (Phase::Done, _) | (Phase::BackupFailed, _) | (Phase::UnitFailed, _) => (s, Action::Stop),
        _ => (s, Action::Ignore),
    }
}

/// The state of a run after a series of events.
pub open spec fn after(s: RunState, events: Seq<Event>) -> RunState
    decreases events.len(),
{
    if events.len() == 0 {
        s
    } else {
        step(after(s, events.drop_last()), events.last()).0
    }
}

/// The action that the event at place `i` of a series calls for.
pub open spec fn action_at(s: RunState, events: Seq<Event>, i: int) -> Action
    recommends
        0 <= i < events.len(),
{
    step(after(s, events.take(i)), events[i]).1
}

/// How far a run has come.
#[derive(Clone, Copy)]
struct Stage {
    phase: Phase,
    applied: usize,
}

/// A run of a work list.
pub struct Executor {
    work: Vec<MigrationUnit>,
    base: u128,
    stage: Stage,
}

impl View for Executor {
    type V = RunState;

    closed spec fn view(&self) -> RunState {
        RunState {
            work: unit_views(self.work@),
            base: self.base,
            applied: self.stage.applied as nat,
            phase: self.stage.phase,
        }
    }
}

impl Executor {
    #[verifier::type_invariant]
    spec fn well_formed(self) -> bool {
        self@.consistent()
    }

    /// A run of `work` that has not begun, for a database whose high-water
    /// mark is `high_water_mark`.
    pub fn new(work: Vec<MigrationUnit>, high_water_mark: u128) -> (run: Executor)
        ensures
            run@ == initial(unit_views(work@), high_water_mark),
            run@.consistent(),
    {
        // A vector is no longer than `usize::MAX`, which its length says.
        let _ = work.len();
        Executor { work, base: high_water_mark, stage: Stage { phase: Phase::Idle, applied: 0 } }
    }

    /// Takes note of `event` and says what to do next.
    pub fn step(&mut self, event: Event) -> (action: Action)
        ensures
            (final(self)@, action) == step(old(self)@, event),
            final(self)@.consistent(),
    {
        proof {
            use_type_invariant(&*self);
        }
        let applied = self.stage.applied;
        match (self.stage.phase, event) {
            (Phase::Idle, Event::Begin) => {
                if self.work.len() == 0 {
                    self.stage = Stage { phase: Phase::Done, applied };
                    Action::Stop
                } else {
                    self.stage = Stage { phase: Phase::BackingUp, applied };
                    Action::RunBackup
                }
            },
            (Phase::BackingUp, Event::BackupExited(code)) => {
                if code == 0 {
                    self.stage = Stage { phase: Phase::Applying, applied };
                    Action::ApplyUnit(0)
                } else {
                    self.stage = Stage { phase: Phase::BackupFailed, applied };
                    Action::Stop
                }
            },
            (Phase::Applying, Event::UnitExited(code)) => {
                if code == 0 {
                    let token = self.work[applied].version_token;
                    self.stage = Stage { phase: Phase::Checkpointing, applied: applied + 1 };
                    Action::SaveCheckpoint(ProgressRecord { high_water_mark: token })
                } else {
                    self.stage = Stage { phase: Phase::UnitFailed, applied };
                    Action::Stop
                }
            },
            (Phase::Checkpointing, Event::CheckpointSaved) => {
                if applied >= self.work.len() {
                    self.stage = Stage { phase: Phase::Done, applied };
                    Action::Stop
                } else {
                    self.stage = Stage { phase: Phase::Applying, applied };
                    Action::ApplyUnit(applied)
                }
            },
            (Phase::Done, _) | (Phase::BackupFailed, _) | (Phase::UnitFailed, _) => Action::Stop,
            _ => Action::Ignore,
        }
    }

    /// Where the run stands.
    pub fn phase(&self) -> (phase: Phase)
        ensures
            phase == self@.phase,
    {
        self.stage.phase
    }

    /// How many units are applied.
    pub fn applied(&self) -> (count: usize)
        ensures
            count == self@.applied,
    {
        self.stage.applied
    }

    /// How many units the work list holds.
    pub fn len(&self) -> (count: usize)
        ensures
            count == self@.work.len(),
    {
        self.work.len()
    }

    /// The high-water mark that the run has reached.
    pub fn high_water_mark(&self) -> (mark: u128)
        ensures
            mark == self@.mark(),
    {
        proof {
            use_type_invariant(self);
        }
        if self.stage.applied == 0 {
            self.base
        } else {
            self.work[self.stage.applied - 1].version_token
        }
    }

    /// The unit at place `i` of the work list, if there is one.
    pub fn unit(&self, i: usize) -> (unit: Option<&MigrationUnit>)
        ensures
            unit is Some <==> i < self@.work.len(),
            unit matches Some(u) ==> u@ == self@.work[i as int],
    {
        if i < self.work.len() {
            Some(&self.work[i])
        } else {
            None
        }
    }

    /// How the run ended: the number of applied units, or the failure.
    /// `None` while the run is not over.
    pub fn outcome(&self) -> (result: Option<Result<usize, MigrationError>>)
        ensures
            match self@.phase {
                Phase::Done => result == Some(
                    Ok::<usize, MigrationError>(self@.work.len() as usize),
                ),
                Phase::BackupFailed => result matches Some(Err(MigrationError::BackupFailed)),
                Phase::UnitFailed => result matches Some(Err(MigrationError::UnitApplyFailed(unit)))
                    && unit@ == self@.work[self@.applied as int],
                _ => result is None,
            },
    {
        proof {
            use_type_invariant(self);
        }
        match self.stage.phase {
            Phase::Done => Some(Ok(self.stage.applied)),
            Phase::BackupFailed => Some(Err(MigrationError::BackupFailed)),
            Phase::UnitFailed => {
                let failed = &self.work[self.stage.applied];
                Some(
                    Err(
                        MigrationError::UnitApplyFailed(
                            MigrationUnit {
                                version_token: failed.version_token,
                                path: failed.path.clone(),
                            },
                        ),
                    ),
                )
            },
            _ => None,
        }
    }
}

} // verus!
