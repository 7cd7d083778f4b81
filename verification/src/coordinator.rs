//! The coordinator of a run: it decides, from what has happened so far,
//! what is to be done next. The caller does the work and reports back.
//!
//! The outputs are created first, then every worker runs to its end, then
//! the artifacts are consolidated and at last discarded. Consolidation
//! starts only once every worker has reported and none has failed; any
//! failure ends the run.

use vstd::prelude::*;

verus! {

/// The stage of a run at which a failure can happen.
#[derive(Clone, Copy, Debug, PartialEq, Eq, Structural)]
pub enum Stage {
    /// The output file, the definition file or a worker's sink could not be
    /// created.
    Creation,
    /// A worker could not write to its sink.
    Generation,
    /// An artifact could not be read, or the output could not be written.
    Consolidation,
}

/// Where a run stands.
#[derive(Clone, Copy, Debug, PartialEq, Eq, Structural)]
pub enum Phase {
    /// The outputs are being created.
    Creating,
    /// The workers are running.
    Generating,
    /// The artifacts are being consolidated.
    Consolidating,
    /// The run has ended well.
    Done,
    /// The run has ended with a failure at the given stage.
    Failed(Stage),
}

/// What the caller reports.
#[derive(Clone, Copy, Debug, PartialEq, Eq, Structural)]
pub enum Event {
    /// The output file holds its header line and the definition file is
    /// written.
    OutputsCreated,
    /// An output or a worker's sink could not be created.
    CreationFailed,
    /// A worker has ended well.
    WorkerCompleted,
    /// A worker has ended with a failure.
    WorkerFailed,
    /// All artifacts have been appended to the output.
    Consolidated,
    /// Consolidation has failed.
    ConsolidationFailed,
}

/// What the caller is to do next.
#[derive(Clone, Copy, Debug, PartialEq, Eq, Structural)]
pub enum Action {
    /// Start every worker on its range.
    StartWorkers,
    /// Wait for the next worker to end.
    AwaitWorkers,
    /// Append the artifacts to the output, in worker order.
    Consolidate,
    /// Discard the artifacts; the run has ended well.
    Discard,
    /// Give up; the run has failed at the given stage.
    Abort(Stage),
    /// Nothing: the report does not belong to this phase of the run.
    Ignore,
}

/// What a coordinator knows.
#[derive(Clone, Copy, Debug, PartialEq, Eq, Structural)]
pub struct Progress {
    /// The number of workers of the run.
    pub workers: u32,
    /// The number of workers that have ended.
    pub ended: u32,
    /// Whether a worker that has ended has failed.
    pub failed: bool,
    /// Where the run stands.
    pub phase: Phase,
}

impl Progress {
    /// Whether the progress is one that a run can reach: no more workers
    /// have ended than there are; none has ended before the workers were
    /// started; and consolidation has started, or the run has ended well,
    /// only with every worker ended and none failed.
    pub open spec fn reachable(self) -> bool {
        &&& self.ended <= self.workers
        &&& self.phase == Phase::Creating ==> self.ended == 0 && !self.failed
        &&& self.phase == Phase::Generating ==> self.ended < self.workers
        &&& self.phase == Phase::Consolidating || self.phase == Phase::Done ==> self.ended
            == self.workers && !self.failed
    }

    /// The progress at the start of a run of `workers` workers.
    pub open spec fn start(workers: u32) -> Progress {
        Progress { workers, ended: 0, failed: false, phase: Phase::Creating }
    }

    /// The progress once the last worker has ended: consolidation where
    /// none has failed, else failure at generation.
    pub open spec fn all_ended(self, failed: bool) -> (Progress, Action) {
        if failed {
            (
                Progress {
                    ended: self.workers,
                    failed: true,
                    phase: Phase::Failed(Stage::Generation),
                    ..self
                },
                Action::Abort(Stage::Generation),
            )
        } else {
            (
                Progress { ended: self.workers, failed: false, phase: Phase::Consolidating, ..self },
                Action::Consolidate,
            )
        }
    }

    /// The progress after `event`, and what is to be done next.
    pub open spec fn after(self, event: Event) -> (Progress, Action) {
        match (self.phase, event) {
            (Phase::Creating, Event::OutputsCreated) => {
                if self.workers == 0 {
                    self.all_ended(false)
                } else {
                    (Progress { phase: Phase::Generating, ..self }, Action::StartWorkers)
                }
            },
            (Phase::Creating, Event::CreationFailed) | (Phase::Generating, Event::CreationFailed) => {
                (
                    Progress { phase: Phase::Failed(Stage::Creation), ..self },
                    Action::Abort(Stage::Creation),
                )
            },
            (Phase::Generating, Event::WorkerCompleted) | (Phase::Generating, Event::WorkerFailed) => {
                let failed = self.failed || event == Event::WorkerFailed;
                if self.ended + 1 < self.workers {
                    (
                        Progress { ended: (self.ended + 1) as u32, failed, ..self },
                        Action::AwaitWorkers,
                    )
                } else {
                    self.all_ended(failed)
                }
            },
            (Phase::Consolidating, Event::Consolidated) => {
                (Progress { phase: Phase::Done, ..self }, Action::Discard)
            },
            (Phase::Consolidating, Event::ConsolidationFailed) => {
                (
                    Progress { phase: Phase::Failed(Stage::Consolidation), ..self },
                    Action::Abort(Stage::Consolidation),
                )
            },
            _ => (self, Action::Ignore),
        }
    }

    /// The progress after all of `events`, in order.
    pub open spec fn after_all(self, events: Seq<Event>) -> Progress
        decreases events.len(),
    {
        if events.len() == 0 {
            self
        } else {
            self.after_all(events.drop_last()).after(events.last()).0
        }
    }
}

/// A step of a run leads from reachable progress to reachable progress,
/// and never changes the number of workers.
pub proof fn lemma_step_stays_reachable(progress: Progress, event: Event)
    requires
        progress.reachable(),
    ensures
        progress.after(event).0.reachable(),
        progress.after(event).0.workers == progress.workers,
{
}

/// The barrier: consolidation is asked for only when every worker has
/// ended and none has failed.
pub proof fn lemma_consolidation_waits_for_all_workers(progress: Progress, event: Event)
    requires
        progress.reachable(),
        progress.after(event).1 == Action::Consolidate,
    ensures
        progress.after(event).0.ended == progress.workers,
        !progress.after(event).0.failed,
        event != Event::WorkerFailed,
{
}

/// A failure is final: a run that has failed ignores whatever is reported
/// to it, and so does a run that is done.
pub proof fn lemma_end_is_final(progress: Progress, event: Event)
    requires
        progress.phase is Failed || progress.phase == Phase::Done,
    ensures
        progress.after(event) == (progress, Action::Ignore),
{
}

/// A worker's failure fails the run, though only once every worker has
/// ended: after a failure is reported, no report leads to consolidation.
pub proof fn lemma_failed_worker_fails_the_run(progress: Progress, event: Event)
    requires
        progress.reachable(),
        progress.failed,
    ensures
        progress.after(event).1 != Action::Consolidate,
        progress.after(event).1 != Action::Discard,
        progress.after(event).0.failed,
{
}

/// Whatever is reported in whatever order, a run that is done has seen every
/// worker end without failure.
pub proof fn lemma_done_means_all_workers_ended(workers: u32, events: Seq<Event>)
    ensures
        Progress::start(workers).after_all(events).reachable(),
        Progress::start(workers).after_all(events).workers == workers,
        Progress::start(workers).after_all(events).phase == Phase::Done ==> Progress::start(
            workers,
        ).after_all(events).ended == workers && !Progress::start(workers).after_all(events).failed,
    decreases events.len(),
{
    if events.len() > 0 {
        lemma_done_means_all_workers_ended(workers, events.drop_last());
        lemma_step_stays_reachable(
            Progress::start(workers).after_all(events.drop_last()),
            events.last(),
        );
    }
}

impl Stage {
    /// The name of the stage in a diagnostic.
    pub open spec fn label(self) -> Seq<char> {
        match self {
            Stage::Creation => "creation"@,
            Stage::Generation => "generation"@,
            Stage::Consolidation => "consolidation"@,
        }
    }

    /// The name of the stage in a diagnostic.
    pub fn name(self) -> (name: &'static str)
        ensures
            name@ == self.label(),
    {
        match self {
            Stage::Creation => "creation",
            Stage::Generation => "generation",
            Stage::Consolidation => "consolidation",
        }
    }
}

/// The coordinator of one run. Its view is the progress of the run.
#[derive(Debug)]
pub struct Coordinator {
    progress: Progress,
}

impl View for Coordinator {
    type V = Progress;

    closed spec fn view(&self) -> Progress {
        self.progress
    }
}

impl Coordinator {
    #[verifier::type_invariant]
    spec fn on_track(&self) -> bool {
        self.progress.reachable()
    }

    /// The coordinator of a run of `workers` workers, at its start.
    pub fn new(workers: u32) -> (coordinator: Coordinator)
        ensures
            coordinator@ == Progress::start(workers),
    {
        Coordinator {
            progress: Progress { workers, ended: 0, failed: false, phase: Phase::Creating },
        }
    }

    /// Where the run stands.
    pub fn phase(&self) -> (phase: Phase)
        ensures
            phase == self@.phase,
    {
        self.progress.phase
    }

    /// What the coordinator knows. It is always progress that a run can
    /// reach.
    pub fn progress(&self) -> (progress: Progress)
        ensures
            progress == self@,
            progress.reachable(),
    {
        proof {
            use_type_invariant(self);
        }
        self.progress
    }

    /// Takes in what the caller reports and says what is to be done next.
    pub fn advance(&mut self, event: Event) -> (action: Action)
        ensures
            (final(self)@, action) == old(self)@.after(event),
    {
        proof {
            use_type_invariant(&*self);
        }
        let now = self.progress;
        let (next, action) = match (now.phase, event) {
            (Phase::Creating, Event::OutputsCreated) => {
                if now.workers == 0 {
                    (Progress { phase: Phase::Consolidating, ..now }, Action::Consolidate)
                } else {
                    (Progress { phase: Phase::Generating, ..now }, Action::StartWorkers)
                }
            },
            (Phase::Creating, Event::CreationFailed) | (Phase::Generating, Event::CreationFailed) => {
                (
                    Progress { phase: Phase::Failed(Stage::Creation), ..now },
                    Action::Abort(Stage::Creation),
                )
            },
            (Phase::Generating, Event::WorkerCompleted) | (Phase::Generating, Event::WorkerFailed) => {
                let failed = now.failed || event == Event::WorkerFailed;
                if now.ended + 1 < now.workers {
                    (Progress { ended: now.ended + 1, failed, ..now }, Action::AwaitWorkers)
                } else if failed {
                    (
                        Progress {
                            ended: now.workers,
                            failed: true,
                            phase: Phase::Failed(Stage::Generation),
                            ..now
                        },
                        Action::Abort(Stage::Generation),
                    )
                } else {
                    (
                        Progress {
                            ended: now.workers,
                            failed: false,
                            phase: Phase::Consolidating,
                            ..now
                        },
                        Action::Consolidate,
                    )
                }
            },
            (Phase::Consolidating, Event::Consolidated) => {
                (Progress { phase: Phase::Done, ..now }, Action::Discard)
            },
            (Phase::Consolidating, Event::ConsolidationFailed) => {
                (
                    Progress { phase: Phase::Failed(Stage::Consolidation), ..now },
                    Action::Abort(Stage::Consolidation),
                )
            },
            _ => (now, Action::Ignore),
        };
        self.progress = next;
        action
    }
}

} // verus!
