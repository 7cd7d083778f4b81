use csvgen::coordinator::{Action, Coordinator, Event, Phase, Progress, Stage};

fn started(workers: u32) -> Coordinator {
    let mut coordinator = Coordinator::new(workers);
    assert_eq!(coordinator.advance(Event::OutputsCreated), Action::StartWorkers);
    coordinator
}

#[test]
fn run_starts_by_creating_outputs() {
    let coordinator = Coordinator::new(4);
    assert_eq!(coordinator.phase(), Phase::Creating);
    assert_eq!(
        coordinator.progress(),
        Progress { workers: 4, ended: 0, failed: false, phase: Phase::Creating }
    );
}

#[test]
fn created_outputs_start_the_workers() {
    let coordinator = started(4);
    assert_eq!(coordinator.phase(), Phase::Generating);
}

#[test]
fn failed_creation_aborts() {
    let mut coordinator = Coordinator::new(4);
    assert_eq!(coordinator.advance(Event::CreationFailed), Action::Abort(Stage::Creation));
    assert_eq!(coordinator.phase(), Phase::Failed(Stage::Creation));
}

#[test]
fn failed_sink_creation_aborts_while_generating() {
    let mut coordinator = started(3);
    assert_eq!(coordinator.advance(Event::WorkerCompleted), Action::AwaitWorkers);
    assert_eq!(coordinator.advance(Event::CreationFailed), Action::Abort(Stage::Creation));
    assert_eq!(coordinator.phase(), Phase::Failed(Stage::Creation));
}

#[test]
fn consolidation_waits_for_the_last_worker() {
    let mut coordinator = started(4);
    assert_eq!(coordinator.advance(Event::WorkerCompleted), Action::AwaitWorkers);
    assert_eq!(coordinator.advance(Event::WorkerCompleted), Action::AwaitWorkers);
    assert_eq!(coordinator.advance(Event::WorkerCompleted), Action::AwaitWorkers);
    assert_eq!(coordinator.phase(), Phase::Generating);
    assert_eq!(coordinator.progress().ended, 3);
    assert_eq!(coordinator.advance(Event::WorkerCompleted), Action::Consolidate);
    assert_eq!(coordinator.phase(), Phase::Consolidating);
    assert_eq!(coordinator.progress().ended, 4);
}

#[test]
fn single_worker_run() {
    let mut coordinator = started(1);
    assert_eq!(coordinator.advance(Event::WorkerCompleted), Action::Consolidate);
    assert_eq!(coordinator.advance(Event::Consolidated), Action::Discard);
    assert_eq!(coordinator.phase(), Phase::Done);
}

#[test]
fn failed_worker_aborts_once_all_have_ended() {
    let mut coordinator = started(3);
    assert_eq!(coordinator.advance(Event::WorkerFailed), Action::AwaitWorkers);
    assert_eq!(coordinator.phase(), Phase::Generating);
    assert_eq!(coordinator.advance(Event::WorkerCompleted), Action::AwaitWorkers);
    assert_eq!(coordinator.advance(Event::WorkerCompleted), Action::Abort(Stage::Generation));
    assert_eq!(coordinator.phase(), Phase::Failed(Stage::Generation));
    assert!(coordinator.progress().failed);
}

#[test]
fn last_worker_failing_aborts() {
    let mut coordinator = started(2);
    assert_eq!(coordinator.advance(Event::WorkerCompleted), Action::AwaitWorkers);
    assert_eq!(coordinator.advance(Event::WorkerFailed), Action::Abort(Stage::Generation));
}

#[test]
fn failed_consolidation_aborts() {
    let mut coordinator = started(1);
    assert_eq!(coordinator.advance(Event::WorkerCompleted), Action::Consolidate);
    assert_eq!(
        coordinator.advance(Event::ConsolidationFailed),
        Action::Abort(Stage::Consolidation)
    );
    assert_eq!(coordinator.phase(), Phase::Failed(Stage::Consolidation));
}

#[test]
fn a_failed_run_ignores_every_report() {
    let mut coordinator = Coordinator::new(2);
    coordinator.advance(Event::CreationFailed);
    let before = coordinator.progress();
    for event in [
        Event::OutputsCreated,
        Event::CreationFailed,
        Event::WorkerCompleted,
        Event::WorkerFailed,
        Event::Consolidated,
        Event::ConsolidationFailed,
    ] {
        assert_eq!(coordinator.advance(event), Action::Ignore);
        assert_eq!(coordinator.progress(), before);
    }
}

#[test]
fn a_finished_run_ignores_every_report() {
    let mut coordinator = started(1);
    coordinator.advance(Event::WorkerCompleted);
    coordinator.advance(Event::Consolidated);
    assert_eq!(coordinator.advance(Event::WorkerCompleted), Action::Ignore);
    assert_eq!(coordinator.advance(Event::ConsolidationFailed), Action::Ignore);
    assert_eq!(coordinator.phase(), Phase::Done);
}

#[test]
fn reports_out_of_turn_are_ignored() {
    let mut coordinator = Coordinator::new(2);
    assert_eq!(coordinator.advance(Event::WorkerCompleted), Action::Ignore);
    assert_eq!(coordinator.advance(Event::Consolidated), Action::Ignore);
    assert_eq!(coordinator.phase(), Phase::Creating);
    assert_eq!(coordinator.advance(Event::OutputsCreated), Action::StartWorkers);
    assert_eq!(coordinator.advance(Event::OutputsCreated), Action::Ignore);
    assert_eq!(coordinator.advance(Event::Consolidated), Action::Ignore);
    assert_eq!(coordinator.progress().ended, 0);
}

#[test]
fn a_run_without_workers_consolidates_at_once() {
    let mut coordinator = Coordinator::new(0);
    assert_eq!(coordinator.advance(Event::OutputsCreated), Action::Consolidate);
    assert_eq!(coordinator.advance(Event::Consolidated), Action::Discard);
}

#[test]
fn stages_have_names() {
    assert_eq!(Stage::Creation.name(), "creation");
    assert_eq!(Stage::Generation.name(), "generation");
    assert_eq!(Stage::Consolidation.name(), "consolidation");
}
