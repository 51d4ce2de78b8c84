use zomkill::chain::{PointerChain, SlotTable};
use zomkill::error::EngineError;
use zomkill::polling::{ControllerState, FreezeCommand, FreezeTask, PollingController, TaskState};
use zomkill::session::{Job, Payload, Reply, Request, Session};

fn table() -> SlotTable {
    SlotTable::new(PointerChain::new(0x1000, vec![]), 2, 0x50, 0x70)
}

fn controller() -> PollingController {
    PollingController::new(table(), 1, 100)
}

fn spawned(command: FreezeCommand) -> FreezeTask {
    match command {
        FreezeCommand::Spawn(task) => task,
        other => panic!("expected a task, got {:?}", other),
    }
}

#[test]
fn a_new_controller_is_idle() {
    let c = controller();
    assert!(!c.active());
    assert_eq!(c.state, ControllerState::Idle);
    assert!(!c.cancel_requested);
}

#[test]
fn start_hands_out_one_task() {
    let mut c = controller();
    let task = spawned(c.start(321));
    assert!(c.active());
    assert!(!c.cancel_requested);
    assert_eq!(task.process_id, 321);
    assert_eq!(task.sentinel, 1);
    assert_eq!(task.interval(), 100);
    assert_eq!(task.state, TaskState::Sleeping);
    assert_eq!(task.cycles, 0);
    assert_eq!(task.table.slot_count, 2);
    assert_eq!(task.table.slot_stride, 0x50);
    assert_eq!(task.table.slot_base_offset, 0x70);
    assert_eq!(task.table.chain.base_address, 0x1000);
}

#[test]
fn start_on_an_active_controller_does_nothing() {
    let mut c = controller();
    let _task = spawned(c.start(1));
    assert!(matches!(c.start(1), FreezeCommand::Nothing));
    assert!(matches!(c.start(2), FreezeCommand::Nothing));
    assert!(c.active());
}

#[test]
fn stop_asks_for_the_flag_and_goes_idle() {
    let mut c = controller();
    let _task = spawned(c.start(1));
    assert!(matches!(c.stop(), FreezeCommand::Cancel));
    assert!(!c.active());
    assert!(c.cancel_requested);
    assert!(matches!(c.stop(), FreezeCommand::Nothing));
    assert!(!c.active());
}

#[test]
fn stop_on_a_controller_that_never_started_does_nothing() {
    let mut c = controller();
    assert!(matches!(c.stop(), FreezeCommand::Nothing));
    assert!(!c.cancel_requested);
}

#[test]
fn a_restart_clears_the_flag() {
    let mut c = controller();
    let _first = spawned(c.start(1));
    c.stop();
    let _second = spawned(c.start(1));
    assert!(c.active());
    assert!(!c.cancel_requested);
}

#[test]
fn toggle_alternates() {
    let mut c = controller();
    assert!(c.toggle(5).is_spawn());
    assert!(c.active());
    assert!(matches!(c.toggle(5), FreezeCommand::Cancel));
    assert!(!c.active());
    assert!(c.toggle(5).is_spawn());
}

#[test]
fn a_task_that_wakes_to_a_clear_flag_begins_a_cycle() {
    let mut task = FreezeTask::new(table(), 1, 9, 100);
    let session = task.wake(false).expect("a cycle");
    assert_eq!(task.state, TaskState::Cycling);
    assert_eq!(session.request(), Request::Open { process_id: 9 });
    assert!(matches!(session.job, Job::Freeze { sentinel: 1, .. }));
}

#[test]
fn a_task_that_wakes_to_a_set_flag_is_over() {
    let mut task = FreezeTask::new(table(), 1, 9, 100);
    assert!(task.wake(true).is_none());
    assert!(task.exited());
    assert!(task.wake(false).is_none());
    assert!(task.wake(true).is_none());
    assert!(task.exited());
    assert_eq!(task.cycles, 0);
}

#[test]
fn a_failed_cycle_does_not_end_the_task() {
    let mut task = FreezeTask::new(table(), 1, 9, 100);
    for round in 1..=3u64 {
        let mut session = task.wake(false).expect("a cycle");
        assert_eq!(session.advance(&Reply::Opened(false)), Request::Done);
        task.settle(&session);
        assert!(!task.exited());
        assert_eq!(task.state, TaskState::Sleeping);
        assert_eq!(task.cycles, round);
        assert_eq!(task.last, Some(Err(EngineError::HandleOpenFailed)));
    }
}

#[test]
fn a_good_cycle_is_recorded() {
    let mut task = FreezeTask::new(table(), 1, 9, 100);
    let mut session = task.wake(false).expect("a cycle");
    session.advance(&Reply::Opened(true));
    session.advance(&Reply::Wrote(4));
    session.advance(&Reply::Wrote(4));
    assert_eq!(session.advance(&Reply::Closed), Request::Done);
    task.settle(&session);
    assert_eq!(task.last, Some(Ok(Payload::Frozen { written: 2 })));
    assert_eq!(task.cycles, 1);
}

#[test]
fn settling_an_exited_task_changes_nothing() {
    let mut task = FreezeTask::new(table(), 1, 9, 100);
    task.wake(true);
    let session = Session::refused(Job::Read, EngineError::InvalidInput);
    task.settle(&session);
    assert!(task.exited());
    assert_eq!(task.cycles, 0);
    assert_eq!(task.last, None);
}

#[test]
fn start_then_stop_leaves_no_task_running() {
    let mut c = controller();
    let mut task = spawned(c.start(9));
    let mut cycles = 0;
    if let Some(mut session) = task.wake(c.cancel_requested) {
        session.advance(&Reply::Opened(false));
        task.settle(&session);
        cycles += 1;
    }
    assert_eq!(cycles, 1);
    assert!(matches!(c.stop(), FreezeCommand::Cancel));
    let mut wakes = 0;
    while !task.exited() {
        assert!(task.wake(c.cancel_requested).is_none());
        wakes += 1;
        assert!(wakes <= 1);
    }
    assert_eq!(wakes, 1);
    assert!(task.exited());
    assert!(!c.active());
}
