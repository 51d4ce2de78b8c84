use vstd::prelude::*;
use crate::chain::SlotTable;
use crate::session::{Job, Outcome, Session};

verus! {

/// Where a background freeze task stands.
#[derive(Clone, Copy, Debug, PartialEq, Eq, Structural)]
pub enum TaskState {
    /// Between cycles: the task sleeps for its interval.
    Sleeping,
    /// A cycle's session is under way.
    Cycling,
    /// The task saw its cancellation and is over for good.
    Exited,
}

/// The background task of one freeze: after every sleep it looks at its
/// cancellation flag and, unless that is set, runs one cycle.
///
/// The task only decides. Whoever runs it sleeps, reads the flag, drives
/// each cycle's session against the host and reports back.
#[derive(Debug)]
pub struct FreezeTask {
    pub table: SlotTable,
    pub sentinel: i32,
    pub process_id: u32,
    pub interval_ms: u64,
    pub state: TaskState,
    /// Cycles that have run to their end, whatever their outcome.
    pub cycles: u64,
    /// The outcome of the last cycle.
    pub last: Option<Outcome>,
}

impl FreezeTask {
    /// The job of each cycle.
    pub open spec fn job(&self) -> Job {
        Job::Freeze { layout: self.table.layout_spec(), sentinel: self.sentinel }
    }

    /// Whether the task is over for good.
    pub open spec fn has_exited(&self) -> bool {
        self.state is Exited
    }

    /// The task after it woke and looked at its flag.
    pub open spec fn woken(self, cancelled: bool) -> FreezeTask {
        if self.state is Exited {
            self
        } else if cancelled {
            FreezeTask { state: TaskState::Exited, ..self }
        } else {
            FreezeTask { state: TaskState::Cycling, ..self }
        }
    }

    /// The task after a cycle came to its end with `outcome`. A failed
    /// cycle is one more cycle: it never ends the task.
    pub open spec fn settled(self, outcome: Option<Outcome>) -> FreezeTask {
        if self.state is Exited {
            self
        } else {
            FreezeTask {
                state: TaskState::Sleeping,
                cycles: if self.cycles < u64::MAX {
                    (self.cycles + 1) as u64
                } else {
                    self.cycles
                },
                last: outcome,
                ..self
            }
        }
    }

    /// A task that has not run yet: asleep, no cycle behind it.
    pub fn new(table: SlotTable, sentinel: i32, process_id: u32, interval_ms: u64) -> (task:
        FreezeTask)
        ensures
            task == (FreezeTask {
                table,
                sentinel,
                process_id,
                interval_ms,
                state: TaskState::Sleeping,
                cycles: 0,
                last: None,
            }),
    {
        FreezeTask {
            table,
            sentinel,
            process_id,
            interval_ms,
            state: TaskState::Sleeping,
            cycles: 0,
            last: None,
        }
    }

    /// How long to sleep before each wake, in milliseconds.
    pub fn interval(&self) -> (ms: u64)
        ensures
            ms == self.interval_ms,
    {
        self.interval_ms
    }

    /// Whether the task is over for good.
    pub fn exited(&self) -> (r: bool)
        ensures
            r == self.has_exited(),
    {
        match self.state {
            TaskState::Exited => true,
            _ => false,
        }
    }

    /// Called after each sleep with the flag's value. Returns the session
    /// of the next cycle, or nothing if the task is over: then it holds no
    /// handle and will never ask for one again.
    pub fn wake(&mut self, cancelled: bool) -> (cycle: Option<Session>)
        ensures
            *final(self) == old(self).woken(cancelled),
            cycle is Some <==> !cancelled && !old(self).has_exited(),
            cycle is None <==> final(self).has_exited(),
            cycle matches Some(session) ==> session.wf() && session.is_start(
                old(self).job(),
                old(self).table.chain@,
                old(self).process_id,
            ),
    {
        match self.state {
            TaskState::Exited => None,
            _ => {
                if cancelled {
                    self.state = TaskState::Exited;
                    None
                } else {
                    self.state = TaskState::Cycling;
                    Some(Session::freeze(self.table.duplicate(), self.sentinel, self.process_id))
                }
            },
        }
    }

    /// Takes a cycle's session back once it is over. Its outcome is kept
    /// for whoever wants to log it; an error changes nothing else.
    pub fn settle(&mut self, session: &Session)
        ensures
            *final(self) == old(self).settled(session.outcome),
    {
        match self.state {
            TaskState::Exited => {},
            _ => {
                self.state = TaskState::Sleeping;
                if self.cycles < u64::MAX {
                    self.cycles = self.cycles + 1;
                }
                self.last = session.result();
            },
        }
    }
}

/// Whether a freeze is switched on.
#[derive(Clone, Copy, Debug, PartialEq, Eq, Structural)]
pub enum ControllerState {
    Idle,
    Active,
}

/// What the caller has to do after a change of the controller.
#[derive(Debug)]
pub enum FreezeCommand {
    /// Run the task carried here in the background and give it a fresh
    /// cancellation flag, not set.
    Spawn(FreezeTask),
    /// Set the running task's cancellation flag, and do not wait for it.
    Cancel,
    /// Nothing: the controller was already where it was asked to go.
    Nothing,
}

impl FreezeCommand {
    /// Whether the command carries a task to run.
    pub open spec fn spawns(&self) -> bool {
        self is Spawn
    }

    /// Whether the command carries a task to run.
    pub fn is_spawn(&self) -> (r: bool)
        ensures
            r == self.spawns(),
    {
        match self {
            FreezeCommand::Spawn(_) => true,
            _ => false,
        }
    }
}

/// Starts and stops the freeze. At most one task runs for a controller:
/// starting an active controller does nothing.
#[derive(Debug)]
pub struct PollingController {
    pub table: SlotTable,
    pub sentinel: i32,
    pub interval_ms: u64,
    pub state: ControllerState,
    /// The cancellation flag as the controller last left it: set by a
    /// stop, clear after a start.
    pub cancel_requested: bool,
}

impl PollingController {
    /// Whether the freeze is switched on.
    pub open spec fn is_active(&self) -> bool {
        self.state is Active
    }

    /// The controller after `start`.
    pub open spec fn started(self) -> PollingController {
        if self.is_active() {
            self
        } else {
            PollingController { state: ControllerState::Active, cancel_requested: false, ..self }
        }
    }

    /// The controller after `stop`.
    pub open spec fn stopped(self) -> PollingController {
        if self.is_active() {
            PollingController { state: ControllerState::Idle, cancel_requested: true, ..self }
        } else {
            self
        }
    }

    /// Whether `task` is a task of this controller that has not run yet,
    /// for process `process_id`.
    pub open spec fn issues(&self, task: FreezeTask, process_id: u32) -> bool {
        &&& task.table.chain@ == self.table.chain@
        &&& task.table.layout_spec() == self.table.layout_spec()
        &&& task.sentinel == self.sentinel
        &&& task.interval_ms == self.interval_ms
        &&& task.process_id == process_id
        &&& task.state == TaskState::Sleeping
        &&& task.cycles == 0
        &&& task.last is None
    }

    /// A controller that has never started: idle, its flag clear.
    pub open spec fn new_spec(table: SlotTable, sentinel: i32, interval_ms: u64) -> PollingController {
        PollingController {
            table,
            sentinel,
            interval_ms,
            state: ControllerState::Idle,
            cancel_requested: false,
        }
    }

    /// A controller for one table, idle.
    pub fn new(table: SlotTable, sentinel: i32, interval_ms: u64) -> (controller: PollingController)
        ensures
            controller == Self::new_spec(table, sentinel, interval_ms),
    {
        PollingController {
            table,
            sentinel,
            interval_ms,
            state: ControllerState::Idle,
            cancel_requested: false,
        }
    }

    /// Whether the freeze is switched on.
    pub fn active(&self) -> (r: bool)
        ensures
            r == self.is_active(),
    {
        match self.state {
            ControllerState::Active => true,
            ControllerState::Idle => false,
        }
    }

    /// Goes to `Active` and hands out the task to run, for the process
    /// `process_id`. On an active controller this does nothing.
    pub fn start(&mut self, process_id: u32) -> (command: FreezeCommand)
        ensures
            *final(self) == old(self).started(),
            final(self).is_active(),
            old(self).is_active() ==> command is Nothing,
            !old(self).is_active() ==> (command matches FreezeCommand::Spawn(task) && old(
                self,
            ).issues(task, process_id)),
    {
        if self.active() {
            FreezeCommand::Nothing
        } else {
            self.state = ControllerState::Active;
            self.cancel_requested = false;
            FreezeCommand::Spawn(
                FreezeTask::new(self.table.duplicate(), self.sentinel, process_id, self.interval_ms),
            )
        }
    }

    /// Goes to `Idle` and asks for the task's flag to be set. It does not
    /// wait: the task ends at its next wake. On an idle controller this
    /// does nothing.
    pub fn stop(&mut self) -> (command: FreezeCommand)
        ensures
            *final(self) == old(self).stopped(),
            !final(self).is_active(),
            old(self).is_active() ==> command is Cancel,
            !old(self).is_active() ==> command is Nothing,
    {
        if self.active() {
            self.state = ControllerState::Idle;
            self.cancel_requested = true;
            FreezeCommand::Cancel
        } else {
            FreezeCommand::Nothing
        }
    }

    /// Starts if idle, stops if active.
    pub fn toggle(&mut self, process_id: u32) -> (command: FreezeCommand)
        ensures
            final(self).is_active() == !old(self).is_active(),
            old(self).is_active() ==> *final(self) == old(self).stopped() && command is Cancel,
            !old(self).is_active() ==> *final(self) == old(self).started() && (command matches FreezeCommand::Spawn(
                task,
            ) && old(self).issues(task, process_id)),
    {
        if self.active() {
            self.stop()
        } else {
            self.start(process_id)
        }
    }
}

/// A start followed by a stop leaves the controller idle with the flag
/// set, and a task that wakes to a set flag is over: it begins no cycle
/// then or ever after, whatever it is told.
pub proof fn lemma_start_stop_ends_task(
    controller: PollingController,
    task: FreezeTask,
    later: bool,
    outcome: Option<Outcome>,
)
    requires
        !controller.is_active(),
    ensures
        controller.started().is_active(),
        !controller.started().cancel_requested,
        !controller.started().stopped().is_active(),
        controller.started().stopped().cancel_requested,
        task.woken(controller.started().stopped().cancel_requested).has_exited(),
        task.woken(true).woken(later) == task.woken(true),
        task.woken(true).settled(outcome) == task.woken(true),
{
}

/// Nothing but a set flag ends a task: a wake with a clear flag begins a
/// cycle, and a cycle's end, good or bad, sends the task back to sleep.
pub proof fn lemma_only_cancel_ends_task(task: FreezeTask, outcome: Option<Outcome>)
    requires
        !task.has_exited(),
    ensures
        !task.woken(false).has_exited(),
        task.woken(false).state == TaskState::Cycling,
        !task.settled(outcome).has_exited(),
        task.settled(outcome).state == TaskState::Sleeping,
{
}

/// Starting twice is starting once, and stopping twice is stopping once.
pub proof fn lemma_start_stop_idempotent(controller: PollingController)
    ensures
        controller.started().started() == controller.started(),
        controller.stopped().stopped() == controller.stopped(),
{
}

} // verus!
