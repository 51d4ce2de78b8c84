use vstd::prelude::*;
use vstd::string::StringExecFns;
use crate::chain::{ChainModel, PointerChain, SlotTable};
use crate::error::EngineError;
use crate::parse::{parse_i32, parse_i32_spec};
use crate::polling::{FreezeCommand, PollingController};
use crate::session::{Job, Payload, Session, TargetProcess};

verus! {

/// Whether the engine has a target to work on.
#[derive(Clone, Copy, Debug, PartialEq, Eq, Structural)]
pub enum ConnectionState {
    /// No target: its window is gone, or its process cannot be opened.
    Disconnected,
    /// The target's window exists and its process can be opened.
    Connected,
    /// Kept for a finer distinction that nothing detects at present: the
    /// engine never reports it.
    InLevel,
}

/// What the engine last has to tell its user.
#[derive(Clone, Copy, Debug, PartialEq, Eq, Structural)]
pub enum Status {
    /// Nothing has happened yet.
    Waiting,
    /// The target was found and opened.
    Connected { process_id: u32 },
    /// An operation failed, and why.
    Failed(EngineError),
    /// A value was written.
    ValueWritten(i32),
    /// The freeze was switched on.
    FreezeStarted,
    /// The freeze was switched off.
    FreezeStopped,
}

/// A pointer chain under the name by which reads and writes refer to it.
#[derive(Debug)]
pub struct NamedChain {
    pub name: String,
    pub chain: PointerChain,
}

/// Everything that is fixed before the engine starts.
#[derive(Debug)]
pub struct EngineConfig {
    pub window_class: String,
    pub window_title: String,
    pub chains: Vec<NamedChain>,
    pub freeze: SlotTable,
    pub poll_interval_ms: u64,
    pub sentinel_value: i32,
}

/// Whether `i` is the first entry of `chains` with the name `name`.
pub open spec fn names_at(chains: Seq<NamedChain>, name: Seq<char>, i: int) -> bool {
    &&& 0 <= i < chains.len()
    &&& chains[i].name@ == name
    &&& forall|j: int| 0 <= j < i ==> (#[trigger] chains[j]).name@ != name
}

/// Whether some entry of `chains` has the name `name`.
pub open spec fn knows(chains: Seq<NamedChain>, name: Seq<char>) -> bool {
    exists|i: int| 0 <= i < chains.len() && (#[trigger] chains[i]).name@ == name
}

/// The chain that `name` refers to: that of the first entry so named.
pub open spec fn chain_named(chains: Seq<NamedChain>, name: Seq<char>) -> ChainModel {
    chains[choose|i: int| names_at(chains, name, i)].chain@
}

/// A name that is known refers to exactly one entry, the first so named.
pub proof fn lemma_first_named_unique(chains: Seq<NamedChain>, name: Seq<char>, i: int)
    requires
        names_at(chains, name, i),
    ensures
        knows(chains, name),
        chain_named(chains, name) == chains[i].chain@,
{
    let j = choose|j: int| names_at(chains, name, j);
    assert(names_at(chains, name, j));
    if i < j {
        assert(chains[i].name@ != name);
    }
    if j < i {
        assert(chains[j].name@ != name);
    }
}

/// The engine behind the user interface: it keeps what is known of the
/// target, begins the sessions that read and write, takes their outcomes
/// back, and switches the freeze.
#[derive(Debug)]
pub struct Engine {
    pub window_class: String,
    pub window_title: String,
    pub chains: Vec<NamedChain>,
    /// The target as the last probe found it; nothing after a probe that
    /// failed.
    pub target: Option<TargetProcess>,
    /// The value last read or written with success.
    pub last_value: Option<i32>,
    pub status: Status,
    pub controller: PollingController,
}

impl Engine {
    /// `Connected` with a target, `Disconnected` without one.
    pub open spec fn connection_spec(&self) -> ConnectionState {
        if self.target is Some {
            ConnectionState::Connected
        } else {
            ConnectionState::Disconnected
        }
    }

    /// The process that sessions are begun for; zero without a target.
    pub open spec fn process_id_spec(&self) -> u32 {
        match self.target {
            Some(target) => target.process_id,
            None => 0,
        }
    }

    /// The engine after it has taken a session's outcome.
    ///
    /// A probe decides the connection: its target on success, none on any
    /// failure. A value read or written becomes the last value. A failed
    /// read or write changes the status and nothing else, so that the last
    /// good value stays on display. A session that is not over, and a
    /// freeze cycle, change nothing.
    pub open spec fn settled(self, session: Session) -> Engine {
        if !session.is_finished() {
            self
        } else {
            match (session.job, session.outcome) {
                (Job::Probe, Some(Ok(Payload::Alive(target)))) => Engine {
                    target: Some(target),
                    status: Status::Connected { process_id: target.process_id },
                    ..self
                },
                (Job::Probe, Some(Err(error))) => Engine {
                    target: None,
                    status: Status::Failed(error),
                    ..self
                },
                (Job::Read, Some(Ok(Payload::Value(value)))) => Engine {
                    last_value: Some(value),
                    ..self
                },
                (Job::Write { .. }, Some(Ok(Payload::Written(value)))) => Engine {
                    last_value: Some(value),
                    status: Status::ValueWritten(value),
                    ..self
                },
                (Job::Read, Some(Err(error))) => Engine { status: Status::Failed(error), ..self },
                (Job::Write { .. }, Some(Err(error))) => Engine {
                    status: Status::Failed(error),
                    ..self
                },
                _ => self,
            }
        }
    }

    /// A new engine: disconnected, nothing read yet, freeze off.
    pub fn new(config: EngineConfig) -> (engine: Engine)
        ensures
            engine.window_class == config.window_class,
            engine.window_title == config.window_title,
            engine.chains == config.chains,
            engine.target is None,
            engine.last_value is None,
            engine.status == Status::Waiting,
            engine.controller == PollingController::new_spec(
                config.freeze,
                config.sentinel_value,
                config.poll_interval_ms,
            ),
            engine.connection_spec() == ConnectionState::Disconnected,
            !engine.controller.is_active(),
    {
        Engine {
            window_class: config.window_class,
            window_title: config.window_title,
            chains: config.chains,
            target: None,
            last_value: None,
            status: Status::Waiting,
            controller: PollingController::new(
                config.freeze,
                config.sentinel_value,
                config.poll_interval_ms,
            ),
        }
    }

    /// `Connected` or `Disconnected`, as the last probe left it.
    pub fn connection(&self) -> (state: ConnectionState)
        ensures
            state == self.connection_spec(),
            state != ConnectionState::InLevel,
    {
        match self.target {
            Some(_) => ConnectionState::Connected,
            None => ConnectionState::Disconnected,
        }
    }

    /// The identifier of the target's process; zero without a target.
    pub fn process_id(&self) -> (id: u32)
        ensures
            id == self.process_id_spec(),
    {
        match self.target {
            Some(target) => target.process_id,
            None => 0,
        }
    }

    /// The value last read or written with success, if any.
    pub fn last_value(&self) -> (value: Option<i32>)
        ensures
            value == self.last_value,
    {
        self.last_value
    }

    /// What the engine last has to tell its user.
    pub fn status(&self) -> (status: Status)
        ensures
            status == self.status,
    {
        self.status
    }

    /// Whether the freeze is switched on.
    pub fn freeze_active(&self) -> (active: bool)
        ensures
            active == self.controller.is_active(),
    {
        self.controller.active()
    }

    /// The class of the window that identifies the target.
    pub fn window_class(&self) -> (class: &str)
        ensures
            class@ == self.window_class@,
    {
        self.window_class.as_str()
    }

    /// The title of the window that identifies the target.
    pub fn window_title(&self) -> (title: &str)
        ensures
            title@ == self.window_title@,
    {
        self.window_title.as_str()
    }

    /// The index of the first chain with this name.
    pub fn find_chain(&self, name: &str) -> (found: Option<usize>)
        ensures
            match found {
                Some(i) => names_at(self.chains@, name@, i as int),
                None => !knows(self.chains@, name@),
            },
    {
        let wanted = String::from_str(name);
        let mut i: usize = 0;
        while i < self.chains.len()
            invariant
                i <= self.chains@.len(),
                wanted@ == name@,
                forall|j: int| 0 <= j < i ==> (#[trigger] self.chains@[j]).name@ != name@,
            decreases self.chains@.len() - i,
        {
            if self.chains[i].name == wanted {
                return Some(i);
            }
            i += 1;
        }
        None
    }

    /// Takes a liveness probe that the host has served to its end and says
    /// where the engine then stands: `Connected`, knowing the process, if
    /// the window was found and its process opened; `Disconnected`, knowing
    /// no target, if the probe failed. Any other session decides nothing.
    pub fn poll_connection(&mut self, probe: &Session) -> (state: ConnectionState)
        ensures
            *final(self) == old(self).polled(*probe),
            state == final(self).connection_spec(),
            state != ConnectionState::InLevel,
            probe.decides_connection() ==> match probe.outcome {
                Some(Ok(Payload::Alive(target))) => {
                    &&& state == ConnectionState::Connected
                    &&& final(self).target == Some(target)
                    &&& final(self).status == (Status::Connected { process_id: target.process_id })
                },
                Some(Err(error)) => {
                    &&& state == ConnectionState::Disconnected
                    &&& final(self).target is None
                    &&& final(self).status == Status::Failed(error)
                },
                _ => *final(self) == *old(self),
            },
            !probe.decides_connection() ==> *final(self) == *old(self),
            final(self).last_value == old(self).last_value,
            final(self).controller == old(self).controller,
            final(self).chains == old(self).chains,
    {
        match (session_is_probe(probe), probe.finished()) {
            (true, true) => {
                self.settle(probe);
            },
            _ => {},
        }
        self.connection()
    }

    /// The engine after it has taken a liveness probe: settled if the
    /// session is a probe that is over, unchanged if it is anything else.
    ///
    /// A probe fails if no window was found, if the process could not be
    /// opened, or if the host cannot reach other processes at all; the
    /// status then says which, and nothing of the old target is kept.
    pub open spec fn polled(self, probe: Session) -> Engine {
        if probe.decides_connection() {
            self.settled(probe)
        } else {
            self
        }
    }

    /// Begins reading the value behind the chain called `name`.
    ///
    /// While the engine is disconnected the session is over at once, with
    /// `ProcessNotFound`: nothing is asked of the host, not even a handle.
    /// A name that no chain has is `InvalidInput`, again without a request.
    pub fn read_named(&self, name: &str) -> (session: Session)
        ensures
            session.wf(),
            self.target is None ==> session.is_refused(Job::Read, EngineError::ProcessNotFound),
            self.target is Some && !knows(self.chains@, name@) ==> session.is_refused(
                Job::Read,
                EngineError::InvalidInput,
            ),
            self.target is Some && knows(self.chains@, name@) ==> session.is_start(
                Job::Read,
                chain_named(self.chains@, name@),
                self.process_id_spec(),
            ),
    {
        match self.target {
            None => Session::refused(Job::Read, EngineError::ProcessNotFound),
            Some(target) => match self.find_chain(name) {
                None => Session::refused(Job::Read, EngineError::InvalidInput),
                Some(i) => {
                    proof {
                        lemma_first_named_unique(self.chains@, name@, i as int);
                    }
                    Session::read(self.chains[i].chain.duplicate(), target.process_id)
                },
            },
        }
    }

    /// Begins writing the number that `text` writes in decimal to the
    /// value behind the chain called `name`.
    ///
    /// The text is checked before anything else. If it is not a decimal
    /// 32-bit integer the session is over at once, with `InvalidInput`,
    /// and nothing is asked of the host. After that the same holds as for
    /// a read: `ProcessNotFound` while disconnected, `InvalidInput` for an
    /// unknown name.
    pub fn write_named(&self, name: &str, text: &str) -> (session: Session)
        ensures
            session.wf(),
            match parse_i32_spec(text@) {
                None => session.is_refused(Job::Write { value: 0 }, EngineError::InvalidInput),
                Some(value) => {
                    &&& self.target is None ==> session.is_refused(
                        Job::Write { value },
                        EngineError::ProcessNotFound,
                    )
                    &&& self.target is Some && !knows(self.chains@, name@) ==> session.is_refused(
                        Job::Write { value },
                        EngineError::InvalidInput,
                    )
                    &&& self.target is Some && knows(self.chains@, name@) ==> session.is_start(
                        Job::Write { value },
                        chain_named(self.chains@, name@),
                        self.process_id_spec(),
                    )
                },
            },
    {
        match parse_i32(text) {
            Err(_) => Session::refused(Job::Write { value: 0 }, EngineError::InvalidInput),
            Ok(value) => match self.target {
                None => Session::refused(Job::Write { value }, EngineError::ProcessNotFound),
                Some(target) => match self.find_chain(name) {
                    None => Session::refused(Job::Write { value }, EngineError::InvalidInput),
                    Some(i) => {
                        proof {
                            lemma_first_named_unique(self.chains@, name@, i as int);
                        }
                        Session::write(self.chains[i].chain.duplicate(), value, target.process_id)
                    },
                },
            },
        }
    }

    /// Takes the outcome of a session that is over.
    pub fn settle(&mut self, session: &Session)
        ensures
            *final(self) == old(self).settled(*session),
    {
        if !session.finished() {
            return ;
        }
        match (session.job, session.result()) {
            (Job::Probe, Some(Ok(Payload::Alive(target)))) => {
                self.target = Some(target);
                self.status = Status::Connected { process_id: target.process_id };
            },
            (Job::Probe, Some(Err(error))) => {
                self.target = None;
                self.status = Status::Failed(error);
            },
            (Job::Read, Some(Ok(Payload::Value(value)))) => {
                self.last_value = Some(value);
            },
            (Job::Write { .. }, Some(Ok(Payload::Written(value)))) => {
                self.last_value = Some(value);
                self.status = Status::ValueWritten(value);
            },
            (Job::Read, Some(Err(error))) => {
                self.status = Status::Failed(error);
            },
            (Job::Write { .. }, Some(Err(error))) => {
                self.status = Status::Failed(error);
            },
            _ => {},
        }
    }

    /// Switches the freeze: on if it was off, off if it was on. The
    /// command says what is left to do: run the task it carries, or set
    /// the running task's flag. The task works on the process known at
    /// this moment, which is process zero while the engine is
    /// disconnected: its cycles then fail until it is stopped.
    pub fn toggle_freeze(&mut self) -> (command: FreezeCommand)
        ensures
            final(self).controller.is_active() == !old(self).controller.is_active(),
            command.spawns() == final(self).controller.is_active(),
            old(self).controller.is_active() ==> {
                &&& command is Cancel
                &&& final(self).controller == old(self).controller.stopped()
                &&& final(self).status == Status::FreezeStopped
            },
            !old(self).controller.is_active() ==> {
                &&& final(self).controller == old(self).controller.started()
                &&& final(self).status == Status::FreezeStarted
                &&& command matches FreezeCommand::Spawn(task) && old(self).controller.issues(
                    task,
                    old(self).process_id_spec(),
                )
            },
            final(self).target == old(self).target,
            final(self).last_value == old(self).last_value,
            final(self).chains == old(self).chains,
            final(self).window_class == old(self).window_class,
            final(self).window_title == old(self).window_title,
    {
        let process_id = self.process_id();
        let command = self.controller.toggle(process_id);
        if self.controller.active() {
            self.status = Status::FreezeStarted;
        } else {
            self.status = Status::FreezeStopped;
        }
        command
    }
}

/// Whether a session is a liveness probe.
fn session_is_probe(session: &Session) -> (r: bool)
    ensures
        r == (session.job is Probe),
{
    match session.job {
        Job::Probe => true,
        _ => false,
    }
}

/// Only a probe changes what the engine knows of its target, and a
/// session that failed never changes the last value: what was read or
/// written with success stays on display.
pub proof fn lemma_settle_keeps(engine: Engine, session: Session)
    ensures
        !(session.job is Probe) ==> engine.settled(session).target == engine.target,
        session.outcome matches Some(Err(_)) ==> engine.settled(session).last_value
            == engine.last_value,
        session.job is Probe ==> engine.settled(session).last_value == engine.last_value,
        engine.settled(session).chains == engine.chains,
        engine.settled(session).controller == engine.controller,
        engine.settled(session).connection_spec() != ConnectionState::InLevel,
{
}

/// The engine is connected exactly after a probe that found the window
/// and could open its process, and disconnected after one that failed.
pub proof fn lemma_probe_decides_connection(engine: Engine, probe: Session)
    requires
        probe.job is Probe,
        probe.is_finished(),
        probe.wf(),
    ensures
        probe.outcome matches Some(Ok(Payload::Alive(_))) ==> engine.settled(
            probe,
        ).connection_spec() == ConnectionState::Connected,
        probe.outcome matches Some(Err(_)) ==> engine.settled(probe).connection_spec()
            == ConnectionState::Disconnected,
{
}

} // verus!
