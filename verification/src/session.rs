use vstd::prelude::*;
use crate::access::{read_u32, signed_of, to_signed, write_i32, Transfer};
use crate::chain::{slot_address_at, ChainModel, PointerChain, SlotLayout, SlotTable};
use crate::error::EngineError;
use crate::resolve::{ChainWalk, WalkState};

verus! {

/// The process that owns the window the locator found.
#[derive(Clone, Copy, Debug, PartialEq, Eq, Structural)]
pub struct TargetProcess {
    pub process_id: u32,
    pub window_handle: u64,
}

/// What a session needs from the host next.
#[derive(Clone, Copy, Debug, PartialEq, Eq, Structural)]
pub enum Request {
    /// Look for the target's window.
    Locate,
    /// Open the process for reading and writing its memory.
    Open { process_id: u32 },
    /// Read four bytes at this address, through the open handle.
    Read { address: u32 },
    /// Write the four bytes of this value, least significant first, at
    /// this address, through the open handle.
    Write { address: u32, value: i32 },
    /// Release the handle.
    Close,
    /// Nothing: the session is over.
    Done,
}

/// What the host reports of the request it was given.
#[derive(Clone, Copy, Debug)]
pub enum Reply {
    /// The window's owner, or nothing if no such window exists.
    Located(Option<TargetProcess>),
    /// Whether a handle was obtained.
    Opened(bool),
    /// What a read moved.
    Read(Transfer),
    /// How many bytes a write moved.
    Wrote(usize),
    /// The handle is released.
    Closed,
    /// The host cannot reach other processes at all.
    Unsupported,
}

impl Reply {
    /// The word that a read delivered. Anything but the report of a
    /// complete read delivers none.
    pub open spec fn word(self) -> Option<u32> {
        match self {
            Reply::Read(transfer) => transfer.word(),
            _ => None,
        }
    }

    /// Whether this reports a write that moved exactly four bytes.
    pub open spec fn wrote_word(self) -> bool {
        self matches Reply::Wrote(moved) && moved == 4
    }

    /// The word that a read delivered, if this reports a complete read.
    pub fn read_word(&self) -> (word: Option<u32>)
        ensures
            word == self.word(),
    {
        match self {
            Reply::Read(transfer) => match read_u32(transfer) {
                Ok(word) => Some(word),
                Err(_) => None,
            },
            _ => None,
        }
    }

    /// Whether this reports a write that moved exactly four bytes.
    pub fn has_written(&self) -> (ok: bool)
        ensures
            ok == self.wrote_word(),
    {
        match self {
            Reply::Wrote(moved) => write_i32(*moved).is_ok(),
            _ => false,
        }
    }
}

/// What a session is for.
#[derive(Clone, Copy, Debug, PartialEq, Eq, Structural)]
pub enum Job {
    /// Find the target and see whether it can be opened.
    Probe,
    /// Read the value that a chain leads to.
    Read,
    /// Write a value where a chain leads to.
    Write { value: i32 },
    /// Write a sentinel to every slot of a table.
    Freeze { layout: SlotLayout, sentinel: i32 },
}

impl Job {
    /// The value this job writes; zero for a job that writes nothing.
    pub open spec fn value(self) -> i32 {
        match self {
            Job::Write { value } => value,
            Job::Freeze { sentinel, .. } => sentinel,
            _ => 0,
        }
    }

    /// How many requests a session of this job can still make once its
    /// chain is resolved, the closing one included.
    pub open spec fn closing_cost(self) -> int {
        match self {
            Job::Probe => 1,
            Job::Read => 2,
            Job::Write { .. } => 2,
            Job::Freeze { layout, .. } => layout.slot_count + 1,
        }
    }
}

/// What a session achieved.
#[derive(Clone, Copy, Debug, PartialEq, Eq, Structural)]
pub enum Payload {
    /// The target exists and could be opened.
    Alive(TargetProcess),
    /// The value read.
    Value(i32),
    /// The value written.
    Written(i32),
    /// A freeze cycle ran over all slots; this many took the sentinel.
    Frozen { written: u32 },
}

/// How a session ended: with what it achieved, or with the first error
/// it met.
pub type Outcome = Result<Payload, EngineError>;

/// What a session is waiting for.
#[derive(Clone, Copy, Debug, PartialEq, Eq, Structural)]
pub enum Phase {
    /// For the lookup of the window.
    Locating,
    /// For a handle to the process.
    Opening,
    /// For the next pointer of the chain.
    Walking,
    /// For the value at the resolved address.
    Fetching { address: u32 },
    /// For the write at the resolved address.
    Storing { address: u32 },
    /// For the write to slot `slot` of the table at `base`, after
    /// `written` of the slots before it took the sentinel.
    Filling { base: u32, slot: u32, written: u32 },
    /// For the release of the handle.
    Closing,
    /// For nothing: the session is over.
    Finished,
}

impl Phase {
    /// Whether the host holds an open handle for the session.
    pub open spec fn holds_handle(self) -> bool {
        self is Walking || self is Fetching || self is Storing || self is Filling
            || self is Closing
    }
}

/// One logical operation against the target, from opening a handle to
/// releasing it.
///
/// A session never performs anything. It says what it needs
/// ([`Session::request`]) and is told what came back
/// ([`Session::advance`]). A reply that does not answer the request
/// counts as the failure of what was asked.
#[derive(Debug)]
pub struct Session {
    pub job: Job,
    pub process_id: u32,
    pub window_handle: u64,
    pub phase: Phase,
    pub walk: ChainWalk,
    pub outcome: Option<Outcome>,
}

impl Session {
    /// The process the session works on.
    pub open spec fn target(&self) -> TargetProcess {
        TargetProcess { process_id: self.process_id, window_handle: self.window_handle }
    }

    /// The geometry of the table that a freeze fills; an empty table for
    /// every other job.
    pub open spec fn layout(&self) -> SlotLayout {
        match self.job {
            Job::Freeze { layout, .. } => layout,
            _ => SlotLayout { slot_count: 0, slot_stride: 0, slot_base_offset: 0 },
        }
    }

    /// What the session needs next.
    pub open spec fn pending(&self) -> Request {
        match self.phase {
            Phase::Locating => Request::Locate,
            Phase::Opening => Request::Open { process_id: self.process_id },
            Phase::Walking => Request::Read { address: self.walk.at },
            Phase::Fetching { address } => Request::Read { address },
            Phase::Storing { address } => Request::Write { address, value: self.job.value() },
            Phase::Filling { base, slot, .. } => Request::Write {
                address: slot_address_at(
                    base,
                    self.layout().slot_base_offset,
                    self.layout().slot_stride,
                    slot as int,
                ),
                value: self.job.value(),
            },
            Phase::Closing => Request::Close,
            Phase::Finished => Request::Done,
        }
    }

    /// Whether the session is over.
    pub open spec fn is_finished(&self) -> bool {
        self.phase is Finished
    }

    /// The session with its handle still to release and its outcome fixed.
    pub open spec fn closing(self, outcome: Outcome) -> Session {
        Session { phase: Phase::Closing, outcome: Some(outcome), ..self }
    }

    /// The session over without a handle ever held.
    pub open spec fn ended(self, outcome: Outcome) -> Session {
        Session { phase: Phase::Finished, outcome: Some(outcome), ..self }
    }

    /// The session once its walk has moved: on to the next pointer, to the
    /// job's own transfer at the resolved address, or to the end.
    pub open spec fn arrived(self) -> Session {
        match self.walk.state() {
            WalkState::NeedsRead(_) => Session { phase: Phase::Walking, ..self },
            WalkState::Failed => self.closing(Err(EngineError::MemoryReadFailed)),
            WalkState::Resolved(address) => match self.job {
                Job::Probe => self.closing(Ok(Payload::Alive(self.target()))),
                Job::Read => Session { phase: Phase::Fetching { address }, ..self },
                Job::Write { .. } => Session { phase: Phase::Storing { address }, ..self },
                Job::Freeze { layout, .. } => if layout.slot_count == 0 {
                    self.closing(Ok(Payload::Frozen { written: 0 }))
                } else {
                    Session { phase: Phase::Filling { base: address, slot: 0, written: 0 }, ..self }
                },
            },
        }
    }

    /// The session after one reply.
    pub open spec fn after(self, reply: Reply) -> Session {
        match self.phase {
            Phase::Finished => self,
            Phase::Locating => match reply {
                Reply::Located(Some(target)) => Session {
                    process_id: target.process_id,
                    window_handle: target.window_handle,
                    phase: Phase::Opening,
                    ..self
                },
                Reply::Unsupported => self.ended(Err(EngineError::UnsupportedPlatform)),
                _ => self.ended(Err(EngineError::ProcessNotFound)),
            },
            Phase::Opening => match reply {
                Reply::Opened(true) => match self.job {
                    Job::Probe => self.closing(Ok(Payload::Alive(self.target()))),
                    _ => self.arrived(),
                },
                Reply::Unsupported => self.ended(Err(EngineError::UnsupportedPlatform)),
                _ => self.ended(Err(EngineError::HandleOpenFailed)),
            },
            Phase::Walking => (Session { walk: self.walk.fed(reply.word()), ..self }).arrived(),
            Phase::Fetching { .. } => match reply.word() {
                Some(word) => self.closing(Ok(Payload::Value(signed_of(word)))),
                None => self.closing(Err(EngineError::MemoryReadFailed)),
            },
            Phase::Storing { .. } => if reply.wrote_word() {
                self.closing(Ok(Payload::Written(self.job.value())))
            } else {
                self.closing(Err(EngineError::MemoryWriteFailed))
            },
            Phase::Filling { base, slot, written } => {
                let written = if reply.wrote_word() && written < self.layout().slot_count {
                    (written + 1) as u32
                } else {
                    written
                };
                if slot + 1 >= self.layout().slot_count {
                    self.closing(Ok(Payload::Frozen { written }))
                } else {
                    Session { phase: Phase::Filling { base, slot: (slot + 1) as u32, written }, ..self }
                }
            },
            Phase::Closing => Session { phase: Phase::Finished, ..self },
        }
    }

    /// A bound on the number of requests the session can still make.
    pub open spec fn fuel(&self) -> int {
        let depth = self.walk.offsets().len() as int;
        match self.phase {
            Phase::Finished => 0,
            Phase::Closing => 1,
            Phase::Filling { slot, .. } => if slot < self.layout().slot_count {
                self.layout().slot_count - slot + 1
            } else {
                2
            },
            Phase::Fetching { .. } => 2,
            Phase::Storing { .. } => 2,
            Phase::Walking => if self.walk.state() is NeedsRead {
                depth - self.walk.position + self.job.closing_cost()
            } else {
                1 + self.job.closing_cost()
            },
            Phase::Opening => 2 + depth + self.job.closing_cost(),
            Phase::Locating => 3 + depth + self.job.closing_cost(),
        }
    }

    /// What holds of every session that a constructor made and `advance`
    /// moved.
    pub open spec fn wf(&self) -> bool {
        &&& self.walk.wf()
        &&& (self.phase is Locating ==> self.job is Probe)
        &&& (self.phase is Walking ==> self.walk.state() is NeedsRead && !(self.job is Probe))
        &&& (self.phase is Fetching ==> self.job is Read)
        &&& (self.phase is Storing ==> self.job is Write)
        &&& (self.phase matches Phase::Filling { slot, written, .. } ==> self.job is Freeze && slot
            < self.layout().slot_count && written <= slot)
        &&& (self.outcome is Some <==> self.phase is Closing || self.phase is Finished)
        &&& (self.job is Probe ==> self.walk.offsets().len() == 0)
    }

    /// The first state of a liveness probe: nothing is known yet, and the
    /// first request is to locate the window.
    pub open spec fn is_probe(&self) -> bool {
        &&& self.job == Job::Probe
        &&& self.process_id == 0
        &&& self.window_handle == 0
        &&& self.phase == Phase::Locating
        &&& self.has_no_chain()
        &&& self.outcome is None
    }

    /// Whether the session's walk is that of a chain without offsets at
    /// address zero, not begun: the walk of a session that needs none.
    pub open spec fn has_no_chain(&self) -> bool {
        &&& self.walk == ChainWalk::begin_spec(self.walk.chain)
        &&& self.walk.chain@ == (ChainModel { base_address: 0, offsets: Seq::empty() })
    }

    /// The first state of a session on a process already found: the first
    /// request is to open it, and the walk along `chain` has not begun.
    pub open spec fn is_start(&self, job: Job, chain: ChainModel, process_id: u32) -> bool {
        &&& self.job == job
        &&& self.process_id == process_id
        &&& self.window_handle == 0
        &&& self.phase == Phase::Opening
        &&& self.walk == ChainWalk::begin_spec(self.walk.chain)
        &&& self.walk.chain@ == chain
        &&& self.outcome is None
    }

    /// A session that is over before it began: it never makes a request.
    pub open spec fn is_refused(&self, job: Job, error: EngineError) -> bool {
        &&& self.job == job
        &&& self.process_id == 0
        &&& self.window_handle == 0
        &&& self.phase == Phase::Finished
        &&& self.has_no_chain()
        &&& self.outcome == Some(Err::<Payload, EngineError>(error))
    }

    /// Begins a liveness probe: locate the window, open its process,
    /// release the handle.
    pub fn probe() -> (session: Session)
        ensures
            session.is_probe(),
            session.wf(),
            session.pending() == Request::Locate,
    {
        Session {
            job: Job::Probe,
            process_id: 0,
            window_handle: 0,
            phase: Phase::Locating,
            walk: ChainWalk::begin(PointerChain::new(0, Vec::new())),
            outcome: None,
        }
    }

    /// Begins reading the value that `chain` leads to in process
    /// `process_id`.
    pub fn read(chain: PointerChain, process_id: u32) -> (session: Session)
        ensures
            session.is_start(Job::Read, chain@, process_id),
            session.wf(),
            session.pending() == (Request::Open { process_id }),
    {
        Session {
            job: Job::Read,
            process_id,
            window_handle: 0,
            phase: Phase::Opening,
            walk: ChainWalk::begin(chain),
            outcome: None,
        }
    }

    /// Begins writing `value` where `chain` leads to in process
    /// `process_id`.
    pub fn write(chain: PointerChain, value: i32, process_id: u32) -> (session: Session)
        ensures
            session.is_start(Job::Write { value }, chain@, process_id),
            session.wf(),
            session.pending() == (Request::Open { process_id }),
    {
        Session {
            job: Job::Write { value },
            process_id,
            window_handle: 0,
            phase: Phase::Opening,
            walk: ChainWalk::begin(chain),
            outcome: None,
        }
    }

    /// Begins one freeze cycle: resolve the table's chain, then write
    /// `sentinel` to each slot in index order.
    pub fn freeze(table: SlotTable, sentinel: i32, process_id: u32) -> (session: Session)
        ensures
            session.is_start(
                Job::Freeze { layout: table.layout_spec(), sentinel },
                table.chain@,
                process_id,
            ),
            session.wf(),
            session.pending() == (Request::Open { process_id }),
    {
        let layout = table.layout();
        Session {
            job: Job::Freeze { layout, sentinel },
            process_id,
            window_handle: 0,
            phase: Phase::Opening,
            walk: ChainWalk::begin(table.chain),
            outcome: None,
        }
    }

    /// A session that failed before anything was asked of the host.
    pub fn refused(job: Job, error: EngineError) -> (session: Session)
        ensures
            session.is_refused(job, error),
            session.wf(),
            session.pending() == Request::Done,
    {
        Session {
            job,
            process_id: 0,
            window_handle: 0,
            phase: Phase::Finished,
            walk: ChainWalk::begin(PointerChain::new(0, Vec::new())),
            outcome: Some(Err(error)),
        }
    }

    /// What the session needs next; `Done` once it is over.
    pub fn request(&self) -> (request: Request)
        ensures
            request == self.pending(),
    {
        match self.phase {
            Phase::Locating => Request::Locate,
            Phase::Opening => Request::Open { process_id: self.process_id },
            Phase::Walking => Request::Read { address: self.walk.at },
            Phase::Fetching { address } => Request::Read { address },
            Phase::Storing { address } => Request::Write { address, value: self.written_value() },
            Phase::Filling { base, slot, .. } => Request::Write {
                address: self.slots().slot_address(base, slot),
                value: self.written_value(),
            },
            Phase::Closing => Request::Close,
            Phase::Finished => Request::Done,
        }
    }

    /// Whether the session is over.
    pub fn finished(&self) -> (done: bool)
        ensures
            done == self.is_finished(),
    {
        match self.phase {
            Phase::Finished => true,
            _ => false,
        }
    }

    /// Whether the session is a liveness probe that is over: the only
    /// kind of session that decides whether the engine is connected.
    pub open spec fn decides_connection(&self) -> bool {
        self.job is Probe && self.is_finished()
    }

    /// The outcome, once it is decided: from the moment the session asks
    /// to close its handle, or ends without one.
    pub fn result(&self) -> (outcome: Option<Outcome>)
        ensures
            outcome == self.outcome,
    {
        self.outcome
    }

    fn written_value(&self) -> (value: i32)
        ensures
            value == self.job.value(),
    {
        match self.job {
            Job::Write { value } => value,
            Job::Freeze { sentinel, .. } => sentinel,
            _ => 0,
        }
    }

    fn slots(&self) -> (layout: SlotLayout)
        ensures
            layout == self.layout(),
    {
        match self.job {
            Job::Freeze { layout, .. } => layout,
            _ => SlotLayout { slot_count: 0, slot_stride: 0, slot_base_offset: 0 },
        }
    }

    fn close_with(&mut self, outcome: Outcome)
        ensures
            *final(self) == old(self).closing(outcome),
    {
        self.phase = Phase::Closing;
        self.outcome = Some(outcome);
    }

    fn end_with(&mut self, outcome: Outcome)
        ensures
            *final(self) == old(self).ended(outcome),
    {
        self.phase = Phase::Finished;
        self.outcome = Some(outcome);
    }

    fn arrive(&mut self)
        ensures
            *final(self) == old(self).arrived(),
    {
        match self.walk.current() {
            WalkState::NeedsRead(_) => {
                self.phase = Phase::Walking;
            },
            WalkState::Failed => {
                self.close_with(Err(EngineError::MemoryReadFailed));
            },
            WalkState::Resolved(address) => match self.job {
                Job::Probe => {
                    let target = TargetProcess {
                        process_id: self.process_id,
                        window_handle: self.window_handle,
                    };
                    self.close_with(Ok(Payload::Alive(target)));
                },
                Job::Read => {
                    self.phase = Phase::Fetching { address };
                },
                Job::Write { .. } => {
                    self.phase = Phase::Storing { address };
                },
                Job::Freeze { layout, .. } => {
                    if layout.slot_count == 0 {
                        self.close_with(Ok(Payload::Frozen { written: 0 }));
                    } else {
                        self.phase = Phase::Filling { base: address, slot: 0, written: 0 };
                    }
                },
            },
        }
    }

    /// Takes the host's reply to the pending request and returns the next
    /// request.
    pub fn advance(&mut self, reply: &Reply) -> (next: Request)
        ensures
            *final(self) == old(self).after(*reply),
            next == final(self).pending(),
            old(self).wf() ==> final(self).wf(),
    {
        match self.phase {
            Phase::Finished => {},
            Phase::Locating => match reply {
                Reply::Located(Some(target)) => {
                    self.process_id = target.process_id;
                    self.window_handle = target.window_handle;
                    self.phase = Phase::Opening;
                },
                Reply::Unsupported => {
                    self.end_with(Err(EngineError::UnsupportedPlatform));
                },
                _ => {
                    self.end_with(Err(EngineError::ProcessNotFound));
                },
            },
            Phase::Opening => match reply {
                Reply::Opened(true) => match self.job {
                    Job::Probe => {
                        let target = TargetProcess {
                            process_id: self.process_id,
                            window_handle: self.window_handle,
                        };
                        self.close_with(Ok(Payload::Alive(target)));
                    },
                    _ => {
                        self.arrive();
                    },
                },
                Reply::Unsupported => {
                    self.end_with(Err(EngineError::UnsupportedPlatform));
                },
                _ => {
                    self.end_with(Err(EngineError::HandleOpenFailed));
                },
            },
            Phase::Walking => {
                self.walk.feed_word(reply.read_word());
                self.arrive();
            },
            Phase::Fetching { .. } => match reply.read_word() {
                Some(word) => {
                    self.close_with(Ok(Payload::Value(to_signed(word))));
                },
                None => {
                    self.close_with(Err(EngineError::MemoryReadFailed));
                },
            },
            Phase::Storing { .. } => {
                if reply.has_written() {
                    let value = self.written_value();
                    self.close_with(Ok(Payload::Written(value)));
                } else {
                    self.close_with(Err(EngineError::MemoryWriteFailed));
                }
            },
            Phase::Filling { base, slot, written } => {
                let count = self.slots().slot_count;
                let written: u32 = if reply.has_written() && written < count {
                    written + 1
                } else {
                    written
                };
                if slot as u64 + 1 >= count as u64 {
                    self.close_with(Ok(Payload::Frozen { written }));
                } else {
                    self.phase = Phase::Filling { base, slot: slot + 1, written };
                }
            },
            Phase::Closing => {
                self.phase = Phase::Finished;
            },
        }
        self.request()
    }
}

/// Every reply to a session that is not over brings it strictly closer to
/// its end: whatever the host answers, a session makes no more requests
/// than its fuel says.
pub proof fn lemma_session_terminates(session: Session, reply: Reply)
    requires
        session.wf(),
        !session.is_finished(),
    ensures
        0 <= session.after(reply).fuel() < session.fuel(),
        session.after(reply).wf(),
{
    let next = session.after(reply);
    assert(session.walk.chain.offsets.len() == session.walk.offsets().len());
}

/// A handle comes into being only by a successful answer to `Open`.
pub proof fn lemma_handle_taken_by_open(session: Session, reply: Reply)
    requires
        !session.phase.holds_handle(),
        session.after(reply).phase.holds_handle(),
    ensures
        session.pending() == (Request::Open { process_id: session.process_id }),
        reply == Reply::Opened(true),
{
}

/// A session that holds a handle gives it up only by asking for `Close`,
/// and it is over only after that: no error on the way skips the release.
pub proof fn lemma_handle_released_by_close(session: Session, reply: Reply)
    requires
        session.phase.holds_handle(),
    ensures
        session.after(reply).phase.holds_handle() || session.pending() == Request::Close,
        session.after(reply).is_finished() ==> session.pending() == Request::Close,
        !session.after(reply).is_finished() ==> session.after(reply).phase.holds_handle(),
{
}

/// Once a session has fixed its outcome, no reply changes it.
pub proof fn lemma_outcome_is_final(session: Session, reply: Reply)
    requires
        session.wf(),
        session.outcome is Some,
    ensures
        session.after(reply).outcome == session.outcome,
{
}

/// A finished session asks for nothing and ignores every reply.
pub proof fn lemma_finished_is_inert(session: Session, reply: Reply)
    requires
        session.is_finished(),
    ensures
        session.pending() == Request::Done,
        session.after(reply) == session,
{
}

/// The session after a run of replies, each answering the request that
/// was pending when it came.
pub open spec fn after_all(session: Session, replies: Seq<Reply>) -> Session
    decreases replies.len(),
{
    if replies.len() == 0 {
        session
    } else {
        after_all(session.after(replies[0]), replies.drop_first())
    }
}

/// Handles granted minus handles given back over a run of replies: a
/// granted `Open` counts one up, a `Close` asked for counts one down.
pub open spec fn handle_balance(session: Session, replies: Seq<Reply>) -> int
    decreases replies.len(),
{
    if replies.len() == 0 {
        0
    } else {
        let step: int = if session.pending() is Open && replies[0] == Reply::Opened(true) {
            1
        } else if session.pending() is Close {
            -1
        } else {
            0
        };
        step + handle_balance(session.after(replies[0]), replies.drop_first())
    }
}

/// One if the session holds a handle, zero if not.
pub open spec fn handles_held(session: Session) -> int {
    if session.phase.holds_handle() {
        1
    } else {
        0
    }
}

/// Whatever the host answers, a session asks to close exactly the handles
/// it was granted: over any run of replies the balance is the difference
/// between what it holds after and what it held before. A session that
/// began without a handle and is over has therefore given back every
/// handle it got, and it never holds more than one.
pub proof fn lemma_handles_balance(session: Session, replies: Seq<Reply>)
    ensures
        handle_balance(session, replies) == handles_held(after_all(session, replies))
            - handles_held(session),
        !session.phase.holds_handle() && after_all(session, replies).is_finished()
            ==> handle_balance(session, replies) == 0,
    decreases replies.len(),
{
    if replies.len() > 0 {
        lemma_handles_balance(session.after(replies[0]), replies.drop_first());
    }
}

} // verus!
