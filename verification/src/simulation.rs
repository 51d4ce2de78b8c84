use vstd::prelude::*;
use vstd::string::StringExecFns;
use crate::access::{unsigned_of, Transfer};
use crate::memory::{is_mapped, transfer_at, with_word, SimulatedMemory};
use crate::session::{lemma_session_terminates, Reply, Request, Session, TargetProcess};

verus! {

/// A window of a simulated host as a mathematical value.
pub struct WindowModel {
    pub class: Seq<char>,
    pub title: Seq<char>,
    pub owner: TargetProcess,
}

/// A simulated host as a mathematical value.
pub struct HostModel {
    pub window: Option<WindowModel>,
    /// The class and title that a lookup asks for.
    pub sought_class: Seq<char>,
    pub sought_title: Seq<char>,
    pub running: Option<u32>,
    pub supported: bool,
    pub handle_open: bool,
    pub memory: Map<u32, u8>,
    pub journal: Seq<Request>,
}

/// What a lookup finds: the owner of the window, if there is one and both
/// its class and its title are exactly those asked for.
pub open spec fn found(model: HostModel) -> Option<TargetProcess> {
    match model.window {
        Some(window) => if window.class == model.sought_class && window.title
            == model.sought_title {
            Some(window.owner)
        } else {
            None
        },
        None => None,
    }
}

/// What a simulated host answers to a request.
pub open spec fn reply_to(model: HostModel, request: Request) -> Reply {
    if request is Done {
        Reply::Closed
    } else if !model.supported {
        Reply::Unsupported
    } else {
        match request {
            Request::Locate => Reply::Located(found(model)),
            Request::Open { process_id } => Reply::Opened(
                model.running == Some(process_id) && !model.handle_open,
            ),
            Request::Read { address } => Reply::Read(
                if model.handle_open {
                    transfer_at(model.memory, address)
                } else {
                    Transfer { moved: 0, word: 0 }
                },
            ),
            Request::Write { address, value } => Reply::Wrote(
                if model.handle_open && is_mapped(model.memory, address) {
                    4
                } else {
                    0
                },
            ),
            _ => Reply::Closed,
        }
    }
}

/// A simulated host after it has served a request.
pub open spec fn after_request(model: HostModel, request: Request) -> HostModel {
    if request is Done {
        model
    } else {
        let noted = HostModel { journal: model.journal.push(request), ..model };
        if !model.supported {
            noted
        } else {
            match request {
                Request::Open { process_id } => HostModel {
                    handle_open: model.handle_open || model.running == Some(process_id),
                    ..noted
                },
                Request::Write { address, value } => if model.handle_open {
                    HostModel {
                        memory: with_word(model.memory, address, unsigned_of(value)),
                        ..noted
                    }
                } else {
                    noted
                },
                Request::Close => HostModel { handle_open: false, ..noted },
                _ => noted,
            }
        }
    }
}

/// A session and a simulated host after the host has served the session
/// to its end.
pub open spec fn driven(model: HostModel, session: Session) -> (HostModel, Session)
    decreases session.fuel(),
    when session.wf()
    via driven_decreases
{
    if session.is_finished() {
        (model, session)
    } else {
        let request = session.pending();
        driven(after_request(model, request), session.after(reply_to(model, request)))
    }
}

#[via_fn]
proof fn driven_decreases(model: HostModel, session: Session) {
    if !session.is_finished() {
        lemma_session_terminates(session, reply_to(model, session.pending()));
    }
}

/// A top-level window of a simulated host.
#[derive(Debug)]
pub struct SimulatedWindow {
    pub class: String,
    pub title: String,
    pub owner: TargetProcess,
}

impl View for SimulatedWindow {
    type V = WindowModel;

    open spec fn view(&self) -> WindowModel {
        WindowModel { class: self.class@, title: self.title@, owner: self.owner }
    }
}

/// A stand-in for the operating system and one target process.
///
/// It has a window or none, a process that can be opened or none, and a
/// memory. It hands out one handle at a time, serves reads and writes only
/// through an open handle, and notes every request it serves.
#[derive(Debug)]
pub struct SimulatedHost {
    /// The one top-level window, if there is one.
    pub window: Option<SimulatedWindow>,
    /// The class and title that a lookup asks for.
    pub sought_class: String,
    pub sought_title: String,
    /// The one process that can be opened.
    pub running: Option<u32>,
    /// Whether the host can reach other processes at all.
    pub supported: bool,
    pub handle_open: bool,
    pub memory: SimulatedMemory,
    /// Every request served, in order.
    pub journal: Vec<Request>,
}

impl View for SimulatedHost {
    type V = HostModel;

    open spec fn view(&self) -> HostModel {
        HostModel {
            window: match self.window {
                Some(window) => Some(window@),
                None => None,
            },
            sought_class: self.sought_class@,
            sought_title: self.sought_title@,
            running: self.running,
            supported: self.supported,
            handle_open: self.handle_open,
            memory: self.memory@,
            journal: self.journal@,
        }
    }
}

impl SimulatedHost {
    /// A host with no window, no process and nothing mapped.
    pub fn new() -> (host: SimulatedHost)
        ensures
            host@ == (HostModel {
                window: None,
                sought_class: Seq::empty(),
                sought_title: Seq::empty(),
                running: None,
                supported: true,
                handle_open: false,
                memory: Map::empty(),
                journal: Seq::empty(),
            }),
    {
        SimulatedHost {
            window: None,
            sought_class: String::new(),
            sought_title: String::new(),
            running: None,
            supported: true,
            handle_open: false,
            memory: SimulatedMemory::new(),
            journal: Vec::new(),
        }
    }

    /// A host that can reach no process: it answers every request with
    /// `Unsupported`.
    pub fn unsupported() -> (host: SimulatedHost)
        ensures
            host@ == (HostModel {
                window: None,
                sought_class: Seq::empty(),
                sought_title: Seq::empty(),
                running: None,
                supported: false,
                handle_open: false,
                memory: Map::empty(),
                journal: Seq::empty(),
            }),
    {
        SimulatedHost {
            window: None,
            sought_class: String::new(),
            sought_title: String::new(),
            running: None,
            supported: false,
            handle_open: false,
            memory: SimulatedMemory::new(),
            journal: Vec::new(),
        }
    }

    /// Lets a process with this identifier run, with a window of this
    /// class and title open.
    pub fn launch(&mut self, class: &str, title: &str, process_id: u32, window_handle: u64)
        ensures
            final(self)@ == (HostModel {
                window: Some(
                    WindowModel {
                        class: class@,
                        title: title@,
                        owner: TargetProcess { process_id, window_handle },
                    },
                ),
                running: Some(process_id),
                ..old(self)@
            }),
    {
        self.window = Some(
            SimulatedWindow {
                class: String::from_str(class),
                title: String::from_str(title),
                owner: TargetProcess { process_id, window_handle },
            },
        );
        self.running = Some(process_id);
    }

    /// Sets the class and title that a lookup asks for.
    pub fn seek(&mut self, class: &str, title: &str)
        ensures
            final(self)@ == (HostModel {
                sought_class: class@,
                sought_title: title@,
                ..old(self)@
            }),
    {
        self.sought_class = String::from_str(class);
        self.sought_title = String::from_str(title);
    }

    /// What a lookup finds at present.
    pub fn locate(&self) -> (target: Option<TargetProcess>)
        ensures
            target == found(self@),
    {
        match &self.window {
            Some(window) => {
                if window.class == self.sought_class && window.title == self.sought_title {
                    Some(window.owner)
                } else {
                    None
                }
            },
            None => None,
        }
    }

    /// Ends the process: its window is gone and it cannot be opened. Its
    /// memory stays as it was, out of reach.
    pub fn terminate(&mut self)
        ensures
            final(self)@ == (HostModel { window: None, running: None, ..old(self)@ }),
    {
        self.window = None;
        self.running = None;
    }

    /// The number of requests served so far.
    pub fn calls(&self) -> (n: usize)
        ensures
            n == self@.journal.len(),
    {
        self.journal.len()
    }

    /// Serves one request.
    pub fn perform(&mut self, request: &Request) -> (reply: Reply)
        ensures
            reply == reply_to(old(self)@, *request),
            final(self)@ == after_request(old(self)@, *request),
    {
        match request {
            Request::Done => {
                return Reply::Closed;
            },
            _ => {},
        }
        self.journal.push(*request);
        if !self.supported {
            return Reply::Unsupported;
        }
        match request {
            Request::Locate => Reply::Located(self.locate()),
            Request::Open { process_id } => {
                let granted = !self.handle_open && match self.running {
                    Some(id) => id == *process_id,
                    None => false,
                };
                if granted {
                    self.handle_open = true;
                }
                Reply::Opened(granted)
            },
            Request::Read { address } => {
                if self.handle_open {
                    Reply::Read(self.memory.read(*address))
                } else {
                    Reply::Read(Transfer::failed())
                }
            },
            Request::Write { address, value } => {
                if self.handle_open {
                    Reply::Wrote(self.memory.write(*address, *value))
                } else {
                    Reply::Wrote(0)
                }
            },
            Request::Close => {
                self.handle_open = false;
                Reply::Closed
            },
            Request::Done => Reply::Closed,
        }
    }

    /// Serves a session until it is over and hands it back.
    pub fn run(&mut self, session: Session) -> (finished: Session)
        requires
            session.wf(),
        ensures
            (final(self)@, finished) == driven(old(self)@, session),
            finished.is_finished(),
            finished.wf(),
    {
        let mut session = session;
        let ghost start = session;
        while !session.finished()
            invariant
                session.wf(),
                driven(self@, session) == driven(old(self)@, start),
            decreases session.fuel(),
        {
            let request = session.request();
            let reply = self.perform(&request);
            proof {
                lemma_session_terminates(session, reply);
            }
            session.advance(&reply);
        }
        session
    }
}

} // verus!
