use vstd::prelude::*;
use crate::engine::{chain_named, knows, ConnectionState, Engine, Status};
use crate::error::EngineError;
use crate::outcomes::{
    expected_memory, expected_outcome, expected_probe, expected_requests, lemma_probed,
    lemma_refused_is_silent, lemma_started, probe_requests,
};
use crate::parse::parse_i32_spec;
use crate::polling::FreezeTask;
use crate::session::{Job, Outcome, Payload, Request, Session};
use crate::simulation::{HostModel, SimulatedHost};

verus! {

/// What reading the chain called `name` comes to, for an engine in a
/// given state on a given host.
pub open spec fn read_outcome(engine: Engine, model: HostModel, name: Seq<char>) -> Outcome {
    match engine.target {
        None => Err(EngineError::ProcessNotFound),
        Some(target) => if !knows(engine.chains@, name) {
            Err(EngineError::InvalidInput)
        } else {
            expected_outcome(
                model,
                Job::Read,
                chain_named(engine.chains@, name),
                target.process_id,
            )
        },
    }
}

/// Everything that such a read asks of the host: nothing while the
/// engine is disconnected or for a name it does not know.
pub open spec fn read_requests(engine: Engine, model: HostModel, name: Seq<char>) -> Seq<Request> {
    match engine.target {
        None => Seq::empty(),
        Some(target) => if !knows(engine.chains@, name) {
            Seq::empty()
        } else {
            expected_requests(
                model,
                Job::Read,
                chain_named(engine.chains@, name),
                target.process_id,
            )
        },
    }
}

/// Whether writing `text` to the chain called `name` gets as far as the
/// host: the text is a number, the engine is connected, the name is known.
pub open spec fn write_reaches_host(engine: Engine, name: Seq<char>, text: Seq<char>) -> bool {
    parse_i32_spec(text) is Some && engine.target is Some && knows(engine.chains@, name)
}

/// What writing `text` to the chain called `name` comes to.
pub open spec fn write_outcome(
    engine: Engine,
    model: HostModel,
    name: Seq<char>,
    text: Seq<char>,
) -> Outcome {
    match parse_i32_spec(text) {
        None => Err(EngineError::InvalidInput),
        Some(value) => match engine.target {
            None => Err(EngineError::ProcessNotFound),
            Some(target) => if !knows(engine.chains@, name) {
                Err(EngineError::InvalidInput)
            } else {
                expected_outcome(
                    model,
                    Job::Write { value },
                    chain_named(engine.chains@, name),
                    target.process_id,
                )
            },
        },
    }
}

/// The memory that such a write leaves behind.
pub open spec fn write_memory(
    engine: Engine,
    model: HostModel,
    name: Seq<char>,
    text: Seq<char>,
) -> Map<u32, u8> {
    if write_reaches_host(engine, name, text) {
        expected_memory(
            model,
            Job::Write { value: parse_i32_spec(text).unwrap() },
            chain_named(engine.chains@, name),
            engine.target.unwrap().process_id,
        )
    } else {
        model.memory
    }
}

/// Everything that such a write asks of the host: nothing unless the
/// text is a number, the engine is connected and the name is known.
pub open spec fn write_requests(
    engine: Engine,
    model: HostModel,
    name: Seq<char>,
    text: Seq<char>,
) -> Seq<Request> {
    if write_reaches_host(engine, name, text) {
        expected_requests(
            model,
            Job::Write { value: parse_i32_spec(text).unwrap() },
            chain_named(engine.chains@, name),
            engine.target.unwrap().process_id,
        )
    } else {
        Seq::empty()
    }
}

impl SimulatedHost {
    /// The host as it looks for the window that `engine` is set up for.
    pub open spec fn seeking(model: HostModel, engine: Engine) -> HostModel {
        HostModel {
            sought_class: engine.window_class@,
            sought_title: engine.window_title@,
            ..model
        }
    }

    /// One liveness check of `engine` against this host, from the lookup
    /// of the window by the engine's class and title to the engine's new
    /// state.
    pub fn poll_connection(&mut self, engine: &mut Engine) -> (state: ConnectionState)
        ensures
            state == final(engine).connection_spec(),
            state == if expected_probe(Self::seeking(old(self)@, *old(engine))) is Ok {
                ConnectionState::Connected
            } else {
                ConnectionState::Disconnected
            },
            *final(engine) == (match expected_probe(Self::seeking(old(self)@, *old(engine))) {
                Ok(Payload::Alive(target)) => Engine {
                    target: Some(target),
                    status: Status::Connected { process_id: target.process_id },
                    ..*old(engine)
                },
                Ok(_) => *old(engine),
                Err(error) => Engine { target: None, status: Status::Failed(error), ..*old(engine) },
            }),
            final(self)@ == (HostModel {
                journal: old(self)@.journal + probe_requests(
                    Self::seeking(old(self)@, *old(engine)),
                ),
                ..Self::seeking(old(self)@, *old(engine))
            }),
    {
        self.seek(engine.window_class(), engine.window_title());
        let session = Session::probe();
        proof {
            lemma_probed(self@, session);
        }
        let finished = self.run(session);
        engine.poll_connection(&finished)
    }

    /// Reads the value behind the chain called `name`, for `engine`,
    /// against this host: the value, or nothing if any step failed. The
    /// engine keeps a value that was read and notes a failure in its
    /// status. While the engine is disconnected, or for a name it does not
    /// know, the host is not asked for anything.
    pub fn read_named(&mut self, engine: &mut Engine, name: &str) -> (value: Option<i32>)
        ensures
            value == match read_outcome(*old(engine), old(self)@, name@) {
                Ok(Payload::Value(v)) => Some(v),
                _ => None,
            },
            *final(engine) == (match read_outcome(*old(engine), old(self)@, name@) {
                Ok(Payload::Value(v)) => Engine { last_value: Some(v), ..*old(engine) },
                Ok(_) => *old(engine),
                Err(error) => Engine { status: Status::Failed(error), ..*old(engine) },
            }),
            final(self)@ == (HostModel {
                journal: old(self)@.journal + read_requests(*old(engine), old(self)@, name@),
                ..old(self)@
            }),
            old(engine).target is None || !knows(old(engine).chains@, name@) ==> final(self)@
                == old(self)@,
    {
        let session = engine.read_named(name);
        proof {
            assert(self@.journal + Seq::<Request>::empty() =~= self@.journal);
            if session.is_finished() {
                lemma_refused_is_silent(self@, session);
            } else {
                lemma_started(
                    self@,
                    session,
                    Job::Read,
                    chain_named(engine.chains@, name@),
                    engine.process_id_spec(),
                );
            }
        }
        let finished = self.run(session);
        engine.settle(&finished);
        match finished.result() {
            Some(Ok(Payload::Value(v))) => Some(v),
            _ => None,
        }
    }

    /// Writes the number that `text` writes to the value behind the chain
    /// called `name`, for `engine`, against this host. A text that is no
    /// number is `InvalidInput`, and the host is not asked for anything.
    pub fn write_named(&mut self, engine: &mut Engine, name: &str, text: &str) -> (r: Result<
        (),
        EngineError,
    >)
        ensures
            r == match write_outcome(*old(engine), old(self)@, name@, text@) {
                Ok(_) => Ok::<(), EngineError>(()),
                Err(error) => Err::<(), EngineError>(error),
            },
            *final(engine) == (match write_outcome(*old(engine), old(self)@, name@, text@) {
                Ok(Payload::Written(v)) => Engine {
                    last_value: Some(v),
                    status: Status::ValueWritten(v),
                    ..*old(engine)
                },
                Ok(_) => *old(engine),
                Err(error) => Engine { status: Status::Failed(error), ..*old(engine) },
            }),
            final(self)@ == (HostModel {
                memory: write_memory(*old(engine), old(self)@, name@, text@),
                journal: old(self)@.journal + write_requests(
                    *old(engine),
                    old(self)@,
                    name@,
                    text@,
                ),
                ..old(self)@
            }),
            !write_reaches_host(*old(engine), name@, text@) ==> final(self)@ == old(self)@,
    {
        let session = engine.write_named(name, text);
        proof {
            assert(self@.journal + Seq::<Request>::empty() =~= self@.journal);
            if session.is_finished() {
                lemma_refused_is_silent(self@, session);
            } else {
                lemma_started(
                    self@,
                    session,
                    Job::Write { value: parse_i32_spec(text@).unwrap() },
                    chain_named(engine.chains@, name@),
                    engine.process_id_spec(),
                );
            }
        }
        let finished = self.run(session);
        engine.settle(&finished);
        match finished.result() {
            Some(Ok(_)) => Ok(()),
            Some(Err(error)) => Err(error),
            None => Err(EngineError::InvalidInput),
        }
    }

    /// One wake of a freeze task against this host. With the flag set the
    /// task ends and the host is not asked for anything. Otherwise one
    /// cycle runs, and the task takes its outcome and goes back to sleep.
    /// Returns whether a cycle ran.
    pub fn freeze_cycle(&mut self, task: &mut FreezeTask, cancelled: bool) -> (ran: bool)
        ensures
            ran == (!cancelled && !old(task).has_exited()),
            !ran ==> final(self)@ == old(self)@ && *final(task) == old(task).woken(cancelled),
            ran ==> {
                &&& *final(task) == old(task).woken(false).settled(
                    Some(
                        expected_outcome(
                            old(self)@,
                            old(task).job(),
                            old(task).table.chain@,
                            old(task).process_id,
                        ),
                    ),
                )
                &&& final(self)@ == (HostModel {
                    memory: expected_memory(
                        old(self)@,
                        old(task).job(),
                        old(task).table.chain@,
                        old(task).process_id,
                    ),
                    journal: old(self)@.journal + expected_requests(
                        old(self)@,
                        old(task).job(),
                        old(task).table.chain@,
                        old(task).process_id,
                    ),
                    ..old(self)@
                })
            },
    {
        match task.wake(cancelled) {
            None => false,
            Some(session) => {
                proof {
                    lemma_started(
                        self@,
                        session,
                        old(task).job(),
                        old(task).table.chain@,
                        old(task).process_id,
                    );
                }
                let finished = self.run(session);
                task.settle(&finished);
                true
            },
        }
    }
}

} // verus!
