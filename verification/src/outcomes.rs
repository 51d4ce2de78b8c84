use vstd::prelude::*;
use crate::access::{signed_of, unsigned_of};
use crate::chain::{slot_address_at, wrap, ChainModel, SlotLayout};
use crate::error::EngineError;
use crate::memory::{
    is_mapped, lemma_write_elsewhere, lemma_written_word, resolve_in, transfer_at, walk_in,
    with_word, word_at,
};
use crate::resolve::WalkState;
use crate::session::{
    lemma_session_terminates, Job, Outcome, Payload, Phase, Reply, Request, Session,
    TargetProcess,
};
use crate::simulation::{after_request, driven, found, reply_to, HostModel};

verus! {

/// The address of slot `slot` of a table whose chain resolved to `base`.
pub open spec fn slot_at(layout: SlotLayout, base: u32, slot: int) -> u32 {
    slot_address_at(base, layout.slot_base_offset, layout.slot_stride, slot)
}

/// Memory after the sentinel has been written to the slots from `slot`
/// on, in index order. A slot that is not mapped is passed over.
pub open spec fn filled(
    mem: Map<u32, u8>,
    layout: SlotLayout,
    base: u32,
    sentinel: i32,
    slot: int,
) -> Map<u32, u8>
    decreases layout.slot_count - slot,
{
    if slot < 0 || slot >= layout.slot_count {
        mem
    } else {
        filled(
            with_word(mem, slot_at(layout, base, slot), unsigned_of(sentinel)),
            layout,
            base,
            sentinel,
            slot + 1,
        )
    }
}

/// How many of the slots from `slot` on are mapped, and so take the
/// sentinel.
pub open spec fn taken(mem: Map<u32, u8>, layout: SlotLayout, base: u32, slot: int) -> int
    decreases layout.slot_count - slot,
{
    if slot < 0 || slot >= layout.slot_count {
        0
    } else {
        (if is_mapped(mem, slot_at(layout, base, slot)) {
            1int
        } else {
            0int
        }) + taken(mem, layout, base, slot + 1)
    }
}

/// The writes of a fill from `slot` on: one per slot, in index order.
pub open spec fn fill_requests(layout: SlotLayout, base: u32, sentinel: i32, slot: int) -> Seq<
    Request,
>
    decreases layout.slot_count - slot,
{
    if slot < 0 || slot >= layout.slot_count {
        Seq::empty()
    } else {
        seq![Request::Write { address: slot_at(layout, base, slot), value: sentinel }]
            + fill_requests(layout, base, sentinel, slot + 1)
    }
}

/// The reads of a walk from `at` along `offsets`: one per offset, each at
/// the address the one before led to, and none after one that fails.
pub open spec fn walk_requests(mem: Map<u32, u8>, at: u32, offsets: Seq<u32>) -> Seq<Request>
    decreases offsets.len(),
{
    if offsets.len() == 0 {
        Seq::empty()
    } else {
        seq![Request::Read { address: at }] + (match word_at(mem, at) {
            None => Seq::empty(),
            Some(pointer) => walk_requests(mem, wrap(pointer + offsets[0]), offsets.drop_first()),
        })
    }
}

/// What a job comes to in a given memory once its chain has been walked,
/// with a handle open: `resolved` is where the chain led, or nothing if a
/// pointer on the way could not be read.
pub open spec fn job_outcome(
    mem: Map<u32, u8>,
    job: Job,
    target: TargetProcess,
    resolved: Option<u32>,
) -> Outcome {
    match resolved {
        None => Err(EngineError::MemoryReadFailed),
        Some(address) => match job {
            Job::Probe => Ok(Payload::Alive(target)),
            Job::Read => match word_at(mem, address) {
                Some(word) => Ok(Payload::Value(signed_of(word))),
                None => Err(EngineError::MemoryReadFailed),
            },
            Job::Write { value } => if is_mapped(mem, address) {
                Ok(Payload::Written(value))
            } else {
                Err(EngineError::MemoryWriteFailed)
            },
            Job::Freeze { layout, sentinel } => Ok(
                Payload::Frozen { written: taken(mem, layout, address, 0) as u32 },
            ),
        },
    }
}

/// The memory that a job leaves behind.
pub open spec fn job_memory(mem: Map<u32, u8>, job: Job, resolved: Option<u32>) -> Map<u32, u8> {
    match (job, resolved) {
        (Job::Write { value }, Some(address)) => with_word(mem, address, unsigned_of(value)),
        (Job::Freeze { layout, sentinel }, Some(address)) => filled(
            mem,
            layout,
            address,
            sentinel,
            0,
        ),
        _ => mem,
    }
}

/// The transfers that a job asks for at the address its chain led to.
pub open spec fn job_requests(job: Job, resolved: Option<u32>) -> Seq<Request> {
    match resolved {
        None => Seq::empty(),
        Some(address) => match job {
            Job::Probe => Seq::empty(),
            Job::Read => seq![Request::Read { address }],
            Job::Write { value } => seq![Request::Write { address, value }],
            Job::Freeze { layout, sentinel } => fill_requests(layout, address, sentinel, 0),
        },
    }
}

/// Whether a simulated host grants a handle to process `process_id`.
pub open spec fn grants(model: HostModel, process_id: u32) -> bool {
    model.supported && model.running == Some(process_id) && !model.handle_open
}

/// What a session that starts by opening process `process_id` comes to on
/// a simulated host.
pub open spec fn expected_outcome(
    model: HostModel,
    job: Job,
    chain: ChainModel,
    process_id: u32,
) -> Outcome {
    if !model.supported {
        Err(EngineError::UnsupportedPlatform)
    } else if !grants(model, process_id) {
        Err(EngineError::HandleOpenFailed)
    } else {
        job_outcome(
            model.memory,
            job,
            TargetProcess { process_id, window_handle: 0 },
            resolve_in(model.memory, chain),
        )
    }
}

/// The memory that such a session leaves behind.
pub open spec fn expected_memory(
    model: HostModel,
    job: Job,
    chain: ChainModel,
    process_id: u32,
) -> Map<u32, u8> {
    if grants(model, process_id) {
        job_memory(model.memory, job, resolve_in(model.memory, chain))
    } else {
        model.memory
    }
}

/// Everything that such a session asks of the host, in order: to open the
/// process and then, if that is granted, the reads of the walk, the job's
/// own transfers, and the release of the handle.
pub open spec fn expected_requests(
    model: HostModel,
    job: Job,
    chain: ChainModel,
    process_id: u32,
) -> Seq<Request> {
    if grants(model, process_id) {
        seq![Request::Open { process_id }] + walk_requests(
            model.memory,
            chain.base_address,
            chain.offsets,
        ) + job_requests(job, resolve_in(model.memory, chain)) + seq![Request::Close]
    } else {
        seq![Request::Open { process_id }]
    }
}

/// What a liveness probe comes to on a simulated host.
pub open spec fn expected_probe(model: HostModel) -> Outcome {
    if !model.supported {
        Err(EngineError::UnsupportedPlatform)
    } else {
        match found(model) {
            None => Err(EngineError::ProcessNotFound),
            Some(target) => if grants(model, target.process_id) {
                Ok(Payload::Alive(target))
            } else {
                Err(EngineError::HandleOpenFailed)
            },
        }
    }
}

/// Everything that a liveness probe asks of the host: the lookup, then to
/// open what it found, then to release what it opened.
pub open spec fn probe_requests(model: HostModel) -> Seq<Request> {
    if !model.supported {
        seq![Request::Locate]
    } else {
        match found(model) {
            None => seq![Request::Locate],
            Some(target) => if grants(model, target.process_id) {
                seq![
                    Request::Locate,
                    Request::Open { process_id: target.process_id },
                    Request::Close,
                ]
            } else {
                seq![Request::Locate, Request::Open { process_id: target.process_id }]
            },
        }
    }
}

/// Whether `result` is `session` over with `outcome`, on a host that was
/// `model` and has since served exactly `requests`, has `memory`, and is
/// otherwise as it was but for the handle.
pub open spec fn ends_with(
    result: (HostModel, Session),
    model: HostModel,
    session: Session,
    outcome: Outcome,
    memory: Map<u32, u8>,
    requests: Seq<Request>,
) -> bool {
    &&& result.1.is_finished()
    &&& result.1.wf()
    &&& result.1.job == session.job
    &&& result.1.outcome == Some(outcome)
    &&& result.0.memory == memory
    &&& result.0.journal == model.journal + requests
    &&& result.0.window == model.window
    &&& result.0.sought_class == model.sought_class
    &&& result.0.sought_title == model.sought_title
    &&& result.0.running == model.running
    &&& result.0.supported == model.supported
}

/// A session that only has its handle left to release releases it and is
/// over, with the outcome it had.
pub proof fn lemma_closing(model: HostModel, session: Session)
    requires
        session.wf(),
        session.phase is Closing,
        model.supported,
    ensures
        ends_with(
            driven(model, session),
            model,
            session,
            session.outcome.unwrap(),
            model.memory,
            seq![Request::Close],
        ),
        !driven(model, session).0.handle_open,
{
    reveal_with_fuel(driven, 3);
    assert(model.journal.push(Request::Close) =~= model.journal + seq![Request::Close]);
}

/// The number of slots that take the sentinel is at most the number of
/// slots that are left.
pub proof fn lemma_taken_bound(mem: Map<u32, u8>, layout: SlotLayout, base: u32, slot: int)
    requires
        0 <= slot <= layout.slot_count,
    ensures
        0 <= taken(mem, layout, base, slot) <= layout.slot_count - slot,
    decreases layout.slot_count - slot,
{
    if slot < layout.slot_count {
        lemma_taken_bound(mem, layout, base, slot + 1);
    }
}

/// Writing a word maps nothing and unmaps nothing, so the slots that take
/// the sentinel are the same before and after.
pub proof fn lemma_taken_after_write(
    mem: Map<u32, u8>,
    address: u32,
    word: u32,
    layout: SlotLayout,
    base: u32,
    slot: int,
)
    ensures
        taken(with_word(mem, address, word), layout, base, slot) == taken(mem, layout, base, slot),
    decreases layout.slot_count - slot,
{
    if 0 <= slot < layout.slot_count {
        lemma_taken_after_write(mem, address, word, layout, base, slot + 1);
        if is_mapped(mem, address) {
            lemma_written_word(mem, address, word);
        }
    }
}

/// A freeze that stands at slot `slot` writes the sentinel to that slot
/// and to every later one, counts those that took it, and closes.
pub proof fn lemma_filling(model: HostModel, session: Session)
    requires
        session.wf(),
        session.phase is Filling,
        model.supported,
        model.handle_open,
    ensures
        ({
            let layout = session.layout();
            let base = session.phase->Filling_base;
            let slot = session.phase->Filling_slot as int;
            let written = session.phase->Filling_written;
            let sentinel = session.job.value();
            &&& ends_with(
                driven(model, session),
                model,
                session,
                Ok(
                    Payload::Frozen {
                        written: (written + taken(model.memory, layout, base, slot)) as u32,
                    },
                ),
                filled(model.memory, layout, base, sentinel, slot),
                fill_requests(layout, base, sentinel, slot) + seq![Request::Close],
            )
            &&& !driven(model, session).0.handle_open
        }),
    decreases session.layout().slot_count - session.phase->Filling_slot,
{
    let layout = session.layout();
    let base = session.phase->Filling_base;
    let slot = session.phase->Filling_slot as int;
    let written = session.phase->Filling_written;
    let sentinel = session.job.value();
    let request = session.pending();
    let reply = reply_to(model, request);
    let next_model = after_request(model, request);
    let next = session.after(reply);
    lemma_session_terminates(session, reply);
    assert(driven(model, session) == driven(next_model, next));
    let address = slot_at(layout, base, slot);
    assert(request == Request::Write { address, value: sentinel });
    assert(next_model.memory == with_word(model.memory, address, unsigned_of(sentinel)));
    lemma_taken_bound(model.memory, layout, base, slot);
    lemma_taken_bound(model.memory, layout, base, slot + 1);
    lemma_taken_after_write(model.memory, address, unsigned_of(sentinel), layout, base, slot + 1);
    let mapped = is_mapped(model.memory, address);
    assert(reply == Reply::Wrote(if mapped { 4usize } else { 0usize }));
    assert(filled(model.memory, layout, base, sentinel, slot) == filled(
        next_model.memory,
        layout,
        base,
        sentinel,
        slot + 1,
    ));
    assert(taken(model.memory, layout, base, slot) == (if mapped { 1int } else { 0int }) + taken(
        model.memory,
        layout,
        base,
        slot + 1,
    ));
    let later = fill_requests(layout, base, sentinel, slot + 1);
    assert(fill_requests(layout, base, sentinel, slot) == seq![request] + later);
    assert(model.journal.push(request) + (later + seq![Request::Close]) =~= model.journal + (
    seq![request] + later + seq![Request::Close]));
    let counted: u32 = if mapped { (written + 1) as u32 } else { written };
    if slot + 1 >= layout.slot_count {
        assert(taken(model.memory, layout, base, slot + 1) == 0);
        assert(filled(next_model.memory, layout, base, sentinel, slot + 1) == next_model.memory);
        assert(later =~= Seq::<Request>::empty());
        assert(later + seq![Request::Close] =~= seq![Request::Close]);
        assert(next == session.closing(Ok(Payload::Frozen { written: counted })));
        lemma_closing(next_model, next);
    } else {
        assert(next == Session {
            phase: Phase::Filling { base, slot: (slot + 1) as u32, written: counted },
            ..session
        });
        lemma_filling(next_model, next);
    }
}

/// A session whose chain has just resolved to `address` does its job
/// there and closes.
pub proof fn lemma_resolved(model: HostModel, before: Session, address: u32)
    requires
        before.walk.wf(),
        before.walk.state() == WalkState::Resolved(address),
        before.outcome is None,
        !(before.job is Probe),
        model.supported,
        model.handle_open,
    ensures
        before.arrived().wf(),
        ends_with(
            driven(model, before.arrived()),
            model,
            before,
            job_outcome(model.memory, before.job, before.target(), Some(address)),
            job_memory(model.memory, before.job, Some(address)),
            job_requests(before.job, Some(address)) + seq![Request::Close],
        ),
        !driven(model, before.arrived()).0.handle_open,
{
    let session = before.arrived();
    match before.job {
        Job::Freeze { layout, sentinel } => {
            if layout.slot_count == 0 {
                lemma_closing(model, session);
                assert(fill_requests(layout, address, sentinel, 0) =~= Seq::<Request>::empty());
                assert(job_requests(before.job, Some(address)) + seq![Request::Close]
                    =~= seq![Request::Close]);
            } else {
                lemma_filling(model, session);
            }
        },
        _ => {
            let request = session.pending();
            let reply = reply_to(model, request);
            let next_model = after_request(model, request);
            let next = session.after(reply);
            lemma_session_terminates(session, reply);
            assert(driven(model, session) == driven(next_model, next));
            lemma_closing(next_model, next);
            assert(job_requests(before.job, Some(address)) =~= seq![request]);
            assert(model.journal.push(request) + seq![Request::Close] =~= model.journal + (
            seq![request] + seq![Request::Close]));
        },
    }
}

/// A session in the middle of its walk comes to what the rest of the
/// chain and then the job come to in the host's memory.
pub proof fn lemma_walking(model: HostModel, session: Session)
    requires
        session.wf(),
        session.phase is Walking,
        model.supported,
        model.handle_open,
    ensures
        ({
            let rest = session.walk.offsets().skip(session.walk.position as int);
            let resolved = walk_in(model.memory, session.walk.at, rest);
            &&& ends_with(
                driven(model, session),
                model,
                session,
                job_outcome(model.memory, session.job, session.target(), resolved),
                job_memory(model.memory, session.job, resolved),
                walk_requests(model.memory, session.walk.at, rest) + job_requests(
                    session.job,
                    resolved,
                ) + seq![Request::Close],
            )
            &&& !driven(model, session).0.handle_open
        }),
    decreases session.walk.offsets().len() - session.walk.position,
{
    let offsets = session.walk.offsets();
    let position = session.walk.position as int;
    let rest = offsets.skip(position);
    assert(rest.len() > 0);
    assert(rest[0] == offsets[position]);
    assert(rest.drop_first() =~= offsets.skip(position + 1));
    assert(session.walk.chain.offsets.len() == offsets.len());
    let request = session.pending();
    let reply = reply_to(model, request);
    let next_model = after_request(model, request);
    let next = session.after(reply);
    lemma_session_terminates(session, reply);
    assert(driven(model, session) == driven(next_model, next));
    assert(reply.word() == word_at(model.memory, session.walk.at));
    let moved = Session { walk: session.walk.fed(reply.word()), ..session };
    assert(next == moved.arrived());
    assert(next_model.memory == model.memory);
    let resolved = walk_in(model.memory, session.walk.at, rest);
    let reads = walk_requests(model.memory, session.walk.at, rest);
    let close = seq![Request::Close];
    match reply.word() {
        None => {
            assert(resolved is None);
            assert(moved.walk.state() is Failed);
            assert(next == moved.closing(Err(EngineError::MemoryReadFailed)));
            lemma_closing(next_model, next);
            assert(reads =~= seq![request]);
            assert(job_requests(session.job, resolved) =~= Seq::<Request>::empty());
            assert(model.journal.push(request) + close =~= model.journal + (reads + job_requests(
                session.job,
                resolved,
            ) + close));
        },
        Some(pointer) => {
            let onward = wrap(pointer + offsets[position]);
            assert(moved.walk.at == onward);
            assert(moved.walk.position == position + 1);
            assert(resolved == walk_in(model.memory, onward, offsets.skip(position + 1)));
            let later = walk_requests(model.memory, onward, offsets.skip(position + 1));
            assert(reads == seq![request] + later);
            let job = job_requests(session.job, resolved);
            assert(model.journal.push(request) + (later + job + close) =~= model.journal + (reads
                + job + close));
            if position + 1 < offsets.len() {
                assert(moved.walk.state() is NeedsRead);
                assert(next == Session { phase: Phase::Walking, ..moved });
                lemma_walking(next_model, next);
            } else {
                assert(offsets.skip(position + 1).len() == 0);
                assert(resolved == Some(onward));
                assert(later =~= Seq::<Request>::empty());
                assert(later + job + close =~= job + close);
                assert(moved.walk.state() == WalkState::Resolved(onward));
                lemma_resolved(next_model, moved, onward);
            }
        },
    }
}

/// What a session comes to that starts by opening a process: the error of
/// a host that cannot open it, or else what the chain and the job come to
/// in the host's memory. The host is asked for exactly the expected
/// requests, and a handle that was granted is released again.
pub proof fn lemma_started(
    model: HostModel,
    session: Session,
    job: Job,
    chain: ChainModel,
    process_id: u32,
)
    requires
        session.wf(),
        session.is_start(job, chain, process_id),
        !(job is Probe),
    ensures
        ends_with(
            driven(model, session),
            model,
            session,
            expected_outcome(model, job, chain, process_id),
            expected_memory(model, job, chain, process_id),
            expected_requests(model, job, chain, process_id),
        ),
        driven(model, session).0.handle_open == model.handle_open,
{
    let request = session.pending();
    let reply = reply_to(model, request);
    let next_model = after_request(model, request);
    let next = session.after(reply);
    lemma_session_terminates(session, reply);
    assert(driven(model, session) == driven(next_model, next));
    assert(request == Request::Open { process_id });
    if grants(model, process_id) {
        assert(chain.offsets.skip(0) =~= chain.offsets);
        assert(next == session.arrived());
        let resolved = resolve_in(model.memory, chain);
        let reads = walk_requests(model.memory, chain.base_address, chain.offsets);
        let tail = job_requests(job, resolved) + seq![Request::Close];
        if session.walk.state() is NeedsRead {
            lemma_walking(next_model, next);
            assert(model.journal.push(request) + (reads + job_requests(job, resolved) + seq![
                Request::Close,
            ]) =~= model.journal + expected_requests(model, job, chain, process_id));
        } else {
            lemma_resolved(next_model, session, chain.base_address);
            assert(reads =~= Seq::<Request>::empty());
            assert(model.journal.push(request) + tail =~= model.journal + expected_requests(
                model,
                job,
                chain,
                process_id,
            ));
        }
    } else {
        reveal_with_fuel(driven, 2);
        assert(model.journal.push(request) =~= model.journal + seq![request]);
    }
}

/// What a liveness probe comes to: the window's owner if the window
/// exists and its process can be opened, and the reason if not. The
/// handle it opened is released again.
pub proof fn lemma_probed(model: HostModel, session: Session)
    requires
        session.wf(),
        session.is_probe(),
    ensures
        ends_with(
            driven(model, session),
            model,
            session,
            expected_probe(model),
            model.memory,
            probe_requests(model),
        ),
        driven(model, session).0.handle_open == model.handle_open,
{
    reveal_with_fuel(driven, 5);
    let after = driven(model, session).0.journal;
    assert(after =~= model.journal + probe_requests(model));
}

/// A session that was refused leaves the host untouched: not one request
/// is made.
pub proof fn lemma_refused_is_silent(model: HostModel, session: Session)
    requires
        session.wf(),
        session.is_finished(),
    ensures
        driven(model, session) == (model, session),
{
}

/// A walk asks for at most one read per offset; for exactly one per
/// offset if it resolves, and for fewer only if its last read failed.
pub proof fn lemma_walk_requests_count(mem: Map<u32, u8>, at: u32, offsets: Seq<u32>)
    ensures
        walk_requests(mem, at, offsets).len() <= offsets.len(),
        walk_in(mem, at, offsets) is Some ==> walk_requests(mem, at, offsets).len()
            == offsets.len(),
        offsets.len() == 0 ==> walk_in(mem, at, offsets) == Some(at),
        forall|i: int|
            0 <= i < walk_requests(mem, at, offsets).len() ==> (#[trigger] walk_requests(
                mem,
                at,
                offsets,
            )[i]) is Read,
    decreases offsets.len(),
{
    if offsets.len() > 0 {
        match word_at(mem, at) {
            None => {},
            Some(pointer) => {
                lemma_walk_requests_count(mem, wrap(pointer + offsets[0]), offsets.drop_first());
            },
        }
    }
}

/// Whether two words at these addresses share no byte.
pub open spec fn apart(a: u32, b: u32) -> bool {
    a + 4 <= b || b + 4 <= a
}

/// A fill leaves every word alone that shares no byte with a slot it
/// writes.
pub proof fn lemma_filled_elsewhere(
    mem: Map<u32, u8>,
    layout: SlotLayout,
    base: u32,
    sentinel: i32,
    slot: int,
    other: u32,
)
    requires
        0 <= slot,
        forall|j: int|
            slot <= j < layout.slot_count ==> apart(#[trigger] slot_at(layout, base, j), other),
    ensures
        transfer_at(filled(mem, layout, base, sentinel, slot), other) == transfer_at(mem, other),
    decreases layout.slot_count - slot,
{
    if slot < layout.slot_count {
        let address = slot_at(layout, base, slot);
        let next = with_word(mem, address, unsigned_of(sentinel));
        lemma_write_elsewhere(mem, address, unsigned_of(sentinel), other);
        lemma_filled_elsewhere(next, layout, base, sentinel, slot + 1, other);
    }
}

/// After a fill, a slot that is mapped and shares no byte with another
/// slot holds the sentinel.
pub proof fn lemma_filled_slot(
    mem: Map<u32, u8>,
    layout: SlotLayout,
    base: u32,
    sentinel: i32,
    slot: int,
    i: int,
)
    requires
        0 <= slot <= i < layout.slot_count,
        is_mapped(mem, slot_at(layout, base, i)),
        forall|j: int|
            slot <= j < layout.slot_count && j != i ==> apart(
                #[trigger] slot_at(layout, base, j),
                slot_at(layout, base, i),
            ),
    ensures
        word_at(filled(mem, layout, base, sentinel, slot), slot_at(layout, base, i)) == Some(
            unsigned_of(sentinel),
        ),
    decreases layout.slot_count - slot,
{
    let address = slot_at(layout, base, slot);
    let target = slot_at(layout, base, i);
    let next = with_word(mem, address, unsigned_of(sentinel));
    if slot == i {
        lemma_written_word(mem, address, unsigned_of(sentinel));
        lemma_filled_elsewhere(next, layout, base, sentinel, slot + 1, target);
    } else {
        if is_mapped(mem, address) {
            lemma_written_word(mem, address, unsigned_of(sentinel));
        }
        assert(is_mapped(next, target) == is_mapped(mem, target));
        lemma_filled_slot(next, layout, base, sentinel, slot + 1, i);
    }
}

/// Every slot mapped means every slot counted.
pub proof fn lemma_all_taken(mem: Map<u32, u8>, layout: SlotLayout, base: u32, slot: int)
    requires
        0 <= slot <= layout.slot_count,
        forall|j: int|
            slot <= j < layout.slot_count ==> is_mapped(mem, #[trigger] slot_at(layout, base, j)),
    ensures
        taken(mem, layout, base, slot) == layout.slot_count - slot,
    decreases layout.slot_count - slot,
{
    if slot < layout.slot_count {
        assert(is_mapped(mem, slot_at(layout, base, slot)));
        lemma_all_taken(mem, layout, base, slot + 1);
    }
}

/// One freeze cycle over a table whose slots are all mapped and share no
/// byte with each other leaves the sentinel in every slot and counts them
/// all.
pub proof fn lemma_cycle_fills_table(
    mem: Map<u32, u8>,
    layout: SlotLayout,
    base: u32,
    sentinel: i32,
)
    requires
        forall|j: int|
            0 <= j < layout.slot_count ==> is_mapped(mem, #[trigger] slot_at(layout, base, j)),
        forall|i: int, j: int|
            0 <= i < layout.slot_count && 0 <= j < layout.slot_count && i != j ==> apart(
                #[trigger] slot_at(layout, base, i),
                #[trigger] slot_at(layout, base, j),
            ),
    ensures
        job_outcome(
            mem,
            Job::Freeze { layout, sentinel },
            TargetProcess { process_id: 0, window_handle: 0 },
            Some(base),
        ) == Ok::<Payload, EngineError>(Payload::Frozen { written: layout.slot_count }),
        forall|i: int|
            0 <= i < layout.slot_count ==> word_at(
                job_memory(mem, Job::Freeze { layout, sentinel }, Some(base)),
                #[trigger] slot_at(layout, base, i),
            ) == Some(unsigned_of(sentinel)),
{
    lemma_all_taken(mem, layout, base, 0);
    assert forall|i: int| 0 <= i < layout.slot_count implies word_at(
        filled(mem, layout, base, sentinel, 0),
        #[trigger] slot_at(layout, base, i),
    ) == Some(unsigned_of(sentinel)) by {
        lemma_filled_slot(mem, layout, base, sentinel, 0, i);
    }
}

} // verus!
