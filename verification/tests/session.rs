use zomkill::access::Transfer;
use zomkill::chain::{PointerChain, SlotTable};
use zomkill::error::EngineError;
use zomkill::session::{Job, Payload, Reply, Request, Session, TargetProcess};

fn sun_chain() -> PointerChain {
    PointerChain::new(0x0075_5E0C, vec![0x868, 0x5578])
}

#[test]
fn read_session_runs_open_reads_close() {
    let mut s = Session::read(sun_chain(), 77);
    assert_eq!(s.request(), Request::Open { process_id: 77 });
    assert_eq!(s.advance(&Reply::Opened(true)), Request::Read { address: 0x0075_5E0C });
    assert_eq!(
        s.advance(&Reply::Read(Transfer::of_word(0x1000_0000))),
        Request::Read { address: 0x1000_0868 }
    );
    assert_eq!(
        s.advance(&Reply::Read(Transfer::of_word(0x2000_0000))),
        Request::Read { address: 0x2000_5578 }
    );
    assert_eq!(s.result(), None);
    assert_eq!(s.advance(&Reply::Read(Transfer::new(4, 9990i32.to_le_bytes()))), Request::Close);
    assert_eq!(s.result(), Some(Ok(Payload::Value(9990))));
    assert!(!s.finished());
    assert_eq!(s.advance(&Reply::Closed), Request::Done);
    assert!(s.finished());
    assert_eq!(s.result(), Some(Ok(Payload::Value(9990))));
}

#[test]
fn write_session_writes_at_the_resolved_address() {
    let mut s = Session::write(sun_chain(), 5000, 77);
    assert_eq!(s.request(), Request::Open { process_id: 77 });
    s.advance(&Reply::Opened(true));
    s.advance(&Reply::Read(Transfer::of_word(0x1000_0000)));
    let next = s.advance(&Reply::Read(Transfer::of_word(0x2000_0000)));
    assert_eq!(next, Request::Write { address: 0x2000_5578, value: 5000 });
    assert_eq!(s.advance(&Reply::Wrote(4)), Request::Close);
    assert_eq!(s.advance(&Reply::Closed), Request::Done);
    assert_eq!(s.result(), Some(Ok(Payload::Written(5000))));
}

#[test]
fn a_short_write_is_a_failure() {
    for moved in [0usize, 1, 3, 5] {
        let mut s = Session::write(PointerChain::new(0x100, vec![]), 1, 9);
        assert_eq!(
            s.advance(&Reply::Opened(true)),
            Request::Write { address: 0x100, value: 1 }
        );
        assert_eq!(s.advance(&Reply::Wrote(moved)), Request::Close);
        assert_eq!(s.advance(&Reply::Closed), Request::Done);
        assert_eq!(s.result(), Some(Err(EngineError::MemoryWriteFailed)));
    }
}

#[test]
fn a_short_final_read_is_a_failure() {
    let mut s = Session::read(PointerChain::new(0x100, vec![]), 9);
    assert_eq!(s.advance(&Reply::Opened(true)), Request::Read { address: 0x100 });
    assert_eq!(s.advance(&Reply::Read(Transfer::new(2, [1, 2, 0, 0]))), Request::Close);
    assert_eq!(s.advance(&Reply::Closed), Request::Done);
    assert_eq!(s.result(), Some(Err(EngineError::MemoryReadFailed)));
}

#[test]
fn a_failed_pointer_read_closes_the_handle_and_reads_no_more() {
    let mut s = Session::read(sun_chain(), 77);
    s.advance(&Reply::Opened(true));
    assert_eq!(s.advance(&Reply::Read(Transfer::failed())), Request::Close);
    assert_eq!(s.result(), Some(Err(EngineError::MemoryReadFailed)));
    assert_eq!(s.advance(&Reply::Closed), Request::Done);
    assert_eq!(s.result(), Some(Err(EngineError::MemoryReadFailed)));
}

#[test]
fn a_refused_open_ends_the_session_without_a_close() {
    let mut s = Session::read(sun_chain(), 77);
    assert_eq!(s.advance(&Reply::Opened(false)), Request::Done);
    assert!(s.finished());
    assert_eq!(s.result(), Some(Err(EngineError::HandleOpenFailed)));
}

#[test]
fn an_unsupported_host_ends_every_session_at_its_first_request() {
    let mut s = Session::read(sun_chain(), 77);
    assert_eq!(s.advance(&Reply::Unsupported), Request::Done);
    assert_eq!(s.result(), Some(Err(EngineError::UnsupportedPlatform)));

    let mut s = Session::probe();
    assert_eq!(s.advance(&Reply::Unsupported), Request::Done);
    assert_eq!(s.result(), Some(Err(EngineError::UnsupportedPlatform)));
}

#[test]
fn probe_locates_opens_and_closes() {
    let target = TargetProcess { process_id: 4242, window_handle: 0xBEEF };
    let mut s = Session::probe();
    assert_eq!(s.request(), Request::Locate);
    assert_eq!(s.advance(&Reply::Located(Some(target))), Request::Open { process_id: 4242 });
    assert_eq!(s.advance(&Reply::Opened(true)), Request::Close);
    assert_eq!(s.advance(&Reply::Closed), Request::Done);
    assert_eq!(s.result(), Some(Ok(Payload::Alive(target))));
}

#[test]
fn probe_without_a_window_asks_for_no_handle() {
    let mut s = Session::probe();
    assert_eq!(s.advance(&Reply::Located(None)), Request::Done);
    assert_eq!(s.result(), Some(Err(EngineError::ProcessNotFound)));
}

#[test]
fn probe_with_a_process_that_cannot_be_opened() {
    let target = TargetProcess { process_id: 1, window_handle: 2 };
    let mut s = Session::probe();
    s.advance(&Reply::Located(Some(target)));
    assert_eq!(s.advance(&Reply::Opened(false)), Request::Done);
    assert_eq!(s.result(), Some(Err(EngineError::HandleOpenFailed)));
}

#[test]
fn freeze_session_writes_every_slot_in_order() {
    let table = SlotTable::new(PointerChain::new(0x0075_5E0C, vec![0x868, 0x15C, 0]), 10, 0x50, 0x70);
    let mut s = Session::freeze(table, 1, 77);
    assert_eq!(s.request(), Request::Open { process_id: 77 });
    assert_eq!(s.advance(&Reply::Opened(true)), Request::Read { address: 0x0075_5E0C });
    assert_eq!(
        s.advance(&Reply::Read(Transfer::of_word(0x1000_0000))),
        Request::Read { address: 0x1000_0868 }
    );
    assert_eq!(
        s.advance(&Reply::Read(Transfer::of_word(0x2000_0000))),
        Request::Read { address: 0x2000_015C }
    );
    let mut next = s.advance(&Reply::Read(Transfer::of_word(0x3000_0000)));
    for i in 0..10u32 {
        assert_eq!(next, Request::Write { address: 0x3000_0000 + 0x70 + i * 0x50, value: 1 });
        next = s.advance(&Reply::Wrote(4));
    }
    assert_eq!(next, Request::Close);
    assert_eq!(s.advance(&Reply::Closed), Request::Done);
    assert_eq!(s.result(), Some(Ok(Payload::Frozen { written: 10 })));
}

#[test]
fn freeze_session_goes_on_after_a_slot_that_fails() {
    let table = SlotTable::new(PointerChain::new(0x1000, vec![]), 4, 8, 0);
    let mut s = Session::freeze(table, -5, 3);
    let mut next = s.advance(&Reply::Opened(true));
    let mut addresses = Vec::new();
    let replies = [Reply::Wrote(4), Reply::Wrote(0), Reply::Wrote(3), Reply::Wrote(4)];
    for reply in replies.iter() {
        match next {
            Request::Write { address, value } => {
                assert_eq!(value, -5);
                addresses.push(address);
            }
            other => panic!("expected a write, got {:?}", other),
        }
        next = s.advance(reply);
    }
    assert_eq!(addresses, vec![0x1000, 0x1008, 0x1010, 0x1018]);
    assert_eq!(next, Request::Close);
    s.advance(&Reply::Closed);
    assert_eq!(s.result(), Some(Ok(Payload::Frozen { written: 2 })));
}

#[test]
fn freeze_session_over_no_slots_only_resolves() {
    let table = SlotTable::new(PointerChain::new(0x1000, vec![4]), 0, 8, 0);
    let mut s = Session::freeze(table, 1, 3);
    assert_eq!(s.advance(&Reply::Opened(true)), Request::Read { address: 0x1000 });
    assert_eq!(s.advance(&Reply::Read(Transfer::of_word(0x2000))), Request::Close);
    assert_eq!(s.advance(&Reply::Closed), Request::Done);
    assert_eq!(s.result(), Some(Ok(Payload::Frozen { written: 0 })));
}

#[test]
fn freeze_session_whose_chain_fails_writes_nothing() {
    let table = SlotTable::new(PointerChain::new(0x1000, vec![4]), 10, 0x50, 0x70);
    let mut s = Session::freeze(table, 1, 3);
    s.advance(&Reply::Opened(true));
    assert_eq!(s.advance(&Reply::Read(Transfer::new(0, [0; 4]))), Request::Close);
    assert_eq!(s.advance(&Reply::Closed), Request::Done);
    assert_eq!(s.result(), Some(Err(EngineError::MemoryReadFailed)));
}

#[test]
fn a_reply_of_the_wrong_kind_fails_what_was_asked() {
    let mut s = Session::read(sun_chain(), 77);
    assert_eq!(s.advance(&Reply::Closed), Request::Done);
    assert_eq!(s.result(), Some(Err(EngineError::HandleOpenFailed)));

    let mut s = Session::read(sun_chain(), 77);
    s.advance(&Reply::Opened(true));
    assert_eq!(s.advance(&Reply::Wrote(4)), Request::Close);
    assert_eq!(s.result(), Some(Err(EngineError::MemoryReadFailed)));

    let mut s = Session::write(PointerChain::new(1, vec![]), 5, 77);
    s.advance(&Reply::Opened(true));
    assert_eq!(s.advance(&Reply::Read(Transfer::of_word(4))), Request::Close);
    assert_eq!(s.result(), Some(Err(EngineError::MemoryWriteFailed)));

    let mut s = Session::probe();
    assert_eq!(s.advance(&Reply::Opened(true)), Request::Done);
    assert_eq!(s.result(), Some(Err(EngineError::ProcessNotFound)));
}

#[test]
fn a_refused_session_never_asks_for_anything() {
    let mut s = Session::refused(Job::Read, EngineError::ProcessNotFound);
    assert!(s.finished());
    assert_eq!(s.request(), Request::Done);
    assert_eq!(s.result(), Some(Err(EngineError::ProcessNotFound)));
    assert_eq!(s.advance(&Reply::Opened(true)), Request::Done);
    assert_eq!(s.result(), Some(Err(EngineError::ProcessNotFound)));
}

#[test]
fn every_handle_that_is_opened_is_closed_once() {
    let scripts: Vec<Vec<Reply>> = vec![
        vec![Reply::Opened(true), Reply::Read(Transfer::failed())],
        vec![Reply::Opened(true), Reply::Read(Transfer::of_word(8)), Reply::Read(Transfer::failed())],
        vec![
            Reply::Opened(true),
            Reply::Read(Transfer::of_word(8)),
            Reply::Read(Transfer::of_word(8)),
            Reply::Read(Transfer::new(1, [0; 4])),
        ],
        vec![
            Reply::Opened(true),
            Reply::Read(Transfer::of_word(8)),
            Reply::Read(Transfer::of_word(8)),
            Reply::Read(Transfer::of_word(8)),
        ],
        vec![Reply::Opened(false)],
        vec![Reply::Unsupported],
    ];
    for script in scripts {
        let mut s = Session::read(sun_chain(), 1);
        let mut opened = 0;
        let mut closed = 0;
        let mut fed = script.into_iter();
        let mut steps = 0;
        while !s.finished() {
            let request = s.request();
            let reply = match request {
                Request::Close => {
                    closed += 1;
                    Reply::Closed
                }
                _ => fed.next().unwrap_or(Reply::Closed),
            };
            if let (Request::Open { .. }, Reply::Opened(true)) = (request, reply) {
                opened += 1;
            }
            s.advance(&reply);
            steps += 1;
            assert!(steps < 20);
        }
        assert_eq!(opened, closed);
        assert!(s.result().is_some());
    }
}

#[test]
fn reply_helpers() {
    assert_eq!(Reply::Read(Transfer::of_word(7)).read_word(), Some(7));
    assert_eq!(Reply::Read(Transfer::failed()).read_word(), None);
    assert_eq!(Reply::Closed.read_word(), None);
    assert!(Reply::Wrote(4).has_written());
    assert!(!Reply::Wrote(0).has_written());
    assert!(!Reply::Opened(true).has_written());
}
