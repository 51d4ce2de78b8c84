use zomkill::access::Transfer;
use zomkill::chain::PointerChain;
use zomkill::resolve::{ChainWalk, WalkState};

#[test]
fn empty_chain_resolves_to_its_base_without_a_read() {
    for base in [0u32, 0x0075_5E0C, 0xFFFF_FFFF] {
        let walk = ChainWalk::begin(PointerChain::new(base, vec![]));
        assert_eq!(walk.current(), WalkState::Resolved(base));
        assert_eq!(walk.reads_done(), 0);
    }
}

#[test]
fn two_offsets_cost_two_reads() {
    let mut walk = ChainWalk::begin(PointerChain::new(0x0075_5E0C, vec![0x868, 0x5578]));
    assert_eq!(walk.current(), WalkState::NeedsRead(0x0075_5E0C));
    walk.feed(&Transfer::of_word(0x1000_0000));
    assert_eq!(walk.current(), WalkState::NeedsRead(0x1000_0868));
    assert_eq!(walk.reads_done(), 1);
    walk.feed(&Transfer::of_word(0x2000_0000));
    assert_eq!(walk.current(), WalkState::Resolved(0x2000_5578));
    assert_eq!(walk.reads_done(), 2);
}

#[test]
fn one_offset_costs_one_read_at_the_base() {
    let mut walk = ChainWalk::begin(PointerChain::new(0x40, vec![0x10]));
    assert_eq!(walk.current(), WalkState::NeedsRead(0x40));
    walk.feed(&Transfer::of_word(0x500));
    assert_eq!(walk.current(), WalkState::Resolved(0x510));
    assert_eq!(walk.reads_done(), 1);
}

#[test]
fn every_chain_length_costs_as_many_reads_as_offsets() {
    for k in 0usize..6 {
        let offsets: Vec<u32> = (0..k as u32).map(|i| 0x10 * (i + 1)).collect();
        let mut walk = ChainWalk::begin(PointerChain::new(0x1000, offsets));
        let mut reads = 0;
        let mut intermediate = 0;
        loop {
            match walk.current() {
                WalkState::NeedsRead(address) => {
                    reads += 1;
                    if address != 0x1000 {
                        intermediate += 1;
                    }
                    walk.feed(&Transfer::of_word(0x10_0000 * reads as u32));
                }
                WalkState::Resolved(address) => {
                    if k == 0 {
                        assert_eq!(address, 0x1000);
                    } else {
                        assert_eq!(address, 0x10_0000 * k as u32 + 0x10 * k as u32);
                    }
                    break;
                }
                WalkState::Failed => panic!("no read failed"),
            }
        }
        assert_eq!(reads, k);
        assert_eq!(intermediate, k.saturating_sub(1));
        assert_eq!(walk.reads_done(), k);
    }
}

#[test]
fn a_failed_read_ends_the_walk_at_once() {
    for failing in 0usize..4 {
        let mut walk = ChainWalk::begin(PointerChain::new(0x1000, vec![4, 8, 12, 16]));
        let mut reads = 0;
        while let WalkState::NeedsRead(_) = walk.current() {
            if reads == failing {
                walk.feed(&Transfer::new(3, [1, 2, 3, 0]));
            } else {
                walk.feed(&Transfer::of_word(0x2000));
            }
            reads += 1;
        }
        assert_eq!(walk.current(), WalkState::Failed);
        assert_eq!(reads, failing + 1);
        assert_eq!(walk.reads_done(), failing + 1);
    }
}

#[test]
fn a_walk_that_is_over_ignores_what_it_is_fed() {
    let mut walk = ChainWalk::begin(PointerChain::new(0x1000, vec![4]));
    walk.feed(&Transfer::failed());
    assert_eq!(walk.current(), WalkState::Failed);
    walk.feed(&Transfer::of_word(0x2000));
    assert_eq!(walk.current(), WalkState::Failed);
    assert_eq!(walk.reads_done(), 1);

    let mut walk = ChainWalk::begin(PointerChain::new(0x1000, vec![4]));
    walk.feed(&Transfer::of_word(0x2000));
    walk.feed(&Transfer::of_word(0x3000));
    walk.feed(&Transfer::failed());
    assert_eq!(walk.current(), WalkState::Resolved(0x2004));
    assert_eq!(walk.reads_done(), 1);
}

#[test]
fn the_walk_wraps_addresses() {
    let mut walk = ChainWalk::begin(PointerChain::new(0x1000, vec![0x20]));
    walk.feed_word(Some(0xFFFF_FFF0));
    assert_eq!(walk.current(), WalkState::Resolved(0x10));
}

#[test]
fn feeding_nothing_fails_the_walk() {
    let mut walk = ChainWalk::begin(PointerChain::new(0x1000, vec![0x20, 0x30]));
    walk.feed_word(None);
    assert_eq!(walk.current(), WalkState::Failed);
}
