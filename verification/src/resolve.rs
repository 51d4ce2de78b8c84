use vstd::prelude::*;
use crate::access::{read_u32, Transfer};
use crate::chain::{displace, wrap, PointerChain};

verus! {

/// Where a walk along a pointer chain stands.
#[derive(Clone, Copy, Debug, PartialEq, Eq, Structural)]
pub enum WalkState {
    /// The pointer stored at this address has to be read next.
    NeedsRead(u32),
    /// Every offset has been applied: this is the address the chain names.
    Resolved(u32),
    /// A read did not move four bytes. The walk is over.
    Failed,
}

/// A walk along one pointer chain, one read at a time.
///
/// The walk starts at the base address. For each offset in turn it needs
/// the pointer stored at the address it stands on, and moves to that
/// pointer plus the offset. The address reached with the last offset is
/// the result: the walk never reads it. A chain of `k` offsets therefore
/// costs `k` reads, the first at the base address and `k - 1` at addresses
/// found on the way; a chain without offsets costs none.
#[derive(Debug)]
pub struct ChainWalk {
    pub chain: PointerChain,
    /// How many offsets have been applied, each after one complete read.
    pub position: usize,
    /// The address reached so far.
    pub at: u32,
    /// Whether a read has failed.
    pub failed: bool,
}

impl ChainWalk {
    /// The offsets of the chain that is walked.
    pub open spec fn offsets(&self) -> Seq<u32> {
        self.chain.offsets@
    }

    /// Where the walk stands: failed, resolved once every offset has been
    /// applied, and waiting for a read otherwise.
    pub open spec fn state(&self) -> WalkState {
        if self.failed {
            WalkState::Failed
        } else if self.position >= self.offsets().len() {
            WalkState::Resolved(self.at)
        } else {
            WalkState::NeedsRead(self.at)
        }
    }

    /// The number of reads that have been answered, the failed one included.
    pub open spec fn reads(&self) -> int {
        if self.failed {
            self.position + 1
        } else {
            self.position as int
        }
    }

    /// The number of reads answered so far at addresses found on the way,
    /// that is, all but the first, which is at the base address.
    pub open spec fn intermediate_reads(&self) -> int {
        if self.reads() >= 1 {
            self.reads() - 1
        } else {
            0
        }
    }

    /// The walk after one more answer: the pointer that was read, or
    /// nothing if the read did not move four bytes. An answer to a walk
    /// that waits for none leaves it as it is.
    pub open spec fn fed(self, word: Option<u32>) -> ChainWalk {
        if self.state() is NeedsRead {
            match word {
                Some(pointer) => ChainWalk {
                    position: (self.position + 1) as usize,
                    at: wrap(pointer + self.offsets()[self.position as int]),
                    ..self
                },
                None => ChainWalk { failed: true, ..self },
            }
        } else {
            self
        }
    }

    /// The walk after a run of answers, fed in order.
    pub open spec fn fed_all(self, words: Seq<Option<u32>>) -> ChainWalk
        decreases words.len(),
    {
        if words.len() == 0 {
            self
        } else {
            self.fed_all(words.drop_last()).fed(words.last())
        }
    }

    /// The state of a walk that has not read anything yet.
    pub open spec fn begin_spec(chain: PointerChain) -> ChainWalk {
        ChainWalk { chain, position: 0, at: chain.base_address, failed: false }
    }

    /// Starts a walk. With no offsets it is resolved at once, to the base
    /// address, and no read is ever asked for.
    pub fn begin(chain: PointerChain) -> (walk: ChainWalk)
        ensures
            walk == Self::begin_spec(chain),
            walk.wf(),
            walk.reads() == 0,
            chain.offsets@.len() == 0 ==> walk.state() == WalkState::Resolved(chain.base_address),
            chain.offsets@.len() > 0 ==> walk.state() == WalkState::NeedsRead(chain.base_address),
    {
        let at = chain.base_address;
        ChainWalk { chain, position: 0, at, failed: false }
    }

    /// Where the walk stands.
    pub fn current(&self) -> (state: WalkState)
        ensures
            state == self.state(),
    {
        if self.failed {
            WalkState::Failed
        } else if self.position >= self.chain.offsets.len() {
            WalkState::Resolved(self.at)
        } else {
            WalkState::NeedsRead(self.at)
        }
    }

    /// Takes the answer to the read that the walk waits for.
    pub fn feed(&mut self, transfer: &Transfer)
        ensures
            *final(self) == old(self).fed(transfer.word()),
            old(self).wf() ==> final(self).wf(),
    {
        match read_u32(transfer) {
            Ok(pointer) => self.feed_word(Some(pointer)),
            Err(_) => self.feed_word(None),
        }
    }

    /// Takes the answer to the read that the walk waits for, as the
    /// pointer read or nothing.
    pub fn feed_word(&mut self, word: Option<u32>)
        ensures
            *final(self) == old(self).fed(word),
            old(self).wf() ==> final(self).wf(),
    {
        if !self.failed && self.position < self.chain.offsets.len() {
            match word {
                Some(pointer) => {
                    self.at = displace(pointer, self.chain.offsets[self.position]);
                    self.position = self.position + 1;
                },
                None => {
                    self.failed = true;
                },
            }
        }
    }

    /// What every walk that `begin` made and `feed` moved satisfies.
    pub open spec fn wf(&self) -> bool {
        &&& self.position <= self.offsets().len()
        &&& self.failed ==> self.position < self.offsets().len()
    }

    /// The number of reads answered so far, the failed one included.
    pub fn reads_done(&self) -> (n: usize)
        requires
            self.wf(),
        ensures
            n == self.reads(),
    {
        let depth = self.chain.offsets.len();
        if self.failed {
            self.position + 1
        } else {
            self.position
        }
    }
}

/// The address a walk stands on after `n` complete reads: the base before
/// any, then the last pointer read plus the offset that belongs to it.
pub open spec fn address_after(chain: PointerChain, words: Seq<Option<u32>>, n: int) -> u32 {
    if n <= 0 {
        chain.base_address
    } else {
        wrap(words[n - 1].unwrap() + chain.offsets@[n - 1])
    }
}

/// Whether every read of a run delivered a pointer.
pub open spec fn all_complete(words: Seq<Option<u32>>) -> bool {
    forall|i: int| 0 <= i < words.len() ==> (#[trigger] words[i]) is Some
}

/// As long as every read succeeds and offsets are left, the walk has
/// applied one offset per read and waits at the address the last one gave.
pub proof fn lemma_walk_progress(chain: PointerChain, words: Seq<Option<u32>>)
    requires
        words.len() <= chain.offsets@.len(),
        all_complete(words),
    ensures
        ChainWalk::begin_spec(chain).fed_all(words) == (ChainWalk {
            chain,
            position: words.len() as usize,
            at: address_after(chain, words, words.len() as int),
            failed: false,
        }),
    decreases words.len(),
{
    let start = ChainWalk::begin_spec(chain);
    if words.len() > 0 {
        let shorter = words.drop_last();
        assert forall|i: int| 0 <= i < shorter.len() implies (#[trigger] shorter[i]) is Some by {
            assert(shorter[i] == words[i]);
        }
        lemma_walk_progress(chain, shorter);
        let before = start.fed_all(shorter);
        assert(before.state() is NeedsRead);
        assert(words.last() is Some);
    }
    assert(chain.offsets.len() == chain.offsets@.len());
}

/// A chain whose reads all succeed resolves after exactly as many reads as
/// it has offsets: one at its base address and one less than it has
/// offsets at addresses found on the way. It resolves to the last pointer
/// read plus the last offset, an address that the walk itself never
/// reads; without offsets, to its base address after no read at all.
pub proof fn lemma_walk_resolves(chain: PointerChain, words: Seq<Option<u32>>)
    requires
        words.len() == chain.offsets@.len(),
        all_complete(words),
    ensures
        ({
            let walk = ChainWalk::begin_spec(chain).fed_all(words);
            let k = chain.offsets@.len() as int;
            &&& walk.reads() == k
            &&& k >= 1 ==> walk.intermediate_reads() == k - 1
            &&& walk.state() == WalkState::Resolved(address_after(chain, words, k))
            &&& k == 0 ==> walk.state() == WalkState::Resolved(chain.base_address)
        }),
{
    lemma_walk_progress(chain, words);
    assert(chain.offsets.len() == chain.offsets@.len());
}

/// The first read that fails ends the walk: it has then asked for exactly
/// the reads up to that one, and it fails.
pub proof fn lemma_walk_fails(chain: PointerChain, words: Seq<Option<u32>>)
    requires
        0 < words.len() <= chain.offsets@.len(),
        all_complete(words.drop_last()),
        words.last() is None,
    ensures
        ({
            let walk = ChainWalk::begin_spec(chain).fed_all(words);
            &&& walk.reads() == words.len()
            &&& walk.state() == WalkState::Failed
        }),
{
    lemma_walk_progress(chain, words.drop_last());
    assert(chain.offsets.len() == chain.offsets@.len());
    let before = ChainWalk::begin_spec(chain).fed_all(words.drop_last());
    assert(before.state() is NeedsRead);
}

/// A walk that is resolved or has failed asks for no further read and
/// ignores whatever it is told.
pub proof fn lemma_walk_stops(walk: ChainWalk, words: Seq<Option<u32>>)
    requires
        !(walk.state() is NeedsRead),
    ensures
        walk.fed_all(words) == walk,
    decreases words.len(),
{
    if words.len() > 0 {
        lemma_walk_stops(walk, words.drop_last());
    }
}

} // verus!
