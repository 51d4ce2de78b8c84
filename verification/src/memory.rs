use vstd::prelude::*;
use std::collections::HashMap;
use crate::access::{
    bytes_of, encode_u32, signed_of, to_unsigned, unsigned_of, word_of, Transfer,
};
use crate::chain::{wrap, ChainModel, PointerChain};
use crate::error::EngineError;
use crate::resolve::{ChainWalk, WalkState};

verus! {

/// Whether byte `k` after `address` exists in the address space and is
/// mapped.
pub open spec fn has_byte(mem: Map<u32, u8>, address: u32, k: int) -> bool {
    address + k <= u32::MAX && mem.contains_key((address + k) as u32)
}

/// How many bytes a four-byte transfer at `address` moves: it stops at the
/// first byte that is not mapped.
pub open spec fn moved_at(mem: Map<u32, u8>, address: u32) -> int {
    if !has_byte(mem, address, 0) {
        0
    } else if !has_byte(mem, address, 1) {
        1
    } else if !has_byte(mem, address, 2) {
        2
    } else if !has_byte(mem, address, 3) {
        3
    } else {
        4
    }
}

/// Whether all four bytes at `address` are mapped.
pub open spec fn is_mapped(mem: Map<u32, u8>, address: u32) -> bool {
    moved_at(mem, address) == 4
}

/// Byte `k` of what a read at `address` leaves in the buffer: the byte in
/// memory if the transfer got that far, zero if not.
pub open spec fn byte_at(mem: Map<u32, u8>, address: u32, k: int) -> u8 {
    if k < moved_at(mem, address) {
        mem[(address + k) as u32]
    } else {
        0
    }
}

/// What a read at `address` leaves in its four-byte buffer.
pub open spec fn bytes_at(mem: Map<u32, u8>, address: u32) -> Seq<u8> {
    seq![
        byte_at(mem, address, 0),
        byte_at(mem, address, 1),
        byte_at(mem, address, 2),
        byte_at(mem, address, 3),
    ]
}

/// What a four-byte read at `address` reports.
pub open spec fn transfer_at(mem: Map<u32, u8>, address: u32) -> Transfer {
    Transfer { moved: moved_at(mem, address) as usize, word: word_of(bytes_at(mem, address)) }
}

/// The word stored at `address`, if all four of its bytes are mapped.
pub open spec fn word_at(mem: Map<u32, u8>, address: u32) -> Option<u32> {
    transfer_at(mem, address).word()
}

/// Memory with the four bytes of `word` put at `address`, mapped or not.
/// Bytes that would lie beyond the top of the address space are left out.
pub open spec fn placed(mem: Map<u32, u8>, address: u32, bytes: Seq<u8>) -> Map<u32, u8> {
    Map::new(
        |a: u32| mem.contains_key(a) || (address <= a && a - address < bytes.len()),
        |a: u32|
            if address <= a && a - address < bytes.len() {
                bytes[a - address]
            } else {
                mem[a]
            },
    )
}

/// Memory after a four-byte write of `word` at `address`: all four bytes
/// change if all four are mapped, and nothing changes if one is not.
pub open spec fn with_word(mem: Map<u32, u8>, address: u32, word: u32) -> Map<u32, u8> {
    if is_mapped(mem, address) {
        placed(mem, address, bytes_of(word))
    } else {
        mem
    }
}

/// Where a chain leads in a given memory: from `at`, each offset in turn
/// takes the pointer stored at the address reached and adds the offset to
/// it. Nothing, if one of those pointers cannot be read.
pub open spec fn walk_in(mem: Map<u32, u8>, at: u32, offsets: Seq<u32>) -> Option<u32>
    decreases offsets.len(),
{
    if offsets.len() == 0 {
        Some(at)
    } else {
        match word_at(mem, at) {
            None => None,
            Some(pointer) => walk_in(mem, wrap(pointer + offsets[0]), offsets.drop_first()),
        }
    }
}

/// The address that a chain names in a given memory.
pub open spec fn resolve_in(mem: Map<u32, u8>, chain: ChainModel) -> Option<u32> {
    walk_in(mem, chain.base_address, chain.offsets)
}

/// A write that succeeds is read back: the four bytes at the address then
/// hold the word written, and the same addresses are mapped as before.
pub proof fn lemma_write_then_read(mem: Map<u32, u8>, address: u32, value: i32)
    requires
        is_mapped(mem, address),
    ensures
        word_at(with_word(mem, address, unsigned_of(value)), address) == Some(unsigned_of(value)),
        signed_of(unsigned_of(value)) == value,
        with_word(mem, address, unsigned_of(value)).dom() =~= mem.dom(),
{
    lemma_written_word(mem, address, unsigned_of(value));
}

/// The same for a word.
pub proof fn lemma_written_word(mem: Map<u32, u8>, address: u32, word: u32)
    requires
        is_mapped(mem, address),
    ensures
        word_at(with_word(mem, address, word), address) == Some(word),
        with_word(mem, address, word).dom() =~= mem.dom(),
        forall|other: u32| #[trigger]
            is_mapped(with_word(mem, address, word), other) == is_mapped(mem, other),
{
    let after = with_word(mem, address, word);
    let bytes = bytes_of(word);
    assert(bytes.len() == 4);
    assert(after.dom() =~= mem.dom());
    assert(has_byte(after, address, 0));
    assert(has_byte(after, address, 1));
    assert(has_byte(after, address, 2));
    assert(has_byte(after, address, 3));
    assert(bytes_at(after, address) =~= bytes);
    crate::access::lemma_word_round_trip(word);
    assert forall|other: u32| #[trigger] is_mapped(after, other) == is_mapped(mem, other) by {
        assert(forall|k: int| has_byte(after, other, k) == has_byte(mem, other, k));
    }
}

/// A write leaves every word alone that shares no byte with it.
pub proof fn lemma_write_elsewhere(mem: Map<u32, u8>, address: u32, word: u32, other: u32)
    requires
        other + 4 <= address || address + 4 <= other,
    ensures
        transfer_at(with_word(mem, address, word), other) == transfer_at(mem, other),
        word_at(with_word(mem, address, word), other) == word_at(mem, other),
{
    let after = with_word(mem, address, word);
    if is_mapped(mem, address) {
        assert(bytes_of(word).len() == 4);
        assert(after.dom() =~= mem.dom());
        assert(forall|k: int| has_byte(after, other, k) == has_byte(mem, other, k));
        assert(bytes_at(after, other) =~= bytes_at(mem, other));
    }
}

/// A stand-in for the memory of a process: a set of mapped bytes. A
/// transfer that meets a byte outside the set stops there, as a fault in a
/// real address space would stop it.
#[derive(Debug)]
pub struct SimulatedMemory {
    pub cells: HashMap<u32, u8>,
}

impl View for SimulatedMemory {
    type V = Map<u32, u8>;

    open spec fn view(&self) -> Map<u32, u8> {
        self.cells@
    }
}

impl SimulatedMemory {
    /// A memory with nothing mapped.
    pub fn new() -> (memory: SimulatedMemory)
        ensures
            memory@ == Map::<u32, u8>::empty(),
    {
        SimulatedMemory { cells: HashMap::new() }
    }

    /// Maps `bytes` at `start` and the addresses after it, over whatever
    /// was there.
    pub fn map_bytes(&mut self, start: u32, bytes: &[u8])
        ensures
            final(self)@ == placed(old(self)@, start, bytes@),
    {
        let mut i: usize = 0;
        let room: u32 = u32::MAX - start;
        while i < bytes.len() && i <= room as usize
            invariant
                i <= bytes@.len(),
                room == u32::MAX - start,
                self@ =~= placed(old(self)@, start, bytes@.take(i as int)),
            decreases bytes@.len() - i,
        {
            let address: u32 = start + i as u32;
            self.cells.insert(address, bytes[i]);
            assert(self@ =~= placed(old(self)@, start, bytes@.take(i as int + 1)));
            i += 1;
        }
        assert(self@ =~= placed(old(self)@, start, bytes@));
    }

    /// Maps the four bytes of `word` at `address`.
    pub fn map_word(&mut self, address: u32, word: u32)
        ensures
            final(self)@ == placed(old(self)@, address, bytes_of(word)),
            address + 3 <= u32::MAX ==> word_at(final(self)@, address) == Some(word),
    {
        let bytes = encode_u32(word);
        self.map_bytes(address, bytes.as_slice());
        proof {
            if address + 3 <= u32::MAX {
                let after = self@;
                assert(has_byte(after, address, 0));
                assert(has_byte(after, address, 1));
                assert(has_byte(after, address, 2));
                assert(has_byte(after, address, 3));
                assert(bytes_at(after, address) =~= bytes_of(word));
                crate::access::lemma_word_round_trip(word);
            }
        }
    }

    /// Maps the four bytes of the signed `value` at `address`.
    pub fn map_i32(&mut self, address: u32, value: i32)
        ensures
            final(self)@ == placed(old(self)@, address, bytes_of(unsigned_of(value))),
            address + 3 <= u32::MAX ==> word_at(final(self)@, address) == Some(unsigned_of(value)),
    {
        self.map_word(address, to_unsigned(value));
    }

    fn byte(&self, address: u32, k: u32) -> (r: Option<u8>)
        requires
            k < 4,
        ensures
            r is Some == has_byte(self@, address, k as int),
            r matches Some(b) ==> b == self@[(address + k) as u32],
    {
        if address as u64 + k as u64 > u32::MAX as u64 {
            None
        } else {
            let at: u32 = address + k;
            match self.cells.get(&at) {
                Some(b) => Some(*b),
                None => None,
            }
        }
    }

    /// A four-byte read at `address`: what it moved and what it found.
    pub fn read(&self, address: u32) -> (transfer: Transfer)
        ensures
            transfer == transfer_at(self@, address),
    {
        let mut bytes: [u8; 4] = [0u8, 0u8, 0u8, 0u8];
        let mut moved: usize = 0;
        let mut k: u32 = 0;
        while k < 4
            invariant
                k <= 4,
                moved <= k,
                moved == k ==> forall|j: int| 0 <= j < k ==> has_byte(self@, address, j),
                moved < k ==> !has_byte(self@, address, moved as int) && forall|j: int|
                    0 <= j < moved ==> has_byte(self@, address, j),
                forall|j: int|
                    0 <= j < 4 ==> bytes@[j] == if j < moved {
                        self@[(address + j) as u32]
                    } else {
                        0u8
                    },
            decreases 4 - k,
        {
            if moved == k as usize {
                match self.byte(address, k) {
                    Some(b) => {
                        bytes[k as usize] = b;
                        moved = moved + 1;
                    },
                    None => {},
                }
            }
            k += 1;
        }
        assert(moved == moved_at(self@, address));
        assert(bytes@ =~= bytes_at(self@, address));
        Transfer::new(moved, bytes)
    }

    /// A four-byte write of `value` at `address`. It moves four bytes if
    /// all four are mapped and none if one is not.
    pub fn write(&mut self, address: u32, value: i32) -> (moved: usize)
        ensures
            final(self)@ == with_word(old(self)@, address, unsigned_of(value)),
            moved == if is_mapped(old(self)@, address) {
                4usize
            } else {
                0usize
            },
    {
        if self.read(address).is_complete() {
            let bytes = encode_u32(to_unsigned(value));
            self.map_bytes(address, bytes.as_slice());
            4
        } else {
            0
        }
    }

    /// The signed value at `address`; `MemoryReadFailed` unless all four
    /// of its bytes are mapped.
    pub fn read_i32(&self, address: u32) -> (r: Result<i32, EngineError>)
        ensures
            r == match word_at(self@, address) {
                Some(word) => Ok::<i32, EngineError>(signed_of(word)),
                None => Err::<i32, EngineError>(EngineError::MemoryReadFailed),
            },
    {
        crate::access::read_i32(&self.read(address))
    }

    /// Puts the signed `value` at `address`; `MemoryWriteFailed`, and no
    /// change, unless all four of its bytes are mapped.
    pub fn write_i32(&mut self, address: u32, value: i32) -> (r: Result<(), EngineError>)
        ensures
            final(self)@ == with_word(old(self)@, address, unsigned_of(value)),
            r == if is_mapped(old(self)@, address) {
                Ok::<(), EngineError>(())
            } else {
                Err::<(), EngineError>(EngineError::MemoryWriteFailed)
            },
            r is Ok ==> word_at(final(self)@, address) == Some(unsigned_of(value)),
            r is Err ==> final(self)@ == old(self)@,
    {
        proof {
            if is_mapped(self@, address) {
                lemma_write_then_read(self@, address, value);
            }
        }
        let moved = self.write(address, value);
        crate::access::write_i32(moved)
    }

    /// Walks `chain` through this memory: the address it names, or
    /// `MemoryReadFailed` at the first pointer that cannot be read.
    pub fn resolve(&self, chain: &PointerChain) -> (r: Result<u32, EngineError>)
        ensures
            r == match resolve_in(self@, chain@) {
                Some(address) => Ok::<u32, EngineError>(address),
                None => Err::<u32, EngineError>(EngineError::MemoryReadFailed),
            },
    {
        let mut walk = ChainWalk::begin(chain.duplicate());
        assert(chain@.offsets.skip(0) =~= chain@.offsets);
        loop
            invariant
                walk.wf(),
                walk.chain@ == chain@,
                !walk.failed ==> walk_in(self@, walk.at, chain@.offsets.skip(walk.position as int))
                    == resolve_in(self@, chain@),
                walk.failed ==> resolve_in(self@, chain@) is None,
            decreases 2 * (chain@.offsets.len() - walk.position) + if walk.failed {
                0int
            } else {
                1int
            },
        {
            match walk.current() {
                WalkState::Resolved(address) => {
                    return Ok(address);
                },
                WalkState::Failed => {
                    return Err(EngineError::MemoryReadFailed);
                },
                WalkState::NeedsRead(address) => {
                    let ghost rest = chain@.offsets.skip(walk.position as int);
                    assert(rest.len() > 0);
                    assert(rest[0] == chain@.offsets[walk.position as int]);
                    assert(rest.drop_first() =~= chain@.offsets.skip(walk.position + 1));
                    let transfer = self.read(address);
                    assert(transfer.word() == word_at(self@, address));
                    let ghost before = walk;
                    walk.feed(&transfer);
                    assert(before.chain.offsets.len() == before.offsets().len());
                },
            }
        }
    }
}

} // verus!
