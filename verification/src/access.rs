use vstd::prelude::*;
use crate::error::EngineError;

verus! {

/// The number of bytes in every transfer the engine makes.
pub const WORD_BYTES: usize = 4;

/// The unsigned value of four bytes, least significant first.
pub open spec fn word_of(bytes: Seq<u8>) -> u32
    recommends
        bytes.len() == 4,
{
    (bytes[0] + 0x100 * bytes[1] + 0x1_0000 * bytes[2] + 0x100_0000 * bytes[3]) as u32
}

/// The four bytes of an unsigned value, least significant first.
pub open spec fn bytes_of(word: u32) -> Seq<u8> {
    seq![
        (word % 0x100) as u8,
        (word / 0x100 % 0x100) as u8,
        (word / 0x1_0000 % 0x100) as u8,
        (word / 0x100_0000) as u8,
    ]
}

/// The signed reading of a 32-bit word (two's complement).
pub open spec fn signed_of(word: u32) -> i32 {
    if word < 0x8000_0000 {
        word as i32
    } else {
        (word - 0x1_0000_0000) as i32
    }
}

/// The 32-bit word that holds a signed value (two's complement).
pub open spec fn unsigned_of(value: i32) -> u32 {
    if value >= 0 {
        value as u32
    } else {
        (value + 0x1_0000_0000) as u32
    }
}

/// Decoding undoes encoding, for words and for signed values.
pub proof fn lemma_codec_round_trip(value: i32)
    ensures
        signed_of(unsigned_of(value)) == value,
        bytes_of(unsigned_of(value)).len() == 4,
        word_of(bytes_of(unsigned_of(value))) == unsigned_of(value),
        signed_of(word_of(bytes_of(unsigned_of(value)))) == value,
{
}

/// The bytes of a word are four and name that word.
pub proof fn lemma_word_round_trip(word: u32)
    ensures
        bytes_of(word).len() == 4,
        word_of(bytes_of(word)) == word,
{
}

/// Encoding undoes decoding: four bytes are the bytes of their word.
pub proof fn lemma_bytes_of_word(bytes: Seq<u8>)
    requires
        bytes.len() == 4,
    ensures
        bytes_of(word_of(bytes)) =~= bytes,
        unsigned_of(signed_of(word_of(bytes))) == word_of(bytes),
{
    let b0 = bytes[0] as int;
    let b1 = bytes[1] as int;
    let b2 = bytes[2] as int;
    let b3 = bytes[3] as int;
    let high = b1 + 0x100 * b2 + 0x1_0000 * b3;
    let w = b0 + 0x100 * high;
    assert(w == word_of(bytes));
    assert(w % 0x100 == b0 && w / 0x100 == high);
    let higher = b2 + 0x100 * b3;
    assert(high == b1 + 0x100 * higher);
    assert(high % 0x100 == b1 && high / 0x100 == higher);
    assert(higher % 0x100 == b2 && higher / 0x100 == b3);
    assert(w / 0x1_0000 == higher);
    assert(w / 0x100_0000 == b3);
}

/// Reads four bytes, least significant first, as a word.
pub fn decode_u32(bytes: &[u8; 4]) -> (word: u32)
    ensures
        word == word_of(bytes@),
{
    bytes[0] as u32 + 0x100 * (bytes[1] as u32) + 0x1_0000 * (bytes[2] as u32) + 0x100_0000 * (
    bytes[3] as u32)
}

/// Reads a word as a signed value.
pub fn to_signed(word: u32) -> (value: i32)
    ensures
        value == signed_of(word),
{
    if word < 0x8000_0000 {
        word as i32
    } else {
        let low: u32 = word - 0x8000_0000;
        low as i32 + i32::MIN
    }
}

/// The word that holds a signed value.
pub fn to_unsigned(value: i32) -> (word: u32)
    ensures
        word == unsigned_of(value),
{
    if value >= 0 {
        value as u32
    } else {
        let low: i32 = value - i32::MIN;
        low as u32 + 0x8000_0000
    }
}

/// Reads four bytes, least significant first, as a signed value.
pub fn decode_i32(bytes: &[u8; 4]) -> (value: i32)
    ensures
        value == signed_of(word_of(bytes@)),
{
    to_signed(decode_u32(bytes))
}

/// The four bytes of a word, least significant first.
pub fn encode_u32(word: u32) -> (bytes: [u8; 4])
    ensures
        bytes@ == bytes_of(word),
{
    let bytes: [u8; 4] = [
        (word % 0x100) as u8,
        (word / 0x100 % 0x100) as u8,
        (word / 0x1_0000 % 0x100) as u8,
        (word / 0x100_0000) as u8,
    ];
    assert(bytes@ =~= bytes_of(word));
    bytes
}

/// The four bytes of a signed value, least significant first.
pub fn encode_i32(value: i32) -> (bytes: [u8; 4])
    ensures
        bytes@ == bytes_of(unsigned_of(value)),
{
    encode_u32(to_unsigned(value))
}

/// What the host reports of one four-byte read: how many bytes it moved,
/// and the word that the buffer then held, least significant byte first.
/// The word means something only if four bytes moved.
#[derive(Clone, Copy, Debug, PartialEq, Eq, Structural)]
pub struct Transfer {
    pub moved: usize,
    pub word: u32,
}

impl Transfer {
    /// A transfer counts only if exactly four bytes moved.
    pub open spec fn complete(self) -> bool {
        self.moved == 4
    }

    /// The word read, if the transfer was complete.
    pub open spec fn word(self) -> Option<u32> {
        if self.complete() {
            Some(self.word)
        } else {
            None
        }
    }

    /// The report of a read that moved `moved` bytes and left `bytes` in
    /// the buffer.
    pub fn new(moved: usize, bytes: [u8; 4]) -> (t: Transfer)
        ensures
            t == (Transfer { moved, word: word_of(bytes@) }),
    {
        Transfer { moved, word: decode_u32(&bytes) }
    }

    /// A read that moved nothing, as from an unmapped address.
    pub fn failed() -> (t: Transfer)
        ensures
            t == (Transfer { moved: 0, word: 0 }),
            t.word() is None,
    {
        Transfer { moved: 0, word: 0 }
    }

    /// A read that moved the four bytes of `word`.
    pub fn of_word(word: u32) -> (t: Transfer)
        ensures
            t == (Transfer { moved: 4, word }),
            t.word() == Some(word),
    {
        Transfer { moved: 4, word }
    }

    /// Whether exactly four bytes moved.
    pub fn is_complete(&self) -> (r: bool)
        ensures
            r == self.complete(),
    {
        self.moved == WORD_BYTES
    }
}

/// The result of a read as a pointer-sized word: the word if four bytes
/// moved, `MemoryReadFailed` for every other count.
pub fn read_u32(transfer: &Transfer) -> (r: Result<u32, EngineError>)
    ensures
        r == match transfer.word() {
            Some(word) => Ok::<u32, EngineError>(word),
            None => Err::<u32, EngineError>(EngineError::MemoryReadFailed),
        },
{
    if transfer.is_complete() {
        Ok(transfer.word)
    } else {
        Err(EngineError::MemoryReadFailed)
    }
}

/// The result of a read as a signed value: the value if four bytes moved,
/// `MemoryReadFailed` for every other count.
pub fn read_i32(transfer: &Transfer) -> (r: Result<i32, EngineError>)
    ensures
        r == match transfer.word() {
            Some(word) => Ok::<i32, EngineError>(signed_of(word)),
            None => Err::<i32, EngineError>(EngineError::MemoryReadFailed),
        },
{
    if transfer.is_complete() {
        Ok(to_signed(transfer.word))
    } else {
        Err(EngineError::MemoryReadFailed)
    }
}

/// The result of a write: done if four bytes moved, `MemoryWriteFailed`
/// for every other count.
pub fn write_i32(moved: usize) -> (r: Result<(), EngineError>)
    ensures
        r == if moved == 4 {
            Ok::<(), EngineError>(())
        } else {
            Err::<(), EngineError>(EngineError::MemoryWriteFailed)
        },
{
    if moved == WORD_BYTES {
        Ok(())
    } else {
        Err(EngineError::MemoryWriteFailed)
    }
}

} // verus!
