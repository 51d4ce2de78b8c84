use vstd::prelude::*;

verus! {

/// Everything that can go wrong in one engine operation.
#[derive(Clone, Copy, Debug, PartialEq, Eq, Structural)]
pub enum EngineError {
    /// No window with the configured class and title exists.
    ProcessNotFound,
    /// The process could not be opened with the access the engine needs.
    HandleOpenFailed,
    /// A read moved some number of bytes other than four.
    MemoryReadFailed,
    /// A write moved some number of bytes other than four.
    MemoryWriteFailed,
    /// The text given for a write is not a decimal 32-bit integer.
    InvalidInput,
    /// The host has no way to reach another process's memory.
    UnsupportedPlatform,
}

} // verus!
