use vstd::prelude::*;

verus! {

/// The closed set of failure conditions that foreign-call emulation can
/// report. `ProcessExit` and `FatalAbort` end the whole run; every other
/// kind is an ordinary call failure that surfaces to the caller unchanged.
#[derive(Debug)]
pub enum EmulError {
    /// A foreign symbol that no handler covers; carries the symbol name.
    UnsupportedSymbol(Vec<u8>),
    /// A caller broke an interface contract (wrong argument shape, wrong
    /// allocator size/alignment pairing, and the like); carries a detail.
    ContractViolation(String),
    /// The tracked allocator ABI was invoked with size zero.
    ZeroSizeNotAllowed,
    /// An allocation was requested with an alignment that is not a power
    /// of two; carries the offending alignment.
    NonPowerOfTwoAlignment(usize),
    /// The thread-local-storage key space of the destination type is used up.
    KeySpaceExhausted,
    /// Random bytes were requested while no entropy source is enabled.
    EntropyUnavailable,
    /// An emulated memory access was out of bounds, dangling, or used the
    /// wrong provenance.
    MemoryAccessFault,
    /// The guest program exited with the given status code.
    ProcessExit(i32),
    /// The guest program aborted or raised an unrecoverable panic.
    FatalAbort,
}

impl EmulError {
    /// True for the two conditions that terminate the whole run rather
    /// than being reported to the caller as a failed call.
    pub open spec fn spec_is_diverging(self) -> bool {
        self is ProcessExit || self is FatalAbort
    }

    /// Decides whether this failure ends the run.
    pub fn is_diverging(&self) -> (r: bool)
        ensures
            r == self.spec_is_diverging(),
    {
        match self {
            EmulError::ProcessExit(_) => true,
            EmulError::FatalAbort => true,
            _ => false,
        }
    }
}

} // verus!
