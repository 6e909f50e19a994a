use vstd::prelude::*;

verus! {

/// The field of the pixel stream that a truncated buffer could not supply.
/// Page indices are zero-based.
#[derive(Clone, Copy, Debug, PartialEq, Eq, Structural)]
pub enum StreamField {
    PageCount,
    Width(u16),
    Height(u16),
    Pixels(u16),
}

/// Failures of the decoding and assembling stages.
#[derive(Clone, Copy, Debug, PartialEq, Eq, Structural)]
pub enum ConversionError {
    /// The pixel stream ended before `field` was complete: it needed
    /// `expected` bytes where only `available` were left.
    TruncatedStream { field: StreamField, expected: u64, available: u64 },
    /// The assembler was handed no pages.
    EmptyDocument,
}

} // verus!
