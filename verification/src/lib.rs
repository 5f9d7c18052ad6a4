//! Lifecycle of a hardware-isolated execution environment (an SGX enclave):
//! translating an executable image into page-aligned segments, building and
//! measuring the enclave in lock-step, signing the measurement, and driving
//! the per-thread enter/exit state machine together with the syscall-proxy
//! protocol that crosses the trust boundary.
//!
//! The hardware control surface (device ioctls), the raw entry trampoline and
//! the ELF parser are external collaborators: this crate computes every
//! decision and every byte layout, and an unverified shell performs the
//! hardware calls.

use vstd::prelude::*;

pub mod block;
pub mod builder;
pub mod keep;
pub mod measure;
pub mod proxy;
pub mod segment;
pub mod sign;
pub mod thread;

verus! {

/// The hardware page size, in bytes.
pub const PAGE_SIZE: usize = 4096;

/// Every failure surfaced by this crate.
///
/// Overlapping segments, a partial page, a depth underflow, an unexpected
/// exit and a missing request or reply are fatal defects: a broken
/// invariant after which the caller must abandon the enclave (the expected
/// behaviour is to abort the process). An oversized payload and the two
/// signing failures are propagated errors: the operation failed and
/// construction is abandoned, but nothing is inconsistent.
#[derive(Clone, Copy, Debug, PartialEq, Eq, Structural)]
pub enum Error {
    /// Two segments claim the same virtual page: a construction defect.
    OverlappingSegments,
    /// The payload image does not fit in the slot the runtime image reserves.
    CodeTooLarge,
    /// A segment buffer is not a whole number of pages.
    InvalidSegmentSize,
    /// A resume transition would drive the nested-exception depth below zero.
    DepthUnderflow,
    /// The hardware reported an asynchronous exit this runtime cannot resume.
    UnexpectedExit,
    /// The shared block held no request where the protocol requires one.
    MissingRequest,
    /// The shared block held no reply where the protocol requires one.
    MissingReply,
    /// The signing key could not be generated.
    KeyGeneration,
    /// The signature over the measurement could not be produced.
    Signing,
}

} // verus!
