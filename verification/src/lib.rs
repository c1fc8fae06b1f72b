//! Verified core of a kernel-framebuffer wall display.
//!
//! The library resolves the in-memory layout of the kernel's framebuffer
//! descriptor from compact type metadata, reads the live descriptor out of a
//! kernel-memory image, and mirrors application-rendered images into the
//! device's pixel buffer with dirty-chunk diffing and a randomized flush
//! order.  All reasoning happens over plain data handed in by the caller;
//! the privileged reads and writes themselves stay outside the library.

use vstd::prelude::*;

pub mod ctf;
pub mod fb;
pub mod kvm;

verus! {

/// Failure taxonomy for the whole core.
///
/// Every error of the locating phase is fatal to engine construction; the
/// steady-state flush path never reports an error at all.
#[derive(Clone, Copy, Debug, PartialEq, Eq, Structural)]
pub enum Error {
    /// The type-info container is unreadable or corrupt.
    FormatError,
    /// A symbol, type or member with the requested name is absent.
    NotFound,
    /// A member's bit offset is not byte-aligned.
    AlignmentError,
    /// A privileged resource could not be opened.
    AccessError,
    /// A read failed or returned fewer bytes than requested.
    IoError,
    /// A member walk over a type reported a nonzero status.
    IterationError,
    /// A type name could not be produced.
    NameResolutionError,
}

} // verus!
