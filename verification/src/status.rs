//! Classification of a raw wait status word.
//!
//! The kernel packs a child's fate into one integer: a zero low seven bits
//! mean a normal exit with the code in the second byte; a low byte of 127
//! means the child is stopped with the signal in the second byte; any
//! other low-seven-bits value is the terminating signal. Statuses outside
//! these three documented classes are reported by their low seven bits as
//! a signal.

use vstd::prelude::*;

verus! {

/// What happened to a reaped child.
#[derive(Clone, Copy, Debug, PartialEq, Eq, Structural)]
pub enum ChildStatus {
    /// Exited normally with this code.
    Exited(u32),
    /// Terminated (or, failing the classes above, tagged) by this signal.
    Signaled(u32),
    /// Stopped by this signal.
    Stopped(u32),
}

/// The classification of the status word `s`.
pub open spec fn spec_wait_status(s: u32) -> ChildStatus {
    if s % 128 == 0 {
        ChildStatus::Exited((s / 256) % 256)
    } else if s % 256 == 127 {
        ChildStatus::Stopped((s / 256) % 256)
    } else {
        ChildStatus::Signaled(s % 128)
    }
}

/// Classifies a raw wait status word.
pub fn decode_wait_status(s: u32) -> (r: ChildStatus)
    ensures
        r == spec_wait_status(s),
{
    if s % 128 == 0 {
        ChildStatus::Exited((s / 256) % 256)
    } else if s % 256 == 127 {
        ChildStatus::Stopped((s / 256) % 256)
    } else {
        ChildStatus::Signaled(s % 128)
    }
}

} // verus!
