//! Decisions of the per-command monitoring loop.
//!
//! While a command runs, the supervisor polls: reap without blocking,
//! read the CPU counter, check the clocks, sleep with exponential backoff.
//! The decisions — when to stop polling, how long to sleep next, how to
//! difference two counter readings — live here; the loop around them only
//! performs the calls.

use vstd::prelude::*;

verus! {

/// One extra second of CPU time past the limit is tolerated while
/// polling, so that near misses still display their full measured time.
pub const CPU_GRACE_NS: u64 = 1000000000;

/// Whether polling must stop and the kill sweep begin: the wall clock has
/// passed its limit, or the CPU counter has passed its limit by more than
/// the display grace.
pub fn should_stop(cpu_delta_ns: u64, wall_ns: u64, time_lim_ns: u64, wall_lim_ns: u64) -> (r:
    bool)
    ensures
        r == (wall_ns > wall_lim_ns || cpu_delta_ns > time_lim_ns + CPU_GRACE_NS),
{
    if wall_ns > wall_lim_ns {
        true
    } else if cpu_delta_ns >= CPU_GRACE_NS {
        cpu_delta_ns - CPU_GRACE_NS > time_lim_ns
    } else {
        false
    }
}

/// The next poll interval: doubled, capped at 100 ms.
pub fn next_backoff(sleep_ms: u64) -> (r: u64)
    ensures
        r == if 2 * sleep_ms > 100 {
            100u64
        } else {
            (2 * sleep_ms) as u64
        },
{
    if sleep_ms > 50 {
        100
    } else {
        2 * sleep_ms
    }
}

/// The CPU spent since the snapshot `before`, clamped at zero should the
/// counter ever read lower than the snapshot.
pub fn cpu_delta(now_ns: u64, before_ns: u64) -> (r: u64)
    ensures
        now_ns >= before_ns ==> r == now_ns - before_ns,
        now_ns < before_ns ==> r == 0,
{
    if now_ns >= before_ns {
        now_ns - before_ns
    } else {
        0
    }
}

/// Whether the child's handshake payload reports a successful setup: the
/// exact bytes `ok`, and nothing else.
pub fn setup_payload_ok(payload: &String) -> (r: bool)
    ensures
        r == (payload@ == "ok"@),
{
    let expect = String::from_str("ok");
    *payload == expect
}

} // verus!
