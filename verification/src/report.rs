//! The per-command result: which verdict a finished command earns and the
//! exact lines the supervisor prints for it.
//!
//! Every command yields exactly three lines, in order: one status line
//! (`code N`, `signal S`, `killed tle` or `killed setup`), one `cpu <ms>`
//! line, and `done`.

use crate::decimal::{dec_str, u64_to_dec};
use crate::status::{spec_wait_status, ChildStatus, decode_wait_status};
use vstd::prelude::*;

verus! {

/// The one status a command is reported with.
#[derive(Clone, Copy, Debug, PartialEq, Eq, Structural)]
pub enum Verdict {
    /// The command exited with this code.
    Code(u32),
    /// The command was terminated or stopped by this signal.
    Signal(u32),
    /// The command overran its CPU or wall-clock limit.
    TimeLimitExceeded,
    /// The command never started: stream redirection failed in the child.
    SetupFailed,
}

/// The verdict a reaped child's status maps to.
pub open spec fn status_verdict(cs: ChildStatus) -> Verdict {
    match cs {
        ChildStatus::Exited(c) => Verdict::Code(c),
        ChildStatus::Signaled(g) => Verdict::Signal(g),
        ChildStatus::Stopped(g) => Verdict::Signal(g),
    }
}

/// The verdict for one finished command. A setup failure wins over
/// everything; then a limit breach or a final CPU time over the limit is
/// `TimeLimitExceeded`; otherwise the wait status decides. The unreaped,
/// unbreached case cannot arise (polling stops only on reap or breach)
/// and is mapped to `SetupFailed`.
pub open spec fn spec_verdict(
    setup_ok: bool,
    breached: bool,
    reaped: Option<u32>,
    cpu_ns: u64,
    time_lim_ns: u64,
) -> Verdict {
    if !setup_ok {
        Verdict::SetupFailed
    } else if breached || cpu_ns > time_lim_ns {
        Verdict::TimeLimitExceeded
    } else {
        match reaped {
            Some(s) => status_verdict(spec_wait_status(s)),
            None => Verdict::SetupFailed,
        }
    }
}

/// Picks the verdict for one finished command.
///
/// `setup_ok` is the child's handshake payload test, `breached` whether
/// polling stopped on a wall-clock or CPU-grace breach, `reaped` the wait
/// status if the child was reaped, and `cpu_ns` the final CPU reading.
/// The command is reported killed for time iff a breach was observed or
/// the final CPU time exceeds the limit; a setup failure suppresses every
/// other status. Polling only stops once the child is reaped or a limit
/// is breached, so those are the only inputs asked for.
pub fn command_verdict(
    setup_ok: bool,
    breached: bool,
    reaped: Option<u32>,
    cpu_ns: u64,
    time_lim_ns: u64,
) -> (v: Verdict)
    requires
        setup_ok && !breached ==> reaped.is_some(),
    ensures
        v == spec_verdict(setup_ok, breached, reaped, cpu_ns, time_lim_ns),
        (v == Verdict::SetupFailed) <==> !setup_ok,
        setup_ok ==> ((v == Verdict::TimeLimitExceeded) <==> (breached || cpu_ns > time_lim_ns)),
        setup_ok && !breached && cpu_ns <= time_lim_ns ==> v == status_verdict(
            spec_wait_status(reaped.unwrap()),
        ),
{
    if !setup_ok {
        Verdict::SetupFailed
    } else if breached || cpu_ns > time_lim_ns {
        Verdict::TimeLimitExceeded
    } else {
        match reaped {
            Some(s) => match decode_wait_status(s) {
                ChildStatus::Exited(c) => Verdict::Code(c),
                ChildStatus::Signaled(g) => Verdict::Signal(g),
                ChildStatus::Stopped(g) => Verdict::Signal(g),
            },
            None => Verdict::SetupFailed,  // unreachable: polling stopped without reap or breach
        }
    }
}

/// The status line for a verdict.
pub open spec fn status_line(v: Verdict) -> Seq<char> {
    match v {
        Verdict::Code(c) => "code "@ + dec_str(c as nat),
        Verdict::Signal(g) => "signal "@ + dec_str(g as nat),
        Verdict::TimeLimitExceeded => "killed tle"@,
        Verdict::SetupFailed => "killed setup"@,
    }
}

/// The CPU line: the command's CPU time in whole milliseconds.
pub open spec fn cpu_line(cpu_ms: nat) -> Seq<char> {
    "cpu "@ + dec_str(cpu_ms)
}

/// The three lines reported for one command, in print order: the status
/// line, the CPU line (nanoseconds rounded down to milliseconds), `done`.
pub fn report_lines(v: &Verdict, cpu_ns: u64) -> (lines: Vec<String>)
    ensures
        lines@.len() == 3,
        lines@[0]@ == status_line(*v),
        lines@[1]@ == cpu_line((cpu_ns / 1000000) as nat),
        lines@[2]@ == "done"@,
{
    let status: String = match v {
        Verdict::Code(c) => String::from_str("code ").concat(u64_to_dec(*c as u64).as_str()),
        Verdict::Signal(g) => String::from_str("signal ").concat(u64_to_dec(*g as u64).as_str()),
        Verdict::TimeLimitExceeded => String::from_str("killed tle"),
        Verdict::SetupFailed => String::from_str("killed setup"),
    };
    let cpu: String = String::from_str("cpu ").concat(u64_to_dec(cpu_ns / 1000000).as_str());
    let mut lines: Vec<String> = Vec::new();
    lines.push(status);
    lines.push(cpu);
    lines.push(String::from_str("done"));
    lines
}

/// The full report for one finished command: exactly one status line, one
/// CPU line and one `done` line, in that order, from the raw monitoring
/// outcome. The CPU time is the counter's travel since the pre-exec
/// snapshot, clamped at zero.
pub fn command_report(
    setup_ok: bool,
    breached: bool,
    reaped: Option<u32>,
    cpu_before_ns: u64,
    cpu_after_ns: u64,
    time_lim_ns: u64,
) -> (lines: Vec<String>)
    requires
        setup_ok && !breached ==> reaped.is_some(),
    ensures
        ({
            let cpu_ns: u64 = if cpu_after_ns >= cpu_before_ns {
                (cpu_after_ns - cpu_before_ns) as u64
            } else {
                0u64
            };
            &&& lines@.len() == 3
            &&& lines@[0]@ == status_line(
                spec_verdict(setup_ok, breached, reaped, cpu_ns, time_lim_ns),
            )
            &&& lines@[1]@ == cpu_line((cpu_ns / 1000000) as nat)
            &&& lines@[2]@ == "done"@
        }),
{
    let cpu_ns = crate::monitor::cpu_delta(cpu_after_ns, cpu_before_ns);
    let v = command_verdict(setup_ok, breached, reaped, cpu_ns, time_lim_ns);
    report_lines(&v, cpu_ns)
}

} // verus!
