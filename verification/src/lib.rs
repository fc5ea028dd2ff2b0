//! Verified core of a judge-style Linux sandbox supervisor.
//!
//! The supervisor process builds a container from bind mounts, applies
//! cgroup and quota limits, and runs a stream of commands, one at a time,
//! reporting exit status and CPU time for each. Everything that merely
//! computes — frame parsing, mount planning, limit decisions, result
//! formatting — lives here, with contracts; the thin process that performs
//! the system calls consumes these plans and decisions.

pub mod bytes;
pub mod cgroup;
pub mod context;
pub mod decimal;
pub mod frame;
pub mod monitor;
pub mod mounts;
pub mod paths;
pub mod quota;
pub mod report;
pub mod status;
pub mod streams;
