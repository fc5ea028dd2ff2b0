//! The sandbox's configuration: the raw options and the immutable context
//! the supervisor runs with.
//!
//! Identifiers below 100 name the sandboxes; each owns the host user
//! `omogenexec-user<id>` in the group `omogenexec-users`, and the
//! container directory `/var/lib/omogen/sandbox/<id>`. Durations are
//! carried in nanoseconds and the memory limit in bytes.

use crate::decimal::{dec_str, u64_to_dec};
use vstd::prelude::*;

verus! {

/// How many sandboxes may exist; ids range over `[0, MAX_CONTAINERS)`.
pub const MAX_CONTAINERS: u32 = 100;

/// The raw command-line options, validated before use.
pub struct Opt {
    pub sandbox_id: u32,
    pub stdin: Option<String>,
    pub stdout: Option<String>,
    pub stderr: Option<String>,
    pub readable: Vec<String>,
    pub writable: Vec<String>,
    pub working_dir: String,
    pub no_default_mounts: bool,
    pub env: Vec<String>,
    pub blocks: u64,
    pub inodes: u64,
    pub memory_mb: u64,
    pub time_lim_ms: u64,
    pub wall_time_lim_ms: u64,
    pub pid_limit: i64,
}

/// Accepts the options iff the sandbox id is in range.
pub fn validated_opts(opt: Opt) -> (r: Result<Opt, String>)
    ensures
        r.is_ok() == (opt.sandbox_id < MAX_CONTAINERS),
        match r {
            Ok(o) => o == opt,
            Err(_) => opt.sandbox_id >= MAX_CONTAINERS,
        },
{
    if opt.sandbox_id >= MAX_CONTAINERS {
        return Err(String::from_str("sandbox id out of range"));
    }
    Ok(opt)
}

/// The host user that runs sandbox `sandbox_id`'s commands.
pub fn sandbox_user_name(sandbox_id: u32) -> (name: String)
    ensures
        name@ == "omogenexec-user"@ + dec_str(sandbox_id as nat),
{
    String::from_str("omogenexec-user").concat(u64_to_dec(sandbox_id as u64).as_str())
}

/// The group all sandbox users belong to.
pub fn sandbox_group_name() -> (name: String)
    ensures
        name@ == "omogenexec-users"@,
{
    String::from_str("omogenexec-users")
}

/// The directory all container roots live under.
pub fn container_root_path() -> (p: String)
    ensures
        p@ == "/var/lib/omogen/sandbox"@,
{
    String::from_str("/var/lib/omogen/sandbox")
}

/// The host directory that becomes sandbox `sandbox_id`'s root.
pub fn container_path_for(sandbox_id: u32) -> (p: String)
    ensures
        p@ == "/var/lib/omogen/sandbox/"@ + dec_str(sandbox_id as nat),
{
    String::from_str("/var/lib/omogen/sandbox/").concat(u64_to_dec(sandbox_id as u64).as_str())
}

/// The supervisor's immutable per-sandbox configuration.
#[derive(Clone)]
pub struct Context {
    pub sandbox_id: u32,
    pub sandbox_uid: u32,
    pub sandbox_gid: u32,
    pub container_path: String,
    pub stdin: String,
    pub stdout: String,
    pub stderr: String,
    pub readable: Vec<String>,
    pub writable: Vec<String>,
    pub working_directory: String,
    pub env: Vec<String>,
    pub mem_limit_bytes: i64,
    pub time_lim_ns: u64,
    pub wall_time_lim_ns: u64,
    pub pid_limit: i64,
    pub default_mounts: bool,
}

/// The path a possibly-absent stream option denotes; absent means the
/// empty string, which in turn means "close this stream".
pub open spec fn stream_path_of(o: Option<String>) -> Seq<char> {
    match o {
        Some(s) => s@,
        None => Seq::empty(),
    }
}

fn stream_path(o: Option<String>) -> (s: String)
    ensures
        s@ == stream_path_of(o),
{
    match o {
        Some(s) => s,
        None => String::new(),
    }
}

/// Builds the supervisor context from validated options and the resolved
/// sandbox user and group.
///
/// Fails iff the id is out of range or a limit, scaled to its carried
/// unit, exceeds its type: the memory limit in bytes must fit `i64`, the
/// two time limits in nanoseconds must fit `u64`.
pub fn build_context(opt: Opt, sandbox_uid: u32, sandbox_gid: u32) -> (r: Result<Context, String>)
    ensures
        r.is_ok() == (opt.sandbox_id < MAX_CONTAINERS && opt.memory_mb * 1048576 <= i64::MAX
            && opt.time_lim_ms * 1000000 <= u64::MAX && opt.wall_time_lim_ms * 1000000
            <= u64::MAX),
        match r {
            Ok(c) => {
                &&& c.sandbox_id == opt.sandbox_id
                &&& c.sandbox_uid == sandbox_uid
                &&& c.sandbox_gid == sandbox_gid
                &&& c.container_path@ == "/var/lib/omogen/sandbox/"@ + dec_str(
                    opt.sandbox_id as nat,
                )
                &&& c.stdin@ == stream_path_of(opt.stdin)
                &&& c.stdout@ == stream_path_of(opt.stdout)
                &&& c.stderr@ == stream_path_of(opt.stderr)
                &&& c.readable == opt.readable
                &&& c.writable == opt.writable
                &&& c.working_directory == opt.working_dir
                &&& c.env == opt.env
                &&& c.mem_limit_bytes == opt.memory_mb * 1048576
                &&& c.time_lim_ns == opt.time_lim_ms * 1000000
                &&& c.wall_time_lim_ns == opt.wall_time_lim_ms * 1000000
                &&& c.pid_limit == opt.pid_limit
                &&& c.default_mounts == !opt.no_default_mounts
            },
            Err(_) => true,
        },
{
    if opt.sandbox_id >= MAX_CONTAINERS {
        return Err(String::from_str("sandbox id out of range"));
    }
    let mem_bytes = match opt.memory_mb.checked_mul(1048576) {
        Some(b) => b,
        None => {
            proof {
                assert(opt.memory_mb * 1048576 > i64::MAX) by (nonlinear_arith)
                    requires
                        opt.memory_mb * 1048576 > u64::MAX,
                ;
            }
            return Err(String::from_str("memory limit too large"));
        },
    };
    if mem_bytes > i64::MAX as u64 {
        return Err(String::from_str("memory limit too large"));
    }
    let time_lim_ns = match opt.time_lim_ms.checked_mul(1000000) {
        Some(v) => v,
        None => {
            return Err(String::from_str("time limit too large"));
        },
    };
    let wall_time_lim_ns = match opt.wall_time_lim_ms.checked_mul(1000000) {
        Some(v) => v,
        None => {
            return Err(String::from_str("wall time limit too large"));
        },
    };
    let container_path = container_path_for(opt.sandbox_id);
    Ok(
        Context {
            sandbox_id: opt.sandbox_id,
            sandbox_uid,
            sandbox_gid,
            container_path,
            stdin: stream_path(opt.stdin),
            stdout: stream_path(opt.stdout),
            stderr: stream_path(opt.stderr),
            readable: opt.readable,
            writable: opt.writable,
            working_directory: opt.working_dir,
            env: opt.env,
            mem_limit_bytes: mem_bytes as i64,
            time_lim_ns,
            wall_time_lim_ns,
            pid_limit: opt.pid_limit,
            default_mounts: !opt.no_default_mounts,
        },
    )
}

} // verus!
