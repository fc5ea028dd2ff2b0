//! The container's mount tree, computed as data.
//!
//! A `Mount` names a host path, a destination inside the container, and
//! whether the destination is writable. Planning turns the declarative
//! mount list into an ordered sequence of bind mounts — procfs first, then
//! the standard system directories, then read-only user mounts, then
//! writable ones (so a writable spec for the same destination wins), then
//! the optional alternate library directories. Each bind is applied as a
//! bind mount and immediately remounted with the same flags, because
//! read-only takes effect only on remount.

use crate::paths::{
    find_char, find_char_in, is_absolute_path, join_under, joined_under, path_is_absolute,
};
use vstd::prelude::*;

verus! {

/// One requested mount: host path `outside`, container destination
/// `inside`, writable or read-only.
pub struct Mount {
    pub inside: String,
    pub outside: String,
    pub writable: bool,
}

/// A mount that makes `path` visible read-only at the same location inside
/// the container.
pub fn read_only_copy_mount(path: String) -> (m: Mount)
    ensures
        m.inside@ == path@,
        m.outside@ == path@,
        !m.writable,
{
    Mount { inside: path.clone(), outside: path, writable: false }
}

/// One planned bind mount: `source` on the host, `target` under the
/// container root, mounted read-only unless writable was asked for.
pub struct BindMount {
    pub source: String,
    pub target: String,
    pub read_only: bool,
}

/// The host-path half of a mount list entry: the part before the first
/// `:`, or the whole entry when there is none.
pub open spec fn mount_outside_of(entry: Seq<char>) -> Seq<char> {
    match find_char(entry, ':') {
        None => entry,
        Some(i) => entry.subrange(0, i as int),
    }
}

/// The container-path half of a mount list entry: the part after the first
/// `:`, or the whole entry when there is none.
pub open spec fn mount_inside_of(entry: Seq<char>) -> Seq<char> {
    match find_char(entry, ':') {
        None => entry,
        Some(i) => entry.subrange(i + 1 as int, entry.len() as int),
    }
}

/// Splits a mount list entry `outside[:inside]` at its first `:`; without
/// a `:` the path is mounted at the same location inside.
pub fn parse_mount_path(path: &str) -> (r: (String, String))
    ensures
        r.0@ == mount_outside_of(path@),
        r.1@ == mount_inside_of(path@),
{
    proof {
        crate::paths::lemma_find_char(path@, ':');
    }
    let n = path.unicode_len();
    match find_char_in(path, ':') {
        None => (String::from_str(path), String::from_str(path)),
        Some(i) => (
            String::from_str(path.substring_char(0, i)),
            String::from_str(path.substring_char(i + 1, n)),
        ),
    }
}

/// The planned bind for `m` under `root` holds `b`'s fields: same source,
/// target joined under the root, read-only unless writable.
pub open spec fn bind_matches(b: BindMount, root: Seq<char>, m: Mount) -> bool {
    &&& b.source@ == m.outside@
    &&& b.target@ == joined_under(root, m.inside@)
    &&& b.read_only == !m.writable
}

/// Plans one bind mount under `root`. Rejected exactly when the host path
/// is not absolute.
pub fn make_mount(root: &str, mount_opts: &Mount) -> (r: Result<BindMount, String>)
    ensures
        r.is_ok() == is_absolute_path(mount_opts.outside@),
        match r {
            Ok(b) => bind_matches(b, root@, *mount_opts),
            Err(_) => !is_absolute_path(mount_opts.outside@),
        },
{
    if !path_is_absolute(mount_opts.outside.as_str()) {
        return Err(String::from_str("mount path is not absolute"));
    }
    Ok(
        BindMount {
            source: mount_opts.outside.clone(),
            target: join_under(root, mount_opts.inside.as_str()),
            read_only: !mount_opts.writable,
        },
    )
}

/// Every accepted mount whose destination still names something once its
/// leading slash is stripped gets a target strictly under the container
/// root.
pub proof fn lemma_mount_target_strictly_under(root: Seq<char>, m: Mount, b: BindMount)
    requires
        bind_matches(b, root, m),
        crate::paths::stripped(m.inside@).len() > 0,
    ensures
        crate::paths::strictly_under(b.target@, root),
{
    crate::paths::lemma_join_strictly_under(root, m.inside@);
}

/// A read-only same-location bind of `path` under `root`.
pub open spec fn ro_copy_bind(b: BindMount, root: Seq<char>, path: Seq<char>) -> bool {
    &&& b.source@ == path
    &&& b.target@ == joined_under(root, path)
    &&& b.read_only
}

/// The planned bind for the list entry `entry` under `root`, read-only
/// unless the entry came from the writable list.
pub open spec fn entry_bind(b: BindMount, root: Seq<char>, entry: Seq<char>, writable: bool) -> bool {
    &&& b.source@ == mount_outside_of(entry)
    &&& b.target@ == joined_under(root, mount_inside_of(entry))
    &&& b.read_only == !writable
}

/// Whether a mount list entry names an absolute host path.
pub open spec fn entry_ok(entry: Seq<char>) -> bool {
    is_absolute_path(mount_outside_of(entry))
}

/// Whether every entry of a mount list names an absolute host path.
pub open spec fn all_entries_ok(entries: Seq<String>) -> bool {
    forall|i: int| 0 <= i < entries.len() ==> entry_ok(#[trigger] entries[i]@)
}

fn ro_copy_bind_for(root: &str, path: &str) -> (b: BindMount)
    ensures
        ro_copy_bind(b, root@, path@),
{
    BindMount {
        source: String::from_str(path),
        target: join_under(root, path),
        read_only: true,
    }
}

/// How many standard system mounts the plan begins with.
pub open spec fn default_mount_count(default_mounts: bool) -> int {
    if default_mounts {
        4
    } else {
        0
    }
}

/// How many alternate library mounts the plan ends with.
pub open spec fn alt_lib_count(
    default_mounts: bool,
    have_usr_lib32: bool,
    have_lib64: bool,
    have_lib32: bool,
) -> int {
    if default_mounts {
        (if have_usr_lib32 {
            1int
        } else {
            0int
        }) + (if have_lib64 {
            1int
        } else {
            0int
        }) + (if have_lib32 {
            1int
        } else {
            0int
        })
    } else {
        0
    }
}

/// The full ordered mount plan for one container.
pub struct MountPlan {
    pub proc_target: String,
    pub binds: Vec<BindMount>,
}

/// Plans the container's mounts in order: the standard read-only system
/// directories when `default_mounts` is set, then the `readable` entries,
/// then the `writable` entries, then whichever of the alternate library
/// directories exist on the host (`have_*`). Fails exactly when some
/// entry's host path is not absolute.
pub fn mount_plan(
    container_path: &str,
    default_mounts: bool,
    readable: &Vec<String>,
    writable: &Vec<String>,
    have_usr_lib32: bool,
    have_lib64: bool,
    have_lib32: bool,
) -> (r: Result<MountPlan, String>)
    ensures
        r.is_ok() == (all_entries_ok(readable@) && all_entries_ok(writable@)),
        match r {
            Ok(plan) => {
                let dc = default_mount_count(default_mounts);
                let rc = readable@.len() as int;
                let wc = writable@.len() as int;
                let base = dc + rc + wc;
                let u = if default_mounts && have_usr_lib32 {
                    1int
                } else {
                    0int
                };
                let l64 = if default_mounts && have_lib64 {
                    1int
                } else {
                    0int
                };
                &&& plan.proc_target@ == joined_under(container_path@, "proc"@)
                &&& plan.binds@.len() == base + alt_lib_count(
                    default_mounts,
                    have_usr_lib32,
                    have_lib64,
                    have_lib32,
                )
                &&& default_mounts ==> {
                    &&& ro_copy_bind(plan.binds@[0], container_path@, "/bin"@)
                    &&& ro_copy_bind(plan.binds@[1], container_path@, "/usr/bin"@)
                    &&& ro_copy_bind(plan.binds@[2], container_path@, "/usr/lib"@)
                    &&& ro_copy_bind(plan.binds@[3], container_path@, "/lib"@)
                }
                &&& forall|i: int|
                    0 <= i < rc ==> entry_bind(
                        #[trigger] plan.binds@[dc + i],
                        container_path@,
                        readable@[i]@,
                        false,
                    )
                &&& forall|i: int|
                    0 <= i < wc ==> entry_bind(
                        #[trigger] plan.binds@[dc + rc + i],
                        container_path@,
                        writable@[i]@,
                        true,
                    )
                &&& default_mounts && have_usr_lib32 ==> ro_copy_bind(
                    plan.binds@[base],
                    container_path@,
                    "/usr/lib32"@,
                )
                &&& default_mounts && have_lib64 ==> ro_copy_bind(
                    plan.binds@[base + u],
                    container_path@,
                    "/lib64"@,
                )
                &&& default_mounts && have_lib32 ==> ro_copy_bind(
                    plan.binds@[base + u + l64],
                    container_path@,
                    "/lib32"@,
                )
            },
            Err(_) => !(all_entries_ok(readable@) && all_entries_ok(writable@)),
        },
{
    let ghost root = container_path@;
    let proc_target = join_under(container_path, "proc");
    let mut binds: Vec<BindMount> = Vec::new();

    if default_mounts {
        binds.push(ro_copy_bind_for(container_path, "/bin"));
        binds.push(ro_copy_bind_for(container_path, "/usr/bin"));
        binds.push(ro_copy_bind_for(container_path, "/usr/lib"));
        binds.push(ro_copy_bind_for(container_path, "/lib"));
    }
    let ghost dc = default_mount_count(default_mounts);

    let mut i: usize = 0;
    while i < readable.len()
        invariant
            0 <= i <= readable@.len(),
            binds@.len() == dc + i,
            dc == default_mount_count(default_mounts),
            default_mounts ==> {
                &&& ro_copy_bind(binds@[0], root, "/bin"@)
                &&& ro_copy_bind(binds@[1], root, "/usr/bin"@)
                &&& ro_copy_bind(binds@[2], root, "/usr/lib"@)
                &&& ro_copy_bind(binds@[3], root, "/lib"@)
            },
            root == container_path@,
            forall|j: int| 0 <= j < i ==> entry_ok(#[trigger] readable@[j]@),
            forall|j: int|
                0 <= j < i ==> entry_bind(#[trigger] binds@[dc + j], root, readable@[j]@, false),
        decreases readable@.len() - i,
    {
        let (outside, inside) = parse_mount_path(readable[i].as_str());
        match make_mount(container_path, &Mount { outside, inside, writable: false }) {
            Ok(b) => binds.push(b),
            Err(e) => {
                assert(!entry_ok(readable@[i as int]@));
                return Err(e);
            },
        }
        i = i + 1;
    }

    let mut i: usize = 0;
    while i < writable.len()
        invariant
            0 <= i <= writable@.len(),
            binds@.len() == dc + readable@.len() + i,
            dc == default_mount_count(default_mounts),
            default_mounts ==> {
                &&& ro_copy_bind(binds@[0], root, "/bin"@)
                &&& ro_copy_bind(binds@[1], root, "/usr/bin"@)
                &&& ro_copy_bind(binds@[2], root, "/usr/lib"@)
                &&& ro_copy_bind(binds@[3], root, "/lib"@)
            },
            root == container_path@,
            all_entries_ok(readable@),
            forall|j: int|
                0 <= j < readable@.len() ==> entry_bind(
                    #[trigger] binds@[dc + j],
                    root,
                    readable@[j]@,
                    false,
                ),
            forall|j: int| 0 <= j < i ==> entry_ok(#[trigger] writable@[j]@),
            forall|j: int|
                0 <= j < i ==> entry_bind(
                    #[trigger] binds@[dc + readable@.len() + j],
                    root,
                    writable@[j]@,
                    true,
                ),
        decreases writable@.len() - i,
    {
        let (outside, inside) = parse_mount_path(writable[i].as_str());
        match make_mount(container_path, &Mount { outside, inside, writable: true }) {
            Ok(b) => binds.push(b),
            Err(e) => {
                assert(!entry_ok(writable@[i as int]@));
                return Err(e);
            },
        }
        i = i + 1;
    }

    if default_mounts {
        if have_usr_lib32 {
            binds.push(ro_copy_bind_for(container_path, "/usr/lib32"));
        }
        if have_lib64 {
            binds.push(ro_copy_bind_for(container_path, "/lib64"));
        }
        if have_lib32 {
            binds.push(ro_copy_bind_for(container_path, "/lib32"));
        }
    }

    Ok(MountPlan { proc_target, binds })
}

} // verus!
