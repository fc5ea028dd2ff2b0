//! Choosing the block device whose quota to set.
//!
//! The sandbox root's device number is matched against the mounted
//! filesystems; the first mount on the same device names the source
//! device that `quotactl` is pointed at.

use vstd::prelude::*;

verus! {

/// One mounted filesystem: the device number of its mount point and the
/// mount source that names its block device.
pub struct MountEntry {
    pub dev: u64,
    pub source: String,
}

/// The first mount whose mount point sits on `sandbox_dev`, or `None`
/// when no mount does.
pub fn find_quota_source(sandbox_dev: u64, mounts: &Vec<MountEntry>) -> (r: Option<usize>)
    ensures
        match r {
            Some(i) => i < mounts@.len() && mounts@[i as int].dev == sandbox_dev && forall|j: int|
                0 <= j < i ==> mounts@[j].dev != sandbox_dev,
            None => forall|j: int| 0 <= j < mounts@.len() ==> mounts@[j].dev != sandbox_dev,
        },
{
    let mut i: usize = 0;
    while i < mounts.len()
        invariant
            0 <= i <= mounts@.len(),
            forall|j: int| 0 <= j < i ==> mounts@[j].dev != sandbox_dev,
        decreases mounts@.len() - i,
    {
        if mounts[i].dev == sandbox_dev {
            return Some(i);
        }
        i = i + 1;
    }
    None
}

} // verus!
