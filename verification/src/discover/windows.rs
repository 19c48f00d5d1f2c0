//! The Windows probe.
//!
//! Two search roots are examined: the fixed default install directory
//! and, when resolvable, the user's home directory. Every subdirectory of
//! a root is a candidate install root of its own, validated with the
//! package-config strategy and its query fallback. A missing root is
//! skipped like any invalid candidate, so the result may be empty without
//! being an error.

use vstd::prelude::*;

use crate::discover::{plain_versions, versions_match, windows_versions, DirEntry, EntryKind};
use crate::{RVersion, RVersions};

verus! {

/// Scans a snapshot of one search root and reports what its entries
/// contribute, in directory order.
pub fn discover_dir_versions(entries: &Vec<DirEntry>) -> (r: Vec<RVersion>)
    ensures
        versions_match(r@, plain_versions(entries@)),
{
    let mut versions: Vec<RVersion> = Vec::new();
    let mut i: usize = 0;
    while i < entries.len()
        invariant
            i <= entries.len(),
            versions_match(versions@, plain_versions(entries@.take(i as int))),
        decreases entries.len() - i,
    {
        let e = &entries[i];
        let is_dir = match e.kind {
            EntryKind::Dir => true,
            _ => false,
        };
        if is_dir && e.root_exists {
            match e.evidence.config_version() {
                Some(v) => {
                    versions.push(RVersion { version: v, root: e.root.clone() });
                },
                None => {},
            }
        }
        proof {
            assert(entries@.take(i as int + 1).drop_last() =~= entries@.take(i as int));
            assert(entries@.take(i as int + 1).last() == entries@[i as int]);
        }
        i = i + 1;
    }
    proof {
        assert(entries@.take(entries@.len() as int) =~= entries@);
    }
    versions
}

/// Scans the snapshots of every search root, in order, and reports all
/// their contributions; never an error, the list is simply empty when
/// nothing was found.
pub fn discover_windows(roots: &Vec<Vec<DirEntry>>) -> (r: RVersions)
    ensures
        r.default is None,
        versions_match(r.versions@, windows_versions(roots@)),
{
    let mut res: Vec<RVersion> = Vec::new();
    let mut i: usize = 0;
    while i < roots.len()
        invariant
            i <= roots.len(),
            versions_match(res@, windows_versions(roots@.take(i as int))),
        decreases roots.len() - i,
    {
        let ghost old_res = res@;
        let mut part = discover_dir_versions(&roots[i]);
        let ghost part_view = part@;
        res.append(&mut part);
        proof {
            assert(roots@.take(i as int + 1).drop_last() =~= roots@.take(i as int));
            assert(roots@.take(i as int + 1).last() == roots@[i as int]);
            let prev = windows_versions(roots@.take(i as int));
            let cur = plain_versions(roots@[i as int]@);
            assert(windows_versions(roots@.take(i as int + 1)) == prev + cur);
            assert forall|k: int| 0 <= k < res@.len() implies res@[k].root@ == (prev + cur)[k].0
                && res@[k].version == (prev + cur)[k].1 by {
                if k < old_res.len() {
                    assert(res@[k] == old_res[k]);
                } else {
                    assert(res@[k] == part_view[k - old_res.len()]);
                }
            }
        }
        i = i + 1;
    }
    proof {
        assert(roots@.take(roots@.len() as int) =~= roots@);
    }
    RVersions { default: None, versions: res }
}

} // verus!
