//! The macOS probe.
//!
//! macOS keeps every installation under one fixed framework directory.
//! Each subdirectory named for an accepted major version, and each
//! symbolic link, designates its `Resources` subdirectory as a candidate
//! install root, validated with the header strategy. The link named
//! exactly `current` only marks the active version and is never listed
//! itself. Finding nothing here is an error: on this system the canonical
//! location should always hold an installation.

use vstd::prelude::*;

use crate::discover::{
    mac_versions, name_starts_with_major, versions_match, DirEntry, EntryKind,
};
use crate::{DiscoverError, RVersion, RVersions};

verus! {

/// The fixed framework directory whose entries the probe examines.
pub const R_ROOT: &'static str = "/Library/Frameworks/R.framework/Versions";

/// Scans a snapshot of the framework versions directory and reports every
/// listed installation, in directory order; errs when there is none.
pub fn discover_mac(entries: &Vec<DirEntry>) -> (r: Result<RVersions, DiscoverError>)
    ensures
        match r {
            Ok(rv) => rv.default is None && versions_match(rv.versions@, mac_versions(entries@))
                && mac_versions(entries@).len() > 0,
            Err(e) => e is NoVersionsFound && mac_versions(entries@).len() == 0,
        },
{
    let current = "current".to_owned();
    let mut versions: Vec<RVersion> = Vec::new();
    let mut i: usize = 0;
    while i < entries.len()
        invariant
            i <= entries.len(),
            current@ == "current"@,
            versions_match(versions@, mac_versions(entries@.take(i as int))),
        decreases entries.len() - i,
    {
        let e = &entries[i];
        let is_dir = match e.kind {
            EntryKind::Dir => true,
            _ => false,
        };
        let is_link = match e.kind {
            EntryKind::Symlink => true,
            _ => false,
        };
        let candidate = (is_dir && name_starts_with_major(&e.name)) || is_link;
        let is_current = is_link && e.name.eq(&current);
        if candidate && !is_current && e.root_exists {
            match e.evidence.header_version() {
                Some(v) => {
                    versions.push(RVersion { version: v, root: e.root.clone() });
                },
                None => {},
            }
        }
        proof {
            assert(entries@.take(i as int + 1).drop_last() =~= entries@.take(i as int));
            assert(entries@.take(i as int + 1).last() == entries@[i as int]);
        }
        i = i + 1;
    }
    proof {
        assert(entries@.take(entries@.len() as int) =~= entries@);
    }
    if versions.len() == 0 {
        Err(DiscoverError::NoVersionsFound)
    } else {
        Ok(RVersions { default: None, versions })
    }
}

} // verus!
