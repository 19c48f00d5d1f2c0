//! The Linux probe.
//!
//! Two tiers are searched: version-manager roots, whose subdirectories
//! named for an accepted major version are each one candidate install
//! root; and fixed standalone paths, each a complete install root on its
//! own. Both tiers validate a candidate with the package-config strategy
//! and its query fallback. A missing root or an invalid candidate is
//! silently skipped — absence is unremarkable here, so an empty result is
//! not an error.

use vstd::prelude::*;

use crate::discover::{
    chain_version, dir_versions, linux_versions, manager_versions, name_starts_with_major,
    plain_versions, standalone_listed, versions_match, DirEntry, EntryKind,
};
use crate::{DiscoverError, RVersion, Version};

verus! {

/// Scans a snapshot of one version-manager root and reports what its
/// entries contribute, in directory order.
pub fn discover_linux_path(entries: &Vec<DirEntry>) -> (r: Vec<RVersion>)
    ensures
        versions_match(r@, dir_versions(entries@)),
{
    let mut versions: Vec<RVersion> = Vec::new();
    let mut i: usize = 0;
    while i < entries.len()
        invariant
            i <= entries.len(),
            versions_match(versions@, dir_versions(entries@.take(i as int))),
        decreases entries.len() - i,
    {
        let e = &entries[i];
        let is_dir = match e.kind {
            EntryKind::Dir => true,
            _ => false,
        };
        if is_dir && name_starts_with_major(&e.name) && e.root_exists {
            match e.evidence.config_version() {
                Some(v) => {
                    versions.push(RVersion { version: v, root: e.root.clone() });
                },
                None => {},
            }
        }
        proof {
            assert(entries@.take(i as int + 1).drop_last() =~= entries@.take(i as int));
            assert(entries@.take(i as int + 1).last() == entries@[i as int]);
        }
        i = i + 1;
    }
    proof {
        assert(entries@.take(entries@.len() as int) =~= entries@);
    }
    versions
}

/// Checks one standalone path: it must be an existing directory whose
/// package-config evidence (with the query fallback) parses, and is then
/// an installation rooted at that very path.
pub fn detect_r_install(entry: &DirEntry) -> (r: Result<RVersion, DiscoverError>)
    ensures
        match r {
            Ok(v) => standalone_listed(*entry) && v.version
                == chain_version(*entry) && v.root@ == entry.root@,
            Err(e) => e is InvalidInstallation && !standalone_listed(*entry),
        },
{
    let is_dir = match entry.kind {
        EntryKind::Dir => true,
        _ => false,
    };
    if is_dir && entry.root_exists {
        match entry.evidence.config_version() {
            Some(v) => Ok(RVersion { version: v, root: entry.root.clone() }),
            None => Err(DiscoverError::InvalidInstallation),
        }
    } else {
        Err(DiscoverError::InvalidInstallation)
    }
}

/// Runs both tiers over their snapshots: every version-manager root in
/// order, then every standalone path in order.
pub fn discover_linux(manager: &Vec<Vec<DirEntry>>, standalone: &Vec<DirEntry>) -> (r: Vec<
    RVersion,
>)
    ensures
        versions_match(r@, linux_versions(manager@, standalone@)),
{
    let mut res: Vec<RVersion> = Vec::new();
    let mut i: usize = 0;
    while i < manager.len()
        invariant
            i <= manager.len(),
            versions_match(res@, manager_versions(manager@.take(i as int))),
        decreases manager.len() - i,
    {
        let ghost old_res = res@;
        let mut part = discover_linux_path(&manager[i]);
        let ghost part_view = part@;
        res.append(&mut part);
        proof {
            assert(manager@.take(i as int + 1).drop_last() =~= manager@.take(i as int));
            assert(manager@.take(i as int + 1).last() == manager@[i as int]);
            let prev = manager_versions(manager@.take(i as int));
            let cur = dir_versions(manager@[i as int]@);
            assert(manager_versions(manager@.take(i as int + 1)) == prev + cur);
            assert forall|k: int| 0 <= k < res@.len() implies res@[k].root@ == (prev + cur)[k].0
                && res@[k].version == (prev + cur)[k].1 by {
                if k < old_res.len() {
                    assert(res@[k] == old_res[k]);
                } else {
                    assert(res@[k] == part_view[k - old_res.len()]);
                }
            }
        }
        i = i + 1;
    }
    proof {
        assert(manager@.take(manager@.len() as int) =~= manager@);
        assert(plain_versions(standalone@.take(0)) =~= Seq::<(Seq<char>, Version)>::empty());
        assert(manager_versions(manager@) + plain_versions(standalone@.take(0)) =~=
        manager_versions(manager@));
    }
    let mut j: usize = 0;
    while j < standalone.len()
        invariant
            j <= standalone.len(),
            versions_match(
                res@,
                manager_versions(manager@) + plain_versions(standalone@.take(j as int)),
            ),
        decreases standalone.len() - j,
    {
        let ghost old_res = res@;
        let ghost old_model = manager_versions(manager@) + plain_versions(
            standalone@.take(j as int),
        );
        match detect_r_install(&standalone[j]) {
            Ok(v) => {
                res.push(v);
            },
            Err(_) => {},
        }
        proof {
            assert(standalone@.take(j as int + 1).drop_last() =~= standalone@.take(j as int));
            assert(standalone@.take(j as int + 1).last() == standalone@[j as int]);
            if standalone_listed(standalone@[j as int]) {
                let pair = (
                    standalone@[j as int].root@,
                    chain_version(standalone@[j as int]),
                );
                assert(manager_versions(manager@) + plain_versions(
                    standalone@.take(j as int + 1),
                ) =~= old_model.push(pair));
                assert(res@ == old_res.push(res@[old_res.len() as int]));
            } else {
                assert(plain_versions(standalone@.take(j as int + 1)) == plain_versions(
                    standalone@.take(j as int),
                ));
            }
        }
        j = j + 1;
    }
    proof {
        assert(standalone@.take(standalone@.len() as int) =~= standalone@);
    }
    res
}

} // verus!
