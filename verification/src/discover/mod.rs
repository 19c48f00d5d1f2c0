//! Discovery of R installations from snapshots of the filesystem facts
//! that each platform probe inspects.
//!
//! A probe never touches the machine itself: a thin I/O layer lists the
//! OS-specific directories, reads the evidence files of every entry, and
//! hands the result in as [`DirEntry`] values. Everything that decides —
//! which entries are candidates, which candidates are valid installations,
//! which installation is the default — is verified here.

use vstd::prelude::*;

use crate::parse::{chain_version_of, header_evidence_version, Evidence};
use crate::{DiscoverError, RVersion, RVersions, Version};

pub mod laws;
pub mod linux;
pub mod mac;
pub mod windows;

use linux::discover_linux;
use mac::discover_mac;
use windows::discover_windows;

verus! {

/// What kind of directory entry a probe saw (the kind is taken without
/// following symbolic links, so a link is never also a directory).
#[derive(Clone, Copy, PartialEq, Eq, Structural, Debug)]
pub enum EntryKind {
    Dir,
    Symlink,
    Other,
}

/// One directory entry a probe saw, together with the candidate install
/// root it designates and the version evidence found there.
///
/// On macOS the designated root is the entry's `Resources` subdirectory;
/// elsewhere it is the entry itself. `root_exists` says whether that root
/// existed on disk when the snapshot was taken.
#[derive(Debug)]
pub struct DirEntry {
    /// File name of the entry, as listed in its parent directory.
    pub name: String,
    /// Path of the candidate install root this entry designates.
    pub root: String,
    pub kind: EntryKind,
    /// Whether the designated root existed on disk.
    pub root_exists: bool,
    /// Version evidence read at the designated root.
    pub evidence: Evidence,
}

/// The directory snapshot of the one platform probe that runs on the host.
#[derive(Debug)]
pub enum DiscoverInput {
    /// Entries of the fixed framework versions directory.
    MacOs { entries: Vec<DirEntry> },
    /// Entries of each version-manager root, and one entry per fixed
    /// standalone install path.
    Linux { manager: Vec<Vec<DirEntry>>, standalone: Vec<DirEntry> },
    /// Entries of each search root (the fixed default install directory
    /// and, when resolvable, the user's home directory).
    Windows { roots: Vec<Vec<DirEntry>> },
    /// The host runs none of the supported systems.
    Unsupported,
}

/// Names an install directory for an accepted major version: it begins
/// with the digit `3` or `4`.
pub open spec fn starts_with_major(name: Seq<char>) -> bool {
    name.len() > 0 && (name[0] == '3' || name[0] == '4')
}

/// A macOS entry worth examining: a real directory named for an accepted
/// major version, or any symbolic link (taken to point at the active
/// version).
pub open spec fn mac_candidate(e: DirEntry) -> bool {
    (e.kind is Dir && starts_with_major(e.name@)) || e.kind is Symlink
}

/// The symbolic link that designates the active version; it only marks an
/// already-listed directory and is never an installation of its own.
pub open spec fn is_current_link(e: DirEntry) -> bool {
    e.kind is Symlink && e.name@ == "current"@
}

/// A macOS entry that is listed as an installation: a candidate other
/// than the `current` link whose root exists and whose version header
/// parses.
pub open spec fn mac_listed(e: DirEntry) -> bool {
    mac_candidate(e) && !is_current_link(e) && e.root_exists && header_evidence_version(
        e.evidence,
    ) is Some
}

pub open spec fn mac_version(e: DirEntry) -> Version {
    header_evidence_version(e.evidence)->0
}

/// A version-manager subdirectory that is listed: a directory named for
/// an accepted major version whose root exists and whose package-config
/// evidence (with the query fallback) parses.
pub open spec fn manager_listed(e: DirEntry) -> bool {
    e.kind is Dir && starts_with_major(e.name@) && e.root_exists && chain_version_of(
        e.evidence,
    ) is Some
}

pub open spec fn chain_version(e: DirEntry) -> Version {
    chain_version_of(e.evidence)->0
}

/// An entry taken as a complete install root on its own (a Linux
/// standalone path or any Windows subdirectory): a directory that exists
/// and whose package-config evidence (with the query fallback) parses.
pub open spec fn standalone_listed(e: DirEntry) -> bool {
    e.kind is Dir && e.root_exists && chain_version_of(e.evidence) is Some
}

/// Root paths and versions of the listed entries of `s`, in discovery
/// order.
pub open spec fn listed_versions(
    s: Seq<DirEntry>,
    listed: spec_fn(DirEntry) -> bool,
    ver: spec_fn(DirEntry) -> Version,
) -> Seq<(Seq<char>, Version)>
    decreases s.len(),
{
    if s.len() == 0 {
        Seq::empty()
    } else {
        let prefix = listed_versions(s.drop_last(), listed, ver);
        if listed(s.last()) {
            prefix.push((s.last().root@, ver(s.last())))
        } else {
            prefix
        }
    }
}

/// What the macOS probe reports for a snapshot of the framework versions
/// directory.
pub open spec fn mac_versions(s: Seq<DirEntry>) -> Seq<(Seq<char>, Version)> {
    listed_versions(s, |e: DirEntry| mac_listed(e), |e: DirEntry| mac_version(e))
}

/// What one version-manager root contributes on Linux.
pub open spec fn dir_versions(s: Seq<DirEntry>) -> Seq<(Seq<char>, Version)> {
    listed_versions(s, |e: DirEntry| manager_listed(e), |e: DirEntry| chain_version(e))
}

/// What a set of entries taken as complete install roots contributes.
pub open spec fn plain_versions(s: Seq<DirEntry>) -> Seq<(Seq<char>, Version)> {
    listed_versions(s, |e: DirEntry| standalone_listed(e), |e: DirEntry| chain_version(e))
}

/// Concatenation of what each root's entries contribute, in root order.
pub open spec fn concat_versions(
    roots: Seq<Vec<DirEntry>>,
    per: spec_fn(Seq<DirEntry>) -> Seq<(Seq<char>, Version)>,
) -> Seq<(Seq<char>, Version)>
    decreases roots.len(),
{
    if roots.len() == 0 {
        Seq::empty()
    } else {
        concat_versions(roots.drop_last(), per) + per(roots.last()@)
    }
}

pub open spec fn manager_versions(roots: Seq<Vec<DirEntry>>) -> Seq<(Seq<char>, Version)> {
    concat_versions(roots, |s: Seq<DirEntry>| dir_versions(s))
}

/// What the Linux probe reports: the version-manager roots first, then
/// the standalone paths.
pub open spec fn linux_versions(manager: Seq<Vec<DirEntry>>, standalone: Seq<DirEntry>) -> Seq<
    (Seq<char>, Version),
> {
    manager_versions(manager) + plain_versions(standalone)
}

/// What the Windows probe reports for its search roots.
pub open spec fn windows_versions(roots: Seq<Vec<DirEntry>>) -> Seq<(Seq<char>, Version)> {
    concat_versions(roots, |s: Seq<DirEntry>| plain_versions(s))
}

/// The reported installations carry exactly the roots and versions of the
/// model `m`, in its order.
pub open spec fn versions_match(v: Seq<RVersion>, m: Seq<(Seq<char>, Version)>) -> bool {
    v.len() == m.len() && (forall|i: int|
        0 <= i < v.len() ==> v[i].root@ == m[i].0 && v[i].version == m[i].1)
}

/// Does this name begin with an accepted major-version digit?
pub(crate) fn name_starts_with_major(name: &String) -> (r: bool)
    ensures
        r == starts_with_major(name@),
{
    let s = name.as_str();
    if s.unicode_len() == 0 {
        false
    } else {
        let c = s.get_char(0);
        c == '3' || c == '4'
    }
}

/// A path separator of either convention.
pub open spec fn is_sep(c: char) -> bool {
    c == '/' || c == '\\'
}

/// Index of the last path separator of `p`; `-1` when it has none.
pub open spec fn find_last_sep(p: Seq<char>) -> int
    decreases p.len(),
{
    if p.len() == 0 {
        -1
    } else if is_sep(p.last()) {
        p.len() - 1
    } else {
        find_last_sep(p.drop_last())
    }
}

pub proof fn lemma_find_last_sep_bounds(p: Seq<char>)
    ensures
        -1 <= find_last_sep(p) < p.len(),
    decreases p.len(),
{
    if p.len() > 0 && !is_sep(p.last()) {
        lemma_find_last_sep_bounds(p.drop_last());
    }
}

/// The directory containing `p`: everything before the last separator,
/// where the parent of a top-level entry is the root itself and the root
/// has no parent. A path without separators has no parent either.
pub open spec fn parent_of(p: Seq<char>) -> Option<Seq<char>> {
    let k = find_last_sep(p);
    if k < 0 {
        None
    } else if k == 0 {
        if p.len() == 1 {
            None
        } else {
            Some(p.subrange(0, 1))
        }
    } else {
        Some(p.subrange(0, k))
    }
}

/// The install root that a resolved binary path designates: the binary is
/// expected at `<root>/bin/<exe>`, so the root lies two directory levels
/// up.
pub open spec fn default_root_of(bin: Seq<char>) -> Option<Seq<char>> {
    match parent_of(bin) {
        None => None,
        Some(d) => parent_of(d),
    }
}

/// Index of the last path separator of `p`, or `None`.
fn find_last_sep_x(p: &str) -> (r: Option<usize>)
    ensures
        match r {
            Some(k) => find_last_sep(p@) == k,
            None => find_last_sep(p@) == -1,
        },
{
    let n = p.unicode_len();
    let mut i: usize = n;
    proof {
        assert(p@.subrange(0, n as int) =~= p@);
    }
    while i > 0
        invariant
            i <= n == p@.len(),
            find_last_sep(p@) == find_last_sep(p@.subrange(0, i as int)),
        decreases i,
    {
        let c = p.get_char(i - 1);
        assert(p@.subrange(0, i as int).last() == p@[i - 1]);
        if c == '/' || c == '\\' {
            return Some(i - 1);
        }
        proof {
            assert(p@.subrange(0, i as int).drop_last() =~= p@.subrange(0, i as int - 1));
        }
        i = i - 1;
    }
    None
}

/// Parent directory of `p`, as `parent_of` describes.
fn parent_str(p: &str) -> (r: Option<String>)
    ensures
        match r {
            Some(s) => parent_of(p@) == Some(s@),
            None => parent_of(p@) is None,
        },
{
    proof {
        lemma_find_last_sep_bounds(p@);
    }
    match find_last_sep_x(p) {
        None => None,
        Some(k) => {
            if k == 0 {
                let n = p.unicode_len();
                if n == 1 {
                    None
                } else {
                    Some(p.substring_char(0, 1).to_owned())
                }
            } else {
                Some(p.substring_char(0, k).to_owned())
            }
        },
    }
}

/// Walks two directory levels up from a resolved binary path to the
/// install root it belongs to, as `default_root_of` describes.
pub fn default_root(bin_path: &str) -> (r: Option<String>)
    ensures
        match r {
            Some(s) => default_root_of(bin_path@) == Some(s@),
            None => default_root_of(bin_path@) is None,
        },
{
    match parent_str(bin_path) {
        None => None,
        Some(d) => parent_str(d.as_str()),
    }
}

impl RVersion {
    /// The installation that the command search path resolves to.
    ///
    /// `bin_path` is the canonicalized location of the primary executable
    /// found on the search path (`None` when the search found nothing),
    /// and `evidence` is the version evidence read at the root two levels
    /// above it. Each way this can fail is its own error: no executable on
    /// the search path, too few path components above the binary, or a
    /// version header that does not parse at the root.
    pub fn default(bin_path: &Option<String>, evidence: &Evidence) -> (r: Result<
        RVersion,
        DiscoverError,
    >)
        ensures
            bin_path is None ==> r is Err && r->Err_0 is ExecutableNotFound,
            bin_path is Some && default_root_of(bin_path->0@) is None ==> r is Err
                && r->Err_0 is PathNavigation,
            bin_path is Some && default_root_of(bin_path->0@) is Some ==> match
                header_evidence_version(*evidence) {
                Some(v) => r is Ok && r->Ok_0.version == v && r->Ok_0.root@ == default_root_of(
                    bin_path->0@,
                )->0,
                None => r is Err && r->Err_0 is VersionUnreadable,
            },
    {
        let bin = match bin_path {
            Some(b) => b,
            None => {
                return Err(DiscoverError::ExecutableNotFound);
            },
        };
        let root = match default_root(bin.as_str()) {
            Some(d) => d,
            None => {
                return Err(DiscoverError::PathNavigation);
            },
        };
        match evidence.header_version() {
            Some(v) => Ok(RVersion { version: v, root }),
            None => Err(DiscoverError::VersionUnreadable),
        }
    }
}

/// Position of the first entry of `vs` at or after `from` whose version
/// equals `v`.
pub open spec fn first_rv_match(vs: Seq<RVersion>, v: Version, from: nat) -> Option<int>
    decreases vs.len() - from,
{
    if from >= vs.len() {
        None
    } else if vs[from as int].version == v {
        Some(from as int)
    } else {
        first_rv_match(vs, v, from + 1)
    }
}

/// How the default entry of a report relates to the resolver's outcome:
/// absent when resolution failed or no discovered version equals the
/// resolved one; otherwise the first discovered entry with that version.
pub open spec fn marked_default(
    default: Option<RVersion>,
    vs: Seq<RVersion>,
    resolved: Option<RVersion>,
) -> bool {
    match resolved {
        None => default is None,
        Some(d) => match first_rv_match(vs, d.version, 0) {
            None => default is None,
            Some(i) => default is Some && default->0.version == vs[i].version && default->0.root@
                == vs[i].root@,
        },
    }
}

/// First discovered entry whose version equals `v`, copied out.
fn find_default(versions: &Vec<RVersion>, v: Version) -> (r: Option<RVersion>)
    ensures
        match first_rv_match(versions@, v, 0) {
            None => r is None,
            Some(i) => r is Some && r->0.version == versions@[i].version && r->0.root@
                == versions@[i].root@,
        },
{
    let mut i: usize = 0;
    while i < versions.len()
        invariant
            i <= versions.len(),
            first_rv_match(versions@, v, 0) == first_rv_match(versions@, v, i as nat),
        decreases versions.len() - i,
    {
        if versions[i].version == v {
            let e = &versions[i];
            return Some(RVersion { version: e.version, root: e.root.clone() });
        }
        i = i + 1;
    }
    None
}

impl RVersions {
    /// One discovery pass: runs the platform probe that `input` was taken
    /// from, then marks as default the first discovered entry whose
    /// version equals the resolver's, if any.
    ///
    /// The macOS probe alone treats an empty result as an error, since its
    /// single canonical location should always hold an installation; the
    /// other probes report an empty list. A failed resolver (`resolved`
    /// of `None`) never fails discovery: the report simply has no default.
    pub fn discover(input: &DiscoverInput, resolved: &Option<RVersion>) -> (r: Result<
        RVersions,
        DiscoverError,
    >)
        ensures
            match *input {
                DiscoverInput::Unsupported => r is Err && r->Err_0 is UnsupportedOs,
                DiscoverInput::MacOs { entries } => {
                    &&& (mac_versions(entries@).len() == 0 ==> r is Err
                        && r->Err_0 is NoVersionsFound)
                    &&& (mac_versions(entries@).len() > 0 ==> r is Ok && versions_match(
                        r->Ok_0.versions@,
                        mac_versions(entries@),
                    ) && marked_default(r->Ok_0.default, r->Ok_0.versions@, *resolved))
                },
                DiscoverInput::Linux { manager, standalone } => r is Ok && versions_match(
                    r->Ok_0.versions@,
                    linux_versions(manager@, standalone@),
                ) && marked_default(r->Ok_0.default, r->Ok_0.versions@, *resolved),
                DiscoverInput::Windows { roots } => r is Ok && versions_match(
                    r->Ok_0.versions@,
                    windows_versions(roots@),
                ) && marked_default(r->Ok_0.default, r->Ok_0.versions@, *resolved),
            },
    {
        let versions: Vec<RVersion> = match input {
            DiscoverInput::MacOs { entries } => {
                match discover_mac(entries) {
                    Ok(rv) => rv.versions,
                    Err(e) => {
                        return Err(e);
                    },
                }
            },
            DiscoverInput::Linux { manager, standalone } => discover_linux(manager, standalone),
            DiscoverInput::Windows { roots } => discover_windows(roots).versions,
            DiscoverInput::Unsupported => {
                return Err(DiscoverError::UnsupportedOs);
            },
        };
        let default = match resolved {
            Some(d) => find_default(&versions, d.version),
            None => None,
        };
        Ok(RVersions { default, versions })
    }
}

} // verus!
