//! Discovery of installed R interpreters.
//!
//! The library locates R installations on macOS, Linux and Windows and
//! reports their versions and install roots. All decisions — which
//! directory entries count as candidate install roots, how a version is
//! extracted from the evidence files of a candidate, and which discovered
//! installation is the default — are made here, over plain values that a
//! thin I/O layer reads from the machine and hands in.

use vstd::prelude::*;

pub mod discover;
pub mod parse;
pub mod scan;

pub use discover::linux::{detect_r_install, discover_linux, discover_linux_path};
pub use discover::mac::{discover_mac, R_ROOT};
pub use discover::windows::{discover_dir_versions, discover_windows};
pub use discover::{default_root, DirEntry, DiscoverInput, EntryKind};
pub use parse::{get_libr_version, parse_rscript_output, read_r_ver, Evidence};

verus! {

/// A semantic version of an R installation: `major.minor.patch`, optionally
/// carrying the `-devel` pre-release tag (set when the version header of the
/// installation reports a non-empty status).
#[derive(Clone, Copy, PartialEq, Eq, Structural, Debug)]
pub struct Version {
    pub major: u64,
    pub minor: u64,
    pub patch: u64,
    pub devel: bool,
}

impl Version {
    /// Strict semantic-version precedence: the numeric components decide
    /// in order, and a `-devel` pre-release precedes the release that
    /// carries the same numbers.
    pub open spec fn spec_precedes(self, other: Version) -> bool {
        ||| self.major < other.major
        ||| (self.major == other.major && self.minor < other.minor)
        ||| (self.major == other.major && self.minor == other.minor && self.patch < other.patch)
        ||| (self.major == other.major && self.minor == other.minor && self.patch == other.patch
            && self.devel && !other.devel)
    }

    /// Does this version strictly precede `other`?
    pub fn precedes(&self, other: &Version) -> (r: bool)
        ensures
            r == self.spec_precedes(*other),
    {
        if self.major != other.major {
            self.major < other.major
        } else if self.minor != other.minor {
            self.minor < other.minor
        } else if self.patch != other.patch {
            self.patch < other.patch
        } else {
            self.devel && !other.devel
        }
    }
}

/// One discovered installation: its version and the path of its install
/// root. An entry exists only for roots that were present on disk and
/// whose version evidence parsed; nothing is ever reported with a
/// placeholder version.
#[derive(Debug)]
pub struct RVersion {
    pub version: Version,
    pub root: String,
}

/// The result of one discovery pass: the installations in discovery
/// order, and the one among them that the command search path resolves
/// to, when there is such a one.
#[derive(Debug)]
pub struct RVersions {
    pub default: Option<RVersion>,
    pub versions: Vec<RVersion>,
}

/// Every failure discovery can surface. Failures of a single candidate
/// are never surfaced: the candidate is dropped and discovery goes on.
#[derive(Clone, Copy, PartialEq, Eq, Structural, Debug)]
pub enum DiscoverError {
    /// The macOS probe found no installation at the canonical location.
    NoVersionsFound,
    /// Discovery was asked for on a system with no implemented probe.
    UnsupportedOs,
    /// The command search path holds no primary executable.
    ExecutableNotFound,
    /// Too few directory levels above the resolved binary.
    PathNavigation,
    /// No version could be read at the root the binary belongs to.
    VersionUnreadable,
    /// A standalone path is not a valid installation.
    InvalidInstallation,
}

} // verus!
