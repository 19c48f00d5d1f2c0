use rt_lib::{
    default_root, DirEntry, DiscoverError, DiscoverInput, EntryKind, Evidence, RVersion,
    RVersions, Version, R_ROOT,
};

fn header_evidence(major: &str, minor: &str, status: &str) -> Evidence {
    Evidence {
        header: Some(format!(
            "#define R_MAJOR  \"{}\"\n#define R_MINOR  \"{}\"\n#define R_STATUS \"{}\"\n",
            major, minor, status
        )),
        pkgconfig: None,
        exec_output: None,
    }
}

fn pc_evidence(version: &str) -> Evidence {
    Evidence {
        header: None,
        pkgconfig: Some(format!("Version: {}\n", version)),
        exec_output: None,
    }
}

fn no_evidence() -> Evidence {
    Evidence { header: None, pkgconfig: None, exec_output: None }
}

fn mac_entry(name: &str, kind: EntryKind, evidence: Evidence) -> DirEntry {
    DirEntry {
        name: name.to_string(),
        root: format!("{}/{}/Resources", R_ROOT, name),
        kind,
        root_exists: true,
        evidence,
    }
}

fn linux_dir(root: &str, name: &str, evidence: Evidence) -> DirEntry {
    DirEntry {
        name: name.to_string(),
        root: format!("{}/{}", root, name),
        kind: EntryKind::Dir,
        root_exists: true,
        evidence,
    }
}

fn ver(major: u64, minor: u64, patch: u64, devel: bool) -> Version {
    Version { major, minor, patch, devel }
}

#[test]
fn discover_default() {
    let bin = Some("/opt/R/4.3.1/bin/R".to_string());
    let evidence = header_evidence("4", "3.1", "");
    let default = RVersion::default(&bin, &evidence);
    println!("{:?}", default);
    let found = default.unwrap();
    assert_eq!(found.root, "/opt/R/4.3.1");
    assert_eq!(found.version, ver(4, 3, 1, false));
}

#[test]
fn mod_discover_mac_() {
    let entries = vec![mac_entry("4.3", EntryKind::Dir, header_evidence("4", "3.1", ""))];
    let discovered = rt_lib::discover_mac(&entries);
    println!("{:#?}", discovered);
    assert_eq!(discovered.unwrap().versions.len(), 1);
}

#[test]
fn lib_discover_mac_() {
    let entries = vec![
        mac_entry("4.3", EntryKind::Dir, header_evidence("4", "3.1", "")),
        mac_entry("current", EntryKind::Symlink, header_evidence("4", "3.1", "")),
    ];
    let discovered = rt_lib::discover_mac(&entries);
    println!("{:#?}", discovered);
    assert_eq!(discovered.unwrap().versions.len(), 1);
}

#[test]
fn discover_linux_() {
    let manager = vec![vec![linux_dir("/opt/R", "4.2.0", pc_evidence("4.2.0"))]];
    let discovered = rt_lib::discover_linux(&manager, &vec![]);
    println!("{:?}", discovered);
    assert_eq!(discovered.len(), 1);
}

#[test]
fn discover_windows_() {
    let discovered = rt_lib::discover_windows(&vec![vec![]]);
    println!("{:?}", discovered);
    assert!(discovered.versions.is_empty());
}

#[test]
fn discover() {
    let input = DiscoverInput::Linux {
        manager: vec![vec![linux_dir("/opt/R", "4.2.0", pc_evidence("4.2.0"))]],
        standalone: vec![],
    };
    let report = RVersions::discover(&input, &None);
    println!("{:?}", report);
    assert_eq!(report.unwrap().versions.len(), 1);
}

#[test]
fn default_marked_on_exact_version_match() {
    let input = DiscoverInput::Linux {
        manager: vec![vec![
            linux_dir("/opt/R", "4.1.0", pc_evidence("4.1.0")),
            linux_dir("/opt/R", "4.2.0", pc_evidence("4.2.0")),
        ]],
        standalone: vec![],
    };
    let resolved = Some(RVersion { version: ver(4, 2, 0, false), root: "/elsewhere".to_string() });
    let report = RVersions::discover(&input, &resolved).unwrap();
    let default = report.default.expect("an entry with the resolved version is marked");
    assert_eq!(default.version, ver(4, 2, 0, false));
    assert_eq!(default.root, "/opt/R/4.2.0");
}

#[test]
fn default_marks_first_entry_among_equal_versions() {
    let input = DiscoverInput::Linux {
        manager: vec![vec![linux_dir("/opt/R", "4.2.0", pc_evidence("4.2.0"))]],
        standalone: vec![DirEntry {
            name: "/usr/lib/R".to_string(),
            root: "/usr/lib/R".to_string(),
            kind: EntryKind::Dir,
            root_exists: true,
            evidence: pc_evidence("4.2.0"),
        }],
    };
    let resolved = Some(RVersion { version: ver(4, 2, 0, false), root: "/elsewhere".to_string() });
    let report = RVersions::discover(&input, &resolved).unwrap();
    assert_eq!(report.versions.len(), 2);
    assert_eq!(report.default.unwrap().root, "/opt/R/4.2.0");
}

#[test]
fn default_absent_when_no_version_matches() {
    let input = DiscoverInput::Linux {
        manager: vec![vec![linux_dir("/opt/R", "4.1.0", pc_evidence("4.1.0"))]],
        standalone: vec![],
    };
    let resolved = Some(RVersion { version: ver(4, 9, 9, false), root: "/elsewhere".to_string() });
    let report = RVersions::discover(&input, &resolved).unwrap();
    assert!(report.default.is_none());
}

#[test]
fn discovery_survives_unresolvable_default() {
    let input = DiscoverInput::MacOs {
        entries: vec![mac_entry("4.3", EntryKind::Dir, header_evidence("4", "3.1", ""))],
    };
    let report = RVersions::discover(&input, &None).unwrap();
    assert!(report.default.is_none());
    assert_eq!(report.versions.len(), 1);
}

#[test]
fn unsupported_os_errs() {
    let report = RVersions::discover(&DiscoverInput::Unsupported, &None);
    assert_eq!(report.unwrap_err(), DiscoverError::UnsupportedOs);
}

#[test]
fn resolver_reports_missing_executable() {
    let outcome = RVersion::default(&None, &no_evidence());
    assert_eq!(outcome.unwrap_err(), DiscoverError::ExecutableNotFound);
}

#[test]
fn resolver_reports_failed_navigation() {
    let outcome = RVersion::default(&Some("R".to_string()), &no_evidence());
    assert_eq!(outcome.unwrap_err(), DiscoverError::PathNavigation);
    let outcome = RVersion::default(&Some("/R".to_string()), &no_evidence());
    assert_eq!(outcome.unwrap_err(), DiscoverError::PathNavigation);
}

#[test]
fn resolver_reports_unreadable_version() {
    let outcome = RVersion::default(&Some("/opt/R/4.3.1/bin/R".to_string()), &no_evidence());
    assert_eq!(outcome.unwrap_err(), DiscoverError::VersionUnreadable);
}

#[test]
fn default_root_walks_two_levels_up() {
    assert_eq!(default_root("/usr/local/bin/R"), Some("/usr/local".to_string()));
    assert_eq!(default_root("/bin/R"), Some("/".to_string()));
    assert_eq!(default_root("/R"), None);
    assert_eq!(default_root("R"), None);
    assert_eq!(
        default_root("C:\\Program Files\\R\\R-4.3.1\\bin\\R.exe"),
        Some("C:\\Program Files\\R\\R-4.3.1".to_string())
    );
}

#[test]
fn devel_version_distinct_from_release() {
    let input = DiscoverInput::MacOs {
        entries: vec![mac_entry("4.4", EntryKind::Dir, header_evidence("4", "4.0", "devel"))],
    };
    let resolved = Some(RVersion { version: ver(4, 4, 0, false), root: "/x".to_string() });
    let report = RVersions::discover(&input, &resolved).unwrap();
    assert!(report.default.is_none());
    assert_eq!(report.versions[0].version, ver(4, 4, 0, true));
}
