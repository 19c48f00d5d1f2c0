use rt_lib::{
    detect_r_install, discover_dir_versions, discover_linux, discover_linux_path, discover_mac,
    DirEntry, DiscoverError, EntryKind, Evidence, Version, R_ROOT,
};

fn header_text(major: &str, minor: &str, status: &str) -> String {
    format!(
        "#define R_MAJOR  \"{}\"\n#define R_MINOR  \"{}\"\n#define R_STATUS \"{}\"\n",
        major, minor, status
    )
}

fn header_evidence(major: &str, minor: &str, status: &str) -> Evidence {
    Evidence {
        header: Some(header_text(major, minor, status)),
        pkgconfig: None,
        exec_output: None,
    }
}

fn pc_evidence(version: &str) -> Evidence {
    Evidence {
        header: None,
        pkgconfig: Some(format!("Name: libR\nVersion: {}\n", version)),
        exec_output: None,
    }
}

fn no_evidence() -> Evidence {
    Evidence { header: None, pkgconfig: None, exec_output: None }
}

fn mac_entry(name: &str, kind: EntryKind, evidence: Evidence) -> DirEntry {
    DirEntry {
        name: name.to_string(),
        root: format!("{}/{}/Resources", R_ROOT, name),
        kind,
        root_exists: true,
        evidence,
    }
}

fn ver(major: u64, minor: u64, patch: u64, devel: bool) -> Version {
    Version { major, minor, patch, devel }
}

#[test]
fn mac_scenario_two_dirs_and_current_link() {
    let entries = vec![
        mac_entry("4.3", EntryKind::Dir, header_evidence("4", "3.1", "")),
        mac_entry("4.2", EntryKind::Dir, header_evidence("4", "2.3", "")),
        mac_entry("current", EntryKind::Symlink, header_evidence("4", "3.1", "")),
    ];
    let report = discover_mac(&entries).unwrap();
    assert!(report.default.is_none());
    assert_eq!(report.versions.len(), 2);
    assert_eq!(report.versions[0].version, ver(4, 3, 1, false));
    assert_eq!(report.versions[0].root, format!("{}/4.3/Resources", R_ROOT));
    assert_eq!(report.versions[1].version, ver(4, 2, 3, false));
    assert_eq!(report.versions[1].root, format!("{}/4.2/Resources", R_ROOT));
}

#[test]
fn mac_current_link_alone_is_no_installation() {
    let entries = vec![mac_entry("current", EntryKind::Symlink, header_evidence("4", "3.1", ""))];
    assert_eq!(discover_mac(&entries).unwrap_err(), DiscoverError::NoVersionsFound);
}

#[test]
fn mac_other_symlink_is_listed() {
    let entries = vec![
        mac_entry("4.3", EntryKind::Dir, header_evidence("4", "3.1", "")),
        mac_entry("latest", EntryKind::Symlink, header_evidence("4", "3.1", "")),
    ];
    let report = discover_mac(&entries).unwrap();
    assert_eq!(report.versions.len(), 2);
}

#[test]
fn mac_empty_directory_errs() {
    assert_eq!(discover_mac(&vec![]).unwrap_err(), DiscoverError::NoVersionsFound);
}

#[test]
fn mac_entry_without_evidence_never_listed() {
    let entries = vec![
        mac_entry("4.3", EntryKind::Dir, no_evidence()),
        mac_entry("4.2", EntryKind::Dir, header_evidence("4", "2.3", "")),
    ];
    let report = discover_mac(&entries).unwrap();
    assert_eq!(report.versions.len(), 1);
    assert_eq!(report.versions[0].version, ver(4, 2, 3, false));
}

#[test]
fn mac_name_filter_applies_to_directories() {
    let entries = vec![
        mac_entry("5.0", EntryKind::Dir, header_evidence("5", "0.0", "")),
        mac_entry("notes", EntryKind::Other, header_evidence("4", "3.1", "")),
        mac_entry("4.3", EntryKind::Dir, header_evidence("4", "3.1", "")),
    ];
    let report = discover_mac(&entries).unwrap();
    assert_eq!(report.versions.len(), 1);
    assert_eq!(report.versions[0].root, format!("{}/4.3/Resources", R_ROOT));
}

#[test]
fn mac_missing_resources_rejected() {
    let mut e = mac_entry("4.3", EntryKind::Dir, header_evidence("4", "3.1", ""));
    e.root_exists = false;
    assert_eq!(discover_mac(&vec![e]).unwrap_err(), DiscoverError::NoVersionsFound);
}

fn linux_dir(root: &str, name: &str, evidence: Evidence) -> DirEntry {
    DirEntry {
        name: name.to_string(),
        root: format!("{}/{}", root, name),
        kind: EntryKind::Dir,
        root_exists: true,
        evidence,
    }
}

fn standalone(path: &str, exists: bool, evidence: Evidence) -> DirEntry {
    DirEntry {
        name: path.to_string(),
        root: path.to_string(),
        kind: if exists { EntryKind::Dir } else { EntryKind::Other },
        root_exists: exists,
        evidence,
    }
}

#[test]
fn linux_missing_standalone_root_contributes_nothing() {
    let missing = standalone("/usr/lib/R", false, no_evidence());
    let found = discover_linux(&vec![], &vec![missing]);
    assert!(found.is_empty());
}

#[test]
fn linux_two_tiers_in_order() {
    let manager = vec![vec![linux_dir("/opt/R", "4.2.0", pc_evidence("4.2.0"))]];
    let alone = standalone("/usr/lib/R", true, pc_evidence("4.1.3"));
    let found = discover_linux(&manager, &vec![alone]);
    assert_eq!(found.len(), 2);
    assert_eq!(found[0].root, "/opt/R/4.2.0");
    assert_eq!(found[0].version, ver(4, 2, 0, false));
    assert_eq!(found[1].root, "/usr/lib/R");
    assert_eq!(found[1].version, ver(4, 1, 3, false));
}

#[test]
fn linux_manager_name_filter() {
    let entries = vec![
        linux_dir("/opt/R", "old", pc_evidence("4.0.5")),
        linux_dir("/opt/R", "4.3.1", pc_evidence("4.3.1")),
    ];
    let found = discover_linux_path(&entries);
    assert_eq!(found.len(), 1);
    assert_eq!(found[0].root, "/opt/R/4.3.1");
}

#[test]
fn linux_standalone_detection_reports_failure() {
    let bad = standalone("/usr/lib64/R", true, no_evidence());
    assert_eq!(detect_r_install(&bad).unwrap_err(), DiscoverError::InvalidInstallation);
    let good = standalone("/usr/lib/R", true, pc_evidence("4.3.1"));
    let found = detect_r_install(&good).unwrap();
    assert_eq!(found.root, "/usr/lib/R");
    assert_eq!(found.version, ver(4, 3, 1, false));
}

#[test]
fn linux_query_fallback_used_without_pkgconfig() {
    let ev = Evidence {
        header: None,
        pkgconfig: None,
        exec_output: Some("4.4\n".to_string()),
    };
    let found = discover_linux_path(&vec![linux_dir("/opt/R", "4.4.0", ev)]);
    assert_eq!(found.len(), 1);
    assert_eq!(found[0].version, ver(4, 4, 0, false));
}

fn win_dir(root: &str, name: &str, evidence: Evidence) -> DirEntry {
    DirEntry {
        name: name.to_string(),
        root: format!("{}\\{}", root, name),
        kind: EntryKind::Dir,
        root_exists: true,
        evidence,
    }
}

#[test]
fn windows_missing_default_root_still_finds_home_installs() {
    let home = vec![win_dir("C:\\Users\\someone", "R-4.3.1", pc_evidence("4.3.1"))];
    let report = discover_dir_versions(&home);
    assert_eq!(report.len(), 1);
    assert_eq!(report[0].root, "C:\\Users\\someone\\R-4.3.1");
    let both = rt_lib::discover_windows(&vec![vec![], home]);
    assert!(both.default.is_none());
    assert_eq!(both.versions.len(), 1);
    assert_eq!(both.versions[0].version, ver(4, 3, 1, false));
}

#[test]
fn windows_non_directories_skipped() {
    let mut entry = win_dir("C:\\Program Files\\R", "README", pc_evidence("4.3.1"));
    entry.kind = EntryKind::Other;
    let report = rt_lib::discover_windows(&vec![vec![entry]]);
    assert!(report.versions.is_empty());
}

#[test]
fn reports_carry_no_duplicate_roots() {
    let entries = vec![
        mac_entry("4.3", EntryKind::Dir, header_evidence("4", "3.1", "")),
        mac_entry("4.2", EntryKind::Dir, header_evidence("4", "3.1", "")),
        mac_entry("4.1", EntryKind::Dir, header_evidence("4", "3.1", "")),
    ];
    let report = discover_mac(&entries).unwrap();
    for a in 0..report.versions.len() {
        for b in (a + 1)..report.versions.len() {
            assert_ne!(report.versions[a].root, report.versions[b].root);
        }
    }
}
