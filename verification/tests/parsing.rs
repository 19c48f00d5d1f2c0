use rt_lib::{get_libr_version, parse_rscript_output, read_r_ver, Evidence, Version};

fn ver(major: u64, minor: u64, patch: u64, devel: bool) -> Version {
    Version { major, minor, patch, devel }
}

const HEADER_RELEASE: &str = "/* Rversion.h.  Generated automatically. */\n\
#define R_VERSION 262657\n\
#define R_MAJOR  \"4\"\n\
#define R_MINOR  \"3.1\"\n\
#define R_STATUS \"\"\n\
#define R_YEAR   \"2023\"\n";

const HEADER_DEVEL: &str = "#define R_MAJOR  \"4\"\n\
#define R_MINOR  \"4.0\"\n\
#define R_STATUS \"Under development (unstable)\"\n";

#[test]
fn header_parses_release() {
    assert_eq!(read_r_ver(HEADER_RELEASE), Some(ver(4, 3, 1, false)));
}

#[test]
fn header_empty_status_has_no_devel_flag() {
    let v = read_r_ver(HEADER_RELEASE).unwrap();
    assert!(!v.devel);
}

#[test]
fn header_nonempty_status_sets_devel_flag() {
    assert_eq!(read_r_ver(HEADER_DEVEL), Some(ver(4, 4, 0, true)));
}

#[test]
fn header_missing_field_rejected() {
    let text = "#define R_MAJOR  \"4\"\n#define R_STATUS \"\"\n";
    assert_eq!(read_r_ver(text), None);
}

#[test]
fn header_empty_text_rejected() {
    assert_eq!(read_r_ver(""), None);
}

#[test]
fn header_leading_zero_rejected() {
    let text = "#define R_MAJOR  \"04\"\n#define R_MINOR  \"3.1\"\n#define R_STATUS \"\"\n";
    assert_eq!(read_r_ver(text), None);
}

#[test]
fn header_huge_component_rejected() {
    let text = "#define R_MAJOR  \"99999999999999999999\"\n\
#define R_MINOR  \"3.1\"\n#define R_STATUS \"\"\n";
    assert_eq!(read_r_ver(text), None);
}

#[test]
fn header_max_component_accepted() {
    let text = "#define R_MAJOR  \"18446744073709551615\"\n\
#define R_MINOR  \"3.1\"\n#define R_STATUS \"\"\n";
    assert_eq!(read_r_ver(text), Some(ver(u64::MAX, 3, 1, false)));
}

#[test]
fn header_minor_without_dot_rejected() {
    let text = "#define R_MAJOR  \"4\"\n#define R_MINOR  \"3\"\n#define R_STATUS \"\"\n";
    assert_eq!(read_r_ver(text), None);
}

#[test]
fn header_needs_blank_after_keyword() {
    let text = "#define R_MAJOR\"4\"\n#define R_MINOR  \"3.1\"\n#define R_STATUS \"\"\n";
    assert_eq!(read_r_ver(text), None);
}

#[test]
fn pc_parses_version_line() {
    let text = "prefix=/opt/R/4.3.1\nlibdir=${prefix}/lib\n\
Name: libR\nDescription: R library\nVersion: 4.3.1\n";
    assert_eq!(get_libr_version(text), Some(ver(4, 3, 1, false)));
}

#[test]
fn pc_trailing_text_after_numbers_ignored() {
    let text = "Version: 4.3.12-patched\n";
    assert_eq!(get_libr_version(text), Some(ver(4, 3, 12, false)));
}

#[test]
fn pc_missing_version_line_rejected() {
    let text = "prefix=/opt/R/4.3.1\nName: libR\n";
    assert_eq!(get_libr_version(text), None);
}

#[test]
fn pc_two_component_version_rejected() {
    assert_eq!(get_libr_version("Version: 4.3\n"), None);
}

#[test]
fn pc_leading_zero_rejected() {
    assert_eq!(get_libr_version("Version: 4.03.1\n"), None);
}

#[test]
fn pc_later_line_found_after_near_miss() {
    let text = "Version: unknown\nVersion: 4.2.2\n";
    assert_eq!(get_libr_version(text), Some(ver(4, 2, 2, false)));
}

#[test]
fn query_output_parses() {
    assert_eq!(parse_rscript_output("4.3\n"), Some(ver(4, 3, 0, false)));
}

#[test]
fn query_output_trailing_blank_trimmed() {
    assert_eq!(parse_rscript_output("4.3 \r\n"), Some(ver(4, 3, 0, false)));
}

#[test]
fn query_output_full_version_parses() {
    assert_eq!(parse_rscript_output("4.3.1\n"), Some(ver(4, 3, 1, false)));
}

#[test]
fn query_output_garbage_rejected() {
    assert_eq!(parse_rscript_output("R version 4.3"), None);
    assert_eq!(parse_rscript_output("4.3.1.2\n"), None);
    assert_eq!(parse_rscript_output("4.3."), None);
    assert_eq!(parse_rscript_output(""), None);
}

#[test]
fn chain_prefers_pkgconfig_when_present() {
    let ev = Evidence {
        header: None,
        pkgconfig: Some("Version: 4.1.0\n".to_string()),
        exec_output: Some("9.9\n".to_string()),
    };
    assert_eq!(ev.config_version(), Some(ver(4, 1, 0, false)));
}

#[test]
fn chain_malformed_pkgconfig_blocks_fallback() {
    let ev = Evidence {
        header: None,
        pkgconfig: Some("Name: libR\n".to_string()),
        exec_output: Some("4.3\n".to_string()),
    };
    assert_eq!(ev.config_version(), None);
}

#[test]
fn chain_falls_back_to_query_when_pkgconfig_absent() {
    let ev = Evidence {
        header: None,
        pkgconfig: None,
        exec_output: Some("4.3\n".to_string()),
    };
    assert_eq!(ev.config_version(), Some(ver(4, 3, 0, false)));
}

#[test]
fn chain_without_any_evidence_rejected() {
    let ev = Evidence { header: None, pkgconfig: None, exec_output: None };
    assert_eq!(ev.config_version(), None);
    assert_eq!(ev.header_version(), None);
}

#[test]
fn accepted_components_agree_with_semver() {
    let mine = get_libr_version("Version: 4.3.1\n").unwrap();
    let theirs = semver::Version::parse("4.3.1").unwrap();
    assert_eq!(mine.major, theirs.major);
    assert_eq!(mine.minor, theirs.minor);
    assert_eq!(mine.patch, theirs.patch);
    assert!(theirs.pre.is_empty());
}

#[test]
fn leading_zero_agrees_with_semver() {
    assert_eq!(get_libr_version("Version: 04.3.1\n"), None);
    assert!(semver::Version::parse("04.3.1").is_err());
}

#[test]
fn precedence_orders_versions() {
    assert!(ver(4, 2, 3, false).precedes(&ver(4, 3, 0, false)));
    assert!(ver(3, 9, 9, false).precedes(&ver(4, 0, 0, false)));
    assert!(ver(4, 3, 0, false).precedes(&ver(4, 3, 1, false)));
    assert!(!ver(4, 3, 1, false).precedes(&ver(4, 3, 1, false)));
}

#[test]
fn devel_precedes_its_release_as_in_semver() {
    assert!(ver(4, 3, 1, true).precedes(&ver(4, 3, 1, false)));
    assert!(!ver(4, 3, 1, false).precedes(&ver(4, 3, 1, true)));
    let devel = semver::Version::parse("4.3.1-devel").unwrap();
    let release = semver::Version::parse("4.3.1").unwrap();
    assert!(devel < release);
}

#[test]
fn overflow_agrees_with_semver() {
    let text = "Version: 99999999999999999999.3.1\n";
    assert_eq!(get_libr_version(text), None);
    assert!(semver::Version::parse("99999999999999999999.3.1").is_err());
}
