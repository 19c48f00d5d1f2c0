//! Version extraction from the evidence found at a candidate install root.
//!
//! Three evidence sources are understood, each by a small line-based
//! grammar:
//!
//! * the version header (`include/Rversion.h`), whose `R_MAJOR`, `R_MINOR`
//!   and `R_STATUS` defines carry the version and a status flag;
//! * the package-config file (`lib/pkgconfig/libR.pc`), whose
//!   `Version: X.Y.Z` line carries it;
//! * the output of asking the installation's own script runner for its
//!   major and minor version (used only when no package-config file
//!   exists).
//!
//! In every grammar the field that is found must be a strictly valid
//! numeric version component ([`crate::scan::valid_number`]), or the whole
//! candidate is rejected.

use vstd::prelude::*;

use crate::scan::{
    digit_run_end, find_from, is_ws, lemma_digit_run_bounds, lemma_find_from_bounds,
    lemma_skip_ws_bounds, number_of, parse_number, skip_ws_from, starts_with, valid_number,
    window_digit_run_end, window_find, window_skip_ws, window_starts_with,
};
use crate::Version;

verus! {

/// The text a line must carry between double quotes after a `#define`-style
/// keyword and at least one blank: `None` when the line does not have that
/// shape, otherwise the text between the first pair of quotes.
pub open spec fn quoted_field(line: Seq<char>, kw: Seq<char>) -> Option<Seq<char>> {
    if !starts_with(line, kw) {
        None
    } else {
        let j = skip_ws_from(line, kw.len());
        if j == kw.len() || j >= line.len() || line[j as int] != '"' {
            None
        } else {
            let k = find_from(line, j + 1, '"');
            if k >= line.len() {
                None
            } else {
                Some(line.subrange(j as int + 1, k as int))
            }
        }
    }
}

/// The field of the first line of `s` (searching from position `start`)
/// that matches the quoted-field shape for keyword `kw`.
pub open spec fn field_lookup(s: Seq<char>, start: nat, kw: Seq<char>) -> Option<Seq<char>>
    decreases s.len() + 1 - start,
    via field_lookup_decreases
{
    if start > s.len() {
        None
    } else {
        let ne = find_from(s, start, '\n');
        match quoted_field(s.subrange(start as int, ne as int), kw) {
            Some(f) => Some(f),
            None => field_lookup(s, ne + 1, kw),
        }
    }
}

#[via_fn]
proof fn field_lookup_decreases(s: Seq<char>, start: nat, kw: Seq<char>) {
    if start <= s.len() {
        lemma_find_from_bounds(s, start, '\n');
    }
}

pub open spec fn major_field(s: Seq<char>) -> Option<Seq<char>> {
    field_lookup(s, 0, "#define R_MAJOR"@)
}

pub open spec fn minor_field(s: Seq<char>) -> Option<Seq<char>> {
    field_lookup(s, 0, "#define R_MINOR"@)
}

pub open spec fn status_field(s: Seq<char>) -> Option<Seq<char>> {
    field_lookup(s, 0, "#define R_STATUS"@)
}

/// Splits the minor field at its first dot into a minor and a patch
/// component; `None` when it holds no dot.
pub open spec fn split_minor(f: Seq<char>) -> Option<(Seq<char>, Seq<char>)> {
    let d = find_from(f, 0, '.');
    if d >= f.len() {
        None
    } else {
        Some((f.subrange(0, d as int), f.subrange(d as int + 1, f.len() as int)))
    }
}

/// The version stated by a version header: major from the `R_MAJOR` field,
/// minor and patch from the `R_MINOR` field split at its dot, and the
/// `-devel` pre-release flag exactly when the `R_STATUS` field is
/// non-empty. `None` when a field is missing or a component is not a
/// strictly valid number.
pub open spec fn header_version_of(s: Seq<char>) -> Option<Version> {
    if major_field(s) is Some && minor_field(s) is Some && status_field(s) is Some {
        match split_minor(minor_field(s)->0) {
            None => None,
            Some(mp) => {
                let maj = major_field(s)->0;
                if valid_number(maj) && valid_number(mp.0) && valid_number(mp.1) {
                    Some(
                        Version {
                            major: number_of(maj),
                            minor: number_of(mp.0),
                            patch: number_of(mp.1),
                            devel: status_field(s)->0.len() > 0,
                        },
                    )
                } else {
                    None
                }
            },
        }
    } else {
        None
    }
}

/// The three digit runs of a package-config version line
/// `Version: X.Y.Z` (anything may follow the third run); `None` when the
/// line does not have that shape.
pub open spec fn pc_line_numbers(line: Seq<char>) -> Option<(Seq<char>, Seq<char>, Seq<char>)> {
    if !starts_with(line, "Version: "@) {
        None
    } else {
        let i = "Version: "@.len();
        let e1 = digit_run_end(line, i);
        if e1 == i || e1 >= line.len() || line[e1 as int] != '.' {
            None
        } else {
            let e2 = digit_run_end(line, e1 + 1);
            if e2 == e1 + 1 || e2 >= line.len() || line[e2 as int] != '.' {
                None
            } else {
                let e3 = digit_run_end(line, e2 + 1);
                if e3 == e2 + 1 {
                    None
                } else {
                    Some(
                        (
                            line.subrange(i as int, e1 as int),
                            line.subrange(e1 as int + 1, e2 as int),
                            line.subrange(e2 as int + 1, e3 as int),
                        ),
                    )
                }
            }
        }
    }
}

/// The digit runs of the first line of `s` (searching from `start`) that
/// matches the package-config version shape.
pub open spec fn pc_lookup(s: Seq<char>, start: nat) -> Option<(Seq<char>, Seq<char>, Seq<char>)>
    decreases s.len() + 1 - start,
    via pc_lookup_decreases
{
    if start > s.len() {
        None
    } else {
        let ne = find_from(s, start, '\n');
        match pc_line_numbers(s.subrange(start as int, ne as int)) {
            Some(t) => Some(t),
            None => pc_lookup(s, ne + 1),
        }
    }
}

#[via_fn]
proof fn pc_lookup_decreases(s: Seq<char>, start: nat) {
    if start <= s.len() {
        lemma_find_from_bounds(s, start, '\n');
    }
}

/// The version stated by a package-config file: the components of its
/// first `Version: X.Y.Z` line, each a strictly valid number, and no
/// pre-release flag.
pub open spec fn pc_version_of(s: Seq<char>) -> Option<Version> {
    match pc_lookup(s, 0) {
        None => None,
        Some(t) => if valid_number(t.0) && valid_number(t.1) && valid_number(t.2) {
            Some(
                Version {
                    major: number_of(t.0),
                    minor: number_of(t.1),
                    patch: number_of(t.2),
                    devel: false,
                },
            )
        } else {
            None
        },
    }
}

/// `s` without its trailing whitespace.
pub open spec fn trim_end_ws(s: Seq<char>) -> Seq<char>
    decreases s.len(),
{
    if s.len() > 0 && is_ws(s.last()) {
        trim_end_ws(s.drop_last())
    } else {
        s
    }
}

/// The version printed by the installation's script runner when asked for
/// its version: its first output line, trailing whitespace dropped, must
/// be exactly `X.Y` (the patch component is then zero) or `X.Y.Z`.
pub open spec fn query_version_of(s: Seq<char>) -> Option<Version> {
    let line = trim_end_ws(s.subrange(0, find_from(s, 0, '\n') as int));
    let e1 = digit_run_end(line, 0);
    if e1 == 0 || e1 >= line.len() || line[e1 as int] != '.' {
        None
    } else {
        let e2 = digit_run_end(line, e1 + 1);
        if e2 == e1 + 1 {
            None
        } else if e2 == line.len() {
            let a = line.subrange(0, e1 as int);
            let b = line.subrange(e1 as int + 1, e2 as int);
            if valid_number(a) && valid_number(b) {
                Some(Version { major: number_of(a), minor: number_of(b), patch: 0, devel: false })
            } else {
                None
            }
        } else if line[e2 as int] != '.' {
            None
        } else {
            let e3 = digit_run_end(line, e2 + 1);
            if e3 == e2 + 1 || e3 != line.len() {
                None
            } else {
                let a = line.subrange(0, e1 as int);
                let b = line.subrange(e1 as int + 1, e2 as int);
                let c = line.subrange(e2 as int + 1, e3 as int);
                if valid_number(a) && valid_number(b) && valid_number(c) {
                    Some(
                        Version {
                            major: number_of(a),
                            minor: number_of(b),
                            patch: number_of(c),
                            devel: false,
                        },
                    )
                } else {
                    None
                }
            }
        }
    }
}

/// Field bounds (absolute positions in `s`) of the first line matching the
/// quoted-field shape for `kw`, as `field_lookup` describes.
fn lookup_field(s: &str, kw: &str) -> (r: Option<(usize, usize)>)
    ensures
        match r {
            Some(b) => b.0 <= b.1 <= s@.len() && field_lookup(s@, 0, kw@) == Some(
                s@.subrange(b.0 as int, b.1 as int),
            ),
            None => field_lookup(s@, 0, kw@) is None,
        },
{
    let n = s.unicode_len();
    let mut start: usize = 0;
    loop
        invariant
            start <= n == s@.len(),
            field_lookup(s@, 0, kw@) == field_lookup(s@, start as nat, kw@),
        decreases n - start,
    {
        let ne = window_find(s, 0, n, start, '\n');
        proof {
            assert(s@.subrange(0, n as int) =~= s@);
            lemma_find_from_bounds(s@, start as nat, '\n');
        }
        match window_quoted_field(s, start, ne, kw) {
            Some(b) => {
                return Some(b);
            },
            None => {
                proof {
                    assert(field_lookup(s@, start as nat, kw@) == field_lookup(
                        s@,
                        ne as nat + 1,
                        kw@,
                    ));
                }
                if ne >= n {
                    proof {
                        assert(field_lookup(s@, ne as nat + 1, kw@) is None);
                    }
                    return None;
                }
                start = ne + 1;
            },
        }
    }
}

/// Bounds of the quoted field in the window `[start, end)` of `s`, as
/// `quoted_field` describes on that window's view.
fn window_quoted_field(s: &str, start: usize, end: usize, kw: &str) -> (r: Option<(usize, usize)>)
    requires
        start <= end <= s@.len(),
    ensures
        ({
            let line = s@.subrange(start as int, end as int);
            match r {
                Some(b) => start <= b.0 <= b.1 <= end && quoted_field(line, kw@) == Some(
                    s@.subrange(b.0 as int, b.1 as int),
                ),
                None => quoted_field(line, kw@) is None,
            }
        }),
{
    let ghost line = s@.subrange(start as int, end as int);
    if !window_starts_with(s, start, end, kw) {
        return None;
    }
    let klen = kw.unicode_len();
    assert(klen <= line.len());
    let j = window_skip_ws(s, start, end, klen);
    proof {
        lemma_skip_ws_bounds(line, klen as nat);
    }
    if j == klen {
        return None;
    }
    if j >= end - start {
        return None;
    }
    let qc = s.get_char(start + j);
    assert(line[j as int] == s@[start + j]);
    if qc != '"' {
        return None;
    }
    let k = window_find(s, start, end, j + 1, '"');
    proof {
        lemma_find_from_bounds(line, (j + 1) as nat, '"');
    }
    if k >= end - start {
        return None;
    }
    proof {
        assert(line.subrange(j as int + 1, k as int) =~= s@.subrange(
            start + j as int + 1,
            start + k as int,
        ));
    }
    Some((start + j + 1, start + k))
}

/// Reads a version from the text of a version header, as
/// `header_version_of` describes.
pub fn read_r_ver(content: &str) -> (r: Option<Version>)
    ensures
        r == header_version_of(content@),
{
    let mj = match lookup_field(content, "#define R_MAJOR") {
        Some(b) => b,
        None => {
            return None;
        },
    };
    let mn = match lookup_field(content, "#define R_MINOR") {
        Some(b) => b,
        None => {
            return None;
        },
    };
    let st = match lookup_field(content, "#define R_STATUS") {
        Some(b) => b,
        None => {
            return None;
        },
    };
    let ghost mf = content@.subrange(mn.0 as int, mn.1 as int);
    let d = window_find(content, mn.0, mn.1, 0, '.');
    if d >= mn.1 - mn.0 {
        return None;
    }
    proof {
        assert(mf.subrange(0, d as int) =~= content@.subrange(mn.0 as int, mn.0 + d as int));
        assert(mf.subrange(d as int + 1, mf.len() as int) =~= content@.subrange(
            mn.0 + d as int + 1,
            mn.1 as int,
        ));
    }
    let major = parse_number(content, mj.0, mj.1);
    let minor = parse_number(content, mn.0, mn.0 + d);
    let patch = parse_number(content, mn.0 + d + 1, mn.1);
    match (major, minor, patch) {
        (Some(a), Some(b), Some(c)) => Some(
            Version { major: a, minor: b, patch: c, devel: st.1 - st.0 > 0 },
        ),
        _ => None,
    }
}

/// Bounds of the three digit runs of the first package-config version
/// line, absolute in `s`, as `pc_lookup` describes.
fn lookup_pc(s: &str) -> (r: Option<((usize, usize), (usize, usize), (usize, usize))>)
    ensures
        match r {
            Some(t) => t.0.0 <= t.0.1 <= s@.len() && t.1.0 <= t.1.1 <= s@.len() && t.2.0 <= t.2.1
                <= s@.len() && pc_lookup(s@, 0) == Some(
                (
                    s@.subrange(t.0.0 as int, t.0.1 as int),
                    s@.subrange(t.1.0 as int, t.1.1 as int),
                    s@.subrange(t.2.0 as int, t.2.1 as int),
                ),
            ),
            None => pc_lookup(s@, 0) is None,
        },
{
    let n = s.unicode_len();
    let mut start: usize = 0;
    loop
        invariant
            start <= n == s@.len(),
            pc_lookup(s@, 0) == pc_lookup(s@, start as nat),
        decreases n - start,
    {
        let ne = window_find(s, 0, n, start, '\n');
        proof {
            assert(s@.subrange(0, n as int) =~= s@);
            lemma_find_from_bounds(s@, start as nat, '\n');
        }
        match window_pc_numbers(s, start, ne) {
            Some(t) => {
                return Some(t);
            },
            None => {
                proof {
                    assert(pc_lookup(s@, start as nat) == pc_lookup(s@, ne as nat + 1));
                }
                if ne >= n {
                    proof {
                        assert(pc_lookup(s@, ne as nat + 1) is None);
                    }
                    return None;
                }
                start = ne + 1;
            },
        }
    }
}

/// Bounds of the three digit runs in the window `[start, end)` of `s`, as
/// `pc_line_numbers` describes on that window's view.
fn window_pc_numbers(s: &str, start: usize, end: usize) -> (r: Option<
    ((usize, usize), (usize, usize), (usize, usize)),
>)
    requires
        start <= end <= s@.len(),
    ensures
        ({
            let line = s@.subrange(start as int, end as int);
            match r {
                Some(t) => start <= t.0.0 <= t.0.1 <= end && start <= t.1.0 <= t.1.1 <= end && start
                    <= t.2.0 <= t.2.1 <= end && pc_line_numbers(line) == Some(
                    (
                        s@.subrange(t.0.0 as int, t.0.1 as int),
                        s@.subrange(t.1.0 as int, t.1.1 as int),
                        s@.subrange(t.2.0 as int, t.2.1 as int),
                    ),
                ),
                None => pc_line_numbers(line) is None,
            }
        }),
{
    let ghost line = s@.subrange(start as int, end as int);
    if !window_starts_with(s, start, end, "Version: ") {
        return None;
    }
    let klen = "Version: ".unicode_len();
    assert(klen <= line.len());
    let e1 = window_digit_run_end(s, start, end, klen);
    proof {
        lemma_digit_run_bounds(line, klen as nat);
    }
    if e1 == klen || e1 >= end - start {
        return None;
    }
    assert(line[e1 as int] == s@[start + e1 as int]);
    if s.get_char(start + e1) != '.' {
        return None;
    }
    let e2 = window_digit_run_end(s, start, end, e1 + 1);
    proof {
        lemma_digit_run_bounds(line, (e1 + 1) as nat);
    }
    if e2 == e1 + 1 || e2 >= end - start {
        return None;
    }
    assert(line[e2 as int] == s@[start + e2 as int]);
    if s.get_char(start + e2) != '.' {
        return None;
    }
    let e3 = window_digit_run_end(s, start, end, e2 + 1);
    proof {
        lemma_digit_run_bounds(line, (e2 + 1) as nat);
    }
    if e3 == e2 + 1 {
        return None;
    }
    proof {
        assert(line.subrange(klen as int, e1 as int) =~= s@.subrange(
            start + klen as int,
            start + e1 as int,
        ));
        assert(line.subrange(e1 as int + 1, e2 as int) =~= s@.subrange(
            start + e1 as int + 1,
            start + e2 as int,
        ));
        assert(line.subrange(e2 as int + 1, e3 as int) =~= s@.subrange(
            start + e2 as int + 1,
            start + e3 as int,
        ));
    }
    Some(((start + klen, start + e1), (start + e1 + 1, start + e2), (start + e2 + 1, start + e3)))
}

/// Reads a version from the text of a package-config file, as
/// `pc_version_of` describes.
pub fn get_libr_version(content: &str) -> (r: Option<Version>)
    ensures
        r == pc_version_of(content@),
{
    let t = match lookup_pc(content) {
        Some(t) => t,
        None => {
            return None;
        },
    };
    let a = parse_number(content, t.0.0, t.0.1);
    let b = parse_number(content, t.1.0, t.1.1);
    let c = parse_number(content, t.2.0, t.2.1);
    match (a, b, c) {
        (Some(x), Some(y), Some(z)) => Some(
            Version { major: x, minor: y, patch: z, devel: false },
        ),
        _ => None,
    }
}

/// Reads a version from the captured output of the script runner's version
/// query, as `query_version_of` describes.
pub fn parse_rscript_output(output: &str) -> (r: Option<Version>)
    ensures
        r == query_version_of(output@),
{
    let n = output.unicode_len();
    let ne = window_find(output, 0, n, 0, '\n');
    proof {
        assert(output@.subrange(0, n as int) =~= output@);
        lemma_find_from_bounds(output@, 0, '\n');
    }
    let mut end: usize = ne;
    loop
        invariant
            end <= ne <= n == output@.len(),
            trim_end_ws(output@.subrange(0, ne as int)) == trim_end_ws(
                output@.subrange(0, end as int),
            ),
        ensures
            end <= ne <= n == output@.len(),
            trim_end_ws(output@.subrange(0, ne as int)) == output@.subrange(0, end as int),
        decreases end,
    {
        if end == 0 {
            break;
        }
        let c = output.get_char(end - 1);
        assert(output@.subrange(0, end as int).last() == output@[end - 1]);
        if !(c == ' ' || c == '\t' || c == '\r') {
            break;
        }
        proof {
            assert(output@.subrange(0, end as int).drop_last() =~= output@.subrange(
                0,
                end as int - 1,
            ));
        }
        end = end - 1;
    }
    let ghost line = trim_end_ws(output@.subrange(0, ne as int));
    proof {
        assert(line == output@.subrange(0, end as int));
    }
    let e1 = window_digit_run_end(output, 0, end, 0);
    proof {
        lemma_digit_run_bounds(line, 0);
    }
    if e1 == 0 || e1 >= end {
        return None;
    }
    assert(line[e1 as int] == output@[e1 as int]);
    if output.get_char(e1) != '.' {
        return None;
    }
    let e2 = window_digit_run_end(output, 0, end, e1 + 1);
    proof {
        lemma_digit_run_bounds(line, (e1 + 1) as nat);
    }
    if e2 == e1 + 1 {
        return None;
    }
    proof {
        assert(line.subrange(0, e1 as int) =~= output@.subrange(0, e1 as int));
        assert(line.subrange(e1 as int + 1, e2 as int) =~= output@.subrange(
            e1 as int + 1,
            e2 as int,
        ));
    }
    if e2 == end {
        let a = parse_number(output, 0, e1);
        let b = parse_number(output, e1 + 1, e2);
        return match (a, b) {
            (Some(x), Some(y)) => Some(Version { major: x, minor: y, patch: 0, devel: false }),
            _ => None,
        };
    }
    assert(line[e2 as int] == output@[e2 as int]);
    if output.get_char(e2) != '.' {
        return None;
    }
    let e3 = window_digit_run_end(output, 0, end, e2 + 1);
    proof {
        lemma_digit_run_bounds(line, (e2 + 1) as nat);
    }
    if e3 == e2 + 1 || e3 != end {
        return None;
    }
    proof {
        assert(line.subrange(e2 as int + 1, e3 as int) =~= output@.subrange(
            e2 as int + 1,
            e3 as int,
        ));
    }
    let a = parse_number(output, 0, e1);
    let b = parse_number(output, e1 + 1, e2);
    let c = parse_number(output, e2 + 1, e3);
    match (a, b, c) {
        (Some(x), Some(y), Some(z)) => Some(
            Version { major: x, minor: y, patch: z, devel: false },
        ),
        _ => None,
    }
}

/// The evidence the version parser may consult at one candidate install
/// root. A field is `None` when the corresponding file could not be read
/// (or, for the query output, the executable could not be run); the query
/// output is consulted only when no package-config file exists.
#[derive(Debug)]
pub struct Evidence {
    /// Text of `include/Rversion.h`.
    pub header: Option<String>,
    /// Text of `lib/pkgconfig/libR.pc`.
    pub pkgconfig: Option<String>,
    /// Captured standard output of the version query, run against the
    /// candidate's own script runner under `bin/`.
    pub exec_output: Option<String>,
}

/// The version the header strategy assigns to a candidate's evidence.
pub open spec fn header_evidence_version(ev: Evidence) -> Option<Version> {
    match ev.header {
        Some(h) => header_version_of(h@),
        None => None,
    }
}

/// The version the package-config strategy, with the query fallback,
/// assigns to a candidate's evidence: the package-config file decides when
/// it exists; only when it is absent does the query output count.
pub open spec fn chain_version_of(ev: Evidence) -> Option<Version> {
    match ev.pkgconfig {
        Some(c) => pc_version_of(c@),
        None => match ev.exec_output {
            Some(o) => query_version_of(o@),
            None => None,
        },
    }
}

impl Evidence {
    /// Version of this evidence under the header strategy.
    pub fn header_version(&self) -> (r: Option<Version>)
        ensures
            r == header_evidence_version(*self),
    {
        match &self.header {
            Some(h) => read_r_ver(h.as_str()),
            None => None,
        }
    }

    /// Version of this evidence under the package-config strategy with the
    /// query fallback.
    pub fn config_version(&self) -> (r: Option<Version>)
        ensures
            r == chain_version_of(*self),
    {
        match &self.pkgconfig {
            Some(c) => get_libr_version(c.as_str()),
            None => match &self.exec_output {
                Some(o) => parse_rscript_output(o.as_str()),
                None => None,
            },
        }
    }
}

} // verus!
