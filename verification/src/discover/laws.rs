//! Properties that hold of every probe's report.

use vstd::prelude::*;

use crate::discover::{
    chain_version, dir_versions, first_rv_match, is_current_link, linux_versions,
    listed_versions, mac_listed, mac_version, mac_versions, manager_listed, manager_versions,
    marked_default, plain_versions, standalone_listed, windows_versions, DirEntry,
};
use crate::parse::{header_version_of, status_field};
use crate::{RVersion, Version};

verus! {

/// A candidate without any evidence is rejected by every strategy, on
/// every platform: no probe lists it.
pub proof fn lemma_candidate_without_evidence_rejected(e: DirEntry)
    requires
        e.evidence.header is None,
        e.evidence.pkgconfig is None,
        e.evidence.exec_output is None,
    ensures
        !mac_listed(e),
        !manager_listed(e),
        !standalone_listed(e),
{
}

/// A candidate without any evidence never appears in a report: removing
/// it from a snapshot changes nothing, whichever probe scans it.
pub proof fn lemma_candidate_without_evidence_never_reported(s: Seq<DirEntry>, i: int)
    requires
        0 <= i < s.len(),
        s[i].evidence.header is None,
        s[i].evidence.pkgconfig is None,
        s[i].evidence.exec_output is None,
    ensures
        mac_versions(s) == mac_versions(s.remove(i)),
        dir_versions(s) == dir_versions(s.remove(i)),
        plain_versions(s) == plain_versions(s.remove(i)),
{
    lemma_skip_unlisted(s, i, |e: DirEntry| mac_listed(e), |e: DirEntry| mac_version(e));
    lemma_skip_unlisted(s, i, |e: DirEntry| manager_listed(e), |e: DirEntry| chain_version(e));
    lemma_skip_unlisted(s, i, |e: DirEntry| standalone_listed(e), |e: DirEntry| chain_version(e));
}

/// A symbolic link named exactly `current` is never listed by the macOS
/// probe, whatever its evidence says.
pub proof fn lemma_current_link_not_listed(e: DirEntry)
    requires
        is_current_link(e),
    ensures
        !mac_listed(e),
{
}

/// The `current` link contributes no entry of its own: removing it from a
/// macOS snapshot leaves the report unchanged, even when it designates a
/// valid root with a parseable version.
pub proof fn lemma_current_link_contributes_nothing(s: Seq<DirEntry>, i: int)
    requires
        0 <= i < s.len(),
        is_current_link(s[i]),
    ensures
        mac_versions(s) == mac_versions(s.remove(i)),
{
    lemma_skip_unlisted(s, i, |e: DirEntry| mac_listed(e), |e: DirEntry| mac_version(e));
}

/// Removing an entry that the filter rejects does not change the listed
/// versions.
pub proof fn lemma_skip_unlisted(
    s: Seq<DirEntry>,
    i: int,
    listed: spec_fn(DirEntry) -> bool,
    ver: spec_fn(DirEntry) -> Version,
)
    requires
        0 <= i < s.len(),
        !listed(s[i]),
    ensures
        listed_versions(s, listed, ver) == listed_versions(s.remove(i), listed, ver),
    decreases s.len(),
{
    if i == s.len() - 1 {
        assert(s.remove(i) =~= s.drop_last());
    } else {
        assert(s.remove(i).drop_last() =~= s.drop_last().remove(i));
        assert(s.remove(i).last() == s.last());
        lemma_skip_unlisted(s.drop_last(), i, listed, ver);
    }
}

/// A version read from a header carries the `-devel` pre-release flag
/// exactly when the header's status field is non-empty.
pub proof fn lemma_header_status_sets_devel(s: Seq<char>)
    requires
        header_version_of(s) is Some,
    ensures
        status_field(s) is Some,
        header_version_of(s)->0.devel == (status_field(s)->0.len() > 0),
{
}

/// No two report entries share a root path.
pub open spec fn distinct_roots(m: Seq<(Seq<char>, Version)>) -> bool {
    forall|a: int, b: int| 0 <= a < b < m.len() ==> m[a].0 != m[b].0
}

/// `x` is the root path of some entry of `s`.
pub open spec fn in_roots(x: Seq<char>, s: Seq<DirEntry>) -> bool {
    exists|i: int| #![trigger s[i]] 0 <= i < s.len() && x == s[i].root@
}

/// Every root of the report `m` is the root of some entry of `s`.
pub open spec fn roots_from(m: Seq<(Seq<char>, Version)>, s: Seq<DirEntry>) -> bool {
    forall|k: int| #![trigger m[k]] 0 <= k < m.len() ==> in_roots(m[k].0, s)
}

/// No two snapshot entries designate the same root path.
pub open spec fn entry_roots_distinct(s: Seq<DirEntry>) -> bool {
    forall|i: int, j: int| 0 <= i < j < s.len() ==> s[i].root@ != s[j].root@
}

/// All entries a multi-root snapshot holds, in probe order.
pub open spec fn flatten_entries(roots: Seq<Vec<DirEntry>>) -> Seq<DirEntry>
    decreases roots.len(),
{
    if roots.len() == 0 {
        Seq::empty()
    } else {
        flatten_entries(roots.drop_last()) + roots.last()@
    }
}

/// Listing keeps roots distinct: every reported root comes from an entry
/// of the snapshot, and distinct entry roots give distinct reported
/// roots.
pub proof fn lemma_listed_versions_distinct(
    s: Seq<DirEntry>,
    listed: spec_fn(DirEntry) -> bool,
    ver: spec_fn(DirEntry) -> Version,
)
    requires
        entry_roots_distinct(s),
    ensures
        roots_from(listed_versions(s, listed, ver), s),
        distinct_roots(listed_versions(s, listed, ver)),
    decreases s.len(),
{
    let m = listed_versions(s, listed, ver);
    if s.len() > 0 {
        let pre = listed_versions(s.drop_last(), listed, ver);
        lemma_listed_versions_distinct(s.drop_last(), listed, ver);
        assert forall|k: int| #![trigger m[k]] 0 <= k < m.len() implies in_roots(m[k].0, s) by {
            if k < pre.len() {
                assert(in_roots(pre[k].0, s.drop_last()));
                let i = choose|i: int|
                    0 <= i < s.drop_last().len() && pre[k].0 == s.drop_last()[i].root@;
                assert(m[k] == pre[k]);
                assert(0 <= i < s.len() && m[k].0 == s[i].root@);
            } else {
                assert(listed(s.last()) && k == pre.len());
                assert(m[k].0 == s[s.len() - 1].root@);
            }
        }
        assert forall|a: int, b: int| 0 <= a < b < m.len() implies m[a].0 != m[b].0 by {
            if b < pre.len() {
                assert(m[a] == pre[a] && m[b] == pre[b]);
            } else {
                assert(listed(s.last()) && b == pre.len());
                assert(in_roots(pre[a].0, s.drop_last()));
                let i = choose|i: int|
                    0 <= i < s.drop_last().len() && pre[a].0 == s.drop_last()[i].root@;
                assert(s[i].root@ != s[s.len() - 1].root@);
            }
        }
    }
}

/// Joining two reports whose roots come from snapshots with no root in
/// common keeps every root distinct.
proof fn lemma_merge_distinct(
    a: Seq<(Seq<char>, Version)>,
    b: Seq<(Seq<char>, Version)>,
    sa: Seq<DirEntry>,
    sb: Seq<DirEntry>,
)
    requires
        distinct_roots(a),
        distinct_roots(b),
        roots_from(a, sa),
        roots_from(b, sb),
        forall|i: int, j: int|
            0 <= i < sa.len() && 0 <= j < sb.len() ==> sa[i].root@ != sb[j].root@,
    ensures
        distinct_roots(a + b),
        roots_from(a + b, sa + sb),
{
    assert forall|x: int, y: int| 0 <= x < y < (a + b).len() implies (a + b)[x].0 != (a
        + b)[y].0 by {
        if y < a.len() {
            assert((a + b)[x] == a[x] && (a + b)[y] == a[y]);
        } else if x >= a.len() {
            assert((a + b)[x] == b[x - a.len()] && (a + b)[y] == b[y - a.len()]);
        } else {
            assert((a + b)[x] == a[x] && (a + b)[y] == b[y - a.len()]);
            assert(in_roots(a[x].0, sa));
            assert(in_roots(b[y - a.len()].0, sb));
            let i = choose|i: int| 0 <= i < sa.len() && a[x].0 == sa[i].root@;
            let j = choose|j: int| 0 <= j < sb.len() && b[y - a.len()].0 == sb[j].root@;
            assert(sa[i].root@ != sb[j].root@);
        }
    }
    assert forall|k: int| #![trigger (a + b)[k]] 0 <= k < (a + b).len() implies in_roots(
        (a + b)[k].0,
        sa + sb,
    ) by {
        if k < a.len() {
            assert((a + b)[k] == a[k]);
            assert(in_roots(a[k].0, sa));
            let i = choose|i: int| 0 <= i < sa.len() && a[k].0 == sa[i].root@;
            assert((sa + sb)[i] == sa[i]);
            assert(0 <= i < (sa + sb).len() && (a + b)[k].0 == (sa + sb)[i].root@);
        } else {
            assert((a + b)[k] == b[k - a.len()]);
            assert(in_roots(b[k - a.len()].0, sb));
            let j = choose|j: int| 0 <= j < sb.len() && b[k - a.len()].0 == sb[j].root@;
            assert((sa + sb)[sa.len() + j] == sb[j]);
            assert(0 <= sa.len() + j < (sa + sb).len() && (a + b)[k].0 == (sa + sb)[sa.len()
                + j].root@);
        }
    }
}

/// A prefix, a suffix and the cross pairs of a distinct flattened
/// snapshot are themselves distinct.
proof fn lemma_flatten_split(roots: Seq<Vec<DirEntry>>)
    requires
        roots.len() > 0,
        entry_roots_distinct(flatten_entries(roots)),
    ensures
        entry_roots_distinct(flatten_entries(roots.drop_last())),
        entry_roots_distinct(roots.last()@),
        forall|i: int, j: int|
            0 <= i < flatten_entries(roots.drop_last()).len() && 0 <= j < roots.last()@.len()
                ==> flatten_entries(roots.drop_last())[i].root@ != roots.last()@[j].root@,
{
    let pre = flatten_entries(roots.drop_last());
    let last = roots.last()@;
    assert(flatten_entries(roots) == pre + last);
    assert forall|i: int, j: int| 0 <= i < j < pre.len() implies pre[i].root@ != pre[j].root@ by {
        assert((pre + last)[i] == pre[i] && (pre + last)[j] == pre[j]);
    }
    assert forall|i: int, j: int| 0 <= i < j < last.len() implies last[i].root@
        != last[j].root@ by {
        assert((pre + last)[pre.len() + i] == last[i] && (pre + last)[pre.len() + j] == last[j]);
    }
    assert forall|i: int, j: int| 0 <= i < pre.len() && 0 <= j < last.len() implies pre[i].root@
        != last[j].root@ by {
        assert((pre + last)[i] == pre[i] && (pre + last)[pre.len() + j] == last[j]);
    }
}

/// The macOS report holds no duplicate roots when the snapshot's entries
/// designate distinct roots (as entries of one directory do).
pub proof fn lemma_mac_no_duplicate_roots(entries: Seq<DirEntry>)
    requires
        entry_roots_distinct(entries),
    ensures
        distinct_roots(mac_versions(entries)),
{
    lemma_listed_versions_distinct(
        entries,
        |e: DirEntry| mac_listed(e),
        |e: DirEntry| mac_version(e),
    );
}

/// The Windows report holds no duplicate roots when no two snapshot
/// entries, across all search roots, designate the same root.
pub proof fn lemma_windows_no_duplicate_roots(roots: Seq<Vec<DirEntry>>)
    requires
        entry_roots_distinct(flatten_entries(roots)),
    ensures
        distinct_roots(windows_versions(roots)),
        roots_from(windows_versions(roots), flatten_entries(roots)),
    decreases roots.len(),
{
    if roots.len() > 0 {
        lemma_flatten_split(roots);
        lemma_windows_no_duplicate_roots(roots.drop_last());
        lemma_listed_versions_distinct(
            roots.last()@,
            |e: DirEntry| standalone_listed(e),
            |e: DirEntry| chain_version(e),
        );
        lemma_merge_distinct(
            windows_versions(roots.drop_last()),
            plain_versions(roots.last()@),
            flatten_entries(roots.drop_last()),
            roots.last()@,
        );
    }
}

/// The version-manager tier of the Linux report holds no duplicate roots
/// when no two snapshot entries designate the same root.
pub proof fn lemma_manager_no_duplicate_roots(roots: Seq<Vec<DirEntry>>)
    requires
        entry_roots_distinct(flatten_entries(roots)),
    ensures
        distinct_roots(manager_versions(roots)),
        roots_from(manager_versions(roots), flatten_entries(roots)),
    decreases roots.len(),
{
    if roots.len() > 0 {
        lemma_flatten_split(roots);
        lemma_manager_no_duplicate_roots(roots.drop_last());
        lemma_listed_versions_distinct(
            roots.last()@,
            |e: DirEntry| manager_listed(e),
            |e: DirEntry| chain_version(e),
        );
        lemma_merge_distinct(
            manager_versions(roots.drop_last()),
            dir_versions(roots.last()@),
            flatten_entries(roots.drop_last()),
            roots.last()@,
        );
    }
}

/// The Linux report holds no duplicate roots when no two snapshot
/// entries — across the version-manager roots and the standalone paths —
/// designate the same root.
pub proof fn lemma_linux_no_duplicate_roots(manager: Seq<Vec<DirEntry>>, standalone: Seq<DirEntry>)
    requires
        entry_roots_distinct(flatten_entries(manager) + standalone),
    ensures
        distinct_roots(linux_versions(manager, standalone)),
{
    let fm = flatten_entries(manager);
    assert forall|i: int, j: int| 0 <= i < j < fm.len() implies fm[i].root@ != fm[j].root@ by {
        assert((fm + standalone)[i] == fm[i] && (fm + standalone)[j] == fm[j]);
    }
    assert forall|i: int, j: int| 0 <= i < j < standalone.len() implies standalone[i].root@
        != standalone[j].root@ by {
        assert((fm + standalone)[fm.len() + i] == standalone[i] && (fm + standalone)[fm.len() + j]
            == standalone[j]);
    }
    assert forall|i: int, j: int| 0 <= i < fm.len() && 0 <= j < standalone.len() implies fm[i].root@
        != standalone[j].root@ by {
        assert((fm + standalone)[i] == fm[i] && (fm + standalone)[fm.len() + j] == standalone[j]);
    }
    lemma_manager_no_duplicate_roots(manager);
    lemma_listed_versions_distinct(
        standalone,
        |e: DirEntry| standalone_listed(e),
        |e: DirEntry| chain_version(e),
    );
    lemma_merge_distinct(manager_versions(manager), plain_versions(standalone), fm, standalone);
}

/// What position the first version match is: the entry there carries the
/// version, and no earlier entry does; `None` exactly when no entry does.
pub proof fn lemma_first_rv_match_characterizes(vs: Seq<RVersion>, v: Version, from: nat)
    requires
        from <= vs.len(),
    ensures
        match first_rv_match(vs, v, from) {
            Some(i) => from <= i < vs.len() && vs[i].version == v && (forall|j: int|
                from <= j < i ==> vs[j].version != v),
            None => forall|j: int| from <= j < vs.len() ==> vs[j].version != v,
        },
    decreases vs.len() - from,
{
    if from < vs.len() && vs[from as int].version != v {
        lemma_first_rv_match_characterizes(vs, v, from + 1);
    }
}

/// When the resolver succeeded with some version, the report's default
/// is present — and then carries that version — exactly when some
/// discovered entry has it.
pub proof fn lemma_default_iff_version_found(
    default: Option<RVersion>,
    vs: Seq<RVersion>,
    d: RVersion,
)
    requires
        marked_default(default, vs, Some(d)),
    ensures
        (exists|i: int| 0 <= i < vs.len() && vs[i].version == d.version) <==> default is Some,
        default is Some ==> default->0.version == d.version,
{
    lemma_first_rv_match_characterizes(vs, d.version, 0);
    match first_rv_match(vs, d.version, 0) {
        Some(i) => {
            assert(0 <= i < vs.len() && vs[i].version == d.version);
        },
        None => {
        },
    }
}

/// A report whose entries match a model without duplicate roots holds no
/// duplicate roots itself.
pub proof fn lemma_report_no_duplicate_roots(vs: Seq<RVersion>, m: Seq<(Seq<char>, Version)>)
    requires
        crate::discover::versions_match(vs, m),
        distinct_roots(m),
    ensures
        forall|a: int, b: int| 0 <= a < b < vs.len() ==> vs[a].root@ != vs[b].root@,
{
}

} // verus!
