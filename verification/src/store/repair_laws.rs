//! What a metadata repair leaves behind: the rows that it could only report.
use vstd::prelude::*;

use crate::store::audit::{behind_prefix, starts_with_index};
use crate::store::keys::{key1, key2, prefixes_are_namespaces, COUNT_PREFIX, FRESHNESS_PREFIX, INDEX_PREFIX, PROJECTS_PREFIX};
use crate::store::repair::{owned_by, owning, FixText, RepairContext, RepairNamespace, RepairText};
use crate::store::txn::{keys_under, rows_are_under, TxnState};

verus! {

/// Whether a row of the store shows a finding.
spec fn shows(
    context: RepairContext,
    rows: Map<Seq<char>, Seq<u8>>,
    namespace: RepairNamespace,
    key: Seq<char>,
    finding: RepairText,
) -> bool {
    &&& rows.contains_key(key)
    &&& namespace.prefix_text().is_prefix_of(key)
    &&& context.row_finding(namespace, key, rows[key]) == Some(finding)
}

proof fn rows_findings_members(
    context: RepairContext,
    namespace: RepairNamespace,
    rows: Map<Seq<char>, Seq<u8>>,
    keys: Seq<Seq<char>>,
    n: int,
    finding: RepairText,
)
    requires
        0 <= n <= keys.len(),
    ensures
        context.rows_findings(namespace, rows, keys, n).contains(finding) <==> exists|j: int|
            0 <= j < n && context.row_finding(namespace, #[trigger] keys[j], rows[keys[j]]) == Some(finding),
    decreases n,
{
    if n > 0 {
        let fewer = context.rows_findings(namespace, rows, keys, n - 1);
        rows_findings_members(context, namespace, rows, keys, n - 1, finding);
        match context.row_finding(namespace, keys[n - 1], rows[keys[n - 1]]) {
            Some(last) => {
                let all = fewer.push(last);
                if fewer.contains(finding) {
                    let i = choose|i: int| 0 <= i < fewer.len() && fewer[i] == finding;
                    assert(all[i] == finding);
                }
                if all.contains(finding) && last != finding {
                    let i = choose|i: int| 0 <= i < all.len() && all[i] == finding;
                    assert(fewer[i] == finding);
                }
                if last == finding {
                    assert(all[fewer.len() as int] == finding);
                }
            },
            None => {},
        }
    }
}

proof fn namespace_findings_members(
    context: RepairContext,
    namespace: RepairNamespace,
    rows: Map<Seq<char>, Seq<u8>>,
    finding: RepairText,
)
    requires
        rows.dom().finite(),
    ensures
        context.namespace_findings(namespace, rows).contains(finding) <==> exists|key: Seq<char>|
            shows(context, rows, namespace, key, finding),
{
    let prefix = namespace.prefix_text();
    let keys = keys_under(rows, prefix);
    rows_findings_members(context, namespace, rows, keys, keys.len() as int, finding);
    if context.namespace_findings(namespace, rows).contains(finding) {
        let j = choose|j: int|
            0 <= j < keys.len() && context.row_finding(namespace, #[trigger] keys[j], rows[keys[j]]) == Some(finding);
        rows_are_under(rows, prefix, keys[j]);
        assert(keys.contains(keys[j]));
        assert(shows(context, rows, namespace, keys[j], finding));
    }
    if exists|key: Seq<char>| shows(context, rows, namespace, key, finding) {
        let key = choose|key: Seq<char>| shows(context, rows, namespace, key, finding);
        rows_are_under(rows, prefix, key);
        let j = choose|j: int| 0 <= j < keys.len() && keys[j] == key;
        assert(context.row_finding(namespace, keys[j], rows[keys[j]]) == Some(finding));
    }
}

proof fn joined_members(a: Seq<RepairText>, b: Seq<RepairText>, finding: RepairText)
    ensures
        (a + b).contains(finding) == (a.contains(finding) || b.contains(finding)),
{
    let all = a + b;
    if a.contains(finding) {
        let i = choose|i: int| 0 <= i < a.len() && a[i] == finding;
        assert(all[i] == finding);
    }
    if b.contains(finding) {
        let i = choose|i: int| 0 <= i < b.len() && b[i] == finding;
        assert(all[a.len() + i] == finding);
    }
    if all.contains(finding) {
        let i = choose|i: int| 0 <= i < all.len() && all[i] == finding;
        if i < a.len() {
            assert(a[i] == finding);
        } else {
            assert(b[i - a.len()] == finding);
        }
    }
}

/// Everything that is found is shown by a row, and everything that a row shows is found.
proof fn found_members(context: RepairContext, rows: Map<Seq<char>, Seq<u8>>, finding: RepairText)
    requires
        rows.dom().finite(),
    ensures
        context.found(rows).contains(finding) <==> exists|namespace: RepairNamespace, key: Seq<char>|
            shows(context, rows, namespace, key, finding),
{
    let a = context.namespace_findings(RepairNamespace::Page, rows);
    let b = context.namespace_findings(RepairNamespace::Source, rows);
    let c = context.namespace_findings(RepairNamespace::Metadata, rows);
    let d = context.namespace_findings(RepairNamespace::Publication, rows);
    let e = context.namespace_findings(RepairNamespace::Project, rows);
    let f = context.namespace_findings(RepairNamespace::Upload, rows);
    let g = context.namespace_findings(RepairNamespace::Override, rows);
    let h = context.namespace_findings(RepairNamespace::Provenance, rows);
    joined_members(a, b, finding);
    joined_members(a + b, c, finding);
    joined_members(a + b + c, d, finding);
    joined_members(a + b + c + d, e, finding);
    joined_members(a + b + c + d + e, f, finding);
    joined_members(a + b + c + d + e + f, g, finding);
    joined_members(a + b + c + d + e + f + g, h, finding);
    namespace_findings_members(context, RepairNamespace::Page, rows, finding);
    namespace_findings_members(context, RepairNamespace::Source, rows, finding);
    namespace_findings_members(context, RepairNamespace::Metadata, rows, finding);
    namespace_findings_members(context, RepairNamespace::Publication, rows, finding);
    namespace_findings_members(context, RepairNamespace::Project, rows, finding);
    namespace_findings_members(context, RepairNamespace::Upload, rows, finding);
    namespace_findings_members(context, RepairNamespace::Override, rows, finding);
    namespace_findings_members(context, RepairNamespace::Provenance, rows, finding);
    if exists|namespace: RepairNamespace, key: Seq<char>| shows(context, rows, namespace, key, finding) {
        let (namespace, key) = choose|namespace: RepairNamespace, key: Seq<char>|
            shows(context, rows, namespace, key, finding);
        match namespace {
            RepairNamespace::Page => {},
            RepairNamespace::Source => {},
            RepairNamespace::Metadata => {},
            RepairNamespace::Publication => {},
            RepairNamespace::Project => {},
            RepairNamespace::Upload => {},
            RepairNamespace::Override => {},
            RepairNamespace::Provenance => {},
        }
    }
}

/// The row that a fix is about.
spec fn target(fix: FixText) -> Option<Seq<char>> {
    match fix {
        FixText::RemoveLocal { key } => Some(key),
        FixText::RemoveCachedProject { index, project } => Some(key2(PROJECTS_PREFIX@, index, project)),
        FixText::RemoveCachedPage { page } => Some(key1(INDEX_PREFIX@, page)),
        FixText::ReportOnly => None,
    }
}

proof fn owning_is_a_prefix(names: Seq<Seq<char>>, key: Seq<char>, n: int)
    requires
        0 <= n <= names.len(),
    ensures
        owning(names, key, n) matches Some(i) ==> 0 <= i < n && starts_with_index(key, names[i]),
    decreases n,
{
    if n > 0 {
        owning_is_a_prefix(names, key, n - 1);
    }
}

/// A row that shows an actionable finding is the one that the fix is about.
proof fn fixes_are_about_their_row(
    context: RepairContext,
    rows: Map<Seq<char>, Seq<u8>>,
    namespace: RepairNamespace,
    key: Seq<char>,
    finding: RepairText,
)
    requires
        shows(context, rows, namespace, key, finding),
    ensures
        finding.fix is ReportOnly || target(finding.fix) == Some(key),
{
    prefixes_are_namespaces();
    let prefix = namespace.prefix_text();
    let rest = behind_prefix(key);
    match namespace {
        RepairNamespace::Page => {
            assert(key1(INDEX_PREFIX@, rest) =~= key) by {
                assert(key.subrange(0, prefix.len() as int) =~= prefix);
            }
        },
        RepairNamespace::Project => {
            let names = context.names();
            owning_is_a_prefix(names, rest, names.len() as int);
            if let Some((index, project)) = owned_by(names, rest) {
                reveal_strlit("/");
                let head = index + "/"@;
                assert(key.subrange(0, prefix.len() as int) =~= prefix);
                assert(rest.subrange(0, head.len() as int) =~= head);
                assert(rest =~= head + project);
                assert(key =~= prefix + rest);
                assert(key2(PROJECTS_PREFIX@, index, project) =~= key);
            }
        },
        _ => {},
    }
}

spec fn is_namespace_key(namespace: RepairNamespace, key: Seq<char>) -> bool {
    namespace.prefix_text().is_prefix_of(key)
}

/// A key lies in one namespace, and derived rows lie in none that a repair walks.
proof fn namespaces_keep_apart(namespace: RepairNamespace, other: RepairNamespace, key: Seq<char>)
    requires
        is_namespace_key(namespace, key),
    ensures
        is_namespace_key(other, key) ==> namespace == other,
        !COUNT_PREFIX@.is_prefix_of(key),
        !FRESHNESS_PREFIX@.is_prefix_of(key),
{
    prefixes_are_namespaces();
    let a = namespace.prefix_text();
    let b = other.prefix_text();
    assert(key.subrange(0, a.len() as int)[5] == key[5]);
    if b.is_prefix_of(key) {
        assert(key.subrange(0, b.len() as int)[5] == key[5]);
    }
    if COUNT_PREFIX@.is_prefix_of(key) {
        assert(key.subrange(0, COUNT_PREFIX@.len() as int)[5] == key[5]);
    }
    if FRESHNESS_PREFIX@.is_prefix_of(key) {
        assert(key.subrange(0, FRESHNESS_PREFIX@.len() as int)[5] == key[5]);
    }
}

proof fn repair_step(s: TxnState, fix: FixText, namespace: RepairNamespace, key: Seq<char>)
    requires
        is_namespace_key(namespace, key),
        s.repaired(fix) is Ok,
        s.rows.dom().finite(),
    ensures
        (s.repaired(fix)->Ok_0).rows.dom().finite(),
        (s.repaired(fix)->Ok_0).row(key) == (if target(fix) == Some(key) {
            None
        } else {
            s.row(key)
        }),
{
    namespaces_keep_apart(namespace, namespace, key);
    prefixes_are_namespaces();
    match fix {
        FixText::RemoveCachedProject { index, project } => {
            let p = COUNT_PREFIX@;
            let row = key1(p, index);
            assert(row.subrange(0, p.len() as int) =~= p);
            assert(key != row);
        },
        FixText::RemoveCachedPage { page } => {
            let p = FRESHNESS_PREFIX@;
            let row = key1(p, page);
            assert(row.subrange(0, p.len() as int) =~= p);
            assert(key != row);
        },
        _ => {},
    }
}

/// Whether one of the first `n` fixes is about the row of `key`.
spec fn is_fixed(plan: Seq<RepairText>, n: int, key: Seq<char>) -> bool {
    exists|i: int| 0 <= i < n && target((#[trigger] plan[i]).fix) == Some(key)
}

proof fn repair_reaches(s: TxnState, plan: Seq<RepairText>, n: int, namespace: RepairNamespace, key: Seq<char>)
    requires
        0 <= n <= plan.len(),
        is_namespace_key(namespace, key),
        s.repaired_all(plan, n) is Ok,
        s.rows.dom().finite(),
    ensures
        (s.repaired_all(plan, n)->Ok_0).rows.dom().finite(),
        (s.repaired_all(plan, n)->Ok_0).row(key) == (if is_fixed(plan, n, key) {
            None
        } else {
            s.row(key)
        }),
    decreases n,
{
    if n > 0 {
        repair_reaches(s, plan, n - 1, namespace, key);
        let before = s.repaired_all(plan, n - 1)->Ok_0;
        repair_step(before, plan[n - 1].fix, namespace, key);
        if is_fixed(plan, n - 1, key) {
            let i = choose|i: int| 0 <= i < n - 1 && target((#[trigger] plan[i]).fix) == Some(key);
            assert(target(plan[i].fix) == Some(key));
            assert(is_fixed(plan, n, key));
        }
        if target(plan[n - 1].fix) == Some(key) {
            assert(is_fixed(plan, n, key));
        }
    }
}

/// A repair settles what it can and nothing else: once a plan has been applied, what is found again is
/// exactly what the plan could only report.
pub proof fn repairs_leave_what_they_report(
    context: RepairContext,
    start: TxnState,
    plan: Seq<RepairText>,
    finding: RepairText,
)
    requires
        start.rows.dom().finite(),
        plan.to_multiset() == context.found(start.rows).to_multiset(),
        start.repaired_all(plan, plan.len() as int) is Ok,
    ensures
        context.found((start.repaired_all(plan, plan.len() as int)->Ok_0).rows).contains(finding) == (context.found(
            start.rows,
        ).contains(finding) && finding.fix is ReportOnly),
{
    let n = plan.len() as int;
    let end = start.repaired_all(plan, n)->Ok_0;
    prefixes_are_namespaces();
    assert(is_namespace_key(RepairNamespace::Page, INDEX_PREFIX@)) by {
        assert(INDEX_PREFIX@.subrange(0, INDEX_PREFIX@.len() as int) =~= INDEX_PREFIX@);
    }
    repair_reaches(start, plan, n, RepairNamespace::Page, INDEX_PREFIX@);
    found_members(context, start.rows, finding);
    found_members(context, end.rows, finding);
    plan.to_multiset_ensures();
    context.found(start.rows).to_multiset_ensures();
    if context.found(end.rows).contains(finding) {
        let (namespace, key) = choose|namespace: RepairNamespace, key: Seq<char>|
            shows(context, end.rows, namespace, key, finding);
        repair_reaches(start, plan, n, namespace, key);
        assert(end.row(key) == start.row(key));
        assert(shows(context, start.rows, namespace, key, finding));
        assert(context.found(start.rows).to_multiset().contains(finding));
        assert(plan.contains(finding));
        fixes_are_about_their_row(context, start.rows, namespace, key, finding);
        let i = choose|i: int| 0 <= i < plan.len() && plan[i] == finding;
        assert(plan[i] == finding);
        assert(!is_fixed(plan, n, key));
    }
    if context.found(start.rows).contains(finding) && finding.fix is ReportOnly {
        let (namespace, key) = choose|namespace: RepairNamespace, key: Seq<char>|
            shows(context, start.rows, namespace, key, finding);
        repair_reaches(start, plan, n, namespace, key);
        if is_fixed(plan, n, key) {
            let i = choose|i: int| 0 <= i < n && target((#[trigger] plan[i]).fix) == Some(key);
            let other = plan[i];
            assert(plan.contains(other));
            assert(plan.to_multiset().contains(other));
            assert(context.found(start.rows).contains(other));
            found_members(context, start.rows, other);
            let (its_namespace, its_key) = choose|namespace: RepairNamespace, key: Seq<char>|
                shows(context, start.rows, namespace, key, other);
            fixes_are_about_their_row(context, start.rows, its_namespace, its_key, other);
            assert(its_key == key);
            namespaces_keep_apart(namespace, its_namespace, key);
            assert(false);
        }
        assert(end.row(key) == start.row(key));
        assert(shows(context, end.rows, namespace, key, finding));
    }
}

} // verus!
