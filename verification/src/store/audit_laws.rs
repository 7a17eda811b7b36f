//! What the audit owes the writes and the repair: it finds nothing where they left the derived rows in step,
//! and the fixes of one audit leave nothing for the next to find.
use vstd::prelude::*;
use vstd::utf8::encode_utf8;

use crate::collections::{ascending_distinct, listed};
use crate::store::audit::{
    and_then, behind_prefix, count_projects, count_uploads, desired_row, expectation, expected_orders, longest_match,
    owner, projects_of, starts_with_index, upload_of, AuditText, DecodedOrder, FindingText,
};
use crate::store::keys::{
    key1, key2, prefixes_are_namespaces, COUNT_PREFIX, PROJECTS_PREFIX, RECENT_PREFIX, UPLOAD_PREFIX,
};
use crate::store::order_laws::{
    order_and_uploads_keep_apart, orders_agree, positions_keep_apart, upload_keys_keep_apart, Upload,
};
use crate::store::summary::{
    counts_read, counts_read_back, json_recent, order_position, recent_of, Counts, RecentText,
};
use crate::store::summary_laws::{
    counts_agree, is_project_row, is_upload_row, project_key_is_its_row, project_rows, upload_key_is_its_row,
    upload_rows,
};
use crate::store::txn::{finite_sets_are_listed, keys_under, rows_are_under, TxnState};
use crate::store::values::MetaErrorText;
use crate::text::first_index_of_joined;

verus! {

/// The findings of `find` on the first `n` keys.
spec fn gathered(find: spec_fn(Seq<char>) -> Option<FindingText>, keys: Seq<Seq<char>>, n: int) -> Seq<FindingText>
    decreases n,
{
    if n <= 0 {
        Seq::empty()
    } else {
        and_then(gathered(find, keys, n - 1), find(keys[n - 1]))
    }
}

proof fn gathered_members(
    find: spec_fn(Seq<char>) -> Option<FindingText>,
    keys: Seq<Seq<char>>,
    n: int,
    finding: FindingText,
)
    requires
        0 <= n <= keys.len(),
    ensures
        gathered(find, keys, n).contains(finding) <==> exists|j: int|
            0 <= j < n && find(#[trigger] keys[j]) == Some(finding),
    decreases n,
{
    if n > 0 {
        let fewer = gathered(find, keys, n - 1);
        gathered_members(find, keys, n - 1, finding);
        match find(keys[n - 1]) {
            Some(last) => {
                let all = fewer.push(last);
                if fewer.contains(finding) {
                    let i = choose|i: int| 0 <= i < fewer.len() && fewer[i] == finding;
                    assert(all[i] == finding);
                }
                if all.contains(finding) && last != finding {
                    let i = choose|i: int| 0 <= i < all.len() && all[i] == finding;
                    assert(fewer[i] == finding);
                }
                if last == finding {
                    assert(all[fewer.len() as int] == finding);
                }
            },
            None => {},
        }
    }
}

proof fn joined_members(a: Seq<FindingText>, b: Seq<FindingText>, finding: FindingText)
    ensures
        (a + b).contains(finding) == (a.contains(finding) || b.contains(finding)),
{
    let all = a + b;
    if a.contains(finding) {
        let i = choose|i: int| 0 <= i < a.len() && a[i] == finding;
        assert(all[i] == finding);
    }
    if b.contains(finding) {
        let i = choose|i: int| 0 <= i < b.len() && b[i] == finding;
        assert(all[a.len() + i] == finding);
    }
    if all.contains(finding) {
        let i = choose|i: int| 0 <= i < all.len() && all[i] == finding;
        if i < a.len() {
            assert(a[i] == finding);
        } else {
            assert(b[i - a.len()] == finding);
        }
    }
}

proof fn expected_orders_are_finite(
    rows: Map<Seq<char>, Seq<u8>>,
    names: Seq<Seq<char>>,
    name: Seq<char>,
    keys: Seq<Seq<char>>,
    n: int,
)
    ensures
        expected_orders(rows, names, name, keys, n).dom().finite(),
    decreases n,
{
    if n > 0 {
        expected_orders_are_finite(rows, names, name, keys, n - 1);
    }
}

proof fn expected_orders_name_their_index(
    rows: Map<Seq<char>, Seq<u8>>,
    names: Seq<Seq<char>>,
    name: Seq<char>,
    keys: Seq<Seq<char>>,
    n: int,
    key: Seq<char>,
)
    requires
        !name.contains('\u{0}'),
        expected_orders(rows, names, name, keys, n).contains_key(key),
    ensures
        RECENT_PREFIX@.is_prefix_of(key),
        crate::text::cut_first(behind_prefix(key), '\u{0}') is Some,
        (crate::text::cut_first(behind_prefix(key), '\u{0}')->0).0 == name,
    decreases n,
{
    if n > 0 {
        let fewer = expected_orders(rows, names, name, keys, n - 1);
        if fewer.contains_key(key) {
            expected_orders_name_their_index(rows, names, name, keys, n - 1, key);
        } else {
            let (project, filename) = upload_of(names, name, keys[n - 1])->0;
            let recent = recent_of(project, filename, rows[keys[n - 1]])->0;
            let p = RECENT_PREFIX@;
            assert(key == order_position(name, recent, filename));
            prefixes_are_namespaces();
            assert(key.subrange(0, p.len() as int) =~= p);
            reveal_strlit("\u{0}");
            let rest = key.skip(7).skip(name.len() as int + 1);
            assert("\u{0}"@ =~= seq!['\u{0}']);
            assert(behind_prefix(key) =~= name + seq!['\u{0}'] + rest);
            first_index_of_joined(name, '\u{0}', rest);
        }
    }
}

/// The four ways in which an audit finds something.
spec fn finds(audit: AuditText, finding: FindingText) -> bool {
    ||| exists|key: Seq<char>| on_count_row(audit, key, finding)
    ||| exists|name: Seq<char>| on_missing_count(audit, name, finding)
    ||| exists|key: Seq<char>| on_order_row(audit, key, finding)
    ||| exists|name: Seq<char>, key: Seq<char>| on_missing_order(audit, name, key, finding)
}

spec fn on_count_row(audit: AuditText, key: Seq<char>, finding: FindingText) -> bool {
    &&& audit.rows.contains_key(key)
    &&& COUNT_PREFIX@.is_prefix_of(key)
    &&& audit.count_row_finding(key) == Some(finding)
}

spec fn on_missing_count(audit: AuditText, name: Seq<char>, finding: FindingText) -> bool {
    audit.known(name) && audit.missing_count_finding(name) == Some(finding)
}

spec fn on_order_row(audit: AuditText, key: Seq<char>, finding: FindingText) -> bool {
    &&& audit.rows.contains_key(key)
    &&& RECENT_PREFIX@.is_prefix_of(key)
    &&& audit.order_row_finding(key) == Some(finding)
}

spec fn on_missing_order(audit: AuditText, name: Seq<char>, key: Seq<char>, finding: FindingText) -> bool {
    &&& audit.known(name)
    &&& audit.expects(name).orders.contains_key(key)
    &&& audit.missing_order_finding(name, key) == Some(finding)
}

proof fn count_rows_are_gathered(audit: AuditText, keys: Seq<Seq<char>>, n: int)
    ensures
        audit.count_rows(keys, n) == gathered(|k: Seq<char>| audit.count_row_finding(k), keys, n),
    decreases n,
{
    if n > 0 {
        count_rows_are_gathered(audit, keys, n - 1);
    }
}

proof fn missing_counts_are_gathered(audit: AuditText, names: Seq<Seq<char>>, n: int)
    ensures
        audit.missing_counts(names, n) == gathered(|k: Seq<char>| audit.missing_count_finding(k), names, n),
    decreases n,
{
    if n > 0 {
        missing_counts_are_gathered(audit, names, n - 1);
    }
}

proof fn order_rows_are_gathered(audit: AuditText, keys: Seq<Seq<char>>, n: int)
    ensures
        audit.order_rows(keys, n) == gathered(|k: Seq<char>| audit.order_row_finding(k), keys, n),
    decreases n,
{
    if n > 0 {
        order_rows_are_gathered(audit, keys, n - 1);
    }
}

proof fn missing_orders_of_are_gathered(audit: AuditText, name: Seq<char>, keys: Seq<Seq<char>>, n: int)
    ensures
        audit.missing_orders_of(name, keys, n) == gathered(
            |k: Seq<char>| audit.missing_order_finding(name, k),
            keys,
            n,
        ),
    decreases n,
{
    if n > 0 {
        missing_orders_of_are_gathered(audit, name, keys, n - 1);
    }
}

proof fn missing_orders_members(audit: AuditText, names: Seq<Seq<char>>, n: int, finding: FindingText)
    requires
        0 <= n <= names.len(),
        forall|j: int| 0 <= j < n ==> audit.known(#[trigger] names[j]),
    ensures
        audit.missing_orders(names, n).contains(finding) <==> exists|j: int, key: Seq<char>|
            0 <= j < n && #[trigger] on_missing_order(audit, names[j], key, finding),
    decreases n,
{
    if n > 0 {
        let name = names[n - 1];
        let orders = audit.expects(name).orders;
        let uploads = keys_under(audit.rows, UPLOAD_PREFIX@);
        expected_orders_are_finite(audit.rows, audit.names(), name, uploads, uploads.len() as int);
        finite_sets_are_listed(orders.dom());
        let keys = listed(orders.dom());
        let find = |k: Seq<char>| audit.missing_order_finding(name, k);
        missing_orders_members(audit, names, n - 1, finding);
        missing_orders_of_are_gathered(audit, name, keys, keys.len() as int);
        gathered_members(find, keys, keys.len() as int, finding);
        let here = audit.missing_orders_of(name, keys, keys.len() as int);
        joined_members(audit.missing_orders(names, n - 1), here, finding);
        if here.contains(finding) {
            let j = choose|j: int| 0 <= j < keys.len() && find(#[trigger] keys[j]) == Some(finding);
            assert(keys.to_set().contains(keys[j]));
            assert(on_missing_order(audit, names[n - 1], keys[j], finding));
        }
        if exists|key: Seq<char>| on_missing_order(audit, name, key, finding) {
            let key = choose|key: Seq<char>| on_missing_order(audit, name, key, finding);
            assert(keys.to_set().contains(key));
            let j = choose|j: int| 0 <= j < keys.len() && keys[j] == key;
            assert(find(keys[j]) == Some(finding));
            assert(here.contains(finding));
        }
    }
}

/// An audit finds exactly what a row or an index of it shows.
proof fn findings_are_found(audit: AuditText, finding: FindingText)
    requires
        audit.rows.dom().finite(),
    ensures
        audit.findings().contains(finding) == finds(audit, finding),
{
    let names = listed(audit.names().to_set());
    let counts = keys_under(audit.rows, COUNT_PREFIX@);
    let orders = keys_under(audit.rows, RECENT_PREFIX@);
    let on_counts = audit.count_rows(counts, counts.len() as int);
    let no_counts = audit.missing_counts(names, names.len() as int);
    let on_orders = audit.order_rows(orders, orders.len() as int);
    let no_orders = audit.missing_orders(names, names.len() as int);
    joined_members(on_counts, no_counts, finding);
    joined_members(on_counts + no_counts, on_orders, finding);
    joined_members(on_counts + no_counts + on_orders, no_orders, finding);

    vstd::seq_lib::seq_to_set_is_finite(audit.names());
    finite_sets_are_listed(audit.names().to_set());
    assert forall|name: Seq<char>| names.contains(name) == audit.known(name) by {
        assert(names.to_set().contains(name) == names.contains(name));
        assert(audit.names().to_set().contains(name) == audit.names().contains(name));
    }
    assert forall|j: int| 0 <= j < names.len() implies audit.known(#[trigger] names[j]) by {
        assert(names.contains(names[j]));
    }

    count_rows_are_gathered(audit, counts, counts.len() as int);
    let find = |k: Seq<char>| audit.count_row_finding(k);
    gathered_members(find, counts, counts.len() as int, finding);
    if on_counts.contains(finding) {
        let j = choose|j: int| 0 <= j < counts.len() && find(#[trigger] counts[j]) == Some(finding);
        rows_are_under(audit.rows, COUNT_PREFIX@, counts[j]);
        assert(counts.contains(counts[j]));
        assert(on_count_row(audit, counts[j], finding));
    }
    if exists|key: Seq<char>| on_count_row(audit, key, finding) {
        let key = choose|key: Seq<char>| on_count_row(audit, key, finding);
        rows_are_under(audit.rows, COUNT_PREFIX@, key);
        let j = choose|j: int| 0 <= j < counts.len() && counts[j] == key;
        assert(find(counts[j]) == Some(finding));
    }

    missing_counts_are_gathered(audit, names, names.len() as int);
    let find = |k: Seq<char>| audit.missing_count_finding(k);
    gathered_members(find, names, names.len() as int, finding);
    if no_counts.contains(finding) {
        let j = choose|j: int| 0 <= j < names.len() && find(#[trigger] names[j]) == Some(finding);
        assert(on_missing_count(audit, names[j], finding));
    }
    if exists|name: Seq<char>| on_missing_count(audit, name, finding) {
        let name = choose|name: Seq<char>| on_missing_count(audit, name, finding);
        assert(names.contains(name));
        let j = choose|j: int| 0 <= j < names.len() && names[j] == name;
        assert(find(names[j]) == Some(finding));
    }

    order_rows_are_gathered(audit, orders, orders.len() as int);
    let find = |k: Seq<char>| audit.order_row_finding(k);
    gathered_members(find, orders, orders.len() as int, finding);
    if on_orders.contains(finding) {
        let j = choose|j: int| 0 <= j < orders.len() && find(#[trigger] orders[j]) == Some(finding);
        rows_are_under(audit.rows, RECENT_PREFIX@, orders[j]);
        assert(orders.contains(orders[j]));
        assert(on_order_row(audit, orders[j], finding));
    }
    if exists|key: Seq<char>| on_order_row(audit, key, finding) {
        let key = choose|key: Seq<char>| on_order_row(audit, key, finding);
        rows_are_under(audit.rows, RECENT_PREFIX@, key);
        let j = choose|j: int| 0 <= j < orders.len() && orders[j] == key;
        assert(find(orders[j]) == Some(finding));
    }

    missing_orders_members(audit, names, names.len() as int, finding);
    if exists|name: Seq<char>, key: Seq<char>| on_missing_order(audit, name, key, finding) {
        let (name, key) = choose|name: Seq<char>, key: Seq<char>| on_missing_order(audit, name, key, finding);
        assert(names.contains(name));
        let j = choose|j: int| 0 <= j < names.len() && names[j] == name;
        assert(on_missing_order(audit, names[j], key, finding));
    }
}

/// The derived row that an audit wants under `key`, if it wants one there.
spec fn wanted(audit: AuditText, key: Seq<char>) -> Option<Seq<u8>> {
    if COUNT_PREFIX@.is_prefix_of(key) {
        if audit.known(behind_prefix(key)) {
            desired_row(audit.expects(behind_prefix(key)).desired_counts())
        } else {
            None
        }
    } else {
        match audit.order_index(key) {
            Some(name) => if audit.expects(name).orders.contains_key(key) {
                Some(encode_utf8(json_recent(audit.expects(name).orders[key].0)))
            } else {
                None
            },
            None => None,
        }
    }
}

spec fn is_derived(key: Seq<char>) -> bool {
    COUNT_PREFIX@.is_prefix_of(key) || RECENT_PREFIX@.is_prefix_of(key)
}

/// A key lies in at most one namespace.
proof fn prefixes_keep_apart(key: Seq<char>)
    ensures
        COUNT_PREFIX@.is_prefix_of(key) ==> !RECENT_PREFIX@.is_prefix_of(key),
        is_derived(key) ==> !PROJECTS_PREFIX@.is_prefix_of(key) && !UPLOAD_PREFIX@.is_prefix_of(key),
{
    prefixes_are_namespaces();
    let c = COUNT_PREFIX@;
    let r = RECENT_PREFIX@;
    let p = PROJECTS_PREFIX@;
    let u = UPLOAD_PREFIX@;
    if c.is_prefix_of(key) {
        assert(key.subrange(0, c.len() as int)[5] == key[5]);
    }
    if r.is_prefix_of(key) {
        assert(key.subrange(0, r.len() as int)[5] == key[5]);
    }
    if p.is_prefix_of(key) {
        assert(key.subrange(0, p.len() as int)[5] == key[5]);
    }
    if u.is_prefix_of(key) {
        assert(key.subrange(0, u.len() as int)[5] == key[5]);
    }
}

/// The order rows that an index expects are its own.
proof fn expected_orders_are_indexed(audit: AuditText, name: Seq<char>, key: Seq<char>)
    requires
        audit.known(name),
        !name.contains('\u{0}'),
        audit.expects(name).orders.contains_key(key),
    ensures
        RECENT_PREFIX@.is_prefix_of(key),
        audit.order_index(key) == Some(name),
{
    let uploads = keys_under(audit.rows, UPLOAD_PREFIX@);
    expected_orders_name_their_index(audit.rows, audit.names(), name, uploads, uploads.len() as int, key);
}

spec fn names_are_plain(audit: AuditText) -> bool {
    forall|name: Seq<char>| #[trigger] audit.known(name) ==> !name.contains('\u{0}')
}

proof fn count_keys_are_prefixed(name: Seq<char>)
    ensures
        COUNT_PREFIX@.is_prefix_of(key1(COUNT_PREFIX@, name)),
        behind_prefix(key1(COUNT_PREFIX@, name)) == name,
{
    prefixes_are_namespaces();
    let key = key1(COUNT_PREFIX@, name);
    assert(key.subrange(0, COUNT_PREFIX@.len() as int) =~= COUNT_PREFIX@);
    assert(key.skip(7) =~= name);
}

/// Every fix is the row that the audit wants.
proof fn fixes_are_wanted(audit: AuditText, finding: FindingText)
    requires
        names_are_plain(audit),
        finds(audit, finding),
    ensures
        is_derived(finding.row),
        finding.fix == wanted(audit, finding.row),
{
    if exists|key: Seq<char>| on_count_row(audit, key, finding) {
        let key = choose|key: Seq<char>| on_count_row(audit, key, finding);
        assert(finding.row == key);
    } else if exists|name: Seq<char>| on_missing_count(audit, name, finding) {
        let name = choose|name: Seq<char>| on_missing_count(audit, name, finding);
        count_keys_are_prefixed(name);
    } else if exists|key: Seq<char>| on_order_row(audit, key, finding) {
        let key = choose|key: Seq<char>| on_order_row(audit, key, finding);
        assert(finding.row == key);
        prefixes_keep_apart(key);
    } else {
        let (name, key) = choose|name: Seq<char>, key: Seq<char>| on_missing_order(audit, name, key, finding);
        expected_orders_are_indexed(audit, name, key);
        prefixes_keep_apart(key);
    }
}

/// Whether one of the first `n` findings is on the row of `key`.
spec fn is_named(findings: Seq<FindingText>, n: int, key: Seq<char>) -> bool {
    exists|i: int| 0 <= i < n && #[trigger] findings[i].row == key
}

/// Fixes that are what an audit wants leave the wanted row wherever they are, and every other row alone.
proof fn fixing_reaches(s: TxnState, audit: AuditText, findings: Seq<FindingText>, n: int, key: Seq<char>)
    requires
        0 <= n <= findings.len(),
        s.rows.dom().finite(),
        forall|i: int| 0 <= i < findings.len() ==> (#[trigger] findings[i]).fix == wanted(audit, findings[i].row),
    ensures
        s.fixed_all(findings, n).rows.dom().finite(),
        s.fixed_all(findings, n).row(key) == (if is_named(findings, n, key) {
            wanted(audit, key)
        } else {
            s.row(key)
        }),
    decreases n,
{
    if n > 0 {
        fixing_reaches(s, audit, findings, n - 1, key);
        let last = findings[n - 1];
        if last.row == key {
            assert(is_named(findings, n, key));
        }
        if is_named(findings, n - 1, key) {
            let i = choose|i: int| 0 <= i < n - 1 && #[trigger] findings[i].row == key;
            assert(findings[i].row == key);
        }
    }
}

proof fn same_rows_expect_the_same_orders(
    rows: Map<Seq<char>, Seq<u8>>,
    others: Map<Seq<char>, Seq<u8>>,
    names: Seq<Seq<char>>,
    name: Seq<char>,
    keys: Seq<Seq<char>>,
    n: int,
)
    requires
        0 <= n <= keys.len(),
        forall|i: int| 0 <= i < keys.len() ==> rows[#[trigger] keys[i]] == others[keys[i]],
    ensures
        expected_orders(rows, names, name, keys, n) == expected_orders(others, names, name, keys, n),
    decreases n,
{
    if n > 0 {
        same_rows_expect_the_same_orders(rows, others, names, name, keys, n - 1);
    }
}

/// What is expected of the derived rows does not depend on them.
proof fn derived_rows_expect_nothing(
    rows: Map<Seq<char>, Seq<u8>>,
    others: Map<Seq<char>, Seq<u8>>,
    names: Seq<Seq<char>>,
    name: Seq<char>,
)
    requires
        rows.dom().finite(),
        forall|k: Seq<char>| !is_derived(k) ==> rows.contains_key(k) == #[trigger] others.contains_key(k),
        forall|k: Seq<char>| !is_derived(k) && rows.contains_key(k) ==> rows[k] == #[trigger] others[k],
    ensures
        expectation(rows, names, name) == expectation(others, names, name),
{
    let projects = rows.dom().filter(|k: Seq<char>| PROJECTS_PREFIX@.is_prefix_of(k));
    let other_projects = others.dom().filter(|k: Seq<char>| PROJECTS_PREFIX@.is_prefix_of(k));
    assert forall|k: Seq<char>| projects.contains(k) == other_projects.contains(k) by {
        prefixes_keep_apart(k);
        assert(others.contains_key(k) == others.dom().contains(k));
    }
    assert(projects =~= other_projects);
    let uploads = rows.dom().filter(|k: Seq<char>| UPLOAD_PREFIX@.is_prefix_of(k));
    let other_uploads = others.dom().filter(|k: Seq<char>| UPLOAD_PREFIX@.is_prefix_of(k));
    assert forall|k: Seq<char>| uploads.contains(k) == other_uploads.contains(k) by {
        prefixes_keep_apart(k);
        assert(others.contains_key(k) == others.dom().contains(k));
    }
    assert(uploads =~= other_uploads);
    let keys = keys_under(rows, UPLOAD_PREFIX@);
    assert forall|i: int| 0 <= i < keys.len() implies rows[#[trigger] keys[i]] == others[keys[i]] by {
        rows_are_under(rows, UPLOAD_PREFIX@, keys[i]);
        assert(keys.contains(keys[i]));
        prefixes_keep_apart(keys[i]);
    }
    same_rows_expect_the_same_orders(rows, others, names, name, keys, keys.len() as int);
}

/// Whether an audit's order rows are what `decode` makes of their bytes.
pub open spec fn decoded_by(audit: AuditText, decode: spec_fn(Seq<u8>) -> Option<RecentText>) -> bool {
    forall|key: Seq<char>| #[trigger]
        audit.rows.contains_key(key) && RECENT_PREFIX@.is_prefix_of(key) ==> audit.decoded.contains_key(key) && decode(
            audit.rows[key],
        ) == (match audit.decoded[key] {
            DecodedOrder::Record(record) => Some(record@),
            DecodedOrder::Damaged(_) => None,
        })
}

/// Whether `decode` reads every record back from the bytes it is written as.
pub open spec fn reads_records_back(decode: spec_fn(Seq<u8>) -> Option<RecentText>) -> bool {
    forall|recent: RecentText| decode(#[trigger] encode_utf8(json_recent(recent))) == Some(recent)
}

/// A repair leaves nothing to repair: once every fix that an audit asks for is applied, an audit of the
/// resulting rows finds no defect. It holds whatever the derived rows held before, of every decoder that
/// reads records back.
pub proof fn repairs_leave_no_defect(
    start: TxnState,
    audit: AuditText,
    again: AuditText,
    decode: spec_fn(Seq<u8>) -> Option<RecentText>,
)
    requires
        start.rows.dom().finite(),
        forall|i: int| 0 <= i < audit.names().len() ==> !(#[trigger] audit.names()[i]).contains('\u{0}'),
        reads_records_back(decode),
        audit.rows == start.rows,
        decoded_by(audit, decode),
        again.indexes == audit.indexes,
        again.rows == start.fixed_all(audit.findings(), audit.findings().len() as int).rows,
        decoded_by(again, decode),
    ensures
        again.findings() == Seq::<FindingText>::empty(),
{
    let found = audit.findings();
    let n = found.len() as int;
    let end = start.fixed_all(found, n);
    assert(names_are_plain(audit)) by {
        assert forall|name: Seq<char>| #[trigger] audit.known(name) implies !name.contains('\u{0}') by {
            let i = choose|i: int| 0 <= i < audit.names().len() && audit.names()[i] == name;
            assert(!audit.names()[i].contains('\u{0}'));
        }
    }
    assert forall|i: int| 0 <= i < n implies (#[trigger] found[i]).fix == wanted(audit, found[i].row) && is_derived(
        found[i].row,
    ) by {
        assert(found.contains(found[i]));
        findings_are_found(audit, found[i]);
        fixes_are_wanted(audit, found[i]);
    }
    assert forall|key: Seq<char>| #[trigger] end.row(key) == (if is_named(found, n, key) {
        wanted(audit, key)
    } else {
        start.row(key)
    }) by {
        fixing_reaches(start, audit, found, n, key);
    }
    fixing_reaches(start, audit, found, n, Seq::empty());
    assert forall|k: Seq<char>| !is_derived(k) implies audit.rows.contains_key(k) == #[trigger] again.rows.contains_key(k)
        && (audit.rows.contains_key(k) ==> audit.rows[k] == again.rows[k]) by {
        assert(end.row(k) == start.row(k));
    }
    assert forall|k: Seq<char>| !is_derived(k) && audit.rows.contains_key(k) implies audit.rows[k]
        == #[trigger] again.rows[k] by {
        assert(again.rows.contains_key(k));
    }
    assert forall|name: Seq<char>| again.expects(name) == #[trigger] audit.expects(name) by {
        derived_rows_expect_nothing(audit.rows, again.rows, audit.names(), name);
    }
    assert forall|finding: FindingText| finds(audit, finding) implies #[trigger] is_named(found, n, finding.row) by {
        findings_are_found(audit, finding);
        let i = choose|i: int| 0 <= i < found.len() && found[i] == finding;
        assert(found[i].row == finding.row);
    }
    assert forall|finding: FindingText| !finds(again, finding) by {
        nothing_is_found_again(start, audit, again, decode, finding);
    }
    if again.findings().len() > 0 {
        let finding = again.findings()[0];
        assert(again.findings().contains(finding));
        findings_are_found(again, finding);
    }
    assert(again.findings() =~= Seq::<FindingText>::empty());
}

proof fn nothing_is_found_again(
    start: TxnState,
    audit: AuditText,
    again: AuditText,
    decode: spec_fn(Seq<u8>) -> Option<RecentText>,
    finding: FindingText,
)
    requires
        names_are_plain(audit),
        reads_records_back(decode),
        audit.rows == start.rows,
        decoded_by(audit, decode),
        again.indexes == audit.indexes,
        decoded_by(again, decode),
        forall|name: Seq<char>| again.expects(name) == #[trigger] audit.expects(name),
        ({
            let found = audit.findings();
            let n = found.len() as int;
            let end = start.fixed_all(found, n);
            &&& again.rows == end.rows
            &&& forall|key: Seq<char>| #[trigger] end.row(key) == (if is_named(found, n, key) {
                wanted(audit, key)
            } else {
                start.row(key)
            })
            &&& forall|finding: FindingText| finds(audit, finding) ==> #[trigger] is_named(found, n, finding.row)
        }),
    ensures
        !finds(again, finding),
{
    let found = audit.findings();
    let n = found.len() as int;
    let end = start.fixed_all(found, n);
    assert(again.names() == audit.names());
    if exists|key: Seq<char>| on_count_row(again, key, finding) {
        let key = choose|key: Seq<char>| on_count_row(again, key, finding);
        let name = behind_prefix(key);
        assert(end.row(key) is Some);
        assert(again.expects(name) == audit.expects(name));
        if is_named(found, n, key) {
            counts_read_back(key, audit.expects(name).desired_counts()->0);
        } else {
            assert(audit.rows.contains_key(key));
            if audit.count_row_finding(key) is Some {
                let earlier = audit.count_row_finding(key)->0;
                assert(on_count_row(audit, key, earlier));
                assert(finds(audit, earlier));
                assert(is_named(found, n, earlier.row));
            }
        }
        assert(false);
    }
    if exists|name: Seq<char>| on_missing_count(again, name, finding) {
        let name = choose|name: Seq<char>| on_missing_count(again, name, finding);
        let key = key1(COUNT_PREFIX@, name);
        count_keys_are_prefixed(name);
        assert(end.row(key) is None);
        assert(again.expects(name) == audit.expects(name));
        if !is_named(found, n, key) {
            let earlier = audit.missing_count_finding(name)->0;
            assert(on_missing_count(audit, name, earlier));
            assert(finds(audit, earlier));
            assert(is_named(found, n, earlier.row));
        }
        assert(false);
    }
    if exists|key: Seq<char>| on_order_row(again, key, finding) {
        let key = choose|key: Seq<char>| on_order_row(again, key, finding);
        prefixes_keep_apart(key);
        assert(end.row(key) is Some);
        assert(again.order_index(key) == audit.order_index(key));
        if is_named(found, n, key) {
            let name = audit.order_index(key)->0;
            assert(again.expects(name) == audit.expects(name));
            let want = audit.expects(name).orders[key].0;
            assert(again.rows[key] == encode_utf8(json_recent(want)));
            assert(decode(again.rows[key]) == Some(want));
        } else {
            assert(audit.rows.contains_key(key));
            if audit.order_row_finding(key) is Some {
                let earlier = audit.order_row_finding(key)->0;
                assert(on_order_row(audit, key, earlier));
                assert(finds(audit, earlier));
                assert(is_named(found, n, earlier.row));
            }
            let name = audit.order_index(key)->0;
            assert(again.expects(name) == audit.expects(name));
            assert(again.rows[key] == audit.rows[key]);
        }
        assert(false);
    }
    if exists|name: Seq<char>, key: Seq<char>| on_missing_order(again, name, key, finding) {
        let (name, key) = choose|name: Seq<char>, key: Seq<char>| on_missing_order(again, name, key, finding);
        assert(again.known(name) == audit.known(name));
        assert(again.expects(name) == audit.expects(name));
        expected_orders_are_indexed(audit, name, key);
        assert(again.order_index(key) == audit.order_index(key));
        prefixes_keep_apart(key);
        assert(!again.rows.contains_key(key));
        assert(end.row(key) is None);
        if !is_named(found, n, key) {
            assert(!audit.rows.contains_key(key));
            let earlier = audit.missing_order_finding(name, key)->0;
            assert(on_missing_order(audit, name, key, earlier));
            assert(finds(audit, earlier));
            assert(is_named(found, n, earlier.row));
        }
        assert(false);
    }
}

// ---------------------------------------------------------------------------------------------
// A store in step with itself
// ---------------------------------------------------------------------------------------------

/// Whether `key` is the row of a project of an audited index.
pub open spec fn is_owned_project(audit: AuditText, index: Seq<char>, normalized: Seq<char>, key: Seq<char>) -> bool {
    &&& audit.known(index) && index.len() > 0
    &&& normalized.len() > 0 && !normalized.contains('/')
    &&& key == key2(PROJECTS_PREFIX@, index, normalized)
}

/// Whether `key` is the row of a file of an audited index. No audited index may be named like one of the
/// projects of another: the files of that project would be taken for its own.
pub open spec fn is_owned_upload(audit: AuditText, u: Upload, key: Seq<char>) -> bool {
    &&& audit.known(u.index) && u.index.len() > 0
    &&& u.plain() && u.normalized.len() > 0 && u.filename.len() > 0
    &&& key == u.key()
    &&& !audit.known(u.index + "/"@ + u.normalized)
}

/// Whether every project, file and count is a row of an audited index, in the form that such rows are
/// written in. A count row that counts nothing is never written.
pub open spec fn rows_are_owned(audit: AuditText) -> bool {
    &&& forall|key: Seq<char>| #[trigger]
        audit.rows.contains_key(key) && PROJECTS_PREFIX@.is_prefix_of(key) ==> exists|index: Seq<char>, normalized: Seq<char>|
            is_owned_project(audit, index, normalized, key)
    &&& forall|key: Seq<char>| #[trigger]
        audit.rows.contains_key(key) && UPLOAD_PREFIX@.is_prefix_of(key) ==> exists|u: Upload|
            is_owned_upload(audit, u, key)
    &&& forall|key: Seq<char>| #[trigger]
        audit.rows.contains_key(key) && COUNT_PREFIX@.is_prefix_of(key) ==> audit.known(behind_prefix(key))
            && counts_read(key, Some(audit.rows[key])) != Ok::<Counts, MetaErrorText>(
            Counts { projects: 0, uploads: 0 },
        )
}

proof fn longest_match_is_longest(names: Seq<Seq<char>>, rest: Seq<char>, n: int)
    requires
        0 <= n <= names.len(),
    ensures
        match longest_match(names, rest, n) {
            Some(i) => 0 <= i < n && starts_with_index(rest, names[i]) && forall|j: int|
                0 <= j < n && starts_with_index(rest, #[trigger] names[j]) ==> names[j].len() <= names[i].len(),
            None => forall|j: int| 0 <= j < n ==> !starts_with_index(rest, #[trigger] names[j]),
        },
    decreases n,
{
    if n > 0 {
        longest_match_is_longest(names, rest, n - 1);
    }
}

/// An index owns what stands behind its name, where no longer name fits.
proof fn owner_is(names: Seq<Seq<char>>, name: Seq<char>, behind: Seq<char>)
    requires
        names.contains(name),
        forall|j: int|
            0 <= j < names.len() && starts_with_index(name + "/"@ + behind, #[trigger] names[j]) ==> names[j].len()
                <= name.len(),
    ensures
        owner(names, name + "/"@ + behind) == Some((name, behind)),
{
    reveal_strlit("/");
    let rest = name + "/"@ + behind;
    longest_match_is_longest(names, rest, names.len() as int);
    let k = choose|k: int| 0 <= k < names.len() && names[k] == name;
    assert(rest.subrange(0, name.len() as int + 1) =~= name + "/"@);
    assert(starts_with_index(rest, names[k]));
    let i = longest_match(names, rest, names.len() as int)->0;
    assert(names[i].len() == name.len());
    let found = names[i] + "/"@;
    assert(found =~= rest.subrange(0, found.len() as int));
    assert forall|j: int| 0 <= j < name.len() implies names[i][j] == name[j] by {
        assert(found[j] == rest.subrange(0, found.len() as int)[j]);
    }
    assert(names[i] =~= name);
    assert(rest.skip(name.len() as int + 1) =~= behind);
}

/// A name that fits has a slash behind it.
proof fn fitting_names_end_at_slashes(rest: Seq<char>, name: Seq<char>)
    requires
        starts_with_index(rest, name),
    ensures
        name.len() < rest.len(),
        rest[name.len() as int] == '/',
        rest.take(name.len() as int) == name,
{
    reveal_strlit("/");
    let found = name + "/"@;
    assert(found =~= rest.subrange(0, found.len() as int));
    assert(found[name.len() as int] == rest.subrange(0, found.len() as int)[name.len() as int]);
    assert forall|j: int| 0 <= j < name.len() implies rest[j] == name[j] by {
        assert(found[j] == rest.subrange(0, found.len() as int)[j]);
    }
    assert(rest.take(name.len() as int) =~= name);
}

/// An audit takes the row of a project for one of its index, and of no other.
proof fn projects_have_their_owner(audit: AuditText, index: Seq<char>, normalized: Seq<char>, key: Seq<char>)
    requires
        is_owned_project(audit, index, normalized, key),
    ensures
        forall|name: Seq<char>| #[trigger] projects_of(audit.names(), name, key) == (name == index),
        forall|name: Seq<char>| #[trigger] is_project_row(name, key) == (name == index),
{
    reveal_strlit("/");
    prefixes_are_namespaces();
    let names = audit.names();
    let rest = index + "/"@ + normalized;
    assert(behind_prefix(key) =~= rest);
    assert forall|j: int| 0 <= j < names.len() && starts_with_index(rest, #[trigger] names[j]) implies names[j].len()
        <= index.len() by {
        fitting_names_end_at_slashes(rest, names[j]);
        if names[j].len() > index.len() {
            assert(normalized[names[j].len() - index.len() - 1] == '/');
        }
    }
    owner_is(names, index, normalized);
    assert forall|name: Seq<char>| #[trigger] is_project_row(name, key) == (name == index) by {
        project_key_is_its_row(index, normalized, name);
    }
}

/// An audit takes the row of a file for one of its index, and of no other.
proof fn uploads_have_their_owner(audit: AuditText, u: Upload, key: Seq<char>)
    requires
        is_owned_upload(audit, u, key),
    ensures
        forall|name: Seq<char>| #[trigger]
            upload_of(audit.names(), name, key) == (if name == u.index {
                Some((u.normalized, u.filename))
            } else {
                None
            }),
        forall|name: Seq<char>| #[trigger] is_upload_row(name, key) == (name == u.index),
{
    reveal_strlit("/");
    assert("/"@ =~= seq!['/']);
    prefixes_are_namespaces();
    let names = audit.names();
    let behind = u.normalized + "/"@ + u.filename;
    let rest = u.index + "/"@ + behind;
    assert(behind_prefix(key) =~= rest);
    assert forall|j: int| 0 <= j < names.len() && starts_with_index(rest, #[trigger] names[j]) implies names[j].len()
        <= u.index.len() by {
        fitting_names_end_at_slashes(rest, names[j]);
        let at = names[j].len() - u.index.len() - 1;
        if at >= 0 {
            assert(behind[at] == '/');
            if at < u.normalized.len() {
                assert(u.normalized[at] == '/');
            } else if at > u.normalized.len() {
                assert(u.filename[at - u.normalized.len() - 1] == '/');
            } else {
                assert(names[j] =~= u.index + "/"@ + u.normalized);
                assert(audit.known(names[j]));
            }
        }
    }
    owner_is(names, u.index, behind);
    first_index_of_joined(u.normalized, '/', u.filename);
    assert forall|name: Seq<char>| #[trigger] is_upload_row(name, key) == (name == u.index) by {
        upload_key_is_its_row(u.index, u.normalized, u.filename, name);
    }
}

proof fn one_more_key(keys: Seq<Seq<char>>, n: int)
    requires
        0 < n <= keys.len(),
        keys.no_duplicates(),
    ensures
        keys.take(n).to_set() == keys.take(n - 1).to_set().insert(keys[n - 1]),
        !keys.take(n - 1).to_set().contains(keys[n - 1]),
{
    let more = keys.take(n);
    let fewer = keys.take(n - 1);
    assert forall|k: Seq<char>| more.to_set().contains(k) == fewer.to_set().insert(keys[n - 1]).contains(k) by {
        if more.contains(k) {
            let i = choose|i: int| 0 <= i < more.len() && more[i] == k;
            if i < n - 1 {
                assert(fewer[i] == k);
            }
        }
        if fewer.contains(k) {
            let i = choose|i: int| 0 <= i < fewer.len() && fewer[i] == k;
            assert(more[i] == k);
        }
        assert(more[n - 1] == keys[n - 1]);
    }
    assert(more.to_set() =~= fewer.to_set().insert(keys[n - 1]));
}

proof fn counted_projects_are_a_set(names: Seq<Seq<char>>, name: Seq<char>, keys: Seq<Seq<char>>, n: int)
    requires
        0 <= n <= keys.len(),
        keys.no_duplicates(),
    ensures
        ({
            let counted = keys.take(n).to_set().filter(|k: Seq<char>| projects_of(names, name, k));
            counted.finite() && count_projects(names, name, keys, n) == counted.len()
        }),
    decreases n,
{
    let owned = |k: Seq<char>| projects_of(names, name, k);
    let counted = keys.take(n).to_set().filter(owned);
    if n > 0 {
        counted_projects_are_a_set(names, name, keys, n - 1);
        one_more_key(keys, n);
        let fewer = keys.take(n - 1).to_set().filter(owned);
        if owned(keys[n - 1]) {
            assert(counted =~= fewer.insert(keys[n - 1]));
        } else {
            assert(counted =~= fewer);
        }
    } else {
        assert(counted =~= Set::empty());
    }
}

proof fn counted_uploads_are_a_set(names: Seq<Seq<char>>, name: Seq<char>, keys: Seq<Seq<char>>, n: int)
    requires
        0 <= n <= keys.len(),
        keys.no_duplicates(),
    ensures
        ({
            let counted = keys.take(n).to_set().filter(|k: Seq<char>| upload_of(names, name, k) is Some);
            counted.finite() && count_uploads(names, name, keys, n) == counted.len()
        }),
    decreases n,
{
    let owned = |k: Seq<char>| upload_of(names, name, k) is Some;
    let counted = keys.take(n).to_set().filter(owned);
    if n > 0 {
        counted_uploads_are_a_set(names, name, keys, n - 1);
        one_more_key(keys, n);
        let fewer = keys.take(n - 1).to_set().filter(owned);
        if owned(keys[n - 1]) {
            assert(counted =~= fewer.insert(keys[n - 1]));
        } else {
            assert(counted =~= fewer);
        }
    } else {
        assert(counted =~= Set::empty());
    }
}

/// An audit counts the rows that the summary is about.
proof fn audits_count_the_rows(s: TxnState, audit: AuditText, name: Seq<char>)
    requires
        s.rows.dom().finite(),
        audit.rows == s.rows,
        rows_are_owned(audit),
    ensures
        audit.expects(name).projects == project_rows(s, name).len(),
        audit.expects(name).uploads == upload_rows(s, name).len(),
{
    let names = audit.names();
    let projects = keys_under(s.rows, PROJECTS_PREFIX@);
    let under = s.rows.dom().filter(|k: Seq<char>| PROJECTS_PREFIX@.is_prefix_of(k));
    finite_sets_are_listed(under);
    ascending_distinct(projects);
    counted_projects_are_a_set(names, name, projects, projects.len() as int);
    assert(projects.take(projects.len() as int) =~= projects);
    let counted = projects.to_set().filter(|k: Seq<char>| projects_of(names, name, k));
    assert forall|key: Seq<char>| counted.contains(key) == project_rows(s, name).contains(key) by {
        if under.contains(key) {
            assert(audit.rows.contains_key(key));
            let (index, normalized) = choose|index: Seq<char>, normalized: Seq<char>|
                is_owned_project(audit, index, normalized, key);
            projects_have_their_owner(audit, index, normalized, key);
            assert(projects_of(names, name, key) == (name == index));
            assert(is_project_row(name, key) == (name == index));
        }
    }
    assert(counted =~= project_rows(s, name));

    let uploads = keys_under(s.rows, UPLOAD_PREFIX@);
    let under = s.rows.dom().filter(|k: Seq<char>| UPLOAD_PREFIX@.is_prefix_of(k));
    finite_sets_are_listed(under);
    ascending_distinct(uploads);
    counted_uploads_are_a_set(names, name, uploads, uploads.len() as int);
    assert(uploads.take(uploads.len() as int) =~= uploads);
    let counted = uploads.to_set().filter(|k: Seq<char>| upload_of(names, name, k) is Some);
    assert forall|key: Seq<char>| counted.contains(key) == upload_rows(s, name).contains(key) by {
        if under.contains(key) {
            assert(audit.rows.contains_key(key));
            let u = choose|u: Upload| is_owned_upload(audit, u, key);
            uploads_have_their_owner(audit, u, key);
            assert(upload_of(names, name, key) is Some == (name == u.index));
            assert(is_upload_row(name, key) == (name == u.index));
        }
    }
    assert(counted =~= upload_rows(s, name));
}

/// Whether `key` is where one of the uploads under `keys` stands in the order of `name`, saying `recent`.
spec fn stands_for(
    rows: Map<Seq<char>, Seq<u8>>,
    names: Seq<Seq<char>>,
    name: Seq<char>,
    upload: Seq<char>,
    key: Seq<char>,
    recent: RecentText,
) -> bool {
    upload_of(names, name, upload) matches Some((project, filename)) && recent_of(project, filename, rows[upload]) == Some(
        recent,
    ) && key == order_position(name, recent, filename)
}

proof fn expected_orders_stand_for_uploads(
    rows: Map<Seq<char>, Seq<u8>>,
    names: Seq<Seq<char>>,
    name: Seq<char>,
    keys: Seq<Seq<char>>,
    n: int,
    key: Seq<char>,
)
    requires
        0 <= n <= keys.len(),
        expected_orders(rows, names, name, keys, n).contains_key(key),
    ensures
        exists|i: int|
            0 <= i < n && stands_for(
                rows,
                names,
                name,
                #[trigger] keys[i],
                key,
                expected_orders(rows, names, name, keys, n)[key].0,
            ),
    decreases n,
{
    if n > 0 {
        let fewer = expected_orders(rows, names, name, keys, n - 1);
        let all = expected_orders(rows, names, name, keys, n);
        if fewer.contains_key(key) && all[key] == fewer[key] {
            expected_orders_stand_for_uploads(rows, names, name, keys, n - 1, key);
        } else {
            assert(stands_for(rows, names, name, keys[n - 1], key, all[key].0));
        }
    }
}

proof fn uploads_are_expected_in_order(
    rows: Map<Seq<char>, Seq<u8>>,
    names: Seq<Seq<char>>,
    name: Seq<char>,
    keys: Seq<Seq<char>>,
    n: int,
    i: int,
    key: Seq<char>,
    recent: RecentText,
)
    requires
        0 <= i < n <= keys.len(),
        stands_for(rows, names, name, keys[i], key, recent),
    ensures
        expected_orders(rows, names, name, keys, n).contains_key(key),
    decreases n,
{
    if i < n - 1 {
        uploads_are_expected_in_order(rows, names, name, keys, n - 1, i, key, recent);
    }
}

/// The upload behind an order row that an audit expects.
proof fn expected_uploads(s: TxnState, audit: AuditText, name: Seq<char>, key: Seq<char>) -> (u: Upload)
    requires
        s.rows.dom().finite(),
        audit.rows == s.rows,
        rows_are_owned(audit),
        audit.expects(name).orders.contains_key(key),
    ensures
        u.index == name,
        is_owned_upload(audit, u, u.key()),
        u.stands_at(s, key),
        u.recent(s) == Some(audit.expects(name).orders[key].0),
{
    let keys = keys_under(s.rows, UPLOAD_PREFIX@);
    let n = keys.len() as int;
    let recent = audit.expects(name).orders[key].0;
    expected_orders_stand_for_uploads(s.rows, audit.names(), name, keys, n, key);
    let i = choose|i: int|
        0 <= i < n && stands_for(s.rows, audit.names(), name, #[trigger] keys[i], key, recent);
    rows_are_under(s.rows, UPLOAD_PREFIX@, keys[i]);
    assert(keys.contains(keys[i]));
    assert(audit.rows.contains_key(keys[i]));
    let u = choose|u: Upload| is_owned_upload(audit, u, keys[i]);
    uploads_have_their_owner(audit, u, keys[i]);
    assert(upload_of(audit.names(), name, keys[i]) is Some);
    u
}

/// The upload behind an order row is one that an audit expects there.
proof fn ordered_uploads_are_expected(s: TxnState, audit: AuditText, u: Upload, key: Seq<char>)
    requires
        s.rows.dom().finite(),
        audit.rows == s.rows,
        rows_are_owned(audit),
        u.stands_at(s, key),
    ensures
        audit.known(u.index),
        audit.expects(u.index).orders.contains_key(key),
{
    let recent = u.recent(s)->0;
    order_and_uploads_keep_apart(u, recent);
    assert(audit.rows.contains_key(u.key()));
    let owned = choose|owned: Upload| is_owned_upload(audit, owned, u.key());
    upload_keys_keep_apart(owned, u);
    uploads_have_their_owner(audit, u, u.key());
    let keys = keys_under(s.rows, UPLOAD_PREFIX@);
    rows_are_under(s.rows, UPLOAD_PREFIX@, u.key());
    let i = choose|i: int| 0 <= i < keys.len() && keys[i] == u.key();
    assert(upload_of(audit.names(), u.index, keys[i]) == Some((u.normalized, u.filename)));
    assert(stands_for(s.rows, audit.names(), u.index, keys[i], key, recent));
    uploads_are_expected_in_order(s.rows, audit.names(), u.index, keys, keys.len() as int, i, key, recent);
}

proof fn agreeing_counts_are_right(s: TxnState, audit: AuditText, finding: FindingText)
    requires
        audit.rows == s.rows,
        rows_are_owned(audit),
        forall|name: Seq<char>| #[trigger] audit.known(name) ==> counts_agree(s, name),
    ensures
        forall|key: Seq<char>| !on_count_row(audit, key, finding),
        forall|name: Seq<char>| !on_missing_count(audit, name, finding),
{
    assert forall|key: Seq<char>| !on_count_row(audit, key, finding) by {
        if on_count_row(audit, key, finding) {
            prefixes_are_namespaces();
            let name = behind_prefix(key);
            assert(audit.rows.contains_key(key));
            assert(audit.known(name));
            assert(key =~= key1(COUNT_PREFIX@, name)) by {
                assert(key.subrange(0, COUNT_PREFIX@.len() as int) =~= COUNT_PREFIX@);
                assert(key =~= key.subrange(0, 7) + key.skip(7));
            }
            assert(counts_agree(s, name));
            audits_count_the_rows(s, audit, name);
        }
    }
    assert forall|name: Seq<char>| !on_missing_count(audit, name, finding) by {
        if on_missing_count(audit, name, finding) {
            assert(counts_agree(s, name));
            audits_count_the_rows(s, audit, name);
        }
    }
}

proof fn agreeing_orders_are_right(
    s: TxnState,
    audit: AuditText,
    decode: spec_fn(Seq<u8>) -> Option<RecentText>,
    finding: FindingText,
)
    requires
        s.rows.dom().finite(),
        names_are_plain(audit),
        audit.rows == s.rows,
        rows_are_owned(audit),
        reads_records_back(decode),
        decoded_by(audit, decode),
        orders_agree(s),
    ensures
        forall|key: Seq<char>| !on_order_row(audit, key, finding),
        forall|name: Seq<char>, key: Seq<char>| !on_missing_order(audit, name, key, finding),
{
    assert forall|key: Seq<char>| !on_order_row(audit, key, finding) by {
        if on_order_row(audit, key, finding) {
            assert(s.rows.contains_key(key));
            let u = choose|u: Upload| u.stands_at(s, key);
            ordered_uploads_are_expected(s, audit, u, key);
            expected_orders_are_indexed(audit, u.index, key);
            let other = expected_uploads(s, audit, u.index, key);
            positions_keep_apart(u, u.recent(s)->0, other, other.recent(s)->0);
            let want = audit.expects(u.index).orders[key].0;
            assert(u.plain());
            assert(s.row(key) == Some(encode_utf8(json_recent(want))));
            assert(decode(audit.rows[key]) == Some(want));
            assert(audit.rows.contains_key(key));
        }
    }
    assert forall|name: Seq<char>, key: Seq<char>| !on_missing_order(audit, name, key, finding) by {
        if on_missing_order(audit, name, key, finding) {
            expected_orders_are_indexed(audit, name, key);
            let u = expected_uploads(s, audit, name, key);
            assert(u.plain());
            assert(s.row(key) is Some);
        }
    }
}

/// Where the counts and the order agree with the rows they summarize, as every write leaves them, an audit
/// finds no defect. It holds of every decoder that reads records back.
pub proof fn stores_in_step_have_no_defect(
    s: TxnState,
    audit: AuditText,
    decode: spec_fn(Seq<u8>) -> Option<RecentText>,
)
    requires
        s.rows.dom().finite(),
        forall|i: int| 0 <= i < audit.names().len() ==> !(#[trigger] audit.names()[i]).contains('\u{0}'),
        audit.rows == s.rows,
        rows_are_owned(audit),
        reads_records_back(decode),
        decoded_by(audit, decode),
        orders_agree(s),
        forall|i: int| 0 <= i < audit.names().len() ==> counts_agree(s, #[trigger] audit.names()[i]),
    ensures
        audit.findings() == Seq::<FindingText>::empty(),
{
    assert forall|name: Seq<char>| #[trigger] audit.known(name) implies !name.contains('\u{0}') && counts_agree(
        s,
        name,
    ) by {
        let i = choose|i: int| 0 <= i < audit.names().len() && audit.names()[i] == name;
        assert(!audit.names()[i].contains('\u{0}'));
        assert(counts_agree(s, audit.names()[i]));
    }
    if audit.findings().len() > 0 {
        let finding = audit.findings()[0];
        assert(audit.findings().contains(finding));
        findings_are_found(audit, finding);
        agreeing_counts_are_right(s, audit, finding);
        agreeing_orders_are_right(s, audit, decode, finding);
        assert(false);
    }
    assert(audit.findings() =~= Seq::<FindingText>::empty());
}

} // verus!
