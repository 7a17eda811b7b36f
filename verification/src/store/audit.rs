//! The audit behind the summary: what the derived rows should say, recomputed from the projects and
//! uploads they describe, and every disagreement named.
use vstd::prelude::*;
use vstd::utf8::encode_utf8;

use super::keys::{count_key, key1, COUNT_PREFIX, PROJECTS_PREFIX, RECENT_PREFIX, UPLOAD_PREFIX};
use super::summary::{
    counts_read, counts_record, json_recent, order_key, order_position, recent_json, recent_of, recent_upload, Counts,
    RecentText, RecentWrite,
};
use super::txn::{entry_keys, keys_under, rows_under, DriverTxn, RowScope, TxnState};
use crate::collections::{listed, listed_is, TextMap, TextSet};
use crate::outside::{quoted, quoted_text};
use crate::text::{bytes_clone, cut_first, opt_as_str, opt_eq, opt_str, split_once, starts_with, text_eq};

verus! {

/// One index whose derived rows the audit checks, and the writer discipline its rows follow.
///
/// A virtual index owns no projects and no uploads, so it is not one of these: derived rows naming one
/// are rows that should not exist rather than rows that disagree.
pub struct AuditedIndex {
    pub name: String,
    /// Whether this index's rows stay on the node that wrote them, which a cached index's do.
    pub local: bool,
}

/// The names of the audited indexes.
pub open spec fn index_names(indexes: Seq<AuditedIndex>) -> Seq<Seq<char>> {
    indexes.map_values(|i: AuditedIndex| i.name@)
}

/// One derived row that disagrees with the projects and uploads it summarizes.
#[derive(Debug)]
pub struct SummaryDefect {
    /// The report namespace.
    pub namespace: &'static str,
    /// The derived row, escaped: these keys carry separators that no report should emit raw.
    pub key: String,
    pub message: String,
}

/// The write that settles a defect.
pub enum RowFix {
    Write(Vec<u8>),
    Remove,
}

/// A defect and the write that settles it.
pub struct Finding {
    pub defect: SummaryDefect,
    pub row: String,
    pub fix: RowFix,
    pub scope: RowScope,
}

/// A finding, its text seen as characters. A fix without a value removes the row.
pub struct FindingText {
    pub namespace: Seq<char>,
    pub message: Seq<char>,
    pub row: Seq<char>,
    pub fix: Option<Seq<u8>>,
    pub scope: RowScope,
}

impl Finding {
    pub open spec fn view(self) -> FindingText {
        FindingText {
            namespace: self.defect.namespace@,
            message: self.defect.message@,
            row: self.row@,
            fix: match self.fix {
                RowFix::Write(value) => Some(value@),
                RowFix::Remove => None,
            },
            scope: self.scope,
        }
    }

    /// The report names the row it is about.
    pub open spec fn names_its_row(self) -> bool {
        self.defect.key@ == quoted_text(self.row@)
    }
}

/// The findings, seen as text.
pub open spec fn finding_texts(list: Seq<Finding>) -> Seq<FindingText> {
    list.map_values(|f: Finding| f@)
}

/// Whether every finding names its row.
pub open spec fn all_named(list: Seq<Finding>) -> bool {
    forall|i: int| 0 <= i < list.len() ==> (#[trigger] list[i]).names_its_row()
}

pub const COUNT_NAMESPACE: &'static str = "summary-count";

pub const ORDER_NAMESPACE: &'static str = "summary-order";

// ---------------------------------------------------------------------------------------------
// Whose row a key is
// ---------------------------------------------------------------------------------------------

/// Whether `rest` starts with the index name and a slash.
pub open spec fn starts_with_index(rest: Seq<char>, name: Seq<char>) -> bool {
    (name + "/"@).is_prefix_of(rest)
}

/// The position of the longest of the first `n` names that `rest` starts with, so that a nested index
/// claims its own rows before the index whose name begins its own.
pub open spec fn longest_match(names: Seq<Seq<char>>, rest: Seq<char>, n: int) -> Option<int>
    decreases n,
{
    if n <= 0 {
        None
    } else {
        let found = longest_match(names, rest, n - 1);
        if starts_with_index(rest, names[n - 1]) && (found is None || names[n - 1].len() > names[found->0].len()) {
            Some(n - 1)
        } else {
            found
        }
    }
}

/// The index that `rest` names, and what stands behind its name.
pub open spec fn owner(names: Seq<Seq<char>>, rest: Seq<char>) -> Option<(Seq<char>, Seq<char>)> {
    match longest_match(names, rest, names.len() as int) {
        Some(i) => Some((names[i], rest.skip(names[i].len() as int + 1))),
        None => None,
    }
}

/// The index one project or upload key names, and the rest of the key after it.
pub fn split_index<'a>(rest: &'a str, indexes: &'a Vec<AuditedIndex>) -> (r: Option<(&'a str, &'a str)>)
    ensures
        match r {
            Some((name, behind)) => owner(index_names(indexes@), rest@) == Some((name@, behind@)),
            None => owner(index_names(indexes@), rest@) is None,
        },
{
    let ghost names = index_names(indexes@);
    let mut found: Option<usize> = None;
    let mut best: usize = 0;
    let mut i: usize = 0;
    while i < indexes.len()
        invariant
            i <= indexes@.len(),
            names == index_names(indexes@),
            names.len() == indexes@.len(),
            match found {
                Some(k) => longest_match(names, rest@, i as int) == Some(k as int) && k < indexes@.len() && best
                    == names[k as int].len() && starts_with_index(rest@, names[k as int]),
                None => longest_match(names, rest@, i as int) is None,
            },
        decreases indexes.len() - i,
    {
        let name = indexes[i].name.as_str();
        let mut prefix = name.to_owned();
        prefix.append("/");
        let len: usize = name.unicode_len();
        assert(names[i as int] == name@);
        if starts_with(rest, prefix.as_str()) && (found.is_none() || len > best) {
            found = Some(i);
            best = len;
        }
        i = i + 1;
    }
    match found {
        None => None,
        Some(k) => {
            let name = indexes[k].name.as_str();
            let total: usize = rest.unicode_len();
            proof {
                reveal_strlit("/");
                assert((names[k as int] + "/"@).len() == best + 1);
            }
            let behind = rest.substring_char(best + 1, total);
            assert(behind@ =~= rest@.skip(best as int + 1));
            Some((name, behind))
        },
    }
}

/// What stands behind a namespace prefix, which all have seven characters.
pub open spec fn behind_prefix(key: Seq<char>) -> Seq<char> {
    key.skip(7)
}

fn after_prefix<'a>(key: &'a str, prefix: &str) -> (r: &'a str)
    requires
        prefix@.len() == 7,
        prefix@.is_prefix_of(key@),
    ensures
        r@ == behind_prefix(key@),
{
    let total: usize = key.unicode_len();
    let rest = key.substring_char(7, total);
    assert(rest@ =~= key@.skip(7));
    rest
}

// ---------------------------------------------------------------------------------------------
// What the rows should say
// ---------------------------------------------------------------------------------------------

/// Whether a project key is one of `name`'s. A key the write path could not have produced is counted for
/// no index.
pub open spec fn projects_of(names: Seq<Seq<char>>, name: Seq<char>, key: Seq<char>) -> bool {
    match owner(names, behind_prefix(key)) {
        Some((index, project)) => index == name && project.len() > 0,
        None => false,
    }
}

/// How many of the first `n` keys are projects of `name`.
pub open spec fn count_projects(names: Seq<Seq<char>>, name: Seq<char>, keys: Seq<Seq<char>>, n: int) -> nat
    decreases n,
{
    if n <= 0 {
        0
    } else if projects_of(names, name, keys[n - 1]) {
        count_projects(names, name, keys, n - 1) + 1
    } else {
        count_projects(names, name, keys, n - 1)
    }
}

/// The project and filename of an upload key, when it is one of `name`'s.
pub open spec fn upload_of(names: Seq<Seq<char>>, name: Seq<char>, key: Seq<char>) -> Option<(Seq<char>, Seq<char>)> {
    match owner(names, behind_prefix(key)) {
        Some((index, rest)) => match cut_first(rest, '/') {
            Some((project, filename)) => if index == name && project.len() > 0 && filename.len() > 0 {
                Some((project, filename))
            } else {
                None
            },
            None => None,
        },
        None => None,
    }
}

/// How many of the first `n` keys are uploads of `name`.
pub open spec fn count_uploads(names: Seq<Seq<char>>, name: Seq<char>, keys: Seq<Seq<char>>, n: int) -> nat
    decreases n,
{
    if n <= 0 {
        0
    } else if upload_of(names, name, keys[n - 1]) is Some {
        count_uploads(names, name, keys, n - 1) + 1
    } else {
        count_uploads(names, name, keys, n - 1)
    }
}

/// The order rows of the first `n` upload keys that are `name`'s, each with the upload it is about. A
/// record that is not JSON holds no order row by design.
pub open spec fn expected_orders(
    rows: Map<Seq<char>, Seq<u8>>,
    names: Seq<Seq<char>>,
    name: Seq<char>,
    keys: Seq<Seq<char>>,
    n: int,
) -> Map<Seq<char>, (RecentText, Seq<char>)>
    decreases n,
{
    if n <= 0 {
        Map::empty()
    } else {
        let fewer = expected_orders(rows, names, name, keys, n - 1);
        match upload_of(names, name, keys[n - 1]) {
            None => fewer,
            Some((project, filename)) => match recent_of(project, filename, rows[keys[n - 1]]) {
                None => fewer,
                Some(recent) => fewer.insert(
                    order_position(name, recent, filename),
                    (recent, name + "/"@ + project + "/"@ + filename),
                ),
            },
        }
    }
}

/// What one index's derived rows should say.
pub struct ExpectationText {
    pub projects: nat,
    pub uploads: nat,
    pub orders: Map<Seq<char>, (RecentText, Seq<char>)>,
}

/// What `name`'s derived rows should say, recomputed from the rows they describe.
pub open spec fn expectation(
    rows: Map<Seq<char>, Seq<u8>>,
    names: Seq<Seq<char>>,
    name: Seq<char>,
) -> ExpectationText {
    let projects = keys_under(rows, PROJECTS_PREFIX@);
    let uploads = keys_under(rows, UPLOAD_PREFIX@);
    ExpectationText {
        projects: count_projects(names, name, projects, projects.len() as int),
        uploads: count_uploads(names, name, uploads, uploads.len() as int),
        orders: expected_orders(rows, names, name, uploads, uploads.len() as int),
    }
}

impl ExpectationText {
    /// The count row that should be there. An absent row and a pair of zeroes are the same state and only
    /// one of them is written.
    pub open spec fn desired_counts(self) -> Option<Counts> {
        if self.projects == 0 && self.uploads == 0 {
            None
        } else {
            Some(Counts { projects: self.projects as u64, uploads: self.uploads as u64 })
        }
    }
}

/// One expected order row: what it should say, and the upload it is about.
pub struct ExpectedOrder {
    pub record: RecentWrite,
    pub upload: String,
}

/// What one index's derived rows should say.
pub struct Expectation {
    pub counts: Counts,
    pub orders: TextMap<ExpectedOrder>,
}

/// The expected order rows, seen as text.
pub open spec fn order_texts(orders: Map<Seq<char>, ExpectedOrder>) -> Map<Seq<char>, (RecentText, Seq<char>)> {
    orders.map_values(|o: ExpectedOrder| (o.record@, o.upload@))
}

impl Expectation {
    pub open spec fn says(self, text: ExpectationText) -> bool {
        &&& self.counts.projects == text.projects
        &&& self.counts.uploads == text.uploads
        &&& order_texts(self.orders@) == text.orders
    }

    /// The count row that should be there.
    pub fn desired_counts(&self) -> (r: Option<Counts>)
        ensures
            r == (if self.counts.projects == 0 && self.counts.uploads == 0 {
                None
            } else {
                Some(self.counts)
            }),
    {
        if self.counts.projects == 0 && self.counts.uploads == 0 {
            None
        } else {
            Some(self.counts)
        }
    }
}

fn expect_projects(txn: &DriverTxn, indexes: &Vec<AuditedIndex>, name: &str) -> (r: u64)
    ensures
        ({
            let keys = keys_under(txn@.rows, PROJECTS_PREFIX@);
            r == count_projects(index_names(indexes@), name@, keys, keys.len() as int)
        }),
{
    let ghost names = index_names(indexes@);
    let entries = txn.prefix(PROJECTS_PREFIX);
    let ghost keys = keys_under(txn@.rows, PROJECTS_PREFIX@);
    assert(entry_keys(entries@).len() == entries@.len());
    let mut count: u64 = 0;
    let mut i: usize = 0;
    while i < entries.len()
        invariant
            i <= entries@.len(),
            names == index_names(indexes@),
            entries@.len() == keys.len(),
            entry_keys(entries@) == keys,
            rows_under(txn@.rows, PROJECTS_PREFIX@, entries@),
            count <= i,
            count == count_projects(names, name@, keys, i as int),
        decreases entries.len() - i,
    {
        let key = entries[i].0.as_str();
        assert(entry_keys(entries@)[i as int] == entries@[i as int].0@);
        proof {
            reveal_strlit("pypi\u{0}p\u{0}");
        }
        let rest = after_prefix(key, PROJECTS_PREFIX);
        match split_index(rest, indexes) {
            Some((index, project)) => {
                if text_eq(index, name) && !project.is_empty() {
                    count = count + 1;
                }
            },
            None => {},
        }
        i = i + 1;
    }
    count
}

/// What `name`'s derived rows should say.
pub fn expected_rows(txn: &DriverTxn, indexes: &Vec<AuditedIndex>, name: &str) -> (r: Expectation)
    ensures
        r.says(expectation(txn@.rows, index_names(indexes@), name@)),
{
    let projects: u64 = expect_projects(txn, indexes, name);
    let ghost names = index_names(indexes@);
    let entries = txn.prefix(UPLOAD_PREFIX);
    let ghost keys = keys_under(txn@.rows, UPLOAD_PREFIX@);
    assert(entry_keys(entries@).len() == entries@.len());
    let mut uploads: u64 = 0;
    let mut orders: TextMap<ExpectedOrder> = TextMap::new();
    assert(order_texts(orders@) =~= Map::empty());
    let mut i: usize = 0;
    while i < entries.len()
        invariant
            i <= entries@.len(),
            names == index_names(indexes@),
            entries@.len() == keys.len(),
            entry_keys(entries@) == keys,
            rows_under(txn@.rows, UPLOAD_PREFIX@, entries@),
            uploads <= i,
            uploads == count_uploads(names, name@, keys, i as int),
            order_texts(orders@) == expected_orders(txn@.rows, names, name@, keys, i as int),
        decreases entries.len() - i,
    {
        let key = entries[i].0.as_str();
        assert(entry_keys(entries@)[i as int] == entries@[i as int].0@);
        proof {
            reveal_strlit("pypi\u{0}u\u{0}");
        }
        let rest = after_prefix(key, UPLOAD_PREFIX);
        match split_index(rest, indexes) {
            Some((index, behind)) => match split_once(behind, '/') {
                Some((project, filename)) => {
                    if text_eq(index, name) && !project.is_empty() && !filename.is_empty() {
                        uploads = uploads + 1;
                        match recent_upload(project, filename, entries[i].1.as_slice()) {
                            Some(recent) => {
                                let position = order_key(name, &recent, filename);
                                let mut upload = name.to_owned();
                                upload.append("/");
                                upload.append(project);
                                upload.append("/");
                                upload.append(filename);
                                let ghost was = orders@;
                                let ghost at = position@;
                                let expected = ExpectedOrder { record: recent, upload };
                                orders.insert(position, expected);
                                assert(order_texts(orders@) =~= order_texts(was).insert(
                                    at,
                                    (expected.record@, expected.upload@),
                                ));
                            },
                            None => {},
                        }
                    }
                },
                None => {},
            },
            None => {},
        }
        i = i + 1;
    }
    Expectation { counts: Counts { projects, uploads }, orders }
}

// ---------------------------------------------------------------------------------------------
// Findings
// ---------------------------------------------------------------------------------------------

/// A derived row for an index that owns none. It is removed on the node that finds it, because nothing
/// establishes which discipline wrote it.
pub open spec fn unexpected(namespace: Seq<char>, row: Seq<char>) -> FindingText {
    FindingText {
        namespace,
        message: "no cached or hosted index owns this row"@,
        row,
        fix: None,
        scope: RowScope::Local,
    }
}

fn unexpected_row(namespace: &'static str, key: &str) -> (r: Finding)
    ensures
        r@ == unexpected(namespace@, key@),
        r.names_its_row(),
{
    Finding {
        defect: SummaryDefect {
            namespace,
            key: quoted(key),
            message: "no cached or hosted index owns this row".to_owned(),
        },
        row: key.to_owned(),
        fix: RowFix::Remove,
        scope: RowScope::Local,
    }
}

/// The writer discipline of `name`: that of the last index of that name.
pub open spec fn scope_of(indexes: Seq<AuditedIndex>, name: Seq<char>, n: int) -> RowScope
    decreases n,
{
    if n <= 0 {
        RowScope::Replicated
    } else if indexes[n - 1].name@ == name {
        if indexes[n - 1].local {
            RowScope::Local
        } else {
            RowScope::Replicated
        }
    } else {
        scope_of(indexes, name, n - 1)
    }
}

fn find_scope(indexes: &Vec<AuditedIndex>, name: &str) -> (r: RowScope)
    ensures
        r == scope_of(indexes@, name@, indexes@.len() as int),
{
    let mut scope: RowScope = RowScope::Replicated;
    let mut i: usize = 0;
    while i < indexes.len()
        invariant
            i <= indexes@.len(),
            scope == scope_of(indexes@, name@, i as int),
        decreases indexes.len() - i,
    {
        if text_eq(indexes[i].name.as_str(), name) {
            scope = if indexes[i].local {
                RowScope::Local
            } else {
                RowScope::Replicated
            };
        }
        i = i + 1;
    }
    scope
}

/// The record of desired counts, or nothing where no row should be.
pub open spec fn desired_row(desired: Option<Counts>) -> Option<Seq<u8>> {
    match desired {
        Some(counts) => Some(encode_utf8(counts_record(counts))),
        None => None,
    }
}

/// Desired counts in words.
pub open spec fn described(desired: Option<Counts>) -> Seq<char> {
    match desired {
        Some(counts) => counts.sentence(),
        None => "none"@,
    }
}

fn describe(desired: Option<Counts>) -> (r: String)
    ensures
        r@ == described(desired),
{
    match desired {
        Some(counts) => counts.describe(),
        None => "none".to_owned(),
    }
}

fn count_finding(scope: RowScope, key: &str, desired: Option<Counts>, message: String) -> (r: Finding)
    ensures
        r@ == (FindingText {
            namespace: COUNT_NAMESPACE@,
            message: message@,
            row: key@,
            fix: desired_row(desired),
            scope,
        }),
        r.names_its_row(),
{
    let fix = match desired {
        Some(counts) => {
            let text = counts.encode();
            RowFix::Write(bytes_clone(text.as_str().as_bytes()))
        },
        None => RowFix::Remove,
    };
    Finding {
        defect: SummaryDefect { namespace: COUNT_NAMESPACE, key: quoted(key), message },
        row: key.to_owned(),
        fix,
        scope,
    }
}

fn order_finding(scope: RowScope, key: &str, fix: RowFix, message: String) -> (r: Finding)
    ensures
        r@.namespace == ORDER_NAMESPACE@,
        r@.message == message@,
        r@.row == key@,
        r@.fix == (match fix {
            RowFix::Write(value) => Some(value@),
            RowFix::Remove => None,
        }),
        r@.scope == scope,
        r.names_its_row(),
{
    Finding {
        defect: SummaryDefect { namespace: ORDER_NAMESPACE, key: quoted(key), message },
        row: key.to_owned(),
        fix,
        scope,
    }
}

/// What is audited: the rows, the indexes, and what the order rows decode to.
pub struct AuditText {
    pub rows: Map<Seq<char>, Seq<u8>>,
    pub indexes: Seq<AuditedIndex>,
    pub decoded: Map<Seq<char>, DecodedOrder>,
}

/// What an order row decodes to: a record, or the error that it is none.
pub enum DecodedOrder {
    Record(RecentWrite),
    Damaged(String),
}

impl AuditText {
    pub open spec fn names(self) -> Seq<Seq<char>> {
        index_names(self.indexes)
    }

    pub open spec fn known(self, name: Seq<char>) -> bool {
        self.names().contains(name)
    }

    pub open spec fn expects(self, name: Seq<char>) -> ExpectationText {
        expectation(self.rows, self.names(), name)
    }

    pub open spec fn scope(self, name: Seq<char>) -> RowScope {
        scope_of(self.indexes, name, self.indexes.len() as int)
    }

    /// What a count row is found to say wrong.
    pub open spec fn count_row_finding(self, key: Seq<char>) -> Option<FindingText> {
        let name = behind_prefix(key);
        if !self.known(name) {
            Some(unexpected(COUNT_NAMESPACE@, key))
        } else {
            let desired = self.expects(name).desired_counts();
            let with = |message: Seq<char>|
                Some(
                    FindingText {
                        namespace: COUNT_NAMESPACE@,
                        message,
                        row: key,
                        fix: desired_row(desired),
                        scope: self.scope(name),
                    },
                );
            match counts_read(key, Some(self.rows[key])) {
                Ok(found) => if desired == Some(found) {
                    None
                } else {
                    with("count row says "@ + found.sentence() + ", rows hold "@ + described(desired))
                },
                Err(error) => with(error.sentence()),
            }
        }
    }

    /// What is found of a count row that should be there and is not.
    pub open spec fn missing_count_finding(self, name: Seq<char>) -> Option<FindingText> {
        let key = key1(COUNT_PREFIX@, name);
        match self.expects(name).desired_counts() {
            Some(desired) => if self.rows.contains_key(key) {
                None
            } else {
                Some(
                    FindingText {
                        namespace: COUNT_NAMESPACE@,
                        message: "count row is absent, rows hold "@ + desired.sentence(),
                        row: key,
                        fix: desired_row(Some(desired)),
                        scope: self.scope(name),
                    },
                )
            },
            None => None,
        }
    }

    /// The index that an order row names, as far as the separator behind its name.
    pub open spec fn order_index(self, key: Seq<char>) -> Option<Seq<char>> {
        match cut_first(behind_prefix(key), '\u{0}') {
            Some((name, _)) => if self.known(name) {
                Some(name)
            } else {
                None
            },
            None => None,
        }
    }

    /// What an order row is found to say wrong. Whether its key is well formed is settled by whether an
    /// upload produced that exact key.
    pub open spec fn order_row_finding(self, key: Seq<char>) -> Option<FindingText> {
        match self.order_index(key) {
            None => Some(unexpected(ORDER_NAMESPACE@, key)),
            Some(name) => {
                let orders = self.expects(name).orders;
                if !orders.contains_key(key) {
                    Some(
                        FindingText {
                            namespace: ORDER_NAMESPACE@,
                            message: "order row has no upload"@,
                            row: key,
                            fix: None,
                            scope: self.scope(name),
                        },
                    )
                } else {
                    let (want, upload) = orders[key];
                    let with = |message: Seq<char>|
                        Some(
                            FindingText {
                                namespace: ORDER_NAMESPACE@,
                                message,
                                row: key,
                                fix: Some(encode_utf8(json_recent(want))),
                                scope: self.scope(name),
                            },
                        );
                    if !self.decoded.contains_key(key) {
                        with("order row does not match upload "@ + upload)
                    } else {
                        match self.decoded[key] {
                            DecodedOrder::Record(found) => if found@ == want {
                                None
                            } else {
                                with("order row does not match upload "@ + upload)
                            },
                            DecodedOrder::Damaged(error) => with(error@),
                        }
                    }
                }
            },
        }
    }

    /// What is found of an order row that should be there and is not.
    pub open spec fn missing_order_finding(self, name: Seq<char>, key: Seq<char>) -> Option<FindingText> {
        let matched = self.rows.contains_key(key) && self.order_index(key) is Some && self.expects(
            self.order_index(key)->0,
        ).orders.contains_key(key);
        let (want, upload) = self.expects(name).orders[key];
        if matched {
            None
        } else {
            Some(
                FindingText {
                    namespace: ORDER_NAMESPACE@,
                    message: "upload "@ + upload + " has no order row"@,
                    row: key,
                    fix: Some(encode_utf8(json_recent(want))),
                    scope: self.scope(name),
                },
            )
        }
    }
}

/// One more finding, if there is one.
pub open spec fn and_then(list: Seq<FindingText>, found: Option<FindingText>) -> Seq<FindingText> {
    match found {
        Some(finding) => list.push(finding),
        None => list,
    }
}

impl AuditText {
    /// The findings on the first `n` count rows.
    pub open spec fn count_rows(self, keys: Seq<Seq<char>>, n: int) -> Seq<FindingText>
        decreases n,
    {
        if n <= 0 {
            Seq::empty()
        } else {
            and_then(self.count_rows(keys, n - 1), self.count_row_finding(keys[n - 1]))
        }
    }

    /// The findings on the count rows that the first `n` indexes lack.
    pub open spec fn missing_counts(self, names: Seq<Seq<char>>, n: int) -> Seq<FindingText>
        decreases n,
    {
        if n <= 0 {
            Seq::empty()
        } else {
            and_then(self.missing_counts(names, n - 1), self.missing_count_finding(names[n - 1]))
        }
    }

    /// The findings on the first `n` order rows.
    pub open spec fn order_rows(self, keys: Seq<Seq<char>>, n: int) -> Seq<FindingText>
        decreases n,
    {
        if n <= 0 {
            Seq::empty()
        } else {
            and_then(self.order_rows(keys, n - 1), self.order_row_finding(keys[n - 1]))
        }
    }

    /// The findings on the first `n` order rows that `name` lacks.
    pub open spec fn missing_orders_of(self, name: Seq<char>, keys: Seq<Seq<char>>, n: int) -> Seq<FindingText>
        decreases n,
    {
        if n <= 0 {
            Seq::empty()
        } else {
            and_then(self.missing_orders_of(name, keys, n - 1), self.missing_order_finding(name, keys[n - 1]))
        }
    }

    /// The findings on the order rows that the first `n` indexes lack.
    pub open spec fn missing_orders(self, names: Seq<Seq<char>>, n: int) -> Seq<FindingText>
        decreases n,
    {
        if n <= 0 {
            Seq::empty()
        } else {
            let keys = listed(self.expects(names[n - 1]).orders.dom());
            self.missing_orders(names, n - 1) + self.missing_orders_of(names[n - 1], keys, keys.len() as int)
        }
    }

    /// Every derived row that disagrees with the projects and uploads it summarizes: the count rows that
    /// are there, those that are not, the order rows that are there, and those that are not.
    pub open spec fn findings(self) -> Seq<FindingText> {
        let names = listed(self.names().to_set());
        let counts = keys_under(self.rows, COUNT_PREFIX@);
        let orders = keys_under(self.rows, RECENT_PREFIX@);
        self.count_rows(counts, counts.len() as int) + self.missing_counts(names, names.len() as int)
            + self.order_rows(orders, orders.len() as int) + self.missing_orders(names, names.len() as int)
    }
}

/// What an audit works on.
struct Audit<'a> {
    txn: &'a DriverTxn,
    indexes: &'a Vec<AuditedIndex>,
    decoded: &'a TextMap<DecodedOrder>,
}

impl<'a> Audit<'a> {
    spec fn view(self) -> AuditText {
        AuditText { rows: self.txn@.rows, indexes: self.indexes@, decoded: self.decoded@ }
    }

    fn known(&self, name: &str) -> (r: bool)
        ensures
            r == self@.known(name@),
    {
        let ghost names = index_names(self.indexes@);
        let mut i: usize = 0;
        while i < self.indexes.len()
            invariant
                i <= self.indexes@.len(),
                names == index_names(self.indexes@),
                names.len() == self.indexes@.len(),
                forall|j: int| 0 <= j < i ==> names[j] != name@,
            decreases self.indexes.len() - i,
        {
            if text_eq(self.indexes[i].name.as_str(), name) {
                assert(names[i as int] == name@);
                return true;
            }
            i = i + 1;
        }
        false
    }

    fn expects(&self, name: &str) -> (r: Expectation)
        ensures
            r.says(self@.expects(name@)),
    {
        expected_rows(self.txn, self.indexes, name)
    }

    fn check_count_row(&self, key: &str, value: &[u8]) -> (r: Option<Finding>)
        requires
            COUNT_PREFIX@.is_prefix_of(key@),
            self@.rows.contains_key(key@),
            self@.rows[key@] == value@,
        ensures
            match r {
                Some(finding) => self@.count_row_finding(key@) == Some(finding@) && finding.names_its_row(),
                None => self@.count_row_finding(key@) is None,
            },
    {
        proof {
            reveal_strlit("pypi\u{0}k\u{0}");
        }
        let name = after_prefix(key, COUNT_PREFIX);
        if !self.known(name) {
            return Some(unexpected_row(COUNT_NAMESPACE, key));
        }
        let expected = self.expects(name);
        let desired: Option<Counts> = expected.desired_counts();
        let message: String = match Counts::decode(key, Some(value)) {
            Ok(found) => {
                match desired {
                    Some(wanted) => {
                        if wanted == found {
                            return None;
                        }
                    },
                    None => {},
                }
                let mut text = "count row says ".to_owned();
                let said = found.describe();
                text.append(said.as_str());
                text.append(", rows hold ");
                let held = describe(desired);
                text.append(held.as_str());
                text
            },
            Err(error) => error.message(),
        };
        Some(count_finding(find_scope(self.indexes, name), key, desired, message))
    }

    fn check_missing_count(&self, name: &str) -> (r: Option<Finding>)
        ensures
            match r {
                Some(finding) => self@.missing_count_finding(name@) == Some(finding@) && finding.names_its_row(),
                None => self@.missing_count_finding(name@) is None,
            },
    {
        let expected = self.expects(name);
        let key = count_key(name);
        match expected.desired_counts() {
            Some(desired) => {
                if self.txn.get(key.as_str()).is_some() {
                    return None;
                }
                let mut message = "count row is absent, rows hold ".to_owned();
                let held = desired.describe();
                message.append(held.as_str());
                Some(count_finding(find_scope(self.indexes, name), key.as_str(), Some(desired), message))
            },
            None => None,
        }
    }

    fn order_index<'b>(&self, key: &'b str) -> (r: Option<&'b str>)
        requires
            RECENT_PREFIX@.is_prefix_of(key@),
        ensures
            opt_str(r) == self@.order_index(key@),
    {
        proof {
            reveal_strlit("pypi\u{0}w\u{0}");
        }
        let rest = after_prefix(key, RECENT_PREFIX);
        match split_once(rest, '\u{0}') {
            Some((name, _)) => {
                if self.known(name) {
                    Some(name)
                } else {
                    None
                }
            },
            None => None,
        }
    }

    fn check_order_row(&self, key: &str) -> (r: Option<Finding>)
        requires
            RECENT_PREFIX@.is_prefix_of(key@),
        ensures
            match r {
                Some(finding) => self@.order_row_finding(key@) == Some(finding@) && finding.names_its_row(),
                None => self@.order_row_finding(key@) is None,
            },
    {
        let name = match self.order_index(key) {
            Some(name) => name,
            None => {
                return Some(unexpected_row(ORDER_NAMESPACE, key));
            },
        };
        let expected = self.expects(name);
        let scope: RowScope = find_scope(self.indexes, name);
        let want = match expected.orders.get(key) {
            Some(want) => want,
            None => {
                assert(!self@.expects(name@).orders.contains_key(key@));
                return Some(order_finding(scope, key, RowFix::Remove, "order row has no upload".to_owned()));
            },
        };
        assert(self@.expects(name@).orders.contains_key(key@));
        assert(self@.expects(name@).orders[key@] == (want.record@, want.upload@));
        let message: String = match self.decoded.get(key) {
            Some(DecodedOrder::Record(found)) => {
                if same_recent(found, &want.record) {
                    return None;
                }
                mismatch(want.upload.as_str())
            },
            Some(DecodedOrder::Damaged(error)) => error.clone(),
            None => mismatch(want.upload.as_str()),
        };
        let text = recent_json(&want.record);
        let fix = RowFix::Write(bytes_clone(text.as_str().as_bytes()));
        Some(order_finding(scope, key, fix, message))
    }

    fn check_missing_order(&self, name: &str, key: &str, want: &ExpectedOrder) -> (r: Option<Finding>)
        requires
            self@.expects(name@).orders.contains_key(key@),
            self@.expects(name@).orders[key@] == (want.record@, want.upload@),
        ensures
            match r {
                Some(finding) => self@.missing_order_finding(name@, key@) == Some(finding@)
                    && finding.names_its_row(),
                None => self@.missing_order_finding(name@, key@) is None,
            },
    {
        if self.txn.get(key).is_some() && starts_with(key, RECENT_PREFIX) {
            match self.order_index(key) {
                Some(other) => {
                    let there = self.expects(other);
                    if there.orders.contains_key(key) {
                        assert(self@.expects(other@).orders.contains_key(key@));
                        return None;
                    }
                    assert(!self@.expects(other@).orders.contains_key(key@));
                },
                None => {},
            }
        } else {
            proof {
                order_keys_have_prefix(
                    self@.rows,
                    self@.names(),
                    name@,
                    keys_under(self@.rows, UPLOAD_PREFIX@),
                    keys_under(self@.rows, UPLOAD_PREFIX@).len() as int,
                    key@,
                );
            }
        }
        let mut message = "upload ".to_owned();
        message.append(want.upload.as_str());
        message.append(" has no order row");
        let text = recent_json(&want.record);
        let fix = RowFix::Write(bytes_clone(text.as_str().as_bytes()));
        Some(order_finding(find_scope(self.indexes, name), key, fix, message))
    }
}

/// Every expected order row has the prefix of the order rows.
proof fn order_keys_have_prefix(
    rows: Map<Seq<char>, Seq<u8>>,
    names: Seq<Seq<char>>,
    name: Seq<char>,
    keys: Seq<Seq<char>>,
    n: int,
    key: Seq<char>,
)
    requires
        expected_orders(rows, names, name, keys, n).contains_key(key),
    ensures
        RECENT_PREFIX@.is_prefix_of(key),
    decreases n,
{
    if n > 0 {
        let fewer = expected_orders(rows, names, name, keys, n - 1);
        if fewer.contains_key(key) {
            order_keys_have_prefix(rows, names, name, keys, n - 1, key);
        } else {
            let (project, filename) = upload_of(names, name, keys[n - 1])->0;
            let recent = recent_of(project, filename, rows[keys[n - 1]])->0;
            assert(key == order_position(name, recent, filename));
            let p = RECENT_PREFIX@;
            assert(key.subrange(0, p.len() as int) =~= p);
        }
    }
}

fn mismatch(upload: &str) -> (r: String)
    ensures
        r@ == "order row does not match upload "@ + upload@,
{
    let mut text = "order row does not match upload ".to_owned();
    text.append(upload);
    text
}

fn same_recent(a: &RecentWrite, b: &RecentWrite) -> (r: bool)
    ensures
        r == (a@ == b@),
{
    text_eq(a.resource.as_str(), b.resource.as_str()) && text_eq(a.artifact.as_str(), b.artifact.as_str()) && text_eq(
        a.group.as_str(),
        b.group.as_str(),
    ) && opt_eq(opt_as_str(&a.written_at), opt_as_str(&b.written_at)) && a.size == b.size
}

fn push_found(list: &mut Vec<Finding>, found: Option<Finding>)
    requires
        all_named(old(list)@),
        found is Some ==> (found->0).names_its_row(),
    ensures
        finding_texts(final(list)@) == and_then(
            finding_texts(old(list)@),
            match found {
                Some(finding) => Some(finding@),
                None => None,
            },
        ),
        all_named(final(list)@),
{
    let ghost before = list@;
    match found {
        Some(finding) => {
            list.push(finding);
            assert(finding_texts(list@) =~= finding_texts(before).push(finding@));
        },
        None => {},
    }
}

/// Name every derived row that disagrees with the projects and uploads it summarizes. The whole audit
/// reads one snapshot: counts, order rows and the rows they describe are compared against each other, so
/// reading them from two would let a write in between make correct rows look broken. `decoded` says what
/// the order rows decode to.
pub fn find_defects(txn: &DriverTxn, indexes: &Vec<AuditedIndex>, decoded: &TextMap<DecodedOrder>) -> (r: Vec<Finding>)
    ensures
        finding_texts(r@) == (AuditText { rows: txn@.rows, indexes: indexes@, decoded: decoded@ }).findings(),
        all_named(r@),
{
    let audit = Audit { txn, indexes, decoded };
    let ghost text = audit@;
    let mut names = TextSet::new();
    let ghost all_names = index_names(indexes@);
    let mut k: usize = 0;
    assert(names@ =~= all_names.take(0).to_set());
    while k < indexes.len()
        invariant
            k <= indexes@.len(),
            all_names == index_names(indexes@),
            all_names.len() == indexes@.len(),
            names@ == all_names.take(k as int).to_set(),
        decreases indexes.len() - k,
    {
        let ghost was = names@;
        let ghost fewer = all_names.take(k as int);
        let ghost more = all_names.take(k + 1);
        let name = indexes[k].name.clone();
        let ghost text_name = name@;
        let fresh: bool = names.insert(name);
        assert(more =~= fewer.push(text_name));
        assert forall|q: Seq<char>| names@.contains(q) == more.to_set().contains(q) by {
            if fewer.contains(q) {
                let m = choose|m: int| 0 <= m < fewer.len() && fewer[m] == q;
                assert(more[m] == q);
            }
            if q == text_name {
                assert(more[k as int] == q);
            }
            if more.contains(q) && q != text_name {
                let m = choose|m: int| 0 <= m < more.len() && more[m] == q;
                assert(fewer[m] == q);
            }
        }
        assert(names@ =~= more.to_set());
        k = k + 1;
    }
    assert(all_names.take(k as int) =~= all_names);
    let list: Vec<Finding> = Vec::new();
    let mut findings = list;
    assert(finding_texts(findings@) =~= Seq::<FindingText>::empty());
    find_count_defects(&audit, &mut findings);
    let ghost one = finding_texts(findings@);
    let ghost counts = keys_under(text.rows, COUNT_PREFIX@);
    assert(one =~= text.count_rows(counts, counts.len() as int));
    find_missing_counts(&audit, &names, &mut findings);
    find_order_defects(&audit, &mut findings);
    find_missing_orders(&audit, &names, &mut findings);
    findings
}

fn find_count_defects(audit: &Audit<'_>, findings: &mut Vec<Finding>)
    requires
        all_named(old(findings)@),
    ensures
        ({
            let keys = keys_under(audit@.rows, COUNT_PREFIX@);
            finding_texts(final(findings)@) == finding_texts(old(findings)@) + audit@.count_rows(
                keys,
                keys.len() as int,
            )
        }),
        all_named(final(findings)@),
{
    let ghost start = finding_texts(findings@);
    let entries = audit.txn.prefix(COUNT_PREFIX);
    let ghost keys = keys_under(audit@.rows, COUNT_PREFIX@);
    assert(entry_keys(entries@).len() == entries@.len());
    let mut i: usize = 0;
    assert(start + Seq::<FindingText>::empty() =~= start);
    while i < entries.len()
        invariant
            i <= entries@.len(),
            entries@.len() == keys.len(),
            entry_keys(entries@) == keys,
            rows_under(audit@.rows, COUNT_PREFIX@, entries@),
            finding_texts(findings@) == start + audit@.count_rows(keys, i as int),
            all_named(findings@),
        decreases entries.len() - i,
    {
        assert(entry_keys(entries@)[i as int] == entries@[i as int].0@);
        let found = audit.check_count_row(entries[i].0.as_str(), entries[i].1.as_slice());
        let ghost so_far = audit@.count_rows(keys, i as int);
        push_found(findings, found);
        assert(finding_texts(findings@) =~= start + audit@.count_rows(keys, i + 1));
        i = i + 1;
    }
}

fn find_missing_counts(audit: &Audit<'_>, names: &TextSet, findings: &mut Vec<Finding>)
    requires
        all_named(old(findings)@),
    ensures
        finding_texts(final(findings)@) == finding_texts(old(findings)@) + audit@.missing_counts(
            listed(names@),
            listed(names@).len() as int,
        ),
        all_named(final(findings)@),
{
    let ghost start = finding_texts(findings@);
    let n: usize = names.len();
    let ghost list = listed(names@);
    let mut i: usize = 0;
    assert(start + Seq::<FindingText>::empty() =~= start);
    while i < n
        invariant
            i <= n,
            n == list.len(),
            list == names.list(),
            finding_texts(findings@) == start + audit@.missing_counts(list, i as int),
            all_named(findings@),
        decreases n - i,
    {
        let found = audit.check_missing_count(names.at(i));
        push_found(findings, found);
        assert(finding_texts(findings@) =~= start + audit@.missing_counts(list, i + 1));
        i = i + 1;
    }
}

fn find_order_defects(audit: &Audit<'_>, findings: &mut Vec<Finding>)
    requires
        all_named(old(findings)@),
    ensures
        ({
            let keys = keys_under(audit@.rows, RECENT_PREFIX@);
            finding_texts(final(findings)@) == finding_texts(old(findings)@) + audit@.order_rows(
                keys,
                keys.len() as int,
            )
        }),
        all_named(final(findings)@),
{
    let ghost start = finding_texts(findings@);
    let entries = audit.txn.prefix(RECENT_PREFIX);
    let ghost keys = keys_under(audit@.rows, RECENT_PREFIX@);
    assert(entry_keys(entries@).len() == entries@.len());
    let mut i: usize = 0;
    assert(start + Seq::<FindingText>::empty() =~= start);
    while i < entries.len()
        invariant
            i <= entries@.len(),
            entries@.len() == keys.len(),
            entry_keys(entries@) == keys,
            rows_under(audit@.rows, RECENT_PREFIX@, entries@),
            finding_texts(findings@) == start + audit@.order_rows(keys, i as int),
            all_named(findings@),
        decreases entries.len() - i,
    {
        assert(entry_keys(entries@)[i as int] == entries@[i as int].0@);
        let found = audit.check_order_row(entries[i].0.as_str());
        push_found(findings, found);
        assert(finding_texts(findings@) =~= start + audit@.order_rows(keys, i + 1));
        i = i + 1;
    }
}

fn find_missing_orders(audit: &Audit<'_>, names: &TextSet, findings: &mut Vec<Finding>)
    requires
        all_named(old(findings)@),
    ensures
        finding_texts(final(findings)@) == finding_texts(old(findings)@) + audit@.missing_orders(
            listed(names@),
            listed(names@).len() as int,
        ),
        all_named(final(findings)@),
{
    let ghost start = finding_texts(findings@);
    let n: usize = names.len();
    let ghost list = listed(names@);
    let mut i: usize = 0;
    assert(start + Seq::<FindingText>::empty() =~= start);
    while i < n
        invariant
            i <= n,
            n == list.len(),
            list == names.list(),
            finding_texts(findings@) == start + audit@.missing_orders(list, i as int),
            all_named(findings@),
        decreases n - i,
    {
        let name = names.at(i);
        let ghost before = finding_texts(findings@);
        find_missing_orders_of(audit, name, findings);
        assert(finding_texts(findings@) =~= start + audit@.missing_orders(list, i + 1));
        i = i + 1;
    }
}

fn find_missing_orders_of(audit: &Audit<'_>, name: &str, findings: &mut Vec<Finding>)
    requires
        all_named(old(findings)@),
    ensures
        ({
            let keys = listed(audit@.expects(name@).orders.dom());
            finding_texts(final(findings)@) == finding_texts(old(findings)@) + audit@.missing_orders_of(
                name@,
                keys,
                keys.len() as int,
            )
        }),
        all_named(final(findings)@),
{
    let ghost start = finding_texts(findings@);
    let expected = audit.expects(name);
    let n: usize = expected.orders.len();
    let ghost keys = listed(audit@.expects(name@).orders.dom());
    proof {
        listed_is(expected.orders.keys());
        assert(audit@.expects(name@).orders.dom() =~= expected.orders@.dom());
    }
    let mut i: usize = 0;
    assert(start + Seq::<FindingText>::empty() =~= start);
    while i < n
        invariant
            i <= n,
            n == keys.len(),
            keys == expected.orders.keys(),
            n == expected.orders.values().len(),
            expected.says(audit@.expects(name@)),
            finding_texts(findings@) == start + audit@.missing_orders_of(name@, keys, i as int),
            all_named(findings@),
        decreases n - i,
    {
        let key = expected.orders.key_at(i);
        let want = expected.orders.value_at(i);
        assert(audit@.expects(name@).orders.contains_key(key@));
        assert(audit@.expects(name@).orders[key@] == (want.record@, want.upload@));
        let found = audit.check_missing_order(name, key, want);
        push_found(findings, found);
        assert(finding_texts(findings@) =~= start + audit@.missing_orders_of(name@, keys, i + 1));
        i = i + 1;
    }
}

// ---------------------------------------------------------------------------------------------
// Repair
// ---------------------------------------------------------------------------------------------

impl TxnState {
    /// A finding's fix is applied.
    pub open spec fn fixed(self, finding: FindingText) -> TxnState {
        match finding.fix {
            Some(value) => self.wrote(finding.scope, finding.row, value),
            None => self.erased(finding.scope, finding.row),
        }
    }

    /// The first `n` fixes are applied.
    pub open spec fn fixed_all(self, findings: Seq<FindingText>, n: int) -> TxnState
        decreases n,
    {
        if n <= 0 {
            self
        } else {
            self.fixed_all(findings, n - 1).fixed(findings[n - 1])
        }
    }
}

/// Rebuild every derived row that [`find_defects`] names. Each is recomputed from the projects and
/// uploads it summarizes, so the write is the one the write path would have made.
pub fn repair_summary_rows(txn: &mut DriverTxn, findings: &Vec<Finding>)
    ensures
        final(txn)@ == old(txn)@.fixed_all(finding_texts(findings@), findings@.len() as int),
{
    let ghost start = txn@;
    let ghost all = finding_texts(findings@);
    let mut i: usize = 0;
    while i < findings.len()
        invariant
            i <= findings@.len(),
            all == finding_texts(findings@),
            txn@ == start.fixed_all(all, i as int),
        decreases findings.len() - i,
    {
        let finding = &findings[i];
        assert(all[i as int] == finding@);
        match &finding.fix {
            RowFix::Write(value) => {
                let fresh: bool = txn.write_row(finding.scope, finding.row.as_str(), value.as_slice());
            },
            RowFix::Remove => {
                let there: bool = txn.remove_row(finding.scope, finding.row.as_str());
            },
        }
        i = i + 1;
    }
}

/// The derived rows a store holds.
#[derive(Debug, Clone, Copy, PartialEq, Eq, Structural)]
pub struct SummaryRowCounts {
    pub count_rows: u64,
    pub order_rows: u64,
}

/// Count the derived rows a store holds.
pub fn summary_row_counts(txn: &DriverTxn) -> (r: SummaryRowCounts)
    ensures
        r.count_rows == keys_under(txn@.rows, COUNT_PREFIX@).len(),
        r.order_rows == keys_under(txn@.rows, RECENT_PREFIX@).len(),
{
    let counts = txn.prefix(COUNT_PREFIX);
    let orders = txn.prefix(RECENT_PREFIX);
    assert(entry_keys(counts@).len() == counts@.len());
    assert(entry_keys(orders@).len() == orders@.len());
    SummaryRowCounts { count_rows: counts.len() as u64, order_rows: orders.len() as u64 }
}

} // verus!
