//! Repairing metadata: every row that cannot be read, and what is to be done about it.
use vstd::prelude::*;

use super::audit::{behind_prefix, starts_with_index};
use super::keys::{
    freshness_key, index_key, key1,
    FRESHNESS_PREFIX, INDEX_PREFIX, METADATA_PREFIX, OVERRIDE_PREFIX, PROJECTS_PREFIX, PROVENANCE_PREFIX,
    PUBLICATION_PREFIX, UPLOAD_PREFIX, FILE_PREFIX,
};
use super::summary::remove_cached_project_row;
use super::txn::{entry_keys, keys_under, rows_under, DriverTxn, RowScope, TxnState};
use super::values::{
    head, provenance_read, split_provenance_value, tail, MetaError, MetaErrorText, VersionedProvenanceReference,
};
use crate::collections::{TextMap, TextSet};
use crate::digest::{is_digest, valid_digest};
use crate::outside::utf8_text;
use crate::text::{
    before, before_irreflexive, before_transitive, bytes_clone, chars_of, cut_first, cut_last, rsplit_once, split_once,
    starts_with, text_before, text_eq, texts,
};

verus! {

// ---------------------------------------------------------------------------------------------
// Escaping
// ---------------------------------------------------------------------------------------------

/// The lowercase hex digit of value `d`.
pub open spec fn hex_digit_char(d: int) -> char {
    if d < 10 {
        (('0' as u32 + d) as u8) as char
    } else {
        (('a' as u32 + d - 10) as u8) as char
    }
}

/// The hex spelling of `n`, without leading zeroes.
pub open spec fn hex(n: nat) -> Seq<char>
    decreases n,
{
    if n < 16 {
        seq![hex_digit_char(n as int)]
    } else {
        hex(n / 16).push(hex_digit_char((n % 16) as int))
    }
}

/// A character as a report prints it: printable ASCII as it is, but for quotes and backslashes.
pub open spec fn escaped_char(c: char) -> Seq<char> {
    if c == '\t' {
        "\\t"@
    } else if c == '\r' {
        "\\r"@
    } else if c == '\n' {
        "\\n"@
    } else if c == '\'' {
        "\\'"@
    } else if c == '"' {
        "\\\""@
    } else if c == '\\' {
        "\\\\"@
    } else if 0x20 <= c as u32 <= 0x7E {
        seq![c]
    } else {
        "\\u{"@ + hex(c as u32 as nat) + "}"@
    }
}

/// A key as a report prints it.
pub open spec fn escaped(s: Seq<char>) -> Seq<char>
    decreases s.len(),
{
    if s.len() == 0 {
        Seq::empty()
    } else {
        escaped(s.drop_last()) + escaped_char(s.last())
    }
}

fn hex_chars(n: u32) -> (r: String)
    ensures
        r@ == hex(n as nat),
    decreases n,
{
    let d: u8 = (n % 16) as u8;
    let c: char = if d < 10 {
        (48u8 + d) as char
    } else {
        (97u8 + (d - 10)) as char
    };
    if n < 16 {
        let mut s = String::new();
        s.push(c);
        assert(s@ =~= seq![c]);
        s
    } else {
        let mut s = hex_chars(n / 16);
        s.push(c);
        s
    }
}

/// Escape a key for a report.
pub fn escape_key(key: &str) -> (r: String)
    ensures
        r@ == escaped(key@),
{
    let v = chars_of(key);
    let mut out = String::new();
    let mut i: usize = 0;
    while i < v.len()
        invariant
            i <= v@.len(),
            v@ == key@,
            out@ == escaped(key@.take(i as int)),
        decreases v.len() - i,
    {
        let c: char = v[i];
        let ghost before_out = out@;
        assert(key@.take(i + 1).drop_last() =~= key@.take(i as int));
        assert(key@.take(i + 1).last() == c);
        if c == '\t' {
            out.append("\\t");
        } else if c == '\r' {
            out.append("\\r");
        } else if c == '\n' {
            out.append("\\n");
        } else if c == '\'' {
            out.append("\\'");
        } else if c == '"' {
            out.append("\\\"");
        } else if c == '\\' {
            out.append("\\\\");
        } else if 0x20 <= c as u32 && c as u32 <= 0x7E {
            out.push(c);
            assert(out@ =~= before_out + seq![c]);
        } else {
            let digits = hex_chars(c as u32);
            out.append("\\u{");
            out.append(digits.as_str());
            out.append("}");
            assert(out@ =~= before_out + ("\\u{"@ + hex(c as u32 as nat) + "}"@));
        }
        i = i + 1;
    }
    assert(key@.take(i as int) =~= key@);
    out
}

// ---------------------------------------------------------------------------------------------
// Findings
// ---------------------------------------------------------------------------------------------

/// What a finding does to the store.
#[derive(Debug)]
pub enum RepairFix {
    RemoveLocal { key: String },
    RemoveCachedProject { index: String, project: String },
    RemoveCachedPage { page: String },
    ReportOnly,
}

/// A fix, its text seen as characters.
pub enum FixText {
    RemoveLocal { key: Seq<char> },
    RemoveCachedProject { index: Seq<char>, project: Seq<char> },
    RemoveCachedPage { page: Seq<char> },
    ReportOnly,
}

/// One row that cannot be read, and what is to be done about it.
#[derive(Debug)]
pub struct MetadataRepairFinding {
    pub namespace: &'static str,
    pub key: String,
    pub disposition: &'static str,
    pub message: String,
    pub fix: RepairFix,
}

/// A finding, its text seen as characters.
pub struct RepairText {
    pub namespace: Seq<char>,
    pub key: Seq<char>,
    pub disposition: Seq<char>,
    pub message: Seq<char>,
    pub fix: FixText,
}

impl RepairFix {
    pub open spec fn view(self) -> FixText {
        match self {
            RepairFix::RemoveLocal { key } => FixText::RemoveLocal { key: key@ },
            RepairFix::RemoveCachedProject { index, project } => FixText::RemoveCachedProject {
                index: index@,
                project: project@,
            },
            RepairFix::RemoveCachedPage { page } => FixText::RemoveCachedPage { page: page@ },
            RepairFix::ReportOnly => FixText::ReportOnly,
        }
    }
}

impl MetadataRepairFinding {
    pub open spec fn view(self) -> RepairText {
        RepairText {
            namespace: self.namespace@,
            key: self.key@,
            disposition: self.disposition@,
            message: self.message@,
            fix: self.fix@,
        }
    }

    /// Whether the finding changes the store.
    pub fn actionable(&self) -> (r: bool)
        ensures
            r == !(self@.fix is ReportOnly),
    {
        !matches!(self.fix, RepairFix::ReportOnly)
    }
}

/// The findings, seen as text.
pub open spec fn repair_texts(list: Seq<MetadataRepairFinding>) -> Seq<RepairText> {
    list.map_values(|f: MetadataRepairFinding| f@)
}

/// How many findings change the store, and how many only report.
#[derive(Debug, Clone, Copy, PartialEq, Eq, Structural)]
pub struct MetadataRepairCounts {
    pub actionable: usize,
    pub report_only: usize,
}

/// How many of the first `n` findings change the store.
pub open spec fn actionable_count(list: Seq<RepairText>, n: int) -> nat
    decreases n,
{
    if n <= 0 {
        0
    } else {
        actionable_count(list, n - 1) + (if list[n - 1].fix is ReportOnly {
            0nat
        } else {
            1nat
        })
    }
}

/// Count the findings by what they do.
pub fn repair_counts(findings: &Vec<MetadataRepairFinding>) -> (r: MetadataRepairCounts)
    ensures
        r.actionable == actionable_count(repair_texts(findings@), findings@.len() as int),
        r.actionable + r.report_only == findings@.len(),
{
    let ghost all = repair_texts(findings@);
    let mut actionable: usize = 0;
    let mut report_only: usize = 0;
    let mut i: usize = 0;
    while i < findings.len()
        invariant
            i <= findings@.len(),
            all == repair_texts(findings@),
            actionable == actionable_count(all, i as int),
            actionable + report_only == i,
        decreases findings.len() - i,
    {
        assert(all[i as int] == findings@[i as int]@);
        if findings[i].actionable() {
            actionable = actionable + 1;
        } else {
            report_only = report_only + 1;
        }
        i = i + 1;
    }
    MetadataRepairCounts { actionable, report_only }
}

/// A finding that only reports.
pub open spec fn reported(namespace: Seq<char>, key: Seq<char>, message: Seq<char>) -> RepairText {
    RepairText {
        namespace,
        key: escaped(key),
        disposition: "report-only"@,
        message,
        fix: FixText::ReportOnly,
    }
}

/// A finding that removes something.
pub open spec fn removing(namespace: Seq<char>, key: Seq<char>, message: Seq<char>, fix: FixText) -> RepairText {
    RepairText { namespace, key: escaped(key), disposition: "remove"@, message, fix }
}

fn report_only(namespace: &'static str, key: &str, message: &str) -> (r: MetadataRepairFinding)
    ensures
        r@ == reported(namespace@, key@, message@),
{
    MetadataRepairFinding {
        namespace,
        key: escape_key(key),
        disposition: "report-only",
        message: message.to_owned(),
        fix: RepairFix::ReportOnly,
    }
}

fn actionable(namespace: &'static str, key: &str, message: &str, fix: RepairFix) -> (r: MetadataRepairFinding)
    ensures
        r@ == removing(namespace@, key@, message@, fix@),
{
    MetadataRepairFinding {
        namespace,
        key: escape_key(key),
        disposition: "remove",
        message: message.to_owned(),
        fix,
    }
}

// ---------------------------------------------------------------------------------------------
// Ownership and validity
// ---------------------------------------------------------------------------------------------

/// The position of the longest of the first `n` names that `key` starts with, with a project behind it.
pub open spec fn owning(names: Seq<Seq<char>>, key: Seq<char>, n: int) -> Option<int>
    decreases n,
{
    if n <= 0 {
        None
    } else {
        let found = owning(names, key, n - 1);
        if starts_with_index(key, names[n - 1]) && key.len() > names[n - 1].len() + 1 && (found is None || names[n
            - 1].len() >= names[found->0].len()) {
            Some(n - 1)
        } else {
            found
        }
    }
}

/// The index that owns a key, and what stands behind its name.
pub open spec fn owned_by(names: Seq<Seq<char>>, key: Seq<char>) -> Option<(Seq<char>, Seq<char>)> {
    match owning(names, key, names.len() as int) {
        Some(i) => Some((names[i], key.skip(names[i].len() as int + 1))),
        None => None,
    }
}

fn split_index_project<'a>(key: &'a str, names: &'a Vec<String>) -> (r: Option<(&'a str, &'a str)>)
    ensures
        match r {
            Some((index, project)) => owned_by(texts(names@), key@) == Some((index@, project@)),
            None => owned_by(texts(names@), key@) is None,
        },
{
    let ghost all = texts(names@);
    let total: usize = key.unicode_len();
    let mut found: Option<usize> = None;
    let mut best: usize = 0;
    let mut i: usize = 0;
    proof {
        reveal_strlit("/");
    }
    while i < names.len()
        invariant
            i <= names@.len(),
            all == texts(names@),
            all.len() == names@.len(),
            total == key@.len(),
            "/"@.len() == 1,
            match found {
                Some(k) => owning(all, key@, i as int) == Some(k as int) && k < names@.len() && best
                    == all[k as int].len() && best + 1 < total,
                None => owning(all, key@, i as int) is None,
            },
        decreases names.len() - i,
    {
        let name = names[i].as_str();
        let mut prefix = name.to_owned();
        prefix.append("/");
        let len: usize = name.unicode_len();
        assert(all[i as int] == name@);
        if starts_with(key, prefix.as_str()) && total - len > 1 && (found.is_none() || len >= best) {
            found = Some(i);
            best = len;
        }
        i = i + 1;
    }
    match found {
        None => None,
        Some(k) => {
            let project = key.substring_char(best + 1, total);
            assert(project@ =~= key@.skip(best as int + 1));
            Some((names[k].as_str(), project))
        },
    }
}

/// The index, the project and the digest of a file-source key.
pub open spec fn source_key_parts(key: Seq<char>) -> Option<(Seq<char>, Seq<char>, Seq<char>)> {
    match cut_last(key, '/') {
        None => None,
        Some((head, digest)) => match cut_last(head, '/') {
            None => None,
            Some((index, normalized)) => if index.len() > 0 && normalized.len() > 0 && digest.len() > 0 {
                Some((index, normalized, digest))
            } else {
                None
            },
        },
    }
}

/// The index, the project and the digest of a file-source key.
pub fn split_file_source_key<'a>(key: &'a str) -> (r: Option<(&'a str, &'a str, &'a str)>)
    ensures
        match r {
            Some((index, normalized, digest)) => source_key_parts(key@) == Some((index@, normalized@, digest@)),
            None => source_key_parts(key@) is None,
        },
{
    match rsplit_once(key, '/') {
        None => None,
        Some((head, digest)) => match rsplit_once(head, '/') {
            None => None,
            Some((index, normalized)) => {
                if !index.is_empty() && !normalized.is_empty() && !digest.is_empty() {
                    Some((index, normalized, digest))
                } else {
                    None
                }
            },
        },
    }
}

/// Whether a file-source key ends in a digest behind a project of its index.
pub open spec fn sound_source_key(names: Seq<Seq<char>>, key: Seq<char>) -> bool {
    match owned_by(names, key) {
        None => match source_key_parts(key) {
            Some((_, _, digest)) => is_digest(digest),
            None => false,
        },
        Some((_, rest)) => match cut_last(rest, '/') {
            Some((project, digest)) => project.len() > 0 && is_digest(digest),
            None => false,
        },
    }
}

fn valid_file_source_key(names: &Vec<String>, key: &str) -> (r: bool)
    ensures
        r == sound_source_key(texts(names@), key@),
{
    match split_index_project(key, names) {
        None => match split_file_source_key(key) {
            Some((_, _, digest)) => valid_digest(digest),
            None => false,
        },
        Some((_, rest)) => match rsplit_once(rest, '/') {
            Some((project, digest)) => !project.is_empty() && valid_digest(digest),
            None => false,
        },
    }
}

/// Whether a publication record is empty, or has a digest as its second line and a third line.
pub open spec fn sound_publication(value: Seq<char>) -> bool {
    value.len() == 0 || match tail(value, '\n') {
        Some(rest) => is_digest(head(rest, '\n')) && tail(rest, '\n') is Some,
        None => false,
    }
}

fn valid_publication(value: &str) -> (r: bool)
    ensures
        r == sound_publication(value@),
{
    if value.is_empty() {
        return true;
    }
    match split_once(value, '\n') {
        None => false,
        Some((_, rest)) => match split_once(rest, '\n') {
            None => false,
            Some((digest, _)) => valid_digest(digest),
        },
    }
}

/// Whether a project key has an index and a project.
pub open spec fn sound_project_key(key: Seq<char>) -> bool {
    match cut_first(key, '/') {
        Some((index, project)) => index.len() > 0 && project.len() > 0,
        None => false,
    }
}

/// Whether an upload key has an index, a project and a filename.
pub open spec fn sound_upload_key(key: Seq<char>) -> bool {
    match cut_first(key, '/') {
        Some((index, rest)) => index.len() > 0 && sound_project_key(rest),
        None => false,
    }
}

fn valid_project_key(key: &str) -> (r: bool)
    ensures
        r == sound_project_key(key@),
{
    match split_once(key, '/') {
        Some((index, project)) => !index.is_empty() && !project.is_empty(),
        None => false,
    }
}

fn valid_upload_key(key: &str) -> (r: bool)
    ensures
        r == sound_upload_key(key@),
{
    match split_once(key, '/') {
        Some((index, rest)) => !index.is_empty() && valid_project_key(rest),
        None => false,
    }
}

// ---------------------------------------------------------------------------------------------
// Judging rows
// ---------------------------------------------------------------------------------------------

/// What a repair needs to know beside the rows: the indexes of this ecosystem, and which rows decode.
pub struct RepairContext {
    pub cached: Vec<String>,
    pub hosted: Vec<String>,
    /// The keys of the cached pages that decode, body included.
    pub readable_pages: TextSet,
    /// The keys of the upload records that decode and name a digest.
    pub sound_uploads: TextSet,
    /// The keys of the override records that decode.
    pub sound_overrides: TextSet,
    /// The versioned forms of the provenance records, by key.
    pub references: TextMap<VersionedProvenanceReference>,
}

impl RepairContext {
    /// The names of the cached indexes, then those of the hosted ones.
    pub open spec fn names(self) -> Seq<Seq<char>> {
        texts(self.cached@) + texts(self.hosted@)
    }

    pub open spec fn is_cached(self, name: Seq<char>) -> bool {
        texts(self.cached@).contains(name)
    }

    pub open spec fn is_hosted(self, name: Seq<char>) -> bool {
        texts(self.hosted@).contains(name)
    }

    /// What is done about a cached page.
    pub open spec fn page_finding(self, stored: Seq<char>, raw: Seq<u8>) -> Option<RepairText> {
        let key = behind_prefix(stored);
        if self.readable_pages@.contains(stored) {
            None
        } else if owned_by(texts(self.cached@), key) is Some {
            Some(
                removing(
                    "index"@,
                    key,
                    "remove unreadable cached page; refetch the project"@,
                    FixText::RemoveCachedPage { page: key },
                ),
            )
        } else {
            Some(reported("index"@, key, "row ownership is unknown; inspect or restore it"@))
        }
    }

    /// What is done about a row that was derived from a cached page and cannot be read.
    pub open spec fn derived_finding(self, namespace: Seq<char>, stored: Seq<char>) -> RepairText {
        let key = behind_prefix(stored);
        let owner = owned_by(self.names(), key);
        if namespace == "file-url"@ && owner is None && source_key_parts(key) is None {
            removing(
                namespace,
                key,
                "remove legacy or malformed cache locator with no publication owner"@,
                FixText::RemoveLocal { key: stored },
            )
        } else if owner is Some && self.is_cached((owner->0).0) {
            reported(
                namespace,
                key,
                "cached row is not safely derivable; refetch the project or restore the row"@,
            )
        } else if owner is Some && self.is_hosted((owner->0).0) {
            reported(
                namespace,
                key,
                "hosted row is not derivable; restore it from backup or retire it through the normal delete workflow"@,
            )
        } else {
            reported(namespace, key, "row ownership is unknown; inspect or restore it"@)
        }
    }

    /// Whether a file-source row can be read.
    pub open spec fn sound_source(self, stored: Seq<char>, raw: Seq<u8>) -> bool {
        &&& vstd::utf8::valid_utf8(raw)
        &&& sound_source_key(self.names(), behind_prefix(stored))
        &&& vstd::utf8::decode_utf8(raw).contains('\n')
    }

    /// What is done about a file-source row.
    pub open spec fn source_finding(self, stored: Seq<char>, raw: Seq<u8>) -> Option<RepairText> {
        if self.sound_source(stored, raw) {
            None
        } else {
            Some(self.derived_finding("file-url"@, stored))
        }
    }

    /// What is done about a publication row.
    pub open spec fn publication_finding(self, stored: Seq<char>, raw: Seq<u8>) -> Option<RepairText> {
        if vstd::utf8::valid_utf8(raw) && sound_publication(vstd::utf8::decode_utf8(raw)) {
            None
        } else {
            Some(self.derived_finding("publication"@, stored))
        }
    }

    /// What is done about a metadata pointer.
    pub open spec fn metadata_finding(self, stored: Seq<char>, raw: Seq<u8>) -> Option<RepairText> {
        let key = behind_prefix(stored);
        if !is_digest(key) {
            Some(
                removing(
                    "pep658"@,
                    key,
                    "remove unusable row with an invalid artifact digest"@,
                    FixText::RemoveLocal { key: stored },
                ),
            )
        } else if vstd::utf8::valid_utf8(raw) && is_digest(vstd::utf8::decode_utf8(raw)) {
            None
        } else {
            Some(
                reported(
                    "pep658"@,
                    key,
                    "metadata digest is not derivable; restore the row or rebuild metadata from the artifact"@,
                ),
            )
        }
    }

    /// What is done about a project marker.
    pub open spec fn project_finding(self, stored: Seq<char>, raw: Seq<u8>) -> Option<RepairText> {
        let key = behind_prefix(stored);
        if sound_project_key(key) && vstd::utf8::valid_utf8(raw) && vstd::utf8::decode_utf8(raw).len() > 0 {
            None
        } else {
            match owned_by(self.names(), key) {
                None => Some(reported("project"@, key, "invalid project key; inspect or restore the row"@)),
                Some((index, project)) => if self.is_cached(index) {
                    Some(
                        removing(
                            "project"@,
                            key,
                            "remove corrupt cached project row; refetch the project"@,
                            FixText::RemoveCachedProject { index, project },
                        ),
                    )
                } else {
                    Some(
                        reported(
                            "project"@,
                            key,
                            "hosted project name is not derivable; restore it from backup"@,
                        ),
                    )
                },
            }
        }
    }

    /// What is done about an upload record.
    pub open spec fn upload_finding(self, stored: Seq<char>, raw: Seq<u8>) -> Option<RepairText> {
        if sound_upload_key(behind_prefix(stored)) && self.sound_uploads@.contains(stored) {
            None
        } else {
            Some(unrestorable("upload"@, stored))
        }
    }

    /// What is done about an override record.
    pub open spec fn override_finding(self, stored: Seq<char>, raw: Seq<u8>) -> Option<RepairText> {
        if vstd::utf8::valid_utf8(raw) && sound_upload_key(behind_prefix(stored)) && self.sound_overrides@.contains(
            stored,
        ) {
            None
        } else {
            Some(unrestorable("override"@, stored))
        }
    }

    /// The versioned form of the provenance record at `stored`.
    pub open spec fn reference(self, stored: Seq<char>) -> Option<(u64, Seq<char>, u64)> {
        if self.references@.contains_key(stored) {
            Some(
                (
                    self.references@[stored].version,
                    self.references@[stored].sha256@,
                    self.references@[stored].size,
                ),
            )
        } else {
            None
        }
    }

    /// What is done about a provenance record.
    pub open spec fn provenance_finding(self, stored: Seq<char>, raw: Seq<u8>) -> Option<RepairText> {
        let sound = vstd::utf8::valid_utf8(raw) && match provenance_read(
            "provenance"@,
            vstd::utf8::decode_utf8(raw),
            self.reference(stored),
        ) {
            Ok(reference) => is_digest(reference.sha256),
            Err(_) => false,
        };
        if sound {
            None
        } else {
            Some(unrestorable("provenance"@, stored))
        }
    }
}

/// A record that nothing else can rebuild.
pub open spec fn unrestorable(namespace: Seq<char>, stored: Seq<char>) -> RepairText {
    reported(
        namespace,
        behind_prefix(stored),
        "record is not derivable; restore it from backup or retire it through the normal delete workflow"@,
    )
}

/// A namespace that a repair walks.
#[derive(Debug, Clone, Copy, PartialEq, Eq, Structural)]
pub enum RepairNamespace {
    Page,
    Source,
    Metadata,
    Publication,
    Project,
    Upload,
    Override,
    Provenance,
}

impl RepairNamespace {
    pub open spec fn prefix_text(self) -> Seq<char> {
        match self {
            RepairNamespace::Page => INDEX_PREFIX@,
            RepairNamespace::Source => FILE_PREFIX@,
            RepairNamespace::Metadata => METADATA_PREFIX@,
            RepairNamespace::Publication => PUBLICATION_PREFIX@,
            RepairNamespace::Project => PROJECTS_PREFIX@,
            RepairNamespace::Upload => UPLOAD_PREFIX@,
            RepairNamespace::Override => OVERRIDE_PREFIX@,
            RepairNamespace::Provenance => PROVENANCE_PREFIX@,
        }
    }

    fn prefix(self) -> (r: &'static str)
        ensures
            r@ == self.prefix_text(),
            r@.len() == 7,
    {
        proof {
            super::keys::prefixes_are_namespaces();
        }
        match self {
            RepairNamespace::Page => INDEX_PREFIX,
            RepairNamespace::Source => FILE_PREFIX,
            RepairNamespace::Metadata => METADATA_PREFIX,
            RepairNamespace::Publication => PUBLICATION_PREFIX,
            RepairNamespace::Project => PROJECTS_PREFIX,
            RepairNamespace::Upload => UPLOAD_PREFIX,
            RepairNamespace::Override => OVERRIDE_PREFIX,
            RepairNamespace::Provenance => PROVENANCE_PREFIX,
        }
    }
}

impl RepairContext {
    /// What is done about a row of a namespace.
    pub open spec fn row_finding(self, namespace: RepairNamespace, stored: Seq<char>, raw: Seq<u8>) -> Option<
        RepairText,
    > {
        match namespace {
            RepairNamespace::Page => self.page_finding(stored, raw),
            RepairNamespace::Source => self.source_finding(stored, raw),
            RepairNamespace::Metadata => self.metadata_finding(stored, raw),
            RepairNamespace::Publication => self.publication_finding(stored, raw),
            RepairNamespace::Project => self.project_finding(stored, raw),
            RepairNamespace::Upload => self.upload_finding(stored, raw),
            RepairNamespace::Override => self.override_finding(stored, raw),
            RepairNamespace::Provenance => self.provenance_finding(stored, raw),
        }
    }

    /// What is done about the first `n` rows of a namespace.
    pub open spec fn rows_findings(
        self,
        namespace: RepairNamespace,
        rows: Map<Seq<char>, Seq<u8>>,
        keys: Seq<Seq<char>>,
        n: int,
    ) -> Seq<RepairText>
        decreases n,
    {
        if n <= 0 {
            Seq::empty()
        } else {
            match self.row_finding(namespace, keys[n - 1], rows[keys[n - 1]]) {
                Some(finding) => self.rows_findings(namespace, rows, keys, n - 1).push(finding),
                None => self.rows_findings(namespace, rows, keys, n - 1),
            }
        }
    }

    /// What is done about a namespace.
    pub open spec fn namespace_findings(
        self,
        namespace: RepairNamespace,
        rows: Map<Seq<char>, Seq<u8>>,
    ) -> Seq<RepairText> {
        let keys = keys_under(rows, namespace.prefix_text());
        self.rows_findings(namespace, rows, keys, keys.len() as int)
    }

    /// Everything that is found, namespace by namespace.
    pub open spec fn found(self, rows: Map<Seq<char>, Seq<u8>>) -> Seq<RepairText> {
        self.namespace_findings(RepairNamespace::Page, rows) + self.namespace_findings(RepairNamespace::Source, rows)
            + self.namespace_findings(RepairNamespace::Metadata, rows) + self.namespace_findings(
            RepairNamespace::Publication,
            rows,
        ) + self.namespace_findings(RepairNamespace::Project, rows) + self.namespace_findings(
            RepairNamespace::Upload,
            rows,
        ) + self.namespace_findings(RepairNamespace::Override, rows) + self.namespace_findings(
            RepairNamespace::Provenance,
            rows,
        )
    }

    fn all_names(&self) -> (r: Vec<String>)
        ensures
            texts(r@) == self.names(),
    {
        let mut names = crate::text::texts_clone(&self.cached);
        let mut more = crate::text::texts_clone(&self.hosted);
        names.append(&mut more);
        assert(texts(names@) =~= self.names());
        names
    }

    fn judge_page(&self, stored: &str, key: &str) -> (r: Option<MetadataRepairFinding>)
        requires
            key@ == behind_prefix(stored@),
        ensures
            opt_repair(r) == self.page_finding(stored@, Seq::empty()),
    {
        if self.readable_pages.contains(stored) {
            None
        } else if split_index_project(key, &self.cached).is_some() {
            Some(
                actionable(
                    "index",
                    key,
                    "remove unreadable cached page; refetch the project",
                    RepairFix::RemoveCachedPage { page: key.to_owned() },
                ),
            )
        } else {
            Some(report_only("index", key, "row ownership is unknown; inspect or restore it"))
        }
    }

    fn judge_derived(&self, namespace: &'static str, names: &Vec<String>, stored: &str, key: &str) -> (r:
        MetadataRepairFinding)
        requires
            key@ == behind_prefix(stored@),
            texts(names@) == self.names(),
        ensures
            r@ == self.derived_finding(namespace@, stored@),
    {
        match split_index_project(key, names) {
            None => {
                if text_eq(namespace, "file-url") && split_file_source_key(key).is_none() {
                    actionable(
                        namespace,
                        key,
                        "remove legacy or malformed cache locator with no publication owner",
                        RepairFix::RemoveLocal { key: stored.to_owned() },
                    )
                } else {
                    report_only(namespace, key, "row ownership is unknown; inspect or restore it")
                }
            },
            Some((index, _)) => {
                if crate::text::contains_text(&self.cached, index) {
                    report_only(
                        namespace,
                        key,
                        "cached row is not safely derivable; refetch the project or restore the row",
                    )
                } else if crate::text::contains_text(&self.hosted, index) {
                    report_only(
                        namespace,
                        key,
                        "hosted row is not derivable; restore it from backup or retire it through the normal delete workflow",
                    )
                } else {
                    report_only(namespace, key, "row ownership is unknown; inspect or restore it")
                }
            },
        }
    }

    fn judge_project(&self, names: &Vec<String>, key: &str, text: &Option<String>) -> (r: Option<
        MetadataRepairFinding,
    >)
        requires
            texts(names@) == self.names(),
        ensures
            ({
                let sound = sound_project_key(key@) && text is Some && (text->0)@.len() > 0;
                opt_repair(r) == (if sound {
                    None
                } else {
                    match owned_by(self.names(), key@) {
                        None => Some(reported("project"@, key@, "invalid project key; inspect or restore the row"@)),
                        Some((index, project)) => if self.is_cached(index) {
                            Some(
                                removing(
                                    "project"@,
                                    key@,
                                    "remove corrupt cached project row; refetch the project"@,
                                    FixText::RemoveCachedProject { index, project },
                                ),
                            )
                        } else {
                            Some(
                                reported(
                                    "project"@,
                                    key@,
                                    "hosted project name is not derivable; restore it from backup"@,
                                ),
                            )
                        },
                    }
                })
            }),
    {
        let named: bool = match text {
            Some(display) => !display.as_str().is_empty(),
            None => false,
        };
        if valid_project_key(key) && named {
            return None;
        }
        match split_index_project(key, names) {
            None => Some(report_only("project", key, "invalid project key; inspect or restore the row")),
            Some((index, project)) => {
                if crate::text::contains_text(&self.cached, index) {
                    Some(
                        actionable(
                            "project",
                            key,
                            "remove corrupt cached project row; refetch the project",
                            RepairFix::RemoveCachedProject { index: index.to_owned(), project: project.to_owned() },
                        ),
                    )
                } else {
                    Some(
                        report_only(
                            "project",
                            key,
                            "hosted project name is not derivable; restore it from backup",
                        ),
                    )
                }
            },
        }
    }

    fn judge_metadata(&self, stored: &str, key: &str, text: &Option<String>) -> (r: Option<MetadataRepairFinding>)
        requires
            key@ == behind_prefix(stored@),
        ensures
            opt_repair(r) == (if !is_digest(key@) {
                Some(
                    removing(
                        "pep658"@,
                        key@,
                        "remove unusable row with an invalid artifact digest"@,
                        FixText::RemoveLocal { key: stored@ },
                    ),
                )
            } else if text is Some && is_digest((text->0)@) {
                None
            } else {
                Some(
                    reported(
                        "pep658"@,
                        key@,
                        "metadata digest is not derivable; restore the row or rebuild metadata from the artifact"@,
                    ),
                )
            }),
    {
        if !valid_digest(key) {
            return Some(
                actionable(
                    "pep658",
                    key,
                    "remove unusable row with an invalid artifact digest",
                    RepairFix::RemoveLocal { key: stored.to_owned() },
                ),
            );
        }
        match text {
            Some(value) => {
                if valid_digest(value.as_str()) {
                    return None;
                }
            },
            None => {},
        }
        Some(
            report_only(
                "pep658",
                key,
                "metadata digest is not derivable; restore the row or rebuild metadata from the artifact",
            ),
        )
    }

    fn sound_provenance(&self, stored: &str, text: &Option<String>) -> (r: bool)
        ensures
            r == (text is Some && match provenance_read("provenance"@, (text->0)@, self.reference(stored@)) {
                Ok(reference) => is_digest(reference.sha256),
                Err(_) => false,
            }),
    {
        let value = match text {
            Some(value) => value,
            None => {
                return false;
            },
        };
        let decoded: Option<VersionedProvenanceReference> = match self.references.get(stored) {
            Some(reference) => Some(
                VersionedProvenanceReference {
                    version: reference.version,
                    sha256: reference.sha256.clone(),
                    size: reference.size,
                },
            ),
            None => None,
        };
        match split_provenance_value("provenance", value.as_str(), decoded) {
            Ok(reference) => valid_digest(reference.sha256()),
            Err(_) => false,
        }
    }

    fn judge(&self, namespace: RepairNamespace, names: &Vec<String>, stored: &str, raw: &[u8]) -> (r: Option<
        MetadataRepairFinding,
    >)
        requires
            namespace.prefix_text().is_prefix_of(stored@),
            texts(names@) == self.names(),
        ensures
            opt_repair(r) == self.row_finding(namespace, stored@, raw@),
    {
        let prefix = namespace.prefix();
        let total: usize = stored.unicode_len();
        let key = stored.substring_char(7, total);
        assert(key@ =~= behind_prefix(stored@));
        let text: Option<String> = utf8_text(bytes_clone(raw));
        let lost = "record is not derivable; restore it from backup or retire it through the normal delete workflow";
        match namespace {
            RepairNamespace::Page => self.judge_page(stored, key),
            RepairNamespace::Source => {
                let sound: bool = valid_file_source_key(names, key) && match &text {
                    Some(value) => crate::text::contains_char(value.as_str(), '\n'),
                    None => false,
                };
                if sound {
                    None
                } else {
                    Some(self.judge_derived("file-url", names, stored, key))
                }
            },
            RepairNamespace::Metadata => self.judge_metadata(stored, key, &text),
            RepairNamespace::Publication => {
                let sound: bool = match &text {
                    Some(value) => valid_publication(value.as_str()),
                    None => false,
                };
                if sound {
                    None
                } else {
                    Some(self.judge_derived("publication", names, stored, key))
                }
            },
            RepairNamespace::Project => self.judge_project(names, key, &text),
            RepairNamespace::Upload => {
                if valid_upload_key(key) && self.sound_uploads.contains(stored) {
                    None
                } else {
                    Some(report_only("upload", key, lost))
                }
            },
            RepairNamespace::Override => {
                if text.is_some() && valid_upload_key(key) && self.sound_overrides.contains(stored) {
                    None
                } else {
                    Some(report_only("override", key, lost))
                }
            },
            RepairNamespace::Provenance => {
                if self.sound_provenance(stored, &text) {
                    None
                } else {
                    Some(report_only("provenance", key, lost))
                }
            },
        }
    }

    fn walk(
        &self,
        txn: &DriverTxn,
        namespace: RepairNamespace,
        names: &Vec<String>,
        findings: &mut Vec<MetadataRepairFinding>,
    )
        requires
            texts(names@) == self.names(),
        ensures
            repair_texts(final(findings)@) == repair_texts(old(findings)@) + self.namespace_findings(
                namespace,
                txn@.rows,
            ),
    {
        let ghost start = repair_texts(findings@);
        let entries = txn.prefix(namespace.prefix());
        let ghost keys = keys_under(txn@.rows, namespace.prefix_text());
        assert(entry_keys(entries@).len() == entries@.len());
        let mut i: usize = 0;
        assert(start + Seq::<RepairText>::empty() =~= start);
        while i < entries.len()
            invariant
                i <= entries@.len(),
                entries@.len() == keys.len(),
                entry_keys(entries@) == keys,
                rows_under(txn@.rows, namespace.prefix_text(), entries@),
                texts(names@) == self.names(),
                repair_texts(findings@) == start + self.rows_findings(namespace, txn@.rows, keys, i as int),
            decreases entries.len() - i,
        {
            assert(entry_keys(entries@)[i as int] == entries@[i as int].0@);
            let ghost so_far = findings@;
            match self.judge(namespace, names, entries[i].0.as_str(), entries[i].1.as_slice()) {
                Some(finding) => {
                    findings.push(finding);
                    assert(repair_texts(findings@) =~= repair_texts(so_far).push(finding@));
                },
                None => {},
            }
            assert(repair_texts(findings@) =~= start + self.rows_findings(namespace, txn@.rows, keys, i + 1));
            i = i + 1;
        }
    }
}

/// An optional finding, seen as text.
pub open spec fn opt_repair(finding: Option<MetadataRepairFinding>) -> Option<RepairText> {
    match finding {
        Some(finding) => Some(finding@),
        None => None,
    }
}

// ---------------------------------------------------------------------------------------------
// The plan
// ---------------------------------------------------------------------------------------------

/// Whether a finding stands before another: by namespace, and then by key.
pub open spec fn finding_before(a: RepairText, b: RepairText) -> bool {
    before(a.namespace, b.namespace) || (a.namespace == b.namespace && before(a.key, b.key))
}

/// Whether no finding stands before one that precedes it.
pub open spec fn findings_in_order(list: Seq<RepairText>) -> bool {
    forall|i: int, j: int| 0 <= i < j < list.len() ==> !finding_before(#[trigger] list[j], #[trigger] list[i])
}

fn is_finding_before(a: &MetadataRepairFinding, b: &MetadataRepairFinding) -> (r: bool)
    ensures
        r == finding_before(a@, b@),
{
    text_before(a.namespace, b.namespace) || (text_eq(a.namespace, b.namespace) && text_before(
        a.key.as_str(),
        b.key.as_str(),
    ))
}

proof fn finding_before_transitive(a: RepairText, b: RepairText, c: RepairText)
    requires
        finding_before(a, b),
        finding_before(b, c),
    ensures
        finding_before(a, c),
{
    if before(a.namespace, b.namespace) {
        if before(b.namespace, c.namespace) {
            before_transitive(a.namespace, b.namespace, c.namespace);
        }
    } else if !before(b.namespace, c.namespace) {
        before_transitive(a.key, b.key, c.key);
    }
}

proof fn finding_before_irreflexive(a: RepairText)
    ensures
        !finding_before(a, a),
{
    before_irreflexive(a.namespace);
    before_irreflexive(a.key);
}

proof fn inserting_finding_keeps_order(items: Seq<RepairText>, at: int, item: RepairText)
    requires
        findings_in_order(items),
        0 <= at <= items.len(),
        forall|j: int| 0 <= j < at ==> !finding_before(item, #[trigger] items[j]),
        at < items.len() ==> finding_before(item, items[at]),
    ensures
        findings_in_order(items.insert(at, item)),
{
    let now = items.insert(at, item);
    assert forall|i: int, j: int| 0 <= i < j < now.len() implies !finding_before(
        #[trigger] now[j],
        #[trigger] now[i],
    ) by {
        let x = if i < at { i } else { i - 1 };
        let y = if j < at { j } else { j - 1 };
        if i == at {
            if finding_before(items[y], item) {
                finding_before_transitive(items[y], item, items[at]);
                if y > at {
                    assert(!finding_before(items[y], items[at]));
                } else {
                    finding_before_irreflexive(items[at]);
                }
            }
        } else if j == at {
        } else {
            assert(!finding_before(items[y], items[x]));
        }
    }
}

fn sort_findings(findings: Vec<MetadataRepairFinding>) -> (r: Vec<MetadataRepairFinding>)
    ensures
        findings_in_order(repair_texts(r@)),
        repair_texts(r@).to_multiset() == repair_texts(findings@).to_multiset(),
{
    let ghost all = findings@;
    let n: usize = findings.len();
    let mut out: Vec<MetadataRepairFinding> = Vec::new();
    assert(repair_texts(all).take(0) =~= repair_texts(out@));
    for finding in it: findings
        invariant
            it.seq() == all,
            n == all.len(),
            findings_in_order(repair_texts(out@)),
            out@.len() == it.index(),
            repair_texts(out@).to_multiset() == repair_texts(all).take(it.index() as int).to_multiset(),
    {
        let mut at: usize = 0;
        while at < out.len() && !is_finding_before(&finding, &out[at])
            invariant
                at <= out@.len(),
                forall|j: int| 0 <= j < at ==> !finding_before(finding@, #[trigger] repair_texts(out@)[j]),
            decreases out.len() - at,
        {
            assert(repair_texts(out@)[at as int] == out@[at as int]@);
            at = at + 1;
        }
        let ghost so_far = repair_texts(out@);
        let ghost text = finding@;
        let ghost i = it.index();
        out.insert(at, finding);
        proof {
            let now = repair_texts(out@);
            assert(now =~= so_far.insert(at as int, text));
            inserting_finding_keeps_order(so_far, at as int, text);
            now.to_multiset_ensures();
            assert(now[at as int] == text);
            assert(now.remove(at as int) =~= so_far);
            assert(now.contains(text));
            assert(now.to_multiset() =~= so_far.to_multiset().insert(text));
            let fewer = repair_texts(all).take(i as int);
            assert(repair_texts(all).take(i + 1) =~= fewer.push(text));
            fewer.to_multiset_ensures();
        }
    }
    assert(repair_texts(all).take(n as int) =~= repair_texts(all));
    out
}

/// Plan every disposition without changing the store: everything that is found, in the order of the
/// namespaces and keys.
pub fn plan_metadata_repair(txn: &DriverTxn, context: &RepairContext) -> (r: Vec<MetadataRepairFinding>)
    ensures
        findings_in_order(repair_texts(r@)),
        repair_texts(r@).to_multiset() == context.found(txn@.rows).to_multiset(),
{
    let names = context.all_names();
    let mut findings: Vec<MetadataRepairFinding> = Vec::new();
    assert(repair_texts(findings@) =~= Seq::<RepairText>::empty());
    context.walk(txn, RepairNamespace::Page, &names, &mut findings);
    assert(repair_texts(findings@) =~= context.namespace_findings(RepairNamespace::Page, txn@.rows));
    context.walk(txn, RepairNamespace::Source, &names, &mut findings);
    context.walk(txn, RepairNamespace::Metadata, &names, &mut findings);
    context.walk(txn, RepairNamespace::Publication, &names, &mut findings);
    context.walk(txn, RepairNamespace::Project, &names, &mut findings);
    context.walk(txn, RepairNamespace::Upload, &names, &mut findings);
    context.walk(txn, RepairNamespace::Override, &names, &mut findings);
    context.walk(txn, RepairNamespace::Provenance, &names, &mut findings);
    sort_findings(findings)
}

impl TxnState {
    /// One fix is applied.
    pub open spec fn repaired(self, fix: FixText) -> Result<TxnState, MetaErrorText> {
        match fix {
            FixText::RemoveLocal { key } => Ok(self.erased(RowScope::Local, key)),
            FixText::RemoveCachedProject { index, project } => self.project_removed(RowScope::Local, index, project),
            FixText::RemoveCachedPage { page } => Ok(
                self.erased(RowScope::Local, key1(INDEX_PREFIX@, page)).erased(
                    RowScope::Local,
                    key1(FRESHNESS_PREFIX@, page),
                ),
            ),
            FixText::ReportOnly => Ok(self),
        }
    }

    /// The first `n` fixes are applied.
    pub open spec fn repaired_all(self, findings: Seq<RepairText>, n: int) -> Result<TxnState, MetaErrorText>
        decreases n,
    {
        if n <= 0 {
            Ok(self)
        } else {
            match self.repaired_all(findings, n - 1) {
                Err(error) => Err(error),
                Ok(s) => s.repaired(findings[n - 1].fix),
            }
        }
    }
}

proof fn repair_error_stays(s: TxnState, findings: Seq<RepairText>, n: int, m: int)
    requires
        0 <= n <= m,
        s.repaired_all(findings, n) is Err,
    ensures
        s.repaired_all(findings, m) == s.repaired_all(findings, n),
    decreases m,
{
    if n < m {
        repair_error_stays(s, findings, n, m - 1);
    }
}

fn apply(txn: &mut DriverTxn, fix: &RepairFix) -> (r: Result<(), MetaError>)
    ensures
        match old(txn)@.repaired(fix@) {
            Err(error) => r matches Err(e) && e@ == error && final(txn)@ == old(txn)@,
            Ok(state) => r is Ok && final(txn)@ == state,
        },
{
    match fix {
        RepairFix::RemoveLocal { key } => {
            let there: bool = txn.remove_row(RowScope::Local, key.as_str());
            Ok(())
        },
        RepairFix::RemoveCachedProject { index, project } => {
            match remove_cached_project_row(txn, index.as_str(), project.as_str()) {
                Ok(_) => Ok(()),
                Err(error) => Err(error),
            }
        },
        RepairFix::RemoveCachedPage { page } => {
            let row = index_key(page.as_str());
            let there: bool = txn.remove_row(RowScope::Local, row.as_str());
            let overlay = freshness_key(page.as_str());
            let also: bool = txn.remove_row(RowScope::Local, overlay.as_str());
            Ok(())
        },
        RepairFix::ReportOnly => Ok(()),
    }
}

/// Apply the actionable dispositions of a plan, in order.
pub fn apply_metadata_repair(txn: &mut DriverTxn, findings: &Vec<MetadataRepairFinding>) -> (r: Result<
    (),
    MetaError,
>)
    ensures
        match old(txn)@.repaired_all(repair_texts(findings@), findings@.len() as int) {
            Err(error) => r matches Err(e) && e@ == error && final(txn)@ == old(txn)@,
            Ok(state) => r is Ok && final(txn)@ == state,
        },
{
    let ghost start = txn@;
    let saved = txn.savepoint();
    let ghost all = repair_texts(findings@);
    let mut i: usize = 0;
    while i < findings.len()
        invariant
            i <= findings@.len(),
            start == old(txn)@,
            saved@ == start,
            all == repair_texts(findings@),
            all.len() == findings@.len(),
            start.repaired_all(all, i as int) == Ok::<TxnState, MetaErrorText>(txn@),
        decreases findings.len() - i,
    {
        assert(all[i as int] == findings@[i as int]@);
        proof {
            if start.repaired_all(all, i + 1) is Err {
                repair_error_stays(start, all, i + 1, all.len() as int);
            }
        }
        match apply(txn, &findings[i].fix) {
            Ok(_) => {},
            Err(error) => {
                *txn = saved;
                return Err(error);
            },
        }
        i = i + 1;
    }
    Ok(())
}

} // verus!
