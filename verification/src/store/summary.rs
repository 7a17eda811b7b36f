//! The per-index summary, and the rows that answer it.
//!
//! A summary asks a bounded question of a history without bound, so it is maintained as rows: every write
//! that adds, rewrites, or removes a project or upload row carries a per-index count row and one order row
//! per upload in the same transaction as the row it describes.
use vstd::prelude::*;
use vstd::utf8::{decode_utf8, encode_utf8, valid_utf8};

use super::keys::{
    count_key, key1, key2, key3, project_key, upload_key, COUNT_PREFIX, PROJECTS_PREFIX, RECENT_PREFIX, UPLOAD_PREFIX,
};
use super::txn::{opt_as_slice, opt_slice, DriverTxn, RowScope, TxnState};
use super::values::{record_str, MetaError, MetaErrorText};
use crate::outside::{
    is_json, json_string, json_string_text, json_text_at, json_text_under, json_u64_at, json_u64_under, json_valid,
    rfc3339_second, rfc3339_to_unix,
};
use crate::text::{
    before, bytes_clone, cut_first, decimal, decimal_text, digit, opt_as_str, opt_clone, opt_str, opt_text, parse_u64, split_once,
    u64_of,
};

verus! {

// ---------------------------------------------------------------------------------------------
// Counts
// ---------------------------------------------------------------------------------------------

/// One index's row counts, absent until its first project or upload.
#[derive(Debug, Clone, Copy, PartialEq, Eq, Structural)]
pub struct Counts {
    pub projects: u64,
    pub uploads: u64,
}

impl Default for Counts {
    fn default() -> (r: Self)
        ensures
            r == (Counts { projects: 0, uploads: 0 }),
    {
        Counts { projects: 0, uploads: 0 }
    }
}

/// The record of a pair of counts: a line for each.
pub open spec fn counts_record(counts: Counts) -> Seq<char> {
    decimal(counts.projects as nat) + "\n"@ + decimal(counts.uploads as nat)
}

/// Read the counts of a row. An absent row counts nothing.
pub open spec fn counts_read(key: Seq<char>, raw: Option<Seq<u8>>) -> Result<Counts, MetaErrorText> {
    match raw {
        None => Ok(Counts { projects: 0, uploads: 0 }),
        Some(raw) => if !valid_utf8(raw) {
            Err(MetaErrorText::Utf8 { key })
        } else {
            match cut_first(decode_utf8(raw), '\n') {
                None => Err(MetaErrorText::Missing { key, field: "uploads"@ }),
                Some((projects, uploads)) => match u64_of(projects) {
                    None => Err(MetaErrorText::Integer { key, field: "projects"@ }),
                    Some(projects) => match u64_of(uploads) {
                        None => Err(MetaErrorText::Integer { key, field: "uploads"@ }),
                        Some(uploads) => Ok(Counts { projects, uploads }),
                    },
                },
            }
        },
    }
}

/// `n` moved by `by`, held to 64 bits.
pub open spec fn shifted(n: u64, by: int) -> u64 {
    if n + by < 0 {
        0
    } else if n + by > u64::MAX {
        u64::MAX
    } else {
        (n + by) as u64
    }
}

fn shift(n: u64, by: i64) -> (r: u64)
    ensures
        r == shifted(n, by as int),
{
    let moved: i128 = n as i128 + by as i128;
    if moved < 0 {
        0
    } else if moved > u64::MAX as i128 {
        u64::MAX
    } else {
        moved as u64
    }
}

impl Counts {
    /// The counts moved by so many projects and uploads.
    pub open spec fn moved(self, projects: int, uploads: int) -> Counts {
        Counts { projects: shifted(self.projects, projects), uploads: shifted(self.uploads, uploads) }
    }

    /// Read the counts of a row.
    pub fn decode(key: &str, raw: Option<&[u8]>) -> (r: Result<Self, MetaError>)
        ensures
            match r {
                Ok(counts) => counts_read(key@, opt_slice(raw)) == Ok::<Counts, MetaErrorText>(counts),
                Err(error) => counts_read(key@, opt_slice(raw)) == Err::<Counts, MetaErrorText>(error@),
            },
    {
        let raw = match raw {
            Some(raw) => raw,
            None => {
                return Ok(Counts { projects: 0, uploads: 0 });
            },
        };
        let value = match record_str(key, bytes_clone(raw)) {
            Ok(value) => value,
            Err(error) => {
                return Err(error);
            },
        };
        let (projects, uploads) = match split_once(value.as_str(), '\n') {
            Some(pair) => pair,
            None => {
                return Err(MetaError::DriverRecordMissing { key: key.to_owned(), field: "uploads" });
            },
        };
        let projects: u64 = match parse_u64(projects) {
            Some(projects) => projects,
            None => {
                return Err(MetaError::DriverRecordInteger { key: key.to_owned(), field: "projects" });
            },
        };
        match parse_u64(uploads) {
            Some(uploads) => Ok(Counts { projects, uploads }),
            None => Err(MetaError::DriverRecordInteger { key: key.to_owned(), field: "uploads" }),
        }
    }

    /// The record of the counts.
    pub fn encode(self) -> (r: String)
        ensures
            r@ == counts_record(self),
    {
        let mut value = decimal_text(self.projects);
        value.append("\n");
        let uploads = decimal_text(self.uploads);
        value.append(uploads.as_str());
        value
    }

    /// The counts moved by so many projects and uploads.
    pub fn shifted(self, projects: i64, uploads: i64) -> (r: Self)
        ensures
            r == self.moved(projects as int, uploads as int),
    {
        Counts { projects: shift(self.projects, projects), uploads: shift(self.uploads, uploads) }
    }

    pub open spec fn sentence(self) -> Seq<char> {
        decimal(self.projects as nat) + " projects and "@ + decimal(self.uploads as nat) + " uploads"@
    }

    /// The counts in words.
    pub fn describe(self) -> (r: String)
        ensures
            r@ == self.sentence(),
    {
        let mut text = decimal_text(self.projects);
        text.append(" projects and ");
        let uploads = decimal_text(self.uploads);
        text.append(uploads.as_str());
        text.append(" uploads");
        text
    }
}

/// Counts are read back as they were written.
pub proof fn counts_read_back(key: Seq<char>, counts: Counts)
    ensures
        counts_read(key, Some(encode_utf8(counts_record(counts)))) == Ok::<Counts, MetaErrorText>(counts),
{
    let record = counts_record(counts);
    vstd::utf8::encode_utf8_valid_utf8(record);
    vstd::utf8::encode_utf8_decode_utf8(record);
    crate::text::decimal_reads_back(counts.projects);
    crate::text::decimal_reads_back(counts.uploads);
    crate::text::decimal_spells(counts.projects as nat);
    let line = decimal(counts.projects as nat);
    if line.contains('\n') {
        let i = choose|i: int| 0 <= i < line.len() && line[i] == '\n';
        assert(crate::text::is_digit(line[i]));
    }
    reveal_strlit("\n");
    assert("\n"@ =~= seq!['\n']);
    crate::text::first_index_of_joined(line, '\n', decimal(counts.uploads as nat));
}

impl TxnState {
    /// The counts of `index` as its row says them.
    pub open spec fn counts(self, index: Seq<char>) -> Result<Counts, MetaErrorText> {
        counts_read(key1(COUNT_PREFIX@, index), self.row(key1(COUNT_PREFIX@, index)))
    }

    /// The count row of `index` says `counts`. It goes away with the last row it counted.
    pub open spec fn counted(self, scope: RowScope, index: Seq<char>, counts: Counts) -> TxnState {
        if counts == (Counts { projects: 0, uploads: 0 }) {
            self.erased(scope, key1(COUNT_PREFIX@, index))
        } else {
            self.wrote(scope, key1(COUNT_PREFIX@, index), encode_utf8(counts_record(counts)))
        }
    }
}

fn read_counts(txn: &DriverTxn, index: &str) -> (r: Result<Counts, MetaError>)
    ensures
        match txn@.counts(index@) {
            Err(error) => r matches Err(e) && e@ == error,
            Ok(counts) => r matches Ok(found) && found == counts,
        },
{
    let key = count_key(index);
    let raw = txn.get(key.as_str());
    Counts::decode(key.as_str(), opt_as_slice(&raw))
}

fn write_counts(txn: &mut DriverTxn, scope: RowScope, index: &str, counts: Counts)
    ensures
        final(txn)@ == old(txn)@.counted(scope, index@, counts),
{
    let key = count_key(index);
    if counts == (Counts { projects: 0, uploads: 0 }) {
        let there: bool = txn.remove_row(scope, key.as_str());
    } else {
        let value = counts.encode();
        let fresh: bool = txn.write_row(scope, key.as_str(), value.as_str().as_bytes());
    }
}

// ---------------------------------------------------------------------------------------------
// Project rows
// ---------------------------------------------------------------------------------------------

impl TxnState {
    /// A project row has been written, and counted when it is new.
    pub open spec fn project_written(
        self,
        scope: RowScope,
        index: Seq<char>,
        normalized: Seq<char>,
        display: Seq<char>,
    ) -> Result<TxnState, MetaErrorText> {
        let key = key2(PROJECTS_PREFIX@, index, normalized);
        let written = self.wrote(scope, key, encode_utf8(display));
        if self.rows.contains_key(key) {
            Ok(written)
        } else {
            match self.counts(index) {
                Err(error) => Err(error),
                Ok(counts) => Ok(written.counted(scope, index, counts.moved(1, 0))),
            }
        }
    }

    /// A project row has been removed, and no longer counted.
    pub open spec fn project_removed(
        self,
        scope: RowScope,
        index: Seq<char>,
        normalized: Seq<char>,
    ) -> Result<TxnState, MetaErrorText> {
        let key = key2(PROJECTS_PREFIX@, index, normalized);
        if self.rows.contains_key(key) {
            match self.counts(index) {
                Err(error) => Err(error),
                Ok(counts) => Ok(self.erased(scope, key).counted(scope, index, counts.moved(-1, 0))),
            }
        } else {
            Ok(self)
        }
    }
}

fn write_project_row(txn: &mut DriverTxn, scope: RowScope, index: &str, normalized: &str, display: &str) -> (r: Result<
    (),
    MetaError,
>)
    ensures
        match old(txn)@.project_written(scope, index@, normalized@, display@) {
            Err(error) => r matches Err(e) && e@ == error && final(txn)@ == old(txn)@,
            Ok(state) => r is Ok && final(txn)@ == state,
        },
{
    let key = project_key(index, normalized);
    if txn.get(key.as_str()).is_some() {
        let fresh: bool = txn.write_row(scope, key.as_str(), display.as_bytes());
        return Ok(());
    }
    match read_counts(txn, index) {
        Err(error) => Err(error),
        Ok(counts) => {
            let fresh: bool = txn.write_row(scope, key.as_str(), display.as_bytes());
            write_counts(txn, scope, index, counts.shifted(1, 0));
            Ok(())
        },
    }
}

/// Record a published project on a hosted index, keeping the index's project count in step.
pub fn put_project_row(txn: &mut DriverTxn, index: &str, normalized: &str, display: &str) -> (r: Result<(), MetaError>)
    ensures
        match old(txn)@.project_written(RowScope::Replicated, index@, normalized@, display@) {
            Err(error) => r matches Err(e) && e@ == error && final(txn)@ == old(txn)@,
            Ok(state) => r is Ok && final(txn)@ == state,
        },
{
    write_project_row(txn, RowScope::Replicated, index, normalized, display)
}

/// Record a project a cached page brought in, whose marker no journal carries.
pub fn put_cached_project_row(txn: &mut DriverTxn, index: &str, normalized: &str, display: &str) -> (r: Result<
    (),
    MetaError,
>)
    ensures
        match old(txn)@.project_written(RowScope::Local, index@, normalized@, display@) {
            Err(error) => r matches Err(e) && e@ == error && final(txn)@ == old(txn)@,
            Ok(state) => r is Ok && final(txn)@ == state,
        },
{
    write_project_row(txn, RowScope::Local, index, normalized, display)
}

/// Drop a project's row, keeping the index's project count in step. Say whether it was there.
pub fn remove_project_row(txn: &mut DriverTxn, scope: RowScope, index: &str, normalized: &str) -> (r: Result<
    bool,
    MetaError,
>)
    ensures
        match old(txn)@.project_removed(scope, index@, normalized@) {
            Err(error) => r matches Err(e) && e@ == error && final(txn)@ == old(txn)@,
            Ok(state) => r matches Ok(removed) && final(txn)@ == state && removed == old(txn)@.rows.contains_key(
                key2(PROJECTS_PREFIX@, index@, normalized@),
            ),
        },
{
    let key = project_key(index, normalized);
    if txn.get(key.as_str()).is_none() {
        return Ok(false);
    }
    match read_counts(txn, index) {
        Err(error) => Err(error),
        Ok(counts) => {
            let removed: bool = txn.remove_row(scope, key.as_str());
            write_counts(txn, scope, index, counts.shifted(-1, 0));
            Ok(true)
        },
    }
}

/// Drop a cached project's marker, keeping the index's project count in step. Say whether it was there.
pub fn remove_cached_project_row(txn: &mut DriverTxn, index: &str, normalized: &str) -> (r: Result<bool, MetaError>)
    ensures
        match old(txn)@.project_removed(RowScope::Local, index@, normalized@) {
            Err(error) => r matches Err(e) && e@ == error && final(txn)@ == old(txn)@,
            Ok(state) => r matches Ok(removed) && final(txn)@ == state && removed == old(txn)@.rows.contains_key(
                key2(PROJECTS_PREFIX@, index@, normalized@),
            ),
        },
{
    remove_project_row(txn, RowScope::Local, index, normalized)
}

// ---------------------------------------------------------------------------------------------
// Order rows
// ---------------------------------------------------------------------------------------------

/// What a summary reports about one upload.
#[derive(Debug)]
pub struct RecentWrite {
    pub resource: String,
    pub artifact: String,
    pub group: String,
    pub written_at: Option<String>,
    pub size: Option<u64>,
}

/// A recent write, its text seen as characters.
pub struct RecentText {
    pub resource: Seq<char>,
    pub artifact: Seq<char>,
    pub group: Seq<char>,
    pub written_at: Option<Seq<char>>,
    pub size: Option<u64>,
}

impl RecentWrite {
    pub open spec fn view(self) -> RecentText {
        RecentText {
            resource: self.resource@,
            artifact: self.artifact@,
            group: self.group@,
            written_at: opt_text(self.written_at),
            size: self.size,
        }
    }

    /// A copy.
    pub fn copied(&self) -> (r: Self)
        ensures
            r@ == self@,
    {
        RecentWrite {
            resource: self.resource.clone(),
            artifact: self.artifact.clone(),
            group: self.group.clone(),
            written_at: opt_clone(&self.written_at),
            size: self.size,
        }
    }
}

/// What a stored upload record says of itself, as far as it says it.
pub struct UploadFields {
    pub filename: Option<String>,
    pub version: Option<String>,
    pub upload_time: Option<String>,
    pub size: Option<u64>,
}

/// The fields of an upload record, their text seen as characters.
pub struct UploadFieldsText {
    pub filename: Option<Seq<char>>,
    pub version: Option<Seq<char>>,
    pub upload_time: Option<Seq<char>>,
    pub size: Option<u64>,
}

impl UploadFields {
    pub open spec fn view(self) -> UploadFieldsText {
        UploadFieldsText {
            filename: opt_text(self.filename),
            version: opt_text(self.version),
            upload_time: opt_text(self.upload_time),
            size: self.size,
        }
    }
}

/// Where an upload record holds its file's name.
pub const FILENAME_POINTER: &'static str = "/file/filename";

/// Where an upload record holds its version.
pub const VERSION_POINTER: &'static str = "/version";

/// Where an upload record holds the time of its upload.
pub const UPLOAD_TIME_POINTER: &'static str = "/file/upload-time";

/// Where an upload record holds its file's size.
pub const SIZE_POINTER: &'static str = "/file/size";

/// The fields of the upload record `bytes`, or nothing when it is no JSON document.
pub open spec fn upload_fields(bytes: Seq<u8>) -> Option<UploadFieldsText> {
    if json_valid(bytes) {
        Some(
            UploadFieldsText {
                filename: json_text_under(bytes, FILENAME_POINTER@),
                version: json_text_under(bytes, VERSION_POINTER@),
                upload_time: json_text_under(bytes, UPLOAD_TIME_POINTER@),
                size: json_u64_under(bytes, SIZE_POINTER@),
            },
        )
    } else {
        None
    }
}

/// The fields of an upload record, or nothing when it is no JSON document.
pub fn read_upload_fields(bytes: &[u8]) -> (r: Option<UploadFields>)
    ensures
        match r {
            Some(fields) => upload_fields(bytes@) == Some(fields@),
            None => upload_fields(bytes@) is None,
        },
{
    if !is_json(bytes) {
        return None;
    }
    Some(
        UploadFields {
            filename: json_text_at(bytes, FILENAME_POINTER),
            version: json_text_at(bytes, VERSION_POINTER),
            upload_time: json_text_at(bytes, UPLOAD_TIME_POINTER),
            size: json_u64_at(bytes, SIZE_POINTER),
        },
    )
}

/// What a stored upload record says about itself, or nothing when it is no JSON document. A record that
/// names none of the fields still counts as a write; it just reports empty ones.
pub open spec fn recent_of(project: Seq<char>, fallback: Seq<char>, record: Seq<u8>) -> Option<RecentText> {
    match upload_fields(record) {
        None => None,
        Some(fields) => Some(recent_with(project, fallback, fields)),
    }
}

/// What the fields of an upload record say.
pub open spec fn recent_with(project: Seq<char>, fallback: Seq<char>, fields: UploadFieldsText) -> RecentText {
    RecentText {
        resource: project,
        artifact: match fields.filename {
            Some(filename) => filename,
            None => fallback,
        },
        group: match fields.version {
            Some(version) => version,
            None => Seq::empty(),
        },
        written_at: fields.upload_time,
        size: fields.size,
    }
}

/// What the fields of an upload record say.
pub fn recent_from_fields(project: &str, fallback_filename: &str, fields: UploadFields) -> (r: RecentWrite)
    ensures
        r@ == recent_with(project@, fallback_filename@, fields@),
{
    RecentWrite {
        resource: project.to_owned(),
        artifact: match fields.filename {
            Some(filename) => filename,
            None => fallback_filename.to_owned(),
        },
        group: match fields.version {
            Some(version) => version,
            None => String::new(),
        },
        written_at: fields.upload_time,
        size: fields.size,
    }
}

/// What a stored upload record says about itself.
pub fn recent_upload(project: &str, fallback_filename: &str, bytes: &[u8]) -> (r: Option<RecentWrite>)
    ensures
        match r {
            Some(recent) => recent_of(project@, fallback_filename@, bytes@) == Some(recent@),
            None => recent_of(project@, fallback_filename@, bytes@) is None,
        },
{
    match read_upload_fields(bytes) {
        Some(fields) => Some(recent_from_fields(project, fallback_filename, fields)),
        None => None,
    }
}

/// An optional string as JSON.
pub open spec fn json_opt_string(value: Option<Seq<char>>) -> Seq<char> {
    match value {
        Some(text) => json_string(text),
        None => "null"@,
    }
}

/// An optional string as JSON.
pub fn opt_string_json(value: Option<&str>) -> (r: String)
    ensures
        r@ == json_opt_string(opt_str(value)),
{
    match value {
        Some(text) => json_string_text(text),
        None => "null".to_owned(),
    }
}

/// The stored form of one recent write.
pub open spec fn json_recent(recent: RecentText) -> Seq<char> {
    "{\"resource\":"@ + json_string(recent.resource) + ",\"artifact\":"@ + json_string(recent.artifact)
        + ",\"group\":"@ + json_string(recent.group) + ",\"written_at\":"@ + json_opt_string(recent.written_at)
        + ",\"size\":"@ + (match recent.size {
        Some(size) => decimal(size as nat),
        None => "null"@,
    }) + "}"@
}

/// The stored form of one recent write.
pub fn recent_json(recent: &RecentWrite) -> (r: String)
    ensures
        r@ == json_recent(recent@),
{
    let mut out = "{\"resource\":".to_owned();
    let resource = json_string_text(recent.resource.as_str());
    out.append(resource.as_str());
    out.append(",\"artifact\":");
    let artifact = json_string_text(recent.artifact.as_str());
    out.append(artifact.as_str());
    out.append(",\"group\":");
    let group = json_string_text(recent.group.as_str());
    out.append(group.as_str());
    out.append(",\"written_at\":");
    let written_at = opt_string_json(opt_as_str(&recent.written_at));
    out.append(written_at.as_str());
    out.append(",\"size\":");
    match recent.size {
        Some(size) => {
            let number = decimal_text(size);
            out.append(number.as_str());
        },
        None => out.append("null"),
    }
    out.append("}");
    out
}

/// `n` in decimal, filled up with leading zeroes to `width` digits. Digits beyond the width are cut off.
pub open spec fn padded(n: nat, width: nat) -> Seq<char>
    decreases width,
{
    if width == 0 {
        Seq::empty()
    } else {
        padded(n / 10, (width - 1) as nat).push(digit((n % 10) as int))
    }
}

/// `n` in decimal, filled up with leading zeroes to twenty digits, which hold every 64-bit number.
pub fn padded_text(n: u64) -> (r: String)
    ensures
        r@ == padded(n as nat, 20),
{
    let v = padded_chars(n, 20);
    crate::text::text_of(&v)
}

fn padded_chars(n: u64, width: u8) -> (r: Vec<char>)
    ensures
        r@ == padded(n as nat, width as nat),
    decreases width,
{
    if width == 0 {
        let v: Vec<char> = Vec::new();
        assert(v@ =~= padded(n as nat, 0));
        v
    } else {
        let mut v = padded_chars(n / 10, width - 1);
        let d: u8 = (n % 10) as u8;
        v.push((48u8 + d) as char);
        v
    }
}

/// The number that sorts a Unix second descending: a later second has a smaller one.
pub open spec fn descending_rank(seconds: i64) -> u64 {
    (i64::MAX - seconds) as u64
}

/// Sorts behind every segment of a readable time, which all start with a zero.
pub const UNREADABLE_TIME_SEGMENT: &'static str = "100000000000000000000";

/// The segment that sorts an upload time descending inside an ascending key range. A time that cannot be
/// read sorts behind every readable one.
pub open spec fn time_segment(written_at: Option<Seq<char>>) -> Seq<char> {
    match written_at {
        Some(time) => second_segment(rfc3339_second(time)),
        None => second_segment(None),
    }
}

/// The segment of an optional second.
pub open spec fn second_segment(second: Option<i64>) -> Seq<char> {
    match second {
        Some(second) => "0"@ + padded(descending_rank(second) as nat, 20),
        None => UNREADABLE_TIME_SEGMENT@,
    }
}

/// The segment of an optional second.
pub fn segment_of_second(second: Option<i64>) -> (r: String)
    ensures
        r@ == second_segment(second),
{
    match second {
        Some(second) => {
            let rank: u64 = (i64::MAX as i128 - second as i128) as u64;
            let mut out = "0".to_owned();
            let digits = padded_text(rank);
            out.append(digits.as_str());
            out
        },
        None => UNREADABLE_TIME_SEGMENT.to_owned(),
    }
}

/// The segment that sorts an upload time descending.
pub fn order_segment(written_at: Option<&str>) -> (r: String)
    ensures
        r@ == time_segment(opt_str(written_at)),
{
    match written_at {
        Some(time) => segment_of_second(rfc3339_to_unix(time)),
        None => segment_of_second(None),
    }
}

/// The order range of one index. The name is terminated, so that the range of one index cannot swallow
/// that of another whose name it begins.
pub open spec fn order_range(index: Seq<char>) -> Seq<char> {
    RECENT_PREFIX@ + index + "\u{0}"@
}

/// The order range of one index.
pub fn order_prefix(index: &str) -> (r: String)
    ensures
        r@ == order_range(index@),
{
    let mut key = RECENT_PREFIX.to_owned();
    key.append(index);
    key.append("\u{0}");
    key
}

/// One upload's position in its index's order range: newest time first, then the filename the record
/// carries, then the project and stored filename that make the position unique.
pub open spec fn order_position(index: Seq<char>, recent: RecentText, filename: Seq<char>) -> Seq<char> {
    order_range(index) + time_segment(recent.written_at) + "/"@ + recent.artifact + "\u{0}"@ + recent.resource
        + "\u{0}"@ + filename
}

/// One upload's position in its index's order range.
pub fn order_key(index: &str, recent: &RecentWrite, filename: &str) -> (r: String)
    ensures
        r@ == order_position(index@, recent@, filename@),
{
    let mut key = order_prefix(index);
    let segment = order_segment(opt_as_str(&recent.written_at));
    key.append(segment.as_str());
    key.append("/");
    key.append(recent.artifact.as_str());
    key.append("\u{0}");
    key.append(recent.resource.as_str());
    key.append("\u{0}");
    key.append(filename);
    key
}

// ---------------------------------------------------------------------------------------------
// Upload rows
// ---------------------------------------------------------------------------------------------

impl TxnState {
    /// The order row that `record` held is gone. A record that never parsed never had one.
    pub open spec fn order_retired(
        self,
        index: Seq<char>,
        normalized: Seq<char>,
        filename: Seq<char>,
        record: Option<Seq<u8>>,
    ) -> TxnState {
        match record {
            None => self,
            Some(record) => match recent_of(normalized, filename, record) {
                None => self,
                Some(recent) => self.erased(RowScope::Replicated, order_position(index, recent, filename)),
            },
        }
    }

    /// The order row of `record` is there.
    pub open spec fn order_added(
        self,
        index: Seq<char>,
        normalized: Seq<char>,
        filename: Seq<char>,
        record: Seq<u8>,
    ) -> TxnState {
        match recent_of(normalized, filename, record) {
            None => self,
            Some(recent) => self.wrote(
                RowScope::Replicated,
                order_position(index, recent, filename),
                encode_utf8(json_recent(recent)),
            ),
        }
    }

    /// An upload row has been written: the position its record held is retired, a new row is counted, and
    /// the record takes its new position.
    pub open spec fn upload_written(
        self,
        index: Seq<char>,
        normalized: Seq<char>,
        filename: Seq<char>,
        record: Seq<u8>,
    ) -> Result<TxnState, MetaErrorText> {
        let key = key3(UPLOAD_PREFIX@, index, normalized, filename);
        let written = self.order_retired(index, normalized, filename, self.row(key)).wrote(
            RowScope::Replicated,
            key,
            record,
        );
        if self.rows.contains_key(key) {
            Ok(written.order_added(index, normalized, filename, record))
        } else {
            match self.counts(index) {
                Err(error) => Err(error),
                Ok(counts) => Ok(
                    written.counted(RowScope::Replicated, index, counts.moved(0, 1)).order_added(
                        index,
                        normalized,
                        filename,
                        record,
                    ),
                ),
            }
        }
    }

    /// An upload row has been removed: its position is retired, and it is no longer counted.
    pub open spec fn upload_removed(
        self,
        index: Seq<char>,
        normalized: Seq<char>,
        filename: Seq<char>,
        record: Seq<u8>,
    ) -> Result<TxnState, MetaErrorText> {
        let key = key3(UPLOAD_PREFIX@, index, normalized, filename);
        let removed = self.order_retired(index, normalized, filename, Some(record)).erased(RowScope::Replicated, key);
        match self.counts(index) {
            Err(error) => Err(error),
            Ok(counts) => Ok(removed.counted(RowScope::Replicated, index, counts.moved(0, -1))),
        }
    }
}

fn retire_order_row(txn: &mut DriverTxn, index: &str, normalized: &str, filename: &str, previous: Option<&[u8]>)
    ensures
        final(txn)@ == old(txn)@.order_retired(index@, normalized@, filename@, opt_slice(previous)),
{
    match previous {
        None => {},
        Some(record) => match recent_upload(normalized, filename, record) {
            None => {},
            Some(recent) => {
                let key = order_key(index, &recent, filename);
                let there: bool = txn.remove_row(RowScope::Replicated, key.as_str());
            },
        },
    }
}

/// Write one upload record, keeping the index's upload count and order row in step.
pub fn put_upload_row(txn: &mut DriverTxn, index: &str, normalized: &str, filename: &str, record: &[u8]) -> (r: Result<
    (),
    MetaError,
>)
    ensures
        match old(txn)@.upload_written(index@, normalized@, filename@, record@) {
            Err(error) => r matches Err(e) && e@ == error && final(txn)@ == old(txn)@,
            Ok(state) => r is Ok && final(txn)@ == state,
        },
{
    let key = upload_key(index, normalized, filename);
    let previous = txn.get(key.as_str());
    if previous.is_some() {
        retire_order_row(txn, index, normalized, filename, opt_as_slice(&previous));
        let fresh: bool = txn.write_row(RowScope::Replicated, key.as_str(), record);
    } else {
        let counts = match read_counts(txn, index) {
            Ok(counts) => counts,
            Err(error) => {
                return Err(error);
            },
        };
        let fresh: bool = txn.write_row(RowScope::Replicated, key.as_str(), record);
        write_counts(txn, RowScope::Replicated, index, counts.shifted(0, 1));
    }
    match recent_upload(normalized, filename, record) {
        Some(recent) => {
            let position = order_key(index, &recent, filename);
            let value = recent_json(&recent);
            let fresh: bool = txn.write_row(RowScope::Replicated, position.as_str(), value.as_str().as_bytes());
        },
        None => {},
    }
    Ok(())
}

/// Remove one upload record the caller has already read in this transaction, keeping the index's upload
/// count and order row in step.
pub fn remove_upload_row(txn: &mut DriverTxn, index: &str, normalized: &str, filename: &str, record: &[u8]) -> (r:
    Result<(), MetaError>)
    ensures
        match old(txn)@.upload_removed(index@, normalized@, filename@, record@) {
            Err(error) => r matches Err(e) && e@ == error && final(txn)@ == old(txn)@,
            Ok(state) => r is Ok && final(txn)@ == state,
        },
{
    let counts = match read_counts(txn, index) {
        Ok(counts) => counts,
        Err(error) => {
            return Err(error);
        },
    };
    retire_order_row(txn, index, normalized, filename, Some(record));
    let key = upload_key(index, normalized, filename);
    let there: bool = txn.remove_row(RowScope::Replicated, key.as_str());
    write_counts(txn, RowScope::Replicated, index, counts.shifted(0, -1));
    Ok(())
}

// ---------------------------------------------------------------------------------------------
// Laws of the order
// ---------------------------------------------------------------------------------------------

proof fn before_extends(x: Seq<char>, y: Seq<char>, c: char, d: char)
    requires
        x.len() == y.len(),
        before(x, y) || (x == y && c < d),
    ensures
        before(x.push(c), y.push(d)),
    decreases x.len(),
{
    let a = x.push(c);
    let b = y.push(d);
    if x.len() == 0 {
        assert(a[0] == c && b[0] == d);
    } else if x[0] == y[0] {
        assert(a.skip(1) =~= x.skip(1).push(c));
        assert(b.skip(1) =~= y.skip(1).push(d));
        before_extends(x.skip(1), y.skip(1), c, d);
        assert(a[0] == b[0]);
    } else {
        assert(a[0] == x[0] && b[0] == y[0]);
    }
}

proof fn padded_len(n: nat, width: nat)
    ensures
        padded(n, width).len() == width,
    decreases width,
{
    if width > 0 {
        padded_len(n / 10, (width - 1) as nat);
    }
}

pub open spec fn power_of_ten(width: nat) -> nat
    decreases width,
{
    if width == 0 {
        1
    } else {
        10 * power_of_ten((width - 1) as nat)
    }
}

proof fn padded_order(a: nat, b: nat, width: nat)
    requires
        a < b,
        b < power_of_ten(width),
    ensures
        before(padded(a, width), padded(b, width)),
    decreases width,
{
    if width > 0 {
        let w = (width - 1) as nat;
        padded_len(a / 10, w);
        padded_len(b / 10, w);
        assert(b / 10 < power_of_ten(w));
        if a / 10 < b / 10 {
            padded_order(a / 10, b / 10, w);
        } else {
            assert(a / 10 == b / 10);
            assert(a % 10 < b % 10);
        }
        before_extends(
            padded(a / 10, w),
            padded(b / 10, w),
            digit((a % 10) as int),
            digit((b % 10) as int),
        );
    }
}

/// A later upload sorts ahead of an earlier one, and one whose time can be read ahead of one whose time
/// cannot.
pub proof fn newer_uploads_sort_first(newer: i64, older: Option<i64>)
    requires
        older is Some ==> newer > older->0,
    ensures
        before(second_segment(Some(newer)), second_segment(older)),
{
    reveal_strlit("0");
    assert("0"@ =~= seq!['0']);
    let a = padded(descending_rank(newer) as nat, 20);
    let x = second_segment(Some(newer));
    assert(x[0] == '0');
    match older {
        Some(older) => {
            let b = padded(descending_rank(older) as nat, 20);
            reveal_with_fuel(power_of_ten, 21);
            assert(power_of_ten(20) == 100_000_000_000_000_000_000);
            padded_order(descending_rank(newer) as nat, descending_rank(older) as nat, 20);
            let y = second_segment(Some(older));
            assert(y[0] == '0');
            assert(x.skip(1) =~= a);
            assert(y.skip(1) =~= b);
        },
        None => {
            reveal_strlit("100000000000000000000");
            assert(UNREADABLE_TIME_SEGMENT@[0] == '1');
        },
    }
}

} // verus!
