//! The text of this ecosystem's records: what is written, and what is read back.
use vstd::prelude::*;

use super::keys::{
    FILE_PREFIX, METADATA_PREFIX, OVERRIDE_PREFIX, PROJECTS_PREFIX, PROVENANCE_PREFIX, PUBLICATION_PREFIX,
};
use crate::outside::{json_string, json_string_text, quoted, quoted_text, utf8_text};
use crate::text::{
    cut_first, decimal, decimal_reads_back, decimal_spells, decimal_text, first_index_bounds, first_index_of_joined,
    is_digit, opt_str, opt_text, parse_u64, split_once, starts_with, u64_of,
};

verus! {

/// Why a stored record cannot be read or a write is refused.
#[derive(Debug)]
pub enum MetaError {
    /// The record lacks the field.
    DriverRecordMissing { key: String, field: &'static str },
    /// The field of the record is no number.
    DriverRecordInteger { key: String, field: &'static str },
    /// The record is no text.
    DriverRecordUtf8 { key: String },
    /// The record is damaged.
    DriverRecordMalformed { key: String },
    /// The record was written in a form this build does not know.
    DriverRecordSchema { key: String, unknown: String },
    /// What the write rests on does not hold.
    DriverPrecondition(String),
}

/// A store error, its text seen as characters.
pub enum MetaErrorText {
    Missing { key: Seq<char>, field: Seq<char> },
    Integer { key: Seq<char>, field: Seq<char> },
    Utf8 { key: Seq<char> },
    Malformed { key: Seq<char> },
    Schema { key: Seq<char>, field: Seq<char> },
    Precondition(Seq<char>),
}

impl MetaError {
    pub open spec fn view(self) -> MetaErrorText {
        match self {
            MetaError::DriverRecordMissing { key, field } => MetaErrorText::Missing { key: key@, field: field@ },
            MetaError::DriverRecordInteger { key, field } => MetaErrorText::Integer { key: key@, field: field@ },
            MetaError::DriverRecordUtf8 { key } => MetaErrorText::Utf8 { key: key@ },
            MetaError::DriverRecordMalformed { key } => MetaErrorText::Malformed { key: key@ },
            MetaError::DriverRecordSchema { key, unknown } => MetaErrorText::Schema { key: key@, field: unknown@ },
            MetaError::DriverPrecondition(message) => MetaErrorText::Precondition(message@),
        }
    }
}

impl MetaErrorText {
    /// What an operator is told.
    pub open spec fn sentence(self) -> Seq<char> {
        match self {
            MetaErrorText::Missing { key, field } => "record "@ + quoted_text(key) + " has no "@ + field,
            MetaErrorText::Integer { key, field } => "record "@ + quoted_text(key) + " holds no number in "@ + field,
            MetaErrorText::Utf8 { key } => "record "@ + quoted_text(key) + " is not text"@,
            MetaErrorText::Malformed { key } => "record "@ + quoted_text(key) + " is damaged"@,
            MetaErrorText::Schema { key, field } => "record "@ + quoted_text(key) + " carries unknown "@ + field,
            MetaErrorText::Precondition(message) => message,
        }
    }
}

impl MetaError {
    /// What an operator is told.
    pub fn message(&self) -> (r: String)
        ensures
            r@ == self@.sentence(),
    {
        match self {
            MetaError::DriverRecordMissing { key, field } => about_record(key.as_str(), " has no ", field),
            MetaError::DriverRecordInteger { key, field } => about_record(
                key.as_str(),
                " holds no number in ",
                field,
            ),
            MetaError::DriverRecordUtf8 { key } => record_is(key.as_str(), " is not text"),
            MetaError::DriverRecordMalformed { key } => record_is(key.as_str(), " is damaged"),
            MetaError::DriverRecordSchema { key, unknown } => about_record(
                key.as_str(),
                " carries unknown ",
                unknown.as_str(),
            ),
            MetaError::DriverPrecondition(message) => message.clone(),
        }
    }
}

fn record_is(key: &str, what: &str) -> (r: String)
    ensures
        r@ == "record "@ + quoted_text(key@) + what@,
{
    let mut out = "record ".to_owned();
    let name = quoted(key);
    out.append(name.as_str());
    out.append(what);
    out
}

fn about_record(key: &str, what: &str, field: &str) -> (r: String)
    ensures
        r@ == "record "@ + quoted_text(key@) + what@ + field@,
{
    let mut out = record_is(key, what);
    out.append(field);
    out
}

/// What stands before the first `c`, or all of `s`.
pub open spec fn head(s: Seq<char>, c: char) -> Seq<char> {
    match cut_first(s, c) {
        Some((a, _)) => a,
        None => s,
    }
}

/// What stands behind the first `c`.
pub open spec fn tail(s: Seq<char>, c: char) -> Option<Seq<char>> {
    match cut_first(s, c) {
        Some((_, b)) => Some(b),
        None => None,
    }
}

/// The first line of `s`, and what stands behind it.
pub fn first_line<'a>(s: &'a str) -> (r: (&'a str, Option<&'a str>))
    ensures
        r.0@ == head(s@, '\n'),
        opt_str(r.1) == tail(s@, '\n'),
{
    match split_once(s, '\n') {
        Some((a, b)) => (a, Some(b)),
        None => (s, None),
    }
}

/// A line and what stands behind it are read back.
pub proof fn lines_read_back(line: Seq<char>, rest: Seq<char>)
    requires
        !line.contains('\n'),
    ensures
        head(line + "\n"@ + rest, '\n') == line,
        tail(line + "\n"@ + rest, '\n') == Some(rest),
{
    reveal_strlit("\n");
    assert("\n"@ =~= seq!['\n']);
    first_index_of_joined(line, '\n', rest);
}

/// A text without a line break is its own first line.
pub proof fn single_line_reads_back(line: Seq<char>)
    requires
        !line.contains('\n'),
    ensures
        head(line, '\n') == line,
        tail(line, '\n') is None,
{
    first_index_bounds(line, '\n');
}

/// Decode a stored record that its namespace defines as text. A present row that is not text is damage,
/// not absence.
pub fn record_str(key: &str, raw: Vec<u8>) -> (r: Result<String, MetaError>)
    ensures
        match r {
            Ok(text) => vstd::utf8::valid_utf8(raw@) && text@ == vstd::utf8::decode_utf8(raw@),
            Err(error) => !vstd::utf8::valid_utf8(raw@) && error@ == (MetaErrorText::Utf8 { key: key@ }),
        },
{
    match utf8_text(raw) {
        Some(text) => Ok(text),
        None => Err(MetaError::DriverRecordUtf8 { key: key.to_owned() }),
    }
}

// ---------------------------------------------------------------------------------------------
// File sources
// ---------------------------------------------------------------------------------------------

/// The upstream source for a cached artifact digest.
#[derive(Debug)]
pub struct FileSource {
    pub url: String,
    pub source: String,
    pub size: Option<u64>,
    /// The named routed upstream that advertised this artifact.
    pub upstream: Option<String>,
}

/// A file source, its text seen as characters.
pub struct FileSourceText {
    pub url: Seq<char>,
    pub source: Seq<char>,
    pub size: Option<u64>,
    pub upstream: Option<Seq<char>>,
}

impl FileSource {
    pub open spec fn view(self) -> FileSourceText {
        FileSourceText {
            url: self.url@,
            source: self.source@,
            size: self.size,
            upstream: opt_text(self.upstream),
        }
    }
}

/// The spelling of an optional size.
pub open spec fn size_line(size: Option<u64>) -> Seq<char> {
    match size {
        Some(size) => decimal(size as nat),
        None => Seq::empty(),
    }
}

/// The record of a file source: a line for each field, the last ones only as far as they are needed.
pub open spec fn file_source_record(source: FileSourceText) -> Seq<char> {
    let start = source.url + "\n"@ + source.source;
    match source.upstream {
        Some(upstream) => start + "\n"@ + size_line(source.size) + "\n"@ + upstream,
        None => match source.size {
            Some(size) => start + "\n"@ + decimal(size as nat),
            None => start,
        },
    }
}

/// Write a file source.
pub fn file_source_value(url: &str, source: &str, size: Option<u64>, upstream: Option<&str>) -> (r: String)
    ensures
        r@ == file_source_record(
            FileSourceText { url: url@, source: source@, size, upstream: opt_str(upstream) },
        ),
{
    let mut value = url.to_owned();
    value.append("\n");
    value.append(source);
    match upstream {
        Some(upstream) => {
            value.append("\n");
            match size {
                Some(size) => {
                    let text = decimal_text(size);
                    value.append(text.as_str());
                },
                None => {
                    let empty = String::new();
                    value.append(empty.as_str());
                },
            }
            value.append("\n");
            value.append(upstream);
        },
        None => match size {
            Some(size) => {
                let text = decimal_text(size);
                value.append("\n");
                value.append(text.as_str());
            },
            None => {},
        },
    }
    value
}

/// An upstream field: an empty one names no upstream.
pub open spec fn upstream_field(field: Option<Seq<char>>) -> Option<Seq<char>> {
    match field {
        Some(text) => if text.len() > 0 {
            Some(text)
        } else {
            None
        },
        None => None,
    }
}

/// Read a file source.
pub open spec fn file_source_read(key: Seq<char>, value: Seq<char>) -> Result<FileSourceText, MetaErrorText> {
    match tail(value, '\n') {
        None => Err(MetaErrorText::Missing { key, field: "source"@ }),
        Some(rest) => match tail(rest, '\n') {
            None => Ok(
                FileSourceText { url: head(value, '\n'), source: head(rest, '\n'), size: None, upstream: None },
            ),
            Some(more) => {
                let size = head(more, '\n');
                if size.len() > 0 && u64_of(size) is None {
                    Err(MetaErrorText::Integer { key, field: "size"@ })
                } else {
                    Ok(
                        FileSourceText {
                            url: head(value, '\n'),
                            source: head(rest, '\n'),
                            size: if size.len() > 0 {
                                u64_of(size)
                            } else {
                                None
                            },
                            upstream: upstream_field(tail(more, '\n')),
                        },
                    )
                }
            },
        },
    }
}

/// Read a file source.
pub fn split_file_source(key: &str, value: &str) -> (r: Result<FileSource, MetaError>)
    ensures
        match r {
            Ok(source) => file_source_read(key@, value@) == Ok::<FileSourceText, MetaErrorText>(source@),
            Err(error) => file_source_read(key@, value@) == Err::<FileSourceText, MetaErrorText>(error@),
        },
{
    let (url, rest) = first_line(value);
    let rest = match rest {
        Some(rest) => rest,
        None => {
            return Err(MetaError::DriverRecordMissing { key: key.to_owned(), field: "source" });
        },
    };
    let (source, more) = first_line(rest);
    let more = match more {
        Some(more) => more,
        None => {
            return Ok(FileSource { url: url.to_owned(), source: source.to_owned(), size: None, upstream: None });
        },
    };
    let (size_text, upstream) = first_line(more);
    let size: Option<u64> = if size_text.is_empty() {
        None
    } else {
        match parse_u64(size_text) {
            Some(size) => Some(size),
            None => {
                return Err(MetaError::DriverRecordInteger { key: key.to_owned(), field: "size" });
            },
        }
    };
    let upstream: Option<String> = match upstream {
        Some(upstream) => {
            if upstream.is_empty() {
                None
            } else {
                Some(upstream.to_owned())
            }
        },
        None => None,
    };
    Ok(FileSource { url: url.to_owned(), source: source.to_owned(), size, upstream })
}

proof fn decimal_has_no_line_break(n: nat)
    ensures
        !decimal(n).contains('\n'),
        decimal(n).len() > 0,
{
    decimal_spells(n);
    if decimal(n).contains('\n') {
        let i = choose|i: int| 0 <= i < decimal(n).len() && decimal(n)[i] == '\n';
        assert(is_digit(decimal(n)[i]));
    }
}

/// A file source is read back as it was written, as long as its URL and its index name are single lines
/// and a named upstream has a name.
pub proof fn file_source_reads_back(key: Seq<char>, source: FileSourceText)
    requires
        !source.url.contains('\n'),
        !source.source.contains('\n'),
        source.upstream is Some ==> source.upstream->0.len() > 0,
    ensures
        file_source_read(key, file_source_record(source)) == Ok::<FileSourceText, MetaErrorText>(source),
{
    let record = file_source_record(source);
    match source.upstream {
        Some(upstream) => {
            let more = size_line(source.size) + "\n"@ + upstream;
            let rest = source.source + "\n"@ + more;
            assert(record =~= source.url + "\n"@ + rest);
            lines_read_back(source.url, rest);
            lines_read_back(source.source, more);
            if source.size is Some {
                decimal_has_no_line_break(source.size->0 as nat);
                decimal_reads_back(source.size->0);
            }
            lines_read_back(size_line(source.size), upstream);
        },
        None => match source.size {
            Some(size) => {
                let more = decimal(size as nat);
                let rest = source.source + "\n"@ + more;
                assert(record =~= source.url + "\n"@ + rest);
                lines_read_back(source.url, rest);
                lines_read_back(source.source, more);
                decimal_has_no_line_break(size as nat);
                decimal_reads_back(size);
                single_line_reads_back(more);
            },
            None => {
                lines_read_back(source.url, source.source);
                single_line_reads_back(source.source);
            },
        },
    }
}

// ---------------------------------------------------------------------------------------------
// Publications
// ---------------------------------------------------------------------------------------------

/// The metadata sidecar one cached index advertised for one file, with the credentials that reach it.
#[derive(Debug)]
pub struct MetadataClaim {
    /// The sidecar URL the publishing index advertised.
    pub url: String,
    /// The sidecar's own SHA-256, which the page advertises and an installer verifies.
    pub metadata_sha256: String,
    /// The configured index whose credentials reach `url`.
    pub source: String,
    /// The named routed upstream that advertised the file, when the source routes to several.
    pub upstream: Option<String>,
}

/// What one index's page said about a file's metadata sidecar.
///
/// A resolver walks a virtual index's layers in shadow order and stops at the first layer that published
/// the file. [`FilePublication::Unclaimed`] is what makes that stop meaningful: the winning layer listed
/// the file and advertised no sidecar, so a shadowed layer's claim must not be inherited.
#[derive(Debug)]
pub enum FilePublication {
    /// The page advertised a sidecar.
    Claimed(MetadataClaim),
    /// The page listed the file with no sidecar.
    Unclaimed,
}

/// A sidecar claim, its text seen as characters.
pub struct ClaimText {
    pub url: Seq<char>,
    pub metadata_sha256: Seq<char>,
    pub source: Seq<char>,
    pub upstream: Option<Seq<char>>,
}

impl FilePublication {
    pub open spec fn view(self) -> Option<ClaimText> {
        match self {
            FilePublication::Claimed(claim) => Some(
                ClaimText {
                    url: claim.url@,
                    metadata_sha256: claim.metadata_sha256@,
                    source: claim.source@,
                    upstream: opt_text(claim.upstream),
                },
            ),
            FilePublication::Unclaimed => None,
        }
    }
}

/// The record of a publication: a line for each field, or the empty record when no sidecar is claimed.
pub open spec fn publication_record(claim: Option<ClaimText>) -> Seq<char> {
    match claim {
        Some(claim) => claim.url + "\n"@ + claim.metadata_sha256 + "\n"@ + claim.source + "\n"@ + (
        match claim.upstream {
            Some(upstream) => upstream,
            None => Seq::empty(),
        }),
        None => Seq::empty(),
    }
}

/// The claim that a page's sidecar pair makes.
pub open spec fn claim_of(
    metadata: Option<(String, String)>,
    source: Seq<char>,
    upstream: Option<Seq<char>>,
) -> Option<ClaimText> {
    match metadata {
        Some((url, metadata_sha256)) => Some(
            ClaimText { url: url@, metadata_sha256: metadata_sha256@, source, upstream },
        ),
        None => None,
    }
}

/// Write a publication.
pub fn publication_value(metadata: &Option<(String, String)>, source: &str, upstream: Option<&str>) -> (r: String)
    ensures
        r@ == publication_record(claim_of(*metadata, source@, opt_str(upstream))),
{
    match metadata {
        Some((url, metadata_sha256)) => {
            let mut value = url.clone();
            value.append("\n");
            value.append(metadata_sha256.as_str());
            value.append("\n");
            value.append(source);
            value.append("\n");
            match upstream {
                Some(upstream) => value.append(upstream),
                None => {
                    let empty = String::new();
                    value.append(empty.as_str());
                },
            }
            value
        },
        None => String::new(),
    }
}

/// Read a publication.
pub open spec fn publication_read(key: Seq<char>, value: Seq<char>) -> Result<Option<ClaimText>, MetaErrorText> {
    if value.len() == 0 {
        Ok(None)
    } else {
        match tail(value, '\n') {
            None => Err(MetaErrorText::Missing { key, field: "metadata_sha256"@ }),
            Some(rest) => match tail(rest, '\n') {
                None => Err(MetaErrorText::Missing { key, field: "source"@ }),
                Some(more) => match tail(more, '\n') {
                    None => Err(MetaErrorText::Missing { key, field: "upstream"@ }),
                    Some(upstream) => Ok(
                        Some(
                            ClaimText {
                                url: head(value, '\n'),
                                metadata_sha256: head(rest, '\n'),
                                source: head(more, '\n'),
                                upstream: upstream_field(Some(upstream)),
                            },
                        ),
                    ),
                },
            },
        }
    }
}

/// Read a publication.
pub fn split_publication(key: &str, value: &str) -> (r: Result<FilePublication, MetaError>)
    ensures
        match r {
            Ok(publication) => publication_read(key@, value@) == Ok::<Option<ClaimText>, MetaErrorText>(publication@),
            Err(error) => publication_read(key@, value@) == Err::<Option<ClaimText>, MetaErrorText>(error@),
        },
{
    if value.is_empty() {
        return Ok(FilePublication::Unclaimed);
    }
    let (url, rest) = first_line(value);
    let rest = match rest {
        Some(rest) => rest,
        None => {
            return Err(MetaError::DriverRecordMissing { key: key.to_owned(), field: "metadata_sha256" });
        },
    };
    let (metadata_sha256, more) = first_line(rest);
    let more = match more {
        Some(more) => more,
        None => {
            return Err(MetaError::DriverRecordMissing { key: key.to_owned(), field: "source" });
        },
    };
    let (source, upstream) = first_line(more);
    let upstream = match upstream {
        Some(upstream) => upstream,
        None => {
            return Err(MetaError::DriverRecordMissing { key: key.to_owned(), field: "upstream" });
        },
    };
    Ok(
        FilePublication::Claimed(
            MetadataClaim {
                url: url.to_owned(),
                metadata_sha256: metadata_sha256.to_owned(),
                source: source.to_owned(),
                upstream: if upstream.is_empty() {
                    None
                } else {
                    Some(upstream.to_owned())
                },
            },
        ),
    )
}

/// A publication is read back as it was written, as long as its fields are single lines and a named
/// upstream has a name.
pub proof fn publication_reads_back(key: Seq<char>, claim: Option<ClaimText>)
    requires
        claim is Some ==> !claim->0.url.contains('\n') && !claim->0.metadata_sha256.contains('\n')
            && !claim->0.source.contains('\n') && (claim->0.upstream is Some ==> claim->0.upstream->0.len() > 0),
    ensures
        publication_read(key, publication_record(claim)) == Ok::<Option<ClaimText>, MetaErrorText>(claim),
{
    match claim {
        Some(c) => {
            let upstream = match c.upstream {
                Some(upstream) => upstream,
                None => Seq::empty(),
            };
            let more = c.source + "\n"@ + upstream;
            let rest = c.metadata_sha256 + "\n"@ + more;
            assert(publication_record(claim) =~= c.url + "\n"@ + rest);
            reveal_strlit("\n");
            assert(publication_record(claim).len() > 0);
            lines_read_back(c.url, rest);
            lines_read_back(c.metadata_sha256, more);
            lines_read_back(c.source, upstream);
        },
        None => {},
    }
}

// ---------------------------------------------------------------------------------------------
// Provenance references
// ---------------------------------------------------------------------------------------------

/// The version of the reference form that is written.
pub const PROVENANCE_REFERENCE_VERSION: u64 = 1;

/// The record of a verified provenance reference.
pub open spec fn provenance_record(sha256: Seq<char>, size: u64) -> Seq<char> {
    "{\"version\":1,\"sha256\":"@ + json_string(sha256) + ",\"size\":"@ + decimal(size as nat) + "}"@
}

/// Write a provenance reference.
pub fn provenance_value(provenance_sha256: &str, size: u64) -> (r: String)
    ensures
        r@ == provenance_record(provenance_sha256@, size),
{
    let mut value = "{\"version\":1,\"sha256\":".to_owned();
    let digest = json_string_text(provenance_sha256);
    value.append(digest.as_str());
    value.append(",\"size\":");
    let number = decimal_text(size);
    value.append(number.as_str());
    value.append("}");
    value
}

/// A decoded versioned reference.
#[derive(Debug)]
pub struct VersionedProvenanceReference {
    pub version: u64,
    pub sha256: String,
    pub size: u64,
}

/// A stored provenance reference. It says whether the publisher's identity was verified.
#[derive(Debug)]
pub enum StoredProvenanceReference {
    Verified { sha256: String, size: u64 },
    Legacy { sha256: String, size: u64 },
}

/// A stored reference, its text seen as characters.
pub struct ReferenceText {
    pub verified: bool,
    pub sha256: Seq<char>,
    pub size: u64,
}

impl StoredProvenanceReference {
    pub open spec fn view(self) -> ReferenceText {
        match self {
            StoredProvenanceReference::Verified { sha256, size } => ReferenceText {
                verified: true,
                sha256: sha256@,
                size,
            },
            StoredProvenanceReference::Legacy { sha256, size } => ReferenceText {
                verified: false,
                sha256: sha256@,
                size,
            },
        }
    }

    /// The digest of the referenced bundle.
    pub fn sha256(&self) -> (r: &str)
        ensures
            r@ == self@.sha256,
    {
        match self {
            StoredProvenanceReference::Verified { sha256, .. } => sha256.as_str(),
            StoredProvenanceReference::Legacy { sha256, .. } => sha256.as_str(),
        }
    }

    /// The digest and length of a bundle whose publisher was verified.
    pub fn verified(&self) -> (r: Option<(&str, u64)>)
        ensures
            match r {
                Some((sha256, size)) => self@.verified && self@.sha256 == sha256@ && self@.size == size,
                None => !self@.verified,
            },
    {
        match self {
            StoredProvenanceReference::Verified { sha256, size } => Some((sha256.as_str(), *size)),
            StoredProvenanceReference::Legacy { .. } => None,
        }
    }
}

/// Read a provenance reference. `decoded` is the versioned form that a record which starts with a brace
/// holds, when it decodes.
pub open spec fn provenance_read(
    key: Seq<char>,
    value: Seq<char>,
    decoded: Option<(u64, Seq<char>, u64)>,
) -> Result<ReferenceText, MetaErrorText> {
    if "{"@.is_prefix_of(value) {
        match decoded {
            None => Err(MetaErrorText::Malformed { key }),
            Some((version, sha256, size)) => if version != PROVENANCE_REFERENCE_VERSION {
                Err(MetaErrorText::Schema { key, field: "version "@ + decimal(version as nat) })
            } else {
                Ok(ReferenceText { verified: true, sha256, size })
            },
        }
    } else {
        match cut_first(value, '\n') {
            None => Err(MetaErrorText::Missing { key, field: "size"@ }),
            Some((sha256, size)) => match u64_of(size) {
                None => Err(MetaErrorText::Integer { key, field: "size"@ }),
                Some(size) => Ok(ReferenceText { verified: false, sha256, size }),
            },
        }
    }
}

/// A decoded reference, its text seen as characters.
pub open spec fn decoded_reference(decoded: Option<VersionedProvenanceReference>) -> Option<(u64, Seq<char>, u64)> {
    match decoded {
        Some(reference) => Some((reference.version, reference.sha256@, reference.size)),
        None => None,
    }
}

/// Read a provenance record, keeping whether its publisher identity was verified.
pub fn split_provenance_value(key: &str, value: &str, decoded: Option<VersionedProvenanceReference>) -> (r: Result<
    StoredProvenanceReference,
    MetaError,
>)
    ensures
        match r {
            Ok(reference) => provenance_read(key@, value@, decoded_reference(decoded)) == Ok::<
                ReferenceText,
                MetaErrorText,
            >(reference@),
            Err(error) => provenance_read(key@, value@, decoded_reference(decoded)) == Err::<
                ReferenceText,
                MetaErrorText,
            >(error@),
        },
{
    if starts_with(value, "{") {
        let reference = match decoded {
            Some(reference) => reference,
            None => {
                return Err(MetaError::DriverRecordMalformed { key: key.to_owned() });
            },
        };
        if reference.version != PROVENANCE_REFERENCE_VERSION {
            let mut field = "version ".to_owned();
            let number = decimal_text(reference.version);
            field.append(number.as_str());
            return Err(MetaError::DriverRecordSchema { key: key.to_owned(), unknown: field });
        }
        return Ok(StoredProvenanceReference::Verified { sha256: reference.sha256, size: reference.size });
    }
    let (sha256, size) = match split_once(value, '\n') {
        Some(pair) => pair,
        None => {
            return Err(MetaError::DriverRecordMissing { key: key.to_owned(), field: "size" });
        },
    };
    match parse_u64(size) {
        Some(size) => Ok(StoredProvenanceReference::Legacy { sha256: sha256.to_owned(), size }),
        None => Err(MetaError::DriverRecordInteger { key: key.to_owned(), field: "size" }),
    }
}

// ---------------------------------------------------------------------------------------------
// Namespaces of text records
// ---------------------------------------------------------------------------------------------

/// A namespace whose records are text, named so that a repair pass can walk each one in turn.
#[derive(Debug, Clone, Copy, PartialEq, Eq, Structural)]
pub enum PypiRecords {
    FileUrl,
    Metadata,
    Publication,
    Project,
    Override,
    Provenance,
}

impl PypiRecords {
    pub open spec fn prefix_text(self) -> Seq<char> {
        match self {
            PypiRecords::FileUrl => FILE_PREFIX@,
            PypiRecords::Metadata => METADATA_PREFIX@,
            PypiRecords::Publication => PUBLICATION_PREFIX@,
            PypiRecords::Project => PROJECTS_PREFIX@,
            PypiRecords::Override => OVERRIDE_PREFIX@,
            PypiRecords::Provenance => PROVENANCE_PREFIX@,
        }
    }

    /// The prefix of the namespace's keys.
    pub fn prefix(self) -> (r: &'static str)
        ensures
            r@ == self.prefix_text(),
    {
        match self {
            PypiRecords::FileUrl => FILE_PREFIX,
            PypiRecords::Metadata => METADATA_PREFIX,
            PypiRecords::Publication => PUBLICATION_PREFIX,
            PypiRecords::Project => PROJECTS_PREFIX,
            PypiRecords::Override => OVERRIDE_PREFIX,
            PypiRecords::Provenance => PROVENANCE_PREFIX,
        }
    }

    pub open spec fn label_text(self) -> Seq<char> {
        match self {
            PypiRecords::FileUrl => "file-url"@,
            PypiRecords::Metadata => "pep658"@,
            PypiRecords::Publication => "publication"@,
            PypiRecords::Project => "project"@,
            PypiRecords::Override => "override"@,
            PypiRecords::Provenance => "provenance"@,
        }
    }

    /// The name a report prints for this namespace.
    pub fn label(self) -> (r: &'static str)
        ensures
            r@ == self.label_text(),
    {
        match self {
            PypiRecords::FileUrl => "file-url",
            PypiRecords::Metadata => "pep658",
            PypiRecords::Publication => "publication",
            PypiRecords::Project => "project",
            PypiRecords::Override => "override",
            PypiRecords::Provenance => "provenance",
        }
    }
}

} // verus!
