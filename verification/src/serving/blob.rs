//! Serving a file's bytes: the barriers in front of them, conditional requests, ranges, and sidecars.
use vstd::prelude::*;

use crate::digest::{is_digest, valid_digest};
use crate::policy::{PolicyAction, PolicyDenial};
use crate::policy_engine::{FileFacts, Policy};
use crate::serving::reply::{
    missing, not_found, plain, reply, Reply, ReplyText, BAD_REQUEST, NOT_FOUND, NOT_MODIFIED, OK, PARTIAL_CONTENT,
};
use crate::serving::response::{
    cache_error_response, error_reply, file_context, CacheContext, CacheError, CacheErrorKind, ContextText, IMMUTABLE,
};
use crate::simple::meta::ProjectStatus;
use crate::outside::{quoted, quoted_text};
use crate::text::{cut_first, cut_suffix, decimal, decimal_text, opt_text, split_once, strip_suffix};

verus! {

// ---------------------------------------------------------------------------------------------
// The target and the barriers
// ---------------------------------------------------------------------------------------------

/// What a file path addresses.
pub enum FileTarget {
    Answer(Reply),
    File { digest: String, filename: String },
}

/// The digest and the raw filename of a file path.
pub fn file_path_parts<'a>(file: &'a str) -> (r: Option<(&'a str, &'a str)>)
    ensures
        match r {
            Some((digest, filename)) => cut_first(file@, '/') == Some((digest@, filename@)),
            None => cut_first(file@, '/') is None,
        },
{
    split_once(file, '/')
}

/// Whether `r` is what a file path addresses.
pub open spec fn is_file_target(
    file: Seq<char>,
    filename: Result<String, String>,
    invalid_digest: Seq<char>,
    r: FileTarget,
) -> bool {
    match cut_first(file, '/') {
        None => r matches FileTarget::Answer(answer) && answer@ == missing(),
        Some((digest, _)) => if !is_digest(digest) {
            r matches FileTarget::Answer(answer) && answer@ == plain(BAD_REQUEST, invalid_digest)
        } else {
            match filename {
                Err(message) => r matches FileTarget::Answer(answer) && answer@ == plain(BAD_REQUEST, message@),
                Ok(name) => r matches FileTarget::File { digest: d, filename: f } && d@ == digest && f@ == name@,
            }
        },
    }
}

/// Read a file path, of which `filename` is the decoded filename or why it is unsafe. `invalid_digest` is
/// what a caller is told of a digest that is none: an artifact is addressed by its digest, so a bad one is
/// the caller's error, not a missing file.
pub fn file_target(file: &str, filename: &Result<String, String>, invalid_digest: &str) -> (r: FileTarget)
    ensures
        is_file_target(file@, *filename, invalid_digest@, r),
{
    let digest = match split_once(file, '/') {
        Some((digest, _)) => digest,
        None => {
            return FileTarget::Answer(not_found());
        },
    };
    if !valid_digest(digest) {
        return FileTarget::Answer(reply(BAD_REQUEST, invalid_digest));
    }
    match filename {
        Err(message) => FileTarget::Answer(reply(BAD_REQUEST, message.as_str())),
        Ok(name) => FileTarget::File { digest: digest.to_owned(), filename: name.clone() },
    }
}

/// Why a download is refused.
pub enum DownloadRefusal {
    /// The project's status withholds its files.
    Withheld { filename: String, status: ProjectStatus },
    Policy(PolicyDenial),
}

/// What the barrier before an artifact's bytes comes to.
pub enum Barrier {
    Open,
    Refused(DownloadRefusal),
    Failed(CacheError),
}

/// Whether `r` is what the barrier comes to, for a download of `filename`.
pub open spec fn is_judged(
    filename: Seq<char>,
    status: Result<ProjectStatus, CacheError>,
    published: Result<bool, CacheError>,
    denial: Result<Option<PolicyDenial>, CacheError>,
    not_found: Seq<char>,
    r: Barrier,
) -> bool {
    match status {
        Err(error) => r == Barrier::Failed(error),
        Ok(status) => if status is Quarantined {
            r matches Barrier::Refused(DownloadRefusal::Withheld { filename: f, status: s }) && f@ == filename && s
                == status
        } else {
            match published {
                Err(error) => r == Barrier::Failed(error),
                Ok(false) => r matches Barrier::Failed(error) && error.kind is FileNotFound && error.message@
                    == not_found,
                Ok(true) => match denial {
                    Err(error) => r == Barrier::Failed(error),
                    Ok(Some(denial)) => r == Barrier::Refused(DownloadRefusal::Policy(denial)),
                    Ok(None) => r == Barrier::Open,
                },
            }
        },
    }
}

/// The barrier before an artifact's bytes, which every route that releases them passes first: the project's
/// stored status, then its membership of this index, then the index's serve policy. `not_found` is what a
/// missing file is told as.
///
/// Status comes first, or a quarantine would answer as a missing file rather than with its own refusal.
/// Membership comes ahead of policy, so a caller who pairs a foreign digest with a filename of their choosing
/// gets no policy decision made on that name.
pub fn download_refusal(
    filename: &str,
    status: Result<ProjectStatus, CacheError>,
    published: Result<bool, CacheError>,
    denial: Result<Option<PolicyDenial>, CacheError>,
    not_found: &str,
) -> (r: Barrier)
    ensures
        is_judged(filename@, status, published, denial, not_found@, r),
{
    let status = match status {
        Ok(status) => status,
        Err(error) => {
            return Barrier::Failed(error);
        },
    };
    if !status.offers_downloads() {
        return Barrier::Refused(DownloadRefusal::Withheld { filename: filename.to_owned(), status });
    }
    match published {
        Err(error) => {
            return Barrier::Failed(error);
        },
        Ok(false) => {
            return Barrier::Failed(CacheError { kind: CacheErrorKind::FileNotFound, message: not_found.to_owned() });
        },
        Ok(true) => {},
    }
    match denial {
        Err(error) => Barrier::Failed(error),
        Ok(Some(denial)) => Barrier::Refused(DownloadRefusal::Policy(denial)),
        Ok(None) => Barrier::Open,
    }
}

/// A file that another index published is answered in the very bytes that answer a digest no index knows,
/// whatever policy says of its name: the routes tell nobody what a private index holds.
pub proof fn foreign_files_read_as_missing(
    filename: Seq<char>,
    status: ProjectStatus,
    denial: Result<Option<PolicyDenial>, CacheError>,
    not_found: Seq<char>,
    r: Barrier,
    unknown: CacheError,
    context: ContextText,
    action: Seq<char>,
)
    requires
        !(status is Quarantined),
        is_judged(filename, Ok(status), Ok(false), denial, not_found, r),
        unknown.kind is FileNotFound,
        unknown.message@ == not_found,
    ensures
        r matches Barrier::Failed(error) && error_reply(error, context, action) == error_reply(unknown, context, action),
{
}

/// Whether `r` is what a policy says of a download.
pub open spec fn is_download_denial(
    policy: Policy,
    filename: Seq<char>,
    facts: FileFacts,
    stored: Option<u64>,
    registered: Option<u64>,
    r: Option<PolicyDenial>,
) -> bool {
    &&& (!policy.active ==> r is None)
    &&& (policy.active ==> crate::policy::opt_denial(r) == policy.verdict(
        crate::policy::opt_denial(facts.refusal),
        PolicyAction::Serve,
        crate::policy_engine::filename_facts(
            crate::policy_engine::artifact_name(filename),
            crate::distribution::opt_distribution(facts.parsed),
            match stored {
                Some(size) => Some(size),
                None => registered,
            },
        ),
    ))
}

/// What a policy says of a download. One that is not active denies nothing, and needs no size; otherwise
/// the size is that of the stored bytes, or the registered one.
pub fn download_policy_denial(
    policy: &Policy,
    filename: &str,
    facts: &FileFacts,
    stored: Option<u64>,
    registered: Option<u64>,
) -> (r: Option<PolicyDenial>)
    ensures
        is_download_denial(*policy, filename@, *facts, stored, registered, r),
{
    if !policy.active {
        return None;
    }
    let size: Option<u64> = match stored {
        Some(size) => Some(size),
        None => registered,
    };
    match policy.check_download(PolicyAction::Serve, filename, facts, size) {
        Ok(_) => None,
        Err(denial) => Some(denial),
    }
}

/// What an admitted filename addresses: a sidecar by its suffix, or the artifact itself.
pub enum FileKind {
    Metadata,
    /// The provenance of the artifact named.
    Provenance(String),
    Artifact,
}

/// Whether `r` is what an admitted filename addresses.
pub open spec fn is_file_kind(filename: Seq<char>, r: FileKind) -> bool {
    if cut_suffix(filename, ".metadata"@) is Some {
        r == FileKind::Metadata
    } else {
        match cut_suffix(filename, ".provenance"@) {
            Some(artifact) => r matches FileKind::Provenance(name) && name@ == artifact,
            None => r == FileKind::Artifact,
        }
    }
}

/// What an admitted filename addresses.
pub fn file_kind(filename: &str) -> (r: FileKind)
    ensures
        is_file_kind(filename@, r),
{
    if strip_suffix(filename, ".metadata").is_some() {
        return FileKind::Metadata;
    }
    match strip_suffix(filename, ".provenance") {
        Some(artifact) => FileKind::Provenance(artifact.to_owned()),
        None => FileKind::Artifact,
    }
}

// ---------------------------------------------------------------------------------------------
// Conditional requests
// ---------------------------------------------------------------------------------------------

/// The strong validator of bytes: their digest, quoted.
pub open spec fn etag_of(digest: Seq<char>) -> Seq<char> {
    "\""@ + digest + "\""@
}

/// The strong validator of bytes.
pub fn etag(digest: &str) -> (r: String)
    ensures
        r@ == etag_of(digest@),
{
    let mut out = "\"".to_owned();
    out.append(digest);
    out.append("\"");
    out
}

/// Whether the request holds the representation. `If-None-Match` is a list, so every field line has its
/// say: a match in a later line answers the request even when an earlier one named other bytes.
pub fn matches_etag(lines: &Vec<bool>) -> (r: bool)
    ensures
        r == lines@.contains(true),
{
    let mut i: usize = 0;
    while i < lines.len()
        invariant
            i <= lines@.len(),
            forall|j: int| 0 <= j < i ==> !#[trigger] lines@[j],
        decreases lines.len() - i,
    {
        if lines[i] {
            assert(lines@[i as int] == true);
            return true;
        }
        i = i + 1;
    }
    assert(!lines@.contains(true));
    false
}

/// The `If-Modified-Since` date a request leaves any say in: none beside an `If-None-Match`, which
/// supersedes it, and none when there is not exactly one readable field line.
pub open spec fn effective_date(has_if_none_match: bool, dates: Seq<Option<String>>) -> Option<Seq<char>> {
    if has_if_none_match || dates.len() != 1 {
        None
    } else {
        opt_text(dates[0])
    }
}

/// The `If-Modified-Since` date this request leaves any say in, if it sent one. A field line that is not
/// text stands in `dates` as nothing.
pub fn conditional_date(has_if_none_match: bool, dates: &Vec<Option<String>>) -> (r: Option<String>)
    ensures
        opt_text(r) == effective_date(has_if_none_match, dates@),
{
    if has_if_none_match || dates.len() != 1 {
        return None;
    }
    crate::text::opt_clone(&dates[0])
}

/// A bodyless `304`: the metadata a `200` would have carried. The date rides along only where one was
/// read.
pub open spec fn unchanged_reply(etag: Seq<char>, modified: Option<Seq<char>>) -> ReplyText {
    let answer = plain(NOT_MODIFIED, Seq::empty()).with("etag"@, etag).with("cache-control"@, IMMUTABLE@).with(
        "accept-ranges"@,
        "bytes"@,
    );
    match modified {
        Some(date) => answer.with("last-modified"@, date),
        None => answer,
    }
}

fn empty_reply(status: u16) -> (r: Reply)
    ensures
        r@ == plain(status, Seq::empty()),
{
    proof {
        reveal_strlit("");
        assert(""@ =~= Seq::<char>::empty());
    }
    reply(status, "")
}

/// The bodyless `304`.
pub fn unchanged(etag: &str, modified: Option<&str>) -> (r: Reply)
    ensures
        r@ == unchanged_reply(etag@, crate::text::opt_str(modified)),
{
    let answer = empty_reply(NOT_MODIFIED).with_header("etag", etag).with_header(
        "cache-control",
        IMMUTABLE,
    ).with_header("accept-ranges", "bytes");
    match modified {
        Some(date) => answer.with_header("last-modified", date),
        None => answer,
    }
}

/// A sidecar with its validator: the bytes' own, since the digest in its address names the artifact. A
/// matching conditional request is answered with the same headers and no body.
pub open spec fn validated(answer: ReplyText, digest: Seq<char>, matched: bool) -> ReplyText {
    let tagged = answer.replacing("etag"@, etag_of(digest));
    if matched {
        ReplyText { status: NOT_MODIFIED, body: Seq::empty(), ..tagged }
    } else {
        tagged
    }
}

/// Give a sidecar a strong validator, and answer a matching conditional request with the `304` it asked
/// for. `digest` is that of the sidecar's bytes.
pub fn validated_sidecar(answer: Reply, digest: &str, matched: bool) -> (r: Reply)
    ensures
        r@ == validated(answer@, digest@, matched),
{
    let tag = etag(digest);
    let tagged = answer.replacing("etag", tag.as_str());
    if matched {
        let mut tagged = tagged;
        tagged.status = NOT_MODIFIED;
        tagged.body = String::new();
        return tagged;
    }
    tagged
}

/// A `304` for a sidecar carries the headers of the `200` it stands for.
pub proof fn validated_304_keeps_headers(answer: ReplyText, digest: Seq<char>)
    ensures
        validated(answer, digest, true).headers == validated(answer, digest, false).headers,
        validated(answer, digest, true).status == NOT_MODIFIED,
        validated(answer, digest, true).body.len() == 0,
{
}

// ---------------------------------------------------------------------------------------------
// Blobs
// ---------------------------------------------------------------------------------------------

/// What a `Range` field asks of a stored blob.
#[derive(Debug, Clone, Copy, PartialEq, Eq, Structural)]
pub enum RangeRequest {
    Whole,
    Unsatisfiable,
    /// The bytes from `start` up to `end`.
    Partial { start: u64, end: u64 },
}

/// Whether a partial range is one of a blob of `size` bytes.
pub open spec fn range_fits(range: RangeRequest, size: u64) -> bool {
    match range {
        RangeRequest::Partial { start, end } => start < end <= size,
        _ => true,
    }
}

/// When the store wrote a blob.
pub struct Modified {
    /// The date, as a header says it.
    pub date: String,
    /// Whether the request's condition says that its copy is no older.
    pub current: bool,
}

/// A blob in the store.
pub struct StoredBlob {
    pub size: u64,
    pub modified: Option<Modified>,
}

/// The header of the part that a range selects.
pub open spec fn content_range(start: u64, end: u64, size: u64) -> Seq<char> {
    "bytes "@ + decimal(start as nat) + "-"@ + decimal((end - 1) as nat) + "/"@ + decimal(size as nat)
}

fn content_range_text(start: u64, end: u64, size: u64) -> (r: String)
    requires
        start < end,
    ensures
        r@ == content_range(start, end, size),
{
    let mut out = "bytes ".to_owned();
    let first = decimal_text(start);
    out.append(first.as_str());
    out.append("-");
    let last = decimal_text(end - 1);
    out.append(last.as_str());
    out.append("/");
    let total = decimal_text(size);
    out.append(total.as_str());
    out
}

/// The headers of every blob.
pub open spec fn blob_headers(etag: Seq<char>) -> Seq<(Seq<char>, Seq<char>)> {
    seq![
        ("content-type"@, "application/octet-stream"@),
        ("cache-control"@, IMMUTABLE@),
        ("accept-ranges"@, "bytes"@),
        ("etag"@, etag),
    ]
}

/// A header, when there is a value for it.
pub open spec fn header_if(name: Seq<char>, value: Option<Seq<char>>) -> Seq<(Seq<char>, Seq<char>)> {
    match value {
        Some(value) => seq![(name, value)],
        None => Seq::empty(),
    }
}

/// The date of a stored blob.
pub open spec fn date_of(blob: StoredBlob) -> Option<Seq<char>> {
    match blob.modified {
        Some(modified) => Some(modified.date@),
        None => None,
    }
}

/// Whether the request's condition is met by the stored blob.
pub open spec fn still_current(blob: StoredBlob) -> bool {
    blob.modified is Some && (blob.modified->0).current
}

/// The part that a satisfiable range selects: where it starts, how long it is, and its header.
pub open spec fn selected_part(range: RangeRequest, size: u64) -> (u64, u64, Option<Seq<char>>) {
    match range {
        RangeRequest::Partial { start, end } => (start, (end - start) as u64, Some(content_range(start, end, size))),
        _ => (0, size, None),
    }
}

/// The status of a satisfiable range.
pub open spec fn part_status(range: RangeRequest) -> u16 {
    if range is Partial {
        PARTIAL_CONTENT
    } else {
        OK
    }
}

/// How a request for a stored blob is answered.
pub enum BlobAnswer {
    Answer(Reply),
    /// No byte of a blob of this size is in the range.
    Unsatisfiable(u64),
    /// These headers, and the bytes from `start` on for `length`.
    Bytes { head: Reply, start: u64, length: u64 },
    /// These headers, and the bytes as they arrive from upstream.
    Stream { head: Reply },
}

/// What fetching a file came to.
pub enum FileOutcome {
    Cached(StoredBlob),
    /// Its bytes arrive from upstream. There is no body to slice yet, and no write to date.
    Live,
    Failed(CacheError),
}

/// The headers of a stored blob's bytes.
pub open spec fn bytes_headers(blob: StoredBlob, range: RangeRequest, etag: Seq<char>) -> Seq<(Seq<char>, Seq<char>)> {
    let part = selected_part(range, blob.size);
    seq![("content-length"@, decimal(part.1 as nat))] + blob_headers(etag) + header_if("last-modified"@, date_of(blob))
        + header_if("content-range"@, part.2)
}

fn with_blob_headers(answer: Reply, etag: &str) -> (r: Reply)
    ensures
        r@.status == answer@.status,
        r@.body == answer@.body,
        r@.headers == answer@.headers + blob_headers(etag@),
{
    let r = answer.with_header("content-type", "application/octet-stream").with_header(
        "cache-control",
        IMMUTABLE,
    ).with_header("accept-ranges", "bytes").with_header("etag", etag);
    assert(r@.headers =~= answer@.headers + blob_headers(etag@));
    r
}

fn with_header_if(answer: Reply, name: &'static str, value: Option<&str>) -> (r: Reply)
    ensures
        r@.status == answer@.status,
        r@.body == answer@.body,
        r@.headers == answer@.headers + header_if(name@, crate::text::opt_str(value)),
{
    match value {
        Some(value) => {
            let r = answer.with_header(name, value);
            assert(r@.headers =~= answer@.headers + seq![(name@, value@)]);
            r
        },
        None => {
            assert(answer@.headers + Seq::<(Seq<char>, Seq<char>)>::empty() =~= answer@.headers);
            answer
        },
    }
}

fn date_text(blob: &StoredBlob) -> (r: Option<&str>)
    ensures
        crate::text::opt_str(r) == date_of(*blob),
{
    match &blob.modified {
        Some(modified) => Some(modified.date.as_str()),
        None => None,
    }
}

/// Whether `r` answers a `GET` of a stored blob. The condition stands ahead of the range: a client whose copy
/// is still current gets the `304` it asked for, not a slice.
pub open spec fn stored_answer(blob: StoredBlob, range: RangeRequest, etag: Seq<char>, r: BlobAnswer) -> bool {
    if still_current(blob) {
        r matches BlobAnswer::Answer(answer) && answer@ == unchanged_reply(etag, date_of(blob))
    } else if range is Unsatisfiable {
        r == BlobAnswer::Unsatisfiable(blob.size)
    } else {
        r matches BlobAnswer::Bytes { head, start, length } && head@ == (ReplyText {
            status: part_status(range),
            headers: bytes_headers(blob, range, etag),
            body: Seq::empty(),
        }) && (start, length) == (selected_part(range, blob.size).0, selected_part(range, blob.size).1)
    }
}

fn serve_stored(blob: &StoredBlob, range: RangeRequest, etag: &str) -> (r: BlobAnswer)
    requires
        range_fits(range, blob.size),
    ensures
        stored_answer(*blob, range, etag@, r),
{
    let date = date_text(blob);
    match &blob.modified {
        Some(modified) => {
            if modified.current {
                return BlobAnswer::Answer(unchanged(etag, date));
            }
        },
        None => {},
    }
    let (status, start, length, part): (u16, u64, u64, Option<String>) = match range {
        RangeRequest::Whole => (OK, 0, blob.size, None),
        RangeRequest::Unsatisfiable => {
            return BlobAnswer::Unsatisfiable(blob.size);
        },
        RangeRequest::Partial { start, end } => (
            PARTIAL_CONTENT,
            start,
            end - start,
            Some(content_range_text(start, end, blob.size)),
        ),
    };
    let head = empty_reply(status).with_number("content-length", length);
    let head = with_blob_headers(head, etag);
    let head = with_header_if(head, "last-modified", date);
    let head = with_header_if(head, "content-range", crate::text::opt_as_str(&part));
    proof {
        let want = bytes_headers(*blob, range, etag@);
        assert(opt_text(part) == selected_part(range, blob.size).2);
        assert(head@.headers =~= want);
    }
    BlobAnswer::Bytes { head, start, length }
}

/// Whether `r` answers a `GET` of a file.
pub open spec fn is_blob_answer(
    outcome: FileOutcome,
    range: RangeRequest,
    etag: Seq<char>,
    route: Seq<char>,
    digest: Seq<char>,
    filename: Seq<char>,
    action: Seq<char>,
    r: BlobAnswer,
) -> bool {
    match outcome {
        FileOutcome::Cached(blob) => stored_answer(blob, range, etag, r),
        FileOutcome::Live => r matches BlobAnswer::Stream { head } && head@ == (ReplyText {
            status: OK,
            headers: blob_headers(etag),
            body: Seq::empty(),
        }),
        FileOutcome::Failed(error) => r matches BlobAnswer::Answer(answer) && answer@ == error_reply(
            error,
            file_context("file download"@, route, digest, filename),
            action,
        ),
    }
}

/// Answer a `GET` of a file. A stored blob honours the request's condition and range; one that still arrives
/// from upstream is streamed whole, whatever the range, and says no date.
pub fn serve_blob(
    outcome: &FileOutcome,
    range: RangeRequest,
    etag: &str,
    route: &str,
    digest: &str,
    filename: &str,
    action: &str,
) -> (r: BlobAnswer)
    requires
        *outcome matches FileOutcome::Cached(blob) ==> range_fits(range, blob.size),
    ensures
        is_blob_answer(*outcome, range, etag@, route@, digest@, filename@, action@, r),
{
    match outcome {
        FileOutcome::Cached(blob) => serve_stored(blob, range, etag),
        FileOutcome::Live => {
            let head = with_blob_headers(empty_reply(OK), etag);
            assert(head@.headers =~= blob_headers(etag@));
            BlobAnswer::Stream { head }
        },
        FileOutcome::Failed(error) => BlobAnswer::Answer(
            cache_error_response(error, CacheContext::file(route, digest, filename), action),
        ),
    }
}

/// What probing a file without fetching it found.
pub enum FileProbe {
    Cached(StoredBlob),
    /// It is upstream's, and this is the size its page registered.
    Upstream(Option<u64>),
}

/// How a `HEAD` is answered.
pub enum HeadAnswer {
    Answer(Reply),
    Unsatisfiable(u64),
    /// These headers. Without a known length nothing may be inferred from the empty body.
    Head { head: Reply, length_known: bool },
}

/// The headers of a `HEAD` of a stored blob.
pub open spec fn head_headers(blob: StoredBlob, range: RangeRequest, etag: Seq<char>) -> Seq<(Seq<char>, Seq<char>)> {
    let part = selected_part(range, blob.size);
    blob_headers(etag) + header_if("last-modified"@, date_of(blob)) + seq![
        ("content-length"@, decimal(part.1 as nat)),
    ] + header_if("content-range"@, part.2)
}

/// The registered length of a file that is not stored here.
pub open spec fn length_text(size: Option<u64>) -> Option<Seq<char>> {
    match size {
        Some(size) => Some(decimal(size as nat)),
        None => None,
    }
}

/// Whether `r` answers a `HEAD` of a file.
pub open spec fn is_head_answer(probe: FileProbe, range: RangeRequest, etag: Seq<char>, r: HeadAnswer) -> bool {
    match probe {
        FileProbe::Cached(blob) => if still_current(blob) {
            r matches HeadAnswer::Answer(answer) && answer@ == unchanged_reply(etag, date_of(blob))
        } else if range is Unsatisfiable {
            r == HeadAnswer::Unsatisfiable(blob.size)
        } else {
            r matches HeadAnswer::Head { head, length_known } && length_known && head@ == (ReplyText {
                status: part_status(range),
                headers: head_headers(blob, range, etag),
                body: Seq::empty(),
            })
        },
        FileProbe::Upstream(size) => r matches HeadAnswer::Head { head, length_known } && length_known == (size
            is Some) && head@ == (ReplyText {
            status: OK,
            headers: blob_headers(etag) + header_if("content-length"@, length_text(size)),
            body: Seq::empty(),
        }),
    }
}

/// Answer a file `HEAD` with the headers of the `GET` it stands for. Nothing asks upstream for the file: an
/// uncached one says the length its page registered, and none when the page carried none.
pub fn head_blob(probe: &FileProbe, range: RangeRequest, etag: &str) -> (r: HeadAnswer)
    requires
        *probe matches FileProbe::Cached(blob) ==> range_fits(range, blob.size),
    ensures
        is_head_answer(*probe, range, etag@, r),
{
    match probe {
        FileProbe::Cached(blob) => {
            let date = date_text(blob);
            match &blob.modified {
                Some(modified) => {
                    if modified.current {
                        return HeadAnswer::Answer(unchanged(etag, date));
                    }
                },
                None => {},
            }
            let (status, length, part): (u16, u64, Option<String>) = match range {
                RangeRequest::Whole => (OK, blob.size, None),
                RangeRequest::Unsatisfiable => {
                    return HeadAnswer::Unsatisfiable(blob.size);
                },
                RangeRequest::Partial { start, end } => (
                    PARTIAL_CONTENT,
                    end - start,
                    Some(content_range_text(start, end, blob.size)),
                ),
            };
            let head = with_blob_headers(empty_reply(status), etag);
            let head = with_header_if(head, "last-modified", date);
            let head = head.with_number("content-length", length);
            let head = with_header_if(head, "content-range", crate::text::opt_as_str(&part));
            proof {
                assert(opt_text(part) == selected_part(range, blob.size).2);
                assert(head@.headers =~= head_headers(*blob, range, etag@));
            }
            HeadAnswer::Head { head, length_known: true }
        },
        FileProbe::Upstream(size) => {
            let head = with_blob_headers(empty_reply(OK), etag);
            let length: Option<String> = match size {
                Some(size) => Some(decimal_text(*size)),
                None => None,
            };
            let head = with_header_if(head, "content-length", crate::text::opt_as_str(&length));
            proof {
                assert(opt_text(length) == length_text(*size));
                assert(head@.headers =~= blob_headers(etag@) + header_if("content-length"@, length_text(*size)));
            }
            HeadAnswer::Head { head, length_known: size.is_some() }
        },
    }
}

/// A `HEAD` of a stored blob carries the headers of the `GET` it stands for, for every range.
pub proof fn head_describes_the_get(blob: StoredBlob, range: RangeRequest, etag: Seq<char>)
    ensures
        head_headers(blob, range, etag).to_multiset() == bytes_headers(blob, range, etag).to_multiset(),
{
    broadcast use vstd::seq_lib::group_to_multiset_ensures;

    let part = selected_part(range, blob.size);
    let length = seq![("content-length"@, decimal(part.1 as nat))];
    let base = blob_headers(etag);
    let date = header_if("last-modified"@, date_of(blob));
    let tail = header_if("content-range"@, part.2);
    vstd::seq_lib::lemma_multiset_commutative(base + date + length, tail);
    vstd::seq_lib::lemma_multiset_commutative(base + date, length);
    vstd::seq_lib::lemma_multiset_commutative(length, base + date);
    vstd::seq_lib::lemma_multiset_commutative(length + base + date, tail);
    assert(length + base + date =~= length + (base + date));
}

/// What a stored blob that cannot be opened is answered.
pub fn missing_blob(route: &str, digest: &str, filename: &str) -> (r: Reply)
    ensures
        r@ == plain(
            NOT_FOUND,
            "cached file missing on index "@ + quoted_text(route@) + ": digest "@ + digest@ + ", filename "@
                + quoted_text(filename@),
        ),
{
    let mut body = "cached file missing on index ".to_owned();
    let at = quoted(route);
    body.append(at.as_str());
    body.append(": digest ");
    body.append(digest);
    body.append(", filename ");
    let name = quoted(filename);
    body.append(name.as_str());
    reply(NOT_FOUND, body.as_str())
}

// ---------------------------------------------------------------------------------------------
// The file route, step by step
// ---------------------------------------------------------------------------------------------

/// What happened last on the way to a file.
pub enum FileEvent {
    /// Its path was read.
    Addressed(FileTarget),
    /// Its digest was looked up among the revoked ones.
    Cleared(Result<(), CacheError>),
    /// The barrier before its bytes was judged.
    Judged(Barrier),
    /// The request's entity tags were compared; some may hold it.
    Compared(bool),
}

/// What to do next on the way to a file.
pub enum FileAction {
    Answer(Reply),
    Refuse(DownloadRefusal),
    /// Look the digest up among the revoked ones.
    CheckRevocation,
    /// Judge the barrier before the bytes.
    Judge,
    ServeMetadata,
    /// Serve the provenance of the artifact named.
    ServeProvenance(String),
    /// Compare the request's entity tags with the digest's.
    CompareTags,
    /// Answer a `HEAD`.
    Probe,
    /// Answer a `GET`.
    Serve,
}

/// The file that a request is on its way to.
pub struct FileRequest<'a> {
    pub route: &'a str,
    pub digest: &'a str,
    pub filename: &'a str,
    pub head: bool,
    /// The wire name of serving, for a refusing policy.
    pub action: &'a str,
}

/// Whether `action` is the step behind `event` on the way to the file of `request`.
pub open spec fn is_file_step(event: FileEvent, request: FileRequest<'_>, action: FileAction) -> bool {
    let context = file_context("file download"@, request.route@, request.digest@, request.filename@);
    match event {
        FileEvent::Addressed(FileTarget::Answer(answer)) => action == FileAction::Answer(answer),
        FileEvent::Addressed(FileTarget::File { .. }) => action is CheckRevocation,
        FileEvent::Cleared(Err(error)) => action matches FileAction::Answer(answer) && answer@ == error_reply(
            error,
            context,
            request.action@,
        ),
        FileEvent::Cleared(Ok(_)) => action is Judge,
        FileEvent::Judged(Barrier::Failed(error)) => action matches FileAction::Answer(answer) && answer@ == error_reply(
            error,
            context,
            request.action@,
        ),
        FileEvent::Judged(Barrier::Refused(refusal)) => action == FileAction::Refuse(refusal),
        FileEvent::Judged(Barrier::Open) => if cut_suffix(request.filename@, ".metadata"@) is Some {
            action is ServeMetadata
        } else {
            match cut_suffix(request.filename@, ".provenance"@) {
                Some(artifact) => action matches FileAction::ServeProvenance(name) && name@ == artifact,
                None => action is CompareTags,
            }
        },
        FileEvent::Compared(true) => action matches FileAction::Answer(answer) && answer@ == unchanged_reply(
            etag_of(request.digest@),
            None,
        ),
        FileEvent::Compared(false) => if request.head {
            action is Probe
        } else {
            action is Serve
        },
    }
}

/// Serve a file, step by step: a revoked digest is refused before anything is said of the file, the barrier stands
/// before any byte and any condition, a sidecar is told by its suffix, and only then may a client that
/// holds the bytes be told so.
pub fn file_route(event: FileEvent, request: &FileRequest<'_>) -> (r: FileAction)
    ensures
        is_file_step(event, *request, r),
{
    match event {
        FileEvent::Addressed(FileTarget::Answer(answer)) => FileAction::Answer(answer),
        FileEvent::Addressed(FileTarget::File { .. }) => FileAction::CheckRevocation,
        FileEvent::Cleared(Ok(_)) => FileAction::Judge,
        FileEvent::Cleared(Err(error)) => FileAction::Answer(
            cache_error_response(
                &error,
                CacheContext::file(request.route, request.digest, request.filename),
                request.action,
            ),
        ),
        FileEvent::Judged(Barrier::Failed(error)) => FileAction::Answer(
            cache_error_response(
                &error,
                CacheContext::file(request.route, request.digest, request.filename),
                request.action,
            ),
        ),
        FileEvent::Judged(Barrier::Refused(refusal)) => FileAction::Refuse(refusal),
        FileEvent::Judged(Barrier::Open) => match file_kind(request.filename) {
            FileKind::Metadata => FileAction::ServeMetadata,
            FileKind::Provenance(artifact) => FileAction::ServeProvenance(artifact),
            FileKind::Artifact => FileAction::CompareTags,
        },
        FileEvent::Compared(held) => {
            if held {
                let tag = etag(request.digest);
                return FileAction::Answer(unchanged(tag.as_str(), None));
            }
            if request.head {
                FileAction::Probe
            } else {
                FileAction::Serve
            }
        },
    }
}

/// Whether `event` can follow on `action`.
pub open spec fn file_goes_on(action: FileAction, event: FileEvent) -> bool {
    match action {
        FileAction::CheckRevocation => event is Cleared,
        FileAction::Judge => event is Judged,
        FileAction::CompareTags => event is Compared,
        _ => false,
    }
}

/// Whether `run` serves a request from its path on, each event following on the action before it.
pub open spec fn is_file_run(run: Seq<(FileEvent, FileAction)>, request: FileRequest<'_>) -> bool {
    &&& run.len() > 0
    &&& run[0].0 is Addressed
    &&& forall|i: int| 0 <= i < run.len() ==> #[trigger] is_file_step(run[i].0, request, run[i].1)
    &&& forall|i: int| 0 < i < run.len() ==> file_goes_on(run[i - 1].1, (#[trigger] run[i]).0)
}

proof fn file_order(run: Seq<(FileEvent, FileAction)>, request: FileRequest<'_>, n: int)
    requires
        is_file_run(run, request),
        0 <= n < run.len(),
    ensures
        n == 1 ==> run[n].0 is Cleared,
        n == 2 ==> run[n].0 is Judged,
        n == 3 ==> run[n].0 is Compared,
        n <= 3,
    decreases n,
{
    assert(is_file_step(run[n].0, request, run[n].1));
    if n > 0 {
        file_order(run, request, n - 1);
        assert(is_file_step(run[n - 1].0, request, run[n - 1].1));
        assert(file_goes_on(run[n - 1].1, run[n].0));
    }
}

/// Nothing of a file is said or sent before its digest was found not to be revoked and the barrier was found
/// open: not its bytes, not its sidecars, not whether it is there, and not that the client holds it already.
pub proof fn files_stand_behind_the_barrier(run: Seq<(FileEvent, FileAction)>, request: FileRequest<'_>, n: int)
    requires
        is_file_run(run, request),
        0 <= n < run.len(),
        run[n].0 is Compared || run[n].1 is CompareTags || run[n].1 is ServeMetadata || run[n].1 is ServeProvenance
            || run[n].1 is Probe || run[n].1 is Serve,
    ensures
        n >= 2,
        run[0].0 matches FileEvent::Addressed(FileTarget::File { .. }),
        run[1].0 matches FileEvent::Cleared(Ok(_)),
        run[2].0 == FileEvent::Judged(Barrier::Open),
{
    file_order(run, request, n);
    assert(is_file_step(run[n].0, request, run[n].1));
    assert(n >= 2);
    file_order(run, request, 1);
    file_order(run, request, 2);
    assert(is_file_step(run[0].0, request, run[0].1) && file_goes_on(run[0].1, run[1].0));
    assert(is_file_step(run[1].0, request, run[1].1) && file_goes_on(run[1].1, run[2].0));
    assert(is_file_step(run[2].0, request, run[2].1));
    if n == 3 {
        assert(file_goes_on(run[2].1, run[3].0));
    }
}

} // verus!
