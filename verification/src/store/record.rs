//! Cached upstream pages and the records that go with them.
use vstd::prelude::*;
use vstd::utf8::encode_utf8;

use super::summary::{json_opt_string, opt_string_json};
use crate::outside::{hex_char, json_char, json_chars, json_string, json_string_text};
use crate::simple::json::{json_bool, json_bool_text};
use crate::text::{
    bytes_clone, bytes_eq, cut_first, cut_prefix, decimal, decimal_text, encoding_of_one_line, find_byte,
    first_index_of_joined, joined_contains, opt_as_str, opt_clone, opt_eq, opt_str, opt_text, opt_to_owned, push_bytes,
    signed_decimal, signed_decimal_text, text_eq,
};

verus! {

/// A cached upstream simple-index response plus the metadata needed to revalidate it. The body is the raw
/// upstream document; it is transformed per request, so one cached page serves any route.
#[derive(Debug)]
pub struct CachedIndex {
    pub etag: Option<String>,
    pub last_serial: Option<u64>,
    pub fetched_at_unix: i64,
    pub content_type: Option<String>,
    /// The freshness lifetime upstream granted; nothing means the server sent no usable lifetime and the
    /// configured fallback applies.
    pub fresh_secs: Option<i64>,
    pub body: Vec<u8>,
}

/// A cached record, its text seen as characters.
pub struct CachedText {
    pub etag: Option<Seq<char>>,
    pub last_serial: Option<u64>,
    pub fetched_at_unix: i64,
    pub content_type: Option<Seq<char>>,
    pub fresh_secs: Option<i64>,
    pub body: Seq<u8>,
}

impl CachedIndex {
    pub open spec fn view(self) -> CachedText {
        CachedText {
            etag: opt_text(self.etag),
            last_serial: self.last_serial,
            fetched_at_unix: self.fetched_at_unix,
            content_type: opt_text(self.content_type),
            fresh_secs: self.fresh_secs,
            body: self.body@,
        }
    }
}

impl CachedText {
    /// The record with the freshness that an overlay advanced.
    pub open spec fn overlaid(self, overlay: Option<FreshnessOverlay>) -> CachedText {
        match overlay {
            Some(overlay) => CachedText {
                fetched_at_unix: overlay.fetched_at_unix,
                fresh_secs: overlay.fresh_secs,
                ..self
            },
            None => self,
        }
    }
}

/// A cached record's summary, without the page body.
#[derive(Debug)]
pub struct CachedIndexSummary {
    pub fetched_at_unix: i64,
    pub fresh_secs: Option<i64>,
    pub body_bytes: u64,
    pub record_bytes: u64,
    pub last_serial: Option<u64>,
    pub content_type: Option<String>,
}

/// A summary, its text seen as characters.
pub struct IndexSummaryText {
    pub fetched_at_unix: i64,
    pub fresh_secs: Option<i64>,
    pub body_bytes: nat,
    pub record_bytes: nat,
    pub last_serial: Option<u64>,
    pub content_type: Option<Seq<char>>,
}

impl CachedIndexSummary {
    pub open spec fn view(self) -> IndexSummaryText {
        IndexSummaryText {
            fetched_at_unix: self.fetched_at_unix,
            fresh_secs: self.fresh_secs,
            body_bytes: self.body_bytes as nat,
            record_bytes: self.record_bytes as nat,
            last_serial: self.last_serial,
            content_type: opt_text(self.content_type),
        }
    }
}

/// A summary, where there is one.
pub open spec fn opt_summary(summary: Option<CachedIndexSummary>) -> Option<IndexSummaryText> {
    match summary {
        Some(summary) => Some(summary@),
        None => None,
    }
}

/// A cached record's summary, keyed by its page.
#[derive(Debug)]
pub struct CachedIndexPage {
    pub key: String,
    pub summary: CachedIndexSummary,
}

/// One project's explicit status marker.
#[derive(Debug)]
pub struct ProjectStatusRecord {
    pub status: Option<String>,
    pub reason: Option<String>,
}

/// The stored form of a status marker.
pub open spec fn json_status_record(status: Option<Seq<char>>, reason: Option<Seq<char>>) -> Seq<char> {
    "{\"status\":"@ + json_opt_string(status) + ",\"reason\":"@ + json_opt_string(reason) + "}"@
}

/// The stored form of a status marker.
pub fn status_record_json(status: Option<&str>, reason: Option<&str>) -> (r: String)
    ensures
        r@ == json_status_record(opt_str(status), opt_str(reason)),
{
    let mut out = "{\"status\":".to_owned();
    let first = opt_string_json(status);
    out.append(first.as_str());
    out.append(",\"reason\":");
    let second = opt_string_json(reason);
    out.append(second.as_str());
    out.append("}");
    out
}

/// Whether an upstream provenance object still lives only at its source or has a retained body.
#[derive(Debug, Clone, Copy, PartialEq, Eq, Structural)]
pub enum AttestationAvailability {
    RemoteOnly,
    Cached,
}

impl Default for AttestationAvailability {
    fn default() -> (r: Self)
        ensures
            r == AttestationAvailability::RemoteOnly,
    {
        AttestationAvailability::RemoteOnly
    }
}

/// A mutable provenance object advertised by an upstream file entry.
#[derive(Debug)]
pub struct UpstreamAttestation {
    /// The normalized project whose page advertises the URL.
    pub project: String,
    /// The secure URL advertised by the upstream.
    pub url: String,
    /// The configured cached index whose client can fetch `url`.
    pub source: String,
    /// The routed upstream that advertised `url`, when the cached index has named sources.
    pub upstream: Option<String>,
    /// The normalized media type returned with the last structurally accepted body.
    pub media_type: Option<String>,
    pub etag: Option<String>,
    pub last_modified: Option<String>,
    /// The serving clock when the body was fetched or revalidated.
    pub fetched_at_unix: Option<i64>,
    /// The shared-cache freshness lifetime granted by the upstream.
    pub fresh_secs: Option<i64>,
    /// Whether a stale body requires successful validation before reuse.
    pub must_revalidate: bool,
    /// Whether the structurally accepted, unverified body is retained locally.
    pub availability: AttestationAvailability,
    /// The exact accepted JSON text, retained inline only in cache mode.
    pub body: Option<String>,
}

/// A provenance object, its text seen as characters.
pub struct AttestationText {
    pub project: Seq<char>,
    pub url: Seq<char>,
    pub source: Seq<char>,
    pub upstream: Option<Seq<char>>,
    pub media_type: Option<Seq<char>>,
    pub etag: Option<Seq<char>>,
    pub last_modified: Option<Seq<char>>,
    pub fetched_at_unix: Option<i64>,
    pub fresh_secs: Option<i64>,
    pub must_revalidate: bool,
    pub availability: AttestationAvailability,
    pub body: Option<Seq<char>>,
}

/// A provenance link of which nothing has been fetched.
pub open spec fn remote_attestation(
    url: Seq<char>,
    source: Seq<char>,
    project: Seq<char>,
    upstream: Option<Seq<char>>,
) -> AttestationText {
    AttestationText {
        project,
        url,
        source,
        upstream,
        media_type: None,
        etag: None,
        last_modified: None,
        fetched_at_unix: None,
        fresh_secs: None,
        must_revalidate: false,
        availability: AttestationAvailability::RemoteOnly,
        body: None,
    }
}

impl AttestationText {
    /// Whether two records speak of the same provenance source.
    pub open spec fn same_source(self, other: AttestationText) -> bool {
        &&& self.url == other.url
        &&& self.source == other.source
        &&& self.project == other.project
        &&& self.upstream == other.upstream
    }
}

impl UpstreamAttestation {
    pub open spec fn view(self) -> AttestationText {
        AttestationText {
            project: self.project@,
            url: self.url@,
            source: self.source@,
            upstream: opt_text(self.upstream),
            media_type: opt_text(self.media_type),
            etag: opt_text(self.etag),
            last_modified: opt_text(self.last_modified),
            fetched_at_unix: self.fetched_at_unix,
            fresh_secs: self.fresh_secs,
            must_revalidate: self.must_revalidate,
            availability: self.availability,
            body: opt_text(self.body),
        }
    }

    /// A copy.
    pub fn copied(&self) -> (r: Self)
        ensures
            r@ == self@,
    {
        UpstreamAttestation {
            project: self.project.clone(),
            url: self.url.clone(),
            source: self.source.clone(),
            upstream: opt_clone(&self.upstream),
            media_type: opt_clone(&self.media_type),
            etag: opt_clone(&self.etag),
            last_modified: opt_clone(&self.last_modified),
            fetched_at_unix: self.fetched_at_unix,
            fresh_secs: self.fresh_secs,
            must_revalidate: self.must_revalidate,
            availability: self.availability,
            body: opt_clone(&self.body),
        }
    }

    /// Create a remote-only record for an upstream provenance link.
    pub fn remote(url: &str, source: &str, project: &str, upstream: Option<&str>) -> (r: Self)
        ensures
            r@ == remote_attestation(url@, source@, project@, opt_str(upstream)),
    {
        UpstreamAttestation {
            project: project.to_owned(),
            url: url.to_owned(),
            source: source.to_owned(),
            upstream: opt_to_owned(upstream),
            media_type: None,
            etag: None,
            last_modified: None,
            fetched_at_unix: None,
            fresh_secs: None,
            must_revalidate: false,
            availability: AttestationAvailability::RemoteOnly,
            body: None,
        }
    }

    /// Whether two records speak of the same provenance source.
    pub fn same_source(&self, other: &UpstreamAttestation) -> (r: bool)
        ensures
            r == self@.same_source(other@),
    {
        text_eq(self.url.as_str(), other.url.as_str()) && text_eq(self.source.as_str(), other.source.as_str())
            && text_eq(self.project.as_str(), other.project.as_str()) && opt_eq(
            opt_as_str(&self.upstream),
            opt_as_str(&other.upstream),
        )
    }

    /// Whether two records say the same in every field.
    pub fn same(&self, other: &UpstreamAttestation) -> (r: bool)
        ensures
            r == (self@ == other@),
    {
        self.same_source(other) && opt_eq(opt_as_str(&self.media_type), opt_as_str(&other.media_type)) && opt_eq(
            opt_as_str(&self.etag),
            opt_as_str(&other.etag),
        ) && opt_eq(opt_as_str(&self.last_modified), opt_as_str(&other.last_modified)) && self.fetched_at_unix
            == other.fetched_at_unix && self.fresh_secs == other.fresh_secs && self.must_revalidate
            == other.must_revalidate && self.availability == other.availability && opt_eq(
            opt_as_str(&self.body),
            opt_as_str(&other.body),
        )
    }
}

/// An optional signed number as JSON.
pub open spec fn json_opt_signed(value: Option<i64>) -> Seq<char> {
    match value {
        Some(n) => signed_decimal(n as int),
        None => "null"@,
    }
}

/// An optional signed number as JSON.
pub fn opt_signed_json(value: Option<i64>) -> (r: String)
    ensures
        r@ == json_opt_signed(value),
{
    match value {
        Some(n) => signed_decimal_text(n),
        None => "null".to_owned(),
    }
}

/// An optional number as JSON.
pub open spec fn json_opt_number(value: Option<u64>) -> Seq<char> {
    match value {
        Some(n) => decimal(n as nat),
        None => "null"@,
    }
}

/// An optional number as JSON.
pub fn opt_number_json(value: Option<u64>) -> (r: String)
    ensures
        r@ == json_opt_number(value),
{
    match value {
        Some(n) => decimal_text(n),
        None => "null".to_owned(),
    }
}

/// The stored form of a provenance object.
pub open spec fn json_attestation(record: AttestationText) -> Seq<char> {
    "{\"project\":"@ + json_string(record.project) + ",\"url\":"@ + json_string(record.url) + ",\"source\":"@
        + json_string(record.source) + ",\"upstream\":"@ + json_opt_string(record.upstream) + ",\"media_type\":"@
        + json_opt_string(record.media_type) + ",\"etag\":"@ + json_opt_string(record.etag) + ",\"last_modified\":"@
        + json_opt_string(record.last_modified) + ",\"fetched_at_unix\":"@ + json_opt_signed(record.fetched_at_unix)
        + ",\"fresh_secs\":"@ + json_opt_signed(record.fresh_secs) + ",\"must_revalidate\":"@ + json_bool(
        record.must_revalidate,
    ) + ",\"availability\":"@ + (match record.availability {
        AttestationAvailability::RemoteOnly => "\"remote_only\""@,
        AttestationAvailability::Cached => "\"cached\""@,
    }) + ",\"body\":"@ + json_opt_string(record.body) + "}"@
}

/// The stored form of a provenance object.
pub fn attestation_json(record: &UpstreamAttestation) -> (r: String)
    ensures
        r@ == json_attestation(record@),
{
    let mut out = "{\"project\":".to_owned();
    let project = json_string_text(record.project.as_str());
    out.append(project.as_str());
    out.append(",\"url\":");
    let url = json_string_text(record.url.as_str());
    out.append(url.as_str());
    out.append(",\"source\":");
    let source = json_string_text(record.source.as_str());
    out.append(source.as_str());
    out.append(",\"upstream\":");
    let upstream = opt_string_json(opt_as_str(&record.upstream));
    out.append(upstream.as_str());
    out.append(",\"media_type\":");
    let media_type = opt_string_json(opt_as_str(&record.media_type));
    out.append(media_type.as_str());
    out.append(",\"etag\":");
    let etag = opt_string_json(opt_as_str(&record.etag));
    out.append(etag.as_str());
    out.append(",\"last_modified\":");
    let last_modified = opt_string_json(opt_as_str(&record.last_modified));
    out.append(last_modified.as_str());
    out.append(",\"fetched_at_unix\":");
    let fetched = opt_signed_json(record.fetched_at_unix);
    out.append(fetched.as_str());
    out.append(",\"fresh_secs\":");
    let fresh = opt_signed_json(record.fresh_secs);
    out.append(fresh.as_str());
    out.append(",\"must_revalidate\":");
    out.append(json_bool_text(record.must_revalidate));
    out.append(",\"availability\":");
    match record.availability {
        AttestationAvailability::RemoteOnly => out.append("\"remote_only\""),
        AttestationAvailability::Cached => out.append("\"cached\""),
    }
    out.append(",\"body\":");
    let body = opt_string_json(opt_as_str(&record.body));
    out.append(body.as_str());
    out.append("}");
    out
}

/// One completely parsed remote project-detail generation.
#[derive(Debug)]
pub struct ProjectGeneration {
    pub generation: u64,
    /// The configured cached-index name that produced this generation.
    pub source: String,
    /// The redacted final URL the detail page was fetched from.
    pub url: String,
    /// The response format the generation was parsed from.
    pub format: String,
    pub etag: Option<String>,
    pub last_modified: Option<String>,
    pub last_serial: Option<u64>,
    /// When the detail page was last observed.
    pub fetched_at_unix: i64,
    /// The response byte length the generation was parsed from.
    pub bytes: u64,
    /// The number of policy-admitted file rows the generation holds.
    pub files: u64,
    pub versions: Vec<String>,
    pub project_status: Option<String>,
    pub project_status_reason: Option<String>,
}

/// Publication state for one cached index project's remote file-metadata generations.
#[derive(Debug)]
pub struct ProjectMetaState {
    pub active: Option<ProjectGeneration>,
    pub staging: Option<u64>,
    pub retired: Option<u64>,
    pub next_generation: u64,
}

/// The freshness fields a `304 Not Modified` advances: the fetch time and the granted lifetime.
#[derive(Debug, Clone, Copy, PartialEq, Eq, Structural)]
pub struct FreshnessOverlay {
    pub fetched_at_unix: i64,
    pub fresh_secs: Option<i64>,
}

/// The stored form of a freshness overlay.
pub open spec fn json_overlay(overlay: FreshnessOverlay) -> Seq<char> {
    "{\"fetched_at_unix\":"@ + signed_decimal(overlay.fetched_at_unix as int) + ",\"fresh_secs\":"@ + json_opt_signed(
        overlay.fresh_secs,
    ) + "}"@
}

impl FreshnessOverlay {
    /// The stored form of the overlay.
    pub fn encode(&self) -> (r: Vec<u8>)
        ensures
            r@ == encode_utf8(json_overlay(*self)),
    {
        let mut out = "{\"fetched_at_unix\":".to_owned();
        let fetched = signed_decimal_text(self.fetched_at_unix);
        out.append(fetched.as_str());
        out.append(",\"fresh_secs\":");
        let fresh = opt_signed_json(self.fresh_secs);
        out.append(fresh.as_str());
        out.append("}");
        bytes_clone(out.as_str().as_bytes())
    }
}

// ---------------------------------------------------------------------------------------------
// Framing
// ---------------------------------------------------------------------------------------------

/// Marks the framed record encoding: a JSON header line, then the raw body bytes.
pub const RECORD_PREFIX: &'static str = "peryx1\n";

/// The revalidation metadata of a page, stored as one JSON line ahead of the body. Writing the body
/// inside JSON would turn megabytes of page into an array of numbers.
#[derive(Debug)]
pub struct RecordHeader {
    pub etag: Option<String>,
    pub last_serial: Option<u64>,
    pub fetched_at_unix: i64,
    pub content_type: Option<String>,
    pub fresh_secs: Option<i64>,
}

/// What the text of a stored record decodes to: the header line of a framed record, or the whole of one that
/// was written before records were framed.
pub enum DecodedPage {
    Header(RecordHeader),
    Whole(CachedIndex),
    Damaged,
}

/// What a record decodes to, where one was decoded.
pub open spec fn opt_page(decoded: Option<&DecodedPage>) -> DecodedPage {
    match decoded {
        Some(decoded) => *decoded,
        None => DecodedPage::Damaged,
    }
}

/// The summary of a stored record: the lengths of its body and of the whole record, and its metadata.
pub open spec fn summarized(bytes: Seq<u8>, decoded: DecodedPage) -> Option<IndexSummaryText> {
    match (unframed(bytes), decoded) {
        (Some((_, body)), DecodedPage::Header(header)) => Some(
            IndexSummaryText {
                fetched_at_unix: header.fetched_at_unix,
                fresh_secs: header.fresh_secs,
                body_bytes: body.len(),
                record_bytes: bytes.len(),
                last_serial: header.last_serial,
                content_type: opt_text(header.content_type),
            },
        ),
        (None, DecodedPage::Whole(page)) => Some(
            IndexSummaryText {
                fetched_at_unix: page.fetched_at_unix,
                fresh_secs: page.fresh_secs,
                body_bytes: page.body@.len(),
                record_bytes: bytes.len(),
                last_serial: page.last_serial,
                content_type: opt_text(page.content_type),
            },
        ),
        _ => None,
    }
}

/// The record that stored bytes hold; `decoded` is what their text decodes to. Nothing where it cannot be read.
pub open spec fn page_decoded(bytes: Seq<u8>, decoded: DecodedPage) -> Option<CachedText> {
    match (unframed(bytes), decoded) {
        (Some((_, body)), DecodedPage::Header(header)) => Some(
            CachedText {
                etag: opt_text(header.etag),
                last_serial: header.last_serial,
                fetched_at_unix: header.fetched_at_unix,
                content_type: opt_text(header.content_type),
                fresh_secs: header.fresh_secs,
                body,
            },
        ),
        (None, DecodedPage::Whole(page)) => Some(page@),
        _ => None,
    }
}

/// A header line.
pub open spec fn json_header(
    etag: Option<Seq<char>>,
    last_serial: Option<u64>,
    fetched_at_unix: i64,
    content_type: Option<Seq<char>>,
    fresh_secs: Option<i64>,
) -> Seq<char> {
    "{\"etag\":"@ + json_opt_string(etag) + ",\"last_serial\":"@ + json_opt_number(last_serial)
        + ",\"fetched_at_unix\":"@ + signed_decimal(fetched_at_unix as int) + ",\"content_type\":"@ + json_opt_string(
        content_type,
    ) + ",\"fresh_secs\":"@ + json_opt_signed(fresh_secs) + "}"@
}

/// A header line and a body, framed.
pub open spec fn framed(header: Seq<u8>, body: Seq<u8>) -> Seq<u8> {
    encode_utf8(RECORD_PREFIX@) + header + seq![0x0Au8] + body
}

/// The header line and the body of a framed record.
pub open spec fn unframed(bytes: Seq<u8>) -> Option<(Seq<u8>, Seq<u8>)> {
    match cut_prefix(bytes, encode_utf8(RECORD_PREFIX@)) {
        Some(rest) => cut_first(rest, 0x0Au8),
        None => None,
    }
}

/// A header line and a body are read back from their frame.
pub proof fn frames_read_back(header: Seq<u8>, body: Seq<u8>)
    requires
        !header.contains(0x0A),
    ensures
        unframed(framed(header, body)) == Some((header, body)),
{
    let prefix = encode_utf8(RECORD_PREFIX@);
    let rest = header + seq![0x0Au8] + body;
    assert(framed(header, body) =~= prefix + rest);
    crate::text::cut_prefix_of_joined(prefix, rest);
    first_index_of_joined(header, 0x0Au8, body);
}

impl CachedIndex {
    /// The header line of the record.
    pub open spec fn header_line(self) -> Seq<char> {
        json_header(
            opt_text(self.etag),
            self.last_serial,
            self.fetched_at_unix,
            opt_text(self.content_type),
            self.fresh_secs,
        )
    }

    /// The stored form of the record: a header line, then the body. The header line holds no line break,
    /// so the frame can be read back.
    pub fn encode(&self) -> (r: Vec<u8>)
        ensures
            r@ == framed(encode_utf8(self.header_line()), self.body@),
            unframed(r@) == Some((encode_utf8(self.header_line()), self.body@)),
    {
        let etag = opt_string_json(opt_as_str(&self.etag));
        let last_serial = opt_number_json(self.last_serial);
        let fetched = signed_decimal_text(self.fetched_at_unix);
        let content_type = opt_string_json(opt_as_str(&self.content_type));
        let fresh = opt_signed_json(self.fresh_secs);
        let mut header = "{\"etag\":".to_owned();
        header.append(etag.as_str());
        header.append(",\"last_serial\":");
        header.append(last_serial.as_str());
        header.append(",\"fetched_at_unix\":");
        header.append(fetched.as_str());
        header.append(",\"content_type\":");
        header.append(content_type.as_str());
        header.append(",\"fresh_secs\":");
        header.append(fresh.as_str());
        header.append("}");
        let mut out: Vec<u8> = Vec::new();
        push_bytes(&mut out, RECORD_PREFIX.as_bytes());
        push_bytes(&mut out, header.as_str().as_bytes());
        out.push(0x0A);
        push_bytes(&mut out, self.body.as_slice());
        assert(out@ =~= framed(encode_utf8(header@), self.body@));
        proof {
            records_are_framed(*self);
        }
        out
    }

    /// Split a framed record into its header line and body, or nothing for a record of another form.
    pub fn split_framed<'a>(bytes: &'a [u8]) -> (r: Option<(&'a [u8], &'a [u8])>)
        ensures
            match r {
                Some((header, body)) => unframed(bytes@) == Some((header@, body@)),
                None => unframed(bytes@) is None,
            },
    {
        let prefix = RECORD_PREFIX.as_bytes();
        let n: usize = prefix.len();
        if bytes.len() < n {
            return None;
        }
        let (start, rest) = bytes.split_at(n);
        assert(start@ =~= bytes@.subrange(0, prefix@.len() as int));
        assert(rest@ =~= bytes@.skip(prefix@.len() as int));
        if !bytes_eq(start, prefix) {
            return None;
        }
        let i: usize = find_byte(rest, 0x0A);
        if i >= rest.len() {
            return None;
        }
        let (header, behind) = rest.split_at(i);
        let (line_break, body) = behind.split_at(1);
        assert(header@ =~= rest@.take(i as int));
        assert(body@ =~= rest@.skip(i + 1));
        Some((header, body))
    }

    /// Read a stored record: `decoded` is what its text decodes to.
    pub fn decode(bytes: &[u8], decoded: DecodedPage) -> (r: Option<CachedIndex>)
        ensures
            match page_decoded(bytes@, decoded) {
                Some(page) => r matches Some(found) && found@ == page,
                None => r is None,
            },
    {
        match (CachedIndex::split_framed(bytes), decoded) {
            (Some((_, body)), DecodedPage::Header(header)) => Some(
                CachedIndex {
                    etag: header.etag,
                    last_serial: header.last_serial,
                    fetched_at_unix: header.fetched_at_unix,
                    content_type: header.content_type,
                    fresh_secs: header.fresh_secs,
                    body: bytes_clone(body),
                },
            ),
            (None, DecodedPage::Whole(page)) => Some(page),
            _ => None,
        }
    }

    /// Summarize a stored record: `decoded` is what its text decodes to.
    pub fn summary(bytes: &[u8], decoded: Option<&DecodedPage>) -> (r: Option<CachedIndexSummary>)
        ensures
            opt_summary(r) == summarized(bytes@, opt_page(decoded)),
    {
        match (CachedIndex::split_framed(bytes), decoded) {
            (Some((_, body)), Some(DecodedPage::Header(header))) => Some(
                CachedIndexSummary {
                    fetched_at_unix: header.fetched_at_unix,
                    fresh_secs: header.fresh_secs,
                    body_bytes: body.len() as u64,
                    record_bytes: bytes.len() as u64,
                    last_serial: header.last_serial,
                    content_type: opt_clone(&header.content_type),
                },
            ),
            (None, Some(DecodedPage::Whole(page))) => Some(
                CachedIndexSummary {
                    fetched_at_unix: page.fetched_at_unix,
                    fresh_secs: page.fresh_secs,
                    body_bytes: page.body.len() as u64,
                    record_bytes: bytes.len() as u64,
                    last_serial: page.last_serial,
                    content_type: opt_clone(&page.content_type),
                },
            ),
            _ => None,
        }
    }

    /// The record with the freshness that an overlay advanced.
    pub fn with_overlay(self, overlay: Option<FreshnessOverlay>) -> (r: Self)
        ensures
            r@ == self@.overlaid(overlay),
    {
        match overlay {
            Some(overlay) => CachedIndex {
                fetched_at_unix: overlay.fetched_at_unix,
                fresh_secs: overlay.fresh_secs,
                ..self
            },
            None => self,
        }
    }
}

impl CachedIndexSummary {
    /// The summary with the freshness that an overlay advanced.
    pub fn with_overlay(self, overlay: Option<FreshnessOverlay>) -> (r: Self)
        ensures
            r == (match overlay {
                Some(overlay) => CachedIndexSummary {
                    fetched_at_unix: overlay.fetched_at_unix,
                    fresh_secs: overlay.fresh_secs,
                    ..self
                },
                None => self,
            }),
    {
        match overlay {
            Some(overlay) => CachedIndexSummary {
                fetched_at_unix: overlay.fetched_at_unix,
                fresh_secs: overlay.fresh_secs,
                ..self
            },
            None => self,
        }
    }
}

proof fn decimal_is_one_line(n: nat)
    ensures
        !decimal(n).contains('\n'),
{
    crate::text::decimal_spells(n);
    if decimal(n).contains('\n') {
        let i = choose|i: int| 0 <= i < decimal(n).len() && decimal(n)[i] == '\n';
        assert(crate::text::is_digit(decimal(n)[i]));
    }
}

proof fn signed_is_one_line(n: int)
    ensures
        !signed_decimal(n).contains('\n'),
{
    reveal_strlit("-");
    if n < 0 {
        decimal_is_one_line((-n) as nat);
        joined_contains("-"@, decimal((-n) as nat), '\n');
    } else {
        decimal_is_one_line(n as nat);
    }
}

proof fn literals_are_one_line(s: Seq<char>)
    ensures
        !json_string(s).contains('\n'),
{
    reveal(json_string);
    characters_are_one_line(s);
    joined_contains(seq!['"'], json_chars(s), '\n');
    joined_contains(seq!['"'] + json_chars(s), seq!['"'], '\n');
    assert(!seq!['"'].contains('\n'));
}

proof fn characters_are_one_line(s: Seq<char>)
    ensures
        !json_chars(s).contains('\n'),
    decreases s.len(),
{
    if s.len() > 0 {
        characters_are_one_line(s.drop_last());
        joined_contains(json_chars(s.drop_last()), json_char(s.last()), '\n');
        one_character_is_one_line(s.last());
    }
}

proof fn one_character_is_one_line(c: char)
    ensures
        !json_char(c).contains('\n'),
{
    let n = c as int;
    let spelled = json_char(c);
    if c == '"' {
        assert(spelled =~= seq!['\\', '"']);
    } else if c == '\\' {
        assert(spelled =~= seq!['\\', '\\']);
    } else if n == 0x08 {
        assert(spelled =~= seq!['\\', 'b']);
    } else if n == 0x09 {
        assert(spelled =~= seq!['\\', 't']);
    } else if n == 0x0A {
        assert(spelled =~= seq!['\\', 'n']);
    } else if n == 0x0C {
        assert(spelled =~= seq!['\\', 'f']);
    } else if n == 0x0D {
        assert(spelled =~= seq!['\\', 'r']);
    } else if n < 0x20 {
        assert(hex_char(n / 16) != '\n' && hex_char(n % 16) != '\n');
        assert(spelled =~= seq!['\\', 'u', '0', '0', hex_char(n / 16), hex_char(n % 16)]);
    } else {
        assert(spelled =~= seq![c]);
        assert(c != '\n');
    }
}

/// The frame around a record can be read back, whatever its body holds: its header line, in which no line break
/// stands, ends where its body begins.
pub proof fn records_are_framed(record: CachedIndex)
    ensures
        unframed(framed(encode_utf8(record.header_line()), record.body@)) == Some(
            (encode_utf8(record.header_line()), record.body@),
        ),
{
    header_is_one_line(record);
    encoding_of_one_line(record.header_line());
    frames_read_back(encode_utf8(record.header_line()), record.body@);
}

/// A header line holds no line break, since none of its parts does.
proof fn header_is_one_line(record: CachedIndex)
    ensures
        !record.header_line().contains('\n'),
{
    let etag = json_opt_string(opt_text(record.etag));
    let content_type = json_opt_string(opt_text(record.content_type));
    if record.etag is Some {
        literals_are_one_line(opt_text(record.etag)->0);
    }
    if record.content_type is Some {
        literals_are_one_line(opt_text(record.content_type)->0);
    }
    reveal_strlit("{\"etag\":");
    reveal_strlit(",\"last_serial\":");
    reveal_strlit(",\"fetched_at_unix\":");
    reveal_strlit(",\"content_type\":");
    reveal_strlit(",\"fresh_secs\":");
    reveal_strlit("}");
    reveal_strlit("null");
    let c = '\n';
    if record.last_serial is Some {
        decimal_is_one_line(record.last_serial->0 as nat);
    }
    signed_is_one_line(record.fetched_at_unix as int);
    if record.fresh_secs is Some {
        signed_is_one_line(record.fresh_secs->0 as int);
    }
    let a1 = "{\"etag\":"@ + etag;
    let a2 = a1 + ",\"last_serial\":"@;
    let a3 = a2 + json_opt_number(record.last_serial);
    let a4 = a3 + ",\"fetched_at_unix\":"@;
    let a5 = a4 + signed_decimal(record.fetched_at_unix as int);
    let a6 = a5 + ",\"content_type\":"@;
    let a7 = a6 + content_type;
    let a8 = a7 + ",\"fresh_secs\":"@;
    let a9 = a8 + json_opt_signed(record.fresh_secs);
    joined_contains("{\"etag\":"@, etag, c);
    joined_contains(a1, ",\"last_serial\":"@, c);
    joined_contains(a2, json_opt_number(record.last_serial), c);
    joined_contains(a3, ",\"fetched_at_unix\":"@, c);
    joined_contains(a4, signed_decimal(record.fetched_at_unix as int), c);
    joined_contains(a5, ",\"content_type\":"@, c);
    joined_contains(a6, content_type, c);
    joined_contains(a7, ",\"fresh_secs\":"@, c);
    joined_contains(a8, json_opt_signed(record.fresh_secs), c);
    joined_contains(a9, "}"@, c);
}

} // verus!
