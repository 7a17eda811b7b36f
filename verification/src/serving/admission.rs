//! Durable ingress admission for uploads.
//!
//! Before an upload is stored, a durable write intent binds it to the tenant, the authority, the digest, the
//! size, the ingress datacenter, and an operation id. The intent gives a retried upload one identity: an
//! identical resend resolves the same intent instead of staging its bytes twice, and a resend of the same
//! filename with different content is refused as it is on publication.
use vstd::prelude::*;

use crate::outside::{json_string, json_string_text, quoted, quoted_text};
use crate::serving::reply::{
    plain, reply, Reply, ReplyText, BAD_REQUEST, INTERNAL_SERVER_ERROR, SERVICE_UNAVAILABLE,
};
use crate::text::{cut_first, cut_prefix, decimal, decimal_text, opt_str, split_once, strip_prefix};

verus! {

/// The ceilings of admission per authority, and the share of them at which backpressure trips.
pub struct IntentLimits {
    pub max_records: u64,
    pub max_bytes: u64,
    pub backpressure_percent: u64,
}

/// Bounds the retention buffer per authority so that a stalled home cannot let staged uploads grow without
/// limit. Backpressure trips one signal ahead of the hard bound.
pub fn staging_limits() -> (r: IntentLimits)
    ensures
        r.max_records == 65_536,
        r.max_bytes == 68_719_476_736,
        r.backpressure_percent == 80,
{
    IntentLimits { max_records: 65_536, max_bytes: 68_719_476_736, backpressure_percent: 80 }
}

/// How long a shed client is told to wait, in seconds.
pub const SHED_RETRY_AFTER_SECS: u64 = 30;

/// The datacenter recorded for a single node that configures no roster.
pub const STANDALONE_DC: &'static str = "local";

/// The identity of an upload offered for admission.
pub struct AdmissionRequest<'a> {
    pub tenant: &'a str,
    pub authority: &'a str,
    pub filename: &'a str,
    pub digest: &'a str,
    pub size: u64,
    pub ingress_dc: &'a str,
}

/// The key that binds an upload to its file within a tenant and an authority.
pub open spec fn intent_key_of(tenant: Seq<char>, authority: Seq<char>, filename: Seq<char>) -> Seq<char> {
    "pypi:"@ + tenant + seq![':'] + authority + seq![':'] + filename
}

/// The key that binds an upload to its file, so that an identical resend deduplicates and one with different
/// content conflicts.
pub fn intent_key(tenant: &str, authority: &str, filename: &str) -> (r: String)
    ensures
        r@ == intent_key_of(tenant@, authority@, filename@),
{
    let mut out = "pypi:".to_owned();
    out.append(tenant);
    out.push(':');
    out.append(authority);
    out.push(':');
    out.append(filename);
    assert(out@ =~= intent_key_of(tenant@, authority@, filename@));
    out
}

/// The id of the operation on an intent: its key and its content.
pub open spec fn operation_of(key: Seq<char>, digest: Seq<char>) -> Seq<char> {
    key + seq![':'] + digest
}

/// The id of the operation on an intent.
pub fn operation_id(key: &str, digest: &str) -> (r: String)
    ensures
        r@ == operation_of(key@, digest@),
{
    let mut out = key.to_owned();
    out.push(':');
    out.append(digest);
    assert(out@ =~= operation_of(key@, digest@));
    out
}

/// The payload of an intent: what a recovered intent was admitted for.
pub open spec fn intent_json(request: AdmissionRequest, operation: Seq<char>) -> Seq<char> {
    "{\"tenant\":"@ + json_string(request.tenant@) + ",\"authority\":"@ + json_string(request.authority@)
        + ",\"digest\":"@ + json_string(request.digest@) + ",\"size\":"@ + decimal(request.size as nat)
        + ",\"ingress_dc\":"@ + json_string(request.ingress_dc@) + ",\"operation\":"@ + json_string(operation) + "}"@
}

fn intent_payload(request: &AdmissionRequest<'_>, operation: &str) -> (r: String)
    ensures
        r@ == intent_json(*request, operation@),
{
    let mut out = "{\"tenant\":".to_owned();
    let tenant = json_string_text(request.tenant);
    out.append(tenant.as_str());
    out.append(",\"authority\":");
    let authority = json_string_text(request.authority);
    out.append(authority.as_str());
    out.append(",\"digest\":");
    let digest = json_string_text(request.digest);
    out.append(digest.as_str());
    out.append(",\"size\":");
    let size = decimal_text(request.size);
    out.append(size.as_str());
    out.append(",\"ingress_dc\":");
    let dc = json_string_text(request.ingress_dc);
    out.append(dc.as_str());
    out.append(",\"operation\":");
    let id = json_string_text(operation);
    out.append(id.as_str());
    out.append("}");
    out
}

/// An intent ready to be staged.
pub struct IntentDraft {
    pub key: String,
    pub operation: String,
    pub payload: String,
}

/// Whether `r` is what opening an admission comes to.
pub open spec fn is_opened(request: AdmissionRequest<'_>, shortfall: Option<Seq<char>>, r: Result<IntentDraft, Reply>) -> bool {
    match shortfall {
        Some(shortfall) => r matches Err(answer) && answer@ == plain(
            SERVICE_UNAVAILABLE,
            "same-datacenter durability unavailable: "@ + shortfall,
        ),
        None => r matches Ok(draft) && {
            let key = intent_key_of(request.tenant@, request.authority@, request.filename@);
            &&& draft.key@ == key
            &&& draft.operation@ == operation_of(key, request.digest@)
            &&& draft.payload@ == intent_json(request, operation_of(key, request.digest@))
        },
    }
}

/// Open an admission. `shortfall` says why the backend cannot prove durability within the datacenter, when
/// it cannot: a staged artifact must not be silently clobbered before its home finalizes it.
pub fn open_admission(request: &AdmissionRequest<'_>, shortfall: Option<&str>) -> (r: Result<IntentDraft, Reply>)
    ensures
        is_opened(*request, opt_str(shortfall), r),
{
    match shortfall {
        Some(shortfall) => {
            let mut body = "same-datacenter durability unavailable: ".to_owned();
            body.append(shortfall);
            return Err(reply(SERVICE_UNAVAILABLE, body.as_str()));
        },
        None => {},
    }
    let key = intent_key(request.tenant, request.authority, request.filename);
    let operation = operation_id(key.as_str(), request.digest);
    let payload = intent_payload(request, operation.as_str());
    Ok(IntentDraft { key, operation, payload })
}

/// What staging an intent came to.
#[derive(Debug, Clone, Copy, PartialEq, Eq, Structural)]
pub enum IntentStageOutcome {
    Admitted,
    Duplicate,
    Conflict,
    RejectedOverRecordLimit,
    RejectedOverByteLimit,
    /// The store failed.
    Failed,
}

/// The durable identity an admission established.
pub struct AdmittedIntent {
    pub intent_key: String,
    /// The id a retry replays under, so that the mutation runs once.
    pub operation: String,
    /// Whether this request staged the intent.
    pub fresh: bool,
}

/// The result of an admission.
pub enum Admission {
    Admitted(AdmittedIntent),
    Reject(Reply),
}

/// What a client whose filename is taken by other content is told.
pub open spec fn conflict_reply(filename: Seq<char>) -> ReplyText {
    plain(
        BAD_REQUEST,
        "File already exists: "@ + quoted_text(filename) + " has different content; use a different filename"@,
    )
}

/// Answer a client whose filename is taken by other content, as publication does.
pub fn conflicting_content(filename: &str) -> (r: Reply)
    ensures
        r@ == conflict_reply(filename@),
{
    let mut body = "File already exists: ".to_owned();
    let name = quoted(filename);
    body.append(name.as_str());
    body.append(" has different content; use a different filename");
    reply(BAD_REQUEST, body.as_str())
}

/// What a shed client is told: the bound it met, and when to come back.
pub open spec fn shed_reply(bound: Seq<char>) -> ReplyText {
    plain(
        SERVICE_UNAVAILABLE,
        "ingress admission retention is full: authority is at its "@ + bound + " ceiling"@,
    ).with("retry-after"@, decimal(SHED_RETRY_AFTER_SECS as nat))
}

fn shed(bound: &str) -> (r: Reply)
    ensures
        r@ == shed_reply(bound@),
{
    let mut body = "ingress admission retention is full: authority is at its ".to_owned();
    body.append(bound);
    body.append(" ceiling");
    reply(SERVICE_UNAVAILABLE, body.as_str()).with_number("retry-after", SHED_RETRY_AFTER_SECS)
}

/// Why an admission is refused.
pub open spec fn stage_refusal(outcome: IntentStageOutcome, filename: Seq<char>) -> Option<ReplyText> {
    match outcome {
        IntentStageOutcome::Admitted | IntentStageOutcome::Duplicate => None,
        IntentStageOutcome::Conflict => Some(conflict_reply(filename)),
        IntentStageOutcome::RejectedOverRecordLimit => Some(shed_reply("record"@)),
        IntentStageOutcome::RejectedOverByteLimit => Some(shed_reply("byte"@)),
        IntentStageOutcome::Failed => Some(plain(INTERNAL_SERVER_ERROR, "ingress admission failed"@)),
    }
}

/// Whether `r` is what closing an admission comes to.
pub open spec fn is_admission(outcome: IntentStageOutcome, filename: Seq<char>, draft: IntentDraft, r: Admission) -> bool {
    match stage_refusal(outcome, filename) {
        Some(answer) => r matches Admission::Reject(a) && a@ == answer,
        None => r matches Admission::Admitted(intent) && intent.intent_key == draft.key && intent.operation
            == draft.operation && intent.fresh == (outcome is Admitted),
    }
}

/// Close an admission: a fresh or identical intent proceeds, a conflicting one is refused, and an authority
/// at its ceiling sheds load.
pub fn admit_staged(outcome: IntentStageOutcome, filename: &str, draft: IntentDraft) -> (r: Admission)
    ensures
        is_admission(outcome, filename@, draft, r),
{
    match outcome {
        IntentStageOutcome::Admitted | IntentStageOutcome::Duplicate => Admission::Admitted(
            AdmittedIntent {
                intent_key: draft.key,
                operation: draft.operation,
                fresh: matches!(outcome, IntentStageOutcome::Admitted),
            },
        ),
        IntentStageOutcome::Conflict => Admission::Reject(conflicting_content(filename)),
        IntentStageOutcome::RejectedOverRecordLimit => Admission::Reject(shed("record")),
        IntentStageOutcome::RejectedOverByteLimit => Admission::Reject(shed("byte")),
        IntentStageOutcome::Failed => Admission::Reject(reply(INTERNAL_SERVER_ERROR, "ingress admission failed")),
    }
}

/// The datacenter this node stages into.
pub fn ingress_dc(local_datacenter: Option<&str>) -> (r: String)
    ensures
        r@ == (match local_datacenter {
            Some(dc) => dc@,
            None => STANDALONE_DC@,
        }),
{
    match local_datacenter {
        Some(dc) => dc.to_owned(),
        None => STANDALONE_DC.to_owned(),
    }
}

/// The filename that an intent key names.
pub open spec fn intent_filename(key: Seq<char>) -> Option<Seq<char>> {
    match cut_prefix(key, "pypi:"@) {
        None => None,
        Some(rest) => match cut_first(rest, ':') {
            None => None,
            Some((_, rest)) => match cut_first(rest, ':') {
                None => None,
                Some((_, filename)) => Some(filename),
            },
        },
    }
}

/// The filename that an intent key names, or nothing when the key is another ecosystem's.
pub fn pypi_filename<'a>(key: &'a str) -> (r: Option<&'a str>)
    ensures
        opt_str(r) == intent_filename(key@),
{
    let rest = match strip_prefix(key, "pypi:") {
        Some(rest) => rest,
        None => {
            return None;
        },
    };
    let rest = match split_once(rest, ':') {
        Some((_, rest)) => rest,
        None => {
            return None;
        },
    };
    match split_once(rest, ':') {
        Some((_, filename)) => Some(filename),
        None => None,
    }
}

/// An intent key names the file it was made for, whatever the filename holds, as long as neither the tenant
/// nor the authority holds a colon.
pub proof fn intent_keys_name_their_file(tenant: Seq<char>, authority: Seq<char>, filename: Seq<char>)
    requires
        !tenant.contains(':'),
        !authority.contains(':'),
    ensures
        intent_filename(intent_key_of(tenant, authority, filename)) == Some(filename),
{
    let key = intent_key_of(tenant, authority, filename);
    let inner = authority + seq![':'] + filename;
    let rest = tenant + seq![':'] + inner;
    assert(key =~= "pypi:"@ + rest);
    crate::text::cut_prefix_of_joined("pypi:"@, rest);
    crate::text::first_index_of_joined(tenant, ':', inner);
    crate::text::first_index_of_joined(authority, ':', filename);
}

/// Resending the same bytes under the same name is the same operation; other bytes under that name are
/// another operation on the same intent.
pub proof fn operations_follow_content(key: Seq<char>, a: Seq<char>, b: Seq<char>)
    ensures
        operation_of(key, a) == operation_of(key, b) ==> a == b,
{
    if operation_of(key, a) == operation_of(key, b) {
        assert(operation_of(key, a).skip(key.len() as int + 1) =~= a);
        assert(operation_of(key, b).skip(key.len() as int + 1) =~= b);
    }
}

} // verus!
