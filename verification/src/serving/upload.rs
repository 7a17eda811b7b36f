//! Taking an upload, from the request's first checks to its acknowledgement.
use vstd::prelude::*;

use crate::collections::TextSet;
use crate::outside::{
    authority_of, parse_authority, parse_url_origin, quoted, quoted_text, url_origin_of, utf8_lossy, utf8_lossy_text,
    UrlOrigin, UrlOriginText,
};
use crate::policy::{opt_denial, DenialText, PolicyAction, PolicyDenial, REQUIRED_ATTESTATION_AUDIT_RULE};
use crate::policy_engine::{FileFacts, Policy};
use crate::quota::{Admission as QuotaAdmission, PendingQuota, QuotaRejection};
use crate::serving::admission::{conflict_reply, conflicting_content};
use crate::serving::reply::{
    missing, not_found, plain, reply, Reply, ReplyText, BAD_REQUEST, FORBIDDEN, INTERNAL_SERVER_ERROR, OK,
    SERVICE_UNAVAILABLE,
};
use crate::serving::response::{
    cache_error_response, denial_reply, error_reply, policy_denial_response, project_context, CacheContext, CacheError,
};
use crate::serving::upload_form::{upload_error_message, upload_error_status, upload_error_text, UploadError};
use crate::simple::file::File;
use crate::simple::meta::ProjectStatus;
use crate::text::{
    ascii_lower_text, bytes_eq, decimal, decimal_text, eq_ignore_ascii_case, join, joined, text_eq, texts, trim_leading,
    trim_trailing, without_leading, without_trailing,
};

verus! {

pub const METHOD_NOT_ALLOWED: u16 = 405;

pub const ACCEPTED: u16 = 202;

// ---------------------------------------------------------------------------------------------
// Browser uploads
// ---------------------------------------------------------------------------------------------

/// The request headers that tell a browser's upload, as raw values.
pub struct BrowserHeaders {
    pub origin: Option<Vec<u8>>,
    pub csrf: Option<Vec<u8>>,
    pub fetch_site: Option<Vec<u8>>,
    pub host: Option<Vec<u8>>,
}

/// Whether a header byte is text: visible ASCII, a space, or a tab.
pub open spec fn visible(b: u8) -> bool {
    32 <= b < 127 || b == 9
}

/// A header value as text, when it is text.
pub open spec fn visible_text(value: Seq<u8>) -> Option<Seq<char>> {
    if forall|i: int| 0 <= i < value.len() ==> visible(#[trigger] value[i]) {
        Some(Seq::new(value.len(), |i: int| value[i] as char))
    } else {
        None
    }
}

fn header_text(value: &Vec<u8>) -> (r: Option<String>)
    ensures
        crate::text::opt_text(r) == visible_text(value@),
{
    let mut out = String::new();
    let mut i: usize = 0;
    while i < value.len()
        invariant
            i <= value@.len(),
            out@.len() == i,
            forall|j: int| 0 <= j < i ==> visible(#[trigger] value@[j]),
            forall|j: int| 0 <= j < i ==> #[trigger] out@[j] == value@[j] as char,
        decreases value.len() - i,
    {
        let b: u8 = value[i];
        if !((32 <= b && b < 127) || b == 9) {
            assert(!visible(value@[i as int]));
            return None;
        }
        out.push(b as char);
        i = i + 1;
    }
    assert(out@ =~= Seq::new(value@.len(), |i: int| value@[i] as char));
    Some(out)
}

/// Whether a page's origin and a request's host are the same place: the same name, and the same port, which
/// a host leaves out only where the origin does.
pub open spec fn same_place(origin: UrlOriginText, host: (Seq<char>, Option<u16>)) -> bool {
    &&& origin.scheme == "http"@ || origin.scheme == "https"@
    &&& origin.host is Some
    &&& ascii_lower_text(origin.host->0) == ascii_lower_text(
        without_trailing(without_leading(host.0, '['), ']'),
    )
    &&& match host.1 {
        Some(port) => origin.effective_port == Some(port),
        None => origin.port is None,
    }
}

/// Whether a page's origin and a request's host are the same place.
pub fn origin_matches(origin: &UrlOrigin, host: &str, port: Option<u16>) -> (r: bool)
    ensures
        r == same_place(origin@, (host@, port)),
{
    let host_name = trim_trailing(trim_leading(host, '['), ']');
    let named: bool = match &origin.host {
        Some(name) => eq_ignore_ascii_case(name.as_str(), host_name),
        None => false,
    };
    (text_eq(origin.scheme.as_str(), "http") || text_eq(origin.scheme.as_str(), "https")) && named && match port {
        Some(port) => match origin.effective_port {
            Some(own) => own == port,
            None => false,
        },
        None => origin.port.is_none(),
    }
}

/// Whether an `Origin` names the place that a `Host` does.
pub open spec fn origin_names_host(origin: Seq<u8>, host: Option<Vec<u8>>) -> bool {
    match host {
        None => false,
        Some(host) => match (visible_text(origin), visible_text(host@)) {
            (Some(origin), Some(host)) => match (url_origin_of(origin), authority_of(host)) {
                (Some(origin), Some(host)) => same_place(origin, host),
                _ => false,
            },
            _ => false,
        },
    }
}

fn browser_origin_matches_host(origin: &Vec<u8>, host: &Option<Vec<u8>>) -> (r: bool)
    ensures
        r == origin_names_host(origin@, *host),
{
    let host = match host {
        Some(host) => host,
        None => {
            return false;
        },
    };
    match (header_text(origin), header_text(host)) {
        (Some(origin), Some(host)) => match (parse_url_origin(origin.as_str()), parse_authority(host.as_str())) {
            (Some(origin), Some((name, port))) => origin_matches(&origin, name.as_str(), port),
            _ => false,
        },
        _ => false,
    }
}

/// Whether a browser's upload comes from a page of this registry.
pub open spec fn browser_admitted(headers: BrowserHeaders) -> bool {
    &&& headers.origin is Some
    &&& headers.csrf is Some
    &&& (headers.origin->0)@ == (headers.csrf->0)@
    &&& headers.fetch_site is None || (headers.fetch_site->0)@ == vstd::utf8::encode_utf8("same-origin"@)
    &&& origin_names_host((headers.origin->0)@, headers.host)
}

/// Whether `r` tells a browser's upload from a client's, and refuses one that another site's page sent.
pub open spec fn is_browser_verdict(headers: BrowserHeaders, r: Result<bool, Reply>) -> bool {
    if headers.origin is None && headers.csrf is None {
        r matches Ok(browser) && !browser
    } else if browser_admitted(headers) {
        r matches Ok(browser) && browser
    } else {
        r matches Err(answer) && answer@ == plain(FORBIDDEN, "browser upload rejected"@)
    }
}

/// Tell a browser's upload from a client's, and refuse a browser's that another site's page sent.
pub fn browser_upload(headers: &BrowserHeaders) -> (r: Result<bool, Reply>)
    ensures
        is_browser_verdict(*headers, r),
{
    if headers.origin.is_none() && headers.csrf.is_none() {
        return Ok(false);
    }
    let valid: bool = match (&headers.origin, &headers.csrf) {
        (Some(origin), Some(csrf)) => {
            let same_site: bool = match &headers.fetch_site {
                Some(site) => bytes_eq(site.as_slice(), "same-origin".as_bytes()),
                None => true,
            };
            bytes_eq(origin.as_slice(), csrf.as_slice()) && same_site && browser_origin_matches_host(
                origin,
                &headers.host,
            )
        },
        _ => false,
    };
    if valid {
        Ok(true)
    } else {
        Err(reply(FORBIDDEN, "browser upload rejected"))
    }
}

/// What a browser is shown: the cause of a server error stays in the log.
pub open spec fn browser_view(browser: bool, answer: ReplyText) -> ReplyText {
    if browser && 500 <= answer.status < 600 {
        plain(answer.status, "upload storage failed"@)
    } else {
        answer
    }
}

/// Hide the cause of a server error from a browser.
pub fn browser_response(browser: bool, answer: Reply) -> (r: Reply)
    ensures
        r@ == browser_view(browser, answer@),
{
    if browser && 500 <= answer.status && answer.status < 600 {
        reply(answer.status, "upload storage failed")
    } else {
        answer
    }
}

// ---------------------------------------------------------------------------------------------
// The first checks
// ---------------------------------------------------------------------------------------------

/// A refusal, and what the audit log is told of it.
pub struct Refusal {
    pub answer: Reply,
    pub reason: Option<&'static str>,
}

/// Whether `r` is what stands against an upload to that place.
pub open spec fn is_upload_barrier(resolved: bool, at_root: bool, accepts: bool, r: Option<Refusal>) -> bool {
    if !resolved {
        r matches Some(refusal) && refusal.answer@ == missing() && refusal.reason is None
    } else if !at_root {
        r matches Some(refusal) && refusal.answer@ == missing() && refusal.reason is Some && (refusal.reason->0)@
            == "upload path must target an index root"@
    } else if !accepts {
        r matches Some(refusal) && refusal.answer@ == plain(
            METHOD_NOT_ALLOWED,
            "index does not accept uploads"@,
        ) && refusal.reason is Some && (refusal.reason->0)@ == "index does not accept uploads"@
    } else {
        r is None
    }
}

/// The checks on where an upload is sent: to an index that is there, at its root, and one that takes
/// uploads.
pub fn upload_barrier(resolved: bool, at_root: bool, accepts: bool) -> (r: Option<Refusal>)
    ensures
        is_upload_barrier(resolved, at_root, accepts, r),
{
    if !resolved {
        return Some(Refusal { answer: not_found(), reason: None });
    }
    if !at_root {
        return Some(Refusal { answer: not_found(), reason: Some("upload path must target an index root") });
    }
    if !accepts {
        return Some(
            Refusal {
                answer: reply(METHOD_NOT_ALLOWED, "index does not accept uploads"),
                reason: Some("index does not accept uploads"),
            },
        );
    }
    None
}

/// What the audit log is told of an upload.
pub struct UploadEvent {
    pub result: &'static str,
    pub reason: String,
}

/// An event, its text seen as characters.
pub struct UploadEventText {
    pub result: Seq<char>,
    pub reason: Seq<char>,
}

impl UploadEvent {
    pub open spec fn view(self) -> UploadEventText {
        UploadEventText { result: self.result@, reason: self.reason@ }
    }
}

/// An answer that ends an upload, and what the audit log is told of it.
pub struct UploadStatusBlock {
    pub answer: Reply,
    pub event: UploadEvent,
}

/// Refuse an upload that cannot be prepared.
pub fn refuse_upload(error: &UploadError) -> (r: UploadStatusBlock)
    ensures
        r.answer@ == plain(upload_error_status(*error), upload_error_text(*error)),
        r.event@ == (UploadEventText { result: "denied"@, reason: upload_error_text(*error) }),
{
    let (status, reason) = upload_error_message(error);
    UploadStatusBlock {
        answer: reply(status, reason.as_str()),
        event: UploadEvent { result: "denied", reason },
    }
}

/// What policy says of an upload: an answer where it is refused, and an event where it has anything to say.
pub struct PolicyJudgement {
    pub answer: Option<Reply>,
    pub event: Option<UploadEvent>,
}

/// The verdict of one policy on an upload.
pub open spec fn upload_verdict(
    policy: Policy,
    project: Seq<char>,
    file: File,
    facts: FileFacts,
    predicate_types: Set<Seq<char>>,
) -> Option<DenialText> {
    policy.verdict(
        opt_denial(facts.refusal),
        PolicyAction::Upload,
        crate::policy_engine::upload_facts(
            project,
            file@,
            crate::distribution::opt_distribution(facts.parsed),
            predicate_types,
        ),
    )
}

/// Whether `r` is what comes of a policy's verdict on an upload.
pub open spec fn is_upload_judgement(verdict: Option<DenialText>, action: Seq<char>, r: PolicyJudgement) -> bool {
    match verdict {
        None => r.answer is None && r.event is None,
        Some(denial) => if denial.rule == REQUIRED_ATTESTATION_AUDIT_RULE@ {
            r.answer is None && r.event is Some && (r.event->0)@ == (UploadEventText {
                result: "audit"@,
                reason: denial.reason,
            })
        } else {
            r.answer is Some && (r.answer->0)@ == denial_reply(denial, action) && r.event is Some && (r.event->0)@
                == (UploadEventText { result: "denied"@, reason: denial.reason })
        },
    }
}

/// Judge an upload by a policy. An attestation requirement in audit mode records the unmet rule but does not
/// refuse the upload.
pub fn upload_policy_response(
    policy: &Policy,
    project: &str,
    file: &File,
    facts: &FileFacts,
    predicate_types: &TextSet,
    action: &str,
) -> (r: PolicyJudgement)
    ensures
        is_upload_judgement(
            upload_verdict(*policy, project@, *file, *facts, predicate_types@),
            action@,
            r,
        ),
{
    match policy.check_upload(PolicyAction::Upload, project, file, facts, predicate_types) {
        Ok(_) => PolicyJudgement { answer: None, event: None },
        Err(denial) => {
            if text_eq(denial.rule, REQUIRED_ATTESTATION_AUDIT_RULE) {
                return PolicyJudgement {
                    answer: None,
                    event: Some(UploadEvent { result: "audit", reason: denial.reason }),
                };
            }
            let answer = policy_denial_response(&denial, action);
            PolicyJudgement {
                answer: Some(answer),
                event: Some(UploadEvent { result: "denied", reason: denial.reason }),
            }
        },
    }
}

/// What a project's status says of uploads.
pub open spec fn status_block(
    result: Result<ProjectStatus, CacheError>,
    index: Seq<char>,
    project: Seq<char>,
    action: Seq<char>,
) -> Option<(ReplyText, UploadEventText)> {
    match result {
        Ok(status) => if status is Active || status is Deprecated {
            None
        } else {
            let reason = "project "@ + quoted_text(project) + " is "@ + status.marker_text()
                + "; uploads are disabled"@;
            Some((plain(FORBIDDEN, reason), UploadEventText { result: "denied"@, reason }))
        },
        Err(error) => Some(
            (
                error_reply(error, project_context("upload storage"@, index, project), action),
                UploadEventText { result: "failure"@, reason: error.message@ },
            ),
        ),
    }
}

/// Whether `r` stands against an upload as `block` says.
pub open spec fn is_status_judgement(block: Option<(ReplyText, UploadEventText)>, r: Option<UploadStatusBlock>) -> bool {
    match block {
        None => r is None,
        Some((answer, event)) => r matches Some(found) && found.answer@ == answer && found.event@ == event,
    }
}

/// Hold an upload to its project's status.
pub fn upload_status_response(
    result: &Result<ProjectStatus, CacheError>,
    index: &str,
    project: &str,
    action: &str,
) -> (r: Option<UploadStatusBlock>)
    ensures
        is_status_judgement(status_block(*result, index@, project@, action@), r),
{
    match result {
        Ok(status) => {
            if status.allows_uploads() {
                return None;
            }
            let mut reason = "project ".to_owned();
            let name = quoted(project);
            reason.append(name.as_str());
            reason.append(" is ");
            reason.append(status.marker());
            reason.append("; uploads are disabled");
            Some(
                UploadStatusBlock {
                    answer: reply(FORBIDDEN, reason.as_str()),
                    event: UploadEvent { result: "denied", reason },
                },
            )
        },
        Err(error) => Some(
            UploadStatusBlock {
                answer: cache_error_response(error, CacheContext::upload(index, project), action),
                event: UploadEvent { result: "failure", reason: error.message.clone() },
            },
        ),
    }
}

/// What happened last before an upload is admitted.
pub enum UploadProgress {
    /// The form was read, and whether its content came.
    Collected(Result<bool, Reply>),
    /// The upload was prepared from its form.
    Prepared(Result<(), UploadError>),
    /// The caller's write to the project was decided.
    Authorized(Result<(), Reply>),
    /// The index's own policy judged it.
    JudgedByIndex(PolicyJudgement),
    /// The policy of the hosted layer behind the index judged it.
    JudgedByLayer(PolicyJudgement),
    /// The project's status was looked up.
    StatusKnown(Option<UploadStatusBlock>),
}

/// What to do next before an upload is admitted.
pub enum UploadStep {
    Answer(Reply),
    Prepare,
    Authorize,
    JudgeByIndex,
    JudgeByLayer,
    LookUpStatus,
    Admit,
}

/// A step, and what the audit log is told.
pub struct UploadAction {
    pub step: UploadStep,
    pub event: Option<UploadEvent>,
}

/// An optional event, its text seen as characters.
pub open spec fn event_text(event: Option<UploadEvent>) -> Option<UploadEventText> {
    match event {
        Some(event) => Some(event@),
        None => None,
    }
}

/// Whether `action` is the step behind `progress`.
pub open spec fn is_upload_step(progress: UploadProgress, layered: bool, action: UploadAction) -> bool {
    match progress {
        UploadProgress::Collected(Err(answer)) => action.step == UploadStep::Answer(answer) && event_text(action.event)
            == Some(UploadEventText { result: "failure"@, reason: "multipart body rejected"@ }),
        UploadProgress::Collected(Ok(false)) => (action.step matches UploadStep::Answer(answer) && answer@ == plain(
            BAD_REQUEST,
            "missing required field: "@ + "content"@,
        )) && event_text(action.event) == Some(
            UploadEventText { result: "denied"@, reason: "missing required field: "@ + "content"@ },
        ),
        UploadProgress::Collected(Ok(true)) => action.step is Prepare && action.event is None,
        UploadProgress::Prepared(Err(error)) => (action.step matches UploadStep::Answer(answer) && answer@ == plain(
            upload_error_status(error),
            upload_error_text(error),
        )) && event_text(action.event) == Some(
            UploadEventText { result: "denied"@, reason: upload_error_text(error) },
        ),
        UploadProgress::Prepared(Ok(_)) => action.step is Authorize && action.event is None,
        UploadProgress::Authorized(Err(answer)) => action.step == UploadStep::Answer(answer) && action.event is None,
        UploadProgress::Authorized(Ok(_)) => action.step is JudgeByIndex && action.event is None,
        UploadProgress::JudgedByIndex(judgement) => action.event == judgement.event && match judgement.answer {
            Some(answer) => action.step == UploadStep::Answer(answer),
            None => if layered {
                action.step is JudgeByLayer
            } else {
                action.step is LookUpStatus
            },
        },
        UploadProgress::JudgedByLayer(judgement) => action.event == judgement.event && match judgement.answer {
            Some(answer) => action.step == UploadStep::Answer(answer),
            None => action.step is LookUpStatus,
        },
        UploadProgress::StatusKnown(Some(block)) => action.step == UploadStep::Answer(block.answer) && action.event == Some(
            block.event,
        ),
        UploadProgress::StatusKnown(None) => action.step is Admit && action.event is None,
    }
}

/// Take an upload as far as its admission, step by step: the form is read whole before anything is judged, the
/// caller is authorized for the project that the upload names, every policy on the way judges it, and the
/// project's status has the last word. `layered` says whether a hosted layer other than the index takes it.
pub fn accept_upload(progress: UploadProgress, layered: bool) -> (r: UploadAction)
    ensures
        is_upload_step(progress, layered, r),
{
    match progress {
        UploadProgress::Collected(Err(answer)) => UploadAction {
            step: UploadStep::Answer(answer),
            event: Some(UploadEvent { result: "failure", reason: "multipart body rejected".to_owned() }),
        },
        UploadProgress::Collected(Ok(false)) => {
            let block = refuse_upload(&UploadError::Missing("content"));
            UploadAction { step: UploadStep::Answer(block.answer), event: Some(block.event) }
        },
        UploadProgress::Collected(Ok(true)) => UploadAction { step: UploadStep::Prepare, event: None },
        UploadProgress::Prepared(Err(error)) => {
            let block = refuse_upload(&error);
            UploadAction { step: UploadStep::Answer(block.answer), event: Some(block.event) }
        },
        UploadProgress::Prepared(Ok(_)) => UploadAction { step: UploadStep::Authorize, event: None },
        UploadProgress::Authorized(Err(answer)) => UploadAction { step: UploadStep::Answer(answer), event: None },
        UploadProgress::Authorized(Ok(_)) => UploadAction { step: UploadStep::JudgeByIndex, event: None },
        UploadProgress::JudgedByIndex(judgement) => match judgement.answer {
            Some(answer) => UploadAction { step: UploadStep::Answer(answer), event: judgement.event },
            None => UploadAction {
                step: if layered {
                    UploadStep::JudgeByLayer
                } else {
                    UploadStep::LookUpStatus
                },
                event: judgement.event,
            },
        },
        UploadProgress::JudgedByLayer(judgement) => match judgement.answer {
            Some(answer) => UploadAction { step: UploadStep::Answer(answer), event: judgement.event },
            None => UploadAction { step: UploadStep::LookUpStatus, event: judgement.event },
        },
        UploadProgress::StatusKnown(Some(block)) => UploadAction {
            step: UploadStep::Answer(block.answer),
            event: Some(block.event),
        },
        UploadProgress::StatusKnown(None) => UploadAction { step: UploadStep::Admit, event: None },
    }
}

/// Whether `next` can follow on `step`.
pub open spec fn upload_goes_on(step: UploadStep, next: UploadProgress) -> bool {
    match step {
        UploadStep::Answer(_) => false,
        UploadStep::Prepare => next is Prepared,
        UploadStep::Authorize => next is Authorized,
        UploadStep::JudgeByIndex => next is JudgedByIndex,
        UploadStep::JudgeByLayer => next is JudgedByLayer,
        UploadStep::LookUpStatus => next is StatusKnown,
        UploadStep::Admit => false,
    }
}

/// Whether `run` takes an upload from its form on, what happens following on the step before it.
pub open spec fn is_upload_run(run: Seq<(UploadProgress, UploadAction)>, layered: bool) -> bool {
    &&& run.len() > 0
    &&& run[0].0 is Collected
    &&& forall|i: int| 0 <= i < run.len() ==> #[trigger] is_upload_step(run[i].0, layered, run[i].1)
    &&& forall|i: int| 0 < i < run.len() ==> upload_goes_on(run[i - 1].1.step, (#[trigger] run[i]).0)
}

proof fn upload_order(run: Seq<(UploadProgress, UploadAction)>, layered: bool, n: int)
    requires
        is_upload_run(run, layered),
        0 <= n < run.len(),
    ensures
        n == 1 ==> run[n].0 is Prepared,
        n == 2 ==> run[n].0 is Authorized,
        n == 3 ==> run[n].0 is JudgedByIndex,
        n == 4 ==> (if layered {
            run[n].0 is JudgedByLayer
        } else {
            run[n].0 is StatusKnown
        }),
        n == 5 ==> layered && run[n].0 is StatusKnown,
        n <= 5,
    decreases n,
{
    assert(is_upload_step(run[n].0, layered, run[n].1));
    if n > 0 {
        upload_order(run, layered, n - 1);
        assert(is_upload_step(run[n - 1].0, layered, run[n - 1].1));
        assert(upload_goes_on(run[n - 1].1.step, run[n].0));
    }
}

/// An upload is admitted only when every check before it was passed, in this order: its content came, it could
/// be prepared, the caller may write to the project, the index's policy had no objection, that of the hosted
/// layer behind it had none where there is such a layer, and the project's status allows it.
pub proof fn admitted_uploads_passed_every_check(run: Seq<(UploadProgress, UploadAction)>, layered: bool, n: int)
    requires
        is_upload_run(run, layered),
        0 <= n < run.len(),
        run[n].1.step is Admit,
    ensures
        n == (if layered {
            5int
        } else {
            4int
        }),
        run[0].0 == UploadProgress::Collected(Ok(true)),
        run[1].0 matches UploadProgress::Prepared(Ok(_)),
        run[2].0 matches UploadProgress::Authorized(Ok(_)),
        run[3].0 matches UploadProgress::JudgedByIndex(judgement) && judgement.answer is None,
        layered ==> (run[4].0 matches UploadProgress::JudgedByLayer(judgement) && judgement.answer is None),
        run[n].0 == UploadProgress::StatusKnown(None),
{
    upload_order(run, layered, n);
    assert(is_upload_step(run[n].0, layered, run[n].1));
    assert(run[n].0 is StatusKnown);
    assert(n >= 4);
    upload_order(run, layered, 1);
    upload_order(run, layered, 2);
    upload_order(run, layered, 3);
    upload_order(run, layered, 4);
    assert(is_upload_step(run[0].0, layered, run[0].1) && upload_goes_on(run[0].1.step, run[1].0));
    assert(is_upload_step(run[1].0, layered, run[1].1) && upload_goes_on(run[1].1.step, run[2].0));
    assert(is_upload_step(run[2].0, layered, run[2].1) && upload_goes_on(run[2].1.step, run[3].0));
    assert(is_upload_step(run[3].0, layered, run[3].1) && upload_goes_on(run[3].1.step, run[4].0));
    assert(is_upload_step(run[4].0, layered, run[4].1));
    if n > 4 {
        assert(upload_goes_on(run[4].1.step, run[5].0));
    }
}

// ---------------------------------------------------------------------------------------------
// Quota
// ---------------------------------------------------------------------------------------------

/// What a client over its project's quota is told.
pub open spec fn size_quota_denial(limit: u64, project: Seq<char>, filename: Seq<char>, total: u64) -> DenialText {
    DenialText {
        action: PolicyAction::Upload,
        resource: project,
        artifact: Some(filename),
        group: None,
        rule: "max-project-size"@,
        field: "project_size"@,
        reason: "project size "@ + decimal(total as nat) + " would exceed limit "@ + decimal(limit as nat),
    }
}

/// What a client over its index's quota is told.
pub open spec fn limits_denial(
    repository: Seq<char>,
    labels: Seq<Seq<char>>,
    project: Seq<char>,
    filename: Seq<char>,
) -> DenialText {
    DenialText {
        action: PolicyAction::Upload,
        resource: project,
        artifact: Some(filename),
        group: None,
        rule: "index-quota"@,
        field: "quota"@,
        reason: repository + " quota exceeded: "@ + joined(labels, ", "@),
    }
}

fn denial_block(denial: PolicyDenial, action: &str) -> (r: UploadStatusBlock)
    ensures
        r.answer@ == denial_reply(denial@, action@),
        r.event@ == (UploadEventText { result: "denied"@, reason: denial@.reason }),
{
    let answer = policy_denial_response(&denial, action);
    UploadStatusBlock { answer, event: UploadEvent { result: "denied", reason: denial.reason } }
}

/// Whether `r` is what comes of asking for an upload's quota.
pub open spec fn is_quota_outcome(
    admission: Result<QuotaAdmission, CacheError>,
    limit: Option<u64>,
    labels: Seq<Seq<char>>,
    repository: Seq<char>,
    route: Seq<char>,
    project: Seq<char>,
    filename: Seq<char>,
    action: Seq<char>,
    r: Result<PendingQuota, UploadStatusBlock>,
) -> bool {
    match admission {
        Ok(QuotaAdmission::Reserved(pending)) => r == Ok::<PendingQuota, UploadStatusBlock>(pending),
        Ok(QuotaAdmission::Rejected(QuotaRejection::ProjectBytes { total })) => r matches Err(block) && {
            let denial = size_quota_denial(limit->0, project, filename, total);
            block.answer@ == denial_reply(denial, action) && block.event@ == (UploadEventText {
                result: "denied"@,
                reason: denial.reason,
            })
        },
        Ok(QuotaAdmission::Rejected(QuotaRejection::Limits(_))) => r matches Err(block) && {
            let denial = limits_denial(repository, labels, project, filename);
            block.answer@ == denial_reply(denial, action) && block.event@ == (UploadEventText {
                result: "denied"@,
                reason: denial.reason,
            })
        },
        Err(error) => r matches Err(block) && block.answer@ == error_reply(
            error,
            project_context("upload storage"@, route, project),
            action,
        ) && block.event@ == (UploadEventText { result: "failure"@, reason: error.message@ }),
    }
}

/// Go on from asking for an upload's quota. `limit` is the project's, `labels` name the limits that a
/// rejection lists, and `repository` is what an index is called.
pub fn project_quota_reservation(
    admission: Result<QuotaAdmission, CacheError>,
    limit: Option<u64>,
    labels: &Vec<String>,
    repository: &str,
    route: &str,
    project: &str,
    filename: &str,
    action: &str,
) -> (r: Result<PendingQuota, UploadStatusBlock>)
    requires
        admission matches Ok(QuotaAdmission::Rejected(QuotaRejection::ProjectBytes { total })) ==> limit is Some,
    ensures
        is_quota_outcome(
            admission,
            limit,
            texts(labels@),
            repository@,
            route@,
            project@,
            filename@,
            action@,
            r,
        ),
{
    match admission {
        Ok(QuotaAdmission::Reserved(pending)) => Ok(pending),
        Ok(QuotaAdmission::Rejected(QuotaRejection::ProjectBytes { total })) => {
            let limit: u64 = match limit {
                Some(limit) => limit,
                None => 0,
            };
            let mut reason = "project size ".to_owned();
            let is = decimal_text(total);
            reason.append(is.as_str());
            reason.append(" would exceed limit ");
            let most = decimal_text(limit);
            reason.append(most.as_str());
            Err(
                denial_block(
                    PolicyDenial {
                        action: PolicyAction::Upload,
                        resource: project.to_owned(),
                        artifact: Some(filename.to_owned()),
                        group: None,
                        rule: "max-project-size",
                        field: "project_size",
                        reason,
                    },
                    action,
                ),
            )
        },
        Ok(QuotaAdmission::Rejected(QuotaRejection::Limits(_))) => {
            let mut reason = repository.to_owned();
            reason.append(" quota exceeded: ");
            let listed = join(labels, ", ");
            reason.append(listed.as_str());
            Err(
                denial_block(
                    PolicyDenial {
                        action: PolicyAction::Upload,
                        resource: project.to_owned(),
                        artifact: Some(filename.to_owned()),
                        group: None,
                        rule: "index-quota",
                        field: "quota",
                        reason,
                    },
                    action,
                ),
            )
        },
        Err(error) => Err(
            UploadStatusBlock {
                answer: cache_error_response(&error, CacheContext::upload(route, project), action),
                event: UploadEvent { result: "failure", reason: error.message },
            },
        ),
    }
}

// ---------------------------------------------------------------------------------------------
// Storing, step by step
// ---------------------------------------------------------------------------------------------

/// What claiming an operation found.
pub enum ClaimOutcome {
    /// It is new, or still pending, or it failed before.
    Proceed,
    /// It was published, and this is the answer it was given.
    Published(Vec<u8>),
    /// The claim could not be read.
    Failed,
}

/// Where a project is first published from.
pub enum HomeClaim {
    /// No home is claimed here.
    Unclaimed,
    Claimed { home: String, epoch: u64 },
    Failed,
}

/// What a store failure is.
pub enum StoreError {
    /// The filename publishes other content.
    FileExists(String),
    /// The filename publishes the same content with other attestations.
    ProvenanceMismatch(String),
    Other(CacheError),
}

/// How durable a write is proven to be.
#[derive(Debug, Clone, Copy, PartialEq, Eq, Structural)]
pub enum WriteDurability {
    Confirmed,
    /// The quorum cannot be reached.
    Unavailable,
    Pending,
}

/// An acknowledgement.
pub struct AckResponse {
    pub status: u16,
    pub body: String,
    /// Whether the operation is finalized with it.
    pub finalize: bool,
}

/// The text of an acknowledgement.
pub open spec fn ack_text(ack: WriteDurability, operation: Seq<char>) -> Seq<char> {
    match ack {
        WriteDurability::Confirmed => "upload accepted"@,
        WriteDurability::Unavailable => "upload accepted; durability pending, retry-safe operation "@ + operation,
        WriteDurability::Pending => "upload accepted; durability pending"@,
    }
}

/// The status of an acknowledgement.
pub open spec fn ack_status(ack: WriteDurability) -> u16 {
    if ack is Confirmed {
        OK
    } else {
        ACCEPTED
    }
}

/// Whether `r` acknowledges a stored upload.
pub open spec fn is_ack(ack: WriteDurability, operation: Seq<char>, r: AckResponse) -> bool {
    &&& r.status == ack_status(ack)
    &&& r.body@ == ack_text(ack, operation)
    &&& r.finalize == (ack is Confirmed)
}

/// Acknowledge a stored upload: a write that is not yet proven durable is reported as safe to retry rather
/// than failed, and is not finalized.
pub fn ack_response(ack: WriteDurability, operation: &str) -> (r: AckResponse)
    ensures
        is_ack(ack, operation@, r),
{
    match ack {
        WriteDurability::Confirmed => AckResponse { status: OK, body: "upload accepted".to_owned(), finalize: true },
        WriteDurability::Unavailable => {
            let mut body = "upload accepted; durability pending, retry-safe operation ".to_owned();
            body.append(operation);
            AckResponse { status: ACCEPTED, body, finalize: false }
        },
        WriteDurability::Pending => AckResponse {
            status: ACCEPTED,
            body: "upload accepted; durability pending".to_owned(),
            finalize: false,
        },
    }
}

/// Whether `r` is what a claim is answered with at once.
pub open spec fn is_claim_answer(claim: ClaimOutcome, r: Option<Reply>) -> bool {
    match claim {
        ClaimOutcome::Proceed => r is None,
        ClaimOutcome::Published(response) => r matches Some(answer) && answer@ == plain(
            OK,
            utf8_lossy(response@),
        ) && (vstd::utf8::valid_utf8(response@) ==> answer@.body == vstd::utf8::decode_utf8(response@)),
        ClaimOutcome::Failed => r matches Some(answer) && answer@ == plain(
            INTERNAL_SERVER_ERROR,
            "upload admission failed"@,
        ),
    }
}

/// Short-circuit an admitted write on its operation claim: replay the answer of a write that was published,
/// or fail closed when the claim could not be read, since going on without a claim risks a second mutation.
pub fn claim_short_circuit(claim: &ClaimOutcome) -> (r: Option<Reply>)
    ensures
        is_claim_answer(*claim, r),
{
    match claim {
        ClaimOutcome::Proceed => None,
        ClaimOutcome::Published(response) => {
            let body = utf8_lossy_text(response.as_slice());
            Some(reply(OK, body.as_str()))
        },
        ClaimOutcome::Failed => Some(reply(INTERNAL_SERVER_ERROR, "upload admission failed")),
    }
}

/// What a finalized operation stores reads back as the text of its acknowledgement, so a retry is answered
/// what the first attempt was.
pub proof fn a_retry_reads_the_first_answer(operation: Seq<char>)
    ensures
        ({
            let stored = vstd::utf8::encode_utf8(ack_text(WriteDurability::Confirmed, operation));
            &&& vstd::utf8::valid_utf8(stored)
            &&& vstd::utf8::decode_utf8(stored) == ack_text(WriteDurability::Confirmed, operation)
            &&& ack_status(WriteDurability::Confirmed) == OK
        }),
{
    broadcast use vstd::utf8::encode_utf8_decode_utf8, vstd::utf8::encode_utf8_valid_utf8;

}

/// What a client is told when the project's home is elsewhere or unknown.
pub open spec fn home_unavailable() -> ReplyText {
    plain(SERVICE_UNAVAILABLE, "project authority is unavailable; retry the upload"@).with("retry-after"@, "1"@)
}

fn first_publish_unavailable() -> (r: Reply)
    ensures
        r@ == home_unavailable(),
{
    reply(SERVICE_UNAVAILABLE, "project authority is unavailable; retry the upload").with_header("retry-after", "1")
}

/// The epoch that fences a first publication from here, when it may happen here.
pub open spec fn fence_of(home: HomeClaim, local_datacenter: Option<Seq<char>>) -> Option<u64> {
    match home {
        HomeClaim::Unclaimed => Some(0u64),
        HomeClaim::Claimed { home, epoch } => if local_datacenter == Some(home@) {
            Some(epoch)
        } else {
            None
        },
        HomeClaim::Failed => None,
    }
}

/// Whether `r` hands on the epoch of a first publication, or tells where it may not happen.
pub open spec fn is_fence(fence: Option<u64>, r: Result<u64, Reply>) -> bool {
    match fence {
        Some(epoch) => r matches Ok(e) && e == epoch,
        None => r matches Err(answer) && answer@ == home_unavailable(),
    }
}

/// The epoch that fences a first publication: only the project's home publishes it first.
pub fn first_publish_fence(home: &HomeClaim, local_datacenter: Option<&str>) -> (r: Result<u64, Reply>)
    ensures
        is_fence(fence_of(*home, crate::text::opt_str(local_datacenter)), r),
{
    match home {
        HomeClaim::Unclaimed => Ok(0),
        HomeClaim::Claimed { home, epoch } => {
            let here: bool = match local_datacenter {
                Some(dc) => text_eq(dc, home.as_str()),
                None => false,
            };
            if here {
                Ok(*epoch)
            } else {
                Err(first_publish_unavailable())
            }
        },
        HomeClaim::Failed => Err(first_publish_unavailable()),
    }
}

/// What a failed store is answered, and what the audit log is told. A collision with what the filename
/// already publishes is the client's error; any other fault leaves the operation pending for a retry.
pub open spec fn store_failure(
    error: StoreError,
    route: Seq<char>,
    project: Seq<char>,
    action: Seq<char>,
) -> (ReplyText, UploadEventText) {
    match error {
        StoreError::FileExists(filename) => (
            conflict_reply(filename@),
            UploadEventText { result: "denied"@, reason: "file exists with different content"@ },
        ),
        StoreError::ProvenanceMismatch(filename) => (
            plain(
                BAD_REQUEST,
                "File already exists: "@ + quoted_text(filename@)
                    + " was published with different attestations; a re-upload cannot change them"@,
            ),
            UploadEventText { result: "denied"@, reason: "file exists with different attestations"@ },
        ),
        StoreError::Other(error) => (
            error_reply(error, project_context("upload storage"@, route, project), action),
            UploadEventText { result: "failure"@, reason: error.message@ },
        ),
    }
}

/// Answer a failed store.
pub fn upload_store_error_response(error: &StoreError, route: &str, project: &str, action: &str) -> (r:
    UploadStatusBlock)
    ensures
        (r.answer@, r.event@) == store_failure(*error, route@, project@, action@),
{
    match error {
        StoreError::FileExists(filename) => UploadStatusBlock {
            answer: conflicting_content(filename.as_str()),
            event: UploadEvent { result: "denied", reason: "file exists with different content".to_owned() },
        },
        StoreError::ProvenanceMismatch(filename) => {
            let mut body = "File already exists: ".to_owned();
            let name = quoted(filename.as_str());
            body.append(name.as_str());
            body.append(" was published with different attestations; a re-upload cannot change them");
            UploadStatusBlock {
                answer: reply(BAD_REQUEST, body.as_str()),
                event: UploadEvent { result: "denied", reason: "file exists with different attestations".to_owned() },
            }
        },
        StoreError::Other(error) => UploadStatusBlock {
            answer: cache_error_response(error, CacheContext::upload(route, project), action),
            event: UploadEvent { result: "failure", reason: error.message.clone() },
        },
    }
}

/// What happened last on the way into the store.
pub enum StoreEvent {
    Claimed(ClaimOutcome),
    HomeFound(HomeClaim),
    /// The quota was reserved, or what stood against it.
    Reserved(Result<(), UploadStatusBlock>),
    /// The file was stored afresh, or was already there.
    Stored(Result<bool, StoreError>),
    Confirmed(WriteDurability),
}

/// What to do next on the way into the store.
pub enum StoreAction {
    FindHome,
    /// Reserve the quota; the publication is fenced by this epoch.
    Reserve(u64),
    Store,
    /// Advance the intent, tell the log, and confirm how durable the write is.
    Confirm { fresh: bool },
    /// Answer. `durable` says whether the upload is in the store, `finalize` whether its operation ends.
    Finish { answer: Reply, event: Option<UploadEvent>, durable: bool, finalize: bool },
}

/// Whether an action is to answer so.
pub open spec fn finishes(
    action: StoreAction,
    answer: ReplyText,
    event: Option<UploadEventText>,
    durable: bool,
    finalize: bool,
) -> bool {
    action matches StoreAction::Finish { answer: a, event: e, durable: d, finalize: f } && a@ == answer && (match e {
        Some(e) => event == Some(e@),
        None => event is None,
    }) && d == durable && f == finalize
}

/// Whether `r` is the step behind `event` on the way into the store.
pub open spec fn is_store_step(
    event: StoreEvent,
    local_datacenter: Option<Seq<char>>,
    operation: Seq<char>,
    route: Seq<char>,
    project: Seq<char>,
    action: Seq<char>,
    r: StoreAction,
) -> bool {
    match event {
        StoreEvent::Claimed(ClaimOutcome::Proceed) => r is FindHome,
        StoreEvent::Claimed(ClaimOutcome::Published(response)) => finishes(
            r,
            plain(OK, utf8_lossy(response@)),
            None,
            false,
            false,
        ),
        StoreEvent::Claimed(ClaimOutcome::Failed) => finishes(
            r,
            plain(INTERNAL_SERVER_ERROR, "upload admission failed"@),
            None,
            false,
            false,
        ),
        StoreEvent::HomeFound(home) => match fence_of(home, local_datacenter) {
            Some(epoch) => r == StoreAction::Reserve(epoch),
            None => finishes(r, home_unavailable(), None, false, false),
        },
        StoreEvent::Reserved(Ok(_)) => r is Store,
        StoreEvent::Reserved(Err(block)) => finishes(r, block.answer@, Some(block.event@), false, false),
        StoreEvent::Stored(Ok(fresh)) => r == (StoreAction::Confirm { fresh }),
        StoreEvent::Stored(Err(error)) => finishes(
            r,
            store_failure(error, route, project, action).0,
            Some(store_failure(error, route, project, action).1),
            false,
            false,
        ),
        StoreEvent::Confirmed(ack) => finishes(
            r,
            plain(ack_status(ack), ack_text(ack, operation)),
            None,
            true,
            ack is Confirmed,
        ),
    }
}

/// Store an admitted upload, step by step: the operation is claimed before anything is mutated, the home and
/// the quota stand ahead of the store, and how durable the write is decides the answer.
pub fn store_admitted(
    event: StoreEvent,
    local_datacenter: Option<&str>,
    operation: &str,
    route: &str,
    project: &str,
    action: &str,
) -> (r: StoreAction)
    ensures
        is_store_step(
            event,
            crate::text::opt_str(local_datacenter),
            operation@,
            route@,
            project@,
            action@,
            r,
        ),
{
    match event {
        StoreEvent::Claimed(claim) => match claim_short_circuit(&claim) {
            Some(answer) => StoreAction::Finish { answer, event: None, durable: false, finalize: false },
            None => StoreAction::FindHome,
        },
        StoreEvent::HomeFound(home) => match first_publish_fence(&home, local_datacenter) {
            Ok(epoch) => StoreAction::Reserve(epoch),
            Err(answer) => StoreAction::Finish { answer, event: None, durable: false, finalize: false },
        },
        StoreEvent::Reserved(Ok(_)) => StoreAction::Store,
        StoreEvent::Reserved(Err(block)) => StoreAction::Finish {
            answer: block.answer,
            event: Some(block.event),
            durable: false,
            finalize: false,
        },
        StoreEvent::Stored(Ok(fresh)) => StoreAction::Confirm { fresh },
        StoreEvent::Stored(Err(error)) => {
            let block = upload_store_error_response(&error, route, project, action);
            StoreAction::Finish { answer: block.answer, event: Some(block.event), durable: false, finalize: false }
        },
        StoreEvent::Confirmed(ack) => {
            let ack = ack_response(ack, operation);
            StoreAction::Finish {
                answer: reply(ack.status, ack.body.as_str()),
                event: None,
                durable: true,
                finalize: ack.finalize,
            }
        },
    }
}

/// Whether `r` says if an ended upload gives its intent back.
pub open spec fn gives_intent_back(action: StoreAction, fresh: bool, r: bool) -> bool {
    r == (action matches StoreAction::Finish { answer, event, durable, finalize } && !durable && fresh)
}

/// Whether an ended upload gives its intent back: one that stored nothing releases the intent it staged
/// itself, and leaves alone one that a resend deduplicated onto.
pub fn releases_intent(action: &StoreAction, fresh: bool) -> (r: bool)
    ensures
        gives_intent_back(*action, fresh, r),
{
    match action {
        StoreAction::Finish { durable, .. } => !*durable && fresh,
        _ => false,
    }
}

/// Whether `outcome` and `reason` are what is told of a stored upload.
pub open spec fn is_store_event(fresh: bool, outcome: Seq<char>, reason: Option<Seq<char>>) -> bool {
    &&& outcome == (if fresh {
        "success"@
    } else {
        "noop"@
    })
    &&& reason is None == fresh
    &&& (!fresh ==> reason->0 == "same content already stored"@)
}

/// What a stored upload tells the audit log: a resend of content that is already there is no upload.
pub fn store_event(fresh: bool) -> (r: (&'static str, Option<&'static str>))
    ensures
        is_store_event(fresh, r.0@, crate::text::opt_str(r.1)),
{
    if fresh {
        ("success", None)
    } else {
        ("noop", Some("same content already stored"))
    }
}

/// How long a finalized operation's answer is kept for a retry.
pub const OPERATION_RETENTION_SECS: i64 = 86_400;

/// When an operation that is claimed at `now` may be forgotten.
pub fn operation_expiry(now: i64) -> (r: i64)
    requires
        now <= i64::MAX - OPERATION_RETENTION_SECS,
    ensures
        r == now + OPERATION_RETENTION_SECS,
{
    now + OPERATION_RETENTION_SECS
}

/// What the audit log is told of an upload that is not admitted.
pub fn admission_rejection() -> (r: UploadEvent)
    ensures
        r@ == (UploadEventText { result: "denied"@, reason: "ingress admission rejected"@ }),
{
    UploadEvent { result: "denied", reason: "ingress admission rejected".to_owned() }
}

} // verus!
