//! Replies to resolved pages and files, and to what went wrong resolving them.
use vstd::prelude::*;

use crate::outside::{json_string, json_string_text, quoted, quoted_text};
use crate::policy::{DenialText, PolicyDenial};
use crate::serving::negotiate::Format;
use crate::serving::reply::{
    plain, reply, Reply, ReplyText, BAD_GATEWAY, CONFLICT, FORBIDDEN, INTERNAL_SERVER_ERROR, NOT_FOUND, OK,
    SERVICE_UNAVAILABLE, TOO_MANY_REQUESTS,
};
use crate::simple::json::{detail_json, json_detail, json_optional, json_project_list, project_list_json, write_optional};
use crate::simple::page::{ProjectDetail, ProjectList};
use crate::store::record::AttestationAvailability;
use crate::text::{decimal, opt_str, replace, replaced, text_eq};

verus! {

pub const MIME_JSON: &'static str = "application/vnd.pypi.simple.v1+json";

pub const MIME_LEGACY_JSON: &'static str = "application/json";

pub const MIME_HTML: &'static str = "text/html; charset=utf-8";

/// The cache policy of content that its address names.
pub const IMMUTABLE: &'static str = "public, max-age=31536000, immutable";

/// What went wrong resolving a page or a file.
pub enum CacheErrorKind {
    Meta,
    Blob,
    MissingSha256,
    Quota,
    VirtualIndexCycle,
    FileNotFound,
    ArtifactRevoked,
    NoPromotableFiles,
    OfflineMissing,
    FileExists,
    AuthoritySuperseded,
    NotVolatile,
    Policy(PolicyDenial),
    RateLimited { seconds: u64 },
    UpstreamRateLimited { retry_after: Option<String> },
    /// The upstream's answer is not one the Simple API allows.
    UpstreamInvalidResponse,
    Upstream,
    Archive,
    Parse,
    Simple,
    Unavailable,
    InvalidProvenance,
    Stream,
}

/// What went wrong, and what a user is told of it.
pub struct CacheError {
    pub kind: CacheErrorKind,
    pub message: String,
}

/// What was being done when it went wrong.
pub struct CacheContext<'a> {
    pub operation: &'static str,
    pub index: Option<&'a str>,
    pub project: Option<&'a str>,
    pub digest: Option<&'a str>,
    pub filename: Option<&'a str>,
}

/// A context, its text seen as characters.
pub struct ContextText {
    pub operation: Seq<char>,
    pub index: Option<Seq<char>>,
    pub project: Option<Seq<char>>,
    pub digest: Option<Seq<char>>,
    pub filename: Option<Seq<char>>,
}

impl<'a> CacheContext<'a> {
    pub open spec fn view(self) -> ContextText {
        ContextText {
            operation: self.operation@,
            index: opt_str(self.index),
            project: opt_str(self.project),
            digest: opt_str(self.digest),
            filename: opt_str(self.filename),
        }
    }

    pub fn list(index: &'a str) -> (r: Self)
        ensures
            r@ == list_context(index@),
    {
        CacheContext { operation: "project list", index: Some(index), project: None, digest: None, filename: None }
    }

    pub fn project(index: &'a str, project: &'a str) -> (r: Self)
        ensures
            r@ == project_context("project detail"@, index@, project@),
    {
        CacheContext {
            operation: "project detail",
            index: Some(index),
            project: Some(project),
            digest: None,
            filename: None,
        }
    }

    pub fn file(index: &'a str, digest: &'a str, filename: &'a str) -> (r: Self)
        ensures
            r@ == file_context("file download"@, index@, digest@, filename@),
    {
        CacheContext {
            operation: "file download",
            index: Some(index),
            project: None,
            digest: Some(digest),
            filename: Some(filename),
        }
    }

    pub fn metadata(index: &'a str, digest: &'a str, filename: &'a str) -> (r: Self)
        ensures
            r@ == file_context("metadata fetch"@, index@, digest@, filename@),
    {
        CacheContext {
            operation: "metadata fetch",
            index: Some(index),
            project: None,
            digest: Some(digest),
            filename: Some(filename),
        }
    }

    pub fn provenance(index: &'a str, digest: &'a str, filename: &'a str) -> (r: Self)
        ensures
            r@ == file_context("provenance fetch"@, index@, digest@, filename@),
    {
        CacheContext {
            operation: "provenance fetch",
            index: Some(index),
            project: None,
            digest: Some(digest),
            filename: Some(filename),
        }
    }

    pub fn upload(index: &'a str, project: &'a str) -> (r: Self)
        ensures
            r@ == project_context("upload storage"@, index@, project@),
    {
        CacheContext {
            operation: "upload storage",
            index: Some(index),
            project: Some(project),
            digest: None,
            filename: None,
        }
    }

    pub fn mutation(operation: &'static str) -> (r: Self)
        ensures
            r@ == (ContextText { operation: operation@, index: None, project: None, digest: None, filename: None }),
    {
        CacheContext { operation, index: None, project: None, digest: None, filename: None }
    }
}

/// The context of a project list.
pub open spec fn list_context(index: Seq<char>) -> ContextText {
    ContextText { operation: "project list"@, index: Some(index), project: None, digest: None, filename: None }
}

/// The context of an operation on a project.
pub open spec fn project_context(operation: Seq<char>, index: Seq<char>, project: Seq<char>) -> ContextText {
    ContextText { operation, index: Some(index), project: Some(project), digest: None, filename: None }
}

/// The context of an operation on a file.
pub open spec fn file_context(
    operation: Seq<char>,
    index: Seq<char>,
    digest: Seq<char>,
    filename: Seq<char>,
) -> ContextText {
    ContextText { operation, index: Some(index), project: None, digest: Some(digest), filename: Some(filename) }
}

/// Whether an operation reads records of this registry's own.
pub open spec fn reads_own_records(operation: Seq<char>) -> bool {
    operation == "upload storage"@ || operation == "file removal"@ || operation == "promotion"@
}

/// The status of an error: a parse failure is this registry's fault where it read its own records, and the
/// upstream's elsewhere.
pub open spec fn error_status(kind: CacheErrorKind, operation: Seq<char>) -> u16 {
    match kind {
        CacheErrorKind::Meta
        | CacheErrorKind::Blob
        | CacheErrorKind::MissingSha256
        | CacheErrorKind::Quota
        | CacheErrorKind::VirtualIndexCycle => INTERNAL_SERVER_ERROR,
        CacheErrorKind::FileNotFound | CacheErrorKind::ArtifactRevoked | CacheErrorKind::NoPromotableFiles => NOT_FOUND,
        CacheErrorKind::OfflineMissing => SERVICE_UNAVAILABLE,
        CacheErrorKind::FileExists | CacheErrorKind::AuthoritySuperseded => CONFLICT,
        CacheErrorKind::NotVolatile | CacheErrorKind::Policy(_) => FORBIDDEN,
        CacheErrorKind::RateLimited { .. } | CacheErrorKind::UpstreamRateLimited { .. } => TOO_MANY_REQUESTS,
        CacheErrorKind::Parse => if reads_own_records(operation) {
            INTERNAL_SERVER_ERROR
        } else {
            BAD_GATEWAY
        },
        _ => BAD_GATEWAY,
    }
}

fn cache_error_status(kind: &CacheErrorKind, context: &CacheContext<'_>) -> (r: u16)
    ensures
        r == error_status(*kind, context@.operation),
{
    match kind {
        CacheErrorKind::Meta
        | CacheErrorKind::Blob
        | CacheErrorKind::MissingSha256
        | CacheErrorKind::Quota
        | CacheErrorKind::VirtualIndexCycle => INTERNAL_SERVER_ERROR,
        CacheErrorKind::FileNotFound | CacheErrorKind::ArtifactRevoked | CacheErrorKind::NoPromotableFiles => NOT_FOUND,
        CacheErrorKind::OfflineMissing => SERVICE_UNAVAILABLE,
        CacheErrorKind::FileExists | CacheErrorKind::AuthoritySuperseded => CONFLICT,
        CacheErrorKind::NotVolatile | CacheErrorKind::Policy(_) => FORBIDDEN,
        CacheErrorKind::RateLimited { .. } | CacheErrorKind::UpstreamRateLimited { .. } => TOO_MANY_REQUESTS,
        CacheErrorKind::Parse => {
            if text_eq(context.operation, "upload storage") || text_eq(context.operation, "file removal") || text_eq(
                context.operation,
                "promotion",
            ) {
                INTERNAL_SERVER_ERROR
            } else {
                BAD_GATEWAY
            }
        },
        CacheErrorKind::UpstreamInvalidResponse
        | CacheErrorKind::Upstream
        | CacheErrorKind::Archive
        | CacheErrorKind::Simple
        | CacheErrorKind::Unavailable
        | CacheErrorKind::InvalidProvenance
        | CacheErrorKind::Stream => BAD_GATEWAY,
    }
}

/// A quoted part of a message, when it is there.
pub open spec fn quoted_part(label: Seq<char>, value: Option<Seq<char>>) -> Seq<char> {
    match value {
        Some(text) => label + quoted_text(text),
        None => Seq::empty(),
    }
}

/// A plain part of a message, when it is there.
pub open spec fn plain_part(label: Seq<char>, value: Option<Seq<char>>) -> Seq<char> {
    match value {
        Some(text) => label + text,
        None => Seq::empty(),
    }
}

/// What a user is told: the operation, what it was about, and the error.
pub open spec fn error_message(context: ContextText, message: Seq<char>) -> Seq<char> {
    context.operation + quoted_part(" on index "@, context.index) + quoted_part(" for project "@, context.project)
        + quoted_part(" for file "@, context.filename) + plain_part(" with digest "@, context.digest) + ": "@ + message
}

fn push_quoted(out: &mut String, label: &str, value: Option<&str>)
    ensures
        final(out)@ == old(out)@ + quoted_part(label@, opt_str(value)),
{
    let ghost start = out@;
    match value {
        Some(text) => {
            let literal = quoted(text);
            out.append(label);
            out.append(literal.as_str());
            assert(out@ =~= start + (label@ + quoted_text(text@)));
        },
        None => {
            assert(out@ =~= start + Seq::<char>::empty());
        },
    }
}

fn cache_error_message(message: &str, context: &CacheContext<'_>) -> (r: String)
    ensures
        r@ == error_message(context@, message@),
{
    let mut out = context.operation.to_owned();
    push_quoted(&mut out, " on index ", context.index);
    push_quoted(&mut out, " for project ", context.project);
    push_quoted(&mut out, " for file ", context.filename);
    let ghost start = out@;
    match context.digest {
        Some(digest) => {
            out.append(" with digest ");
            out.append(digest);
            assert(out@ =~= start + (" with digest "@ + digest@));
        },
        None => {
            assert(out@ =~= start + Seq::<char>::empty());
        },
    }
    out.append(": ");
    out.append(message);
    out
}

/// What is answered to an error. A policy's refusal says what it refuses; a rate limit says when to come
/// back, as far as it is known.
pub open spec fn error_reply(error: CacheError, context: ContextText, action: Seq<char>) -> ReplyText {
    let answer = plain(error_status(error.kind, context.operation), error_message(context, error.message@));
    match error.kind {
        CacheErrorKind::Policy(denial) => denial_reply(denial@, action),
        CacheErrorKind::RateLimited { seconds } => answer.with("retry-after"@, decimal(seconds as nat)),
        CacheErrorKind::UpstreamRateLimited { retry_after: Some(value) } => answer.with("retry-after"@, value@),
        _ => answer,
    }
}

/// Answer an error. `action` is the wire name of the action that a refusing policy judged.
pub fn cache_error_response(error: &CacheError, context: CacheContext<'_>, action: &str) -> (r: Reply)
    ensures
        r@ == error_reply(*error, context@, action@),
{
    let status: u16 = cache_error_status(&error.kind, &context);
    let body = cache_error_message(error.message.as_str(), &context);
    match &error.kind {
        CacheErrorKind::Policy(denial) => policy_denial_response(denial, action),
        CacheErrorKind::RateLimited { seconds } => reply(status, body.as_str()).with_number("retry-after", *seconds),
        CacheErrorKind::UpstreamRateLimited { retry_after } => match retry_after {
            Some(value) => reply(status, body.as_str()).with_header("retry-after", value.as_str()),
            None => reply(status, body.as_str()),
        },
        _ => reply(status, body.as_str()),
    }
}

// ---------------------------------------------------------------------------------------------
// Policy denials
// ---------------------------------------------------------------------------------------------

/// The name a rule goes by here.
pub open spec fn rule_named(rule: Seq<char>) -> Seq<char> {
    if rule == "resource-allow-list"@ {
        "project-allow-list"@
    } else if rule == "resource-block-list"@ {
        "project-block-list"@
    } else if rule == "max-artifact-size"@ {
        "max-file-size"@
    } else {
        rule
    }
}

fn pypi_rule<'a>(rule: &'a str) -> (r: &'a str)
    ensures
        r@ == rule_named(rule@),
{
    if text_eq(rule, "resource-allow-list") {
        "project-allow-list"
    } else if text_eq(rule, "resource-block-list") {
        "project-block-list"
    } else if text_eq(rule, "max-artifact-size") {
        "max-file-size"
    } else {
        rule
    }
}

/// The name a field goes by here.
pub open spec fn field_named(field: Seq<char>) -> Seq<char> {
    if field == "resource"@ {
        "project"@
    } else if field == "artifact"@ {
        "filename"@
    } else if field == "group"@ {
        "version"@
    } else {
        field
    }
}

fn pypi_field<'a>(field: &'a str) -> (r: &'a str)
    ensures
        r@ == field_named(field@),
{
    if text_eq(field, "resource") {
        "project"
    } else if text_eq(field, "artifact") {
        "filename"
    } else if text_eq(field, "group") {
        "version"
    } else {
        field
    }
}

/// A reason in this ecosystem's words.
pub open spec fn reason_worded(reason: Seq<char>) -> Seq<char> {
    replaced(replaced(reason, "resource "@, "project "@), "artifact "@, "file "@)
}

/// Say a reason in this ecosystem's words.
pub fn pypi_reason(reason: &str) -> (r: String)
    ensures
        r@ == reason_worded(reason@),
{
    proof {
        reveal_strlit("resource ");
        reveal_strlit("artifact ");
    }
    let projects = replace(reason, "resource ", "project ");
    replace(projects.as_str(), "artifact ", "file ")
}

/// The JSON form of a denial.
pub open spec fn denial_json(denial: DenialText, action: Seq<char>) -> Seq<char> {
    "{\"action\":"@ + json_string(action) + ",\"project\":"@ + json_string(denial.resource) + json_optional(
        ",\"filename\":"@,
        denial.artifact,
    ) + json_optional(",\"version\":"@, denial.group) + ",\"rule\":"@ + json_string(rule_named(denial.rule))
        + ",\"field\":"@ + json_string(field_named(denial.field)) + ",\"reason\":"@ + json_string(
        reason_worded(denial.reason),
    ) + "}"@
}

/// What a refused caller is answered.
pub open spec fn denial_reply(denial: DenialText, action: Seq<char>) -> ReplyText {
    plain(FORBIDDEN, denial_json(denial, action)).with("content-type"@, "application/json"@)
}

/// Answer a policy's refusal, in this ecosystem's words.
pub fn policy_denial_response(denial: &PolicyDenial, action: &str) -> (r: Reply)
    ensures
        r@ == denial_reply(denial@, action@),
{
    let mut body = "{\"action\":".to_owned();
    let action = json_string_text(action);
    body.append(action.as_str());
    body.append(",\"project\":");
    let project = json_string_text(denial.resource.as_str());
    body.append(project.as_str());
    write_optional(&mut body, ",\"filename\":", crate::text::opt_as_str(&denial.artifact));
    write_optional(&mut body, ",\"version\":", crate::text::opt_as_str(&denial.group));
    body.append(",\"rule\":");
    let rule = json_string_text(pypi_rule(denial.rule));
    body.append(rule.as_str());
    body.append(",\"field\":");
    let field = json_string_text(pypi_field(denial.field));
    body.append(field.as_str());
    body.append(",\"reason\":");
    let reason = pypi_reason(denial.reason.as_str());
    let reason = json_string_text(reason.as_str());
    body.append(reason.as_str());
    body.append("}");
    reply(FORBIDDEN, body.as_str()).with_header("content-type", "application/json")
}

// ---------------------------------------------------------------------------------------------
// Pages
// ---------------------------------------------------------------------------------------------

/// A page with the serial it stands at, when it has one.
pub open spec fn at_serial(answer: ReplyText, last_serial: Option<u64>) -> ReplyText {
    match last_serial {
        Some(serial) => answer.replacing("x-pypi-last-serial"@, decimal(serial as nat)),
        None => answer,
    }
}

/// Say which serial a page stands at.
pub fn with_last_serial(answer: Reply, last_serial: Option<u64>) -> (r: Reply)
    ensures
        r@ == at_serial(answer@, last_serial),
{
    match last_serial {
        Some(serial) => answer.replacing_number("x-pypi-last-serial", serial),
        None => answer,
    }
}

/// A Simple API page of a media type.
pub open spec fn page_of(media: Seq<char>, body: Seq<char>, last_serial: Option<u64>) -> ReplyText {
    at_serial(plain(OK, body).with("content-type"@, media).with("vary"@, "Accept"@), last_serial)
}

/// A Simple API page in JSON.
pub fn json_page(body: &str, last_serial: Option<u64>) -> (r: Reply)
    ensures
        r@ == page_of(MIME_JSON@, body@, last_serial),
{
    with_last_serial(reply(OK, body).with_header("content-type", MIME_JSON).with_header("vary", "Accept"), last_serial)
}

/// A Simple API page in HTML, already rendered.
pub fn html_page(body: &str, last_serial: Option<u64>) -> (r: Reply)
    ensures
        r@ == page_of(MIME_HTML@, body@, last_serial),
{
    with_last_serial(reply(OK, body).with_header("content-type", MIME_HTML).with_header("vary", "Accept"), last_serial)
}

/// A legacy JSON document.
pub open spec fn legacy_page(body: Seq<char>, last_serial: Option<u64>) -> ReplyText {
    at_serial(plain(OK, body).with("content-type"@, MIME_LEGACY_JSON@), last_serial)
}

/// A legacy JSON document, already rendered.
pub fn legacy_bytes_response(body: &str, last_serial: Option<u64>) -> (r: Reply)
    ensures
        r@ == legacy_page(body@, last_serial),
{
    with_last_serial(reply(OK, body).with_header("content-type", MIME_LEGACY_JSON), last_serial)
}

/// What a project list is answered with. `html` is its rendering in HTML.
pub open spec fn list_reply(
    result: Result<(ProjectList, Option<u64>), CacheError>,
    format: Format,
    index: Seq<char>,
    html: Seq<char>,
    action: Seq<char>,
) -> ReplyText {
    match result {
        Ok((list, last_serial)) => match format {
            Format::Json => page_of(MIME_JSON@, json_project_list(list), last_serial),
            Format::Html => page_of(MIME_HTML@, html, last_serial),
        },
        Err(error) => error_reply(error, list_context(index), action),
    }
}

/// Negotiated project-list response.
pub fn index_response(
    result: &Result<(ProjectList, Option<u64>), CacheError>,
    format: Format,
    index: &str,
    html: &str,
    action: &str,
) -> (r: Reply)
    ensures
        r@ == list_reply(*result, format, index@, html@, action@),
{
    match result {
        Ok((list, last_serial)) => match format {
            Format::Json => {
                let body = project_list_json(list);
                json_page(body.as_str(), *last_serial)
            },
            Format::Html => html_page(html, *last_serial),
        },
        Err(error) => cache_error_response(error, CacheContext::list(index), action),
    }
}

/// A resolved project page.
pub struct DetailPage {
    pub detail: ProjectDetail,
    pub last_serial: Option<u64>,
    pub revoked_files_removed: bool,
}

/// What a project that is not there is answered.
pub open spec fn project_missing(project: Seq<char>, index: Seq<char>) -> ReplyText {
    plain(NOT_FOUND, "project "@ + quoted_text(project) + " was not found on index "@ + quoted_text(index))
}

fn project_not_found(project: &str, index: &str) -> (r: Reply)
    ensures
        r@ == project_missing(project@, index@),
{
    let mut body = "project ".to_owned();
    let name = quoted(project);
    body.append(name.as_str());
    body.append(" was not found on index ");
    let at = quoted(index);
    body.append(at.as_str());
    reply(NOT_FOUND, body.as_str())
}

/// What failing to resolve a project is answered: an upstream that answered out of form is named as it is.
pub open spec fn detail_error(error: CacheError, index: Seq<char>, project: Seq<char>, action: Seq<char>) -> ReplyText {
    if error.kind is UpstreamInvalidResponse {
        plain(BAD_GATEWAY, error.message@)
    } else {
        error_reply(error, project_context("project detail"@, index, project), action)
    }
}

fn detail_error_response(error: &CacheError, index: &str, project: &str, action: &str) -> (r: Reply)
    ensures
        r@ == detail_error(*error, index@, project@, action@),
{
    if matches!(error.kind, CacheErrorKind::UpstreamInvalidResponse) {
        return reply(BAD_GATEWAY, error.message.as_str());
    }
    cache_error_response(error, CacheContext::project(index, project), action)
}

/// The JSON page of a resolved project, or what its resolution earned.
pub open spec fn detail_reply(
    result: Result<Option<DetailPage>, CacheError>,
    index: Seq<char>,
    project: Seq<char>,
    action: Seq<char>,
) -> ReplyText {
    match result {
        Ok(Some(page)) => page_of(MIME_JSON@, json_detail(page.detail), page.last_serial),
        Ok(None) => project_missing(project, index),
        Err(error) => detail_error(error, index, project, action),
    }
}

/// The JSON representation of a project, or the status its resolution earned.
pub fn detail_response(
    result: &Result<Option<DetailPage>, CacheError>,
    index: &str,
    project: &str,
    action: &str,
) -> (r: Reply)
    ensures
        r@ == detail_reply(*result, index@, project@, action@),
{
    match result {
        Ok(Some(page)) => {
            let body = detail_json(&page.detail);
            json_page(body.as_str(), page.last_serial)
        },
        Ok(None) => project_not_found(project, index),
        Err(error) => detail_error_response(error, index, project, action),
    }
}

/// How an optional version is shown in a message.
pub open spec fn version_shown(version: Option<Seq<char>>) -> Seq<char> {
    match version {
        Some(version) => "Some("@ + quoted_text(version) + ")"@,
        None => "None"@,
    }
}

/// What a legacy JSON request that found no document is answered.
pub open spec fn legacy_reply(
    result: Result<Option<DetailPage>, CacheError>,
    index: Seq<char>,
    project: Seq<char>,
    version: Option<Seq<char>>,
    action: Seq<char>,
) -> ReplyText {
    match result {
        Ok(Some(_)) => plain(
            NOT_FOUND,
            "version "@ + version_shown(version) + " was not found for project "@ + quoted_text(project)
                + " on index "@ + quoted_text(index),
        ),
        Ok(None) => project_missing(project, index),
        Err(error) => detail_error(error, index, project, action),
    }
}

/// Answer a legacy JSON request for which no document was rendered: a project that did resolve lacks the
/// release asked for.
pub fn legacy_json_response(
    result: &Result<Option<DetailPage>, CacheError>,
    index: &str,
    project: &str,
    version: Option<&str>,
    action: &str,
) -> (r: Reply)
    ensures
        r@ == legacy_reply(*result, index@, project@, opt_str(version), action@),
{
    match result {
        Ok(Some(_)) => {
            let mut body = "version ".to_owned();
            match version {
                Some(version) => {
                    body.append("Some(");
                    let shown = quoted(version);
                    body.append(shown.as_str());
                    body.append(")");
                },
                None => {
                    body.append("None");
                },
            }
            assert(body@ =~= "version "@ + version_shown(opt_str(version)));
            body.append(" was not found for project ");
            let name = quoted(project);
            body.append(name.as_str());
            body.append(" on index ");
            let at = quoted(index);
            body.append(at.as_str());
            reply(NOT_FOUND, body.as_str())
        },
        Ok(None) => project_not_found(project, index),
        Err(error) => detail_error_response(error, index, project, action),
    }
}

// ---------------------------------------------------------------------------------------------
// Files
// ---------------------------------------------------------------------------------------------

/// The headers of an artifact.
pub open spec fn file_headers() -> Seq<(Seq<char>, Seq<char>)> {
    seq![("content-type"@, "application/octet-stream"@), ("cache-control"@, IMMUTABLE@)]
}

/// Whether `r` answers a request for an artifact.
pub open spec fn is_file_answer(result: Result<(), CacheError>, context: ContextText, action: Seq<char>, r: Reply) -> bool {
    match result {
        Ok(_) => r@ == (ReplyText { status: OK, headers: file_headers(), body: Seq::empty() }),
        Err(error) => r@ == error_reply(error, context, action),
    }
}

/// The headers of an artifact, or the answer to why there is none. The body is the artifact itself.
pub fn file_response(result: Result<(), CacheError>, context: CacheContext<'_>, action: &str) -> (r: Reply)
    ensures
        is_file_answer(result, context@, action@, r),
{
    match result {
        Ok(_) => {
            let r = reply(OK, "").with_header("content-type", "application/octet-stream").with_header(
                "cache-control",
                IMMUTABLE,
            );
            proof {
                reveal_strlit("");
                assert(""@ =~= Seq::<char>::empty());
                assert(r@.headers =~= file_headers());
            }
            r
        },
        Err(error) => cache_error_response(&error, context, action),
    }
}

/// A provenance document, without its bytes.
pub struct ProvenanceBody {
    pub media_type: String,
    /// Whether its content is fixed by its address.
    pub immutable: bool,
    /// Who vouches for it.
    pub source: String,
    /// Whether `source` can stand in a header.
    pub source_is_visible: bool,
    pub availability: AttestationAvailability,
}

/// The headers of a provenance document, which never describe an upstream document as verified.
pub open spec fn provenance_headers(body: ProvenanceBody) -> Seq<(Seq<char>, Seq<char>)> {
    seq![
        ("content-type"@, body.media_type@),
        (
            "cache-control"@,
            if body.immutable {
                IMMUTABLE@
            } else {
                "no-cache"@
            },
        ),
        (
            "x-peryx-provenance-source"@,
            if body.source_is_visible {
                body.source@
            } else {
                "upstream"@
            },
        ),
        (
            "x-peryx-provenance-availability"@,
            match body.availability {
                AttestationAvailability::Cached => "cached"@,
                AttestationAvailability::RemoteOnly => "remote-only"@,
            },
        ),
    ]
}

/// Whether `r` answers a request for a provenance document.
pub open spec fn is_provenance_answer(result: Result<ProvenanceBody, CacheError>, context: ContextText, action: Seq<char>, r: Reply) -> bool {
    match result {
        Ok(body) => r@ == (ReplyText { status: OK, headers: provenance_headers(body), body: Seq::empty() }),
        Err(error) => r@ == error_reply(error, context, action),
    }
}

/// Map a provenance result to a response without describing an upstream document as verified.
pub fn provenance_response(
    result: &Result<ProvenanceBody, CacheError>,
    context: CacheContext<'_>,
    action: &str,
) -> (r: Reply)
    ensures
        is_provenance_answer(*result, context@, action@, r),
{
    match result {
        Ok(body) => {
            let policy: &str = if body.immutable {
                IMMUTABLE
            } else {
                "no-cache"
            };
            let source: &str = if body.source_is_visible {
                body.source.as_str()
            } else {
                "upstream"
            };
            let availability: &str = match body.availability {
                AttestationAvailability::Cached => "cached",
                AttestationAvailability::RemoteOnly => "remote-only",
            };
            let r = reply(OK, "").with_header("content-type", body.media_type.as_str()).with_header(
                "cache-control",
                policy,
            ).with_header("x-peryx-provenance-source", source).with_header(
                "x-peryx-provenance-availability",
                availability,
            );
            proof {
                reveal_strlit("");
                assert(""@ =~= Seq::<char>::empty());
                assert(r@.headers =~= provenance_headers(*body));
            }
            r
        },
        Err(error) => cache_error_response(error, context, action),
    }
}

} // verus!
