//! What replies promise: what a user is told, which headers an answer carries, and how a header or a query is read.
use vstd::prelude::*;

use crate::outside::{json_string, quoted_text};
use crate::policy::DenialText;
use crate::serving::access::{project_changed, shows_change};
use crate::store::keys::key_project;
use crate::serving::admission::{conflict_reply, intent_json, shed_reply, stage_refusal, AdmissionRequest, IntentStageOutcome};
use crate::serving::blob::{content_range, length_text, part_status, range_fits, RangeRequest};
use crate::serving::negotiate::{accept_range, claims_after, claims_of_pieces, parameter_read, parameters_of, Parameters, Preference};
use crate::serving::reply::{called_otherwise, challenge, header_named, Reply, ReplyText};
use crate::serving::response::{
    at_serial, denial_json, denial_reply, detail_error, detail_reply, error_message, error_reply, error_status,
    file_context, file_headers, is_file_answer, is_provenance_answer, legacy_page, legacy_reply, list_context, page_of,
    project_context, project_missing, reads_own_records, reason_worded, rule_named, CacheError, CacheErrorKind,
    ContextText, DetailPage, ProvenanceBody,
};
use crate::serving::route::{legacy_refusal, redirect, unacceptable, Segment};
use crate::serving::upload::{home_unavailable, limits_denial, size_quota_denial, visible, visible_text};
use crate::search::scope::IndexEntry;
use crate::text::{ascii_lower_text, decimal, first_index_of_joined, holds_text, joined, joined_texts_hold, trimmed};

verus! {

// ---------------------------------------------------------------------------------------------
// What a user is told
// ---------------------------------------------------------------------------------------------

/// What went wrong is told with what was being done and the index it was done on.
pub proof fn errors_tell_what_was_being_done(
    operation: Seq<char>,
    index: Seq<char>,
    project: Seq<char>,
    digest: Seq<char>,
    filename: Seq<char>,
    message: Seq<char>,
)
    ensures
        error_message(list_context(index), message) == "project list"@ + (" on index "@ + quoted_text(index)) + ": "@
            + message,
        error_message(project_context(operation, index, project), message) == operation + (" on index "@ + quoted_text(
            index,
        )) + (" for project "@ + quoted_text(project)) + ": "@ + message,
        error_message(file_context(operation, index, digest, filename), message) == operation + (" on index "@
            + quoted_text(index)) + (" for file "@ + quoted_text(filename)) + (" with digest "@ + digest) + ": "@ + message,
{
    let nothing = Seq::<char>::empty();
    assert(error_message(list_context(index), message) =~= "project list"@ + (" on index "@ + quoted_text(index)) + ": "@
        + message);
    assert(error_message(project_context(operation, index, project), message) =~= operation + (" on index "@ + quoted_text(
        index,
    )) + (" for project "@ + quoted_text(project)) + ": "@ + message);
    assert(error_message(file_context(operation, index, digest, filename), message) =~= operation + (" on index "@
        + quoted_text(index)) + (" for file "@ + quoted_text(filename)) + (" with digest "@ + digest) + ": "@ + message);
}

/// A document that cannot be parsed is this registry's fault where it reads its own records, and the upstream's
/// elsewhere.
pub proof fn parse_failures_have_their_culprit(operation: Seq<char>)
    ensures
        reads_own_records(operation) <==> operation == "upload storage"@ || operation == "file removal"@ || operation
            == "promotion"@,
        error_status(CacheErrorKind::Parse, operation) == (if operation == "upload storage"@ || operation
            == "file removal"@ || operation == "promotion"@ {
            500u16
        } else {
            502u16
        }),
{
}

/// A refusing policy's answer says what it refuses. A rate limit says when to come back, as far as it is known. Every
/// other error is told in its context.
pub proof fn limits_say_when_to_come_back(error: CacheError, context: ContextText, action: Seq<char>)
    ensures
        error.kind matches CacheErrorKind::Policy(denial) ==> error_reply(error, context, action) == denial_reply(
            denial@,
            action,
        ),
        error.kind matches CacheErrorKind::RateLimited { seconds } ==> {
            let answer = error_reply(error, context, action);
            answer.status == 429 && answer.headers == seq![("retry-after"@, decimal(seconds as nat))] && answer.body
                == error_message(context, error.message@)
        },
        error.kind matches CacheErrorKind::UpstreamRateLimited { retry_after } ==> {
            let answer = error_reply(error, context, action);
            &&& answer.status == 429
            &&& retry_after matches Some(value) ==> answer.headers == seq![("retry-after"@, value@)]
            &&& retry_after is None ==> answer.headers.len() == 0
        },
        error.kind is FileNotFound ==> error_reply(error, context, action).body == error_message(context, error.message@),
{
}

/// A denial's object says the action, the project and the rule in this ecosystem's words.
pub proof fn denial_objects_say_what_was_denied(denial: DenialText, action: Seq<char>)
    ensures
        denial_reply(denial, action).status == 403,
        denial_reply(denial, action).body == denial_json(denial, action),
        holds_text(denial_json(denial, action), json_string(denial.resource)),
        holds_text(denial_json(denial, action), json_string(rule_named(denial.rule))),
        holds_text(denial_json(denial, action), json_string(reason_worded(denial.reason))),
{
    let whole = denial_json(denial, action);
    let head = "{\"action\":"@ + json_string(action) + ",\"project\":"@;
    let project = json_string(denial.resource);
    let middle = crate::simple::json::json_optional(",\"filename\":"@, denial.artifact)
        + crate::simple::json::json_optional(",\"version\":"@, denial.group) + ",\"rule\":"@;
    let rule = json_string(rule_named(denial.rule));
    let field = ",\"field\":"@ + json_string(crate::serving::response::field_named(denial.field)) + ",\"reason\":"@;
    let reason = json_string(reason_worded(denial.reason));
    let tail = "}"@;
    assert(whole =~= head + project + (middle + rule + field + reason + tail));
    joined_texts_hold(head, project, middle + rule + field + reason + tail);
    assert(whole =~= (head + project + middle) + rule + (field + reason + tail));
    joined_texts_hold(head + project + middle, rule, field + reason + tail);
    assert(whole =~= (head + project + middle + rule + field) + reason + tail);
    joined_texts_hold(head + project + middle + rule + field, reason, tail);
}

// ---------------------------------------------------------------------------------------------
// Headers
// ---------------------------------------------------------------------------------------------

/// A header that replaces others of its name stands once, with its value; every other header stays.
pub proof fn replaced_headers_stand_once(answer: ReplyText, name: Seq<char>, value: Seq<char>, other: (Seq<char>, Seq<char>))
    ensures
        ({
            let r = answer.replacing(name, value);
            &&& r.status == answer.status && r.body == answer.body
            &&& r.headers.last() == (name, value)
            &&& forall|i: int| 0 <= i < r.headers.len() - 1 ==> (#[trigger] r.headers[i]).0 != name
            &&& answer.headers.contains(other) && other.0 != name ==> r.headers.contains(other)
            &&& r.header(name) == Some(value)
        }),
{
    let keep = called_otherwise(name);
    broadcast use vstd::seq_lib::group_filter_ensures;

    let kept = answer.headers.filter(keep);
    let r = answer.replacing(name, value);
    assert(r.headers == kept.push((name, value)));
    assert forall|i: int| 0 <= i < r.headers.len() - 1 implies (#[trigger] r.headers[i]).0 != name by {
        assert(r.headers[i] == kept[i]);
        assert(keep(kept[i]));
    }
    if answer.headers.contains(other) && other.0 != name {
        let k = choose|k: int| 0 <= k < answer.headers.len() && answer.headers[k] == other;
        assert(keep(answer.headers[k]));
        assert(kept.contains(answer.headers[k]));
        let m = choose|m: int| 0 <= m < kept.len() && kept[m] == other;
        assert(r.headers[m] == other);
    }
    no_such_header(r.headers, name, kept.len() as int);
}

proof fn no_such_header(headers: Seq<(Seq<char>, Seq<char>)>, name: Seq<char>, n: int)
    requires
        0 <= n <= headers.len(),
        forall|i: int| 0 <= i < n ==> (#[trigger] headers[i]).0 != name,
    ensures
        header_named(headers, name, n) is None,
    decreases n,
{
    if n > 0 {
        no_such_header(headers, name, n - 1);
    }
}

/// The first header of a name is the one that is read.
pub proof fn the_first_header_is_read(headers: Seq<(Seq<char>, Seq<char>)>, name: Seq<char>, n: int, i: int)
    requires
        0 <= i < n <= headers.len(),
        headers[i].0 == name,
        forall|j: int| 0 <= j < i ==> (#[trigger] headers[j]).0 != name,
    ensures
        header_named(headers, name, n) == Some(headers[i].1),
    decreases n,
{
    if i < n - 1 {
        the_first_header_is_read(headers, name, n - 1, i);
    } else {
        no_such_header(headers, name, i);
    }
}

/// A page stands at its serial, and says so in one header.
pub proof fn pages_say_their_serial(media: Seq<char>, body: Seq<char>, serial: u64)
    ensures
        page_of(media, body, None).headers == seq![("content-type"@, media), ("vary"@, "Accept"@)],
        page_of(media, body, None).status == 200,
        page_of(media, body, None).body == body,
        page_of(media, body, Some(serial)).status == 200,
        page_of(media, body, Some(serial)).body == body,
        page_of(media, body, Some(serial)).header("x-pypi-last-serial"@) == Some(decimal(serial as nat)),
        legacy_page(body, None).headers == seq![("content-type"@, "application/json"@)],
        legacy_page(body, Some(serial)).header("x-pypi-last-serial"@) == Some(decimal(serial as nat)),
        legacy_page(body, Some(serial)).body == body,
{
    let page = ReplyText {
        status: 200,
        headers: seq![("content-type"@, media), ("vary"@, "Accept"@)],
        body,
    };
    assert(page_of(media, body, None).headers =~= page.headers);
    let legacy = legacy_page(body, None);
    assert(legacy.headers =~= seq![("content-type"@, "application/json"@)]);
    assert(page_of(media, body, Some(serial)) == at_serial(page_of(media, body, None), Some(serial)));
    replaced_headers_stand_once(
        page_of(media, body, None),
        "x-pypi-last-serial"@,
        decimal(serial as nat),
        ("vary"@, "Accept"@),
    );
    replaced_headers_stand_once(legacy, "x-pypi-last-serial"@, decimal(serial as nat), ("vary"@, "Accept"@));
}

/// A project that is there is answered with its page; one that is not is not found; an upstream's answer out of form is
/// told as it is. A legacy request whose release is missing is not found.
pub proof fn missing_projects_are_not_found(
    result: Result<Option<DetailPage>, CacheError>,
    index: Seq<char>,
    project: Seq<char>,
    version: Option<Seq<char>>,
    action: Seq<char>,
)
    ensures
        result matches Ok(Some(page)) ==> detail_reply(result, index, project, action).status == 200 && legacy_reply(
            result,
            index,
            project,
            version,
            action,
        ).status == 404,
        (result matches Ok(None)) ==> detail_reply(result, index, project, action) == project_missing(project, index)
            && legacy_reply(result, index, project, version, action) == project_missing(project, index),
        project_missing(project, index).status == 404,
        result matches Err(error) ==> detail_reply(result, index, project, action) == detail_error(
            error,
            index,
            project,
            action,
        ) && legacy_reply(result, index, project, version, action) == detail_error(error, index, project, action),
        result matches Err(error) ==> (error.kind is UpstreamInvalidResponse ==> detail_error(error, index, project, action)
            == (ReplyText { status: 502, headers: Seq::empty(), body: error.message@ })),
{
}

/// An artifact is never changed once it has its address, and is kept as long as a cache likes.
pub proof fn artifacts_are_immutable(result: Result<(), CacheError>, context: ContextText, action: Seq<char>, r: Reply)
    requires
        is_file_answer(result, context, action, r),
    ensures
        result is Ok ==> r.status == 200 && r@.headers == seq![
            ("content-type"@, "application/octet-stream"@),
            ("cache-control"@, "public, max-age=31536000, immutable"@),
        ],
        result matches Err(error) ==> r@ == error_reply(error, context, action),
        file_headers().len() == 2,
{
}

/// A provenance document says who vouches for it and whether it is kept here, and is kept by caches only where its
/// address fixes it.
pub proof fn provenance_says_who_vouches(
    result: Result<ProvenanceBody, CacheError>,
    context: ContextText,
    action: Seq<char>,
    r: Reply,
)
    requires
        is_provenance_answer(result, context, action, r),
    ensures
        result matches Ok(body) ==> {
            &&& r.status == 200
            &&& r@.headers.len() == 4
            &&& r@.headers[0] == ("content-type"@, body.media_type@)
            &&& r@.headers[1] == ("cache-control"@, if body.immutable {
                "public, max-age=31536000, immutable"@
            } else {
                "no-cache"@
            })
            &&& r@.headers[2] == ("x-peryx-provenance-source"@, if body.source_is_visible {
                body.source@
            } else {
                "upstream"@
            })
            &&& r@.headers[3] == ("x-peryx-provenance-availability"@, if body.availability is Cached {
                "cached"@
            } else {
                "remote-only"@
            })
        },
        result matches Err(error) ==> r@ == error_reply(error, context, action),
{
}

/// A caller without a credential is asked for one; a moved page says where it is; and a client that accepts no format is
/// told so.
pub proof fn plain_answers_have_their_status(location: Seq<char>)
    ensures
        challenge().status == 401,
        challenge().headers == seq![("www-authenticate"@, "Basic realm=\"peryx\""@)],
        redirect(location).status == 301,
        redirect(location).headers == seq![("location"@, location)],
        unacceptable().status == 406,
        unacceptable().headers == seq![("vary"@, "Accept"@)],
        home_unavailable().status == 503,
        home_unavailable().headers == seq![("retry-after"@, "1"@)],
{
}

// ---------------------------------------------------------------------------------------------
// Reading a request
// ---------------------------------------------------------------------------------------------

/// A header is text exactly where every byte is visible, a blank or a tab, and is read byte by byte.
pub proof fn headers_are_text_where_visible(value: Seq<u8>, i: int)
    requires
        0 <= i < value.len(),
    ensures
        visible_text(value) is Some <==> forall|j: int|
            0 <= j < value.len() ==> 32 <= #[trigger] value[j] < 127 || value[j] == 9,
        visible_text(value) matches Some(text) ==> text.len() == value.len() && text[i] == value[i] as char,
{
    assert(forall|j: int| 0 <= j < value.len() ==> visible(#[trigger] value[j]) == (32 <= value[j] < 127 || value[j] == 9));
}

/// A parameter is understood where it is a quality that was not given before, or a charset of UTF-8 that was not; any
/// other makes the range unusable.
pub proof fn parameters_are_understood_once(so_far: Parameters, parameter: Seq<char>, name: Seq<char>, value: Seq<char>)
    requires
        parameter == name + seq!['='] + value,
        !name.contains('='),
    ensures
        ({
            let r = parameter_read(so_far, parameter);
            let key = ascii_lower_text(trimmed(name));
            &&& key == ascii_lower_text("q"@) ==> (r is Some <==> so_far.quality is None
                && crate::serving::negotiate::quality_value(trimmed(value)) is Some)
            &&& key == ascii_lower_text("q"@) ==> (r matches Some(p) ==> p.quality
                == crate::serving::negotiate::quality_value(trimmed(value)) && p.utf8 == so_far.utf8)
            &&& key != ascii_lower_text("q"@) ==> (r is Some <==> key == ascii_lower_text("charset"@) && !so_far.utf8 && (
            ascii_lower_text(trimmed(value)) == ascii_lower_text("utf-8"@) || ascii_lower_text(trimmed(value))
                == ascii_lower_text("\"utf-8\""@)))
            &&& key != ascii_lower_text("q"@) ==> (r matches Some(p) ==> p.utf8 && p.quality == so_far.quality)
        }),
{
    first_index_of_joined(name, '=', value);
}

/// A range without parameters has the best quality.
pub proof fn ranges_without_parameters_are_best(range: Seq<char>)
    requires
        !range.contains(';'),
    ensures
        trimmed(range).len() > 0 ==> (accept_range(range) matches Some(accept) && accept.media == trimmed(range)
            && accept.quality == 1000 && !accept.utf8),
        trimmed(range).len() == 0 ==> accept_range(range) is None,
{
    crate::text::first_index_bounds(range, ';');
    let i = crate::text::first_index(range, ';');
    if i < range.len() {
        assert(range.contains(range[i]));
    }
    assert(crate::text::pieces(range, ';') =~= seq![range]);
    assert(parameters_of(seq![range], 0) is Some);
}

/// Every piece of a field is heard.
pub proof fn every_piece_is_heard(claims: (Preference, Preference), all: Seq<Seq<char>>, n: int)
    requires
        0 < n <= all.len(),
    ensures
        claims_of_pieces(claims, all, n) == claims_after(claims_of_pieces(claims, all, n - 1), all[n - 1]),
        claims_of_pieces(claims, all, 0) == claims,
{
}

/// A legacy path is refused where one of its segments cannot be had, for that reason.
pub proof fn legacy_paths_are_refused_for_their_segments(project: Segment, version: Option<Segment>)
    ensures
        legacy_refusal(project, version) is None <==> project is Good && (version matches Some(segment) ==> segment is Good),
        project matches Segment::Undecodable(message) ==> legacy_refusal(project, version) == Some(message@),
        project is Good ==> (version matches Some(Segment::Unsafe(message)) ==> legacy_refusal(project, version) == Some(
            message@,
        )),
{
}

/// A range fits a file where it is not empty and ends within it; its header counts from nothing and names the last byte.
pub proof fn ranges_end_within_the_file(range: RangeRequest, start: u64, end: u64, size: u64)
    requires
        start < end,
    ensures
        range_fits(RangeRequest::Partial { start, end }, size) <==> end <= size,
        content_range(start, end, size) == "bytes "@ + decimal(start as nat) + "-"@ + decimal((end - 1) as nat) + "/"@
            + decimal(size as nat),
        part_status(range) == (if range is Partial {
            206u16
        } else {
            200u16
        }),
        length_text(Some(size)) == Some(decimal(size as nat)),
        length_text(None) is None,
{
}

// ---------------------------------------------------------------------------------------------
// Uploads
// ---------------------------------------------------------------------------------------------

/// An admission is refused where the filename is taken by other content, where the node holds as much as it may, and
/// where staging failed; the same content is admitted again.
pub proof fn admissions_are_refused_for_a_reason(outcome: IntentStageOutcome, filename: Seq<char>)
    ensures
        stage_refusal(outcome, filename) is None <==> outcome is Admitted || outcome is Duplicate,
        outcome is Conflict ==> (stage_refusal(outcome, filename) matches Some(answer) && answer.status == 400 && answer
            == conflict_reply(filename)),
        outcome is RejectedOverRecordLimit || outcome is RejectedOverByteLimit ==> (stage_refusal(outcome, filename)
            matches Some(answer) && answer.status == 503 && answer.headers.len() == 1 && answer.headers[0].0
            == "retry-after"@),
        outcome is RejectedOverRecordLimit ==> stage_refusal(outcome, filename) == Some(shed_reply("record"@)),
        outcome is RejectedOverByteLimit ==> stage_refusal(outcome, filename) == Some(shed_reply("byte"@)),
        outcome is Failed ==> (stage_refusal(outcome, filename) matches Some(answer) && answer.status == 500),
        holds_text(conflict_reply(filename).body, quoted_text(filename)),
{
    let head = "File already exists: "@;
    let tail = " has different content; use a different filename"@;
    joined_texts_hold(head, quoted_text(filename), tail);
}

/// An intent says what was admitted: its digest and its operation.
pub proof fn intents_say_what_was_admitted(request: AdmissionRequest, operation: Seq<char>)
    ensures
        holds_text(intent_json(request, operation), json_string(request.digest@)),
        holds_text(intent_json(request, operation), json_string(operation)),
{
    let whole = intent_json(request, operation);
    let head = "{\"tenant\":"@ + json_string(request.tenant@) + ",\"authority\":"@ + json_string(request.authority@)
        + ",\"digest\":"@;
    let digest = json_string(request.digest@);
    let middle = ",\"size\":"@ + decimal(request.size as nat) + ",\"ingress_dc\":"@ + json_string(request.ingress_dc@)
        + ",\"operation\":"@;
    let done = json_string(operation);
    assert(whole =~= head + digest + (middle + done + "}"@));
    joined_texts_hold(head, digest, middle + done + "}"@);
    assert(whole =~= (head + digest + middle) + done + "}"@);
    joined_texts_hold(head + digest + middle, done, "}"@);
}

/// An upload over a quota is told the rule it broke, for its file.
pub proof fn quotas_tell_what_they_hold(
    limit: u64,
    project: Seq<char>,
    filename: Seq<char>,
    total: u64,
    repository: Seq<char>,
    labels: Seq<Seq<char>>,
)
    ensures
        size_quota_denial(limit, project, filename, total).resource == project,
        size_quota_denial(limit, project, filename, total).artifact == Some(filename),
        size_quota_denial(limit, project, filename, total).rule == "max-project-size"@,
        size_quota_denial(limit, project, filename, total).reason == "project size "@ + decimal(total as nat)
            + " would exceed limit "@ + decimal(limit as nat),
        limits_denial(repository, labels, project, filename).rule == "index-quota"@,
        limits_denial(repository, labels, project, filename).reason == repository + " quota exceeded: "@ + joined(
            labels,
            ", "@,
        ),
        limits_denial(repository, labels, project, filename).artifact == Some(filename),
{
}

/// A project is changed exactly where one of the changed keys is a record of it that shows in the index.
pub proof fn changed_keys_change_their_project(
    indexes: Seq<IndexEntry>,
    keys: Seq<String>,
    position: int,
    base: Seq<char>,
    normalized: Seq<char>,
    n: int,
    i: int,
)
    requires
        0 <= i < n <= keys.len(),
        key_project(keys[i]@) == Some((base, normalized)),
    ensures
        shows_change(indexes, base, position) ==> project_changed(indexes, keys, position, normalized, n),
        project_changed(indexes, keys, position, normalized, n) ==> exists|j: int|
            0 <= j < n && (key_project((#[trigger] keys[j])@) matches Some((_, named)) && named == normalized),
{
}

} // verus!
