//! The answers of the shadow inspection service.
use vstd::prelude::*;

use super::query::{ShadowCandidate, ShadowErrorText, ShadowQueryError};
use crate::outside::{json_string, json_string_text};
use crate::serving::reply::{
    plain, reply, Reply, ReplyText, BAD_REQUEST, FORBIDDEN, INTERNAL_SERVER_ERROR, NOT_FOUND, OK, SERVICE_UNAVAILABLE,
    UNAUTHORIZED,
};
use crate::simple::json::{
    comma_joined, comma_joined_push, json_bool, json_bool_text, json_optional, write_optional,
};
use crate::store::summary::{json_opt_string, opt_string_json};
use crate::text::{opt_as_str, opt_str, opt_text, signed_decimal, signed_decimal_text};

verus! {

/// The page size of a query that names none.
pub const DEFAULT_LIMIT: usize = 25;

/// What a query's parameters hold.
#[derive(Debug)]
pub struct ShadowParams {
    pub repository: String,
    pub project: String,
    pub cursor: Option<String>,
    pub limit: Option<usize>,
}

/// Whether `r` is the query of a request for a repository.
pub open spec fn is_query_for(params: ShadowParams, repository: String, r: super::query::ShadowQuery) -> bool {
    &&& r.repository == repository
    &&& r.project == params.project
    &&& r.cursor == params.cursor
    &&& r.limit == (match params.limit {
        Some(limit) => limit,
        None => DEFAULT_LIMIT,
    })
}

/// The query of a request, for the repository that its authorization resolved.
pub fn shadow_query(params: ShadowParams, repository: String) -> (r: super::query::ShadowQuery)
    ensures
        is_query_for(params, repository, r),
{
    super::query::ShadowQuery {
        repository,
        project: params.project,
        cursor: params.cursor,
        limit: match params.limit {
            Some(limit) => limit,
            None => DEFAULT_LIMIT,
        },
    }
}

/// Why an inspection is refused before it runs.
#[derive(Debug, Clone, Copy, PartialEq, Eq, Structural)]
pub enum ShadowRejection {
    Forbidden,
    NotFound,
    Unavailable,
    Unauthorized,
}

/// What a refused caller is answered: one without a credential is asked for one, and one without a grant
/// learns not even that the repository exists.
pub open spec fn rejection_reply(rejection: ShadowRejection) -> ReplyText {
    match rejection {
        ShadowRejection::Forbidden => plain(FORBIDDEN, Seq::empty()),
        ShadowRejection::NotFound => plain(NOT_FOUND, Seq::empty()),
        ShadowRejection::Unavailable => error_object(
            SERVICE_UNAVAILABLE,
            "shadow inspection service unavailable"@,
        ),
        ShadowRejection::Unauthorized => plain(UNAUTHORIZED, Seq::empty()).with(
            "www-authenticate"@,
            "Basic realm=\"peryx-shadow\""@,
        ),
    }
}

/// An error as a JSON object.
pub open spec fn error_object(status: u16, message: Seq<char>) -> ReplyText {
    plain(status, "{\"error\":"@ + json_string(message) + "}"@).with("content-type"@, "application/json"@)
}

fn error_reply(status: u16, message: &str) -> (r: Reply)
    ensures
        r@ == error_object(status, message@),
{
    let mut body = "{\"error\":".to_owned();
    let text = json_string_text(message);
    body.append(text.as_str());
    body.append("}");
    reply(status, body.as_str()).with_header("content-type", "application/json")
}

fn bare(status: u16) -> (r: Reply)
    ensures
        r@ == plain(status, Seq::empty()),
{
    proof {
        reveal_strlit("");
        assert(""@ =~= Seq::<char>::empty());
    }
    reply(status, "")
}

impl ShadowRejection {
    /// Answer a refused caller.
    pub fn response(self) -> (r: Reply)
        ensures
            r@ == rejection_reply(self),
    {
        match self {
            ShadowRejection::Forbidden => bare(FORBIDDEN),
            ShadowRejection::NotFound => bare(NOT_FOUND),
            ShadowRejection::Unavailable => error_reply(
                SERVICE_UNAVAILABLE,
                "shadow inspection service unavailable",
            ),
            ShadowRejection::Unauthorized => bare(UNAUTHORIZED).with_header(
                "www-authenticate",
                "Basic realm=\"peryx-shadow\"",
            ),
        }
    }
}

/// Answer a query whose parameters cannot be read.
pub fn invalid_query() -> (r: Reply)
    ensures
        r@ == error_object(BAD_REQUEST, "invalid shadow query"@),
{
    error_reply(BAD_REQUEST, "invalid shadow query")
}

/// What a scoped authorization decided.
#[derive(Debug, Clone, Copy, PartialEq, Eq, Structural)]
pub enum ScopedDecision {
    Allow,
    NoGrant,
    StorageUnavailable,
}

/// Whether `r` says if a decision lets its caller inspect.
pub open spec fn is_permission(decision: ScopedDecision, r: Result<(), ShadowRejection>) -> bool {
    r == (match decision {
        ScopedDecision::Allow => Ok::<(), ShadowRejection>(()),
        ScopedDecision::NoGrant => Err(ShadowRejection::NotFound),
        ScopedDecision::StorageUnavailable => Err(ShadowRejection::Unavailable),
    })
}

/// A caller who can read the repository may inspect how it resolves a project. One without a grant learns
/// not even that the repository exists.
pub fn require_permission(decision: ScopedDecision) -> (r: Result<(), ShadowRejection>)
    ensures
        is_permission(decision, r),
{
    match decision {
        ScopedDecision::Allow => Ok(()),
        ScopedDecision::NoGrant => Err(ShadowRejection::NotFound),
        ScopedDecision::StorageUnavailable => Err(ShadowRejection::Unavailable),
    }
}

/// Whether `r` says if a local user may inspect.
pub open spec fn is_local_verdict(found: bool, decision: ScopedDecision, r: Result<(), ShadowRejection>) -> bool {
    r == (if !found {
        Err::<(), ShadowRejection>(ShadowRejection::NotFound)
    } else {
        match decision {
            ScopedDecision::Allow => Ok(()),
            ScopedDecision::NoGrant => Err(ShadowRejection::NotFound),
            ScopedDecision::StorageUnavailable => Err(ShadowRejection::Unavailable),
        }
    })
}

/// Admit a local user to the repository at a route, which may not be there.
pub fn authorize_local(found: bool, decision: ScopedDecision) -> (r: Result<(), ShadowRejection>)
    ensures
        is_local_verdict(found, decision, r),
{
    if !found {
        return Err(ShadowRejection::NotFound);
    }
    require_permission(decision)
}

/// Why an index credential is denied.
#[derive(Debug, Clone, Copy, PartialEq, Eq, Structural)]
pub enum CredentialDenial {
    Forbidden,
    Unavailable,
    Unauthenticated,
}

/// Whether `r` is the rejection of a denied index credential.
pub open spec fn is_credential_rejection(denial: CredentialDenial, r: ShadowRejection) -> bool {
    r == (if denial is Forbidden {
        ShadowRejection::Forbidden
    } else {
        ShadowRejection::Unauthorized
    })
}

/// The rejection of a denied index credential.
pub fn credential_rejection(denial: CredentialDenial) -> (r: ShadowRejection)
    ensures
        is_credential_rejection(denial, r),
{
    match denial {
        CredentialDenial::Forbidden => ShadowRejection::Forbidden,
        CredentialDenial::Unavailable | CredentialDenial::Unauthenticated => ShadowRejection::Unauthorized,
    }
}

/// Whether `r` says if an index credential may inspect.
pub open spec fn is_ecosystem_verdict(found: bool, denial: Option<CredentialDenial>, r: Result<(), ShadowRejection>) -> bool {
    r == (if !found {
        Err::<(), ShadowRejection>(ShadowRejection::Unauthorized)
    } else {
        match denial {
            None => Ok(()),
            Some(CredentialDenial::Forbidden) => Err(ShadowRejection::Forbidden),
            Some(_) => Err(ShadowRejection::Unauthorized),
        }
    })
}

/// Admit an index credential to the repository at a route. Where there is none, the credential is refused as
/// one that grants nothing.
pub fn authorize_ecosystem(found: bool, denial: Option<CredentialDenial>) -> (r: Result<(), ShadowRejection>)
    ensures
        is_ecosystem_verdict(found, denial, r),
{
    if !found {
        return Err(ShadowRejection::Unauthorized);
    }
    match denial {
        None => Ok(()),
        Some(denial) => Err(credential_rejection(denial)),
    }
}

/// What authenticating a request's credentials found.
pub enum Authentication<U> {
    /// No header, or one that is no text.
    Missing,
    /// A credential of one of the indexes.
    IndexCredential,
    /// A header that is neither an index credential nor a user and password.
    Unreadable,
    /// The user store could not be asked.
    StoreFailed,
    /// The user and password name no user.
    Unknown,
    User(U),
}

/// Who a request comes from.
pub enum ShadowIdentity<U> {
    Local(U),
    EcosystemCredential,
}

/// Whether `r` is who a request comes from, or why it is refused.
pub open spec fn is_identity<U>(found: Authentication<U>, r: Result<ShadowIdentity<U>, ShadowRejection>) -> bool {
    r == (match found {
        Authentication::User(user) => Ok::<ShadowIdentity<U>, ShadowRejection>(ShadowIdentity::Local(user)),
        Authentication::IndexCredential => Ok(ShadowIdentity::EcosystemCredential),
        Authentication::StoreFailed => Err(ShadowRejection::Unavailable),
        _ => Err(ShadowRejection::Unauthorized),
    })
}

/// Who a request comes from, or why it is refused.
pub fn authenticate<U>(found: Authentication<U>) -> (r: Result<ShadowIdentity<U>, ShadowRejection>)
    ensures
        is_identity(found, r),
{
    match found {
        Authentication::User(user) => Ok(ShadowIdentity::Local(user)),
        Authentication::IndexCredential => Ok(ShadowIdentity::EcosystemCredential),
        Authentication::StoreFailed => Err(ShadowRejection::Unavailable),
        Authentication::Missing | Authentication::Unreadable | Authentication::Unknown => Err(
            ShadowRejection::Unauthorized,
        ),
    }
}

/// Whether `r` is the answer to a query that failed.
pub open spec fn is_error_answer(error: ShadowQueryError, r: Reply) -> bool {
    match error@ {
        ShadowErrorText::Store(_) => r@ == error_object(INTERNAL_SERVER_ERROR, "shadow query failed"@),
        text => r@ == error_object(BAD_REQUEST, text.sentence()),
    }
}

/// The answer to a query that failed: validation detail for client errors; store failures are redacted.
pub fn shadow_error_response(error: &ShadowQueryError) -> (r: Reply)
    ensures
        is_error_answer(*error, r),
{
    match error {
        ShadowQueryError::Store(_) => error_reply(INTERNAL_SERVER_ERROR, "shadow query failed"),
        _ => {
            let message = error.message();
            error_reply(BAD_REQUEST, message.as_str())
        },
    }
}

/// The recorded outcome that governs a candidate's filename.
#[derive(Debug)]
pub struct ShadowDecision {
    pub state: &'static str,
    pub rule: Option<String>,
    pub reason: Option<String>,
    pub evaluated_at_unix: i64,
    pub next_eligible_at_unix: Option<i64>,
    pub fresh: bool,
}

/// A candidate and the outcome that governs it, where policy evaluated its filename.
pub struct InspectedCandidate {
    pub candidate: ShadowCandidate,
    pub decision: Option<ShadowDecision>,
}

/// A candidate as an answer shows it. It carries no upstream URL.
#[derive(Debug)]
pub struct ShadowCandidateResponse {
    pub member: String,
    pub source: &'static str,
    pub filename: String,
    pub digest: Option<String>,
    pub selected: bool,
    pub reason: Option<&'static str>,
    pub decision: Option<ShadowDecision>,
}

/// Whether `r` is a candidate as an answer shows it.
pub open spec fn is_shown(inspected: InspectedCandidate, r: ShadowCandidateResponse) -> bool {
    &&& r.member == inspected.candidate.member
    &&& r.source == inspected.candidate.source
    &&& r.filename == inspected.candidate.filename
    &&& r.digest == inspected.candidate.digest
    &&& r.selected == inspected.candidate.selected
    &&& r.reason == inspected.candidate.reason
    &&& r.decision == inspected.decision
}

/// A candidate as an answer shows it.
pub fn candidate_response(inspected: InspectedCandidate) -> (r: ShadowCandidateResponse)
    ensures
        is_shown(inspected, r),
{
    let InspectedCandidate { candidate, decision } = inspected;
    ShadowCandidateResponse {
        member: candidate.member,
        source: candidate.source,
        filename: candidate.filename,
        digest: candidate.digest,
        selected: candidate.selected,
        reason: candidate.reason,
        decision,
    }
}

/// A recorded outcome as an object. A rule, a reason or a time that is not there is left out.
pub open spec fn json_decision(d: ShadowDecision) -> Seq<char> {
    "{\"evaluated_at_unix\":"@ + signed_decimal(d.evaluated_at_unix as int) + ",\"fresh\":"@ + json_bool(d.fresh)
        + (match d.next_eligible_at_unix {
        Some(at) => ",\"next_eligible_at_unix\":"@ + signed_decimal(at as int),
        None => Seq::empty(),
    }) + json_optional(",\"reason\":"@, opt_text(d.reason)) + json_optional(",\"rule\":"@, opt_text(d.rule))
        + ",\"state\":"@ + json_string(d.state@) + "}"@
}

fn decision_json(d: &ShadowDecision) -> (r: String)
    ensures
        r@ == json_decision(*d),
{
    let mut out = "{\"evaluated_at_unix\":".to_owned();
    let at = signed_decimal_text(d.evaluated_at_unix);
    out.append(at.as_str());
    out.append(",\"fresh\":");
    out.append(json_bool_text(d.fresh));
    let ghost so_far = out@;
    match d.next_eligible_at_unix {
        Some(at) => {
            let text = signed_decimal_text(at);
            out.append(",\"next_eligible_at_unix\":");
            out.append(text.as_str());
            assert(out@ =~= so_far + (",\"next_eligible_at_unix\":"@ + text@));
        },
        None => {
            assert(out@ =~= so_far + Seq::<char>::empty());
        },
    }
    write_optional(&mut out, ",\"reason\":", opt_as_str(&d.reason));
    write_optional(&mut out, ",\"rule\":", opt_as_str(&d.rule));
    let state = json_string_text(d.state);
    out.append(",\"state\":");
    out.append(state.as_str());
    out.append("}");
    out
}

/// A candidate as an object. A digest, a reason or an outcome that is not there is left out.
pub open spec fn json_candidate(c: ShadowCandidateResponse) -> Seq<char> {
    "{"@ + (match c.decision {
        Some(decision) => "\"decision\":"@ + json_decision(decision) + ","@,
        None => Seq::empty(),
    }) + (match c.digest {
        Some(digest) => "\"digest\":"@ + json_string(digest@) + ","@,
        None => Seq::empty(),
    }) + "\"filename\":"@ + json_string(c.filename@) + ",\"member\":"@ + json_string(c.member@) + json_optional(
        ",\"reason\":"@,
        opt_str(c.reason),
    ) + ",\"selected\":"@ + json_bool(c.selected) + ",\"source\":"@ + json_string(c.source@) + "}"@
}

fn candidate_json(c: &ShadowCandidateResponse) -> (r: String)
    ensures
        r@ == json_candidate(*c),
{
    let mut out = "{".to_owned();
    let ghost g0 = out@;
    match &c.decision {
        Some(decision) => {
            let text = decision_json(decision);
            out.append("\"decision\":");
            out.append(text.as_str());
            out.append(",");
            assert(out@ =~= g0 + ("\"decision\":"@ + text@ + ","@));
        },
        None => {
            assert(out@ =~= g0 + Seq::<char>::empty());
        },
    }
    let ghost g1 = out@;
    match &c.digest {
        Some(digest) => {
            let text = json_string_text(digest.as_str());
            out.append("\"digest\":");
            out.append(text.as_str());
            out.append(",");
            assert(out@ =~= g1 + ("\"digest\":"@ + text@ + ","@));
        },
        None => {
            assert(out@ =~= g1 + Seq::<char>::empty());
        },
    }
    let filename = json_string_text(c.filename.as_str());
    out.append("\"filename\":");
    out.append(filename.as_str());
    let member = json_string_text(c.member.as_str());
    out.append(",\"member\":");
    out.append(member.as_str());
    write_optional(&mut out, ",\"reason\":", c.reason);
    out.append(",\"selected\":");
    out.append(json_bool_text(c.selected));
    let source = json_string_text(c.source);
    out.append(",\"source\":");
    out.append(source.as_str());
    out.append("}");
    out
}

/// The candidates of a page, in order.
pub open spec fn json_candidates(candidates: Seq<ShadowCandidateResponse>) -> Seq<Seq<char>> {
    candidates.map_values(|c: ShadowCandidateResponse| json_candidate(c))
}

/// Answer a query with a page of candidates and the cursor behind which the next page starts.
pub fn shadow_page(candidates: &Vec<ShadowCandidateResponse>, next_cursor: Option<&str>) -> (r: Reply)
    ensures
        r@ == plain(
            OK,
            "{\"candidates\":["@ + comma_joined(json_candidates(candidates@)) + "],\"next_cursor\":"@ + json_opt_string(
                opt_str(next_cursor),
            ) + "}"@,
        ).with("content-type"@, "application/json"@),
{
    let ghost all = json_candidates(candidates@);
    let mut list = String::new();
    let mut i: usize = 0;
    assert(all.take(0) =~= Seq::<Seq<char>>::empty());
    while i < candidates.len()
        invariant
            i <= candidates@.len(),
            all == json_candidates(candidates@),
            list@ == comma_joined(all.take(i as int)),
        decreases candidates.len() - i,
    {
        let item = candidate_json(&candidates[i]);
        proof {
            comma_joined_push(all.take(i as int), item@);
            assert(all.take(i as int).push(item@) =~= all.take(i + 1));
        }
        if i > 0 {
            list.append(",");
            list.append(item.as_str());
        } else {
            list = item;
        }
        i = i + 1;
    }
    assert(all.take(i as int) =~= all);
    let mut body = "{\"candidates\":[".to_owned();
    body.append(list.as_str());
    body.append("],\"next_cursor\":");
    let cursor = opt_string_json(next_cursor);
    body.append(cursor.as_str());
    body.append("}");
    reply(OK, body.as_str()).with_header("content-type", "application/json")
}

} // verus!
