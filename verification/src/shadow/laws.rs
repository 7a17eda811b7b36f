//! What the shadow inspection service promises: who may inspect, which queries it takes, and what it answers.
use vstd::prelude::*;

use super::http::{
    error_object, is_credential_rejection, is_ecosystem_verdict, is_error_answer, is_identity, is_local_verdict,
    is_permission, is_query_for, is_shown, json_candidate, json_decision, rejection_reply, Authentication,
    CredentialDenial, InspectedCandidate, ScopedDecision, ShadowCandidateResponse, ShadowIdentity, ShadowParams,
    ShadowRejection,
};
use super::query::{
    byte_len, is_answered, is_page, query_error, ShadowCandidate, ShadowErrorText, ShadowPage, ShadowQuery,
    ShadowQueryError,
};
use crate::outside::json_string;
use crate::serving::reply::Reply;
use crate::text::{holds_text, joined_texts_hold, opt_text};

verus! {

/// A query is for the repository that was authorized and the project that was asked for, a page of 25 at a time where
/// none is named.
pub proof fn queries_are_for_what_was_authorized(params: ShadowParams, repository: String, r: ShadowQuery)
    requires
        is_query_for(params, repository, r),
    ensures
        r.repository == repository,
        r.project == params.project,
        r.cursor == params.cursor,
        params.limit is None ==> r.limit == 25,
        params.limit is Some ==> r.limit == params.limit->0,
{
}

/// A caller may inspect exactly where the repository is there and a grant allows it. One without a grant is told
/// the same as where there is no repository.
pub proof fn readers_may_inspect(found: bool, decision: ScopedDecision, r: Result<(), ShadowRejection>)
    requires
        is_local_verdict(found, decision, r),
    ensures
        r is Ok <==> found && decision is Allow,
        !found || decision is NoGrant ==> r == Err::<(), ShadowRejection>(ShadowRejection::NotFound),
        found && decision is StorageUnavailable ==> r == Err::<(), ShadowRejection>(ShadowRejection::Unavailable),
{
}

/// A decision allows exactly where it says so.
pub proof fn decisions_allow_where_they_say_so(decision: ScopedDecision, r: Result<(), ShadowRejection>)
    requires
        is_permission(decision, r),
    ensures
        r is Ok <==> decision is Allow,
        is_local_verdict(true, decision, r),
{
}

/// An index credential may inspect exactly where the repository is there and nothing is held against it.
pub proof fn credentials_may_inspect_their_index(
    found: bool,
    denial: Option<CredentialDenial>,
    r: Result<(), ShadowRejection>,
)
    requires
        is_ecosystem_verdict(found, denial, r),
    ensures
        r is Ok <==> found && denial is None,
        r == Err::<(), ShadowRejection>(ShadowRejection::Forbidden) <==> found && denial == Some(CredentialDenial::Forbidden),
        r is Err && !(r->Err_0 is Forbidden) ==> r->Err_0 is Unauthorized,
{
}

/// A credential that grants nothing is told so; any other denied one is asked for again.
pub proof fn denied_credentials_are_asked_for_again(denial: CredentialDenial, r: ShadowRejection)
    requires
        is_credential_rejection(denial, r),
    ensures
        r is Forbidden <==> denial is Forbidden,
        r is Unauthorized <==> !(denial is Forbidden),
{
}

/// A request comes from a user whose password holds or from an index credential; where the users cannot be asked, that
/// is told, and every other request is asked for a credential.
pub proof fn callers_are_known<U>(found: Authentication<U>, r: Result<ShadowIdentity<U>, ShadowRejection>)
    requires
        is_identity(found, r),
    ensures
        r is Ok <==> found is User || found is IndexCredential,
        found matches Authentication::User(user) ==> r == Ok::<ShadowIdentity<U>, ShadowRejection>(
            ShadowIdentity::Local(user),
        ),
        found is StoreFailed ==> (r matches Err(e) && e is Unavailable),
        found is Missing || found is Unreadable || found is Unknown ==> (r matches Err(e) && e is Unauthorized),
{
}

/// Each rejection has its status, and only the one that a credential may mend asks for one.
pub proof fn rejections_have_their_status(rejection: ShadowRejection)
    ensures
        rejection is Forbidden <==> rejection_reply(rejection).status == 403,
        rejection is NotFound <==> rejection_reply(rejection).status == 404,
        rejection is Unavailable <==> rejection_reply(rejection).status == 503,
        rejection is Unauthorized <==> rejection_reply(rejection).status == 401,
        rejection is Unauthorized ==> rejection_reply(rejection).headers == seq![
            ("www-authenticate"@, "Basic realm=\"peryx-shadow\""@),
        ],
        rejection is Forbidden || rejection is NotFound ==> rejection_reply(rejection).headers.len() == 0,
{
}

/// A failure of the store is answered the same whatever it was; a client's mistake is told.
pub proof fn store_failures_are_not_told(error: ShadowQueryError, r: Reply, message: String, other: Reply)
    requires
        is_error_answer(error, r),
        is_error_answer(ShadowQueryError::Store(message), other),
    ensures
        error is Store ==> r.status == 500 && r@ == other@,
        !(error is Store) ==> r.status == 400 && r@ == error_object(400, error@.sentence()),
{
}

/// An answer shows of a candidate what the resolution says of it, and the outcome that governs it.
pub proof fn candidates_are_shown_as_they_are(inspected: InspectedCandidate, r: ShadowCandidateResponse)
    requires
        is_shown(inspected, r),
    ensures
        r.member == inspected.candidate.member,
        r.source == inspected.candidate.source,
        r.filename == inspected.candidate.filename,
        r.digest == inspected.candidate.digest,
        r.selected == inspected.candidate.selected,
        r.reason == inspected.candidate.reason,
        r.decision == inspected.decision,
{
}

/// A query is taken exactly where it asks for 1 to 100 rows, its cursor is neither empty nor too long, and its
/// project is not too long. The limit is told first, then the cursor.
pub proof fn queries_are_taken_within_bounds(query: ShadowQuery)
    ensures
        query_error(query) is None <==> 1 <= query.limit <= 100 && (query.cursor matches Some(cursor) ==> cursor@.len() > 0
            && byte_len(cursor@) <= 1024) && byte_len(query.project@) <= 512,
        query_error(query) == Some(ShadowErrorText::InvalidLimit) <==> query.limit == 0 || query.limit > 100,
        query_error(query) == Some(ShadowErrorText::InvalidCursor) ==> query.cursor is Some,
        query_error(query) == Some(ShadowErrorText::ProjectTooLong) ==> byte_len(query.project@) > 512,
{
}

/// A query is answered with at most as many candidates as it asks for, each one of those that were found; with all of
/// them where it has no cursor and there are no more; and with none where there is no repository.
pub proof fn pages_hold_what_was_found(
    query: ShadowQuery,
    found: Option<Result<Vec<ShadowCandidate>, String>>,
    r: Result<ShadowPage, ShadowQueryError>,
)
    requires
        is_answered(query, found, r),
    ensures
        r is Ok <==> query_error(query) is None && !(found matches Some(Err(_))),
        r matches Ok(page) ==> page.candidates@.len() <= query.limit,
        r matches Ok(page) ==> (found is None ==> page.candidates@.len() == 0),
        r matches Ok(page) ==> (found matches Some(Ok(candidates)) ==> {
            &&& forall|i: int| 0 <= i < page.candidates@.len() ==> candidates@.contains(#[trigger] page.candidates@[i])
            &&& query.cursor is None && candidates@.len() <= query.limit ==> page.candidates@.to_multiset()
                == candidates@.to_multiset() && page.next_cursor is None
        }),
{
    if r is Ok && (found matches Some(Ok(_))) {
        let page = r->Ok_0;
        let candidates = found->0->Ok_0@;
        let list = choose|list: Seq<ShadowCandidate>|
            super::query::by_cursor(list) && list.to_multiset() == candidates.to_multiset() && #[trigger] is_page(
                list,
                query,
                page,
            );
        let start = choose|start: int| #[trigger]
            super::query::page_start(list, opt_text(query.cursor), start) && {
                let rest = list.skip(start);
                let n = if rest.len() > query.limit {
                    query.limit as int
                } else {
                    rest.len() as int
                };
                &&& page.candidates@ == rest.take(n)
                &&& opt_text(page.next_cursor) == (if rest.len() > query.limit {
                    Some(rest[query.limit - 1].cursor@)
                } else {
                    None
                })
            };
        list.to_multiset_ensures();
        candidates.to_multiset_ensures();
        assert forall|i: int| 0 <= i < page.candidates@.len() implies candidates.contains(
            #[trigger] page.candidates@[i],
        ) by {
            let c = page.candidates@[i];
            assert(c == list[start + i]);
            assert(list.contains(c));
            assert(list.to_multiset().count(c) > 0);
        }
        if query.cursor is None && candidates.len() <= query.limit {
            assert(list.len() == candidates.len());
            assert(list.skip(0) =~= list);
            assert(list.take(list.len() as int) =~= list);
        }
    }
}

/// A candidate's object names its file and its member, and says whether it is selected.
pub proof fn candidate_objects_say_what_they_are(c: ShadowCandidateResponse)
    ensures
        holds_text(json_candidate(c), json_string(c.filename@)),
        holds_text(json_candidate(c), json_string(c.member@)),
        holds_text(json_candidate(c), ",\"selected\":"@ + crate::simple::json::json_bool(c.selected)),
{
    let outcome = match c.decision {
        Some(decision) => "\"decision\":"@ + json_decision(decision) + ","@,
        None => Seq::empty(),
    };
    let digest = match c.digest {
        Some(digest) => "\"digest\":"@ + json_string(digest@) + ","@,
        None => Seq::empty(),
    };
    let reason = crate::simple::json::json_optional(",\"reason\":"@, crate::text::opt_str(c.reason));
    let selected = crate::simple::json::json_bool(c.selected);
    let file = json_string(c.filename@);
    let member = json_string(c.member@);
    let source = ",\"source\":"@ + json_string(c.source@) + "}"@;
    let head = "{"@ + outcome + digest + "\"filename\":"@;
    let middle = ",\"member\":"@;
    let flag = ",\"selected\":"@;
    let whole = json_candidate(c);
    assert(whole =~= head + file + (middle + member + reason + flag + selected + source));
    joined_texts_hold(head, file, middle + member + reason + flag + selected + source);
    assert(whole =~= (head + file + middle) + member + (reason + flag + selected + source));
    joined_texts_hold(head + file + middle, member, reason + flag + selected + source);
    assert(whole =~= (head + file + middle + member + reason) + (flag + selected) + source);
    joined_texts_hold(head + file + middle + member + reason, flag + selected, source);
}

} // verus!
