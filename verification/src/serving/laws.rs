//! What serving promises: which uploads are taken, which files are given out, and what everyone else is told.
use vstd::prelude::*;

use crate::policy::{DenialText, PolicyDenial};
use crate::policy_engine::{FileFacts, Policy};
use crate::quota::{
    is_effective_quota, is_quota_decision, keeps, Admission as QuotaAdmission, EffectiveQuota, PendingQuota,
    PolicyQuota, QuotaOutcome, QuotaRejection,
};
use crate::serving::access::Denial;
use crate::serving::admission::{is_admission, is_opened, Admission, AdmissionRequest, IntentDraft, IntentStageOutcome};
use crate::serving::blob::{
    effective_date, is_blob_answer, is_download_denial, is_file_kind, is_file_step, is_file_target, is_head_answer,
    is_judged, still_current, stored_answer, validated, Barrier, BlobAnswer, DownloadRefusal, FileAction, FileEvent,
    FileKind, FileOutcome, FileProbe, FileRequest, FileTarget, HeadAnswer, RangeRequest, StoredBlob,
};
use crate::serving::dispatch::dispatched;
use crate::serving::negotiate::Format;
use crate::serving::reply::{Reply, ReplyText};
use crate::serving::response::{
    detail_reply, error_reply, error_status, field_named, list_reply, page_of, rule_named, CacheError, CacheErrorKind,
    ContextText, DetailPage,
};
use crate::serving::route::revocation_policy;
use crate::serving::upload::{
    browser_view, fence_of, gives_intent_back, is_ack, is_browser_verdict, is_claim_answer, is_fence, is_quota_outcome,
    is_status_judgement, is_store_step, is_upload_barrier, is_upload_judgement, is_upload_step, origin_names_host,
    same_place, status_block, AckResponse, BrowserHeaders, ClaimOutcome, HomeClaim, PolicyJudgement, Refusal,
    StoreAction, StoreError, StoreEvent, UploadAction, UploadProgress, UploadStatusBlock, UploadStep, WriteDurability,
};
use crate::simple::json::{json_detail, json_project_list};
use crate::simple::meta::ProjectStatus;
use crate::simple::page::ProjectList;
use crate::text::{decimal, holds_text, joined_texts_hold};

verus! {

// ---------------------------------------------------------------------------------------------
// Project status
// ---------------------------------------------------------------------------------------------

/// An archived project takes no upload but gives its files out; a quarantined one does neither; any other does
/// both.
pub proof fn statuses_open_and_close(status: ProjectStatus)
    ensures
        status.open_to_uploads() <==> status == ProjectStatus::Active || status == ProjectStatus::Deprecated,
        status.open_to_downloads() <==> status != ProjectStatus::Quarantined,
{
}

/// A project's status stands against an upload exactly where the project is archived or quarantined, and a status
/// that could not be looked up always does.
pub proof fn only_closed_projects_refuse_uploads(
    result: Result<ProjectStatus, CacheError>,
    index: Seq<char>,
    project: Seq<char>,
    action: Seq<char>,
    r: Option<UploadStatusBlock>,
)
    requires
        is_status_judgement(status_block(result, index, project, action), r),
    ensures
        result matches Ok(status) ==> (r is Some <==> status == ProjectStatus::Archived || status
            == ProjectStatus::Quarantined),
        result matches Ok(status) ==> (r is None <==> status.open_to_uploads()),
        result is Ok ==> (r matches Some(block) ==> block.answer.status == 403 && block.event.result@ == "denied"@
            && block.event.reason@ == block.answer.body@ && holds_text(
            block.answer.body@,
            crate::outside::quoted_text(project),
        ) && holds_text(block.answer.body@, result->Ok_0.marker_text())),
        result matches Err(error) ==> (r matches Some(block) && block.event.result@ == "failure"@ && block.event.reason@
            == error.message@ && block.answer.status >= 400),
{
    if result is Ok {
        let status = result->Ok_0;
        let quoted = crate::outside::quoted_text(project);
        joined_texts_hold("project "@, quoted, " is "@ + status.marker_text() + "; uploads are disabled"@);
        joined_texts_hold("project "@ + quoted + " is "@, status.marker_text(), "; uploads are disabled"@);
        assert("project "@ + quoted + " is "@ + status.marker_text() + "; uploads are disabled"@ =~= "project "@ + quoted
            + (" is "@ + status.marker_text() + "; uploads are disabled"@));
    }
}

// ---------------------------------------------------------------------------------------------
// Uploads
// ---------------------------------------------------------------------------------------------

/// An upload is refused by policy exactly where a rule denies it that is not only audited, and every denial is
/// told to the audit log.
pub proof fn policy_refuses_what_it_denies(verdict: Option<DenialText>, action: Seq<char>, r: PolicyJudgement)
    requires
        is_upload_judgement(verdict, action, r),
    ensures
        r.answer is Some <==> (verdict matches Some(denial) && denial.rule != "required-attestation-audit"@),
        r.answer matches Some(answer) ==> answer.status == 403,
        r.event is Some <==> verdict is Some,
        r.event matches Some(event) ==> event.reason@ == verdict->0.reason && event.result@ == (if r.answer is Some {
            "denied"@
        } else {
            "audit"@
        }),
{
}

/// An upload is taken up exactly where it is sent to the root of an index that is there and takes uploads.
pub proof fn uploads_go_to_index_roots(resolved: bool, at_root: bool, accepts: bool, r: Option<Refusal>)
    requires
        is_upload_barrier(resolved, at_root, accepts, r),
    ensures
        r is None <==> resolved && at_root && accepts,
        r matches Some(refusal) ==> refusal.answer.status == (if resolved && at_root {
            405u16
        } else {
            404u16
        }),
{
}

/// A request with neither header is a client's. Any other is a browser's, and is taken exactly where both headers
/// are there and the same, the browser does not say that it comes from elsewhere, and the origin is the host.
pub proof fn browsers_upload_from_their_own_site(headers: BrowserHeaders, r: Result<bool, Reply>)
    requires
        is_browser_verdict(headers, r),
    ensures
        r == Ok::<bool, Reply>(false) <==> headers.origin is None && headers.csrf is None,
        r == Ok::<bool, Reply>(true) <==> headers.origin is Some && headers.csrf is Some && headers.origin->0@
            == headers.csrf->0@ && (headers.fetch_site matches Some(site) ==> site@ == vstd::utf8::encode_utf8(
            "same-origin"@,
        )) && origin_names_host(headers.origin->0@, headers.host),
        r matches Err(answer) ==> answer.status == 403,
{
}

/// An origin is the place of a host only where both have the same name, and the same port where the host names one.
pub proof fn other_places_are_told_apart(origin: crate::outside::UrlOriginText, host: (Seq<char>, Option<u16>))
    requires
        same_place(origin, host),
        !host.0.contains('['),
        !host.0.contains(']'),
    ensures
        origin.scheme == "http"@ || origin.scheme == "https"@,
        origin.host matches Some(name) && crate::text::ascii_lower_text(name) == crate::text::ascii_lower_text(host.0),
        host.1 matches Some(port) ==> origin.effective_port == Some(port),
        host.1 is None ==> origin.port is None,
{
    if host.0.len() > 0 {
        assert(host.0.contains(host.0[0]));
        assert(host.0.contains(host.0.last()));
    }
}

/// A browser sees the cause of every answer but a server error.
pub proof fn browsers_see_no_server_cause(browser: bool, answer: ReplyText)
    ensures
        browser_view(browser, answer).status == answer.status,
        !browser || answer.status < 500 ==> browser_view(browser, answer) == answer,
        browser && 500 <= answer.status < 600 ==> browser_view(browser, answer).body == "upload storage failed"@
            && browser_view(browser, answer).headers.len() == 0,
{
}

/// Whether what happened to an upload ends it.
pub open spec fn upload_failed(progress: UploadProgress) -> bool {
    match progress {
        UploadProgress::Collected(collected) => collected != Ok::<bool, Reply>(true),
        UploadProgress::Prepared(prepared) => prepared is Err,
        UploadProgress::Authorized(authorized) => authorized is Err,
        UploadProgress::JudgedByIndex(judgement) => judgement.answer is Some,
        UploadProgress::JudgedByLayer(judgement) => judgement.answer is Some,
        UploadProgress::StatusKnown(block) => block is Some,
    }
}

/// An upload is answered at once exactly where something stands against it, and with what stands against it;
/// otherwise the next check follows, and behind the last it is admitted.
pub proof fn uploads_go_on_unless_refused(progress: UploadProgress, layered: bool, action: UploadAction)
    requires
        is_upload_step(progress, layered, action),
    ensures
        action.step is Answer <==> upload_failed(progress),
        !upload_failed(progress) ==> match progress {
            UploadProgress::Collected(_) => action.step is Prepare,
            UploadProgress::Prepared(_) => action.step is Authorize,
            UploadProgress::Authorized(_) => action.step is JudgeByIndex,
            UploadProgress::JudgedByIndex(_) => action.step == (if layered {
                UploadStep::JudgeByLayer
            } else {
                UploadStep::LookUpStatus
            }),
            UploadProgress::JudgedByLayer(_) => action.step is LookUpStatus,
            UploadProgress::StatusKnown(_) => action.step is Admit,
        },
        progress matches UploadProgress::Collected(Err(answer)) ==> action.step == UploadStep::Answer(answer),
        progress matches UploadProgress::Collected(Ok(false)) ==> (action.step matches UploadStep::Answer(answer)
            && answer.status == 400),
        progress matches UploadProgress::Authorized(Err(answer)) ==> action.step == UploadStep::Answer(answer),
        progress matches UploadProgress::JudgedByIndex(judgement) ==> (judgement.answer matches Some(answer)
            ==> action.step == UploadStep::Answer(answer)) && action.event == judgement.event,
        progress matches UploadProgress::JudgedByLayer(judgement) ==> (judgement.answer matches Some(answer)
            ==> action.step == UploadStep::Answer(answer)) && action.event == judgement.event,
        progress matches UploadProgress::StatusKnown(Some(block)) ==> action.step == UploadStep::Answer(block.answer)
            && action.event == Some(block.event),
{
}

/// An upload goes on with its reservation exactly where the quota was reserved; a limit refuses it, and a failure
/// of the store does too.
pub proof fn quotas_hold_uploads_back(
    admission: Result<QuotaAdmission, CacheError>,
    limit: Option<u64>,
    labels: Seq<Seq<char>>,
    repository: Seq<char>,
    route: Seq<char>,
    project: Seq<char>,
    filename: Seq<char>,
    action: Seq<char>,
    r: Result<PendingQuota, UploadStatusBlock>,
)
    requires
        is_quota_outcome(admission, limit, labels, repository, route, project, filename, action, r),
    ensures
        r is Ok <==> (admission matches Ok(QuotaAdmission::Reserved(_))),
        admission matches Ok(QuotaAdmission::Reserved(pending)) ==> r == Ok::<PendingQuota, UploadStatusBlock>(pending),
        admission matches Ok(QuotaAdmission::Rejected(_)) ==> (r matches Err(block) && block.answer.status == 403
            && block.event.result@ == "denied"@),
        admission is Err ==> (r matches Err(block) && block.answer.status >= 400 && block.event.result@ == "failure"@),
{
}

/// A reservation is handed on, a limit that was met rejects, and a failure of the store decides nothing.
pub proof fn quota_decisions_follow_the_store(outcome: QuotaOutcome, r: Option<QuotaAdmission>)
    requires
        is_quota_decision(outcome, r),
    ensures
        r is None <==> outcome is Failed,
        (r matches Some(QuotaAdmission::Reserved(_))) <==> outcome is Reserved,
        outcome matches QuotaOutcome::Reserved { id } ==> (r matches Some(QuotaAdmission::Reserved(pending)) && pending.id
            == Some(id)),
        outcome matches QuotaOutcome::ResourceExceeded { total } ==> r == Some(
            QuotaAdmission::Rejected(QuotaRejection::ProjectBytes { total }),
        ),
        outcome matches QuotaOutcome::Exceeded { violations } ==> r == Some(
            QuotaAdmission::Rejected(QuotaRejection::Limits(violations)),
        ),
{
}

/// A write through one index into another keeps every limit of both: a number of bytes is within the quota's limits
/// exactly where it is within those of each policy that has any.
pub proof fn writes_answer_to_both_policies(
    index_name: Seq<char>,
    index: PolicyQuota,
    hosted_name: Seq<char>,
    hosted: PolicyQuota,
    r: Option<EffectiveQuota>,
    bytes: u64,
)
    requires
        is_effective_quota(index_name, index, hosted_name, hosted, r),
        index_name != hosted_name,
        index.enforces_quota || index.max_resource_size is Some,
        hosted.enforces_quota || hosted.max_resource_size is Some,
    ensures
        r matches Some(quota) && {
            &&& keeps(quota.max_project_bytes, bytes) <==> keeps(index.max_resource_size, bytes) && keeps(
                hosted.max_resource_size,
                bytes,
            )
            &&& keeps(quota.limits.max_artifact_bytes, bytes) <==> keeps(index.max_artifact_size, bytes) && keeps(
                hosted.max_artifact_size,
                bytes,
            )
            &&& keeps(quota.limits.max_accounted_bytes, bytes) <==> keeps(index.max_accounted_bytes, bytes) && keeps(
                hosted.max_accounted_bytes,
                bytes,
            )
            &&& keeps(quota.limits.max_resources, bytes) <==> keeps(index.max_resources, bytes) && keeps(
                hosted.max_resources,
                bytes,
            )
            &&& keeps(quota.limits.max_groups_per_resource, bytes) <==> keeps(index.max_groups_per_resource, bytes)
                && keeps(hosted.max_groups_per_resource, bytes)
            &&& quota.limits.audit <==> index.audit && hosted.audit
        },
{
}

/// A write that lands where it was sent, or where only one policy has a quota, is held to that one quota, and a write
/// that neither policy limits to none.
pub proof fn one_policy_is_answered_to_once(
    index_name: Seq<char>,
    index: PolicyQuota,
    hosted_name: Seq<char>,
    hosted: PolicyQuota,
    r: Option<EffectiveQuota>,
)
    requires
        is_effective_quota(index_name, index, hosted_name, hosted, r),
    ensures
        ({
            let one = |policy: PolicyQuota| policy.enforces_quota || policy.max_resource_size is Some;
            let says = |policy: PolicyQuota, quota: EffectiveQuota|
                quota.max_project_bytes == policy.max_resource_size && quota.limits.max_artifact_bytes
                    == policy.max_artifact_size && quota.limits.max_accounted_bytes == policy.max_accounted_bytes
                    && quota.limits.max_resources == policy.max_resources && quota.limits.max_groups_per_resource
                    == policy.max_groups_per_resource && quota.limits.audit == policy.audit;
            &&& index_name == hosted_name ==> (r is Some <==> one(index)) && (r matches Some(quota) ==> says(index, quota))
            &&& index_name != hosted_name ==> (r is None <==> !one(index) && !one(hosted))
            &&& index_name != hosted_name && one(index) && !one(hosted) ==> says(index, r->0)
            &&& index_name != hosted_name && !one(index) && one(hosted) ==> says(hosted, r->0)
        }),
{
}

// ---------------------------------------------------------------------------------------------
// Admission
// ---------------------------------------------------------------------------------------------

/// An upload is staged under the name of its file and the digest of its content, and never where durability cannot
/// be proven.
pub proof fn admissions_bind_name_and_content(
    request: AdmissionRequest<'_>,
    shortfall: Option<Seq<char>>,
    r: Result<IntentDraft, Reply>,
)
    requires
        is_opened(request, shortfall, r),
    ensures
        r is Ok <==> shortfall is None,
        r matches Ok(draft) ==> holds_text(draft.key@, request.filename@) && draft.operation@ == draft.key@ + seq![':']
            + request.digest@,
        r matches Err(answer) ==> answer.status == 503,
{
    if shortfall is None {
        let head = "pypi:"@ + request.tenant@ + seq![':'] + request.authority@ + seq![':'];
        joined_texts_hold(head, request.filename@, Seq::empty());
        assert(head + request.filename@ + Seq::<char>::empty() =~= head + request.filename@);
    }
}

/// A staged upload goes on exactly where its intent is new or the same; only a new one counts as its own.
pub proof fn same_content_is_admitted_again(
    outcome: IntentStageOutcome,
    filename: Seq<char>,
    draft: IntentDraft,
    r: Admission,
)
    requires
        is_admission(outcome, filename, draft, r),
    ensures
        r is Admitted <==> outcome is Admitted || outcome is Duplicate,
        r matches Admission::Admitted(intent) ==> intent.intent_key == draft.key && intent.operation == draft.operation
            && (intent.fresh <==> outcome is Admitted),
        r matches Admission::Reject(answer) ==> answer.status == (match outcome {
            IntentStageOutcome::Conflict => 400u16,
            IntentStageOutcome::Failed => 500u16,
            _ => 503u16,
        }),
{
}

// ---------------------------------------------------------------------------------------------
// Into the store
// ---------------------------------------------------------------------------------------------

/// Whether `event` can follow on `action` on the way into the store.
pub open spec fn store_goes_on(action: StoreAction, event: StoreEvent) -> bool {
    match action {
        StoreAction::FindHome => event is HomeFound,
        StoreAction::Reserve(_) => event is Reserved,
        StoreAction::Store => event is Stored,
        StoreAction::Confirm { .. } => event is Confirmed,
        StoreAction::Finish { .. } => false,
    }
}

/// Whether `run` takes an admitted upload from its claim on, each event following on the action before it.
pub open spec fn is_store_run(
    run: Seq<(StoreEvent, StoreAction)>,
    local_datacenter: Option<Seq<char>>,
    operation: Seq<char>,
    route: Seq<char>,
    project: Seq<char>,
    action: Seq<char>,
) -> bool {
    &&& run.len() > 0
    &&& run[0].0 is Claimed
    &&& forall|i: int|
        0 <= i < run.len() ==> is_store_step(
            (#[trigger] run[i]).0,
            local_datacenter,
            operation,
            route,
            project,
            action,
            run[i].1,
        )
    &&& forall|i: int| 0 < i < run.len() ==> store_goes_on(run[i - 1].1, (#[trigger] run[i]).0)
}

/// Nothing is stored before the operation was claimed, the project's home found to be here, and the quota reserved;
/// and an upload is called durable only behind a store that succeeded.
pub proof fn stored_uploads_were_claimed_fenced_and_reserved(
    run: Seq<(StoreEvent, StoreAction)>,
    local_datacenter: Option<Seq<char>>,
    operation: Seq<char>,
    route: Seq<char>,
    project: Seq<char>,
    action: Seq<char>,
    n: int,
)
    requires
        is_store_run(run, local_datacenter, operation, route, project, action),
        0 <= n < run.len(),
    ensures
        run[n].1 is Store ==> n == 2 && run[0].0 == StoreEvent::Claimed(ClaimOutcome::Proceed) && (run[1].0 matches
            StoreEvent::HomeFound(home) && fence_of(home, local_datacenter) is Some) && (run[2].0 matches
            StoreEvent::Reserved(Ok(_))),
        run[n].1 matches StoreAction::Finish { answer, event, durable, finalize } ==> (durable <==> n == 4) && (durable
            ==> (run[3].0 matches StoreEvent::Stored(Ok(_)))) && (finalize <==> run[n].0 == StoreEvent::Confirmed(
            WriteDurability::Confirmed,
        )),
        n <= 4,
{
    store_order(run, local_datacenter, operation, route, project, action, n);
    assert(is_store_step(run[n].0, local_datacenter, operation, route, project, action, run[n].1));
    if n >= 1 {
        assert(is_store_step(run[0].0, local_datacenter, operation, route, project, action, run[0].1));
        assert(store_goes_on(run[0].1, run[1].0));
    }
    if n >= 2 {
        assert(is_store_step(run[1].0, local_datacenter, operation, route, project, action, run[1].1));
        assert(store_goes_on(run[1].1, run[2].0));
    }
    if n >= 3 {
        assert(is_store_step(run[2].0, local_datacenter, operation, route, project, action, run[2].1));
        assert(store_goes_on(run[2].1, run[3].0));
    }
    if n >= 4 {
        assert(is_store_step(run[3].0, local_datacenter, operation, route, project, action, run[3].1));
        assert(store_goes_on(run[3].1, run[4].0));
    }
}

proof fn store_order(
    run: Seq<(StoreEvent, StoreAction)>,
    local_datacenter: Option<Seq<char>>,
    operation: Seq<char>,
    route: Seq<char>,
    project: Seq<char>,
    action: Seq<char>,
    n: int,
)
    requires
        is_store_run(run, local_datacenter, operation, route, project, action),
        0 <= n < run.len(),
    ensures
        n == 0 ==> run[n].0 is Claimed,
        n == 1 ==> run[n].0 is HomeFound,
        n == 2 ==> run[n].0 is Reserved,
        n == 3 ==> run[n].0 is Stored,
        n == 4 ==> run[n].0 is Confirmed,
        n <= 4,
    decreases n,
{
    if n > 0 {
        store_order(run, local_datacenter, operation, route, project, action, n - 1);
        assert(is_store_step(run[n - 1].0, local_datacenter, operation, route, project, action, run[n - 1].1));
        assert(store_goes_on(run[n - 1].1, run[n].0));
    }
}

/// On the way into the store every step that succeeds leads to the next: a claim that may proceed to the home, a home
/// here to the quota, the quota to the store, and a store to the confirmation.
pub proof fn nothing_holds_a_good_store_back(
    event: StoreEvent,
    local_datacenter: Option<Seq<char>>,
    operation: Seq<char>,
    route: Seq<char>,
    project: Seq<char>,
    action: Seq<char>,
    r: StoreAction,
)
    requires
        is_store_step(event, local_datacenter, operation, route, project, action, r),
    ensures
        event == StoreEvent::Claimed(ClaimOutcome::Proceed) ==> r is FindHome,
        event == StoreEvent::HomeFound(HomeClaim::Unclaimed) ==> r == StoreAction::Reserve(0),
        event matches StoreEvent::HomeFound(HomeClaim::Claimed { home, epoch }) ==> (if local_datacenter == Some(home@) {
            r == StoreAction::Reserve(epoch)
        } else {
            r matches StoreAction::Finish { answer, event, durable, finalize } && answer.status == 503
        }),
        event == StoreEvent::HomeFound(HomeClaim::Failed) ==> (r matches StoreAction::Finish {
            answer,
            event,
            durable,
            finalize,
        } && answer.status == 503),
        event == StoreEvent::Reserved(Ok(())) ==> r is Store,
        event matches StoreEvent::Reserved(Err(block)) ==> (r matches StoreAction::Finish {
            answer,
            event,
            durable,
            finalize,
        } && answer@ == block.answer@),
        event matches StoreEvent::Stored(Ok(fresh)) ==> r == (StoreAction::Confirm { fresh }),
        event matches StoreEvent::Stored(Err(StoreError::FileExists(_))) ==> (r matches StoreAction::Finish {
            answer,
            event,
            durable,
            finalize,
        } && answer.status == 400 && !durable),
        event matches StoreEvent::Stored(Err(StoreError::ProvenanceMismatch(_))) ==> (r matches StoreAction::Finish {
            answer,
            event,
            durable,
            finalize,
        } && answer.status == 400 && !durable),
        event matches StoreEvent::Confirmed(ack) ==> (r matches StoreAction::Finish { answer, event, durable, finalize }
            && answer.status == (if ack == WriteDurability::Confirmed {
            200u16
        } else {
            202u16
        }) && durable && (finalize <==> ack == WriteDurability::Confirmed)),
        event == StoreEvent::Claimed(ClaimOutcome::Failed) ==> (r matches StoreAction::Finish {
            answer,
            event,
            durable,
            finalize,
        } && answer.status == 500),
        event matches StoreEvent::Claimed(ClaimOutcome::Published(_)) ==> (r matches StoreAction::Finish {
            answer,
            event,
            durable,
            finalize,
        } && answer.status == 200),
{
}

/// A first publication is fenced by its home's epoch, and happens nowhere else.
pub proof fn only_the_home_publishes_first(home: HomeClaim, local_datacenter: Option<Seq<char>>, r: Result<u64, Reply>)
    requires
        is_fence(fence_of(home, local_datacenter), r),
    ensures
        home is Unclaimed ==> r == Ok::<u64, Reply>(0),
        home matches HomeClaim::Claimed { home: place, epoch } ==> (r == Ok::<u64, Reply>(epoch) <==> local_datacenter
            == Some(place@)),
        home matches HomeClaim::Claimed { home: place, epoch } ==> (local_datacenter != Some(place@) ==> r is Err),
        home is Failed ==> r is Err,
        r matches Err(answer) ==> answer.status == 503,
{
}

/// An upload is acknowledged with success exactly where it is proven durable, and only then is its operation ended.
pub proof fn acknowledgements_tell_durability(ack: WriteDurability, operation: Seq<char>, r: AckResponse)
    requires
        is_ack(ack, operation, r),
    ensures
        r.finalize <==> ack == WriteDurability::Confirmed,
        r.status == (if ack == WriteDurability::Confirmed {
            200u16
        } else {
            202u16
        }),
        ack == WriteDurability::Unavailable ==> holds_text(r.body@, operation),
{
    let head = "upload accepted; durability pending, retry-safe operation "@;
    joined_texts_hold(head, operation, Seq::empty());
    assert(head + operation + Seq::<char>::empty() =~= head + operation);
}

/// A claim that may proceed is answered nothing, a published one what it was answered before, and one that could not
/// be read is refused.
pub proof fn claims_replay_their_answer(claim: ClaimOutcome, r: Option<Reply>)
    requires
        is_claim_answer(claim, r),
    ensures
        r is None <==> claim is Proceed,
        claim matches ClaimOutcome::Published(response) ==> r->0.status == 200 && (vstd::utf8::valid_utf8(response@)
            ==> r->0.body@ == vstd::utf8::decode_utf8(response@)),
        claim is Failed ==> r->0.status == 500,
{
}

/// An ended upload gives an intent back exactly where it staged that intent itself and nothing of it is in the store.
pub proof fn intents_outlive_stored_uploads(action: StoreAction, fresh: bool, r: bool)
    requires
        gives_intent_back(action, fresh, r),
    ensures
        r ==> fresh && action is Finish,
        action matches StoreAction::Finish { answer, event, durable, finalize } ==> (r <==> fresh && !durable),
        !(action is Finish) ==> !r,
{
}

// ---------------------------------------------------------------------------------------------
// Downloads
// ---------------------------------------------------------------------------------------------

/// A download passes the barrier exactly where the project's status offers its files, the index published the file,
/// and no policy denies it. It is withheld exactly where the project is quarantined.
pub proof fn published_files_pass_the_barrier(
    filename: Seq<char>,
    status: Result<ProjectStatus, CacheError>,
    published: Result<bool, CacheError>,
    denial: Result<Option<PolicyDenial>, CacheError>,
    not_found: Seq<char>,
    r: Barrier,
)
    requires
        is_judged(filename, status, published, denial, not_found, r),
    ensures
        r == Barrier::Open <==> (status matches Ok(s) && s != ProjectStatus::Quarantined) && published == Ok::<
            bool,
            CacheError,
        >(true) && (denial matches Ok(None)),
        (r matches Barrier::Refused(DownloadRefusal::Withheld { .. })) <==> status == Ok::<ProjectStatus, CacheError>(
            ProjectStatus::Quarantined,
        ),
        r matches Barrier::Refused(DownloadRefusal::Withheld { filename: f, status: s }) ==> f@ == filename && s
            == ProjectStatus::Quarantined,
        r matches Barrier::Refused(DownloadRefusal::Policy(d)) ==> denial == Ok::<Option<PolicyDenial>, CacheError>(
            Some(d),
        ) && published == Ok::<bool, CacheError>(true),
        status matches Ok(s) ==> s.open_to_downloads() ==> (published matches Ok(true) ==> (denial matches Ok(Some(d))
            ==> r == Barrier::Refused(DownloadRefusal::Policy(d)))),
        status matches Ok(s) ==> s.open_to_downloads() ==> (published matches Ok(false) ==> (r matches Barrier::Failed(
            error,
        ) && error.kind is FileNotFound)),
        status matches Err(error) ==> r == Barrier::Failed(error),
{
}

/// An inactive policy denies no download. An active one judges the distribution that the name belongs to, by the size
/// that is stored, or else registered.
pub proof fn downloads_are_judged_by_their_distribution(
    policy: Policy,
    filename: Seq<char>,
    facts: FileFacts,
    stored: Option<u64>,
    registered: Option<u64>,
    r: Option<PolicyDenial>,
)
    requires
        is_download_denial(policy, filename, facts, stored, registered, r),
    ensures
        !policy.active ==> r is None,
        policy.active && facts.refusal is Some ==> r is Some,
        policy.active && facts.refusal is None ==> (r is None <==> {
            let judged = crate::policy::FactsText {
                resource: match facts.parsed {
                    Some(parsed) => parsed.normalized_name@,
                    None => "<unknown>"@,
                },
                artifact: Some(crate::policy_engine::artifact_name(filename)),
                group: match facts.parsed {
                    Some(parsed) => Some(parsed.version@),
                    None => None,
                },
                size: if stored is Some {
                    stored
                } else {
                    registered
                },
                upload_time: None,
                now: None,
                attributes: crate::policy_engine::attributes_of(crate::distribution::opt_distribution(facts.parsed)),
            };
            forall|i: int|
                0 <= i < policy.artifact_rules@.len() ==> crate::policy::rule_denial(
                    (#[trigger] policy.artifact_rules@[i])@,
                    crate::policy::PolicyAction::Serve,
                    judged,
                ) is None
        }),
{
    let judged = crate::policy_engine::filename_facts(
        crate::policy_engine::artifact_name(filename),
        crate::distribution::opt_distribution(facts.parsed),
        if stored is Some {
            stored
        } else {
            registered
        },
    );
    crate::policy_laws::refusals_stand_first(
        policy,
        crate::policy::opt_denial(facts.refusal),
        crate::policy::PolicyAction::Serve,
        judged,
    );
}

/// A file path addresses a file exactly where its first segment is a digest and its filename is safe.
pub proof fn file_paths_name_digests(
    digest: Seq<char>,
    rest: Seq<char>,
    filename: Result<String, String>,
    invalid_digest: Seq<char>,
    r: FileTarget,
)
    requires
        !digest.contains('/'),
        is_file_target(digest + seq!['/'] + rest, filename, invalid_digest, r),
    ensures
        r is File <==> crate::digest::is_digest(digest) && filename is Ok,
        r matches FileTarget::File { digest: d, filename: f } ==> d@ == digest && filename is Ok && f@ == filename->Ok_0@,
        r matches FileTarget::Answer(answer) ==> answer.status == 400,
{
    crate::text::first_index_of_joined(digest, '/', rest);
}

/// A digest is told by its length and its digits.
pub proof fn digests_are_lowercase_hex(digest: Seq<char>)
    ensures
        crate::digest::is_digest(digest) <==> digest.len() == 64 && forall|i: int|
            0 <= i < digest.len() ==> '0' <= #[trigger] digest[i] <= '9' || 'a' <= digest[i] <= 'f',
{
}

/// A sidecar is told by its suffix, and names the artifact it belongs to.
pub proof fn sidecars_are_told_by_their_suffix(artifact: Seq<char>, metadata: FileKind, provenance: FileKind, other: FileKind)
    requires
        is_file_kind(artifact + ".metadata"@, metadata),
        is_file_kind(artifact + ".provenance"@, provenance),
        is_file_kind(artifact, other),
    ensures
        metadata == FileKind::Metadata,
        provenance matches FileKind::Provenance(name) && name@ == artifact,
        !".metadata"@.is_suffix_of(artifact) && !".provenance"@.is_suffix_of(artifact) ==> other == FileKind::Artifact,
{
    reveal_strlit(".metadata");
    reveal_strlit(".provenance");
    let m = artifact + ".metadata"@;
    let p = artifact + ".provenance"@;
    assert(m.subrange(m.len() - 9, m.len() as int) =~= ".metadata"@);
    assert(p.subrange(p.len() - 11, p.len() as int) =~= ".provenance"@);
    assert(p.take(p.len() - 11) =~= artifact);
    if ".metadata"@.is_suffix_of(p) {
        assert(p.subrange(p.len() - 9, p.len() as int)[8] == ".metadata"@[8]);
        assert(p.last() == 'e');
    }
}

/// A stored file is answered with a `304` where the client's copy is current, with no byte where the range holds none,
/// and otherwise with exactly the bytes that the range asks for, and the whole file where it asks for none.
pub proof fn stored_files_are_sent_as_asked(blob: StoredBlob, range: RangeRequest, etag: Seq<char>, r: BlobAnswer)
    requires
        stored_answer(blob, range, etag, r),
    ensures
        still_current(blob) <==> r is Answer,
        r matches BlobAnswer::Answer(answer) ==> answer.status == 304 && answer.body@.len() == 0,
        !still_current(blob) ==> match range {
            RangeRequest::Unsatisfiable => r == BlobAnswer::Unsatisfiable(blob.size),
            RangeRequest::Whole => r matches BlobAnswer::Bytes { head, start, length } && head.status == 200 && start == 0
                && length == blob.size,
            RangeRequest::Partial { start: from, end } => r matches BlobAnswer::Bytes { head, start, length }
                && head.status == 206 && start == from && (from < end ==> length == end - from),
        },
        r matches BlobAnswer::Bytes { head, start, length } ==> head@.headers.contains(("etag"@, etag))
            && head@.headers.contains(("content-length"@, decimal(length as nat))) && head@.headers.contains(
            ("accept-ranges"@, "bytes"@),
        ) && head@.headers.contains(("cache-control"@, "public, max-age=31536000, immutable"@)) && head@.headers.contains(
            ("content-type"@, "application/octet-stream"@),
        ) && (blob.modified matches Some(modified) ==> head@.headers.contains(("last-modified"@, modified.date@))),
{
    if r is Bytes {
        let head = (r->Bytes_head)@.headers;
        assert(head[0] == ("content-length"@, decimal(r->Bytes_length as nat)));
        assert(head[1] == ("content-type"@, "application/octet-stream"@));
        assert(head[2] == ("cache-control"@, "public, max-age=31536000, immutable"@));
        assert(head[3] == ("accept-ranges"@, "bytes"@));
        assert(head[4] == ("etag"@, etag));
        if blob.modified is Some {
            assert(head[5] == ("last-modified"@, (blob.modified->0).date@));
        }
    }
}

/// A partial answer names the first and the last byte it sends, and the size of the whole.
pub proof fn parts_say_where_they_stand(blob: StoredBlob, start: u64, end: u64, etag: Seq<char>, r: BlobAnswer)
    requires
        stored_answer(blob, RangeRequest::Partial { start, end }, etag, r),
        !still_current(blob),
        start < end <= blob.size,
    ensures
        (r->Bytes_head)@.headers.contains(
            (
                "content-range"@,
                "bytes "@ + decimal(start as nat) + "-"@ + decimal((end - 1) as nat) + "/"@ + decimal(blob.size as nat),
            ),
        ),
{
    let head = (r->Bytes_head)@.headers;
    let value = "bytes "@ + decimal(start as nat) + "-"@ + decimal((end - 1) as nat) + "/"@ + decimal(blob.size as nat);
    assert(head[head.len() - 1] == ("content-range"@, value));
}

/// A file that still arrives from upstream is streamed whole with success, and a failure is answered as such.
pub proof fn live_files_stream_whole(
    outcome: FileOutcome,
    range: RangeRequest,
    etag: Seq<char>,
    route: Seq<char>,
    digest: Seq<char>,
    filename: Seq<char>,
    action: Seq<char>,
    r: BlobAnswer,
)
    requires
        is_blob_answer(outcome, range, etag, route, digest, filename, action, r),
    ensures
        outcome is Live <==> r is Stream,
        r matches BlobAnswer::Stream { head } ==> head.status == 200 && head@.headers.contains(("etag"@, etag)),
        outcome matches FileOutcome::Cached(blob) ==> stored_answer(blob, range, etag, r),
        outcome matches FileOutcome::Failed(error) ==> (r matches BlobAnswer::Answer(answer) && answer.status == (
        if error.kind is Policy {
            403u16
        } else {
            error_status(error.kind, "file download"@)
        })),
{
    if r is Stream {
        assert((r->Stream_head)@.headers[3] == ("etag"@, etag));
    }
}

/// A `HEAD` says what the `GET` would: not changed, no such range, or the status and length of what is sent. Of a file
/// that is not here it says the registered length, and none where none is known.
pub proof fn heads_say_what_a_get_sends(probe: FileProbe, range: RangeRequest, etag: Seq<char>, r: HeadAnswer)
    requires
        is_head_answer(probe, range, etag, r),
    ensures
        probe matches FileProbe::Cached(blob) ==> {
            &&& still_current(blob) <==> r is Answer
            &&& r matches HeadAnswer::Answer(answer) ==> answer.status == 304
            &&& !still_current(blob) ==> match range {
                RangeRequest::Unsatisfiable => r == HeadAnswer::Unsatisfiable(blob.size),
                RangeRequest::Whole => r matches HeadAnswer::Head { head, length_known } && length_known && head.status
                    == 200 && head@.headers.contains(("content-length"@, decimal(blob.size as nat))),
                RangeRequest::Partial { start, end } => r matches HeadAnswer::Head { head, length_known } && length_known
                    && head.status == 206 && (start < end ==> head@.headers.contains(
                    ("content-length"@, decimal((end - start) as nat)),
                )),
            }
        },
        probe matches FileProbe::Upstream(size) ==> (r matches HeadAnswer::Head { head, length_known } && head.status
            == 200 && (length_known <==> size is Some) && (size matches Some(n) ==> head@.headers.contains(
            ("content-length"@, decimal(n as nat)),
        ))),
{
    if r is Head {
        let head = (r->Head_head)@.headers;
        match probe {
            FileProbe::Cached(blob) => {
                let at: int = if blob.modified is Some {
                    5
                } else {
                    4
                };
                assert(head[at].0 == "content-length"@);
                assert(head.contains(head[at]));
            },
            FileProbe::Upstream(size) => {
                if size is Some {
                    assert(head[4] == ("content-length"@, decimal(size->0 as nat)));
                }
            },
        }
    }
}

/// On the way to a file every step that finds nothing against it leads on, and behind the last the file is sent, or a
/// sidecar where its name asks for one; whatever stands against it is answered.
pub proof fn nothing_holds_a_good_download_back(event: FileEvent, request: FileRequest<'_>, action: FileAction)
    requires
        is_file_step(event, request, action),
    ensures
        event matches FileEvent::Addressed(FileTarget::File { .. }) ==> action is CheckRevocation,
        event matches FileEvent::Cleared(Ok(_)) ==> action is Judge,
        event == FileEvent::Judged(Barrier::Open) && !".metadata"@.is_suffix_of(request.filename@)
            && !".provenance"@.is_suffix_of(request.filename@) ==> action is CompareTags,
        event == FileEvent::Judged(Barrier::Open) && ".metadata"@.is_suffix_of(request.filename@) ==> action
            is ServeMetadata,
        event == FileEvent::Compared(false) ==> action == (if request.head {
            FileAction::Probe
        } else {
            FileAction::Serve
        }),
        event == FileEvent::Compared(true) ==> (action matches FileAction::Answer(answer) && answer.status == 304),
        event matches FileEvent::Judged(Barrier::Refused(refusal)) ==> action == FileAction::Refuse(refusal),
        event matches FileEvent::Judged(Barrier::Failed(error)) ==> action is Answer,
        event matches FileEvent::Cleared(Err(error)) ==> action is Answer,
        event matches FileEvent::Addressed(FileTarget::Answer(answer)) ==> action == FileAction::Answer(answer),
{
}

/// A validated sidecar keeps its status and body unless the client holds it; then it is a bodyless `304`. Its entity
/// tag is its digest, in quotes.
pub proof fn sidecars_are_validated_by_their_digest(answer: ReplyText, digest: Seq<char>, matched: bool)
    ensures
        validated(answer, digest, matched).status == (if matched {
            304u16
        } else {
            answer.status
        }),
        validated(answer, digest, matched).body == (if matched {
            Seq::empty()
        } else {
            answer.body
        }),
        validated(answer, digest, matched).headers.last() == ("etag"@, "\""@ + digest + "\""@),
{
}

/// A date counts only where it is the only one and no entity tag was sent.
pub proof fn tags_stand_before_dates(dates: Seq<Option<String>>)
    ensures
        effective_date(true, dates) is None,
        effective_date(false, dates) is Some <==> dates.len() == 1 && dates[0] is Some,
        effective_date(false, dates) matches Some(date) ==> date == dates[0]->0@,
{
}

// ---------------------------------------------------------------------------------------------
// Answers
// ---------------------------------------------------------------------------------------------

/// What went wrong decides the status: what is missing is not found, what is refused is forbidden, what is too much is
/// told to wait, what clashes conflicts, and the rest is a fault of this registry or of its upstream.
pub proof fn errors_have_their_status(kind: CacheErrorKind, operation: Seq<char>)
    ensures
        error_status(kind, operation) == 404 <==> kind is FileNotFound || kind is ArtifactRevoked || kind
            is NoPromotableFiles,
        error_status(kind, operation) == 403 <==> kind is NotVolatile || kind is Policy,
        error_status(kind, operation) == 429 <==> kind is RateLimited || kind is UpstreamRateLimited,
        error_status(kind, operation) == 409 <==> kind is FileExists || kind is AuthoritySuperseded,
        error_status(kind, operation) == 503 <==> kind is OfflineMissing,
        error_status(kind, operation) == 500 <==> kind is Meta || kind is Blob || kind is MissingSha256 || kind is Quota
            || kind is VirtualIndexCycle || (kind is Parse && (operation == "upload storage"@ || operation
            == "file removal"@ || operation == "promotion"@)),
        error_status(kind, operation) == 502 <==> kind is UpstreamInvalidResponse || kind is Upstream || kind is Archive
            || kind is Simple || kind is Unavailable || kind is InvalidProvenance || kind is Stream || (kind is Parse && !(
        operation == "upload storage"@ || operation == "file removal"@ || operation == "promotion"@)),
{
}

/// An error that no policy raised is told in its own words, and a rate limit says when to come back.
pub proof fn errors_are_told(error: CacheError, context: ContextText, action: Seq<char>)
    ensures
        error_reply(error, context, action).status == error_status(error.kind, context.operation),
        !(error.kind is Policy) ==> holds_text(error_reply(error, context, action).body, error.message@) && holds_text(
            error_reply(error, context, action).body,
            context.operation,
        ),
        error.kind matches CacheErrorKind::RateLimited { seconds } ==> error_reply(error, context, action).headers
            == seq![("retry-after"@, decimal(seconds as nat))],
        error.kind matches CacheErrorKind::UpstreamRateLimited { retry_after: Some(value) } ==> error_reply(
            error,
            context,
            action,
        ).headers == seq![("retry-after"@, value@)],
{
    let body = error_reply(error, context, action).body;
    if !(error.kind is Policy) {
        let head = body.take(body.len() - error.message@.len());
        assert(body =~= head + error.message@ + Seq::empty()) by {
            assert(body.skip(body.len() - error.message@.len()) =~= error.message@);
        }
        joined_texts_hold(head, error.message@, Seq::empty());
        let tail = body.skip(context.operation.len() as int);
        assert(body =~= Seq::<char>::empty() + context.operation + tail) by {
            assert(body.take(context.operation.len() as int) =~= context.operation);
        }
        joined_texts_hold(Seq::empty(), context.operation, tail);
    }
    match error.kind {
        CacheErrorKind::RateLimited { seconds } => {
            assert(error_reply(error, context, action).headers =~= seq![("retry-after"@, decimal(seconds as nat))]);
        },
        CacheErrorKind::UpstreamRateLimited { retry_after: Some(value) } => {
            assert(error_reply(error, context, action).headers =~= seq![("retry-after"@, value@)]);
        },
        _ => {},
    }
}

/// A denial goes by the names of this ecosystem: what the registry calls a resource, an artifact and a group are a
/// project, a file and a version here, and every other name stays.
pub proof fn denials_speak_of_projects_and_files(rule: Seq<char>, field: Seq<char>)
    ensures
        rule_named("resource-allow-list"@) == "project-allow-list"@,
        rule_named("resource-block-list"@) == "project-block-list"@,
        rule_named("max-artifact-size"@) == "max-file-size"@,
        rule != "resource-allow-list"@ && rule != "resource-block-list"@ && rule != "max-artifact-size"@ ==> rule_named(
            rule,
        ) == rule,
        field_named("resource"@) == "project"@,
        field_named("artifact"@) == "filename"@,
        field_named("group"@) == "version"@,
        field != "resource"@ && field != "artifact"@ && field != "group"@ ==> field_named(field) == field,
{
    reveal_strlit("resource-allow-list");
    reveal_strlit("resource-block-list");
    reveal_strlit("max-artifact-size");
    reveal_strlit("resource");
    reveal_strlit("artifact");
    reveal_strlit("group");
    assert("resource-allow-list"@[9] != "resource-block-list"@[9]);
    assert("max-artifact-size"@[0] != "resource-allow-list"@[0]);
    assert("resource"@[0] != "artifact"@[0]);
    assert("group"@.len() != "resource"@.len());
    assert("group"@.len() != "artifact"@.len());
}

/// A page is a success of its media type, with the serial it stands at.
pub proof fn pages_are_negotiated(media: Seq<char>, body: Seq<char>, serial: Option<u64>)
    ensures
        page_of(media, body, serial).status == 200,
        page_of(media, body, serial).body == body,
        page_of(media, body, serial).headers.contains(("content-type"@, media)),
        page_of(media, body, serial).headers.contains(("vary"@, "Accept"@)),
        serial matches Some(n) ==> page_of(media, body, serial).headers.last() == (
            "x-pypi-last-serial"@,
            decimal(n as nat),
        ),
{
    reveal_strlit("content-type");
    reveal_strlit("vary");
    reveal_strlit("x-pypi-last-serial");
    let bare = crate::serving::reply::plain(200, body).with("content-type"@, media).with("vary"@, "Accept"@);
    assert(bare.headers[0] == ("content-type"@, media));
    assert(bare.headers[1] == ("vary"@, "Accept"@));
    if serial is Some {
        let other = |h: (Seq<char>, Seq<char>)| h.0 != "x-pypi-last-serial"@;
        let kept = bare.headers.filter(other);
        assert("content-type"@.len() != "x-pypi-last-serial"@.len());
        assert("vary"@.len() != "x-pypi-last-serial"@.len());
        reveal(Seq::filter);
        let one = bare.headers.drop_last();
        assert(one =~= seq![("content-type"@, media)]);
        assert(one.drop_last() =~= Seq::empty());
        assert(one.drop_last().filter(other) =~= Seq::empty());
        assert(one.filter(other) =~= seq![("content-type"@, media)]);
        assert(kept =~= bare.headers);
        let all = page_of(media, body, serial).headers;
        assert(all[0] == ("content-type"@, media));
        assert(all[1] == ("vary"@, "Accept"@));
    }
}

/// A project list and a project page are given where they resolve, a project that is not there is not found, and a
/// failure is answered with its own status.
pub proof fn pages_are_given_where_they_resolve(
    list: Result<(ProjectList, Option<u64>), CacheError>,
    detail: Result<Option<DetailPage>, CacheError>,
    format: Format,
    index: Seq<char>,
    project: Seq<char>,
    html: Seq<char>,
    action: Seq<char>,
)
    ensures
        list matches Ok((found, _)) ==> list_reply(list, format, index, html, action).status == 200 && list_reply(
            list,
            format,
            index,
            html,
            action,
        ).body == (if format is Json {
            json_project_list(found)
        } else {
            html
        }),
        list matches Err(error) ==> list_reply(list, format, index, html, action).status == error_status(
            error.kind,
            "project list"@,
        ),
        detail matches Ok(Some(page)) ==> detail_reply(detail, index, project, action).status == 200 && detail_reply(
            detail,
            index,
            project,
            action,
        ).body == json_detail(page.detail),
        detail matches Ok(None) ==> detail_reply(detail, index, project, action).status == 404 && holds_text(
            detail_reply(detail, index, project, action).body,
            crate::outside::quoted_text(project),
        ),
        detail matches Err(error) ==> detail_reply(detail, index, project, action).status == (if error.kind
            is UpstreamInvalidResponse {
            502u16
        } else {
            error_status(error.kind, "project detail"@)
        }),
{
    let quoted = crate::outside::quoted_text(project);
    let tail = " was not found on index "@ + crate::outside::quoted_text(index);
    joined_texts_hold("project "@, quoted, tail);
    assert("project "@ + quoted + " was not found on index "@ + crate::outside::quoted_text(index) =~= "project "@ + quoted
        + tail);
}

/// A read that is granted and not held back is answered as it is, but for how long it may be kept. One that is refused
/// is forbidden where the credential does not reach, and asked for a credential otherwise; one held back is not found.
pub proof fn granted_reads_are_answered(
    denial: Option<Denial>,
    answer: ReplyText,
    held: bool,
    authenticated: bool,
    ttl_secs: u64,
)
    ensures
        ({
            let r = dispatched(denial, answer, held, authenticated, ttl_secs);
            &&& denial is None && !held ==> r.status == answer.status && r.body == answer.body
            &&& denial is None && held ==> r.status == 404
            &&& denial matches Some(d) ==> r.status == (if d == Denial::Forbidden {
                403u16
            } else {
                401u16
            })
            &&& r.headers.last().0 == "cache-control"@
            &&& forall|i: int| 0 <= i < r.headers.len() - 1 ==> (#[trigger] r.headers[i]).0 != "cache-control"@
        }),
{
    let base = match denial {
        Some(denial) => crate::serving::dispatch::refused_read(denial),
        None => if held {
            crate::serving::reply::missing()
        } else {
            answer
        },
    };
    let r = dispatched(denial, answer, held, authenticated, ttl_secs);
    let other = |h: (Seq<char>, Seq<char>)| h.0 != "cache-control"@;
    let kept = base.headers.filter(other);
    assert forall|i: int| 0 <= i < r.headers.len() - 1 implies (#[trigger] r.headers[i]).0 != "cache-control"@ by {
        broadcast use vstd::seq_lib::group_filter_ensures;

        assert(r.headers[i] == kept[i]);
        assert(other(kept[i]));
    }
}

/// What may change at its origin is always revalidated, any other success is kept for the given time and then
/// revalidated, and nothing else is kept. What a credential opened is kept by its holder alone.
pub proof fn answers_are_kept_no_longer_than_allowed(
    status: u16,
    cache_control: Option<Seq<char>>,
    authenticated: bool,
    ttl_secs: u64,
)
    ensures
        ({
            let policy = revocation_policy(status, cache_control, authenticated, ttl_secs);
            let good = 200 <= status < 300 || status == 304;
            &&& cache_control == Some("no-cache"@) ==> policy == (if authenticated {
                "private, no-cache"@
            } else {
                "public, no-cache"@
            })
            &&& cache_control != Some("no-cache"@) && !good ==> policy == "no-store"@
            &&& cache_control != Some("no-cache"@) && good ==> holds_text(policy, ", max-age="@ + decimal(ttl_secs as nat))
                && (authenticated ==> "private"@.is_prefix_of(policy)) && (!authenticated ==> "public"@.is_prefix_of(policy))
                && holds_text(policy, ", must-revalidate, no-transform"@)
        }),
{
    let who = if authenticated {
        "private"@
    } else {
        "public"@
    };
    let age = ", max-age="@ + decimal(ttl_secs as nat);
    let tail = ", must-revalidate, no-transform"@;
    let policy = who + ", max-age="@ + decimal(ttl_secs as nat) + tail;
    assert(policy =~= who + age + tail);
    joined_texts_hold(who, age, tail);
    joined_texts_hold(who + age, tail, Seq::empty());
    assert(who + age + tail + Seq::<char>::empty() =~= policy);
    assert(policy.subrange(0, who.len() as int) =~= who);
}

/// A caller's copy is current exactly where the stored blob is dated and no newer. A blob without a date is always sent.
pub proof fn only_dated_blobs_are_current(blob: StoredBlob)
    ensures
        blob.modified is None ==> !still_current(blob),
        blob.modified matches Some(modified) ==> (still_current(blob) <==> modified.current),
{
}

} // verus!
