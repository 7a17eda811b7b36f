use peryx_ecosystem_pypi::policy::{FallbackMode, PolicyAction, PolicyDenial};
use peryx_ecosystem_pypi::quota::{
    admit_upload, effective_project_quota, quota_reservation, Admission, PolicyQuota, QuotaLimit, QuotaOutcome,
    QuotaRejection,
};
use peryx_ecosystem_pypi::serial::{
    compose_serial_watermarks, validate_upstream_serial, ChangelogEntry, ChangelogPage, ChangelogPageError, SerialStamp,
    UpstreamSerialError,
};
use peryx_ecosystem_pypi::shadow::http::{
    authenticate, authorize_ecosystem, authorize_local, candidate_response, credential_rejection, invalid_query,
    require_permission, shadow_error_response, shadow_page, shadow_query, Authentication, CredentialDenial,
    InspectedCandidate, ScopedDecision, ShadowDecision, ShadowIdentity, ShadowParams, ShadowRejection,
};
use peryx_ecosystem_pypi::shadow::query::{paginate, query_shadowed, ShadowCandidate, ShadowQuery, ShadowQueryError};
use peryx_ecosystem_pypi::simple_client::{
    delta_seconds, fallback_result, is_healthy, next_attempt, read_capped, response_cache_policy, simple_head,
    simple_project_url, validate_simple_content_type, CachedValidators, NonEmptyCandidates, ResponseHeaders, RouteStep,
    UpstreamFailure,
};
use peryx_ecosystem_pypi::source_policy::{Member, SourceSelection};
use peryx_ecosystem_pypi::sync_lock::{take_turn, Synced, Turn};

fn lifetime(values: &[&str]) -> (Option<i64>, Option<bool>, bool) {
    let policy = response_cache_policy(&values.iter().map(|value| Some((*value).to_owned())).collect());
    (policy.fresh_secs, policy.must_revalidate, policy.storable)
}

#[test]
fn lifetimes_come_from_cache_control() {
    assert_eq!(lifetime(&["max-age=60"]), (Some(60), Some(false), true));
    assert_eq!(lifetime(&["max-age=60, s-maxage=\"30\""]), (Some(30), Some(true), true));
    assert_eq!(lifetime(&["Max-Age=60", "must-revalidate"]), (Some(60), Some(true), true));
    assert_eq!(lifetime(&["no-cache, max-age=60"]), (Some(0), Some(true), true));
    assert_eq!(lifetime(&["no-store"]), (Some(0), Some(true), false));
    assert_eq!(lifetime(&["private"]), (None, Some(false), false));
    assert_eq!(lifetime(&["ext=\"a, no-store\", max-age=5"]), (Some(5), Some(false), true));
}

#[test]
fn spoiled_lifetimes_leave_nothing_fresh() {
    assert_eq!(lifetime(&["max-age=60, max-age=60"]).0, Some(0));
    assert_eq!(lifetime(&["max-age =60"]).0, Some(0));
    assert_eq!(lifetime(&["max-age"]).0, Some(0));
    assert_eq!(lifetime(&["max-age=-1"]).0, Some(0));
    assert_eq!(lifetime(&["ext=\"open"]).0, Some(0));
    assert_eq!(response_cache_policy(&vec![None]).fresh_secs, Some(0));
    assert_eq!(delta_seconds("99999999999999999999"), Some(i64::MAX));
    assert_eq!(delta_seconds("\"1\\2\""), Some(12));
    assert_eq!(delta_seconds("\"12"), None);
    assert_eq!(delta_seconds(""), None);
}

#[test]
fn validators_belong_to_their_source() {
    let cached = CachedValidators { source: Some("a"), etag: Some("\"1\""), last_modified: None };
    assert_eq!(cached.for_candidate("a").etag, Some("\"1\""));
    let cached = CachedValidators { source: Some("a"), etag: Some("\"1\""), last_modified: None };
    assert_eq!(cached.for_candidate("b").etag, None);
}

#[test]
fn answers_fall_back_where_another_source_may_do_better() {
    for status in [404, 429, 500, 599] {
        assert!(fallback_result(Ok(status)));
    }
    for status in [200, 304, 401, 403, 600] {
        assert!(!fallback_result(Ok(status)));
    }
    assert!(fallback_result(Err(UpstreamFailure::DeadlineExceeded)));
    assert!(!fallback_result(Err(UpstreamFailure::InvalidResponse)));
    assert!(is_healthy(Ok(200)));
}

#[test]
fn candidates_are_tried_in_turn() {
    let mut candidates = NonEmptyCandidates::new(2);
    assert_eq!(candidates.current(), 0);
    assert!(matches!(candidates.settle(Ok(404)), RouteStep::Next));
    assert_eq!(candidates.current(), 1);
    assert!(matches!(candidates.settle(Ok(404)), RouteStep::Answer));
    let mut first = NonEmptyCandidates::new(2);
    assert!(matches!(first.settle(Ok(200)), RouteStep::Answer));
    assert_eq!(next_attempt(0, true, 2), Some(1));
    assert_eq!(next_attempt(2, true, 2), None);
    assert_eq!(next_attempt(0, false, 2), None);
}

#[test]
fn a_page_is_read_up_to_its_limit() {
    let mut body = vec![1, 2];
    assert!(read_capped(&mut body, &[3], 3).is_ok());
    assert_eq!(body, vec![1, 2, 3]);
    assert_eq!(read_capped(&mut body, &[4], 3).err().map(|error| error.limit), Some(3));
}

#[test]
fn a_page_names_a_media_type_that_can_be_read() {
    assert!(validate_simple_content_type("u", Some("Text/HTML; charset=utf-8")).is_ok());
    assert!(validate_simple_content_type("u", Some("application/vnd.pypi.simple.v1+json")).is_ok());
    assert_eq!(validate_simple_content_type("u", None), Err("missing Simple API Content-Type from u".to_owned()));
    assert_eq!(
        validate_simple_content_type("u", Some("text/plain")),
        Err("unsupported Simple API Content-Type \"text/plain\" from u".to_owned()),
    );
    let headers = |status, content_type: Option<&str>| ResponseHeaders {
        status,
        url: "u".to_owned(),
        content_type: content_type.map(str::to_owned),
        etag: None,
        last_modified: None,
        retry_after: None,
        content_length: Some("12".to_owned()),
        last_serial: Some("x".to_owned()),
        cache_control: vec![Some("max-age=7".to_owned())],
    };
    assert_eq!(simple_head(headers(200, None)).err(), Some("missing Simple API Content-Type from u".to_owned()));
    let head = simple_head(headers(304, None)).unwrap_or_else(|reason| panic!("{reason}"));
    assert_eq!((head.content_length, head.last_serial, head.max_age), (Some(12), None, Some(7)));
    assert_eq!(head.attribute_source("a").source.as_deref(), Some("a"));
    assert_eq!(simple_project_url("https://pypi.example/simple/", "flask").as_deref(), Some("https://pypi.example/simple/flask/"));
    assert_eq!(simple_project_url("nowhere", "flask"), None);
}

#[test]
fn serials_never_go_back() {
    assert_eq!(validate_upstream_serial(None, None).ok(), Some(None));
    assert_eq!(validate_upstream_serial(Some(5), Some(5)).ok(), Some(Some(5)));
    let missing = validate_upstream_serial(Some(5), None).err().map(|error| error.message());
    assert_eq!(missing.as_deref(), Some("upstream response omitted the serial watermark; required at least 5"));
    assert!(matches!(validate_upstream_serial(Some(5), Some(4)), Err(UpstreamSerialError::Regressed { required: 5, received: 4 })));
}

#[test]
fn watermarks_compose_within_one_domain() {
    let stamp = |domain: &str, serial| Some(SerialStamp { domain: domain.to_owned(), serial });
    let composed = compose_serial_watermarks(&vec![stamp("a", 5), stamp("a", 3)]);
    assert_eq!(composed.map(|stamp| stamp.serial), Some(3));
    assert!(compose_serial_watermarks(&vec![stamp("a", 5), stamp("b", 3)]).is_none());
    assert!(compose_serial_watermarks(&vec![stamp("a", 5), None]).is_none());
}

#[test]
fn changelog_pages_are_ordered() {
    let entry = |serial| ChangelogEntry {
        project: "x".to_owned(),
        version: None,
        timestamp: 0,
        action: "create".to_owned(),
        serial,
    };
    let page = ChangelogPage::new(1, 9, vec![entry(2), entry(5)], 2).unwrap_or_else(|error| panic!("{}", error.message()));
    assert_eq!((page.entries().len(), page.current_serial()), (2, 9));
    assert_eq!(page.resume_serial(), 5);
    let empty = ChangelogPage::new(1, 9, Vec::new(), 2).unwrap_or_else(|error| panic!("{}", error.message()));
    assert_eq!(empty.resume_serial(), 9);
    assert!(matches!(ChangelogPage::new(1, 9, vec![entry(2), entry(3), entry(4)], 2), Err(ChangelogPageError::TooLarge { actual: 3, limit: 2 })));
    assert!(matches!(ChangelogPage::new(2, 9, vec![entry(2)], 2), Err(ChangelogPageError::AtOrBeforeCursor { after: 2, serial: 2 })));
    assert!(matches!(ChangelogPage::new(1, 9, vec![entry(5), entry(5)], 2), Err(ChangelogPageError::NotIncreasing { previous: 5, serial: 5 })));
    let beyond = ChangelogPage::new(1, 4, vec![entry(5)], 2).err().map(|error| error.message());
    assert_eq!(beyond.as_deref(), Some("changelog serial 5 exceeds snapshot 4"));
}

fn quota(limit: Option<u64>, project: Option<u64>, audit: bool) -> PolicyQuota {
    PolicyQuota {
        enforces_quota: limit.is_some(),
        max_artifact_size: limit,
        max_accounted_bytes: None,
        max_resources: None,
        max_groups_per_resource: None,
        audit,
        max_resource_size: project,
    }
}

#[test]
fn a_virtual_route_answers_to_both_quotas() {
    let merged = effective_project_quota("virtual", &quota(Some(10), None, true), "hosted", &quota(Some(7), Some(3), false));
    let merged = merged.unwrap_or_else(|| panic!("a quota"));
    assert_eq!(merged.limits.max_artifact_bytes, Some(7));
    assert_eq!(merged.max_project_bytes, Some(3));
    assert!(!merged.limits.audit);
    let own = effective_project_quota("hosted", &quota(Some(10), None, true), "hosted", &quota(Some(7), None, false));
    assert_eq!(own.map(|quota| quota.limits.max_artifact_bytes), Some(Some(10)));
    assert!(effective_project_quota("a", &quota(None, None, false), "b", &quota(None, None, false)).is_none());
}

#[test]
fn a_limit_rejects_and_a_failure_does_not() {
    let asked = quota_reservation("hosted", "x", Some("1"), "ab", 5, 7);
    assert_eq!((asked.repository, asked.resource, asked.group, asked.bytes), ("hosted", Some("x"), Some("1"), 5));
    match admit_upload(QuotaOutcome::Reserved { id: 4 }) {
        Some(Admission::Reserved(mut pending)) => {
            assert_eq!(pending.to_release(), Some(4));
            pending.finish();
            assert_eq!(pending.to_release(), None);
        }
        _ => panic!("a reservation"),
    }
    assert!(matches!(admit_upload(QuotaOutcome::ResourceExceeded { total: 9 }), Some(Admission::Rejected(QuotaRejection::ProjectBytes { total: 9 }))));
    assert!(matches!(admit_upload(QuotaOutcome::Exceeded { violations: vec![QuotaLimit::Resources] }), Some(Admission::Rejected(QuotaRejection::Limits(list))) if list == vec![QuotaLimit::Resources]));
    assert!(admit_upload(QuotaOutcome::Failed).is_none());
}

fn denial() -> PolicyDenial {
    PolicyDenial {
        action: PolicyAction::Cached,
        resource: "x".to_owned(),
        artifact: None,
        group: None,
        rule: "protected-name",
        field: "project",
        reason: "no".to_owned(),
    }
}

#[test]
fn source_modes_choose_members() {
    let reaches = vec![false, true, false];
    let order = vec![0, 1, 2];
    assert_eq!(SourceSelection::new(FallbackMode::Fallback, None).candidates(&order, &reaches), vec![0, 1, 2]);
    assert_eq!(SourceSelection::new(FallbackMode::NoFallback, None).candidates(&order, &reaches), vec![0, 2]);
    assert_eq!(SourceSelection::new(FallbackMode::Fallback, Some(denial())).candidates(&order, &reaches), vec![0, 2]);
    assert!(SourceSelection::new(FallbackMode::Fallback, Some(denial())).into_cached_denial().is_some());
    let member = |position, has_files| Member { position, has_files, value: position };
    let positions = |members: Vec<Member<usize>>| members.into_iter().map(|member| member.value).collect::<Vec<_>>();
    let private = SourceSelection::new(FallbackMode::PrivateFirst, None);
    let (kept, collision) = private.retain_selected(vec![member(0, true), member(1, true), member(2, false)], &reaches);
    assert_eq!((positions(kept), collision), (vec![0], true));
    let (kept, collision) = private.retain_selected(vec![member(0, false), member(1, true)], &reaches);
    assert_eq!((positions(kept), collision), (vec![1], false));
    let open = SourceSelection::new(FallbackMode::Fallback, None);
    let (kept, _) = open.retain_selected(vec![member(0, false), member(1, true)], &reaches);
    assert_eq!(positions(kept), vec![0, 1]);
}

fn candidate(cursor: &str) -> ShadowCandidate {
    ShadowCandidate {
        cursor: cursor.to_owned(),
        member: "m".to_owned(),
        source: "hosted",
        filename: format!("{cursor}.whl"),
        digest: None,
        selected: true,
        reason: None,
    }
}

fn query(cursor: Option<&str>, limit: usize) -> ShadowQuery {
    ShadowQuery { repository: "r".to_owned(), project: "p".to_owned(), cursor: cursor.map(str::to_owned), limit }
}

#[test]
fn shadow_pages_follow_their_cursor() {
    let all = || vec![candidate("a"), candidate("b"), candidate("c")];
    let first = paginate(all(), &query(None, 2));
    assert_eq!(first.candidates.iter().map(|c| c.cursor.as_str()).collect::<Vec<_>>(), vec!["a", "b"]);
    assert_eq!(first.next_cursor.as_deref(), Some("b"));
    let second = paginate(all(), &query(Some("b"), 2));
    assert_eq!(second.candidates.iter().map(|c| c.cursor.as_str()).collect::<Vec<_>>(), vec!["c"]);
    assert_eq!(second.next_cursor, None);
}

#[test]
fn a_shadow_query_is_judged_before_it_is_read() {
    assert!(matches!(query_shadowed(&query(None, 0), Some(Err("gone".to_owned()))), Err(ShadowQueryError::InvalidLimit)));
    assert!(matches!(query_shadowed(&query(None, 1), Some(Err("gone".to_owned()))), Err(ShadowQueryError::Store(_))));
    let page = query_shadowed(&query(None, 1), Some(Ok(vec![candidate("b"), candidate("a")])));
    assert_eq!(page.map(|page| page.candidates[0].cursor.clone()).ok(), Some("a".to_owned()));
    assert!(query_shadowed(&query(None, 1), None).is_ok_and(|page| page.candidates.is_empty()));
}

#[test]
fn shadow_queries_are_bounded() {
    assert!(query(None, 1).validate().is_ok());
    assert!(query(None, 100).validate().is_ok());
    assert!(matches!(query(None, 0).validate(), Err(ShadowQueryError::InvalidLimit)));
    assert!(matches!(query(None, 101).validate(), Err(ShadowQueryError::InvalidLimit)));
    assert!(matches!(query(Some(""), 1).validate(), Err(ShadowQueryError::InvalidCursor)));
    let long = ShadowQuery { repository: "r".to_owned(), project: "p".repeat(513), cursor: None, limit: 1 };
    assert!(matches!(long.validate(), Err(ShadowQueryError::ProjectTooLong)));
    let params = ShadowParams { repository: "r".to_owned(), project: "p".to_owned(), cursor: None, limit: None };
    assert_eq!(shadow_query(params, "r".to_owned()).limit, 25);
    let limited = shadow_error_response(&ShadowQueryError::InvalidLimit);
    assert_eq!((limited.status, limited.body.as_str()), (400, "{\"error\":\"limit must be between 1 and 100\"}"));
    let redacted = shadow_error_response(&ShadowQueryError::Store("/var/db is gone".to_owned()));
    assert_eq!((redacted.status, redacted.body.as_str()), (500, "{\"error\":\"shadow query failed\"}"));
    assert_eq!(invalid_query().status, 400);
}

#[test]
fn shadow_callers_are_told_apart() {
    assert!(require_permission(ScopedDecision::Allow).is_ok());
    assert!(require_permission(ScopedDecision::NoGrant).is_err());
    assert_eq!(credential_rejection(CredentialDenial::Unauthenticated).response().status, 401);
    assert_eq!(ShadowRejection::Unavailable.response().body, "{\"error\":\"shadow inspection service unavailable\"}");
    assert_eq!(authorize_local(false, ScopedDecision::Allow), authorize_local(true, ScopedDecision::NoGrant));
    assert_eq!(authorize_ecosystem(true, Some(CredentialDenial::Forbidden)), Err(ShadowRejection::Forbidden));
    assert_eq!(authorize_ecosystem(false, None), Err(ShadowRejection::Unauthorized));
    assert!(matches!(authenticate(Authentication::User(7)), Ok(ShadowIdentity::Local(7))));
    assert!(authenticate(Authentication::<u8>::Missing).is_err());
    let answered = candidate_response(InspectedCandidate { candidate: candidate("a"), decision: None });
    assert_eq!(answered.filename, "a.whl");
}

#[test]
fn one_caller_leads_a_sync() {
    assert!(take_turn(Turn::<u8>::Lead).is_none());
    assert_eq!(take_turn(Turn::Joined(3)).map(Synced::into_inner), Some(3));
}

#[test]
fn a_shadow_page_shows_candidates_and_the_next_cursor() {
    let shown = candidate_response(InspectedCandidate {
        candidate: ShadowCandidate {
            cursor: "1".to_owned(),
            member: "mirror".to_owned(),
            source: "cached",
            filename: "a.whl".to_owned(),
            digest: None,
            selected: false,
            reason: Some("shadowed"),
        },
        decision: Some(ShadowDecision {
            state: "deny",
            rule: None,
            reason: Some("too \"new\"".to_owned()),
            evaluated_at_unix: -1,
            next_eligible_at_unix: Some(7),
            fresh: true,
        }),
    });
    let answer = shadow_page(&vec![shown], Some("1"));
    assert_eq!(answer.status, 200);
    assert_eq!(answer.headers, vec![("content-type", "application/json".to_owned())]);
    assert_eq!(
        answer.body,
        "{\"candidates\":[{\"decision\":{\"evaluated_at_unix\":-1,\"fresh\":true,\"next_eligible_at_unix\":7,\"reason\":\"too \\\"new\\\"\",\"state\":\"deny\"},\"filename\":\"a.whl\",\"member\":\"mirror\",\"reason\":\"shadowed\",\"selected\":false,\"source\":\"cached\"}],\"next_cursor\":\"1\"}",
    );
    assert_eq!(shadow_page(&vec![], None).body, "{\"candidates\":[],\"next_cursor\":null}");
}

#[test]
fn shadow_pages_join_to_the_sorted_list() {
    let all = || vec![candidate("d"), candidate("b"), candidate("e"), candidate("a"), candidate("c")];
    let mut joined: Vec<String> = Vec::new();
    let mut sizes: Vec<usize> = Vec::new();
    let mut cursor: Option<String> = None;
    loop {
        let page = paginate(all(), &query(cursor.as_deref(), 2));
        sizes.push(page.candidates.len());
        joined.extend(page.candidates.iter().map(|c| c.cursor.clone()));
        cursor = page.next_cursor;
        if cursor.is_none() {
            break;
        }
    }
    assert_eq!(joined, vec!["a", "b", "c", "d", "e"]);
    assert_eq!(sizes, vec![2, 2, 1]);
    assert_eq!(paginate(all(), &query(None, 5)).next_cursor, None);
}
