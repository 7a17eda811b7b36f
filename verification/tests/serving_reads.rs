use peryx_ecosystem_pypi::distribution::{DistributionFilename, DistributionKind};
use peryx_ecosystem_pypi::policy::{ArtifactRule, PolicyAction, PolicyDenial};
use peryx_ecosystem_pypi::policy_engine::{FileFacts, Policy};
use peryx_ecosystem_pypi::search::scope::{IndexEntry, IndexKind};
use peryx_ecosystem_pypi::serving::access::{
    authorize, authorize_bearer, bearer_resource, changed_projects, classify_route, denial_reason,
    identifying_position, layers_reach, presented_token, read_denial_response, serving_positions, upload_target,
    upload_ui, BasicCredential, Denial, Grant, RouteClass, TokenUse,
};
use peryx_ecosystem_pypi::serving::blob::{
    conditional_date, download_policy_denial, download_refusal, etag, file_kind, file_path_parts, file_route,
    file_target, head_blob, matches_etag, missing_blob, serve_blob, unchanged, validated_sidecar, Barrier, BlobAnswer,
    DownloadRefusal, FileAction, FileEvent, FileKind, FileOutcome, FileProbe, FileRequest, FileTarget, HeadAnswer, Modified,
    RangeRequest, StoredBlob,
};
use peryx_ecosystem_pypi::serving::dispatch::pypi_dispatch_get;
use peryx_ecosystem_pypi::serving::inspect::{
    archive_error, archive_listing, archive_listing_task_error, archive_member, archive_member_task_error, archive_query, archive_query_of, inspect_address, inspect_route, inspect_target, inspection_failed,
    member_text, ArchiveErrorKind, ChunkLimits, InspectAction, InspectEvent, InspectTarget, MemberChunk,
};
use peryx_ecosystem_pypi::serving::negotiate::Format;
use peryx_ecosystem_pypi::serving::reply::{reply, Reply};
use peryx_ecosystem_pypi::serving::response::{
    cache_error_response, detail_response, file_response, index_response, legacy_json_response, policy_denial_response,
    provenance_response, pypi_reason, with_last_serial, CacheContext, CacheError, CacheErrorKind, DetailPage, ProvenanceBody,
};
use peryx_ecosystem_pypi::serving::route::{
    addressed_filename, get_route, holds_below_readable_frontier, legacy_json_route, legacy_json_target,
    legacy_segments, legacy_variant, pypi_get, requested_project, revocation_cache_policy, simple_project,
    simple_segment, simple_slash_redirect, GetAction, GetEvent, GetRoute, LegacyEvent, LegacyJsonTarget, Name,
    PageOutcome, PageStep, RenderedPage, Segment, SimpleProject,
};
use peryx_ecosystem_pypi::simple::meta::{Meta, ProjectStatus};
use peryx_ecosystem_pypi::simple::page::{ProjectDetail, ProjectList, ProjectListEntry};
use peryx_ecosystem_pypi::store::keys::{project_key, upload_key};
use peryx_ecosystem_pypi::store::record::AttestationAvailability;

const DIGEST: &str = "0123456789abcdef0123456789abcdef0123456789abcdef0123456789abcdef";

fn header<'a>(answer: &'a Reply, name: &str) -> Option<&'a str> {
    answer.headers.iter().find(|(header, _)| *header == name).map(|(_, value)| value.as_str())
}

fn error(kind: CacheErrorKind) -> CacheError {
    CacheError { kind, message: "it broke".to_owned() }
}

fn denial(rule: &'static str, field: &'static str, reason: &str) -> PolicyDenial {
    PolicyDenial {
        action: PolicyAction::Serve,
        resource: "flask".to_owned(),
        artifact: Some("flask-1.whl".to_owned()),
        group: None,
        rule,
        field,
        reason: reason.to_owned(),
    }
}

fn good(name: &str) -> Segment {
    Segment::Good(Name { text: name.to_owned(), normalized: name.to_lowercase(), is_project_name: !name.starts_with('-') })
}

#[test]
fn errors_say_what_was_being_done() {
    let answer = cache_error_response(&error(CacheErrorKind::Upstream), CacheContext::file("root", DIGEST, "a.whl"), "serve");
    assert_eq!(answer.status, 502);
    assert_eq!(answer.body, format!("file download on index \"root\" for file \"a.whl\" with digest {DIGEST}: it broke"));
    let answer = cache_error_response(&error(CacheErrorKind::Parse), CacheContext::upload("root", "flask"), "upload");
    assert_eq!((answer.status, answer.body.as_str()), (500, "upload storage on index \"root\" for project \"flask\": it broke"));
    assert_eq!(cache_error_response(&error(CacheErrorKind::Parse), CacheContext::list("root"), "serve").status, 502);
    assert_eq!(cache_error_response(&error(CacheErrorKind::Parse), CacheContext::mutation("promotion"), "serve").status, 500);
    for (kind, status) in [
        (CacheErrorKind::Meta, 500),
        (CacheErrorKind::FileNotFound, 404),
        (CacheErrorKind::OfflineMissing, 503),
        (CacheErrorKind::FileExists, 409),
        (CacheErrorKind::NotVolatile, 403),
        (CacheErrorKind::Stream, 502),
    ] {
        assert_eq!(cache_error_response(&error(kind), CacheContext::list("r"), "serve").status, status);
    }
}

#[test]
fn a_rate_limit_says_when_to_come_back() {
    let own = cache_error_response(&error(CacheErrorKind::RateLimited { seconds: 7 }), CacheContext::list("r"), "serve");
    assert_eq!((own.status, header(&own, "retry-after")), (429, Some("7")));
    let upstream = cache_error_response(&error(CacheErrorKind::UpstreamRateLimited { retry_after: Some("soon".to_owned()) }), CacheContext::list("r"), "serve");
    assert_eq!(header(&upstream, "retry-after"), Some("soon"));
    let silent = cache_error_response(&error(CacheErrorKind::UpstreamRateLimited { retry_after: None }), CacheContext::list("r"), "serve");
    assert_eq!(header(&silent, "retry-after"), None);
}

#[test]
fn a_denial_speaks_of_projects_and_files() {
    let answer = policy_denial_response(&denial("resource-allow-list", "resource", "resource \"x\" and artifact y"), "serve");
    assert_eq!(answer.status, 403);
    assert_eq!(header(&answer, "content-type"), Some("application/json"));
    assert_eq!(
        answer.body,
        "{\"action\":\"serve\",\"project\":\"flask\",\"filename\":\"flask-1.whl\",\"rule\":\"project-allow-list\",\"field\":\"project\",\"reason\":\"project \\\"x\\\" and file y\"}",
    );
    assert_eq!(pypi_reason("resource resource artifact"), "project project artifact");
    let kept = policy_denial_response(&denial("version-specifier", "version", "r"), "serve");
    assert!(kept.body.contains("\"rule\":\"version-specifier\",\"field\":\"version\""));
}

fn detail_page(serial: Option<u64>) -> DetailPage {
    DetailPage {
        detail: ProjectDetail { meta: Meta::default(), name: "x".to_owned(), versions: Vec::new(), files: Vec::new() },
        last_serial: serial,
        revoked_files_removed: false,
    }
}

#[test]
fn pages_carry_their_serial() {
    let answer = detail_response(&Ok(Some(detail_page(Some(9)))), "root", "x", "serve");
    assert_eq!((answer.status, header(&answer, "x-pypi-last-serial"), header(&answer, "vary")), (200, Some("9"), Some("Accept")));
    assert!(answer.body.starts_with("{\"meta\""));
    let missing = detail_response(&Ok(None), "root", "x", "serve");
    assert_eq!((missing.status, missing.body.as_str()), (404, "project \"x\" was not found on index \"root\""));
    let odd = detail_response(&Err(error(CacheErrorKind::UpstreamInvalidResponse)), "root", "x", "serve");
    assert_eq!((odd.status, odd.body.as_str()), (502, "it broke"));
    let list = Ok((ProjectList { meta: Meta::default(), projects: vec![ProjectListEntry { name: "x".to_owned() }] }, None));
    assert_eq!(header(&index_response(&list, Format::Json, "root", "<html>", "serve"), "content-type"), Some("application/vnd.pypi.simple.v1+json"));
    assert_eq!(index_response(&list, Format::Html, "root", "<html>", "serve").body, "<html>");
    let legacy = legacy_json_response(&Ok(Some(detail_page(None))), "root", "x", Some("9"), "serve");
    assert_eq!(legacy.body, "version Some(\"9\") was not found for project \"x\" on index \"root\"");
}

#[test]
fn artifacts_and_provenance_have_their_headers() {
    let file = file_response(Ok(()), CacheContext::list("r"), "serve");
    assert_eq!(header(&file, "cache-control"), Some("public, max-age=31536000, immutable"));
    let body = ProvenanceBody {
        media_type: "application/json".to_owned(),
        immutable: false,
        source: "bad\nsource".to_owned(),
        source_is_visible: false,
        availability: AttestationAvailability::RemoteOnly,
    };
    let answer = provenance_response(&Ok(body), CacheContext::list("r"), "serve");
    assert_eq!(header(&answer, "cache-control"), Some("no-cache"));
    assert_eq!(header(&answer, "x-peryx-provenance-source"), Some("upstream"));
    assert_eq!(header(&answer, "x-peryx-provenance-availability"), Some("remote-only"));
}

#[test]
fn simple_paths_name_a_project() {
    assert_eq!(simple_segment("simple/Flask/"), Some(("Flask", true)));
    assert_eq!(simple_segment("simple/Flask"), Some(("Flask", false)));
    assert_eq!(simple_segment("simple/"), None);
    assert_eq!(simple_segment("simple/a/b"), None);
    assert_eq!(simple_segment("files/a"), None);
    let found = simple_project("simple/Flask", &good("Flask")).ok().flatten();
    assert_eq!(found.map(|project| (project.normalized, project.trailing_slash)), Some(("flask".to_owned(), false)));
    let refused = simple_project("simple/%ff/", &Segment::Undecodable("bad escape".to_owned()));
    assert_eq!(refused.err().map(|answer| (answer.status, answer.body)), Some((400, "bad escape".to_owned())));
    assert!(matches!(simple_project("simple/-x/", &good("-x")), Ok(None)));
}

#[test]
fn legacy_paths_name_a_release() {
    assert_eq!(legacy_segments("Flask/json"), Some(("Flask", None)));
    assert_eq!(legacy_segments("Flask/1.0/json/"), Some(("Flask", Some("1.0"))));
    assert_eq!(legacy_segments("simple/json"), None);
    assert_eq!(legacy_segments("simple/json/"), None);
    assert_eq!(legacy_segments("flask"), None);
    let target = legacy_json_target("Flask/1.0/json", &good("Flask"), &Some(good("1.0"))).ok().flatten();
    assert_eq!(target.map(|target| (target.project, target.version)), Some(("flask".to_owned(), Some("1.0".to_owned()))));
    let refused = legacy_json_target("a/b/json", &Segment::Unsafe("unsafe".to_owned()), &Some(Segment::Undecodable("undecodable".to_owned())));
    assert_eq!(refused.err().map(|answer| answer.body), Some("undecodable".to_owned()));
    assert_eq!(legacy_variant("legacy", &Some("1".to_owned())), "legacy/1");
}

#[test]
fn a_get_is_routed_once() {
    let none = || Ok(None);
    assert!(matches!(get_route("simple", none(), Ok(None)), GetRoute::ListRedirect));
    assert!(matches!(get_route("simple/", none(), Ok(None)), GetRoute::List));
    assert!(matches!(get_route("files/a/b", none(), Ok(None)), GetRoute::File(file) if file == "a/b"));
    assert!(matches!(get_route("inspect/a", none(), Ok(None)), GetRoute::Inspect(target) if target == "a"));
    assert!(matches!(get_route("else", none(), Ok(None)), GetRoute::NotFound));
    assert!(matches!(get_route("x", Err(reply(400, "no")), Ok(None)), GetRoute::Refused(answer) if answer.status == 400));
    assert_eq!(addressed_filename("files/aa/x.whl"), Some("x.whl".to_owned()));
    assert_eq!(addressed_filename("inspect/aa"), None);
    assert_eq!(addressed_filename("simple/x"), None);
    let simple = Ok(Some(SimpleProject { normalized: "flask".to_owned(), trailing_slash: true }));
    assert_eq!(requested_project(&none(), &simple, &Some("file".to_owned())), Some("flask".to_owned()));
    assert_eq!(requested_project(&none(), &Ok(None), &Some("file".to_owned())), Some("file".to_owned()));
    let redirect = simple_slash_redirect("/root/pypi/simple/Flask", Some("a=b"), "simple/Flask", "simple/flask/");
    assert_eq!((redirect.status, header(&redirect, "location")), (301, Some("/root/pypi/simple/flask/?a=b")));
}

#[test]
fn a_page_goes_step_by_step() {
    let project = |slash| SimpleProject { normalized: "flask".to_owned(), trailing_slash: slash };
    let step = |event| match pypi_get(event, "root", "flask", "serve") {
        GetAction::Page(step) => step,
        _ => panic!("a page"),
    };
    assert!(matches!(step(GetEvent::Routed(GetRoute::Project(project(false)), Some(Format::Json))), PageStep::Redirect(tail) if tail == "simple/flask/"));
    assert!(matches!(step(GetEvent::Routed(GetRoute::Project(project(true)), None)), PageStep::Answer(answer) if answer.status == 406));
    assert!(matches!(step(GetEvent::Routed(GetRoute::Project(project(true)), Some(Format::Json))), PageStep::Stream));
    assert!(matches!(step(GetEvent::Routed(GetRoute::Project(project(true)), Some(Format::Html))), PageStep::ReadRendered));
    assert!(matches!(step(GetEvent::Streamed(PageOutcome::Page(Some(3)))), PageStep::ServePage(answer) if header(&answer, "x-pypi-last-serial") == Some("3")));
    assert!(matches!(step(GetEvent::Streamed(PageOutcome::NotFound)), PageStep::Answer(answer) if answer.body == "project not found"));
    assert!(matches!(step(GetEvent::Streamed(PageOutcome::Failed(error(CacheErrorKind::Stream)))), PageStep::Resolve));
    assert!(matches!(step(GetEvent::Streamed(PageOutcome::Failed(error(CacheErrorKind::Simple)))), PageStep::Answer(answer) if answer.status == 502));
    let hot = RenderedPage { body: "<p>".to_owned(), last_serial: None };
    assert!(matches!(step(GetEvent::LookedUp(Ok(Some(hot)))), PageStep::Answer(answer) if answer.body == "<p>"));
    let mut revoked = detail_page(None);
    revoked.revoked_files_removed = true;
    assert!(matches!(step(GetEvent::Resolved(Ok(Some(revoked)), Some("<p>".to_owned()))), PageStep::Rendered { keep: false, .. }));
    assert!(matches!(step(GetEvent::Resolved(Ok(Some(detail_page(None))), Some("<p>".to_owned()))), PageStep::Rendered { keep: true, .. }));
    let target = LegacyJsonTarget { project: "flask".to_owned(), version: None };
    assert!(matches!(legacy_json_route(LegacyEvent::LookedUp(Ok(None)), "root", &target, "serve"), PageStep::Resolve));
    assert!(matches!(
        legacy_json_route(LegacyEvent::Resolved(Ok(Some(detail_page(None))), Some("{}".to_owned())), "root", &target, "serve"),
        PageStep::Rendered { answer, keep: true } if header(&answer, "content-type") == Some("application/json"),
    ));
}

#[test]
fn a_replica_holds_what_it_cannot_read_yet() {
    let hosted = IndexKind::Hosted;
    let layered = IndexKind::Virtual { layers: vec![0], write_target: None };
    assert!(holds_below_readable_frontier(true, Some(4), &hosted, false, None, Some(5)));
    assert!(!holds_below_readable_frontier(true, Some(5), &hosted, false, None, Some(5)));
    assert!(holds_below_readable_frontier(true, None, &hosted, false, None, Some(1)));
    assert!(!holds_below_readable_frontier(true, Some(0), &IndexKind::Cached, false, None, Some(9)));
    assert!(holds_below_readable_frontier(true, Some(4), &layered, true, None, None));
    assert!(!holds_below_readable_frontier(true, Some(4), &layered, false, None, None));
    assert!(!holds_below_readable_frontier(false, Some(0), &hosted, false, None, Some(9)));
}

#[test]
fn revocations_shorten_every_cache_policy() {
    assert_eq!(revocation_cache_policy(200, None, false, 30), "public, max-age=30, must-revalidate, no-transform");
    assert_eq!(revocation_cache_policy(304, Some("public"), true, 30), "private, max-age=30, must-revalidate, no-transform");
    assert_eq!(revocation_cache_policy(404, None, false, 30), "no-store");
    assert_eq!(revocation_cache_policy(404, Some("no-cache"), true, 30), "private, no-cache");
}

#[test]
fn a_file_path_needs_a_digest() {
    let name = Ok("a.whl".to_owned());
    assert!(matches!(file_target("nothing", &name, "bad digest"), FileTarget::Answer(answer) if answer.status == 404));
    assert!(matches!(file_target("ab/a.whl", &name, "bad digest"), FileTarget::Answer(answer) if answer.body == "bad digest"));
    let path = format!("{DIGEST}/a.whl");
    assert!(matches!(file_target(&path, &Err("unsafe".to_owned()), "bad"), FileTarget::Answer(answer) if answer.body == "unsafe"));
    assert!(matches!(file_target(&path, &name, "bad"), FileTarget::File { digest, filename } if digest == DIGEST && filename == "a.whl"));
    assert_eq!(file_path_parts("a/b/c"), Some(("a", "b/c")));
    assert!(matches!(file_kind("a.whl.metadata"), FileKind::Metadata));
    assert!(matches!(file_kind("a.whl.provenance"), FileKind::Provenance(name) if name == "a.whl"));
    assert!(matches!(file_kind("a.whl"), FileKind::Artifact));
}

#[test]
fn status_stands_before_membership_and_policy() {
    let refusal = || Ok(Some(denial("r", "f", "no")));
    assert!(matches!(
        download_refusal("a", Ok(ProjectStatus::Quarantined), Ok(false), refusal(), "file not found"),
        Barrier::Refused(DownloadRefusal::Withheld { status: ProjectStatus::Quarantined, .. }),
    ));
    assert!(matches!(download_refusal("a", Ok(ProjectStatus::Archived), Ok(false), refusal(), "file not found"), Barrier::Failed(error) if matches!(error.kind, CacheErrorKind::FileNotFound) && error.message == "file not found"));
    assert!(matches!(download_refusal("a", Ok(ProjectStatus::Active), Ok(true), refusal(), "file not found"), Barrier::Refused(DownloadRefusal::Policy(_))));
    assert!(matches!(download_refusal("a", Ok(ProjectStatus::Active), Ok(true), Ok(None), "file not found"), Barrier::Open));
    assert!(matches!(download_refusal("a", Err(error(CacheErrorKind::Meta)), Ok(true), Ok(None), "file not found"), Barrier::Failed(_)));
    let mut policy = Policy {
        active: true,
        max_resource_size: None,
        owner_settings: Vec::new(),
        resource_rules: Vec::new(),
        artifact_rules: vec![ArtifactRule::Version { allowed: "<1".to_owned() }],
    };
    let facts = FileFacts {
        parsed: Some(DistributionFilename {
            normalized_name: "x".to_owned(),
            version: "1".to_owned(),
            kind: DistributionKind::SdistTarGz,
            python_tag: None,
            platform_tag: None,
        }),
        refusal: None,
    };
    assert!(download_policy_denial(&policy, "x-1.tar.gz", &facts, None, Some(1)).is_some());
    policy.active = false;
    assert!(download_policy_denial(&policy, "x-1.tar.gz", &facts, None, Some(1)).is_none());
}

#[test]
fn conditions_are_judged_as_a_whole() {
    assert!(matches_etag(&vec![false, true]));
    assert!(!matches_etag(&vec![false]));
    assert_eq!(conditional_date(false, &vec![Some("d".to_owned())]), Some("d".to_owned()));
    assert_eq!(conditional_date(true, &vec![Some("d".to_owned())]), None);
    assert_eq!(conditional_date(false, &vec![Some("d".to_owned()), Some("e".to_owned())]), None);
    assert_eq!(conditional_date(false, &vec![None]), None);
    assert_eq!(etag("ab"), "\"ab\"");
    let sidecar = || reply(200, "body").with_header("cache-control", "no-cache");
    let fresh = validated_sidecar(sidecar(), "ab", false);
    assert_eq!((fresh.status, header(&fresh, "etag"), fresh.body.as_str()), (200, Some("\"ab\""), "body"));
    let held = validated_sidecar(sidecar(), "ab", true);
    assert_eq!((held.status, header(&held, "cache-control"), held.body.as_str()), (304, Some("no-cache"), ""));
    assert_eq!(header(&unchanged("\"ab\"", Some("date")), "last-modified"), Some("date"));
}

fn blob(current: bool) -> StoredBlob {
    StoredBlob { size: 100, modified: Some(Modified { date: "date".to_owned(), current }) }
}

#[test]
fn a_head_carries_the_headers_of_its_get() {
    for range in [RangeRequest::Whole, RangeRequest::Partial { start: 10, end: 20 }] {
        let (get, from, long) = match serve_blob(&FileOutcome::Cached(blob(false)), range, "\"t\"", "root", "ff", "a.whl", "serve") {
            BlobAnswer::Bytes { head, start, length } => (head, start, length),
            _ => panic!("bytes"),
        };
        let head = match head_blob(&FileProbe::Cached(blob(false)), range, "\"t\"") {
            HeadAnswer::Head { head, length_known: true } => head,
            _ => panic!("a head"),
        };
        assert_eq!(get.status, head.status);
        let mut left = get.headers.clone();
        let mut right = head.headers.clone();
        left.sort();
        right.sort();
        assert_eq!(left, right);
        if range == RangeRequest::Whole {
            assert_eq!((get.status, from, long), (200, 0, 100));
        } else {
            assert_eq!((get.status, from, long), (206, 10, 10));
            assert_eq!(header(&get, "content-range"), Some("bytes 10-19/100"));
        }
    }
}

#[test]
fn a_condition_outranks_a_range() {
    let range = RangeRequest::Partial { start: 0, end: 1 };
    assert!(matches!(serve_blob(&FileOutcome::Cached(blob(true)), range, "t", "root", "ff", "a.whl", "serve"), BlobAnswer::Answer(answer) if answer.status == 304));
    let serve = |outcome, range| serve_blob(&outcome, range, "t", "root", "ff", "a.whl", "serve");
    assert!(matches!(serve(FileOutcome::Cached(blob(false)), RangeRequest::Unsatisfiable), BlobAnswer::Unsatisfiable(100)));
    for asked in [range, RangeRequest::Whole, RangeRequest::Unsatisfiable] {
        match serve(FileOutcome::Live, asked) {
            BlobAnswer::Stream { head } => {
                assert_eq!((head.status, head.headers.len(), header(&head, "etag")), (200, 4, Some("t")));
                assert_eq!(header(&head, "last-modified"), None);
            }
            _ => panic!("a stream"),
        }
    }
    assert!(matches!(serve(FileOutcome::Failed(error(CacheErrorKind::FileNotFound)), range), BlobAnswer::Answer(answer) if answer.status == 404));
    assert!(matches!(head_blob(&FileProbe::Cached(blob(true)), range, "t"), HeadAnswer::Answer(answer) if answer.status == 304));
    match head_blob(&FileProbe::Upstream(None), RangeRequest::Whole, "t") {
        HeadAnswer::Head { head, length_known } => assert_eq!((header(&head, "content-length"), length_known), (None, false)),
        _ => panic!("a head"),
    }
    match head_blob(&FileProbe::Upstream(Some(7)), range, "t") {
        HeadAnswer::Head { head, length_known } => assert_eq!((head.status, header(&head, "content-length"), length_known), (200, Some("7"), true)),
        _ => panic!("a head"),
    }
    assert_eq!(missing_blob("r", "d", "f").body, "cached file missing on index \"r\": digest d, filename \"f\"");
}

#[test]
fn no_condition_is_compared_before_the_barrier() {
    let request = |filename, head| FileRequest { route: "root", digest: DIGEST, filename, head, action: "serve" };
    let target = FileTarget::File { digest: DIGEST.to_owned(), filename: "a.whl".to_owned() };
    assert!(matches!(file_route(FileEvent::Addressed(target), &request("a.whl", false)), FileAction::CheckRevocation));
    assert!(matches!(file_route(FileEvent::Cleared(Err(error(CacheErrorKind::ArtifactRevoked))), &request("a.whl", false)), FileAction::Answer(answer) if answer.status == 404));
    assert!(matches!(file_route(FileEvent::Cleared(Ok(())), &request("a.whl", false)), FileAction::Judge));
    assert!(matches!(file_route(FileEvent::Judged(Barrier::Open), &request("a.whl", false)), FileAction::CompareTags));
    assert!(matches!(file_route(FileEvent::Judged(Barrier::Open), &request("a.whl.metadata", false)), FileAction::ServeMetadata));
    assert!(matches!(file_route(FileEvent::Compared(true), &request("a.whl", false)), FileAction::Answer(answer) if answer.status == 304));
    assert!(matches!(file_route(FileEvent::Compared(false), &request("a.whl", true)), FileAction::Probe));
    assert!(matches!(file_route(FileEvent::Compared(false), &request("a.whl", false)), FileAction::Serve));
}

const LIMITS: ChunkLimits = ChunkLimits { default_chunk: 64, max_chunk: 1_048_576 };

#[test]
fn archive_queries_are_read_in_order() {
    let read = archive_query(Some("container=a%2Fb&container=c+d&member=x.txt&offset=5&limit=9&other=1"), &LIMITS).unwrap_or_else(|answer| panic!("{}", answer.body));
    assert_eq!(read.containers, vec!["a/b".to_owned(), "c d".to_owned()]);
    assert_eq!((read.member.as_deref(), read.offset, read.limit), (Some("x.txt"), 5, 9));
    let silent = archive_query(None, &LIMITS).unwrap_or_else(|answer| panic!("{}", answer.body));
    assert_eq!((silent.member, silent.limit), (None, 64));
    let refused = |query: &str| archive_query(Some(query), &LIMITS).err().map(|answer| (answer.status, answer.body));
    assert_eq!(refused("offset=-1"), Some((400, "offset must be a non-negative integer".to_owned())));
    assert_eq!(refused("limit=x"), Some((400, "limit must be an integer between 1 and 1048576".to_owned())));
    assert_eq!(refused("limit=0&offset=x"), Some((400, "limit must be between 1 and 1048576 bytes".to_owned())));
    let pairs = vec![("offset".to_owned(), "3".to_owned()), ("offset".to_owned(), "4".to_owned())];
    assert_eq!(archive_query_of(&pairs, &LIMITS).map(|query| query.offset).ok(), Some(4));
}

#[test]
fn inspections_name_an_archive_and_a_member() {
    let query = |text: &str| archive_query(Some(text), &LIMITS).unwrap_or_else(|answer| panic!("{}", answer.body));
    let path = format!("{DIGEST}/a.whl/dir/x.txt");
    assert!(matches!(inspect_target(&path, &query(""), "bad"), InspectTarget::InPath { raw_filename: "a.whl", raw_member: "dir/x.txt", .. }));
    assert!(matches!(inspect_target(&path, &query("member=y"), "bad"), InspectTarget::Named { raw_filename: "a.whl/dir/x.txt", .. }));
    assert!(matches!(inspect_target(&path, &query("container=y"), "bad"), InspectTarget::Listing { .. }));
    assert!(matches!(inspect_target("ab/a", &query(""), "bad"), InspectTarget::Answer(answer) if answer.body == "bad"));
    assert!(matches!(inspect_target("ab", &query(""), "bad"), InspectTarget::Answer(answer) if answer.status == 404));
    let act = |event| inspect_route(event, "root", DIGEST, "a.whl", "serve");
    assert!(matches!(act(InspectEvent::Decoded { member: Ok(()), filename: Ok(()) }), InspectAction::Judge));
    assert!(matches!(act(InspectEvent::Judged(Barrier::Open)), InspectAction::Fetch));
    assert!(matches!(act(InspectEvent::Fetched(Ok(()))), InspectAction::Read));
    assert!(matches!(act(InspectEvent::Decoded { member: Ok(()), filename: Err("unsafe".to_owned()) }), InspectAction::Answer(answer) if answer.status == 400));
}

#[test]
fn archive_failures_have_their_statuses() {
    assert_eq!(archive_error(ArchiveErrorKind::BinaryMember, "binary", "a.whl", Some("m")).status, 415);
    assert_eq!(archive_error(ArchiveErrorKind::MemberNotFound, "gone", "a.whl", Some("m")).body, "member \"m\" in archive \"a.whl\": gone");
    assert_eq!(archive_error(ArchiveErrorKind::InvalidRange, "r", "a", None).status, 416);
    assert_eq!(archive_error(ArchiveErrorKind::Invalid, "r", "a", None).status, 422);
    assert_eq!(archive_error(ArchiveErrorKind::NestingTooDeep, "r", "a", None).status, 400);
    assert_eq!(archive_error(ArchiveErrorKind::TooManyEntries, "r", "a", None).status, 413);
    assert_eq!(inspection_failed("panic", "a", None).body, "archive \"a\": inspection failed: panic");
    let chunk = archive_member(&MemberChunk { size: 10, offset: 2, next_offset: Some(6) });
    assert_eq!((header(&chunk, "x-peryx-member-size"), header(&chunk, "x-peryx-next-offset")), (Some("10"), Some("6")));
}

#[test]
fn writes_are_authorized_at_hosted_indexes() {
    let (denied, event) = authorize(false, true, None);
    assert_eq!((denied.err().map(|answer| answer.status), event), (Some(404), None));
    let (allowed, event) = authorize(true, false, None);
    assert_eq!((allowed.is_ok(), event), (true, None));
    assert_eq!(authorize(true, true, None).1, Some(TokenUse::Success));
    let (denied, event) = authorize(true, true, Some(Denial::Unauthenticated));
    assert_eq!(denied.err().map(|answer| (answer.status, answer.body)), Some((401, "unauthorized".to_owned())));
    assert_eq!(event, Some(TokenUse::Denied(Denial::Unauthenticated)));
    assert_eq!(authorize(true, true, Some(Denial::Unavailable)).0.err().map(|answer| answer.body), Some("uploads are disabled".to_owned()));
    assert_eq!(denial_reason(Denial::Forbidden), "token does not grant this action");
    assert_eq!(read_denial_response(Denial::Forbidden).status, 403);
    assert_eq!(read_denial_response(Denial::Unavailable).status, 401);
}

#[test]
fn bearers_write_under_their_route() {
    let grant = |acts, under: Vec<bool>| Grant { acts, under_route: under };
    assert!(authorize_bearer(&vec![grant(false, vec![true]), grant(true, vec![false, true])], "root").is_ok());
    assert_eq!(authorize_bearer(&vec![grant(true, vec![false])], "root"), Err(Denial::Forbidden));
    assert!(authorize_bearer(&vec![grant(true, vec![false])], "").is_ok());
    assert_eq!(authorize_bearer(&vec![grant(true, Vec::new())], ""), Err(Denial::Forbidden));
    assert_eq!(bearer_resource("root/pypi", "flask"), "root/pypi/flask");
    assert_eq!(bearer_resource("", "flask"), "flask");
}

#[test]
fn routes_are_classified() {
    assert_eq!(classify_route("/root/files/ab/a.whl.metadata"), RouteClass::Metadata);
    assert_eq!(classify_route("/root/files/ab/a.whl.provenance"), RouteClass::Metadata);
    assert_eq!(classify_route("/root/files/ab/a.whl"), RouteClass::Artifact);
    assert_eq!(classify_route("/root/inspect/ab/a.whl"), RouteClass::Artifact);
    assert_eq!(classify_route("/files/a.metadata"), RouteClass::Listing);
    assert_eq!(classify_route("/root/simple/x/"), RouteClass::Listing);
    assert_eq!(upload_ui("/root/pypi/", true).map(|form| form.endpoint), Some("/root/pypi/".to_owned()));
    assert!(upload_ui("root", false).is_none());
}

#[test]
fn a_change_shows_through_virtual_indexes() {
    let entry = |name: &str, kind| IndexEntry { name: name.to_owned(), kind };
    let indexes = vec![
        entry("outer", IndexKind::Virtual { layers: vec![1], write_target: None }),
        entry("inner", IndexKind::Virtual { layers: vec![2], write_target: Some(2) }),
        entry("hosted", IndexKind::Hosted),
        entry("other", IndexKind::Cached),
    ];
    assert!(layers_reach(&indexes, 0, 2));
    assert!(!layers_reach(&indexes, 0, 3));
    assert_eq!(serving_positions(&indexes, "hosted"), vec![2, 0, 1]);
    assert_eq!(serving_positions(&indexes, "unknown"), Vec::<usize>::new());
    let keys = vec![upload_key("hosted", "flask", "a.whl"), project_key("hosted", "acme"), "foreign".to_owned(), project_key("other", "numpy")];
    assert_eq!(changed_projects(&indexes, &keys, 0), vec!["acme".to_owned(), "flask".to_owned()]);
    assert_eq!(changed_projects(&indexes, &keys, 3), vec!["numpy".to_owned()]);
    assert_eq!(upload_target(&indexes[1].kind, 1), Some(2));
    assert_eq!(upload_target(&indexes[2].kind, 2), Some(2));
    assert_eq!(upload_target(&indexes[3].kind, 3), None);
}

#[test]
fn a_member_is_previewed_where_it_is_text() {
    assert_eq!(member_text("a.txt", "é".as_bytes().to_vec()), Ok("é".to_owned()));
    assert_eq!(
        member_text("a.bin", vec![0x61, 0xff]),
        Err("archive member \"a.bin\" is not UTF-8: invalid utf-8 sequence of 1 bytes from index 1".to_owned()),
    );
}

#[test]
fn a_token_is_presented_in_either_header_form() {
    let basic = |user: &str| Some(BasicCredential { user: user.to_owned(), password: "secret-word".to_owned() });
    assert_eq!(presented_token(true, Some("t".to_owned()), basic("__token__")), Some("t".to_owned()));
    assert_eq!(presented_token(true, None, basic("__token__")), Some("secret-word".to_owned()));
    assert_eq!(presented_token(true, None, basic("someone")), None);
    assert_eq!(presented_token(false, Some("t".to_owned()), None), None);
    assert_eq!(identifying_position(&IndexKind::Hosted, 3), 3);
    assert_eq!(identifying_position(&IndexKind::Virtual { layers: vec![1], write_target: Some(1) }, 3), 1);
    assert_eq!(identifying_position(&IndexKind::Cached, 3), 3);
}

#[test]
fn every_answer_carries_a_cache_policy() {
    let fresh = reply(200, "page").with_header("cache-control", "public, max-age=31536000, immutable");
    let answer = pypi_dispatch_get(None, fresh, false, false, 30);
    assert_eq!(answer.headers.len(), 1);
    assert_eq!(header(&answer, "cache-control"), Some("public, max-age=30, must-revalidate, no-transform"));
    let proxied = reply(200, "doc").with_header("cache-control", "no-cache");
    assert_eq!(header(&pypi_dispatch_get(None, proxied, false, true, 30), "cache-control"), Some("private, no-cache"));
    let held = pypi_dispatch_get(None, reply(200, "page"), true, false, 30);
    assert_eq!((held.status, header(&held, "cache-control")), (404, Some("no-store")));
    let one = pypi_dispatch_get(Some(Denial::Forbidden), reply(200, "page"), false, true, 30);
    let other = pypi_dispatch_get(Some(Denial::Forbidden), reply(404, "not found"), true, true, 30);
    assert_eq!((one.status, one.body, one.headers), (other.status, other.body, other.headers));
}

#[test]
fn broken_off_archive_reads_say_so() {
    assert_eq!(archive_listing_task_error("cancelled"), "archive listing task failed: cancelled");
    assert_eq!(archive_member_task_error("cancelled"), "archive member task failed: cancelled");
}

#[test]
fn a_header_is_replaced_and_not_repeated() {
    let paged = with_last_serial(reply(200, "p").with_header("x-pypi-last-serial", "1"), Some(7));
    assert_eq!(paged.headers, vec![("x-pypi-last-serial", "7".to_owned())]);
    let sidecar = validated_sidecar(reply(200, "m").with_header("etag", "\"old\""), "ff", false);
    assert_eq!(sidecar.headers, vec![("etag", "\"ff\"".to_owned())]);
}

#[test]
fn a_path_is_refused_before_its_query() {
    let limits = ChunkLimits { default_chunk: 10, max_chunk: 20 };
    let refused = || archive_query(Some("limit=99"), &limits);
    assert!(refused().is_err());
    assert_eq!(inspect_address("ab", refused(), "bad").map(|_| ()).map_err(|answer| answer.status), Err(404));
    assert_eq!(inspect_address("ab/a.whl", refused(), "bad").map(|_| ()).map_err(|answer| answer.body), Err("bad".to_owned()));
    let path = format!("{}/a.whl", "0".repeat(64));
    assert_eq!(
        inspect_address(&path, refused(), "bad").map(|_| ()).map_err(|answer| answer.body),
        Err("limit must be between 1 and 20 bytes".to_owned()),
    );
    assert!(matches!(inspect_address(&path, archive_query(None, &limits), "bad"), Ok((InspectTarget::Listing { .. }, _))));
    let both = InspectEvent::Decoded { member: Err("member".to_owned()), filename: Err("file".to_owned()) };
    assert!(matches!(inspect_route(both, "r", "d", "f", "serve"), InspectAction::Answer(answer) if answer.body == "member"));
    let listing = archive_listing("a.whl", &vec!["{\"path\":\"x\"}".to_owned(), "{}".to_owned()]);
    assert_eq!(listing.body, "{\"filename\":\"a.whl\",\"members\":[{\"path\":\"x\"},{}]}");
    assert_eq!(header(&listing, "content-type"), Some("application/json"));
}
