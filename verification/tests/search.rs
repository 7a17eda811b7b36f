use peryx_ecosystem_pypi::collections::{TextMap, TextSet};
use peryx_ecosystem_pypi::policy::FallbackMode;
use peryx_ecosystem_pypi::policy_engine::{FileFacts, Policy};
use peryx_ecosystem_pypi::retention::{
    admit_plan, assign_ranks, candidate, corrupt_record, evaluate_retention, footprint, validate_retention, Entered,
    RetentionAction, RetentionClass, RetentionEvent,
    RetentionScan, RetentionSelector, RetentionVisibility, SelectorKind, Uploaded,
};
use peryx_ecosystem_pypi::search::detail::{
    apply_index_policy, apply_overrides, available_locally, detail_from_record, drop_revoked_files, empty_detail,
    local_detail, member_candidates, merge_candidates, metadata_digests, package_document, present_file, virtual_candidates, ContentSource,
    DocumentIndex, Placement,
};
use peryx_ecosystem_pypi::search::scope::{
    collect_projects, content_source, project_record_key, upload_key, IndexEntry, IndexKind,
};
use peryx_ecosystem_pypi::search::text::{search_text, CoreMetadataDoc};
use peryx_ecosystem_pypi::simple::file::{CoreMetadata, File, Provenance, Yanked};
use peryx_ecosystem_pypi::simple::meta::{IncomingMeta, Meta};
use peryx_ecosystem_pypi::simple::page::{IncomingDetail, ProjectDetail};
use peryx_ecosystem_pypi::source_policy::{Member, SourceSelection};
use peryx_ecosystem_pypi::store::overrides::FileOverride;

const DIGEST: &str = "0123456789abcdef0123456789abcdef0123456789abcdef0123456789abcdef";
const OTHER: &str = "fedcba9876543210fedcba9876543210fedcba9876543210fedcba9876543210";

fn file(filename: &str, url: &str, digest: Option<&str>) -> File {
    let mut hashes = TextMap::new();
    if let Some(digest) = digest {
        hashes.insert("sha256".to_owned(), digest.to_owned());
    }
    File {
        filename: filename.to_owned(),
        url: url.to_owned(),
        hashes,
        requires_python: None,
        size: Some(4),
        upload_time: None,
        yanked: Yanked::No,
        core_metadata: CoreMetadata::Available,
        dist_info_metadata: CoreMetadata::Absent,
        gpg_sig: None,
        provenance: Provenance::Absent,
    }
}

fn page(name: &str, versions: &[&str], files: Vec<File>) -> ProjectDetail {
    ProjectDetail {
        meta: Meta::default(),
        name: name.to_owned(),
        versions: versions.iter().map(|version| (*version).to_owned()).collect(),
        files,
    }
}

fn doc(name: &str) -> CoreMetadataDoc {
    CoreMetadataDoc {
        name: name.to_owned(),
        summary: Some(" short ".to_owned()),
        requires_python: None,
        license: None,
        license_expression: None,
        author: None,
        author_email: None,
        maintainer: None,
        maintainer_email: None,
        description_content_type: None,
        keywords: vec!["web".to_owned()],
        requires_dist: Vec::new(),
        provides_extra: Vec::new(),
        classifiers: Vec::new(),
        license_files: Vec::new(),
        import_names: Vec::new(),
        import_namespaces: Vec::new(),
        project_urls: vec![("home".to_owned(), "https://h".to_owned())],
        home_page: None,
        description: "long text".to_owned(),
    }
}

#[test]
fn a_text_is_found_by_names_metadata_and_files() {
    let mut listed = file("x-1.whl", "/x", None);
    listed.requires_python = Some(">=3".to_owned());
    let detail = page("X", &["1", "1"], vec![listed]);
    let text = search_text("X", "x", &detail, &Some(doc("X")), 400);
    assert_eq!(text, "x X short web home https://h long text 1 x-1.whl >=3");
    assert_eq!(search_text("x", "x", &page("x", &[], Vec::new()), &None, 400), "x");
}

#[test]
fn a_text_is_cut_between_characters() {
    let detail = page("é", &["ab"], Vec::new());
    for budget in 0..40 {
        let text = search_text("éé", "x", &detail, &Some(doc("é")), budget);
        assert!(text.len() <= budget);
    }
    assert_eq!(search_text("x", "ééé", &page("", &[], Vec::new()), &None, 20), "éé");
}

#[test]
fn keys_are_read_under_their_index() {
    assert_eq!(project_record_key("root/flask", "root"), Some("flask"));
    assert_eq!(project_record_key("root/a/b", "root"), None);
    assert_eq!(project_record_key("root/", "root"), None);
    assert_eq!(project_record_key("rooty/flask", "root"), None);
    assert_eq!(upload_key("h/flask/a.whl", "h"), Some(("flask", "a.whl")));
    assert_eq!(upload_key("h/flask/", "h"), None);
}

fn entry(name: &str, kind: IndexKind) -> IndexEntry {
    IndexEntry { name: name.to_owned(), kind }
}

#[test]
fn a_virtual_index_covers_its_layers() {
    let indexes = vec![
        entry("cached", IndexKind::Cached),
        entry("hosted", IndexKind::Hosted),
        entry("inner", IndexKind::Virtual { layers: vec![0], write_target: None }),
        entry("outer", IndexKind::Virtual { layers: vec![1, 2], write_target: Some(1) }),
    ];
    let index_keys = vec!["cached/flask".to_owned(), "elsewhere/numpy".to_owned()];
    let upload_keys = vec!["hosted/acme/a.whl".to_owned(), "hosted/flask/f.whl".to_owned()];
    assert_eq!(collect_projects(&indexes, 0, &index_keys, &upload_keys).to_list(), vec!["flask".to_owned()]);
    assert_eq!(collect_projects(&indexes, 3, &index_keys, &upload_keys).to_list(), vec!["acme".to_owned(), "flask".to_owned()]);
    assert_eq!(content_source(&indexes[0].kind, true, true), ContentSource::Cached);
    assert_eq!(content_source(&indexes[1].kind, false, false), ContentSource::Uploaded);
    assert_eq!(content_source(&indexes[2].kind, true, true), ContentSource::Cached);
    assert_eq!(content_source(&indexes[3].kind, false, true), ContentSource::Override);
}

#[test]
fn mirrored_files_are_presented_under_the_route() {
    let local = "/root/files/x".to_owned();
    let presented = present_file(file("x", "https://h/x", Some(DIGEST)), local.clone());
    assert_eq!(presented.url, local);
    assert!(presented.metadata().is_absent());
    assert_eq!(present_file(file("x", "/here/x", Some(DIGEST)), local.clone()).url, "/here/x");
    assert_eq!(present_file(file("x", "https://h/x", None), local.clone()).url, "https://h/x");
    let record = IncomingDetail {
        meta: IncomingMeta { api_version: None, project_status: Some("quarantined".to_owned()), project_status_reason: None },
        project_status: None,
        name: "x".to_owned(),
        versions: vec!["1".to_owned()],
        files: vec![file("x", "https://h/x", Some(DIGEST))],
    };
    let detail = detail_from_record(record, vec![local]).unwrap_or_else(|_| panic!("a page"));
    assert!(detail.files.is_empty());
    assert_eq!(detail.versions, vec!["1".to_owned()]);
}

fn uploaded(version: &str, filename: &str, trashed: bool) -> Uploaded {
    Uploaded { version: version.to_owned(), file: file(filename, "old", Some(DIGEST)), trashed }
}

#[test]
fn trashed_uploads_are_not_described() {
    let entries = vec![uploaded("2", "x-2.whl", false), uploaded("3", "x-3.whl", true), uploaded("1", "x-1.whl", false)];
    let urls = vec!["/2".to_owned(), "/3".to_owned(), "/1".to_owned()];
    let detail = local_detail("x", entries, &urls);
    assert_eq!(detail.versions, vec!["1".to_owned(), "2".to_owned()]);
    assert_eq!(detail.files.iter().map(|file| file.url.as_str()).collect::<Vec<_>>(), vec!["/2", "/1"]);
    assert!(empty_detail("x").files.is_empty());
}

#[test]
fn the_first_candidate_keeps_a_filename() {
    let first = page("x", &["1"], vec![file("a", "/first", None)]);
    let second = page("x", &["2"], vec![file("a", "/second", None), file("b", "/b", None)]);
    let merged = merge_candidates("x", vec![first, second]);
    assert_eq!(merged.files.iter().map(|file| file.url.as_str()).collect::<Vec<_>>(), vec!["/first", "/b"]);
    assert_eq!(merged.versions, vec!["1".to_owned(), "2".to_owned()]);
}

#[test]
fn one_quarantined_candidate_withdraws_the_project() {
    let plain = page("x", &["1"], vec![file("a", "/a", None)]);
    let mut bad = page("x", &[], Vec::new());
    bad.meta.project_status = Some("quarantined".to_owned());
    let merged = merge_candidates("x", vec![plain, bad]);
    assert!(merged.files.is_empty());
    assert_eq!(merged.meta.project_status.as_deref(), Some("quarantined"));
}

#[test]
fn overrides_hide_and_yank() {
    let mut overrides = TextMap::new();
    overrides.insert("a".to_owned(), FileOverride { hidden: true, yanked: Yanked::No });
    overrides.insert("b".to_owned(), FileOverride { hidden: false, yanked: Yanked::Reason("old".to_owned()) });
    let detail = page("x", &[], vec![file("a", "/a", None), file("b", "/b", None), file("c", "/c", None)]);
    let shown = apply_overrides(&overrides, detail);
    assert_eq!(shown.files.len(), 2);
    assert!(matches!(&shown.files[0].yanked, Yanked::Reason(reason) if reason == "old"));
    assert!(matches!(shown.files[1].yanked, Yanked::No));
    let member = |position, files: Vec<File>| Member { position, has_files: !files.is_empty(), value: page("x", &[], files) };
    let selection = SourceSelection::new(FallbackMode::PrivateFirst, None);
    let members = vec![member(0, vec![file("a", "/a", None)]), member(1, vec![file("b", "/b", None)])];
    let chosen = virtual_candidates(&selection, members, &vec![false, true], Some(&overrides));
    assert_eq!(chosen.len(), 1);
    assert!(chosen[0].value.files.is_empty());
}

#[test]
fn revoked_files_are_dropped() {
    let mut revoked = TextSet::new();
    revoked.insert(DIGEST.to_owned());
    revoked.insert("short".to_owned());
    let detail = page("x", &[], vec![file("a", "/a", Some(DIGEST)), file("b", "/b", Some("short")), file("c", "/c", None)]);
    let kept = drop_revoked_files(&revoked, detail);
    assert_eq!(kept.files.iter().map(|file| file.filename.as_str()).collect::<Vec<_>>(), vec!["b", "c"]);
}

#[test]
fn availability_follows_the_placement() {
    let detail = page("x", &[], vec![file("a", "/a", Some(DIGEST))]);
    let mut hosted = TextSet::new();
    let mut placements = TextMap::new();
    assert!(!available_locally(&hosted, &placements, &detail));
    placements.insert(DIGEST.to_owned(), Placement { hosted: false, local: false });
    assert!(!available_locally(&hosted, &placements, &detail));
    hosted.insert("a".to_owned());
    assert!(available_locally(&hosted, &placements, &detail));
    placements.insert(DIGEST.to_owned(), Placement { hosted: true, local: false });
    assert!(!available_locally(&hosted, &placements, &detail));
}

#[test]
fn metadata_is_tried_from_the_last_file() {
    let mut recorded = TextMap::new();
    recorded.insert(DIGEST.to_owned(), OTHER.to_owned());
    recorded.insert(OTHER.to_owned(), DIGEST.to_owned());
    let files = vec![file("a", "/a", Some(DIGEST)), file("b", "/b", None), file("c", "/c", Some(OTHER))];
    assert_eq!(metadata_digests(&recorded, &files), vec![DIGEST.to_owned(), OTHER.to_owned()]);
    recorded.insert(OTHER.to_owned(), "not a digest".to_owned());
    assert_eq!(metadata_digests(&recorded, &files), vec![OTHER.to_owned()]);
}

#[test]
fn a_document_describes_a_project_with_files() {
    let index = || DocumentIndex { route: "r".to_owned(), index: "i".to_owned(), ecosystem: "pypi".to_owned() };
    let none = package_document(index(), "x", &page("", &[], Vec::new()), ContentSource::Cached, &TextSet::new(), &TextMap::new(), &None, 100);
    assert!(none.is_none());
    let detail = page("", &["1"], vec![file("a", "/a", None)]);
    let document = package_document(index(), "x", &detail, ContentSource::Cached, &TextSet::new(), &TextMap::new(), &Some(doc("")), 100).unwrap_or_else(|| panic!("a document"));
    assert_eq!(document.display_label, "x");
    assert_eq!(document.summary.as_deref(), Some(" short "));
    assert!(!document.available_locally);
    let named = package_document(index(), "x", &detail, ContentSource::Cached, &TextSet::new(), &TextMap::new(), &Some(doc("The X")), 100).unwrap_or_else(|| panic!("a document"));
    assert_eq!(named.display_label, "The X");
}

#[test]
fn a_refused_project_is_described_by_nothing() {
    let policy = Policy {
        active: true,
        max_resource_size: Some(1),
        owner_settings: Vec::new(),
        resource_rules: Vec::new(),
        artifact_rules: Vec::new(),
    };
    let detail = page("x", &["1"], vec![file("a", "/a", None)]);
    let facts = vec![FileFacts { parsed: None, refusal: None }];
    let held = apply_index_policy(&policy, &None, "x", detail, &facts);
    assert!(held.files.is_empty());
    assert!(held.versions.is_empty());
    let offered = vec![
        Member { position: 4, has_files: true, value: page("x", &["1"], vec![file("a", "/a", None)]) },
        Member { position: 2, has_files: false, value: page("x", &[], Vec::new()) },
    ];
    let kept = member_candidates(&policy, &None, "x", offered, &vec![facts, Vec::new()]);
    let seen: Vec<(usize, bool)> = kept.iter().map(|member| (member.position, member.has_files)).collect();
    assert_eq!(seen, vec![(4, false), (2, false)]);
}

#[test]
fn hosted_records_cannot_answer_every_selector() {
    let selector = |kind, name: &str| RetentionSelector { kind, name: name.to_owned() };
    assert!(validate_retention(&vec![selector(SelectorKind::Other, "age")]).is_ok());
    assert_eq!(
        validate_retention(&vec![selector(SelectorKind::Other, "age"), selector(SelectorKind::Orphan, "orphan")]),
        Err("pypi retention does not support selector \"orphan\"".to_owned()),
    );
}

#[test]
fn releases_rank_newest_first() {
    let mut group: Vec<_> = ["1.0", "2.0", "1.0.0", "zzz", "aaa", "2.0rc1"]
        .iter()
        .map(|version| candidate("x", uploaded(version, "f", false)))
        .collect();
    assign_ranks(&mut group);
    assert_eq!(group.iter().map(|candidate| candidate.rank).collect::<Vec<_>>(), vec![2, 0, 2, 4, 3, 1]);
}

#[test]
fn a_candidate_keeps_what_retention_needs() {
    let mut record = uploaded("1", "x-1.whl", true);
    record.file.upload_time = Some("1970-01-01T00:01:00Z".to_owned());
    let kept = candidate("x", record);
    assert_eq!((kept.class, kept.visibility), (RetentionClass::Trash, RetentionVisibility::Hidden));
    assert_eq!((kept.bytes, kept.upload_time_unix, kept.digest.as_str()), (4, Some(60), DIGEST));
    assert_eq!(footprint(10, &kept), 10 + 1 + 7 + 64 + 1);
    let mut yanked = uploaded("1", "x-1.whl", false);
    yanked.file.yanked = Yanked::Yes;
    assert_eq!(candidate("x", yanked).visibility, RetentionVisibility::Withdrawn);
    assert_eq!(candidate("x", uploaded("1", "f", false)).visibility, RetentionVisibility::Active);
}

#[test]
fn a_scan_plans_one_project_at_a_time() {
    let mut scan = RetentionScan::new(1000, 1);
    assert!(matches!(scan.enter("a/x-1.whl", false), Ok(Entered::Project(None))));
    assert!(scan.add_record(uploaded("1", "x-1.whl", false)).is_ok());
    assert!(matches!(scan.enter("noslash", false), Ok(Entered::Skipped)));
    assert!(matches!(scan.enter("a/x-2.whl", false), Ok(Entered::Project(None))));
    assert!(scan.add_record(uploaded("2", "x-2.whl", false)).is_ok());
    match scan.enter("b/y.whl", true) {
        Ok(Entered::Project(Some(done))) => {
            assert_eq!((done.project.as_str(), done.candidates.len()), ("a", 2));
            assert_eq!(done.candidates[0].rank, 1);
        }
        _ => panic!("the project before it"),
    }
    match scan.finish(false) {
        Ok(Some(done)) => assert_eq!((done.project.as_str(), done.candidates.len()), ("b", 0)),
        _ => panic!("the last project"),
    }
    let mut cancelled = RetentionScan::new(1000, 1);
    assert!(matches!(cancelled.enter("a/x", true), Err(message) if message == "retention scan cancelled"));
    assert!(RetentionScan::new(1, 1).finish(true).is_err());
}

#[test]
fn a_project_over_budget_is_refused() {
    let mut scan = RetentionScan::new(5, 1);
    assert!(scan.enter("a/x", false).is_ok());
    assert_eq!(
        scan.add_record(uploaded("1", "x-1.whl", false)),
        Err("retention plan for project a exceeds the 5-byte per-project memory budget".to_owned()),
    );
    assert!(admit_plan("a", 3, 2, 5).is_ok());
    assert!(admit_plan("a", usize::MAX, 2, 5).is_err());
    assert_eq!(corrupt_record("a/x", "oops"), "corrupt upload record a/x: oops");
}

#[test]
fn an_evaluation_announces_its_plan_before_any_decision() {
    let mut scan = RetentionScan::new(1000, 1);
    let step = |scan: &mut RetentionScan, event| evaluate_retention(scan, event);
    assert!(matches!(step(&mut scan, RetentionEvent::Asked(Vec::new())), RetentionAction::Open));
    assert!(matches!(step(&mut scan, RetentionEvent::Opened(Ok(()))), RetentionAction::Announce));
    assert!(matches!(step(&mut scan, RetentionEvent::Announced(Ok(()))), RetentionAction::Read));
    let reached = |key: &str| RetentionEvent::Reached { key: key.to_owned(), cancelled: false };
    assert!(matches!(step(&mut scan, reached("noslash")), RetentionAction::Read));
    assert!(matches!(step(&mut scan, reached("a/x-1.whl")), RetentionAction::Decode));
    let decoded = RetentionEvent::Decoded { key: "a/x-1.whl".to_owned(), record: Ok(uploaded("1", "x-1.whl", false)) };
    assert!(matches!(step(&mut scan, decoded), RetentionAction::Read));
    let used = match step(&mut scan, RetentionEvent::Exhausted { cancelled: false }) {
        RetentionAction::Plan { group, ended: true } => group.used,
        _ => panic!("the last project"),
    };
    let planned = |live_bytes| RetentionEvent::Planned { project: "a".to_owned(), used, live_bytes, ended: true };
    assert!(matches!(
        step(&mut scan, planned(1000)),
        RetentionAction::Fail(message) if message == "retention plan for project a exceeds the 1000-byte per-project memory budget",
    ));
    assert!(matches!(step(&mut scan, planned(1)), RetentionAction::Emit { ended: true }));
    assert!(matches!(step(&mut scan, RetentionEvent::Emitted { result: Ok(()), ended: true }), RetentionAction::Done));
    assert!(matches!(step(&mut scan, RetentionEvent::Emitted { result: Ok(()), ended: false }), RetentionAction::Decode));
}

#[test]
fn an_evaluation_ends_at_its_first_failure() {
    let mut scan = RetentionScan::new(1000, 1);
    let refused = vec![RetentionSelector { kind: SelectorKind::Cached, name: "cached".to_owned() }];
    let failed = |action| match action {
        RetentionAction::Fail(message) => message,
        _ => panic!("a failure"),
    };
    assert_eq!(
        failed(evaluate_retention(&mut scan, RetentionEvent::Asked(refused))),
        "pypi retention does not support selector \"cached\"",
    );
    assert_eq!(failed(evaluate_retention(&mut scan, RetentionEvent::Opened(Err("shut".to_owned())))), "shut");
    assert_eq!(failed(evaluate_retention(&mut scan, RetentionEvent::Announced(Err("stop".to_owned())))), "stop");
    assert_eq!(failed(evaluate_retention(&mut scan, RetentionEvent::Unreadable("gone".to_owned()))), "gone");
    let cancelled = RetentionEvent::Reached { key: "a/x".to_owned(), cancelled: true };
    assert_eq!(failed(evaluate_retention(&mut scan, cancelled)), "retention scan cancelled");
    let reached = RetentionEvent::Reached { key: "a/x".to_owned(), cancelled: false };
    assert!(matches!(evaluate_retention(&mut scan, reached), RetentionAction::Decode));
    let corrupt = RetentionEvent::Decoded { key: "a/x".to_owned(), record: Err("oops".to_owned()) };
    assert_eq!(failed(evaluate_retention(&mut scan, corrupt)), "corrupt upload record a/x: oops");
    let stopped = RetentionEvent::Emitted { result: Err("full".to_owned()), ended: false };
    assert_eq!(failed(evaluate_retention(&mut scan, stopped)), "full");
    assert_eq!(failed(evaluate_retention(&mut scan, RetentionEvent::Exhausted { cancelled: true })), "retention scan cancelled");
}
