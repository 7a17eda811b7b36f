use peryx_ecosystem_pypi::collections::TextMap;
use peryx_ecosystem_pypi::simple::file::Yanked;
use peryx_ecosystem_pypi::store::attestations::{
    compare_exchange_upstream_attestation, list_upstream_attestations, publish_staged_upstream_attestations,
    put_upstream_attestation, stage_upstream_attestation, StagedAttestation,
};
use peryx_ecosystem_pypi::store::batches::{
    mutate_uploads_and_overrides, promote_files_checked, queue_batch_event, PromotedRecord, PromotedRelease,
    UploadMutationPlan,
};
use peryx_ecosystem_pypi::store::index::{put_cached_page, retire_cached_project, CachedPageWrite, PublishedFileWrite};
use peryx_ecosystem_pypi::store::keys::{
    count_key, file_key, freshness_key, index_key, live_uploads_key, override_key, project_attestation_live_key, project_key,
    project_status_key, provenance_key, publication_key, release_imports_init_key, release_imports_key, retired_key,
    upload_key, upstream_attestation_key,
};
use peryx_ecosystem_pypi::store::overrides::OverrideMutation;
use peryx_ecosystem_pypi::store::projects::{delete_project_cache, list_catalog_projects, put_catalog_projects, CatalogState};
use peryx_ecosystem_pypi::store::reads::summarize_index;
use peryx_ecosystem_pypi::store::record::{CachedIndex, UpstreamAttestation};
use peryx_ecosystem_pypi::store::txn::{DriverTxn, RowScope};
use peryx_ecosystem_pypi::store::uploads::Guard;
use peryx_ecosystem_pypi::store::values::MetaError;

const DIGEST: &str = "0123456789abcdef0123456789abcdef0123456789abcdef0123456789abcdef";

fn empty() -> DriverTxn {
    DriverTxn::new(TextMap::new())
}

fn text(bytes: &[u8]) -> String {
    String::from_utf8(bytes.to_vec()).unwrap_or_else(|error| panic!("{error}"))
}

fn page() -> CachedIndex {
    CachedIndex {
        etag: None,
        last_serial: None,
        fetched_at_unix: 1,
        content_type: None,
        fresh_secs: None,
        body: b"{}".to_vec(),
    }
}

fn files() -> Vec<PublishedFileWrite> {
    vec![PublishedFileWrite {
        sha256: DIGEST.to_owned(),
        filename: "flask-1.whl".to_owned(),
        url: "https://h/flask-1.whl".to_owned(),
        size: Some(3),
        metadata: None,
    }]
}

fn write<'a>(
    record: &'a CachedIndex,
    files: &'a Vec<PublishedFileWrite>,
    attestations: &'a Vec<(String, String, String)>,
    status: Option<&'a str>,
) -> CachedPageWrite<'a> {
    CachedPageWrite {
        key: "root/flask",
        record,
        index: "root",
        normalized: "flask",
        display: "Flask",
        source: "root",
        upstream: None,
        project_status: status,
        project_status_reason: None,
        files,
        attestations,
    }
}

#[test]
fn a_page_is_stored_whole_and_retired_whole() {
    let mut txn = empty();
    txn.write_row(RowScope::Local, &freshness_key("root/flask"), b"{}");
    txn.write_row(RowScope::Local, &retired_key("root", "flask"), b"");
    let record = page();
    let files = files();
    let advertised = vec![(DIGEST.to_owned(), "flask-1.whl".to_owned(), "https://h/p".to_owned())];
    assert!(put_cached_page(&mut txn, write(&record, &files, &advertised, Some("archived")), &TextMap::new()).is_ok());
    assert_eq!(txn.get(&index_key("root/flask")), Some(record.encode()));
    assert!(txn.get(&freshness_key("root/flask")).is_none());
    assert!(txn.get(&retired_key("root", "flask")).is_none());
    assert_eq!(txn.get(&project_key("root", "flask")).map(|raw| text(&raw)), Some("Flask".to_owned()));
    assert!(txn.get(&project_status_key("root", "flask")).is_some());
    assert!(txn.get(&file_key("root", "flask", DIGEST)).is_some());
    assert!(txn.get(&publication_key("root", "flask", DIGEST, "flask-1.whl")).is_some());
    let live = project_attestation_live_key("root", "flask", DIGEST, "flask-1.whl");
    let main = upstream_attestation_key("root", DIGEST, "flask-1.whl", "flask");
    assert!(txn.get(&live).is_some() && txn.get(&main).is_some());
    let unread = put_cached_page(&mut txn, write(&record, &files, &advertised, None), &TextMap::new());
    assert!(matches!(unread, Err(MetaError::DriverRecordMalformed { key }) if key == main));
    assert!(retire_cached_project(&mut txn, "root/flask", "root", "flask", &TextMap::new()).is_ok());
    for key in [
        index_key("root/flask"),
        project_key("root", "flask"),
        project_status_key("root", "flask"),
        publication_key("root", "flask", DIGEST, "flask-1.whl"),
        live,
        main,
    ] {
        assert!(txn.get(&key).is_none());
    }
    assert!(txn.get(&retired_key("root", "flask")).is_some());
}

fn object(url: &str) -> UpstreamAttestation {
    UpstreamAttestation::remote(url, "root", "flask", None)
}

#[test]
fn staged_registrations_are_published_together() {
    let mut txn = empty();
    stage_upstream_attestation(&mut txn, "stage/1", DIGEST, "a.whl", &object("https://h/a"));
    assert!(txn.get("stage/1").is_some_and(|raw| text(&raw).starts_with(&format!("[\"{DIGEST}\",\"a.whl\",{{"))));
    let unread = publish_staged_upstream_attestations(&mut txn, "root", "flask", "stage/", &TextMap::new(), &TextMap::new());
    assert!(matches!(unread, Err(MetaError::DriverRecordMalformed { key }) if key == "stage/1"));
    let mut decoded = TextMap::new();
    decoded.insert("stage/1".to_owned(), StagedAttestation {
        digest: DIGEST.to_owned(),
        filename: "a.whl".to_owned(),
        record: object("https://h/a"),
    });
    assert!(publish_staged_upstream_attestations(&mut txn, "root", "flask", "stage/", &decoded, &TextMap::new()).is_ok());
    assert!(txn.get("stage/1").is_none());
    let main = upstream_attestation_key("root", DIGEST, "a.whl", "flask");
    let mut objects = TextMap::new();
    objects.insert(main.clone(), object("https://h/a"));
    let listed = list_upstream_attestations(&txn, "root", DIGEST, "a.whl", &objects);
    assert_eq!(listed.map(|list| list.iter().map(|object| object.url.clone()).collect::<Vec<_>>()).ok(), Some(vec!["https://h/a".to_owned()]));
    assert!(list_upstream_attestations(&txn, "root", DIGEST, "a.whl", &TextMap::new()).is_err());
    put_upstream_attestation(&mut txn, "root", DIGEST, "a.whl", &object("https://h/a"));
    let expected = object("https://h/a");
    assert!(matches!(
        compare_exchange_upstream_attestation(&mut txn, "root", DIGEST, "a.whl", &None, &expected, &expected),
        Err(MetaError::DriverRecordMalformed { .. }),
    ));
    assert!(matches!(
        compare_exchange_upstream_attestation(&mut txn, "root", DIGEST, "b.whl", &None, &expected, &expected),
        Ok(false),
    ));
}

fn record(filename: &str, guard: Guard) -> PromotedRecord {
    PromotedRecord {
        filename: filename.to_owned(),
        token: DIGEST.to_owned(),
        record: format!("{{\"version\":\"1\",\"file\":{{\"filename\":\"{filename}\"}}}}").into_bytes(),
        guard,
        segment: None,
        python_tag: "py3".to_owned(),
    }
}

#[test]
fn a_promotion_copies_what_its_target_takes() {
    let mut txn = empty();
    let bundle = provenance_key("staging", "flask", DIGEST, "flask-1.whl");
    txn.write_row(RowScope::Replicated, &bundle, format!("{DIGEST}\n9").as_bytes());
    let mut sizes = TextMap::new();
    sizes.insert(DIGEST.to_owned(), 5);
    let mut reservations = TextMap::new();
    reservations.insert("flask-1.whl".to_owned(), 11);
    reservations.insert("flask-1.tar.gz".to_owned(), 12);
    let records = vec![record("flask-1.whl", Guard::Commit), record("flask-1.tar.gz", Guard::Skip)];
    let bundles = TextMap::new();
    let release = PromotedRelease {
        source: "staging",
        index: "hosted",
        normalized: "flask",
        display: "Flask",
        records: &records,
        blob_sizes: &sizes,
        reservations: &reservations,
        bundles: &bundles,
        submitted_at_unix: 3,
    };
    let done = promote_files_checked(&mut txn, true, &release).unwrap_or_else(|error| panic!("{}", error.message()));
    assert_eq!((done.written, done.committed.as_slice()), (1, &[11][..]));
    let journal: Vec<String> = done.journal.iter().map(|entry| text(entry)).collect();
    assert!(journal[0].contains("\"new-release\"") && journal[1].contains("\"add-file\""));
    assert!(txn.get(&upload_key("hosted", "flask", "flask-1.whl")).is_some());
    assert!(txn.get(&upload_key("hosted", "flask", "flask-1.tar.gz")).is_none());
    assert_eq!(txn.get(&provenance_key("hosted", "flask", DIGEST, "flask-1.whl")), txn.get(&bundle));
    assert!(txn.get(&project_key("hosted", "flask")).is_some());
    txn.write_row(RowScope::Replicated, &bundle, b"damaged");
    assert!(promote_files_checked(&mut txn, true, &release).is_err());
}

#[test]
fn records_and_overrides_change_together() {
    let mut txn = empty();
    txn.write_row(RowScope::Replicated, &upload_key("hosted", "flask", "a.whl"), b"{\"version\":\"1\"}");
    let mut rewrites = TextMap::new();
    rewrites.insert("a.whl".to_owned(), b"{\"version\":\"2\"}".to_vec());
    let filenames = vec!["b.whl".to_owned()];
    let yanked = Yanked::Yes;
    let plan = UploadMutationPlan {
        outbox: true,
        index: "hosted",
        normalized: "flask",
        action: "yank",
        submitted_at_unix: 1,
        override_filenames: &filenames,
        override_mutation: OverrideMutation::Yanked(&yanked),
    };
    assert!(mutate_uploads_and_overrides(&mut txn, &plan, false, &rewrites, &TextMap::new(), &TextMap::new()).is_err());
    let done = mutate_uploads_and_overrides(&mut txn, &plan, true, &rewrites, &TextMap::new(), &TextMap::new())
        .unwrap_or_else(|_| panic!("a batch"));
    assert_eq!((done.changed, done.journal.len()), (2, 2));
    assert_eq!(txn.get(&override_key("hosted", "flask", "b.whl")).map(|raw| text(&raw)), Some("{\"hidden\":false,\"yanked\":true}".to_owned()));
    queue_batch_event(&mut txn, 0, Some(b"event".to_vec()));
    queue_batch_event(&mut txn, done.changed, Some(b"event".to_vec()));
    let writes = txn.into_writes();
    assert!(writes.len() >= 2);
}

#[test]
fn a_purge_says_what_it_removed() {
    let mut txn = empty();
    let record = page();
    let files = files();
    assert!(put_cached_page(&mut txn, write(&record, &files, &Vec::new(), None), &TextMap::new()).is_ok());
    let digests = vec![DIGEST.to_owned(), "00".to_owned()];
    let counts = delete_project_cache(&mut txn, "root", "flask", &digests, &Vec::new()).unwrap_or_else(|error| panic!("{}", error.message()));
    assert_eq!((counts.index_pages, counts.project_records, counts.project_status_records), (1, 1, 0));
    assert_eq!((counts.file_url_records, counts.metadata_records), (1, 0));
    assert!(txn.get(&index_key("root/flask")).is_none());
    assert!(txn.get(&publication_key("root", "flask", DIGEST, "flask-1.whl")).is_none());
}

#[test]
fn a_catalog_is_listed_up_to_a_limit() {
    let mut txn = empty();
    let state = CatalogState { active: None, staging: Some(4), retired: None, next_generation: 4 };
    let projects = vec![("b".to_owned(), "B".to_owned()), ("a".to_owned(), "A".to_owned()), ("a".to_owned(), "a".to_owned())];
    assert_eq!(put_catalog_projects(&mut txn, &state, "root", 4, &projects).ok(), Some(2));
    assert_eq!(list_catalog_projects(&txn, "root", Some(4), 1), vec!["a".to_owned()]);
    assert_eq!(list_catalog_projects(&txn, "root", Some(4), 9).len(), 2);
    assert!(list_catalog_projects(&txn, "root", None, 9).is_empty());
}

#[test]
fn release_rows_have_keys_of_their_own() {
    assert_eq!(release_imports_key("hosted", "flask", "1"), "pypi\u{0}q\u{0}hosted/flask/1");
    assert_eq!(release_imports_init_key("hosted", "flask"), "pypi\u{0}z\u{0}hosted/flask");
    assert_eq!(live_uploads_key("hosted", "flask"), "pypi\u{0}l\u{0}hosted/flask");
}

#[test]
fn a_purged_project_is_no_longer_counted() {
    let mut txn = empty();
    let record = page();
    let files = files();
    assert!(put_cached_page(&mut txn, write(&record, &files, &Vec::new(), None), &TextMap::new()).is_ok());
    let summary = |txn: &DriverTxn| {
        summarize_index(txn, "root", 5, &TextMap::new()).unwrap_or_else(|error| panic!("{}", error.message())).resource_count
    };
    assert_eq!(summary(&txn), 1);
    assert!(delete_project_cache(&mut txn, "root", "flask", &Vec::new(), &Vec::new()).is_ok());
    assert!(txn.get(&project_key("root", "flask")).is_none());
    assert_eq!(summary(&txn), 0);
    assert!(txn.get(&count_key("root")).is_none());
    let again = delete_project_cache(&mut txn, "root", "flask", &Vec::new(), &Vec::new());
    assert_eq!(again.map(|counts| counts.project_records).ok(), Some(0));
    assert_eq!(summary(&txn), 0);
}

#[test]
fn a_write_that_fails_leaves_the_transaction_as_it_was() {
    let mut txn = empty();
    let record = page();
    let files = files();
    assert!(put_cached_page(&mut txn, write(&record, &files, &Vec::new(), None), &TextMap::new()).is_ok());
    txn.write_row(RowScope::Local, &count_key("root"), b"damaged");
    assert!(matches!(
        delete_project_cache(&mut txn, "root", "flask", &Vec::new(), &Vec::new()),
        Err(MetaError::DriverRecordMissing { field: "uploads", .. }),
    ));
    assert!(txn.get(&index_key("root/flask")).is_some());
    assert!(retire_cached_project(&mut txn, "root/flask", "root", "flask", &TextMap::new()).is_err());
    assert!(txn.get(&index_key("root/flask")).is_some());
    assert!(txn.get(&publication_key("root", "flask", DIGEST, "flask-1.whl")).is_some());
    assert!(txn.get(&retired_key("root", "flask")).is_none());
    let before = txn.savepoint().into_writes().len();
    assert!(retire_cached_project(&mut txn, "root/flask", "root", "flask", &TextMap::new()).is_err());
    assert_eq!(txn.into_writes().len(), before);
}
