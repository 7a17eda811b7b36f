use peryx_ecosystem_pypi::collections::{TextMap, TextSet};
use peryx_ecosystem_pypi::serving::project_view::{ArtifactSource, ByteAvailability};
use peryx_ecosystem_pypi::simple::file::Yanked;
use peryx_ecosystem_pypi::store::attestations::{compare_exchange_upstream_attestation, put_upstream_attestation};
use peryx_ecosystem_pypi::store::audit::{find_defects, repair_summary_rows, summary_row_counts, AuditedIndex, DecodedOrder};
use peryx_ecosystem_pypi::store::catalog::{
    abort_catalog_generation, begin_catalog_generation, publish_catalog_generation, recover_catalog_generations,
    refresh_catalog_generation,
};
use peryx_ecosystem_pypi::store::files::{
    get_file_publication, get_file_url, get_metadata_digest, get_metadata_digests, get_provenance, put_file_url,
    put_metadata, put_provenance, PypiArtifactOrigin,
};
use peryx_ecosystem_pypi::store::index::{put_index, touch_index_freshness};
use peryx_ecosystem_pypi::store::journal::{
    journal_bytes, journal_cursor, read_changelog_page, read_journal_entries, warehouse_action, DecodedRecord,
    JournalEntry, JournalRecord,
};
use peryx_ecosystem_pypi::store::keys::{
    catalog_key, count_key, derives_no_view, file_key, freshness_key, index_key, metadata_artifact_of_key, metadata_key, override_key,
    project_key, project_of_key, publication_key, upload_key,
};
use peryx_ecosystem_pypi::store::overrides::{DecodedOverride, FileOverride, OverrideMutation};
use peryx_ecosystem_pypi::store::projects::{
    list_projects, put_catalog_projects, remove_rows_under, CatalogGeneration, CatalogState,
};
use peryx_ecosystem_pypi::store::reads::{
    get_index, get_project, get_upload, list_index_pages, list_overrides, list_upload_entries, scan_index_pages,
    scan_records_for_repair, scan_utf8_records, summarize_index, summarize_indexes, StoredPage,
};
use peryx_ecosystem_pypi::store::record::{CachedIndex, DecodedPage, FreshnessOverlay, RecordHeader, UpstreamAttestation};
use peryx_ecosystem_pypi::store::repair::{
    apply_metadata_repair, escape_key, plan_metadata_repair, repair_counts, split_file_source_key, RepairContext,
};
use peryx_ecosystem_pypi::store::summary::{
    order_segment, put_project_row, put_upload_row, recent_upload, remove_upload_row, Counts, RecentWrite,
};
use peryx_ecosystem_pypi::store::txn::{DriverTxn, RowScope};
use peryx_ecosystem_pypi::store::uploads::{
    announce_release, delete_upload, mutate_uploads, publish_file_in_txn, published_state, set_override, Guard,
    ProvenanceSibling, PublishedFile, UploadMutation,
};
use peryx_ecosystem_pypi::text::trim;
use peryx_ecosystem_pypi::store::values::{
    file_source_value, publication_value, record_str, split_file_source, split_provenance_value, split_publication,
    FilePublication, MetaError, PypiRecords, StoredProvenanceReference, VersionedProvenanceReference,
};

fn empty() -> DriverTxn {
    DriverTxn::new(TextMap::new())
}

fn text(bytes: &[u8]) -> String {
    String::from_utf8(bytes.to_vec()).unwrap_or_else(|error| panic!("{error}"))
}

fn upload(version: &str, time: &str, size: u64) -> Vec<u8> {
    format!(
        "{{\"version\":\"{version}\",\"file\":{{\"filename\":\"x-{version}.whl\",\"url\":\"u\",\"hashes\":{{}},\"size\":{size},\"upload-time\":\"{time}\"}}}}"
    )
    .into_bytes()
}

#[test]
fn keys_name_their_project() {
    assert_eq!(project_of_key(&project_key("root/pypi", "flask")), Some(("root/pypi", "flask")));
    assert_eq!(project_of_key(&upload_key("hosted", "flask", "flask-1.whl")), Some(("hosted", "flask")));
    assert_eq!(project_of_key(&index_key("root/flask")), Some(("root", "flask")));
    assert_eq!(project_of_key(&metadata_key("ab")), None);
    assert_eq!(metadata_artifact_of_key(&metadata_key("ab")), Some("ab"));
    assert!(derives_no_view(&count_key("hosted")));
    assert_eq!(split_file_source_key(&file_key("a/b", "flask", "ff")["pypi\u{0}f\u{0}".len()..]), Some(("a/b", "flask", "ff")));
    assert_eq!(escape_key("pypi\u{0}k\u{0}a"), "pypi\\u{0}k\\u{0}a");
}

#[test]
fn file_sources_read_back() {
    let value = file_source_value("https://h/a", "root", Some(7), Some("up"));
    let source = split_file_source("k", &value).unwrap_or_else(|error| panic!("{}", error.message()));
    assert_eq!((source.url.as_str(), source.source.as_str(), source.size, source.upstream.as_deref()), ("https://h/a", "root", Some(7), Some("up")));
    assert!(matches!(split_file_source("k", "only"), Err(MetaError::DriverRecordMissing { field: "source", .. })));
    assert!(matches!(split_file_source("k", "u\ns\nx"), Err(MetaError::DriverRecordInteger { field: "size", .. })));
    let mut txn = empty();
    let placement = put_file_url(&mut txn, "root", "flask", "ff", "https://h/a", "root");
    assert_eq!((placement.source, placement.availability), (ArtifactSource::Proxy, ByteAvailability::RemoteOnly));
    let found = get_file_url(&txn, "root", "flask", "ff").ok().flatten();
    assert_eq!(found.map(|source| source.url), Some("https://h/a".to_owned()));
    assert!(get_file_url(&txn, "root", "flask", "00").ok().flatten().is_none());
    txn.write_row(RowScope::Local, &file_key("root", "flask", "00"), &[0xff]);
    assert!(matches!(get_file_url(&txn, "root", "flask", "00"), Err(MetaError::DriverRecordUtf8 { .. })));
    assert_eq!(PypiArtifactOrigin::Upload.artifact_source(), ArtifactSource::Hosted);
}

#[test]
fn publications_read_back() {
    let claimed = publication_value(&Some(("https://h/a.metadata".to_owned(), "cd".to_owned())), "root", None);
    match split_publication("k", &claimed) {
        Ok(FilePublication::Claimed(claim)) => {
            assert_eq!((claim.url.as_str(), claim.metadata_sha256.as_str(), claim.source.as_str(), claim.upstream), ("https://h/a.metadata", "cd", "root", None));
        }
        _ => panic!("a claim"),
    }
    assert!(matches!(split_publication("k", ""), Ok(FilePublication::Unclaimed)));
    assert!(matches!(split_publication("k", "u\nd"), Err(MetaError::DriverRecordMissing { field: "source", .. })));
    let mut txn = empty();
    txn.write_row(RowScope::Replicated, &publication_key("root", "flask", "ff", "a.whl"), claimed.as_bytes());
    assert!(matches!(get_file_publication(&txn, "root", "flask", "ff", "a.whl"), Ok(Some(FilePublication::Claimed(_)))));
    assert!(matches!(get_file_publication(&txn, "root", "flask", "ff", "b.whl"), Ok(None)));
    assert!(record_str("k", vec![0xff]).is_err());
}

#[test]
fn provenance_references_say_how_they_were_made() {
    let mut txn = empty();
    put_provenance(&mut txn, "hosted", "flask", "ff", "a.whl", &ProvenanceSibling { provenance_sha256: "cd", size: 9 });
    let decoded = VersionedProvenanceReference { version: 1, sha256: "cd".to_owned(), size: 9 };
    match get_provenance(&txn, "hosted", "flask", "ff", "a.whl", Some(decoded)) {
        Ok(Some(reference)) => assert_eq!(reference.verified(), Some(("cd", 9))),
        _ => panic!("a reference"),
    }
    match split_provenance_value("k", "cd\n9", None) {
        Ok(StoredProvenanceReference::Legacy { sha256, size }) => assert_eq!((sha256.as_str(), size), ("cd", 9)),
        _ => panic!("an older reference"),
    }
}

#[test]
fn metadata_belongs_to_its_artifact() {
    let mut txn = empty();
    put_metadata(&mut txn, "aa", "11");
    put_metadata(&mut txn, "bb", "22");
    assert_eq!(get_metadata_digest(&txn, "aa").ok().flatten().as_deref(), Some("11"));
    let found = get_metadata_digests(&txn, &vec!["bb".to_owned(), "cc".to_owned()]).unwrap_or_else(|error| panic!("{}", error.message()));
    assert_eq!((found.len(), found.get("bb").map(String::as_str)), (1, Some("22")));
    txn.write_row(RowScope::Local, &metadata_key("cc"), &[0xff]);
    assert!(get_metadata_digests(&txn, &vec!["bb".to_owned(), "cc".to_owned()]).is_err());
}

#[test]
fn overrides_move_one_field_at_a_time() {
    let mut record = FileOverride::default();
    assert_eq!(OverrideMutation::Hidden(true).apply(&mut record), Some("hide"));
    assert_eq!(OverrideMutation::Hidden(true).apply(&mut record), None);
    assert_eq!(OverrideMutation::Yanked(&Yanked::Reason("bad".to_owned())).apply(&mut record), Some("yank"));
    assert_eq!(record.encode(), "{\"hidden\":true,\"yanked\":\"bad\"}");
    assert_eq!(OverrideMutation::Hidden(false).apply(&mut record), Some("restore"));
    assert_eq!(OverrideMutation::Yanked(&Yanked::No).apply(&mut record), Some("unyank"));
    assert!(record.is_empty());
}

#[test]
fn an_override_that_imposes_nothing_is_removed() {
    let mut txn = empty();
    let key = override_key("hosted", "flask", "a.whl");
    let (moved, journal) = set_override(&mut txn, true, "hosted", "flask", "a.whl", Some("1"), None, &OverrideMutation::Hidden(true), 5).unwrap_or_else(|error| panic!("{}", error.message()));
    assert!(moved);
    assert_eq!(journal.len(), 1);
    assert!(text(&journal[0]).contains("\"hide\""));
    assert!(txn.get(&key).is_some());
    let stored = DecodedOverride::Record(FileOverride { hidden: true, yanked: Yanked::No });
    let listed = {
        let mut decoded = TextMap::new();
        decoded.insert(key.clone(), DecodedOverride::Record(FileOverride { hidden: true, yanked: Yanked::No }));
        list_overrides(&txn, "hosted", "flask", &decoded).unwrap_or_else(|error| panic!("{}", error.message()))
    };
    assert!(listed.get("a.whl").is_some_and(|record| record.hidden));
    assert!(matches!(list_overrides(&txn, "hosted", "flask", &TextMap::new()), Err(MetaError::DriverRecordMalformed { .. })));
    assert!(matches!(
        set_override(&mut txn, true, "hosted", "flask", "a.whl", None, None, &OverrideMutation::Hidden(false), 5),
        Err(MetaError::DriverRecordMalformed { .. }),
    ));
    let (moved, _) = set_override(&mut txn, false, "hosted", "flask", "a.whl", None, Some(&stored), &OverrideMutation::Hidden(false), 5).unwrap_or_else(|error| panic!("{}", error.message()));
    assert!(moved);
    assert!(txn.get(&key).is_none());
}

#[test]
fn a_newer_override_is_not_a_damaged_one() {
    let fields = |names: &[&str]| Some(names.iter().map(|name| (*name).to_owned()).collect::<Vec<String>>());
    let newer = FileOverride::decode(None, &fields(&["hidden", "held", "yanked"]));
    assert!(matches!(&newer, DecodedOverride::Newer(field) if field == "held"));
    assert!(matches!(FileOverride::decode(None, &fields(&["hidden", "yanked"])), DecodedOverride::Damaged));
    assert!(matches!(FileOverride::decode(None, &None), DecodedOverride::Damaged));
    assert!(matches!(FileOverride::decode(Some(FileOverride::default()), &None), DecodedOverride::Record(_)));
    let mut txn = empty();
    txn.write_row(RowScope::Replicated, &override_key("hosted", "flask", "a.whl"), b"{}");
    assert!(matches!(
        set_override(&mut txn, true, "hosted", "flask", "a.whl", None, Some(&newer), &OverrideMutation::Hidden(false), 5),
        Err(MetaError::DriverRecordSchema { unknown, .. }) if unknown == "held",
    ));
}

#[test]
fn counts_follow_their_rows() {
    let mut txn = empty();
    assert!(put_project_row(&mut txn, "hosted", "flask", "Flask").is_ok());
    assert!(put_project_row(&mut txn, "hosted", "flask", "FLASK").is_ok());
    assert!(put_upload_row(&mut txn, "hosted", "flask", "x-1.whl", &upload("1", "2024-01-01T00:00:00Z", 3)).is_ok());
    assert!(put_upload_row(&mut txn, "hosted", "flask", "x-2.whl", &upload("2", "2024-01-02T00:00:00Z", 4)).is_ok());
    let mut orders = TextMap::new();
    for (key, raw) in txn.prefix("pypi\u{0}w\u{0}") {
        assert!(text(&raw).starts_with("{\"resource\":\"flask\""));
        orders.insert(key.clone(), RecentWrite {
            resource: "flask".to_owned(),
            artifact: if key.contains("x-2.whl") { "x-2.whl".to_owned() } else { "x-1.whl".to_owned() },
            group: String::new(),
            written_at: None,
            size: None,
        });
    }
    let names = vec!["hosted".to_owned(), "empty".to_owned()];
    let all = summarize_indexes(&txn, &names, 1, &orders).unwrap_or_else(|error| panic!("{}", error.message()));
    assert_eq!(all.get("empty").map(|summary| summary.resource_count), Some(0));
    let summary = all.get("hosted").unwrap_or_else(|| panic!("a summary"));
    assert_eq!((summary.resource_count, summary.write_count), (1, 2));
    assert_eq!(summary.recent_writes.len(), 1);
    assert_eq!(summary.recent_writes[0].artifact, "x-2.whl");
    assert!(matches!(summarize_index(&txn, "hosted", 1, &TextMap::new()), Err(MetaError::DriverRecordMalformed { .. })));
    assert!(remove_upload_row(&mut txn, "hosted", "flask", "x-2.whl", &upload("2", "2024-01-02T00:00:00Z", 4)).is_ok());
    let summary = summarize_index(&txn, "hosted", 9, &orders).unwrap_or_else(|error| panic!("{}", error.message()));
    assert_eq!((summary.write_count, summary.recent_writes.len()), (1, 1));
    assert_eq!(get_project(&txn, "hosted", "flask").as_deref(), Some("FLASK"));
    assert_eq!(get_upload(&txn, "hosted", "flask", "x-1.whl"), Some(upload("1", "2024-01-01T00:00:00Z", 3)));
    let listed = list_upload_entries(&txn, "hosted", "flask");
    assert_eq!((listed.len(), listed[0].0.as_str()), (1, "x-1.whl"));
    assert_eq!(Counts::decode("k", None).ok().map(|counts| counts.projects), Some(0));
    assert!(Counts::decode("k", Some(b"x")).is_err());
}

#[test]
fn newer_uploads_stand_first() {
    assert!(order_segment(Some("2024-01-02T00:00:00Z")) < order_segment(Some("2024-01-01T00:00:00Z")));
    assert!(order_segment(Some("1960-01-01T00:00:00Z")) < order_segment(None));
    let recent = recent_upload("flask", "fallback", &upload("1", "2024-01-01T00:00:00Z", 3)).unwrap_or_else(|| panic!("an upload"));
    assert_eq!((recent.artifact.as_str(), recent.group.as_str(), recent.size), ("x-1.whl", "1", Some(3)));
    assert!(recent_upload("flask", "fallback", b"not json").is_none());
}

fn published<'a>(record: &'a [u8]) -> PublishedFile<'a> {
    PublishedFile {
        index: "hosted",
        normalized: "flask",
        display: "Flask",
        filename: "x-1.whl",
        artifact_sha256: "ff",
        artifact_size: 3,
        record,
        version: "1",
        python_tag: "py3",
        submitted_at_unix: 5,
        metadata: None,
        provenance: None,
    }
}

#[test]
fn a_publication_writes_all_its_rows() {
    let record = upload("1", "2024-01-01T00:00:00Z", 3);
    let mut txn = empty();
    let (written, journal) = publish_file_in_txn(&mut txn, true, &published(&record), Guard::Commit, None).unwrap_or_else(|error| panic!("{}", error.message()));
    assert!(written);
    assert!(!journal.is_empty());
    assert_eq!(get_upload(&txn, "hosted", "flask", "x-1.whl"), Some(record.clone()));
    assert_eq!(get_project(&txn, "hosted", "flask").as_deref(), Some("Flask"));
    let state = published_state(&txn, &published(&record), None).unwrap_or_else(|error| panic!("{}", error.message()));
    assert!(state.record.is_some());
    let (written, journal) = publish_file_in_txn(&mut txn, true, &published(&record), Guard::Skip, None).unwrap_or_else(|error| panic!("{}", error.message()));
    assert_eq!((written, journal.len()), (false, 0));
}

#[test]
fn a_release_is_announced_once() {
    let mut txn = empty();
    let first = announce_release(&mut txn, "hosted", "flask", Some("1"), 5);
    assert_eq!(first.len(), 1);
    assert!(text(&first[0]).contains("new-release"));
    assert!(announce_release(&mut txn, "hosted", "flask", Some("1"), 6).is_empty());
    assert!(announce_release(&mut txn, "hosted", "flask", None, 6).is_empty());
}

#[test]
fn a_deleted_upload_leaves_nothing_behind() {
    let record = upload("1", "2024-01-01T00:00:00Z", 3);
    let mut txn = empty();
    assert!(publish_file_in_txn(&mut txn, false, &published(&record), Guard::Commit, None).is_ok());
    put_provenance(&mut txn, "hosted", "flask", "ff", "x-1.whl", &ProvenanceSibling { provenance_sha256: "cd", size: 9 });
    let (deleted, journal) = delete_upload(&mut txn, true, "hosted", "flask", "x-1.whl", Some("1"), 7).unwrap_or_else(|error| panic!("{}", error.message()));
    assert_eq!((deleted, journal.len()), (true, 1));
    assert!(get_upload(&txn, "hosted", "flask", "x-1.whl").is_none());
    assert!(matches!(get_provenance(&txn, "hosted", "flask", "ff", "x-1.whl", None), Ok(None)));
    let (deleted, journal) = delete_upload(&mut txn, true, "hosted", "flask", "x-1.whl", None, 8).unwrap_or_else(|error| panic!("{}", error.message()));
    assert_eq!((deleted, journal.len()), (false, 0));
}

#[test]
fn uploads_are_changed_as_a_batch() {
    let record = upload("1", "2024-01-01T00:00:00Z", 3);
    let changed = upload("1", "2024-01-01T00:00:00Z", 4);
    let mut txn = empty();
    assert!(publish_file_in_txn(&mut txn, false, &published(&record), Guard::Commit, None).is_ok());
    let mut mutations = TextMap::new();
    mutations.insert("x-1.whl".to_owned(), UploadMutation::Replace(changed.clone()));
    let (count, journal) = mutate_uploads(&mut txn, true, "hosted", "flask", "yank", 5, &mutations, &TextMap::new()).unwrap_or_else(|error| panic!("{}", error.message()));
    assert_eq!((count, journal.len()), (1, 1));
    assert_eq!(get_upload(&txn, "hosted", "flask", "x-1.whl"), Some(changed));
}

#[test]
fn summary_damage_is_found_and_repaired() {
    let mut txn = empty();
    assert!(put_project_row(&mut txn, "hosted", "flask", "Flask").is_ok());
    assert!(put_upload_row(&mut txn, "hosted", "flask", "x-1.whl", &upload("1", "2024-01-01T00:00:00Z", 3)).is_ok());
    let indexes = vec![AuditedIndex { name: "hosted".to_owned(), local: false }];
    let decoded = || {
        let mut rows: TextMap<DecodedOrder> = TextMap::new();
        for (key, _) in summarize_rows() {
            if let Some(recent) = recent_upload("flask", "x-1.whl", &upload("1", "2024-01-01T00:00:00Z", 3)) {
                rows.insert(key, DecodedOrder::Record(recent));
            }
        }
        rows
    };
    assert_eq!(find_defects(&txn, &indexes, &decoded()).len(), 0);
    txn.write_row(RowScope::Replicated, &count_key("hosted"), b"9\n9");
    txn.write_row(RowScope::Replicated, &count_key("gone"), b"1\n1");
    let findings = find_defects(&txn, &indexes, &decoded());
    assert_eq!(findings.len(), 2);
    repair_summary_rows(&mut txn, &findings);
    assert_eq!(find_defects(&txn, &indexes, &decoded()).len(), 0);
    assert!(txn.get(&count_key("gone")).is_none());
    let rows = summary_row_counts(&txn);
    assert_eq!((rows.count_rows, rows.order_rows), (1, 1));
}

/// The order rows of a store, decoded from the one record that its uploads share.
fn orders_of(txn: &DriverTxn, project: &str, record: &[u8]) -> TextMap<DecodedOrder> {
    let mut rows: TextMap<DecodedOrder> = TextMap::new();
    for (key, _) in txn.prefix("pypi\u{0}w\u{0}") {
        if let Some(recent) = recent_upload(project, "x-1.whl", record) {
            rows.insert(key, DecodedOrder::Record(recent));
        }
    }
    rows
}

#[test]
fn nested_indexes_in_step_have_no_defect() {
    let record = upload("1", "2024-01-01T00:00:00Z", 3);
    let indexes = vec![
        AuditedIndex { name: "team".to_owned(), local: false },
        AuditedIndex { name: "team/dev".to_owned(), local: false },
    ];
    let mut txn = empty();
    for index in ["team", "team/dev"] {
        assert!(put_project_row(&mut txn, index, "flask", "Flask").is_ok());
        assert!(put_upload_row(&mut txn, index, "flask", "x-1.whl", &record).is_ok());
    }
    assert_eq!(txn.get(&count_key("team")), Some(b"1\n1".to_vec()));
    assert_eq!(txn.get(&count_key("team/dev")), Some(b"1\n1".to_vec()));
    let decoded = orders_of(&txn, "flask", &record);
    assert_eq!(find_defects(&txn, &indexes, &decoded).len(), 0);
}

#[test]
fn files_of_a_project_named_like_an_index_are_taken_from_their_own() {
    let record = upload("1", "2024-01-01T00:00:00Z", 3);
    let indexes = vec![
        AuditedIndex { name: "team".to_owned(), local: false },
        AuditedIndex { name: "team/dev".to_owned(), local: false },
    ];
    let mut txn = empty();
    assert!(put_upload_row(&mut txn, "team", "dev", "x-1.whl", &record).is_ok());
    let decoded = orders_of(&txn, "dev", &record);
    let messages: Vec<String> = find_defects(&txn, &indexes, &decoded).into_iter().map(|finding| finding.defect.message).collect();
    assert_eq!(messages.len(), 2);
    assert!(messages[0].starts_with("count row says "));
    assert!(messages[0].ends_with("rows hold none"));
    assert_eq!(messages[1], "order row has no upload");
}

fn summarize_rows() -> Vec<(String, Vec<u8>)> {
    let mut txn = empty();
    assert!(put_upload_row(&mut txn, "hosted", "flask", "x-1.whl", &upload("1", "2024-01-01T00:00:00Z", 3)).is_ok());
    txn.prefix("pypi\u{0}w\u{0}")
}

#[test]
fn cached_pages_read_back_with_their_freshness() {
    let record = CachedIndex {
        etag: Some("\"1\"".to_owned()),
        last_serial: Some(4),
        fetched_at_unix: 10,
        content_type: Some("text/html".to_owned()),
        fresh_secs: None,
        body: b"line\nbody".to_vec(),
    };
    let mut txn = empty();
    put_index(&mut txn, "root/flask", &record);
    let raw = txn.get(&index_key("root/flask")).unwrap_or_else(|| panic!("a row"));
    let (header, body) = CachedIndex::split_framed(&raw).unwrap_or_else(|| panic!("a frame"));
    assert_eq!(text(header), "{\"etag\":\"\\\"1\\\"\",\"last_serial\":4,\"fetched_at_unix\":10,\"content_type\":\"text/html\",\"fresh_secs\":null}");
    assert_eq!(body, b"line\nbody");
    let header = || RecordHeader {
        etag: None,
        last_serial: Some(4),
        fetched_at_unix: 10,
        content_type: None,
        fresh_secs: None,
    };
    match get_index(&txn, "root/flask", DecodedPage::Header(header()), None) {
        StoredPage::Page(page) => assert_eq!((page.fetched_at_unix, page.body.as_slice()), (10, &b"line\nbody"[..])),
        _ => panic!("a page"),
    }
    touch_index_freshness(&mut txn, "root/flask", 20, Some(60));
    assert_eq!(txn.get(&freshness_key("root/flask")).map(|raw| text(&raw)), Some("{\"fetched_at_unix\":20,\"fresh_secs\":60}".to_owned()));
    match get_index(&txn, "root/flask", DecodedPage::Header(header()), Some(FreshnessOverlay { fetched_at_unix: 20, fresh_secs: Some(60) })) {
        StoredPage::Page(page) => assert_eq!((page.fetched_at_unix, page.fresh_secs), (20, Some(60))),
        _ => panic!("a page"),
    }
    assert!(matches!(get_index(&txn, "root/none", DecodedPage::Damaged, None), StoredPage::Absent));
    assert!(matches!(get_index(&txn, "root/flask", DecodedPage::Damaged, None), StoredPage::Unreadable));
    assert!(matches!(get_index(&txn, "root/flask", DecodedPage::Header(header()), None), StoredPage::Unreadable));
}

#[test]
fn cached_pages_are_listed_with_their_freshness() {
    let page = |fetched: i64| CachedIndex {
        etag: None,
        last_serial: Some(4),
        fetched_at_unix: fetched,
        content_type: Some("text/html".to_owned()),
        fresh_secs: None,
        body: b"body".to_vec(),
    };
    let mut txn = empty();
    put_index(&mut txn, "root/a", &page(1));
    txn.write_row(RowScope::Local, &index_key("root/b"), b"{}");
    put_index(&mut txn, "root/c", &page(3));
    touch_index_freshness(&mut txn, "root/c", 9, Some(60));
    let mut decoded = TextMap::new();
    decoded.insert("root/a".to_owned(), DecodedPage::Header(RecordHeader {
        etag: None,
        last_serial: Some(4),
        fetched_at_unix: 1,
        content_type: Some("text/html".to_owned()),
        fresh_secs: None,
    }));
    decoded.insert("root/b".to_owned(), DecodedPage::Whole(page(2)));
    let mut overlays = TextMap::new();
    overlays.insert("root/c".to_owned(), FreshnessOverlay { fetched_at_unix: 9, fresh_secs: Some(60) });
    let dated = list_index_pages(&txn, &decoded, &overlays).unwrap_or_else(|error| panic!("{}", error.message()));
    assert_eq!(
        dated,
        vec![("root/a".to_owned(), 1, None), ("root/b".to_owned(), 2, None), ("root/c".to_owned(), 9, Some(60))],
    );
    match scan_index_pages(&txn, &decoded, &overlays) {
        Err(MetaError::DriverRecordMalformed { key }) => assert_eq!(key, "root/c"),
        _ => panic!("the last record is not decoded"),
    }
    txn.remove_row(RowScope::Local, &index_key("root/c"));
    let pages = scan_index_pages(&txn, &decoded, &overlays).unwrap_or_else(|error| panic!("{}", error.message()));
    let sizes: Vec<(u64, u64)> = pages.iter().map(|page| (page.summary.body_bytes, page.summary.record_bytes)).collect();
    assert_eq!(pages[0].summary.content_type.as_deref(), Some("text/html"));
    assert_eq!((sizes[0].0, sizes[1]), (4, (4, 2)));
    touch_index_freshness(&mut txn, "root/b", 9, None);
    assert!(list_index_pages(&txn, &decoded, &TextMap::new()).is_err());
}

#[test]
fn journal_records_are_told_apart_by_their_tag() {
    let entry = || JournalEntry {
        serial: 1,
        submitted_at_unix: 2,
        action: "add-file".to_owned(),
        project: "flask".to_owned(),
        version: None,
        filename: None,
        python: None,
    };
    let tagged = Some(vec!["serial".to_owned(), "pypi-op".to_owned()]);
    let foreign = Some(vec!["other-op".to_owned()]);
    assert!(matches!(JournalEntry::decode(&tagged, Some(entry())), DecodedRecord::Entry(found) if found.serial == 1));
    assert!(matches!(JournalEntry::decode(&tagged, None), DecodedRecord::Damaged));
    assert!(matches!(JournalEntry::decode(&foreign, None), DecodedRecord::Foreign));
    assert!(matches!(JournalEntry::decode(&None, Some(entry())), DecodedRecord::Damaged));
}

fn generation(number: u64) -> CatalogGeneration {
    CatalogGeneration {
        generation: number,
        source: "s".to_owned(),
        url: "u".to_owned(),
        format: "json".to_owned(),
        etag: None,
        last_modified: None,
        last_serial: None,
        fetched_at_unix: 0,
        bytes: 0,
        projects: 0,
    }
}

#[test]
fn a_catalog_is_published_whole() {
    let (state, number, _) = CatalogState::default().reserve();
    assert_eq!(state.staging, Some(number));
    let mut txn = empty();
    assert_eq!(begin_catalog_generation(&mut txn, "root", CatalogState::default()), (1, None));
    let stored = |txn: &DriverTxn| txn.get(&catalog_key("root")).map(|raw| text(&raw));
    assert_eq!(stored(&txn), Some("{\"active\":null,\"staging\":1,\"retired\":null,\"next_generation\":1}".to_owned()));
    let projects = vec![("flask".to_owned(), "Flask".to_owned()), ("numpy".to_owned(), "numpy".to_owned())];
    assert_eq!(put_catalog_projects(&mut txn, &state, "root", number, &projects).ok(), Some(2));
    let again = CatalogState { active: None, staging: state.staging, retired: None, next_generation: state.next_generation };
    assert!(publish_catalog_generation(&mut txn, "root", again, Some(7), generation(number)).is_err());
    let again = CatalogState { active: None, staging: state.staging, retired: None, next_generation: state.next_generation };
    assert!(publish_catalog_generation(&mut txn, "root", again, None, generation(number)).is_ok());
    assert_eq!(
        stored(&txn),
        Some("{\"active\":{\"generation\":1,\"source\":\"s\",\"url\":\"u\",\"format\":\"json\",\"etag\":null,\"last_modified\":null,\"last_serial\":null,\"fetched_at_unix\":0,\"bytes\":0,\"projects\":0},\"staging\":null,\"retired\":null,\"next_generation\":1}".to_owned()),
    );
    let published = state.publish(None, generation(number)).unwrap_or_else(|error| panic!("{}", error.message()));
    assert_eq!(published.active.as_ref().map(|active| active.generation), Some(number));
    assert_eq!(list_projects(&txn, "root", Some(number)), vec!["Flask".to_owned(), "numpy".to_owned()]);
    let (next, other, _) = published.reserve();
    let seen = CatalogState { active: None, staging: Some(other), retired: Some(number), next_generation: other };
    assert!(next.publish(None, generation(other)).is_err());
    assert!(refresh_catalog_generation(&mut txn, "root", seen, other, None, None, 5).is_err());
    let seen = CatalogState { active: None, staging: Some(other), retired: None, next_generation: other };
    abort_catalog_generation(&mut txn, "root", seen, number);
    assert!(list_projects(&txn, "root", Some(number)).is_empty());
    assert_eq!(put_catalog_projects(&mut txn, &CatalogState { active: None, staging: Some(number), retired: None, next_generation: other }, "root", number, &projects).ok(), Some(2));
    let current = CatalogState { active: None, staging: Some(number), retired: None, next_generation: other };
    recover_catalog_generations(&mut txn, "root", Some(number), None, current);
    assert_eq!(stored(&txn), Some("{\"active\":null,\"staging\":null,\"retired\":null,\"next_generation\":2}".to_owned()));
    assert!(list_projects(&txn, "root", Some(number)).is_empty());
    remove_rows_under(&mut txn, RowScope::Local, "pypi\u{0}");
    assert!(list_projects(&txn, "root", Some(number)).is_empty());
}

#[test]
fn journal_entries_become_a_changelog() {
    let entry = |serial, action: &str, filename: Option<&str>| JournalRecord {
        serial,
        decoded: DecodedRecord::Entry(JournalEntry {
            serial: 0,
            submitted_at_unix: 9,
            action: action.to_owned(),
            project: "flask".to_owned(),
            version: Some("1".to_owned()),
            filename: filename.map(str::to_owned),
            python: None,
        }),
    };
    let foreign = JournalRecord { serial: 2, decoded: DecodedRecord::Foreign };
    let records = vec![entry(1, "add-file", Some("x-1.whl")), foreign, entry(3, "new-release", None)];
    let snapshot = read_journal_entries(&records, 5, 10).unwrap_or_else(|_| panic!("a journal"));
    assert_eq!(snapshot.entries.iter().map(|entry| entry.serial).collect::<Vec<_>>(), vec![1, 3]);
    let page = read_changelog_page(0, snapshot, 10).unwrap_or_else(|error| panic!("{}", error.message()));
    assert_eq!(page.entries().len(), 2);
    assert_eq!(journal_cursor(-3), 0);
    assert_eq!(warehouse_action("add-file", Some("x-1.whl")), "add file x-1.whl");
    assert_eq!(warehouse_action("delete-file", None), "remove file");
    assert_eq!(warehouse_action("new-release", None), "new-release");
    assert!(read_journal_entries(&vec![JournalRecord { serial: 1, decoded: DecodedRecord::Damaged }], 1, 1).is_err());
    assert!(text(&journal_bytes("yank", "flask", None, Some("a"), None, 3)).contains("\"action\":\"yank\""));
}

#[test]
fn attestations_are_exchanged_only_for_what_was_seen() {
    let mut txn = empty();
    let first = UpstreamAttestation::remote("https://h/1", "root", "flask", None);
    let mut second = UpstreamAttestation::remote("https://h/1", "root", "flask", None);
    second.etag = Some("\"2\"".to_owned());
    put_upstream_attestation(&mut txn, "root", "ff", "a.whl", &first);
    let seen = || Some(UpstreamAttestation::remote("https://h/1", "root", "flask", None));
    assert_eq!(compare_exchange_upstream_attestation(&mut txn, "root", "ff", "a.whl", &seen(), &first, &second).ok(), Some(true));
    assert_eq!(compare_exchange_upstream_attestation(&mut txn, "root", "ff", "a.whl", &seen(), &second, &first).ok(), Some(false));
    let elsewhere = UpstreamAttestation::remote("https://h/2", "root", "flask", None);
    assert!(matches!(
        compare_exchange_upstream_attestation(&mut txn, "root", "ff", "a.whl", &seen(), &first, &elsewhere),
        Err(MetaError::DriverPrecondition(_)),
    ));
}

#[test]
fn repair_scans_name_what_they_skip() {
    let mut txn = empty();
    txn.write_row(RowScope::Local, &metadata_key("aa"), b"11");
    txn.write_row(RowScope::Local, &metadata_key("bb"), &[0xff]);
    let scan = scan_records_for_repair(&txn, PypiRecords::Metadata);
    assert_eq!(scan.records, vec![("aa".to_owned(), "11".to_owned())]);
    assert_eq!(scan.skipped, vec!["bb".to_owned()]);
    assert!(matches!(scan_utf8_records(&txn, PypiRecords::Metadata), Err(MetaError::DriverRecordUtf8 { .. })));
    assert_eq!(scan_utf8_records(&txn, PypiRecords::Project).map(|records| records.len()).ok(), Some(0));
    let context = RepairContext {
        cached: vec!["root".to_owned()],
        hosted: Vec::new(),
        readable_pages: TextSet::new(),
        sound_uploads: TextSet::new(),
        sound_overrides: TextSet::new(),
        references: TextMap::new(),
    };
    txn.write_row(RowScope::Local, &index_key("root/flask"), b"damaged");
    let findings = plan_metadata_repair(&txn, &context);
    assert!(!findings.is_empty());
    let counts = repair_counts(&findings);
    assert_eq!(counts.actionable + counts.report_only, findings.len());
    assert!(apply_metadata_repair(&mut txn, &findings).is_ok());
    assert!(txn.get(&index_key("root/flask")).is_none());
    let left = plan_metadata_repair(&txn, &context);
    assert_eq!(repair_counts(&left).actionable, 0);
    assert_eq!(left.len(), counts.report_only);
}

#[test]
fn a_restored_file_keeps_its_yank() {
    let mut txn = empty();
    let key = override_key("hosted", "flask", "a.whl");
    let yanked = || FileOverride { hidden: false, yanked: Yanked::Reason("bad".to_owned()) };
    txn.write_row(RowScope::Replicated, &key, yanked().encode().as_bytes());
    let before = txn.get(&key);
    let change = |txn: &mut DriverTxn, record: FileOverride, hidden: bool| {
        set_override(txn, false, "hosted", "flask", "a.whl", None, Some(&DecodedOverride::Record(record)), &OverrideMutation::Hidden(hidden), 5)
            .unwrap_or_else(|error| panic!("{}", error.message()))
            .0
    };
    assert!(change(&mut txn, yanked(), true));
    assert_eq!(txn.get(&key).map(|raw| text(&raw)), Some("{\"hidden\":true,\"yanked\":\"bad\"}".to_owned()));
    let hidden = || FileOverride { hidden: true, yanked: Yanked::Reason("bad".to_owned()) };
    assert!(!change(&mut txn, hidden(), true));
    assert!(change(&mut txn, hidden(), false));
    assert_eq!(txn.get(&key), before);
}

#[test]
fn a_page_put_again_has_its_own_freshness() {
    let record = |fetched_at_unix, body: &[u8]| CachedIndex {
        etag: None,
        last_serial: None,
        fetched_at_unix,
        content_type: None,
        fresh_secs: Some(1),
        body: body.to_vec(),
    };
    let header = |fetched_at_unix| {
        DecodedPage::Header(RecordHeader {
            etag: None,
            last_serial: None,
            fetched_at_unix,
            content_type: None,
            fresh_secs: Some(1),
        })
    };
    let mut txn = empty();
    put_index(&mut txn, "root/flask", &record(10, b"one"));
    touch_index_freshness(&mut txn, "root/flask", 20, Some(60));
    put_index(&mut txn, "root/flask", &record(30, b"two"));
    match get_index(&txn, "root/flask", header(30), None) {
        StoredPage::Page(page) => {
            assert_eq!((page.fetched_at_unix, page.fresh_secs, page.body.as_slice()), (30, Some(1), &b"two"[..]));
        }
        _ => panic!("a page"),
    }
}

#[test]
fn raw_records_are_judged_by_their_members() {
    let newer = FileOverride::decode_raw(None, b"{\"hidden\":true,\"held\":1,\"yanked\":false}");
    assert!(matches!(&newer, DecodedOverride::Newer(field) if field == "held"));
    assert!(matches!(FileOverride::decode_raw(None, b"{\"hidden\":7}"), DecodedOverride::Damaged));
    assert!(matches!(FileOverride::decode_raw(None, b"[1]"), DecodedOverride::Damaged));
    assert!(matches!(FileOverride::decode_raw(None, b"{\"held\""), DecodedOverride::Damaged));
    assert!(matches!(FileOverride::decode_raw(Some(FileOverride::default()), b"{}"), DecodedOverride::Record(_)));
    let entry = || JournalEntry {
        serial: 1,
        submitted_at_unix: 2,
        action: "add-file".to_owned(),
        project: "flask".to_owned(),
        version: None,
        filename: None,
        python: None,
    };
    assert!(matches!(JournalEntry::decode_raw(b"{\"oci-op\":\"x\"}", None), DecodedRecord::Foreign));
    assert!(matches!(JournalEntry::decode_raw(b"{\"pypi-op\":\"journal-entry\"}", None), DecodedRecord::Damaged));
    assert!(matches!(JournalEntry::decode_raw(b"{\"pypi-op\":\"x\"}", Some(entry())), DecodedRecord::Entry(found) if found.serial == 1));
    assert!(matches!(JournalEntry::decode_raw(b"no object", Some(entry())), DecodedRecord::Damaged));
}

#[test]
fn control_characters_are_escaped_in_stored_text() {
    let record = FileOverride { hidden: false, yanked: Yanked::Reason("a\"b\\\n\t\r\u{8}\u{c}\u{1f}\u{7f}\u{e9}/".to_owned()) };
    assert_eq!(
        record.encode(),
        "{\"hidden\":false,\"yanked\":\"a\\\"b\\\\\\n\\t\\r\\b\\f\\u001f\u{7f}\u{e9}/\"}",
    );
}

#[test]
fn blanks_are_those_of_unicode() {
    assert_eq!(trim("\u{2003}\u{85} x\u{a0}y \u{3000}\u{1680}\t"), "x\u{a0}y");
    assert_eq!(trim("\u{200b}x\u{feff}"), "\u{200b}x\u{feff}");
}

#[test]
fn a_publication_that_fails_leaves_nothing() {
    let record = upload("1", "2024-01-01T00:00:00Z", 3);
    let mut txn = empty();
    txn.write_row(RowScope::Replicated, &count_key("hosted"), b"damaged");
    assert!(publish_file_in_txn(&mut txn, true, &published(&record), Guard::Commit, Some(b"event".to_vec())).is_err());
    assert!(put_project_row(&mut txn, "hosted", "flask", "Flask").is_err());
    assert!(put_upload_row(&mut txn, "hosted", "flask", "x-1.whl", &record).is_err());
    assert!(get_upload(&txn, "hosted", "flask", "x-1.whl").is_none());
    assert!(get_project(&txn, "hosted", "flask").is_none());
    assert_eq!(txn.into_writes().len(), 1);
}
