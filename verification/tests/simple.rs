use peryx_ecosystem_pypi::collections::TextMap;
use peryx_ecosystem_pypi::simple::file::{absolutize, CoreMetadata, File, Provenance, Yanked};
use peryx_ecosystem_pypi::simple::json::{detail_json, file_json, project_list_json};
use peryx_ecosystem_pypi::simple::meta::{
    served_version, validate_project_status, IncomingMeta, IncomingProjectStatus, Meta, ProjectStatus,
};
use peryx_ecosystem_pypi::simple::page::{
    finish_streamed, parse_detail, parse_index, parse_project_status, receive_file, IncomingDetail, StreamAction, StreamEvent, ProjectDetail,
    StreamedError, StreamedHeader,
};
use peryx_ecosystem_pypi::simple::SimpleError;

fn incoming(version: Option<&str>, status: Option<&str>) -> IncomingMeta {
    IncomingMeta {
        api_version: version.map(str::to_owned),
        project_status: status.map(str::to_owned),
        project_status_reason: None,
    }
}

fn hashes(pairs: &[(&str, &str)]) -> TextMap<String> {
    let mut map = TextMap::new();
    for (name, value) in pairs {
        map.insert((*name).to_owned(), (*value).to_owned());
    }
    map
}

fn plain_file(filename: &str, url: &str) -> File {
    File {
        filename: filename.to_owned(),
        url: url.to_owned(),
        hashes: hashes(&[("sha256", "ab")]),
        requires_python: Some(">=3.8".to_owned()),
        size: Some(12),
        upload_time: None,
        yanked: Yanked::Reason("bad \"build\"".to_owned()),
        core_metadata: CoreMetadata::Absent,
        dist_info_metadata: CoreMetadata::Hashes(hashes(&[("sha256", "cd")])),
        gpg_sig: Some(true),
        provenance: Provenance::Null,
    }
}

#[test]
fn an_upstream_version_is_served_as_far_as_it_promises() {
    assert!(matches!(served_version(None), Ok("1.0")));
    assert!(matches!(served_version(Some("1.0")), Ok("1.0")));
    assert!(matches!(served_version(Some("1.1")), Ok("1.4")));
    assert!(matches!(served_version(Some("1.99")), Ok("1.4")));
    assert!(matches!(served_version(Some("2.0")), Err(SimpleError::UnsupportedApiVersion(text)) if text == "2.0"));
    assert!(matches!(served_version(Some("2.x")), Err(SimpleError::UnsupportedApiVersion(_))));
    assert!(matches!(served_version(Some("1")), Err(SimpleError::InvalidApiVersion(_))));
    assert!(matches!(served_version(Some("1.x")), Err(SimpleError::InvalidApiVersion(_))));
}

#[test]
fn statuses_are_named_by_their_markers() {
    for status in [ProjectStatus::Active, ProjectStatus::Archived, ProjectStatus::Quarantined, ProjectStatus::Deprecated] {
        assert_eq!(ProjectStatus::from_marker(status.marker()), Some(status));
        assert!(validate_project_status(status.marker()).is_ok());
    }
    assert!(matches!(validate_project_status("gone"), Err(SimpleError::InvalidProjectStatus(text)) if text == "gone"));
    assert!(ProjectStatus::Quarantined.severity() > ProjectStatus::Archived.severity());
    assert!(!ProjectStatus::Quarantined.offers_downloads());
    assert!(ProjectStatus::Archived.offers_downloads());
    assert!(!ProjectStatus::Archived.allows_uploads());
}

#[test]
fn a_status_object_wins_over_the_meta() {
    let object = IncomingProjectStatus { status: Some("quarantined".to_owned()), reason: Some("malware".to_owned()) };
    let meta = incoming(Some("1.4"), Some("archived")).into_detail_meta(Some(object)).unwrap_or_else(|_| panic!("a status"));
    assert_eq!(meta.status(), ProjectStatus::Quarantined);
    assert_eq!(meta.project_status_reason.as_deref(), Some("malware"));
    let meta = incoming(Some("1.4"), Some("archived")).into_detail_meta(None).unwrap_or_else(|_| panic!("a status"));
    assert_eq!(meta.status(), ProjectStatus::Archived);
    assert!(meta.promises_pep700());
    assert!(!incoming(None, None).into_meta().unwrap_or_else(|_| panic!("a meta")).promises_pep700());
    assert!(parse_project_status(IncomingProjectStatus { status: Some("odd".to_owned()), reason: None }).is_err());
}

#[test]
fn a_file_advertises_one_metadata_under_two_names() {
    let mut file = plain_file("x-1-py3-none-any.whl", "https://h/x");
    assert!(matches!(file.metadata(), CoreMetadata::Hashes(map) if map.get("sha256").map(String::as_str) == Some("cd")));
    assert_eq!(file.sha256(), Some("ab"));
    file.set_metadata(CoreMetadata::Available);
    assert!(matches!(file.core_metadata, CoreMetadata::Available));
    assert!(matches!(file.dist_info_metadata, CoreMetadata::Available));
    file.clear_metadata();
    assert!(file.metadata().is_absent());
}

#[test]
fn provenance_needs_a_secure_address() {
    for kept in ["https://files.example/p", "http://localhost/p", "http://127.0.0.1:8080/p", "http://[::1]/p"] {
        let mut provenance = Provenance::Url(kept.to_owned());
        provenance.retain_secure_url();
        assert_eq!(provenance.secure_url(), Some(kept));
    }
    for dropped in ["http://files.example/p", "https://user@files.example/p", "/p", "ftp://files.example/p"] {
        let mut provenance = Provenance::Url(dropped.to_owned());
        assert_eq!(provenance.secure_url(), None);
        provenance.retain_secure_url();
        assert!(matches!(provenance, Provenance::Absent));
    }
    let mut null = Provenance::Null;
    null.retain_secure_url();
    assert!(matches!(null, Provenance::Null));
}

#[test]
fn relative_addresses_are_resolved() {
    let resolve = |url: &str| {
        let mut text = url.to_owned();
        absolutize("https://pypi.example/simple/flask/", &mut text);
        text
    };
    assert_eq!(resolve("../../files/a.whl"), "https://pypi.example/files/a.whl");
    assert_eq!(resolve("//cdn.example/a.whl"), "https://cdn.example/a.whl");
    assert_eq!(resolve("https://h/a.whl"), "https://h/a.whl");
    let mut text = "a.whl".to_owned();
    absolutize("not a base", &mut text);
    assert_eq!(text, "a.whl");
    let mut relative = plain_file("a.whl", "a.whl");
    relative.provenance = Provenance::Url("a.whl.provenance".to_owned());
    let received = receive_file("https://pypi.example/simple/flask/", relative);
    assert_eq!(received.url, "https://pypi.example/simple/flask/a.whl");
}

#[test]
fn a_file_is_written_as_an_object() {
    assert_eq!(
        file_json(&plain_file("x-1.whl", "https://h/x")),
        concat_text(&[
            "{\"filename\":\"x-1.whl\",\"url\":\"https://h/x\",\"hashes\":{\"sha256\":\"ab\"},",
            "\"requires-python\":\">=3.8\",\"size\":12,\"yanked\":\"bad \\\"build\\\"\",",
            "\"core-metadata\":{\"sha256\":\"cd\"},\"dist-info-metadata\":{\"sha256\":\"cd\"},",
            "\"gpg-sig\":true,\"provenance\":null}",
        ]),
    );
}

fn concat_text(parts: &[&str]) -> String {
    parts.concat()
}

#[test]
fn a_page_is_written_as_an_object() {
    let page = ProjectDetail {
        meta: Meta { api_version: "1.4", project_status: Some("archived".to_owned()), project_status_reason: None },
        name: "x".to_owned(),
        versions: vec!["1".to_owned(), "2".to_owned()],
        files: Vec::new(),
    };
    assert_eq!(
        detail_json(&page),
        "{\"meta\":{\"api-version\":\"1.4\"},\"project-status\":{\"status\":\"archived\"},\"name\":\"x\",\"versions\":[\"1\",\"2\"],\"files\":[]}",
    );
    let list = parse_index(incoming(None, None), vec!["a".to_owned(), "b".to_owned()]).unwrap_or_else(|_| panic!("a list"));
    assert_eq!(project_list_json(&list), "{\"meta\":{\"api-version\":\"1.0\"},\"projects\":[{\"name\":\"a\"},{\"name\":\"b\"}]}");
}

#[test]
fn a_page_is_read_as_far_as_its_version_can_be_served() {
    let page = IncomingDetail {
        meta: incoming(Some("1.1"), None),
        project_status: None,
        name: "x".to_owned(),
        versions: vec!["1".to_owned()],
        files: vec![plain_file("x-1.whl", "https://h/x")],
    };
    let parsed = parse_detail(page).unwrap_or_else(|_| panic!("a page"));
    assert_eq!(parsed.meta.api_version, "1.4");
    assert_eq!(parsed.files.len(), 1);
    let refused = IncomingDetail {
        meta: incoming(Some("9.0"), None),
        project_status: None,
        name: "x".to_owned(),
        versions: Vec::new(),
        files: Vec::new(),
    };
    assert!(matches!(parse_detail(refused), Err(SimpleError::UnsupportedApiVersion(_))));
}

#[test]
fn a_streamed_page_needs_its_members() {
    let header = |meta: bool, name: Option<&str>, files: bool| StreamedHeader {
        meta: if meta { Some(incoming(Some("1.0"), None)) } else { None },
        project_status: None,
        name: name.map(str::to_owned),
        versions: vec!["1".to_owned()],
        files,
    };
    assert!(matches!(finish_streamed(header(false, Some("x"), true)), Err(StreamedError::MissingField("meta"))));
    assert!(matches!(finish_streamed(header(true, None, true)), Err(StreamedError::MissingField("name"))));
    assert!(matches!(finish_streamed(header(true, Some("x"), false)), Err(StreamedError::MissingField("files"))));
    let done = finish_streamed(header(true, Some("x"), true)).unwrap_or_else(|_| panic!("a page"));
    assert_eq!((done.name.as_str(), done.versions.len()), ("x", 1));
}

#[test]
fn streaming_a_page_agrees_with_parsing_it() {
    for (version, status) in [(Some("1.1"), None), (Some("1.4"), Some("archived")), (Some("1.4"), Some("odd")), (Some("9.0"), None)] {
        let whole = parse_detail(IncomingDetail {
            meta: incoming(version, status),
            project_status: None,
            name: "x".to_owned(),
            versions: vec!["1".to_owned()],
            files: Vec::new(),
        });
        let streamed = finish_streamed(StreamedHeader {
            meta: Some(incoming(version, status)),
            project_status: None,
            name: Some("x".to_owned()),
            versions: vec!["1".to_owned()],
            files: true,
        });
        match (whole, streamed) {
            (Ok(parsed), Ok(header)) => {
                assert_eq!(parsed.meta.api_version, header.meta.api_version);
                assert_eq!(parsed.meta.project_status, header.meta.project_status);
                assert_eq!((parsed.name, parsed.versions), (header.name, header.versions));
            }
            (Err(error), Err(StreamedError::Simple(other))) => assert_eq!(format!("{error:?}"), format!("{other:?}")),
            _ => panic!("they agree"),
        }
    }
}

#[test]
fn a_streamed_page_hands_every_file_over_once_and_in_order() {
    let base = "https://pypi.example/simple/flask/";
    let mut header = StreamedHeader::new();
    let mut taken: Vec<(String, String)> = Vec::new();
    assert!(matches!(header.step(base, StreamEvent::Meta(incoming(Some("1.1"), None))), StreamAction::NextMember));
    assert!(matches!(header.step(base, StreamEvent::Other), StreamAction::NextMember));
    assert!(matches!(header.step(base, StreamEvent::FilesOpened), StreamAction::NextFile));
    for (name, url) in [("b.whl", "../b.whl"), ("a.whl", "https://h/a.whl")] {
        match header.step(base, StreamEvent::FileDecoded(plain_file(name, url))) {
            StreamAction::Hand(file) => taken.push((file.filename.clone(), file.url.clone())),
            _ => panic!("a file to hand over"),
        }
        assert!(matches!(header.step(base, StreamEvent::Taken(Ok(()))), StreamAction::NextFile));
    }
    assert!(matches!(header.step(base, StreamEvent::FilesClosed), StreamAction::NextMember));
    assert!(matches!(header.step(base, StreamEvent::Versions(vec!["1".to_owned()])), StreamAction::NextMember));
    assert!(matches!(header.step(base, StreamEvent::Name("flask".to_owned())), StreamAction::NextMember));
    match header.step(base, StreamEvent::Ended) {
        StreamAction::Done(Ok(done)) => assert_eq!((done.meta.api_version, done.name.as_str(), done.versions.len()), ("1.4", "flask", 1)),
        _ => panic!("a page"),
    }
    let expected = vec![
        ("b.whl".to_owned(), "https://pypi.example/simple/b.whl".to_owned()),
        ("a.whl".to_owned(), "https://h/a.whl".to_owned()),
    ];
    assert_eq!(taken, expected);
}

#[test]
fn a_sink_that_refuses_a_file_ends_the_page() {
    let mut header = StreamedHeader::new();
    assert!(matches!(header.step("https://h/", StreamEvent::FileDecoded(plain_file("a", "u"))), StreamAction::Hand(_)));
    assert!(matches!(header.step("https://h/", StreamEvent::Taken(Err("full".to_owned()))), StreamAction::Fail(message) if message == "full"));
    assert!(matches!(
        header.step("https://h/", StreamEvent::Ended),
        StreamAction::Done(Err(StreamedError::MissingField("files"))),
    ));
}
