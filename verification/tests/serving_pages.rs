use peryx_ecosystem_pypi::collections::TextMap;
use peryx_ecosystem_pypi::search::scope::{IndexEntry, IndexKind};
use peryx_ecosystem_pypi::serving::access::Denial;
use peryx_ecosystem_pypi::serving::browse::{
    archive_listing_page, archive_member_page, archive_url, browse_url, metadata_sections, project_browse_page,
    project_list_page, ArchiveMember, ArchivePlace, BrowseQuery, MemberText, PlacementLabels,
};
use peryx_ecosystem_pypi::serving::page_model::{BrowsePage, BrowseSection, UiActionMethod};
use peryx_ecosystem_pypi::serving::project_view::{
    apply_actions, apply_placement, artifact_error, artifact_in_project, collect_hosted_filenames, default_version,
    install_command, metadata_file, metadata_sibling_of, mutation_endpoint, provenance_detail, resolve_file_placement,
    shell_quote, ArtifactPlacement, ArtifactSource, AttestationView, ByteAvailability, EncodedProject, FileView,
    LifecycleView, MetadataBlock, MetadataView, ProjectView, ProvenanceSource, ReleaseView, RenderedDescription,
    StatusView, SubjectMatch,
};
use peryx_ecosystem_pypi::serving::web::{
    browse_response, browse_route, browsed_index, detail_failure, escape, metadata_fetch_failure, metadata_parse_failure,
    upload_page, BrowseOutcome, BrowseRoute, OfferedIndex,
};

const DIGEST: &str = "0123456789abcdef0123456789abcdef0123456789abcdef0123456789abcdef";

fn query(raw: &str) -> BrowseQuery {
    BrowseQuery::parse(raw).unwrap_or_else(|message| panic!("{message}"))
}

fn labels() -> PlacementLabels {
    let text = |value: &str| value.to_owned();
    PlacementLabels {
        hosted: text("hosted"),
        proxy: text("proxy"),
        generated: text("generated"),
        local: text("local"),
        remote_only: text("remote"),
        unavailable: text("gone"),
    }
}

fn file(filename: &str, release: Option<&str>) -> FileView {
    FileView {
        filename: filename.to_owned(),
        sha256: DIGEST.to_owned(),
        release: release.map(str::to_owned),
        size: Some(12),
        upload_time: None,
        placement: ArtifactPlacement { source: ArtifactSource::Proxy, availability: ByteAvailability::RemoteOnly },
        upstream: Some("https://up".to_owned()),
        lifecycle: None,
        has_metadata: true,
        provenance_detail: None,
        browsable: true,
    }
}

fn release(version: &str, yanked: bool) -> ReleaseView {
    ReleaseView {
        version: version.to_owned(),
        lifecycle: if yanked {
            Some(LifecycleView { label: "yanked".to_owned(), reasons: vec!["a".to_owned(), "b".to_owned()] })
        } else {
            None
        },
        actions: Vec::new(),
    }
}

fn project(files: Vec<FileView>) -> ProjectView {
    ProjectView {
        name: "Flask".to_owned(),
        status: Some(StatusView { marker: "archived".to_owned(), reason: None }),
        versions: vec![release("1", true), release("2", false)],
        files,
        client_command: None,
        actions: Vec::new(),
    }
}

fn silent_metadata() -> MetadataView {
    MetadataView { version: Some("2".to_owned()), summary: None, description: None, blocks: Vec::new() }
}

fn rows(page: &BrowsePage, heading: &str) -> Vec<Vec<String>> {
    page.sections
        .iter()
        .find_map(|section| match section {
            BrowseSection::Table { heading: own, rows, .. } if own == heading => {
                Some(rows.iter().map(|row| row.cells.iter().map(|cell| cell.text.clone()).collect()).collect())
            }
            _ => None,
        })
        .unwrap_or_else(|| panic!("a table"))
}

#[test]
fn browse_queries_need_an_index() {
    let read = query("index=root&project=Flask&version=&filename=x&container=a&container=b&member=m&offset=7");
    assert_eq!((read.index.as_str(), read.project.as_deref(), read.version.as_deref()), ("root", Some("Flask"), None));
    assert_eq!((read.containers.len(), read.member.as_deref(), read.offset), (2, Some("m"), 7));
    assert_eq!(BrowseQuery::parse("project=x").err(), Some("missing index".to_owned()));
    assert_eq!(BrowseQuery::parse("index=a&offset=x").err(), Some("invalid archive offset \"x\"".to_owned()));
    assert_eq!(BrowseQuery::of_pairs(&vec![("index".to_owned(), "r".to_owned())]).map(|query| query.index), Ok("r".to_owned()));
}

#[test]
fn an_archive_is_addressed_in_either_form() {
    let addressed = |raw: &str| query(raw).archive();
    assert_eq!(addressed("index=a&sha256=aa&file=x"), Ok(Some(("aa".to_owned(), "x".to_owned()))));
    assert_eq!(addressed("index=a&file=aa/x/y"), Ok(Some(("aa".to_owned(), "x/y".to_owned()))));
    assert_eq!(addressed("index=a&file=x"), Err("archive query requires sha256".to_owned()));
    assert_eq!(addressed("index=a&sha256=aa"), Err("archive query requires file".to_owned()));
    assert_eq!(addressed("index=a&member=m"), Err("archive query requires file and sha256".to_owned()));
    assert_eq!(addressed("index=a"), Ok(None));
}

#[test]
fn archive_links_lead_back() {
    let containers = vec!["inner &.zip".to_owned(), "é+/x".to_owned()];
    let link = archive_url("root/pypi", &containers, 2, "Flask", DIGEST, "a b.whl", Some(("m=1", false)), Some(9));
    let raw = link.strip_prefix("/browse?").unwrap_or_else(|| panic!("a browse link"));
    let read = query(raw);
    assert_eq!(read.index, "root/pypi");
    assert_eq!(read.project.as_deref(), Some("Flask"));
    assert_eq!(read.archive(), Ok(Some((DIGEST.to_owned(), "a b.whl".to_owned()))));
    assert_eq!(read.containers, containers);
    assert_eq!((read.member.as_deref(), read.offset), (Some("m=1"), 9));
    assert_eq!(browse_url("a b", Some("x"), Some("1+2")), "/browse?index=a+b&project=x&version=1%2B2");
}

#[test]
fn a_list_page_links_its_projects() {
    let page = project_list_page("root", &vec!["Flask".to_owned()]);
    assert_eq!(page.title, "root");
    match &page.sections[0] {
        BrowseSection::Links { links, .. } => assert_eq!((links[0].label.as_str(), links[0].href.as_str()), ("Flask", "/browse?index=root&project=Flask")),
        _ => panic!("links"),
    }
}

#[test]
fn a_project_page_narrows_its_files() {
    let files = || vec![file("flask-1.whl", Some("1")), file("Flask-2.whl", Some("2"))];
    let shown = |raw: &str| {
        let page = project_browse_page(&query(raw), &project(files()), &silent_metadata(), &labels()).unwrap_or_else(|message| panic!("{message}"));
        rows(&page, "Files").iter().map(|row| row[0].clone()).collect::<Vec<_>>()
    };
    assert_eq!(shown("index=r&project=f"), vec!["flask-1.whl", "Flask-2.whl"]);
    assert_eq!(shown("index=r&project=f&version=2"), vec!["Flask-2.whl"]);
    assert_eq!(shown("index=r&project=f&filename=FLASK-1"), vec!["flask-1.whl"]);
    assert_eq!(shown("index=r&project=f&filename=%5EF.*2&filename_match=regex"), vec!["Flask-2.whl"]);
    let broken = project_browse_page(&query("index=r&filename=(&filename_match=regex"), &project(files()), &silent_metadata(), &labels());
    assert!(broken.err().is_some_and(|message| message.starts_with("invalid regex: ")));
}

#[test]
fn a_project_page_shows_its_releases_and_badges() {
    let mut attested = file("flask-1.whl", Some("1"));
    attested.provenance_detail = provenance_detail(true, true, Some(vec![
        AttestationView { predicate_type: Some("p".to_owned()), subject: SubjectMatch::Matched },
        AttestationView { predicate_type: None, subject: SubjectMatch::Unknown },
    ]));
    let page = project_browse_page(&query("index=r"), &project(vec![attested]), &silent_metadata(), &labels()).unwrap_or_else(|message| panic!("{message}"));
    assert_eq!(rows(&page, "Releases"), vec![vec!["1".to_owned(), "yanked".to_owned()], vec!["2".to_owned(), "active".to_owned()]]);
    assert_eq!(rows(&page, "Files")[0], vec!["flask-1.whl", "1", "12", "", "proxy", "remote"]);
    assert_eq!((page.badges[0].label.as_str(), page.badges[0].class.as_str()), ("archived", "status-archived"));
    match &page.sections[1] {
        BrowseSection::Table { rows, .. } => {
            let badge = &rows[0].badges[0];
            assert_eq!((badge.label.as_str(), badge.class.as_str(), badge.hint.as_deref()), ("hosted provenance", "provenance-valid", Some("p: matched; unknown")));
        }
        _ => panic!("a table"),
    }
    match &page.sections[0] {
        BrowseSection::Table { rows, .. } => assert_eq!(rows[0].badges[0].hint.as_deref(), Some("a; b")),
        _ => panic!("a table"),
    }
}

#[test]
fn metadata_blocks_become_sections() {
    let text = |value: &str| value.to_owned();
    let description = Some(RenderedDescription { html: text("<p>"), notice: None });
    let blocks = vec![
        MetadataBlock::KeyValue { label: text("License"), value: text("MIT") },
        MetadataBlock::Chips { label: text("Tags"), values: vec![text("a"), text("b")] },
        MetadataBlock::Links { label: text("Links"), links: vec![(text("Home"), text("https://h"))] },
        MetadataBlock::Groups { label: text("Extras"), groups: vec![(text("dev"), vec![text("x"), text("y")])] },
    ];
    let sections = metadata_sections(&description, &blocks);
    assert_eq!(sections.len(), 5);
    assert!(matches!(&sections[0], BrowseSection::Markup { heading, .. } if heading == "Description"));
    assert!(matches!(&sections[2], BrowseSection::Properties { properties, .. } if properties.len() == 2 && properties[1].label == "Tags" && properties[1].value == "b"));
    assert!(matches!(&sections[3], BrowseSection::Links { links, .. } if links[0].href == "https://h"));
    assert!(matches!(&sections[4], BrowseSection::Properties { properties, .. } if properties[0].value == "x, y"));
}

fn place() -> ArchivePlace {
    ArchivePlace { project: "Flask".to_owned(), digest: DIGEST.to_owned(), filename: "a.whl".to_owned() }
}

#[test]
fn an_archive_page_lists_its_members() {
    let member = |path: &str, kind: &str, previewable| ArchiveMember { path: path.to_owned(), size: 3, kind: kind.to_owned(), previewable };
    let page = archive_listing_page(&query("index=r&container=c.zip"), &place(), &vec![member("n.zip", "archive", false), member("t.txt", "file", true), member("b.so", "file", false)]);
    assert_eq!(page.title, "c.zip");
    assert_eq!(page.breadcrumbs.iter().map(|link| link.label.as_str()).collect::<Vec<_>>(), vec!["r", "Flask", "a.whl", "c.zip"]);
    match &page.sections[0] {
        BrowseSection::Table { rows, .. } => {
            let hrefs: Vec<_> = rows.iter().map(|row| row.cells[0].href.clone()).collect();
            assert!(hrefs[0].as_ref().is_some_and(|href| href.ends_with("&container=c.zip&container=n.zip")));
            assert!(hrefs[1].as_ref().is_some_and(|href| href.ends_with("&container=c.zip&member=t.txt")));
            assert_eq!(hrefs[2], None);
        }
        _ => panic!("a table"),
    }
    let chunk = MemberText { text: "hello".to_owned(), size: 10, offset: 0, next_offset: Some(5) };
    let page = archive_member_page(&query("index=r"), &place(), "t.txt", &chunk);
    match &page.sections[0] {
        BrowseSection::Content { text, next: Some(next), .. } => {
            assert_eq!(text, "hello");
            assert!(next.href.ends_with("&member=t.txt&offset=5"));
        }
        _ => panic!("content"),
    }
}

#[test]
fn hosted_files_are_local_until_their_own_record_says_otherwise() {
    let placed = |source, availability| Some(ArtifactPlacement { source, availability });
    assert_eq!(resolve_file_placement(true, None).availability, ByteAvailability::Local);
    assert_eq!(resolve_file_placement(true, placed(ArtifactSource::Proxy, ByteAvailability::Unavailable)).availability, ByteAvailability::Local);
    assert_eq!(resolve_file_placement(true, placed(ArtifactSource::Hosted, ByteAvailability::Unavailable)).availability, ByteAvailability::Unavailable);
    assert_eq!(resolve_file_placement(false, None).source, ArtifactSource::Proxy);
    let mut view = file("a", None);
    apply_placement(&mut view, true, None, Some("https://up".to_owned()));
    assert_eq!((view.placement.source, view.upstream), (ArtifactSource::Hosted, None));
    assert!(provenance_detail(false, true, None).is_none());
    let mirrored = provenance_detail(true, false, None).unwrap_or_else(|| panic!("a panel"));
    assert_eq!((mirrored.source, mirrored.malformed), (ProvenanceSource::Mirrored, false));
    let damaged = provenance_detail(true, true, None).unwrap_or_else(|| panic!("a panel"));
    assert!(damaged.malformed);
}

#[test]
fn the_first_layer_owns_a_filename() {
    let entry = |name: &str, kind| IndexEntry { name: name.to_owned(), kind };
    let indexes = vec![
        entry("a", IndexKind::Hosted),
        entry("b", IndexKind::Hosted),
        entry("c", IndexKind::Cached),
        entry("v", IndexKind::Virtual { layers: vec![1, 2, 0], write_target: None }),
    ];
    let uploads = vec![vec!["x".to_owned(), "y".to_owned()], vec!["x".to_owned()], vec!["z".to_owned()], Vec::new()];
    let mut names = TextMap::new();
    collect_hosted_filenames(&indexes, &uploads, 3, &mut names);
    assert_eq!(names.get("x").map(String::as_str), Some("b"));
    assert_eq!(names.get("y").map(String::as_str), Some("a"));
    assert!(names.get("z").is_none());
}

#[test]
fn the_default_release_is_the_newest_active_stable_one() {
    let pick = |releases: Vec<ReleaseView>| default_version(&releases);
    assert_eq!(pick(vec![release("3.0", true), release("2.0rc1", false), release("1.10", false), release("1.9", false)]), Some("1.10".to_owned()));
    assert_eq!(pick(vec![release("3.0", true), release("2.0rc1", false)]), Some("2.0rc1".to_owned()));
    assert_eq!(pick(vec![release("odd", false), release("1.0", true)]), Some("odd".to_owned()));
    assert_eq!(pick(vec![release("bbb", true), release("aaa", true), release("0.1", true)]), Some("0.1".to_owned()));
    assert_eq!(pick(Vec::new()), None);
}

#[test]
fn a_release_is_described_by_one_sibling() {
    let mut yanked = file("a.whl", Some("1"));
    yanked.lifecycle = Some(LifecycleView { label: "yanked".to_owned(), reasons: Vec::new() });
    let files = vec![yanked, file("c.whl", Some("1")), file("b.whl", Some("1")), file("aa.whl", Some("2"))];
    assert_eq!(metadata_file(&files, &vec![true, true, true, false]), Some(2));
    assert_eq!(metadata_file(&files, &vec![true, false, false, false]), Some(0));
    assert_eq!(metadata_file(&files, &vec![false, false, false, false]), None);
    assert_eq!(metadata_sibling_of(&files, false, &vec![false; 4]), Some(3));
    let mut broken = file("x.whl", None);
    broken.sha256 = "short".to_owned();
    assert_eq!(metadata_sibling_of(&vec![broken], true, &vec![true]), None);
}

#[test]
fn commands_are_quoted_for_a_shell() {
    assert_eq!(install_command("root/pypi", "flask", Some("1.0")), "uv pip install --index-url <origin>/root/pypi/simple/ flask==1.0");
    assert_eq!(install_command("root", "flask", Some("1!2")), "uv pip install --index-url <origin>/root/simple/ 'flask==1!2'");
    assert_eq!(shell_quote("it's"), "'it'\\''s'");
    assert_eq!(shell_quote(""), "");
    assert_eq!(mutation_endpoint("root", "flask", Some("1"), Some("yank")), "/root/flask/1/yank");
    assert_eq!(mutation_endpoint("root", "flask", None, None), "/root/flask/");
    let encoded = EncodedProject { route_path: "root".to_owned(), project: "flask".to_owned(), versions: vec!["1".to_owned(), "2".to_owned()] };
    let shown = apply_actions(&encoded, project(Vec::new()));
    assert_eq!(shown.actions[0].endpoint, "/root/flask/");
    assert_eq!(shown.versions[1].actions.iter().map(|action| action.endpoint.as_str()).collect::<Vec<_>>(), vec!["/root/flask/2/yank", "/root/flask/2/yank", "/root/flask/2/"]);
    assert_eq!(shown.versions[1].actions[1].method, UiActionMethod::Delete);
}

#[test]
fn the_browser_reaches_only_the_project_it_may_read() {
    assert!(artifact_in_project("r", "a.whl", DIGEST, "flask", "flask", "gone").is_ok());
    assert_eq!(
        artifact_in_project("r", "a.whl", DIGEST, "flask", "numpy", "gone"),
        Err(artifact_error("r", "a.whl", DIGEST, "gone")),
    );
    assert_eq!(
        artifact_in_project("r", "a.whl", "short", "flask", "flask", "gone"),
        Err("artifact on index \"r\" for file \"a.whl\": invalid sha256 digest \"short\"".to_owned()),
    );
}

fn offered(route: &str, of_ecosystem: bool, uploads: bool) -> OfferedIndex {
    OfferedIndex { route: route.to_owned(), name: "<b>\"n\"</b>".to_owned(), of_ecosystem, uploads }
}

#[test]
fn the_upload_page_offers_what_takes_uploads() {
    let page = upload_page(&vec![offered("a", true, false), offered("b", true, true), offered("c", false, true)]);
    assert!(page.body.contains("<option value=\"/b/\">&lt;b&gt;&quot;n&quot;&lt;/b&gt; (b)</option>"));
    assert!(!page.body.contains("value=\"/a/\"") && !page.body.contains("value=\"/c/\""));
    assert!(page.body.starts_with("<!doctype html>") && page.body.ends_with("</html>"));
    assert_eq!(escape("&<>\"'"), "&amp;&lt;&gt;&quot;&#39;");
}

#[test]
fn browse_replies_follow_their_outcome() {
    assert!(matches!(browse_route("/upload", true), BrowseRoute::UploadPage));
    assert!(matches!(browse_route("/upload", false), BrowseRoute::Answer(answer) if answer.status == 405));
    assert!(matches!(browse_route("/+ui/browse", false), BrowseRoute::Browse));
    assert_eq!(browsed_index(&vec![offered("a", false, true), offered("a", true, true)], "a"), Some(1));
    assert_eq!(browsed_index(&vec![offered("a", false, true)], "a"), None);
    let page = browse_response(&BrowseOutcome::Page("{}".to_owned()));
    assert!(page.headers.contains(&("cache-control", "no-store".to_owned())));
    assert_eq!(browse_response(&BrowseOutcome::Missing).status, 404);
    assert_eq!(browse_response(&BrowseOutcome::Denied(Denial::Unauthenticated)).status, 401);
    assert_eq!(browse_response(&BrowseOutcome::Denied(Denial::Unavailable)).status, 403);
    assert_eq!(browse_response(&BrowseOutcome::Refused { content_type: "t".to_owned(), body: "b".to_owned() }).body, "b");
    assert_eq!(browse_response(&BrowseOutcome::Internal("m".to_owned())).status, 500);
    assert_eq!(detail_failure("r", "p", "m"), "project detail on index \"r\" for project \"p\": m");
    assert_eq!(metadata_fetch_failure("r", "f", "d", "m"), "metadata fetch on index \"r\" for file \"f\" with digest d: m");
    assert_eq!(metadata_parse_failure("r", "f", "m"), "metadata parse on index \"r\" for file \"f\": m");
}
