use peryx_ecosystem_pypi::collections::{TextMap, TextSet};
use peryx_ecosystem_pypi::distribution::{DistributionFilename, DistributionKind};
use peryx_ecosystem_pypi::policy_engine::{FileFacts, Policy};
use peryx_ecosystem_pypi::simple::file::{CoreMetadata, File, Provenance, Yanked};
use peryx_ecosystem_pypi::simple::meta::{IncomingMeta, IncomingProjectStatus};
use peryx_ecosystem_pypi::simple::SimpleError;
use peryx_ecosystem_pypi::stream::context::page_context;
use peryx_ecosystem_pypi::stream::transformer::{
    metadata_sibling, supports_metadata_sibling, Element, PageTransformer,
};
use peryx_ecosystem_pypi::stream::types::{LocalFile, PageContext, PageSummary, TransformError, UpstreamFacts};
use peryx_ecosystem_pypi::stream::validator::JsonValidator;
use peryx_ecosystem_pypi::store::overrides::FileOverride;

const DIGEST: &str = "0123456789abcdef0123456789abcdef0123456789abcdef0123456789abcdef";

fn open_policy() -> Policy {
    Policy {
        active: false,
        max_resource_size: None,
        owner_settings: Vec::new(),
        resource_rules: Vec::new(),
        artifact_rules: Vec::new(),
    }
}

fn context() -> PageContext {
    PageContext {
        route: "root/pypi".to_owned(),
        base: Some("https://pypi.example/simple/flask/".to_owned()),
        project: "flask".to_owned(),
        policy: open_policy(),
        local_files: Vec::new(),
        local_versions: Vec::new(),
        skip: TextSet::new(),
        hidden: TextSet::new(),
        yanked: TextMap::new(),
        known_metadata: TextMap::new(),
    }
}

fn facts(version: &str) -> FileFacts {
    FileFacts {
        parsed: Some(DistributionFilename {
            normalized_name: "flask".to_owned(),
            version: version.to_owned(),
            kind: DistributionKind::Wheel,
            python_tag: Some("py3".to_owned()),
            platform_tag: Some("any".to_owned()),
        }),
        refusal: None,
    }
}

fn file(filename: &str, url: &str, digest: Option<&str>) -> File {
    let mut hashes = TextMap::new();
    if let Some(digest) = digest {
        hashes.insert("sha256".to_owned(), digest.to_owned());
    }
    File {
        filename: filename.to_owned(),
        url: url.to_owned(),
        hashes,
        requires_python: None,
        size: Some(1),
        upload_time: None,
        yanked: Yanked::No,
        core_metadata: CoreMetadata::Absent,
        dist_info_metadata: CoreMetadata::Absent,
        gpg_sig: None,
        provenance: Provenance::Absent,
    }
}

fn text_of(value: &serde_json::Value, name: &str) -> Option<String> {
    value.get(name).and_then(|member| member.as_str()).map(str::to_owned)
}

fn decoded_file(value: &serde_json::Value) -> File {
    file(
        &text_of(value, "filename").unwrap_or_default(),
        &text_of(value, "url").unwrap_or_default(),
        value.get("hashes").and_then(|hashes| hashes.get("sha256")).and_then(|digest| digest.as_str()),
    )
}

/// Drive a page through the transformer in chunks of the given size.
fn transform(context: PageContext, page: &str, step: usize) -> Result<(String, PageSummary), TransformError> {
    let mut transformer = PageTransformer::new(context);
    let mut out = Vec::new();
    for chunk in page.as_bytes().chunks(step) {
        let mut rest = chunk;
        loop {
            let pushed = transformer.push_into(rest, &mut out)?;
            rest = &rest[pushed.used..];
            let Some(element) = pushed.element else { break };
            let value: serde_json::Value = match serde_json::from_slice(transformer.captured()) {
                Ok(value) => value,
                Err(_) => return Err(TransformError::Parse),
            };
            match element {
                Element::Meta => transformer.accept_meta(
                    IncomingMeta {
                        api_version: text_of(&value, "api-version"),
                        project_status: text_of(&value, "project-status"),
                        project_status_reason: text_of(&value, "project-status-reason"),
                    },
                    &mut out,
                )?,
                Element::ProjectStatus => transformer.accept_project_status(
                    IncomingProjectStatus { status: text_of(&value, "status"), reason: text_of(&value, "reason") },
                    &mut out,
                )?,
                Element::File => {
                    let file = decoded_file(&value);
                    let up = UpstreamFacts {
                        facts: facts("1"),
                        local_url: format!("/root/pypi/files/{DIGEST}/{}", file.filename),
                        local_provenance_url: format!("/root/pypi/files/{DIGEST}/{}.provenance", file.filename),
                        already_local: false,
                    };
                    transformer.accept_file(file, up, &mut out)?;
                }
                Element::Versions => panic!("versions are read by the transformer"),
            }
        }
    }
    let summary = transformer.finish()?;
    Ok((String::from_utf8(out).unwrap_or_else(|error| panic!("{error}")), summary))
}

fn page(files: &str) -> String {
    format!("{{\"meta\":{{\"api-version\":\"1.4\"}},\"name\":\"flask\",\"versions\":[\"1\"],\"files\":[{files}]}}")
}

fn one_file(filename: &str) -> String {
    format!("{{\"filename\":\"{filename}\",\"url\":\"{filename}\",\"hashes\":{{\"sha256\":\"{DIGEST}\"}},\"size\":1}}")
}

fn good(context: PageContext, page: &str, step: usize) -> (String, PageSummary) {
    match transform(context, page, step) {
        Ok(done) => done,
        Err(_) => panic!("the page is good"),
    }
}

#[test]
fn chunking_changes_nothing() {
    let page = page(&format!("{},{}", one_file("flask-1-py3-none-any.whl"), one_file("flask-2-py3-none-any.whl")));
    let (whole, _) = good(context(), &page, page.len());
    for step in [1, 2, 3, 7, 64] {
        let (chunked, _) = good(context(), &page, step);
        assert_eq!(chunked, whole);
    }
    assert!(serde_json::from_str::<serde_json::Value>(&whole).is_ok());
}

#[test]
fn files_are_readdressed_and_registered() {
    let (out, summary) = good(context(), &page(&one_file("flask-1-py3-none-any.whl")), 16);
    let value: serde_json::Value = serde_json::from_str(&out).unwrap_or_else(|error| panic!("{error}"));
    let url = value["files"][0]["url"].as_str().map(str::to_owned);
    assert_eq!(url, Some(format!("/root/pypi/files/{DIGEST}/flask-1-py3-none-any.whl")));
    assert_eq!(summary.registrations.len(), 1);
    assert_eq!(summary.registrations[0].url, "https://pypi.example/simple/flask/flask-1-py3-none-any.whl");
    assert_eq!(summary.registrations[0].sha256, DIGEST);
    assert_eq!(summary.name.as_deref(), Some("flask"));
}

#[test]
fn hidden_and_skipped_files_are_left_out() {
    let mut overrides = TextMap::new();
    overrides.insert("flask-1-py3-none-any.whl".to_owned(), FileOverride { hidden: true, yanked: Yanked::No });
    let mut limited = page_context("root/pypi", "flask", open_policy(), Vec::new(), Vec::new(), &overrides);
    limited.skip.insert("flask-2-py3-none-any.whl".to_owned());
    let page = page(&format!(
        "{},{},{}",
        one_file("flask-1-py3-none-any.whl"),
        one_file("flask-2-py3-none-any.whl"),
        one_file("flask-3-py3-none-any.whl"),
    ));
    let (out, summary) = good(limited, &page, 11);
    let value: serde_json::Value = serde_json::from_str(&out).unwrap_or_else(|error| panic!("{error}"));
    assert_eq!(value["files"].as_array().map(Vec::len), Some(1));
    assert_eq!(value["files"][0]["filename"].as_str(), Some("flask-3-py3-none-any.whl"));
    assert_eq!(summary.registrations.len(), 1);
}

#[test]
fn local_files_stand_on_the_page() {
    let mut merged = context();
    let local = file("flask-9-py3-none-any.whl", "/root/pypi/files/x/flask-9-py3-none-any.whl", Some(DIGEST));
    merged.local_files.push(LocalFile { file: local, facts: facts("9") });
    merged.local_versions.push("9".to_owned());
    let (out, _) = good(merged, &page(&one_file("flask-1-py3-none-any.whl")), 5);
    let value: serde_json::Value = serde_json::from_str(&out).unwrap_or_else(|error| panic!("{error}"));
    let names: Vec<_> = value["files"].as_array().map(|files| files.iter().filter_map(|file| text_of(file, "filename")).collect()).unwrap_or_default();
    assert_eq!(names.len(), 2);
    assert!(names.contains(&"flask-9-py3-none-any.whl".to_owned()));
    let versions: Vec<_> = value["versions"].as_array().map(|list| list.iter().filter_map(|version| version.as_str()).collect()).unwrap_or_default();
    assert_eq!(versions, vec!["1", "9"]);
}

#[test]
fn a_quarantined_page_lists_no_file() {
    let page = format!(
        "{{\"meta\":{{\"api-version\":\"1.4\"}},\"project-status\":{{\"status\":\"quarantined\",\"reason\":\"bad\"}},\"name\":\"flask\",\"versions\":[\"1\"],\"files\":[{}]}}",
        one_file("flask-1-py3-none-any.whl"),
    );
    let (out, summary) = good(context(), &page, 9);
    let value: serde_json::Value = serde_json::from_str(&out).unwrap_or_else(|error| panic!("{error}"));
    assert_eq!(value["files"].as_array().map(Vec::len), Some(0));
    assert_eq!(summary.project_status.as_deref(), Some("quarantined"));
    assert_eq!(summary.project_status_reason.as_deref(), Some("bad"));
}

#[test]
fn broken_pages_are_refused() {
    let whole = page(&one_file("flask-1-py3-none-any.whl"));
    assert!(matches!(transform(context(), &whole[..whole.len() - 1], 8), Err(TransformError::Truncated | TransformError::Malformed)));
    assert!(matches!(transform(context(), &format!("{whole}x"), 8), Err(TransformError::Trailing | TransformError::Malformed)));
    assert!(matches!(transform(context(), "{\"name\": tru}", 8), Err(TransformError::Malformed)));
    let unknown = whole.replace("1.4", "2.0");
    assert!(matches!(transform(context(), &unknown, 8), Err(TransformError::Simple(_))));
    let unsized_file = whole.replace(",\"size\":1", "");
    assert!(transform(context(), &unsized_file, 8).is_ok());
}

#[test]
fn only_object_documents_are_accepted() {
    let verdict = |text: &str| {
        let mut validator = JsonValidator::new();
        for byte in text.as_bytes() {
            validator.feed(*byte);
        }
        validator.result().is_ok()
    };
    for accepted in ["{}", " {\"a\":[1,-0.5e+3,true,null,\"\\u00e9\\n\"]}\n", "{\"a\":{\"b\":[]}}"] {
        assert!(verdict(accepted), "{accepted}");
    }
    for refused in ["", "[]", "{", "{}{}", "{\"a\":01}", "{\"a\":1,}", "{'a':1}", "{\"a\":\"\t\"}", "\u{c}{}", "{\"a\":\"\\x\"}", "{\"a\" 1}"] {
        assert!(!verdict(refused), "{refused}");
    }
}

#[test]
fn a_metadata_sibling_stands_beside_its_file() {
    assert_eq!(metadata_sibling("https://h/a.whl"), "https://h/a.whl.metadata");
    assert!(supports_metadata_sibling("a-1-py3-none-any.whl"));
    assert!(!supports_metadata_sibling("a-1.egg"));
}

#[test]
fn a_page_context_splits_its_overrides() {
    let mut overrides = TextMap::new();
    overrides.insert("a.whl".to_owned(), FileOverride { hidden: true, yanked: Yanked::No });
    overrides.insert("b.whl".to_owned(), FileOverride { hidden: false, yanked: Yanked::Yes });
    let local = vec![LocalFile { file: file("c.whl", "/c", None), facts: facts("1") }];
    let context = page_context("root", "flask", open_policy(), local, vec!["1".to_owned()], &overrides);
    assert!(context.hidden.contains("a.whl"));
    assert!(context.yanked.get("b.whl").is_some());
    assert!(context.skip.contains("c.whl"));
}

#[test]
fn a_seeded_status_is_written_ahead_of_the_files() {
    let mut transformer = PageTransformer::new(context());
    transformer.seed_project_status(Some("quarantined".to_owned()), None);
    assert!(transformer.header_preflight_done());
    let mut out = Vec::new();
    let page = format!("{{\"files\":[{{\"filename\":\"a.whl\",\"url\":\"u\",\"hashes\":{{\"sha256\":\"{DIGEST}\"}}}}]");
    let pushed = transformer.push_into(page.as_bytes(), &mut out).unwrap_or_else(|_| panic!("a page"));
    assert_eq!(pushed.element, Some(Element::File));
    assert!(!String::from_utf8_lossy(&out).contains("a.whl"));
}

#[test]
fn an_overrun_page_stays_refused() {
    let mut transformer = PageTransformer::new(context());
    let mut out = Vec::new();
    let large = vec![b' '; 67_108_865];
    assert!(matches!(transformer.push_into(&large, &mut out), Err(TransformError::TooLarge)));
    assert!(matches!(transformer.push_into(b"{", &mut out), Err(TransformError::TooLarge)));
    assert!(matches!(transformer.push_into(b"", &mut out), Err(TransformError::TooLarge)));
}

#[test]
fn a_sibling_belongs_to_a_wheel_or_a_source_distribution() {
    assert!(supports_metadata_sibling("a-1.WHL"));
    assert!(supports_metadata_sibling("dir.d/a.whl/./"));
    assert!(supports_metadata_sibling("a-1.tar.GZ"));
    assert!(!supports_metadata_sibling(".whl"));
    assert!(!supports_metadata_sibling("a.whl/.."));
    assert!(!supports_metadata_sibling("a.whl/b"));
    assert!(!supports_metadata_sibling("a-1.zip"));
}

#[test]
fn a_page_knows_the_route_it_is_served_under() {
    assert_eq!(PageTransformer::new(context()).route(), "root/pypi");
}

#[test]
fn a_seeded_status_stays_to_the_end_of_the_page() {
    let mut transformer = PageTransformer::new(context());
    transformer.seed_project_status(Some("archived".to_owned()), Some("old".to_owned()));
    let mut out = Vec::new();
    for chunk in ["{\"name\":\"fl", "ask\",\"files\":[],", "\"x\":1}"] {
        let pushed = transformer.push_into(chunk.as_bytes(), &mut out).unwrap_or_else(|_| panic!("a page"));
        assert_eq!(pushed.element, None);
        assert!(transformer.headers_known());
        assert!(!transformer.files_precede_headers());
    }
    assert!(String::from_utf8_lossy(&out).ends_with(",\"project-status\":{\"status\":\"archived\",\"reason\":\"old\"}}"));
}

#[test]
fn a_refused_file_writes_nothing() {
    let mut transformer = PageTransformer::new(context());
    let mut out = Vec::new();
    let pushed = transformer.push_into(b"{\"meta\":{}", &mut out).unwrap_or_else(|_| panic!("a page"));
    assert_eq!(pushed.element, Some(Element::Meta));
    let meta = IncomingMeta { api_version: Some("1.4".to_owned()), project_status: None, project_status_reason: None };
    assert!(transformer.accept_meta(meta, &mut out).is_ok());
    let pushed = transformer.push_into(b",\"files\":[{}", &mut out).unwrap_or_else(|_| panic!("a page"));
    assert_eq!(pushed.element, Some(Element::File));
    let written = out.clone();
    let up = UpstreamFacts {
        facts: facts("1"),
        local_url: "/l".to_owned(),
        local_provenance_url: "/p".to_owned(),
        already_local: false,
    };
    let unsized_file = File { size: None, ..file("a.whl", "https://h/a.whl", Some(DIGEST)) };
    assert!(matches!(
        transformer.accept_file(unsized_file, up, &mut out),
        Err(TransformError::Simple(SimpleError::MissingFileSize(name))) if name == "a.whl",
    ));
    assert_eq!(out, written);
}

#[test]
fn whole_documents_finish_however_deep_their_members_are() {
    for page in [
        "{}",
        " {\"files\" : [ ] , \"x\" : [[{\"a\":\"}]\\\"\"}],-1.5e3] } \n",
        "{\"meta\":{\"api-version\":\"1.0\",\"deep\":[{\"y\":[]}]},\"name\":\"x\",\"versions\":[\"[\"]}",
        "{\"files\":[{\"filename\":\"a\",\"url\":\"u\",\"z\":{\"q\":[\"]\"]}}],\"project-status\":{\"status\":\"active\"}}",
    ] {
        for step in [1, 2, 7, 1000] {
            assert!(transform(context(), page, step).is_ok(), "{page} in chunks of {step}");
        }
    }
    assert!(matches!(transform(context(), "{} x", 1), Err(TransformError::Trailing)));
    assert!(matches!(transform(context(), "{", 1), Err(TransformError::Truncated)));
}
