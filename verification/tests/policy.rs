use peryx_ecosystem_pypi::collections::{TextMap, TextSet};
use peryx_ecosystem_pypi::distribution::{package_type_of, served_version, DistributionFilename, DistributionKind};
use peryx_ecosystem_pypi::policy::{
    compile_capabilities, package_mask, AttestationMode, FallbackMode, NormalizedNames, PackageType, PolicyAction,
    PolicyDenial, PypiPolicyConfig, PypiPolicyError, RemoteMetadataMode,
};
use peryx_ecosystem_pypi::policy_engine::{
    artifact_of_download, listed_versions, parse_upload_time, pypi_attributes, FileFacts, Policy, VersionAdmission,
};
use peryx_ecosystem_pypi::simple::file::{CoreMetadata, File, Provenance, Yanked};
use peryx_ecosystem_pypi::simple::meta::Meta;
use peryx_ecosystem_pypi::simple::page::{ProjectDetail, ProjectList, ProjectListEntry};

fn texts(values: &[&str]) -> Vec<String> {
    values.iter().map(|value| (*value).to_owned()).collect()
}

fn config() -> PypiPolicyConfig {
    PypiPolicyConfig {
        fallback_mode: FallbackMode::Fallback,
        upstream_attestations: RemoteMetadataMode::default(),
        allow_projects: Vec::new(),
        block_projects: Vec::new(),
        protected_names: Vec::new(),
        max_file_size_bytes: None,
        max_project_size_bytes: None,
        max_projects: None,
        max_versions_per_project: None,
        allow_versions: None,
        allow_package_types: Vec::new(),
        block_package_types: Vec::new(),
        allow_wheel_pythons: Vec::new(),
        block_wheel_pythons: Vec::new(),
        allow_wheel_platforms: Vec::new(),
        block_wheel_platforms: Vec::new(),
        min_release_age_secs: None,
        required_attestations: Vec::new(),
        attestation_mode: AttestationMode::Enforce,
    }
}

fn names() -> NormalizedNames {
    NormalizedNames { allow_projects: Vec::new(), block_projects: Vec::new(), protected_names: Vec::new() }
}

fn compile(config: &PypiPolicyConfig, names: NormalizedNames) -> Policy {
    let compiled = compile_capabilities(config, names).unwrap_or_else(|error| panic!("{}", error.message()));
    Policy {
        active: true,
        max_resource_size: config.max_project_size_bytes,
        owner_settings: compiled.owner_settings,
        resource_rules: compiled.resource_rules,
        artifact_rules: compiled.artifact_rules,
    }
}

fn wheel(name: &str, version: &str, python: &str, platform: &str) -> DistributionFilename {
    DistributionFilename {
        normalized_name: name.to_owned(),
        version: version.to_owned(),
        kind: DistributionKind::Wheel,
        python_tag: Some(python.to_owned()),
        platform_tag: Some(platform.to_owned()),
    }
}

fn sdist(name: &str, version: &str) -> DistributionFilename {
    DistributionFilename {
        normalized_name: name.to_owned(),
        version: version.to_owned(),
        kind: DistributionKind::SdistTarGz,
        python_tag: None,
        platform_tag: None,
    }
}

fn file(filename: &str, size: Option<u64>, upload_time: Option<&str>) -> File {
    File {
        filename: filename.to_owned(),
        url: format!("https://files.example/{filename}"),
        hashes: TextMap::new(),
        requires_python: None,
        size,
        upload_time: upload_time.map(str::to_owned),
        yanked: Yanked::No,
        core_metadata: CoreMetadata::Absent,
        dist_info_metadata: CoreMetadata::Absent,
        gpg_sig: None,
        provenance: Provenance::Absent,
    }
}

fn facts(parsed: DistributionFilename) -> FileFacts {
    FileFacts { parsed: Some(parsed), refusal: None }
}

fn refusal(reason: &str) -> PolicyDenial {
    PolicyDenial {
        action: PolicyAction::Serve,
        resource: "flask".to_owned(),
        artifact: None,
        group: None,
        rule: "neutral",
        field: "resource",
        reason: reason.to_owned(),
    }
}

#[test]
fn modes_have_their_names() {
    assert_eq!(FallbackMode::Fallback.as_str(), "fallback");
    assert_eq!(FallbackMode::PrivateFirst.as_str(), "private-first");
    assert_eq!(FallbackMode::NoFallback.as_str(), "no-fallback");
    assert_eq!(FallbackMode::default(), FallbackMode::Fallback);
    assert_eq!(AttestationMode::Enforce.rule_name(), "required-attestation");
    assert_eq!(AttestationMode::Audit.rule_name(), "required-attestation-audit");
    assert_eq!(PackageType::parse("wheel"), Some(PackageType::Wheel));
    assert_eq!(PackageType::parse("egg"), None);
    assert_eq!(package_type_of(DistributionKind::SdistZip), PackageType::Sdist);
    assert_eq!(
        package_mask(&vec![PackageType::Wheel, PackageType::Sdist]),
        PackageType::Wheel.mask() | PackageType::Sdist.mask(),
    );
}

#[test]
fn a_policy_table_names_only_known_keys() {
    assert!(PypiPolicyConfig::check_keys(&texts(&["allow_versions", "attestation_mode"])).is_ok());
    assert_eq!(
        PypiPolicyConfig::check_keys(&texts(&["allow_versions", "alow_projects", "nope"])),
        Err("unknown field `alow_projects` in `[index.policy]`".to_owned()),
    );
}

#[test]
fn a_bad_configuration_does_not_compile() {
    let mut bad = config();
    bad.allow_versions = Some("not a specifier".to_owned());
    assert!(matches!(compile_capabilities(&bad, names()), Err(PypiPolicyError::VersionSpecifiers(text)) if text == "not a specifier"));
    let mut bad = config();
    bad.block_wheel_pythons = texts(&["cp311", ""]);
    assert!(matches!(compile_capabilities(&bad, names()), Err(PypiPolicyError::EmptyTag(_))));
    let mut bad = config();
    bad.required_attestations = texts(&[""]);
    let error = compile_capabilities(&bad, names()).err().map(|error| error.message());
    assert_eq!(error.as_deref(), Some("required attestation predicate type is empty"));
}

#[test]
fn an_empty_configuration_has_no_rule() {
    let compiled = compile_capabilities(&config(), names()).unwrap_or_else(|error| panic!("{}", error.message()));
    assert_eq!(compiled.artifact_rules.len(), 0);
    assert_eq!(compiled.resource_rules.len(), 0);
}

#[test]
fn a_version_outside_the_range_is_denied() {
    let mut rules = config();
    rules.allow_versions = Some(">=2,<3".to_owned());
    let policy = compile(&rules, names());
    let page = file("flask-2.1-py3-none-any.whl", Some(1), None);
    assert!(policy.check_file(PolicyAction::Serve, "flask", &page, &facts(wheel("flask", "2.1", "py3", "any"))).is_ok());
    let denial = policy.check_file(PolicyAction::Serve, "flask", &page, &facts(wheel("flask", "3.0", "py3", "any"))).unwrap_err();
    assert_eq!(denial.rule, "version-specifier");
    assert_eq!(denial.reason, "version 3.0 is outside the allowed range");
    assert_eq!(denial.artifact.as_deref(), Some("flask-2.1-py3-none-any.whl"));
    let unknown = FileFacts { parsed: None, refusal: None };
    let denial = policy.check_file(PolicyAction::Serve, "flask", &page, &unknown).unwrap_err();
    assert_eq!(denial.reason, "file version is unknown");
}

#[test]
fn package_types_are_allowed_before_they_are_blocked() {
    let mut rules = config();
    rules.allow_package_types = vec![PackageType::Wheel];
    rules.block_package_types = vec![PackageType::Wheel];
    let policy = compile(&rules, names());
    let page = file("x", None, None);
    let denial = policy.check_file(PolicyAction::Serve, "x", &page, &facts(sdist("x", "1"))).unwrap_err();
    assert_eq!((denial.rule, denial.reason.as_str()), ("package-type-allow-list", "package type sdist is not allowed"));
    let denial = policy.check_file(PolicyAction::Serve, "x", &page, &facts(wheel("x", "1", "py3", "any"))).unwrap_err();
    assert_eq!((denial.rule, denial.reason.as_str()), ("package-type-block-list", "package type wheel is blocked"));
}

#[test]
fn wheel_tags_only_constrain_wheels() {
    let mut rules = config();
    rules.allow_wheel_pythons = texts(&["cp312"]);
    rules.block_wheel_platforms = texts(&["win_amd64"]);
    let policy = compile(&rules, names());
    let page = file("x", None, None);
    assert!(policy.check_file(PolicyAction::Serve, "x", &page, &facts(sdist("x", "1"))).is_ok());
    assert!(policy.check_file(PolicyAction::Serve, "x", &page, &facts(wheel("x", "1", "cp311.cp312", "any"))).is_ok());
    let denial = policy.check_file(PolicyAction::Serve, "x", &page, &facts(wheel("x", "1", "cp311", "any"))).unwrap_err();
    assert_eq!(denial.reason, "wheel tag \"cp311\" is not allowed");
    let denial = policy.check_file(PolicyAction::Serve, "x", &page, &facts(wheel("x", "1", "cp312", "win_amd64"))).unwrap_err();
    assert_eq!(denial.reason, "wheel tag \"win_amd64\" is blocked");
}

#[test]
fn a_young_release_waits() {
    let mut rules = config();
    rules.min_release_age_secs = Some(3600);
    let policy = compile(&rules, names());
    let page = |time: Option<&str>| ProjectDetail {
        meta: Meta::default(),
        name: "x".to_owned(),
        versions: texts(&["1"]),
        files: vec![file("x-1.tar.gz", Some(1), time)],
    };
    let at = parse_upload_time("2024-01-01T00:00:00Z");
    assert_eq!(at, Some(1_704_067_200));
    let young = policy.admit_detail(&None, PolicyAction::Serve, "x", &page(Some("2024-01-01T00:00:00Z")).files, &vec![facts(sdist("x", "1"))], Some(1_704_067_210));
    assert_eq!(
        young.files.get("x-1.tar.gz").map(|denial| denial.reason.as_str()),
        Some("release is 10s old, within the 3600s upstream delay"),
    );
    let undated = policy.admit_detail(&None, PolicyAction::Serve, "x", &page(None).files, &vec![facts(sdist("x", "1"))], Some(1));
    assert_eq!(
        undated.files.get("x-1.tar.gz").map(|denial| denial.reason.as_str()),
        Some("release has no upstream upload time to age against"),
    );
    let clockless = policy.admit_detail(&None, PolicyAction::Serve, "x", &page(None).files, &vec![facts(sdist("x", "1"))], None);
    assert_eq!(clockless.files.len(), 0);
}

#[test]
fn an_upload_needs_its_attestations() {
    let mut rules = config();
    rules.required_attestations = texts(&["https://b", "https://a"]);
    rules.attestation_mode = AttestationMode::Audit;
    let policy = compile(&rules, names());
    let upload = file("x-1.tar.gz", Some(1), None);
    let mut declared = TextSet::new();
    let denial = policy.check_upload(PolicyAction::Upload, "x", &upload, &facts(sdist("x", "1")), &declared).unwrap_err();
    assert_eq!(denial.rule, "required-attestation-audit");
    assert_eq!(denial.reason, "upload is missing a required attestation predicate type: https://a, https://b");
    declared.insert("https://a".to_owned());
    declared.insert("https://b".to_owned());
    assert!(policy.check_upload(PolicyAction::Upload, "x", &upload, &facts(sdist("x", "1")), &declared).is_ok());
    assert!(policy.check_file(PolicyAction::Serve, "x", &upload, &facts(sdist("x", "1"))).is_ok());
}

#[test]
fn project_rules_judge_a_name() {
    let normalized = NormalizedNames {
        allow_projects: texts(&["flask", "acme-core"]),
        block_projects: texts(&["flask"]),
        protected_names: texts(&["acme-*"]),
    };
    let mut rules = config();
    rules.allow_projects = texts(&["Flask", "acme.core"]);
    rules.block_projects = texts(&["flask"]);
    rules.protected_names = texts(&["acme-*"]);
    let policy = compile(&rules, normalized);
    let said = |action, project: &str| policy.check_resource(&None, action, project).err().map(|denial| (denial.rule, denial.reason));
    assert_eq!(said(PolicyAction::Cached, "acme-core"), Some(("protected-name", "project \"acme-core\" is protected from upstream fallback".to_owned())));
    assert_eq!(said(PolicyAction::Serve, "acme-core"), None);
    assert_eq!(said(PolicyAction::Serve, "flask"), Some(("project-block-list", "project \"flask\" is blocked".to_owned())));
    assert_eq!(said(PolicyAction::Serve, "numpy"), Some(("project-allow-list", "project \"numpy\" is not in the allow list".to_owned())));
    let neutral = Some(refusal("first"));
    assert_eq!(policy.check_resource(&neutral, PolicyAction::Serve, "acme-core").unwrap_err().reason, "first");
}

#[test]
fn settings_name_the_modes() {
    let mut rules = config();
    rules.fallback_mode = FallbackMode::NoFallback;
    let policy = compile(&rules, names());
    assert_eq!(policy.fallback_mode(), FallbackMode::NoFallback);
    assert_eq!(compile(&config(), names()).fallback_mode(), FallbackMode::Fallback);
}

#[test]
fn a_page_lists_no_version_it_does_not_serve() {
    let mut rules = config();
    rules.allow_versions = Some("<2".to_owned());
    let policy = compile(&rules, names());
    let detail = ProjectDetail {
        meta: Meta::default(),
        name: "x".to_owned(),
        versions: texts(&["1.0", "2.0", "not-a-version"]),
        files: vec![file("x-1.0.tar.gz", Some(5), None), file("x-2.0.tar.gz", Some(6), None)],
    };
    let known = vec![facts(sdist("x", "1.0")), facts(sdist("x", "2.0"))];
    let page = policy.apply_detail(&None, PolicyAction::Serve, "x", detail, &known, None).unwrap_or_else(|denial| panic!("{}", denial.reason));
    assert_eq!(page.files.len(), 1);
    assert_eq!(page.files[0].filename, "x-1.0.tar.gz");
    assert!(page.versions.contains(&"1.0".to_owned()));
    assert!(!page.versions.contains(&"2.0".to_owned()));
}

#[test]
fn an_inactive_policy_changes_nothing() {
    let policy = Policy {
        active: false,
        max_resource_size: None,
        owner_settings: Vec::new(),
        resource_rules: Vec::new(),
        artifact_rules: Vec::new(),
    };
    let detail = ProjectDetail {
        meta: Meta::default(),
        name: "x".to_owned(),
        versions: texts(&["9", "1"]),
        files: vec![file("x-1.tar.gz", None, None)],
    };
    let page = policy.apply_detail(&None, PolicyAction::Serve, "x", detail, &vec![facts(sdist("x", "1"))], None).unwrap_or_else(|denial| panic!("{}", denial.reason));
    assert_eq!(page.versions, texts(&["9", "1"]));
}

#[test]
fn a_project_may_not_outgrow_its_size() {
    let mut rules = config();
    rules.max_project_size_bytes = Some(10);
    let policy = compile(&rules, names());
    let known = vec![facts(sdist("x", "1")), facts(sdist("x", "2"))];
    let over = policy.admit_detail(&None, PolicyAction::Serve, "x", &vec![file("a", Some(6), None), file("b", Some(5), None)], &known, None);
    assert_eq!(over.project.map(|denial| denial.reason), Some("project size 11 exceeds limit 10".to_owned()));
    let unknown = policy.admit_detail(&None, PolicyAction::Serve, "x", &vec![file("a", Some(6), None), file("b", None, None)], &known, None);
    assert_eq!(
        unknown.project.map(|denial| denial.reason),
        Some("project size is unknown because file \"b\" has no declared size".to_owned()),
    );
    let within = policy.admit_detail(&None, PolicyAction::Serve, "x", &vec![file("a", Some(5), None), file("b", Some(5), None)], &known, None);
    assert!(within.project.is_none());
}

#[test]
fn a_download_is_judged_as_its_artifact() {
    assert_eq!(artifact_of_download("x-1.whl.metadata"), "x-1.whl");
    assert_eq!(artifact_of_download("x-1.whl.provenance"), "x-1.whl");
    assert_eq!(artifact_of_download("x-1.whl"), "x-1.whl");
    let mut rules = config();
    rules.allow_versions = Some("==1".to_owned());
    let policy = compile(&rules, names());
    let denial = policy.check_download(PolicyAction::Serve, "x-2.whl.metadata", &facts(wheel("x", "2", "py3", "any")), Some(1)).unwrap_err();
    assert_eq!(denial.artifact.as_deref(), Some("x-2.whl"));
    assert_eq!(denial.resource, "x");
}

#[test]
fn version_lists_join_what_is_declared_and_served() {
    let everything = VersionAdmission { allowed: None };
    let list = listed_versions(&everything, &texts(&["2", "1"]), &texts(&["3"]), &texts(&["1"])).to_list();
    assert_eq!(list, texts(&["1", "2", "3"]));
    let some = VersionAdmission { allowed: Some(">=2".to_owned()) };
    assert!(some.admits("2.5"));
    assert!(!some.admits("1.9"));
}

#[test]
fn a_list_shows_only_what_policy_allows() {
    let mut rules = config();
    rules.block_projects = texts(&["b"]);
    let policy = compile(&rules, NormalizedNames { allow_projects: Vec::new(), block_projects: texts(&["b"]), protected_names: Vec::new() });
    let list = ProjectList {
        meta: Meta::default(),
        projects: vec![ProjectListEntry { name: "A".to_owned() }, ProjectListEntry { name: "B".to_owned() }],
    };
    let shown = policy.apply_list(list, &texts(&["a", "b"]), &vec![None, None]);
    assert_eq!(shown.projects.len(), 1);
    assert_eq!(shown.projects[0].name, "A");
}

#[test]
fn attributes_describe_a_wheel() {
    let attributes = pypi_attributes(&Some(wheel("x", "1", "py3", "any")));
    assert!(attributes.contains(&("package_type", "wheel".to_owned())));
    assert!(pypi_attributes(&None).is_empty());
    assert_eq!(served_version(&Some(sdist("x", "1.0"))), Some("1.0".to_owned()));
    assert_eq!(served_version(&None), None);
}
