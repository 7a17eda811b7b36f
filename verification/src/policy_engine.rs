//! A compiled policy at work: judging files, uploads, downloads and whole pages.
use vstd::prelude::*;

use crate::collections::{listed, TextMap, TextSet};
use crate::distribution::{opt_distribution, package_type_of, release_of, DistributionFilename, DistributionText};
use crate::outside::{
    is_version_specifiers, quoted, quoted_text, rfc3339_second, rfc3339_to_unix, specifiers_contain,
    specifiers_contain_version, specifiers_valid,
};
use crate::policy::{
    denied, find_named, lookup, named_texts, opt_denial, rule_denial, rule_texts, ArtifactFacts, ArtifactRule,
    DenialText, FactsText, FallbackMode, PolicyAction, PolicyDenial, PypiProjectRule, RemoteMetadataMode, RuleText,
    ALLOW_VERSIONS_SETTING, ATTESTATION_PREDICATE_TYPES, FALLBACK_MODE_SETTING, REMOTE_METADATA_SETTING,
};
use crate::simple::file::{File, FileText};
use crate::simple::page::{ProjectDetail, ProjectList, ProjectListEntry};
use crate::text::{
    cut_suffix, decimal, decimal_text, join, joined, opt_str, opt_text, strip_suffix, text_eq, texts,
};

verus! {

/// What lies outside this module about a file: its parsed filename, and what the registry's own rules
/// refuse of it.
pub struct FileFacts {
    pub parsed: Option<DistributionFilename>,
    pub refusal: Option<PolicyDenial>,
}

/// A compiled policy.
pub struct Policy {
    /// Whether any rule or setting is in force.
    pub active: bool,
    /// The most bytes one project may serve.
    pub max_resource_size: Option<u64>,
    pub owner_settings: Vec<(&'static str, String)>,
    pub resource_rules: Vec<PypiProjectRule>,
    pub artifact_rules: Vec<ArtifactRule>,
}

// ---------------------------------------------------------------------------------------------
// Settings
// ---------------------------------------------------------------------------------------------

/// The fallback mode that a setting names.
pub open spec fn fallback_named(setting: Option<Seq<char>>) -> FallbackMode {
    if setting == Some("private-first"@) {
        FallbackMode::PrivateFirst
    } else if setting == Some("no-fallback"@) {
        FallbackMode::NoFallback
    } else {
        FallbackMode::Fallback
    }
}

/// The attestation mode that a setting names.
pub open spec fn remote_metadata_named(setting: Option<Seq<char>>) -> RemoteMetadataMode {
    if setting == Some("proxy"@) {
        RemoteMetadataMode::Proxy
    } else if setting == Some("cache"@) {
        RemoteMetadataMode::Cache
    } else {
        RemoteMetadataMode::Direct
    }
}

impl Policy {
    /// The setting of that name.
    pub open spec fn setting(self, name: Seq<char>) -> Option<Seq<char>> {
        lookup(named_texts(self.owner_settings@), name)
    }

    /// The setting of that name.
    pub fn owner_setting(&self, name: &str) -> (r: Option<&str>)
        ensures
            opt_str(r) == self.setting(name@),
    {
        find_named(&self.owner_settings, name)
    }

    /// How the policy treats cached members.
    pub fn fallback_mode(&self) -> (r: FallbackMode)
        ensures
            r == fallback_named(self.setting(FALLBACK_MODE_SETTING@)),
    {
        match self.owner_setting(FALLBACK_MODE_SETTING) {
            Some(value) => {
                if text_eq(value, "private-first") {
                    FallbackMode::PrivateFirst
                } else if text_eq(value, "no-fallback") {
                    FallbackMode::NoFallback
                } else {
                    FallbackMode::Fallback
                }
            },
            None => FallbackMode::Fallback,
        }
    }

    /// Where the policy serves upstream attestations from.
    pub fn remote_metadata_mode(&self) -> (r: RemoteMetadataMode)
        ensures
            r == remote_metadata_named(self.setting(REMOTE_METADATA_SETTING@)),
    {
        match self.owner_setting(REMOTE_METADATA_SETTING) {
            Some(value) => {
                if text_eq(value, "proxy") {
                    RemoteMetadataMode::Proxy
                } else if text_eq(value, "cache") {
                    RemoteMetadataMode::Cache
                } else {
                    RemoteMetadataMode::Direct
                }
            },
            None => RemoteMetadataMode::Direct,
        }
    }
}

/// A fallback mode is read back from the setting it is written to.
pub proof fn fallback_mode_reads_back(mode: FallbackMode)
    ensures
        fallback_named(
            if mode != FallbackMode::Fallback {
                Some(mode.name())
            } else {
                None
            },
        ) == mode,
{
    reveal_strlit("private-first");
    reveal_strlit("no-fallback");
    assert("private-first"@.len() == 13 && "no-fallback"@.len() == 11);
}

/// An attestation mode is read back from the setting it is written to.
pub proof fn remote_metadata_mode_reads_back(mode: RemoteMetadataMode)
    ensures
        remote_metadata_named(
            if mode != RemoteMetadataMode::Direct {
                Some(mode.name())
            } else {
                None
            },
        ) == mode,
{
    reveal_strlit("proxy");
    reveal_strlit("cache");
    assert("proxy"@[0] == 'p' && "cache"@[0] == 'c');
}

// ---------------------------------------------------------------------------------------------
// Verdicts
// ---------------------------------------------------------------------------------------------

/// The denial of the first rule that denies.
pub open spec fn first_denial(rules: Seq<RuleText>, action: PolicyAction, facts: FactsText) -> Option<DenialText>
    decreases rules.len(),
{
    if rules.len() == 0 {
        None
    } else {
        match rule_denial(rules[0], action, facts) {
            Some(denial) => Some(denial),
            None => first_denial(rules.skip(1), action, facts),
        }
    }
}

/// The denial of the first project rule that denies.
pub open spec fn first_project_denial(
    rules: Seq<PypiProjectRule>,
    action: PolicyAction,
    project: Seq<char>,
) -> Option<DenialText>
    decreases rules.len(),
{
    if rules.len() == 0 {
        None
    } else {
        match rules[0].says(action, project) {
            Some(denial) => Some(denial),
            None => first_project_denial(rules.skip(1), action, project),
        }
    }
}

impl Policy {
    /// What the policy says of a file: the registry's own refusal stands before the rules.
    pub open spec fn verdict(
        self,
        refusal: Option<DenialText>,
        action: PolicyAction,
        facts: FactsText,
    ) -> Option<DenialText> {
        match refusal {
            Some(denial) => Some(denial),
            None => first_denial(rule_texts(self.artifact_rules@), action, facts),
        }
    }

    /// What the policy says of a project.
    pub open spec fn project_verdict(
        self,
        refusal: Option<DenialText>,
        action: PolicyAction,
        project: Seq<char>,
    ) -> Option<DenialText> {
        match refusal {
            Some(denial) => Some(denial),
            None => first_project_denial(self.resource_rules@, action, project),
        }
    }

    /// Judge a file by its facts.
    pub fn check_facts(&self, refusal: &Option<PolicyDenial>, action: PolicyAction, facts: &ArtifactFacts) -> (r: Result<
        (),
        PolicyDenial,
    >)
        ensures
            denied(r) == self.verdict(opt_denial(*refusal), action, facts@),
    {
        match refusal {
            Some(denial) => {
                return Err(denial.copied());
            },
            None => {},
        }
        let ghost all = rule_texts(self.artifact_rules@);
        let mut i: usize = 0;
        assert(all.skip(0) =~= all);
        while i < self.artifact_rules.len()
            invariant
                i <= self.artifact_rules@.len(),
                refusal is None,
                all == rule_texts(self.artifact_rules@),
                first_denial(all, action, facts@) == first_denial(all.skip(i as int), action, facts@),
            decreases self.artifact_rules.len() - i,
        {
            assert(all.skip(i as int)[0] == self.artifact_rules@[i as int]@);
            match self.artifact_rules[i].check(action, facts) {
                Ok(_) => {},
                Err(denial) => {
                    return Err(denial);
                },
            }
            assert(all.skip(i as int).skip(1) =~= all.skip(i + 1));
            i = i + 1;
        }
        Ok(())
    }

    /// Judge a project.
    pub fn check_resource(&self, refusal: &Option<PolicyDenial>, action: PolicyAction, project: &str) -> (r: Result<
        (),
        PolicyDenial,
    >)
        ensures
            denied(r) == self.project_verdict(opt_denial(*refusal), action, project@),
    {
        match refusal {
            Some(denial) => {
                return Err(denial.copied());
            },
            None => {},
        }
        let ghost all = self.resource_rules@;
        let mut i: usize = 0;
        assert(all.skip(0) =~= all);
        while i < self.resource_rules.len()
            invariant
                i <= self.resource_rules@.len(),
                refusal is None,
                all == self.resource_rules@,
                first_project_denial(all, action, project@) == first_project_denial(
                    all.skip(i as int),
                    action,
                    project@,
                ),
            decreases self.resource_rules.len() - i,
        {
            match self.resource_rules[i].check(action, project) {
                Ok(_) => {},
                Err(denial) => {
                    return Err(denial);
                },
            }
            assert(all.skip(i as int).skip(1) =~= all.skip(i + 1));
            i = i + 1;
        }
        Ok(())
    }
}

// ---------------------------------------------------------------------------------------------
// Facts
// ---------------------------------------------------------------------------------------------

/// The attribute, when it is there.
pub open spec fn attribute_if(name: Seq<char>, value: Option<Seq<char>>) -> Seq<(Seq<char>, Seq<char>)> {
    match value {
        Some(value) => seq![(name, value)],
        None => Seq::empty(),
    }
}

/// The attributes of a parsed filename.
pub open spec fn attributes_of(parsed: Option<DistributionText>) -> Seq<(Seq<char>, Seq<char>)> {
    match parsed {
        None => Seq::empty(),
        Some(parsed) => seq![("package_type"@, parsed.kind.package().name())] + attribute_if(
            "python_tag"@,
            parsed.python_tag,
        ) + attribute_if("platform_tag"@, parsed.platform_tag),
    }
}

/// The attributes of a parsed filename.
pub fn pypi_attributes(parsed: &Option<DistributionFilename>) -> (r: Vec<(&'static str, String)>)
    ensures
        named_texts(r@) == attributes_of(opt_distribution(*parsed)),
{
    let mut attributes: Vec<(&'static str, String)> = Vec::new();
    match parsed {
        None => {},
        Some(parsed) => {
            attributes.push(("package_type", package_type_of(parsed.kind).as_str().to_owned()));
            match &parsed.python_tag {
                Some(python) => {
                    attributes.push(("python_tag", python.clone()));
                },
                None => {},
            }
            match &parsed.platform_tag {
                Some(platform) => {
                    attributes.push(("platform_tag", platform.clone()));
                },
                None => {},
            }
        },
    }
    assert(named_texts(attributes@) =~= attributes_of(opt_distribution(*parsed)));
    attributes
}

/// The second that an optional upload time names. One without an offset, or that does not parse, counts
/// as missing.
pub open spec fn upload_second(time: Option<Seq<char>>) -> Option<i64> {
    match time {
        Some(time) => rfc3339_second(time),
        None => None,
    }
}

/// Parse a Simple API `upload-time` into a Unix timestamp.
pub fn parse_upload_time(value: &str) -> (r: Option<i64>)
    ensures
        r == rfc3339_second(value@),
{
    rfc3339_to_unix(value)
}

/// The facts of a page's file.
pub open spec fn file_facts(project: Seq<char>, file: FileText, parsed: Option<DistributionText>) -> FactsText {
    FactsText {
        resource: project,
        artifact: Some(file.filename),
        group: release_of(parsed),
        size: file.size,
        upload_time: upload_second(file.upload_time),
        now: None,
        attributes: attributes_of(parsed),
    }
}

fn facts_from_file(project: &str, file: &File, parsed: &Option<DistributionFilename>) -> (r: ArtifactFacts)
    ensures
        r@ == file_facts(project@, file@, opt_distribution(*parsed)),
{
    ArtifactFacts {
        resource: project.to_owned(),
        artifact: Some(file.filename.clone()),
        group: crate::distribution::served_version(parsed),
        size: file.size,
        upload_time: match &file.upload_time {
            Some(time) => parse_upload_time(time.as_str()),
            None => None,
        },
        now: None,
        attributes: pypi_attributes(parsed),
    }
}

/// The facts of an upload: those of its file, and the predicate types of its attestations, in order. The
/// attribute is there even for an empty set, so that a rule tells an upload without attestations from a
/// file it must not judge.
pub open spec fn upload_facts(
    project: Seq<char>,
    file: FileText,
    parsed: Option<DistributionText>,
    predicate_types: Set<Seq<char>>,
) -> FactsText {
    FactsText {
        attributes: attributes_of(parsed).push(
            (ATTESTATION_PREDICATE_TYPES@, joined(listed(predicate_types), "\n"@)),
        ),
        ..file_facts(project, file, parsed)
    }
}

fn facts_from_upload(
    project: &str,
    file: &File,
    parsed: &Option<DistributionFilename>,
    predicate_types: &TextSet,
) -> (r: ArtifactFacts)
    ensures
        r@ == upload_facts(project@, file@, opt_distribution(*parsed), predicate_types@),
{
    let mut facts = facts_from_file(project, file, parsed);
    let ghost start = facts.attributes@;
    let list = predicate_types.to_list();
    let text = join(&list, "\n");
    facts.attributes.push((ATTESTATION_PREDICATE_TYPES, text));
    assert(named_texts(facts.attributes@) =~= named_texts(start).push((ATTESTATION_PREDICATE_TYPES@, text@)));
    facts
}

/// The facts a bare filename gives.
pub open spec fn filename_facts(
    filename: Seq<char>,
    parsed: Option<DistributionText>,
    size: Option<u64>,
) -> FactsText {
    FactsText {
        resource: match parsed {
            Some(parsed) => parsed.normalized_name,
            None => "<unknown>"@,
        },
        artifact: Some(filename),
        group: release_of(parsed),
        size,
        upload_time: None,
        now: None,
        attributes: attributes_of(parsed),
    }
}

fn facts_from_filename(filename: &str, parsed: &Option<DistributionFilename>, size: Option<u64>) -> (r: ArtifactFacts)
    ensures
        r@ == filename_facts(filename@, opt_distribution(*parsed), size),
{
    ArtifactFacts {
        resource: match parsed {
            Some(parsed) => parsed.normalized_name.clone(),
            None => "<unknown>".to_owned(),
        },
        artifact: Some(filename.to_owned()),
        group: crate::distribution::served_version(parsed),
        size,
        upload_time: None,
        now: None,
        attributes: pypi_attributes(parsed),
    }
}

/// The filename suffix of a core-metadata sibling.
pub const METADATA_SUFFIX: &'static str = ".metadata";

/// The filename suffix of a provenance sibling.
pub const PROVENANCE_SUFFIX: &'static str = ".provenance";

/// The distribution that a downloaded name belongs to: a sibling's suffix is cut off.
pub open spec fn artifact_name(filename: Seq<char>) -> Seq<char> {
    match cut_suffix(filename, METADATA_SUFFIX@) {
        Some(artifact) => artifact,
        None => match cut_suffix(filename, PROVENANCE_SUFFIX@) {
            Some(artifact) => artifact,
            None => filename,
        },
    }
}

/// The distribution that a downloaded name belongs to.
pub fn artifact_of_download<'a>(filename: &'a str) -> (r: &'a str)
    ensures
        r@ == artifact_name(filename@),
{
    match strip_suffix(filename, METADATA_SUFFIX) {
        Some(artifact) => artifact,
        None => match strip_suffix(filename, PROVENANCE_SUFFIX) {
            Some(artifact) => artifact,
            None => filename,
        },
    }
}

impl Policy {
    /// Judge one file of a page.
    pub fn check_file(&self, action: PolicyAction, project: &str, file: &File, facts: &FileFacts) -> (r: Result<
        (),
        PolicyDenial,
    >)
        ensures
            denied(r) == self.verdict(
                opt_denial(facts.refusal),
                action,
                file_facts(project@, file@, opt_distribution(facts.parsed)),
            ),
    {
        let known = facts_from_file(project, file, &facts.parsed);
        self.check_facts(&facts.refusal, action, &known)
    }

    /// Judge a hosted upload: the file rules together with the required-attestation rule against
    /// `predicate_types`, which the upload's bound attestations declare.
    pub fn check_upload(
        &self,
        action: PolicyAction,
        project: &str,
        file: &File,
        facts: &FileFacts,
        predicate_types: &TextSet,
    ) -> (r: Result<(), PolicyDenial>)
        ensures
            denied(r) == self.verdict(
                opt_denial(facts.refusal),
                action,
                upload_facts(project@, file@, opt_distribution(facts.parsed), predicate_types@),
            ),
    {
        let known = facts_from_upload(project, file, &facts.parsed, predicate_types);
        self.check_facts(&facts.refusal, action, &known)
    }

    /// Judge a download by its filename and known size. `facts` speaks of the distribution that the
    /// name belongs to.
    pub fn check_download(&self, action: PolicyAction, filename: &str, facts: &FileFacts, size: Option<u64>) -> (r: Result<
        (),
        PolicyDenial,
    >)
        ensures
            denied(r) == self.verdict(
                opt_denial(facts.refusal),
                action,
                filename_facts(artifact_name(filename@), opt_distribution(facts.parsed), size),
            ),
    {
        let artifact = artifact_of_download(filename);
        let known = facts_from_filename(artifact, &facts.parsed, size);
        self.check_facts(&facts.refusal, action, &known)
    }
}

// ---------------------------------------------------------------------------------------------
// Versions
// ---------------------------------------------------------------------------------------------

/// Whether policy admits a release version named on its own.
///
/// A version rule judges a file. A `versions` entry has no file behind it: it arrives as upstream text
/// that may not parse as a version at all. This reads the one rule that has something to say about a
/// release.
pub struct VersionAdmission {
    pub allowed: Option<String>,
}

/// Whether `version` is admitted. With no specifier every declared version stands. With one, a version
/// that does not parse cannot be shown to satisfy it, so it is not listed.
pub open spec fn version_admitted(allowed: Option<Seq<char>>, version: Seq<char>) -> bool {
    match allowed {
        None => true,
        Some(specifier) => specifiers_contain(specifier, version) == Some(true),
    }
}

impl Policy {
    /// The version specifier in force.
    pub open spec fn allowed_versions(self) -> Option<Seq<char>> {
        match self.setting(ALLOW_VERSIONS_SETTING@) {
            Some(specifier) => if specifiers_valid(specifier) {
                Some(specifier)
            } else {
                None
            },
            None => None,
        }
    }
}

impl VersionAdmission {
    /// The admission of a policy.
    pub fn of(policy: &Policy) -> (r: Self)
        ensures
            opt_text(r.allowed) == policy.allowed_versions(),
    {
        match policy.owner_setting(ALLOW_VERSIONS_SETTING) {
            Some(specifier) => {
                if is_version_specifiers(specifier) {
                    VersionAdmission { allowed: Some(specifier.to_owned()) }
                } else {
                    VersionAdmission { allowed: None }
                }
            },
            None => VersionAdmission { allowed: None },
        }
    }

    /// Whether `version` is admitted.
    pub fn admits(&self, version: &str) -> (r: bool)
        ensures
            r == version_admitted(opt_text(self.allowed), version@),
    {
        match &self.allowed {
            None => true,
            Some(specifier) => match specifiers_contain_version(specifier.as_str(), version) {
                Some(contained) => contained,
                None => false,
            },
        }
    }
}

/// The versions a page lists: the declared and local ones that policy admits, and those of the files it
/// serves.
pub open spec fn listed_set(
    allowed: Option<Seq<char>>,
    declared: Seq<Seq<char>>,
    local: Seq<Seq<char>>,
    served: Seq<Seq<char>>,
) -> Set<Seq<char>> {
    Set::new(
        |v: Seq<char>|
            ((declared.contains(v) || local.contains(v)) && version_admitted(allowed, v)) || served.contains(v),
    )
}

fn add_admitted(set: &mut TextSet, admission: &VersionAdmission, versions: &Vec<String>)
    ensures
        final(set)@ == old(set)@.union(
            Set::new(
                |v: Seq<char>| texts(versions@).contains(v) && version_admitted(opt_text(admission.allowed), v),
            ),
        ),
{
    let ghost start = set@;
    let ghost all = texts(versions@);
    let ghost allowed = opt_text(admission.allowed);
    let mut i: usize = 0;
    assert forall|v: Seq<char>| set@.contains(v) == (start.contains(v) || (exists|j: int|
        0 <= j < 0 && #[trigger] all[j] == v && version_admitted(allowed, v))) by {}
    while i < versions.len()
        invariant
            i <= versions@.len(),
            all == texts(versions@),
            allowed == opt_text(admission.allowed),
            forall|v: Seq<char>| #[trigger]
                set@.contains(v) == (start.contains(v) || (exists|j: int|
                    0 <= j < i && #[trigger] all[j] == v && version_admitted(allowed, v))),
        decreases versions.len() - i,
    {
        let ghost was = set@;
        let version = versions[i].as_str();
        let admitted: bool = admission.admits(version);
        if admitted {
            let added: bool = set.insert(version.to_owned());
        }
        assert forall|v: Seq<char>| #[trigger] set@.contains(v) == (start.contains(v) || (exists|j: int|
            0 <= j < i + 1 && #[trigger] all[j] == v && version_admitted(allowed, v))) by {
            if was.contains(v) && !start.contains(v) {
                let j = choose|j: int| 0 <= j < i && #[trigger] all[j] == v && version_admitted(allowed, v);
                assert(all[j] == v);
            }
            if v == version@ && admitted {
                assert(all[i as int] == v);
            }
            if exists|j: int| 0 <= j < i + 1 && #[trigger] all[j] == v && version_admitted(allowed, v) {
                let j = choose|j: int| 0 <= j < i + 1 && #[trigger] all[j] == v && version_admitted(allowed, v);
                if j < i {
                    assert(was.contains(v));
                }
            }
        }
        i = i + 1;
    }
    assert forall|v: Seq<char>| (all.contains(v) && version_admitted(allowed, v)) == (exists|j: int|
        0 <= j < all.len() && #[trigger] all[j] == v && version_admitted(allowed, v)) by {
        if all.contains(v) && version_admitted(allowed, v) {
            let j = choose|j: int| 0 <= j < all.len() && all[j] == v;
            assert(all[j] == v);
        }
    }
    assert(set@ =~= start.union(Set::new(|v: Seq<char>| all.contains(v) && version_admitted(allowed, v))));
}

/// The versions a policy-filtered page lists.
///
/// The Simple API requires every served file to belong to a listed version and permits a listed version
/// to carry no files. So the set follows the declared releases through version policy rather than the
/// surviving filenames. `served` carries the releases of the files that survived; they already passed
/// the rules, so they need no second check.
pub fn listed_versions(
    admission: &VersionAdmission,
    declared: &Vec<String>,
    local: &Vec<String>,
    served: &Vec<String>,
) -> (r: TextSet)
    ensures
        r@ == listed_set(opt_text(admission.allowed), texts(declared@), texts(local@), texts(served@)),
{
    let mut set = TextSet::new();
    add_admitted(&mut set, admission, declared);
    add_admitted(&mut set, admission, local);
    let open = VersionAdmission { allowed: None };
    add_admitted(&mut set, &open, served);
    assert(set@ =~= listed_set(opt_text(admission.allowed), texts(declared@), texts(local@), texts(served@)));
    set
}

// ---------------------------------------------------------------------------------------------
// Pages
// ---------------------------------------------------------------------------------------------

/// What a policy withholds from one project page, judged against the whole file set so that a
/// release-wide rule sees the siblings that would reach a client together.
pub struct Admission {
    /// The denial that withdraws the whole project: a project rule, or a release-wide rule that the
    /// admitted files violate together.
    pub project: Option<PolicyDenial>,
    /// Each refused file's denial, keyed by filename.
    pub files: TextMap<PolicyDenial>,
}

/// The denials of a map, seen as text.
pub open spec fn denial_texts(map: Map<Seq<char>, PolicyDenial>) -> Map<Seq<char>, DenialText> {
    map.map_values(|d: PolicyDenial| d@)
}

impl Policy {
    /// What the policy says of the file at position `i` of a page.
    pub open spec fn page_verdict(
        self,
        action: PolicyAction,
        project: Seq<char>,
        file: FileText,
        facts: FileFacts,
        now: Option<i64>,
    ) -> Option<DenialText> {
        self.verdict(
            opt_denial(facts.refusal),
            action,
            FactsText { now, ..file_facts(project, file, opt_distribution(facts.parsed)) },
        )
    }

    /// The denials of the first `n` files of a page, keyed by filename; the last one of a name stands.
    pub open spec fn page_denials(
        self,
        action: PolicyAction,
        project: Seq<char>,
        files: Seq<File>,
        facts: Seq<FileFacts>,
        now: Option<i64>,
        n: int,
    ) -> Map<Seq<char>, DenialText>
        decreases n,
    {
        if n <= 0 {
            Map::empty()
        } else {
            let fewer = self.page_denials(action, project, files, facts, now, n - 1);
            match self.page_verdict(action, project, files[n - 1]@, facts[n - 1], now) {
                Some(denial) => fewer.insert(files[n - 1].filename@, denial),
                None => fewer,
            }
        }
    }

    /// The names and sizes of those of the first `n` files that are admitted.
    pub open spec fn page_admitted(
        self,
        action: PolicyAction,
        project: Seq<char>,
        files: Seq<File>,
        facts: Seq<FileFacts>,
        now: Option<i64>,
        n: int,
    ) -> Seq<(Seq<char>, Option<u64>)>
        decreases n,
    {
        if n <= 0 {
            Seq::empty()
        } else {
            let fewer = self.page_admitted(action, project, files, facts, now, n - 1);
            match self.page_verdict(action, project, files[n - 1]@, facts[n - 1], now) {
                Some(_) => fewer,
                None => fewer.push((files[n - 1].filename@, files[n - 1].size)),
            }
        }
    }
}

/// The sum of the sizes, where each is known.
pub open spec fn total_size(files: Seq<(Seq<char>, Option<u64>)>) -> int
    decreases files.len(),
{
    if files.len() == 0 {
        0
    } else {
        total_size(files.drop_last()) + match files.last().1 {
            Some(size) => size as int,
            None => 0,
        }
    }
}

/// A total, held to 64 bits.
pub open spec fn clamped_total(total: int) -> int {
    if total > u64::MAX {
        u64::MAX as int
    } else {
        total
    }
}

/// Whether the size of one of `files` is unknown, and no earlier one's.
pub open spec fn first_unsized(files: Seq<(Seq<char>, Option<u64>)>, i: int) -> bool {
    &&& 0 <= i < files.len()
    &&& files[i].1 is None
    &&& forall|j: int| 0 <= j < i ==> (#[trigger] files[j]).1 is Some
}

/// What the project size limit says of the admitted files: every size must be known, and together they
/// must not exceed the limit.
pub open spec fn size_denial(
    action: PolicyAction,
    project: Seq<char>,
    files: Seq<(Seq<char>, Option<u64>)>,
    limit: u64,
) -> Option<DenialText> {
    if exists|i: int| first_unsized(files, i) {
        let i = choose|i: int| first_unsized(files, i);
        Some(
            DenialText {
                action,
                resource: project,
                artifact: Some(files[i].0),
                group: None,
                rule: "max-project-size"@,
                field: "size"@,
                reason: "project size is unknown because file "@ + quoted_text(files[i].0) + " has no declared size"@,
            },
        )
    } else if clamped_total(total_size(files)) > limit {
        Some(
            DenialText {
                action,
                resource: project,
                artifact: None,
                group: None,
                rule: "max-project-size"@,
                field: "project_size"@,
                reason: "project size "@ + decimal(clamped_total(total_size(files)) as nat) + " exceeds limit "@
                    + decimal(limit as nat),
            },
        )
    } else {
        None
    }
}

/// The names and sizes of the files at `positions`.
pub open spec fn sizes_at(files: Seq<File>, positions: Seq<usize>) -> Seq<(Seq<char>, Option<u64>)> {
    positions.map_values(|i: usize| (files[i as int].filename@, files[i as int].size))
}

fn project_size_denial(
    action: PolicyAction,
    project: &str,
    files: &Vec<File>,
    positions: &Vec<usize>,
    limit: u64,
) -> (r: Option<PolicyDenial>)
    requires
        forall|i: int| 0 <= i < positions@.len() ==> (#[trigger] positions@[i]) < files@.len(),
    ensures
        opt_denial(r) == size_denial(action, project@, sizes_at(files@, positions@), limit),
{
    let ghost all = sizes_at(files@, positions@);
    let mut total: u64 = 0;
    let mut i: usize = 0;
    while i < positions.len()
        invariant
            i <= positions@.len(),
            all == sizes_at(files@, positions@),
            forall|k: int| 0 <= k < positions@.len() ==> (#[trigger] positions@[k]) < files@.len(),
            forall|j: int| 0 <= j < i ==> (#[trigger] all[j]).1 is Some,
            total == clamped_total(total_size(all.take(i as int))),
            total_size(all.take(i as int)) >= 0,
        decreases positions.len() - i,
    {
        let file = &files[positions[i]];
        assert(all[i as int] == (file.filename@, file.size));
        assert(all.take(i + 1).drop_last() =~= all.take(i as int));
        match file.size {
            None => {
                let text = quoted(file.filename.as_str());
                let mut reason = "project size is unknown because file ".to_owned();
                reason.append(text.as_str());
                reason.append(" has no declared size");
                proof {
                    assert(first_unsized(all, i as int));
                    let k = choose|k: int| first_unsized(all, k);
                    if k < i {
                        assert(all[k].1 is Some);
                    } else if k > i {
                        assert(all[i as int].1 is Some);
                    }
                }
                return Some(
                    PolicyDenial {
                        action,
                        resource: project.to_owned(),
                        artifact: Some(file.filename.clone()),
                        group: None,
                        rule: "max-project-size",
                        field: "size",
                        reason,
                    },
                );
            },
            Some(size) => {
                total = total.saturating_add(size);
            },
        }
        i = i + 1;
    }
    assert(all.take(i as int) =~= all);
    if total > limit {
        let mut reason = "project size ".to_owned();
        let total_text = decimal_text(total);
        reason.append(total_text.as_str());
        reason.append(" exceeds limit ");
        let limit_text = decimal_text(limit);
        reason.append(limit_text.as_str());
        Some(
            PolicyDenial {
                action,
                resource: project.to_owned(),
                artifact: None,
                group: None,
                rule: "max-project-size",
                field: "project_size",
                reason,
            },
        )
    } else {
        None
    }
}

/// Whether `r` are the denials of a page: those of its files by name, and behind them that of the project.
pub open spec fn are_previews(
    policy: Policy,
    refusal: Option<PolicyDenial>,
    action: PolicyAction,
    detail: ProjectDetail,
    facts: Seq<FileFacts>,
    r: Seq<PolicyDenial>,
) -> bool {
    let files = policy.file_denials(
        opt_denial(refusal),
        action,
        detail.name@,
        detail.files@,
        facts,
        None,
    );
    let project = policy.page_denial(
        opt_denial(refusal),
        action,
        detail.name@,
        detail.files@,
        facts,
        None,
    );
    let names = listed(files.dom());
    &&& r.len() == names.len() + (if project is Some { 1int } else { 0 })
    &&& forall|i: int| 0 <= i < names.len() ==> (#[trigger] r[i])@ == files[names[i]]
    &&& project is Some ==> r.last()@ == project->0
}

impl Policy {
    /// The denial that withdraws a whole page.
    pub open spec fn page_denial(
        self,
        refusal: Option<DenialText>,
        action: PolicyAction,
        project: Seq<char>,
        files: Seq<File>,
        facts: Seq<FileFacts>,
        now: Option<i64>,
    ) -> Option<DenialText> {
        match self.project_verdict(refusal, action, project) {
            Some(denial) => Some(denial),
            None => if self.active && self.max_resource_size is Some {
                size_denial(
                    action,
                    project,
                    self.page_admitted(action, project, files, facts, now, files.len() as int),
                    self.max_resource_size->0,
                )
            } else {
                None
            },
        }
    }

    /// The denials of a page's files: none where the project itself is refused, or no rule is in force.
    pub open spec fn file_denials(
        self,
        refusal: Option<DenialText>,
        action: PolicyAction,
        project: Seq<char>,
        files: Seq<File>,
        facts: Seq<FileFacts>,
        now: Option<i64>,
    ) -> Map<Seq<char>, DenialText> {
        if self.active && self.project_verdict(refusal, action, project) is None {
            self.page_denials(action, project, files, facts, now, files.len() as int)
        } else {
            Map::empty()
        }
    }

    /// The refusals `action` raises over a page without applying them, so that a caller can report why
    /// a file is withheld. `now` is the serve clock, or nothing on a path without one.
    pub fn admit_detail(
        &self,
        refusal: &Option<PolicyDenial>,
        action: PolicyAction,
        project: &str,
        files: &Vec<File>,
        facts: &Vec<FileFacts>,
        now: Option<i64>,
    ) -> (r: Admission)
        requires
            facts@.len() == files@.len(),
        ensures
            opt_denial(r.project) == self.page_denial(opt_denial(*refusal), action, project@, files@, facts@, now),
            denial_texts(r.files@) == self.file_denials(
                opt_denial(*refusal),
                action,
                project@,
                files@,
                facts@,
                now,
            ),
    {
        match self.check_resource(refusal, action, project) {
            Ok(_) => {},
            Err(denial) => {
                let empty: TextMap<PolicyDenial> = TextMap::new();
                assert(denial_texts(empty@) =~= Map::<Seq<char>, DenialText>::empty());
                return Admission { project: Some(denial), files: empty };
            },
        }
        let mut denials: TextMap<PolicyDenial> = TextMap::new();
        assert(denial_texts(denials@) =~= Map::<Seq<char>, DenialText>::empty());
        if !self.active {
            return Admission { project: None, files: denials };
        }
        let mut admitted: Vec<usize> = Vec::new();
        assert(sizes_at(files@, admitted@) =~= Seq::<(Seq<char>, Option<u64>)>::empty());
        let mut i: usize = 0;
        while i < files.len()
            invariant
                i <= files@.len(),
                facts@.len() == files@.len(),
                denial_texts(denials@) == self.page_denials(action, project@, files@, facts@, now, i as int),
                sizes_at(files@, admitted@) == self.page_admitted(action, project@, files@, facts@, now, i as int),
                forall|k: int| 0 <= k < admitted@.len() ==> (#[trigger] admitted@[k]) < files@.len(),
            decreases files.len() - i,
        {
            let mut known = facts_from_file(project, &files[i], &facts[i].parsed);
            known.now = now;
            let ghost before_map = denials@;
            let ghost before_list = admitted@;
            match self.check_facts(&facts[i].refusal, action, &known) {
                Ok(_) => {
                    admitted.push(i);
                    assert(sizes_at(files@, admitted@) =~= sizes_at(files@, before_list).push(
                        (files@[i as int].filename@, files@[i as int].size),
                    ));
                },
                Err(denial) => {
                    denials.insert(files[i].filename.clone(), denial);
                    assert(denial_texts(denials@) =~= denial_texts(before_map).insert(
                        files@[i as int].filename@,
                        denial@,
                    ));
                },
            }
            i = i + 1;
        }
        let withdrawn: Option<PolicyDenial> = match self.max_resource_size {
            Some(limit) => project_size_denial(action, project, files, &admitted, limit),
            None => None,
        };
        Admission { project: withdrawn, files: denials }
    }

    /// The denials of a page, the files' first and in the order of their names, the project's last.
    pub fn preview_detail(&self, refusal: &Option<PolicyDenial>, action: PolicyAction, detail: &ProjectDetail, facts: &Vec<FileFacts>) -> (r: Vec<PolicyDenial>)
        requires
            facts@.len() == detail.files@.len(),
        ensures
            are_previews(*self, *refusal, action, *detail, facts@, r@),
    {
        let admission = self.admit_detail(refusal, action, detail.name.as_str(), &detail.files, facts, None);
        let ghost files = self.file_denials(opt_denial(*refusal), action, detail.name@, detail.files@, facts@, None);
        let n: usize = admission.files.len();
        let ghost names = admission.files.keys();
        proof {
            crate::collections::listed_is(names);
            assert(files.dom() =~= admission.files@.dom());
        }
        let mut out: Vec<PolicyDenial> = Vec::new();
        let mut i: usize = 0;
        while i < n
            invariant
                i <= n,
                n == admission.files.keys().len(),
                n == admission.files.values().len(),
                names == admission.files.keys(),
                names == listed(files.dom()),
                files == denial_texts(admission.files@),
                forall|k: int|
                    0 <= k < names.len() ==> admission.files@.contains_key(#[trigger] names[k])
                        && admission.files@[names[k]] == admission.files.values()[k],
                out@.len() == i,
                forall|k: int| 0 <= k < i ==> (#[trigger] out@[k])@ == files[names[k]],
            decreases n - i,
        {
            let denial = admission.files.value_at(i).copied();
            out.push(denial);
            i = i + 1;
        }
        match admission.project {
            Some(denial) => {
                out.push(denial);
            },
            None => {},
        }
        out
    }
}

/// The releases of those of the first `n` files whose names are not in `denied_names`.
pub open spec fn served_releases(
    files: Seq<File>,
    facts: Seq<FileFacts>,
    denied_names: Set<Seq<char>>,
    n: int,
) -> Seq<Seq<char>>
    decreases n,
{
    if n <= 0 {
        Seq::empty()
    } else {
        let fewer = served_releases(files, facts, denied_names, n - 1);
        match release_of(opt_distribution(facts[n - 1].parsed)) {
            Some(release) if !denied_names.contains(files[n - 1].filename@) => fewer.push(release),
            _ => fewer,
        }
    }
}

/// The files whose names are not in `denied_names`.
pub open spec fn kept_files(files: Seq<File>, denied_names: Set<Seq<char>>) -> Seq<File> {
    files.filter(|f: File| !denied_names.contains(f.filename@))
}

/// Whether `r` is what a policy leaves of a page.
pub open spec fn is_page_judged(
    policy: Policy,
    refusal: Option<PolicyDenial>,
    action: PolicyAction,
    project: Seq<char>,
    detail: ProjectDetail,
    facts: Seq<FileFacts>,
    now: Option<i64>,
    r: Result<ProjectDetail, PolicyDenial>,
) -> bool {
    let withdrawn = policy.page_denial(
        opt_denial(refusal),
        action,
        project,
        detail.files@,
        facts,
        now,
    );
    let names = policy.file_denials(
        opt_denial(refusal),
        action,
        project,
        detail.files@,
        facts,
        now,
    ).dom();
    match r {
        Err(denial) => withdrawn == Some(denial@),
        Ok(page) => {
            &&& withdrawn is None
            &&& page.meta == detail.meta
            &&& page.name == detail.name
            &&& !policy.active ==> page.files@ == detail.files@ && page.versions@ == detail.versions@
            &&& policy.active ==> page.files@ == kept_files(detail.files@, names) && texts(page.versions@)
                == listed(
                listed_set(
                    policy.allowed_versions(),
                    texts(detail.versions@),
                    Seq::empty(),
                    served_releases(detail.files@, facts, names, detail.files@.len() as int),
                ),
            )
        },
    }
}

impl Policy {
    /// Filter a project page through this policy. `now` is the serve clock, or nothing on a path without
    /// one. A page of an inactive policy passes as it is.
    pub fn apply_detail(
        &self,
        refusal: &Option<PolicyDenial>,
        action: PolicyAction,
        project: &str,
        detail: ProjectDetail,
        facts: &Vec<FileFacts>,
        now: Option<i64>,
    ) -> (r: Result<ProjectDetail, PolicyDenial>)
        requires
            facts@.len() == detail.files@.len(),
        ensures
            is_page_judged(*self, *refusal, action, project@, detail, facts@, now, r),
    {
        let admission = self.admit_detail(refusal, action, project, &detail.files, facts, now);
        match admission.project {
            Some(denial) => {
                return Err(denial);
            },
            None => {},
        }
        if !self.active {
            return Ok(detail);
        }
        let ghost names = self.file_denials(opt_denial(*refusal), action, project@, detail.files@, facts@, now).dom();
        assert(names =~= admission.files@.dom());
        let ProjectDetail { meta, name, versions, files } = detail;
        let ghost all = files@;
        let ghost keep = |f: File| !names.contains(f.filename@);
        let mut kept: Vec<File> = Vec::new();
        let mut served: Vec<String> = Vec::new();
        reveal(Seq::filter);
        assert(all.take(0).filter(keep) =~= Seq::<File>::empty());
        assert(texts(served@) =~= Seq::<Seq<char>>::empty());
        let n: usize = facts.len();
        let mut i: usize = 0;
        for file in it: files
            invariant
                n == all.len(),
                it.seq() == all,
                i == it.index(),
                facts@.len() == all.len(),
                names == admission.files@.dom(),
                keep == (|f: File| !names.contains(f.filename@)),
                kept@ == all.take(i as int).filter(keep),
                texts(served@) == served_releases(all, facts@, names, i as int),
        {
            reveal(Seq::filter);
            assert(all.take(i + 1).drop_last() =~= all.take(i as int));
            assert(all.take(i + 1).last() == file);
            if !admission.files.contains_key(file.filename.as_str()) {
                match crate::distribution::served_version(&facts[i].parsed) {
                    Some(release) => {
                        let ghost so_far = texts(served@);
                        served.push(release);
                        assert(texts(served@) =~= so_far.push(release@));
                    },
                    None => {},
                }
                kept.push(file);
            }
            i = i + 1;
        }
        assert(all.take(all.len() as int) =~= all);
        let admission = VersionAdmission::of(self);
        let none: Vec<String> = Vec::new();
        let set = listed_versions(&admission, &versions, &none, &served);
        assert(texts(none@) =~= Seq::<Seq<char>>::empty());
        let versions = set.to_list();
        Ok(ProjectDetail { meta, name, versions, files: kept })
    }

    /// Drop from a project list the projects that may not be served. `normalized` holds the normalized
    /// name of each entry, and `refusals` what the registry's own rules refuse of it.
    pub fn apply_list(
        &self,
        list: ProjectList,
        normalized: &Vec<String>,
        refusals: &Vec<Option<PolicyDenial>>,
    ) -> (r: ProjectList)
        requires
            normalized@.len() == list.projects@.len(),
            refusals@.len() == list.projects@.len(),
        ensures
            r.meta == list.meta,
            !self.active ==> r.projects@ == list.projects@,
            self.active ==> r.projects@ == self.shown_projects(
                list.projects@,
                normalized@,
                refusals@,
                list.projects@.len() as int,
            ),
    {
        if !self.active {
            return list;
        }
        let ProjectList { meta, projects } = list;
        let ghost all = projects@;
        let mut kept: Vec<ProjectListEntry> = Vec::new();
        let n: usize = normalized.len();
        let mut i: usize = 0;
        for entry in it: projects
            invariant
                n == all.len(),
                it.seq() == all,
                i == it.index(),
                normalized@.len() == all.len(),
                refusals@.len() == all.len(),
                kept@ == self.shown_projects(all, normalized@, refusals@, i as int),
        {
            if self.check_resource(&refusals[i], PolicyAction::Serve, normalized[i].as_str()).is_ok() {
                kept.push(entry);
            }
            i = i + 1;
        }
        ProjectList { meta, projects: kept }
    }

    /// Those of the first `n` projects of a list that may be served.
    pub open spec fn shown_projects(
        self,
        projects: Seq<ProjectListEntry>,
        normalized: Seq<String>,
        refusals: Seq<Option<PolicyDenial>>,
        n: int,
    ) -> Seq<ProjectListEntry>
        decreases n,
    {
        if n <= 0 {
            Seq::empty()
        } else {
            let fewer = self.shown_projects(projects, normalized, refusals, n - 1);
            if self.project_verdict(opt_denial(refusals[n - 1]), PolicyAction::Serve, normalized[n - 1]@) is None {
                fewer.push(projects[n - 1])
            } else {
                fewer
            }
        }
    }
}

/// Every release of a file that a page keeps is among the versions the page lists.
pub proof fn served_files_belong_to_listed_versions(
    policy: Policy,
    declared: Seq<Seq<char>>,
    files: Seq<File>,
    facts: Seq<FileFacts>,
    denied_names: Set<Seq<char>>,
    i: int,
)
    requires
        facts.len() == files.len(),
        0 <= i < files.len(),
        !denied_names.contains(files[i].filename@),
        facts[i].parsed is Some,
    ensures
        listed_set(
            policy.allowed_versions(),
            declared,
            Seq::empty(),
            served_releases(files, facts, denied_names, files.len() as int),
        ).contains(facts[i].parsed->0.version@),
{
    served_release_present(files, facts, denied_names, files.len() as int, i);
}

proof fn served_release_present(
    files: Seq<File>,
    facts: Seq<FileFacts>,
    denied_names: Set<Seq<char>>,
    n: int,
    i: int,
)
    requires
        facts.len() == files.len(),
        0 <= i < n <= files.len(),
        !denied_names.contains(files[i].filename@),
        facts[i].parsed is Some,
    ensures
        served_releases(files, facts, denied_names, n).contains(facts[i].parsed->0.version@),
    decreases n,
{
    let all = served_releases(files, facts, denied_names, n);
    if i == n - 1 {
        assert(all.last() == facts[i].parsed->0.version@);
    } else {
        served_release_present(files, facts, denied_names, n - 1, i);
        let fewer = served_releases(files, facts, denied_names, n - 1);
        let k = choose|k: int| 0 <= k < fewer.len() && fewer[k] == facts[i].parsed->0.version@;
        assert(all[k] == fewer[k]);
    }
}

/// A version that policy denies is listed only where a served file belongs to it.
pub proof fn denied_versions_are_not_listed(
    allowed: Option<Seq<char>>,
    declared: Seq<Seq<char>>,
    local: Seq<Seq<char>>,
    served: Seq<Seq<char>>,
    version: Seq<char>,
)
    requires
        !version_admitted(allowed, version),
        !served.contains(version),
    ensures
        !listed_set(allowed, declared, local, served).contains(version),
{
}

} // verus!
