//! The ecosystem's policy: its configuration, the rules it compiles to, and what they withhold.
//!
//! A registry has rules of its own that know nothing of Python packages. What they refuse comes in as a
//! `refusal`, and stands before what the rules of this module say.
use vstd::prelude::*;

use crate::collections::{listed, TextSet};
use crate::outside::{
    is_version_specifiers, quoted, quoted_text, specifiers_contain, specifiers_contain_version, specifiers_valid,
};
use crate::text::{
    clamped_difference, cut_suffix, join, joined, opt_clone, opt_str, opt_text, pieces, saturating_difference,
    signed_decimal, signed_decimal_text, split, starts_with, strip_suffix, text_eq, texts,
};

verus! {

/// The policy keys of this ecosystem.
pub struct PypiPolicyConfig {
    pub fallback_mode: FallbackMode,
    pub upstream_attestations: RemoteMetadataMode,
    pub allow_projects: Vec<String>,
    pub block_projects: Vec<String>,
    pub protected_names: Vec<String>,
    pub max_file_size_bytes: Option<u64>,
    pub max_project_size_bytes: Option<u64>,
    pub max_projects: Option<u64>,
    pub max_versions_per_project: Option<u64>,
    pub allow_versions: Option<String>,
    pub allow_package_types: Vec<PackageType>,
    pub block_package_types: Vec<PackageType>,
    pub allow_wheel_pythons: Vec<String>,
    pub block_wheel_pythons: Vec<String>,
    pub allow_wheel_platforms: Vec<String>,
    pub block_wheel_platforms: Vec<String>,
    pub min_release_age_secs: Option<u64>,
    /// The predicate types an upload must carry an attestation for. Empty leaves uploads unconstrained;
    /// any entry turns the rule on.
    pub required_attestations: Vec<String>,
    pub attestation_mode: AttestationMode,
}

/// Whether a virtual repository may answer from its cached members.
#[derive(Debug, Clone, Copy, PartialEq, Eq, Structural)]
pub enum FallbackMode {
    Fallback,
    PrivateFirst,
    NoFallback,
}

impl FallbackMode {
    pub open spec fn name(self) -> Seq<char> {
        match self {
            FallbackMode::Fallback => "fallback"@,
            FallbackMode::PrivateFirst => "private-first"@,
            FallbackMode::NoFallback => "no-fallback"@,
        }
    }

    /// The name a configuration gives the mode.
    pub fn as_str(self) -> (r: &'static str)
        ensures
            r@ == self.name(),
    {
        match self {
            FallbackMode::Fallback => "fallback",
            FallbackMode::PrivateFirst => "private-first",
            FallbackMode::NoFallback => "no-fallback",
        }
    }
}

impl Default for FallbackMode {
    fn default() -> (r: Self)
        ensures
            r == FallbackMode::Fallback,
    {
        FallbackMode::Fallback
    }
}

/// Where an upstream's attestations are served from.
#[derive(Debug, Clone, Copy, PartialEq, Eq, Structural)]
pub enum RemoteMetadataMode {
    Direct,
    Proxy,
    Cache,
}

impl RemoteMetadataMode {
    pub open spec fn name(self) -> Seq<char> {
        match self {
            RemoteMetadataMode::Direct => "direct"@,
            RemoteMetadataMode::Proxy => "proxy"@,
            RemoteMetadataMode::Cache => "cache"@,
        }
    }

    /// The name a configuration gives the mode.
    pub fn as_str(self) -> (r: &'static str)
        ensures
            r@ == self.name(),
    {
        match self {
            RemoteMetadataMode::Direct => "direct",
            RemoteMetadataMode::Proxy => "proxy",
            RemoteMetadataMode::Cache => "cache",
        }
    }
}

impl Default for RemoteMetadataMode {
    fn default() -> (r: Self)
        ensures
            r == RemoteMetadataMode::Direct,
    {
        RemoteMetadataMode::Direct
    }
}

/// Whether an unmet required-attestation rule blocks the upload or only records what it would block.
#[derive(Debug, Clone, Copy, PartialEq, Eq, Structural)]
pub enum AttestationMode {
    /// Reject an upload that is missing a required predicate type.
    Enforce,
    /// Record the unmet requirement but publish the upload anyway.
    Audit,
}

/// The denial rule an enforcing required-attestation policy raises.
pub const REQUIRED_ATTESTATION_RULE: &'static str = "required-attestation";

/// The denial rule an auditing required-attestation policy raises; the upload handler treats it as a
/// recorded observation rather than a rejection.
pub const REQUIRED_ATTESTATION_AUDIT_RULE: &'static str = "required-attestation-audit";

impl AttestationMode {
    pub open spec fn rule(self) -> Seq<char> {
        match self {
            AttestationMode::Enforce => REQUIRED_ATTESTATION_RULE@,
            AttestationMode::Audit => REQUIRED_ATTESTATION_AUDIT_RULE@,
        }
    }

    /// The rule a denial in this mode names.
    pub fn rule_name(self) -> (r: &'static str)
        ensures
            r@ == self.rule(),
    {
        match self {
            AttestationMode::Enforce => REQUIRED_ATTESTATION_RULE,
            AttestationMode::Audit => REQUIRED_ATTESTATION_AUDIT_RULE,
        }
    }
}

impl Default for AttestationMode {
    fn default() -> (r: Self)
        ensures
            r == AttestationMode::Enforce,
    {
        AttestationMode::Enforce
    }
}

/// What kind of distribution a file is.
#[derive(Debug, Clone, Copy, PartialEq, Eq, Structural)]
pub enum PackageType {
    Wheel,
    Sdist,
}

impl PackageType {
    pub open spec fn bit(self) -> u8 {
        match self {
            PackageType::Wheel => 1,
            PackageType::Sdist => 2,
        }
    }

    /// The bit that stands for the kind in a mask.
    pub fn mask(self) -> (r: u8)
        ensures
            r == self.bit(),
    {
        match self {
            PackageType::Wheel => 1,
            PackageType::Sdist => 2,
        }
    }

    pub open spec fn name(self) -> Seq<char> {
        match self {
            PackageType::Wheel => "wheel"@,
            PackageType::Sdist => "sdist"@,
        }
    }

    /// The name of the kind.
    pub fn as_str(self) -> (r: &'static str)
        ensures
            r@ == self.name(),
    {
        match self {
            PackageType::Wheel => "wheel",
            PackageType::Sdist => "sdist",
        }
    }

    pub open spec fn named(value: Seq<char>) -> Option<PackageType> {
        if value == "wheel"@ {
            Some(PackageType::Wheel)
        } else if value == "sdist"@ {
            Some(PackageType::Sdist)
        } else {
            None
        }
    }

    /// The kind of that name.
    pub fn parse(value: &str) -> (r: Option<Self>)
        ensures
            r == PackageType::named(value@),
    {
        if text_eq(value, "wheel") {
            Some(PackageType::Wheel)
        } else if text_eq(value, "sdist") {
            Some(PackageType::Sdist)
        } else {
            None
        }
    }
}

/// Why a policy configuration does not compile.
#[derive(Debug)]
pub enum PypiPolicyError {
    /// The version specifiers do not parse.
    VersionSpecifiers(String),
    /// A tag filter is empty.
    EmptyTag(String),
    /// A required predicate type is empty.
    EmptyPredicateType,
}

/// A configuration error, its text seen as characters.
pub enum PolicyErrorText {
    VersionSpecifiers(Seq<char>),
    EmptyTag(Seq<char>),
    EmptyPredicateType,
}

impl PypiPolicyError {
    pub open spec fn view(self) -> PolicyErrorText {
        match self {
            PypiPolicyError::VersionSpecifiers(s) => PolicyErrorText::VersionSpecifiers(s@),
            PypiPolicyError::EmptyTag(s) => PolicyErrorText::EmptyTag(s@),
            PypiPolicyError::EmptyPredicateType => PolicyErrorText::EmptyPredicateType,
        }
    }

    /// What an operator is told.
    pub fn message(&self) -> (r: String)
        ensures
            r@ == match self@ {
                PolicyErrorText::VersionSpecifiers(s) => "invalid PEP 440 version specifier "@ + quoted_text(s),
                PolicyErrorText::EmptyTag(s) => "policy tag "@ + quoted_text(s) + " is empty"@,
                PolicyErrorText::EmptyPredicateType => "required attestation predicate type is empty"@,
            },
    {
        match self {
            PypiPolicyError::VersionSpecifiers(s) => {
                let mut out = "invalid PEP 440 version specifier ".to_owned();
                let text = quoted(s.as_str());
                out.append(text.as_str());
                out
            },
            PypiPolicyError::EmptyTag(s) => {
                let mut out = "policy tag ".to_owned();
                let text = quoted(s.as_str());
                out.append(text.as_str());
                out.append(" is empty");
                out
            },
            PypiPolicyError::EmptyPredicateType => "required attestation predicate type is empty".to_owned(),
        }
    }
}

/// What a request wants to do with a project or a file.
#[derive(Debug, Clone, Copy, PartialEq, Eq, Structural)]
pub enum PolicyAction {
    Cached,
    Serve,
    Upload,
}

/// Why a rule refuses a project or a file.
#[derive(Debug)]
pub struct PolicyDenial {
    pub action: PolicyAction,
    pub resource: String,
    pub artifact: Option<String>,
    pub group: Option<String>,
    pub rule: &'static str,
    pub field: &'static str,
    pub reason: String,
}

/// A denial, its text seen as characters.
pub struct DenialText {
    pub action: PolicyAction,
    pub resource: Seq<char>,
    pub artifact: Option<Seq<char>>,
    pub group: Option<Seq<char>>,
    pub rule: Seq<char>,
    pub field: Seq<char>,
    pub reason: Seq<char>,
}

impl PolicyDenial {
    pub open spec fn view(self) -> DenialText {
        DenialText {
            action: self.action,
            resource: self.resource@,
            artifact: opt_text(self.artifact),
            group: opt_text(self.group),
            rule: self.rule@,
            field: self.field@,
            reason: self.reason@,
        }
    }

    /// A copy.
    pub fn copied(&self) -> (r: Self)
        ensures
            r == *self,
    {
        PolicyDenial {
            action: self.action,
            resource: self.resource.clone(),
            artifact: opt_clone(&self.artifact),
            group: opt_clone(&self.group),
            rule: self.rule,
            field: self.field,
            reason: self.reason.clone(),
        }
    }
}

/// The optional denial, seen as text.
pub open spec fn opt_denial(denial: Option<PolicyDenial>) -> Option<DenialText> {
    match denial {
        Some(denial) => Some(denial@),
        None => None,
    }
}

/// A verdict as what it denies.
pub open spec fn denied(verdict: Result<(), PolicyDenial>) -> Option<DenialText> {
    match verdict {
        Ok(_) => None,
        Err(denial) => Some(denial@),
    }
}

/// What the rules know of a file.
pub struct ArtifactFacts {
    pub resource: String,
    pub artifact: Option<String>,
    pub group: Option<String>,
    pub size: Option<u64>,
    pub upload_time: Option<i64>,
    pub now: Option<i64>,
    pub attributes: Vec<(&'static str, String)>,
}

/// The facts, their text seen as characters.
pub struct FactsText {
    pub resource: Seq<char>,
    pub artifact: Option<Seq<char>>,
    pub group: Option<Seq<char>>,
    pub size: Option<u64>,
    pub upload_time: Option<i64>,
    pub now: Option<i64>,
    pub attributes: Seq<(Seq<char>, Seq<char>)>,
}

/// The value of the first entry named `name`.
pub open spec fn lookup(entries: Seq<(Seq<char>, Seq<char>)>, name: Seq<char>) -> Option<Seq<char>>
    decreases entries.len(),
{
    if entries.len() == 0 {
        None
    } else if entries[0].0 == name {
        Some(entries[0].1)
    } else {
        lookup(entries.skip(1), name)
    }
}

/// Named texts, seen as characters.
pub open spec fn named_texts(entries: Seq<(&'static str, String)>) -> Seq<(Seq<char>, Seq<char>)> {
    entries.map_values(|e: (&'static str, String)| (e.0@, e.1@))
}

/// The first entry named `name`.
pub fn find_named<'a>(entries: &'a Vec<(&'static str, String)>, name: &str) -> (r: Option<&'a str>)
    ensures
        opt_str(r) == lookup(named_texts(entries@), name@),
{
    let ghost all = named_texts(entries@);
    let mut i: usize = 0;
    assert(all.skip(0) =~= all);
    while i < entries.len()
        invariant
            i <= entries@.len(),
            all == named_texts(entries@),
            lookup(all, name@) == lookup(all.skip(i as int), name@),
        decreases entries.len() - i,
    {
        if text_eq(entries[i].0, name) {
            return Some(entries[i].1.as_str());
        }
        assert(all.skip(i as int).skip(1) =~= all.skip(i + 1));
        i = i + 1;
    }
    None
}

impl FactsText {
    pub open spec fn attribute(self, name: Seq<char>) -> Option<Seq<char>> {
        lookup(self.attributes, name)
    }

    pub open spec fn denial(
        self,
        action: PolicyAction,
        rule: Seq<char>,
        field: Seq<char>,
        reason: Seq<char>,
    ) -> DenialText {
        DenialText {
            action,
            resource: self.resource,
            artifact: self.artifact,
            group: self.group,
            rule,
            field,
            reason,
        }
    }
}

impl ArtifactFacts {
    pub open spec fn view(self) -> FactsText {
        FactsText {
            resource: self.resource@,
            artifact: opt_text(self.artifact),
            group: opt_text(self.group),
            size: self.size,
            upload_time: self.upload_time,
            now: self.now,
            attributes: named_texts(self.attributes@),
        }
    }

    /// The attribute of that name.
    pub fn attribute(&self, name: &str) -> (r: Option<&str>)
        ensures
            opt_str(r) == self@.attribute(name@),
    {
        find_named(&self.attributes, name)
    }

    /// A denial of this file.
    pub fn denial(
        &self,
        action: PolicyAction,
        rule: &'static str,
        field: &'static str,
        reason: String,
    ) -> (r: PolicyDenial)
        ensures
            r@ == self@.denial(action, rule@, field@, reason@),
    {
        PolicyDenial {
            action,
            resource: self.resource.clone(),
            artifact: opt_clone(&self.artifact),
            group: opt_clone(&self.group),
            rule,
            field,
            reason,
        }
    }
}

/// The registry-wide limits a policy asks for.
#[derive(Debug, Clone, Copy, PartialEq, Eq, Structural)]
pub struct PolicyLimits {
    pub max_artifact_bytes: Option<u64>,
    pub max_resource_bytes: Option<u64>,
    pub max_accounted_bytes: Option<u64>,
    pub max_resources: Option<u64>,
    pub max_groups_per_resource: Option<u64>,
}

/// Where the wheel tag of a rule is read from, and what its denials say.
#[derive(Debug, Clone, Copy)]
pub struct WheelTagSpec {
    pub attribute: &'static str,
    pub field: &'static str,
    pub allow_rule: &'static str,
    pub block_rule: &'static str,
}

/// A wheel tag's names, seen as characters.
pub struct WheelTagText {
    pub attribute: Seq<char>,
    pub field: Seq<char>,
    pub allow_rule: Seq<char>,
    pub block_rule: Seq<char>,
}

impl WheelTagSpec {
    pub open spec fn view(self) -> WheelTagText {
        WheelTagText {
            attribute: self.attribute@,
            field: self.field@,
            allow_rule: self.allow_rule@,
            block_rule: self.block_rule@,
        }
    }
}

/// One rule on files.
pub enum ArtifactRule {
    /// The file's version must satisfy the specifiers.
    Version { allowed: String },
    /// The file's kind must be in one mask and not in the other.
    PackageType { allow_mask: u8, block_mask: u8 },
    /// One part of the wheel's tag must be allowed, and none blocked.
    WheelTag { spec: WheelTagSpec, allow: TextSet, block: TextSet },
    /// The file must have aged: a fresh upstream release stays hidden for a while, to blunt a malicious
    /// or mistaken release.
    ReleaseDelay { min_age_secs: i64 },
    /// Every required predicate type must appear among the upload's attestations.
    RequiredAttestation { required: TextSet, mode: AttestationMode },
}

/// A rule, its text seen as characters.
pub enum RuleText {
    Version { allowed: Seq<char> },
    PackageType { allow_mask: u8, block_mask: u8 },
    WheelTag { spec: WheelTagText, allow: Set<Seq<char>>, block: Set<Seq<char>> },
    ReleaseDelay { min_age_secs: i64 },
    RequiredAttestation { required: Set<Seq<char>>, mode: AttestationMode },
}

/// The facts attribute an upload sets to the newline-joined predicate types it carries. Only an upload
/// supplies it, so every other file lacks it and the requirement passes there. An empty value still
/// marks an upload the rule judges.
pub const ATTESTATION_PREDICATE_TYPES: &'static str = "attestation_predicate_types";

/// Whether one dot-separated part of the tag is in `set`.
pub open spec fn part_in(tag: Seq<char>, set: Set<Seq<char>>) -> bool {
    let parts = pieces(tag, '.');
    exists|i: int| 0 <= i < parts.len() && set.contains(#[trigger] parts[i])
}

/// Whether there is a tag with one dot-separated part in `set`.
pub open spec fn tag_hits(tag: Option<Seq<char>>, set: Set<Seq<char>>) -> bool {
    match tag {
        Some(tag) => part_in(tag, set),
        None => false,
    }
}

/// The text of an optional tag, empty when there is none.
pub open spec fn or_empty(tag: Option<Seq<char>>) -> Seq<char> {
    match tag {
        Some(tag) => tag,
        None => Seq::empty(),
    }
}

/// The required predicate types that `declared` does not hold, in order.
pub open spec fn missing_types(required: Set<Seq<char>>, declared: Seq<char>) -> Seq<Seq<char>> {
    listed(required).filter(|p: Seq<char>| !(p.len() > 0 && pieces(declared, '\n').contains(p)))
}

impl ArtifactRule {
    pub open spec fn view(self) -> RuleText {
        match self {
            ArtifactRule::Version { allowed } => RuleText::Version { allowed: allowed@ },
            ArtifactRule::PackageType { allow_mask, block_mask } => RuleText::PackageType { allow_mask, block_mask },
            ArtifactRule::WheelTag { spec, allow, block } => RuleText::WheelTag {
                spec: spec@,
                allow: allow@,
                block: block@,
            },
            ArtifactRule::ReleaseDelay { min_age_secs } => RuleText::ReleaseDelay { min_age_secs },
            ArtifactRule::RequiredAttestation { required, mode } => RuleText::RequiredAttestation {
                required: required@,
                mode,
            },
        }
    }
}

/// What a version rule says of a file: its version must be known and satisfy the specifiers.
pub open spec fn version_denial(allowed: Seq<char>, action: PolicyAction, facts: FactsText) -> Option<DenialText> {
    match facts.group {
        None => Some(facts.denial(action, "version-specifier"@, "version"@, "file version is unknown"@)),
        Some(version) => if specifiers_contain(allowed, version) == Some(true) {
            None
        } else {
            Some(
                facts.denial(
                    action,
                    "version-specifier"@,
                    "version"@,
                    "version "@ + version + " is outside the allowed range"@,
                ),
            )
        },
    }
}

/// The kind of distribution the facts name.
pub open spec fn kind_of(facts: FactsText) -> Option<PackageType> {
    match facts.attribute("package_type"@) {
        Some(value) => PackageType::named(value),
        None => None,
    }
}

/// What a package-type rule says of a file. An allow list is judged before a block list, and refuses a
/// file whose kind is unknown.
pub open spec fn package_type_denial(
    allow: u8,
    block: u8,
    action: PolicyAction,
    facts: FactsText,
) -> Option<DenialText> {
    let kind = kind_of(facts);
    if allow != 0 && kind is None {
        Some(facts.denial(action, "package-type-allow-list"@, "package_type"@, "package type is unknown"@))
    } else if allow != 0 && allow & kind->0.bit() == 0 {
        Some(
            facts.denial(
                action,
                "package-type-allow-list"@,
                "package_type"@,
                "package type "@ + kind->0.name() + " is not allowed"@,
            ),
        )
    } else if kind is Some && block & kind->0.bit() != 0 {
        Some(
            facts.denial(
                action,
                "package-type-block-list"@,
                "package_type"@,
                "package type "@ + kind->0.name() + " is blocked"@,
            ),
        )
    } else {
        None
    }
}

/// What a wheel-tag rule says of a file. Wheel tags only constrain wheels.
pub open spec fn wheel_tag_denial(
    spec: WheelTagText,
    allow: Set<Seq<char>>,
    block: Set<Seq<char>>,
    action: PolicyAction,
    facts: FactsText,
) -> Option<DenialText> {
    let tag = facts.attribute(spec.attribute);
    if facts.attribute("package_type"@) != Some("wheel"@) {
        None
    } else if allow != Set::<Seq<char>>::empty() && !tag_hits(tag, allow) {
        Some(
            facts.denial(
                action,
                spec.allow_rule,
                spec.field,
                "wheel tag "@ + quoted_text(or_empty(tag)) + " is not allowed"@,
            ),
        )
    } else if block != Set::<Seq<char>>::empty() && tag_hits(tag, block) {
        Some(
            facts.denial(
                action,
                spec.block_rule,
                spec.field,
                "wheel tag "@ + quoted_text(or_empty(tag)) + " is blocked"@,
            ),
        )
    } else {
        None
    }
}

/// What a release delay says of a file. Without a clock nothing can be aged and the file passes.
pub open spec fn release_delay_denial(min_age_secs: i64, action: PolicyAction, facts: FactsText) -> Option<DenialText> {
    match (facts.now, facts.upload_time) {
        (None, _) => None,
        (Some(_), None) => Some(
            facts.denial(
                action,
                "release-delay"@,
                "upload_time"@,
                "release has no upstream upload time to age against"@,
            ),
        ),
        (Some(now), Some(uploaded)) => {
            let age = clamped_difference(now, uploaded);
            if age < min_age_secs {
                Some(
                    facts.denial(
                        action,
                        "release-delay"@,
                        "upload_time"@,
                        "release is "@ + signed_decimal(age as int) + "s old, within the "@ + signed_decimal(
                            min_age_secs as int,
                        ) + "s upstream delay"@,
                    ),
                )
            } else {
                None
            }
        },
    }
}

/// What a required-attestation rule says of a file. A file that is no upload is not judged.
pub open spec fn attestation_denial(
    required: Set<Seq<char>>,
    mode: AttestationMode,
    action: PolicyAction,
    facts: FactsText,
) -> Option<DenialText> {
    match facts.attribute(ATTESTATION_PREDICATE_TYPES@) {
        None => None,
        Some(declared) => {
            let missing = missing_types(required, declared);
            if missing.len() == 0 {
                None
            } else {
                Some(
                    facts.denial(
                        action,
                        mode.rule(),
                        "attestations"@,
                        "upload is missing a required attestation predicate type: "@ + joined(missing, ", "@),
                    ),
                )
            }
        },
    }
}

/// What one rule says of a file.
pub open spec fn rule_denial(rule: RuleText, action: PolicyAction, facts: FactsText) -> Option<DenialText> {
    match rule {
        RuleText::Version { allowed } => version_denial(allowed, action, facts),
        RuleText::PackageType { allow_mask, block_mask } => package_type_denial(allow_mask, block_mask, action, facts),
        RuleText::WheelTag { spec, allow, block } => wheel_tag_denial(spec, allow, block, action, facts),
        RuleText::ReleaseDelay { min_age_secs } => release_delay_denial(min_age_secs, action, facts),
        RuleText::RequiredAttestation { required, mode } => attestation_denial(required, mode, action, facts),
    }
}

fn check_version(allowed: &str, action: PolicyAction, facts: &ArtifactFacts) -> (r: Result<(), PolicyDenial>)
    ensures
        denied(r) == version_denial(allowed@, action, facts@),
{
    let version = match &facts.group {
        Some(version) => version,
        None => {
            return Err(facts.denial(action, "version-specifier", "version", "file version is unknown".to_owned()));
        },
    };
    match specifiers_contain_version(allowed, version.as_str()) {
        Some(true) => Ok(()),
        _ => {
            let mut reason = "version ".to_owned();
            reason.append(version.as_str());
            reason.append(" is outside the allowed range");
            Err(facts.denial(action, "version-specifier", "version", reason))
        },
    }
}

fn check_package_type(allow: u8, block: u8, action: PolicyAction, facts: &ArtifactFacts) -> (r: Result<
    (),
    PolicyDenial,
>)
    ensures
        denied(r) == package_type_denial(allow, block, action, facts@),
{
    let kind: Option<PackageType> = match facts.attribute("package_type") {
        Some(value) => PackageType::parse(value),
        None => None,
    };
    if allow != 0 {
        match kind {
            None => {
                return Err(
                    facts.denial(
                        action,
                        "package-type-allow-list",
                        "package_type",
                        "package type is unknown".to_owned(),
                    ),
                );
            },
            Some(kind) => {
                if allow & kind.mask() == 0 {
                    let mut reason = "package type ".to_owned();
                    reason.append(kind.as_str());
                    reason.append(" is not allowed");
                    return Err(facts.denial(action, "package-type-allow-list", "package_type", reason));
                }
            },
        }
    }
    match kind {
        Some(kind) => {
            if block & kind.mask() != 0 {
                let mut reason = "package type ".to_owned();
                reason.append(kind.as_str());
                reason.append(" is blocked");
                return Err(facts.denial(action, "package-type-block-list", "package_type", reason));
            }
        },
        None => {},
    }
    Ok(())
}

fn hits(tag: Option<&str>, set: &TextSet) -> (r: bool)
    ensures
        r == tag_hits(opt_str(tag), set@),
{
    match tag {
        Some(tag) => any_part(tag, set),
        None => false,
    }
}

fn any_part(tag: &str, set: &TextSet) -> (r: bool)
    ensures
        r == part_in(tag@, set@),
{
    let parts = split(tag, '.');
    let ghost all = pieces(tag@, '.');
    let mut i: usize = 0;
    while i < parts.len()
        invariant
            i <= parts@.len(),
            parts@.len() == all.len(),
            texts(parts@) == all,
            all == pieces(tag@, '.'),
            forall|j: int| 0 <= j < i ==> !set@.contains(#[trigger] all[j]),
        decreases parts.len() - i,
    {
        assert(texts(parts@)[i as int] == parts@[i as int]@);
        if set.contains(parts[i].as_str()) {
            assert(set@.contains(all[i as int]));
            return true;
        }
        i = i + 1;
    }
    false
}

fn quoted_tag(tag: Option<&str>) -> (r: String)
    ensures
        r@ == quoted_text(or_empty(opt_str(tag))),
{
    match tag {
        Some(tag) => quoted(tag),
        None => {
            let empty = String::new();
            quoted(empty.as_str())
        },
    }
}

fn set_is_empty(set: &TextSet) -> (r: bool)
    ensures
        r == (set@ == Set::<Seq<char>>::empty()),
{
    let n: usize = set.len();
    proof {
        if n == 0 {
            assert(set@ =~= Set::<Seq<char>>::empty());
        } else {
            assert(set.list().to_set().contains(set.list()[0]));
        }
    }
    n == 0
}

fn check_wheel_tag(
    spec: WheelTagSpec,
    allow: &TextSet,
    block: &TextSet,
    action: PolicyAction,
    facts: &ArtifactFacts,
) -> (r: Result<(), PolicyDenial>)
    ensures
        denied(r) == wheel_tag_denial(spec@, allow@, block@, action, facts@),
{
    match facts.attribute("package_type") {
        Some(value) => {
            if !text_eq(value, "wheel") {
                return Ok(());
            }
        },
        None => {
            return Ok(());
        },
    }
    let tag = facts.attribute(spec.attribute);
    if !set_is_empty(allow) && !hits(tag, allow) {
        let mut reason = "wheel tag ".to_owned();
        let text = quoted_tag(tag);
        reason.append(text.as_str());
        reason.append(" is not allowed");
        return Err(facts.denial(action, spec.allow_rule, spec.field, reason));
    }
    if !set_is_empty(block) && hits(tag, block) {
        let mut reason = "wheel tag ".to_owned();
        let text = quoted_tag(tag);
        reason.append(text.as_str());
        reason.append(" is blocked");
        return Err(facts.denial(action, spec.block_rule, spec.field, reason));
    }
    Ok(())
}

fn check_release_delay(min_age_secs: i64, action: PolicyAction, facts: &ArtifactFacts) -> (r: Result<(), PolicyDenial>)
    ensures
        denied(r) == release_delay_denial(min_age_secs, action, facts@),
{
    let now: i64 = match facts.now {
        Some(now) => now,
        None => {
            return Ok(());
        },
    };
    let uploaded: i64 = match facts.upload_time {
        Some(uploaded) => uploaded,
        None => {
            return Err(
                facts.denial(
                    action,
                    "release-delay",
                    "upload_time",
                    "release has no upstream upload time to age against".to_owned(),
                ),
            );
        },
    };
    let age: i64 = saturating_difference(now, uploaded);
    if age < min_age_secs {
        let mut reason = "release is ".to_owned();
        let age_text = signed_decimal_text(age);
        reason.append(age_text.as_str());
        reason.append("s old, within the ");
        let min_text = signed_decimal_text(min_age_secs);
        reason.append(min_text.as_str());
        reason.append("s upstream delay");
        return Err(facts.denial(action, "release-delay", "upload_time", reason));
    }
    Ok(())
}

fn missing_list(required: &TextSet, declared: &str) -> (r: Vec<String>)
    ensures
        texts(r@) == missing_types(required@, declared@),
{
    let parts = split(declared, '\n');
    let n: usize = required.len();
    let ghost keep = |p: Seq<char>| !(p.len() > 0 && pieces(declared@, '\n').contains(p));
    let ghost all = listed(required@);
    let mut out: Vec<String> = Vec::new();
    let mut i: usize = 0;
    reveal(Seq::filter);
    assert(all.take(0).filter(keep) =~= Seq::<Seq<char>>::empty());
    while i < n
        invariant
            i <= n,
            n == required.list().len(),
            all == required.list(),
            texts(parts@) == pieces(declared@, '\n'),
            keep == (|p: Seq<char>| !(p.len() > 0 && pieces(declared@, '\n').contains(p))),
            texts(out@) == all.take(i as int).filter(keep),
        decreases n - i,
    {
        let name = required.at(i);
        reveal(Seq::filter);
        assert(all.take(i + 1).drop_last() =~= all.take(i as int));
        assert(all.take(i + 1).last() == name@);
        if !(!name.is_empty() && crate::text::contains_text(&parts, name)) {
            let copy = name.to_owned();
            let ghost so_far = texts(out@);
            out.push(copy);
            assert(texts(out@) =~= so_far.push(copy@));
        }
        i = i + 1;
    }
    assert(all.take(i as int) =~= all);
    out
}

fn check_attestations(
    required: &TextSet,
    mode: AttestationMode,
    action: PolicyAction,
    facts: &ArtifactFacts,
) -> (r: Result<(), PolicyDenial>)
    ensures
        denied(r) == attestation_denial(required@, mode, action, facts@),
{
    let declared = match facts.attribute(ATTESTATION_PREDICATE_TYPES) {
        Some(declared) => declared,
        None => {
            return Ok(());
        },
    };
    let missing = missing_list(required, declared);
    assert(texts(missing@).len() == missing@.len());
    if missing.len() == 0 {
        return Ok(());
    }
    let mut reason = "upload is missing a required attestation predicate type: ".to_owned();
    let list = join(&missing, ", ");
    reason.append(list.as_str());
    Err(facts.denial(action, mode.rule_name(), "attestations", reason))
}

impl ArtifactRule {
    /// Judge one file.
    pub fn check(&self, action: PolicyAction, facts: &ArtifactFacts) -> (r: Result<(), PolicyDenial>)
        ensures
            denied(r) == rule_denial(self@, action, facts@),
    {
        match self {
            ArtifactRule::Version { allowed } => check_version(allowed.as_str(), action, facts),
            ArtifactRule::PackageType { allow_mask, block_mask } => {
                check_package_type(*allow_mask, *block_mask, action, facts)
            },
            ArtifactRule::WheelTag { spec, allow, block } => check_wheel_tag(*spec, allow, block, action, facts),
            ArtifactRule::ReleaseDelay { min_age_secs } => check_release_delay(*min_age_secs, action, facts),
            ArtifactRule::RequiredAttestation { required, mode } => check_attestations(required, *mode, action, facts),
        }
    }
}

// ---------------------------------------------------------------------------------------------
// Projects
// ---------------------------------------------------------------------------------------------

/// The project names of a configuration, normalized.
pub struct NormalizedNames {
    pub allow_projects: Vec<String>,
    pub block_projects: Vec<String>,
    pub protected_names: Vec<String>,
}

/// The rule on projects: which names are allowed, blocked, or protected from upstream content.
pub struct PypiProjectRule {
    pub allow_projects: TextSet,
    pub block_projects: TextSet,
    pub protected_names: Vec<String>,
}

/// Whether the protected name `rule` covers `project`: one that ends in a star covers every name with
/// what stands before it.
pub open spec fn covers(rule: Seq<char>, project: Seq<char>) -> bool {
    match cut_suffix(rule, "*"@) {
        Some(prefix) => prefix.is_prefix_of(project),
        None => rule == project,
    }
}

/// Whether one of the protected names covers `project`.
pub open spec fn is_protected(names: Seq<Seq<char>>, project: Seq<char>) -> bool {
    exists|i: int| 0 <= i < names.len() && covers(#[trigger] names[i], project)
}

/// What the project rule says of `project`.
pub open spec fn project_denial(
    allow: Set<Seq<char>>,
    block: Set<Seq<char>>,
    protected: Seq<Seq<char>>,
    action: PolicyAction,
    project: Seq<char>,
) -> Option<DenialText> {
    let deny = |rule: Seq<char>, reason: Seq<char>|
        Some(
            DenialText {
                action,
                resource: project,
                artifact: None,
                group: None,
                rule,
                field: "project"@,
                reason,
            },
        );
    if action == PolicyAction::Cached && is_protected(protected, project) {
        deny("protected-name"@, "project "@ + quoted_text(project) + " is protected from upstream fallback"@)
    } else if allow != Set::<Seq<char>>::empty() && !allow.contains(project) {
        deny("project-allow-list"@, "project "@ + quoted_text(project) + " is not in the allow list"@)
    } else if block.contains(project) {
        deny("project-block-list"@, "project "@ + quoted_text(project) + " is blocked"@)
    } else {
        None
    }
}

/// The set of the texts of `names`.
pub fn text_set(names: &Vec<String>) -> (r: TextSet)
    ensures
        r@ == texts(names@).to_set(),
{
    let mut set = TextSet::new();
    let ghost all = texts(names@);
    let mut i: usize = 0;
    assert(all.take(0).to_set() =~= Set::<Seq<char>>::empty());
    while i < names.len()
        invariant
            i <= names@.len(),
            all == texts(names@),
            set@ == all.take(i as int).to_set(),
        decreases names.len() - i,
    {
        let ghost was = set@;
        let added: bool = set.insert(names[i].clone());
        i = i + 1;
        let ghost fewer = all.take(i - 1);
        let ghost more = all.take(i as int);
        assert(more =~= fewer.push(all[i - 1]));
        assert forall|k: Seq<char>| set@.contains(k) == more.to_set().contains(k) by {
            if fewer.contains(k) {
                let m = choose|m: int| 0 <= m < fewer.len() && fewer[m] == k;
                assert(more[m] == k);
            }
            if k == all[i - 1] {
                assert(more[i - 1] == k);
            }
            if more.contains(k) && k != all[i - 1] {
                let m = choose|m: int| 0 <= m < more.len() && more[m] == k;
                assert(fewer[m] == k);
            }
        }
        assert(set@ =~= all.take(i as int).to_set());
    }
    assert(all.take(i as int) =~= all);
    set
}

impl PypiProjectRule {
    /// The rule of a configuration's normalized names.
    pub fn new(names: NormalizedNames) -> (r: Self)
        ensures
            r.allow_projects@ == texts(names.allow_projects@).to_set(),
            r.block_projects@ == texts(names.block_projects@).to_set(),
            r.protected_names == names.protected_names,
    {
        PypiProjectRule {
            allow_projects: text_set(&names.allow_projects),
            block_projects: text_set(&names.block_projects),
            protected_names: names.protected_names,
        }
    }

    /// Whether a protected name covers `project`.
    pub fn protected(&self, project: &str) -> (r: bool)
        ensures
            r == is_protected(texts(self.protected_names@), project@),
    {
        let ghost all = texts(self.protected_names@);
        let mut i: usize = 0;
        while i < self.protected_names.len()
            invariant
                i <= self.protected_names@.len(),
                all == texts(self.protected_names@),
                forall|j: int| 0 <= j < i ==> !covers(#[trigger] all[j], project@),
            decreases self.protected_names.len() - i,
        {
            let rule = self.protected_names[i].as_str();
            let covered: bool = match strip_suffix(rule, "*") {
                Some(prefix) => starts_with(project, prefix),
                None => text_eq(rule, project),
            };
            if covered {
                assert(covers(all[i as int], project@));
                return true;
            }
            i = i + 1;
        }
        false
    }

    /// What the rule says of `project`.
    pub open spec fn says(self, action: PolicyAction, project: Seq<char>) -> Option<DenialText> {
        project_denial(
            self.allow_projects@,
            self.block_projects@,
            texts(self.protected_names@),
            action,
            project,
        )
    }

    /// Judge one project.
    pub fn check(&self, action: PolicyAction, project: &str) -> (r: Result<(), PolicyDenial>)
        ensures
            denied(r) == self.says(action, project@),
    {
        let (rule, tail): (&'static str, &'static str) = if action == PolicyAction::Cached && self.protected(project) {
            ("protected-name", " is protected from upstream fallback")
        } else if !set_is_empty(&self.allow_projects) && !self.allow_projects.contains(project) {
            ("project-allow-list", " is not in the allow list")
        } else if self.block_projects.contains(project) {
            ("project-block-list", " is blocked")
        } else {
            return Ok(());
        };
        let mut reason = "project ".to_owned();
        let text = quoted(project);
        reason.append(text.as_str());
        reason.append(tail);
        Err(
            PolicyDenial {
                action,
                resource: project.to_owned(),
                artifact: None,
                group: None,
                rule,
                field: "project",
                reason,
            },
        )
    }
}

// ---------------------------------------------------------------------------------------------
// Compiling a configuration
// ---------------------------------------------------------------------------------------------

/// What a policy configuration compiles to.
pub struct PolicyCapabilities {
    pub limits: PolicyLimits,
    /// Settings that travel with the policy, by name.
    pub owner_settings: Vec<(&'static str, String)>,
    /// Whether the policy counts as active even without a rule.
    pub activated: bool,
    pub resource_rules: Vec<PypiProjectRule>,
    pub artifact_rules: Vec<ArtifactRule>,
}

/// Where [`VersionAdmission`] reads the configured version specifier back from.
pub const ALLOW_VERSIONS_SETTING: &'static str = "pypi.allow-versions";

pub const FALLBACK_MODE_SETTING: &'static str = "pypi.fallback-mode";

pub const REMOTE_METADATA_SETTING: &'static str = "pypi.remote-metadata-mode";

/// Whether one of `values` is empty.
pub open spec fn has_empty(values: Seq<Seq<char>>) -> bool {
    exists|i: int| 0 <= i < values.len() && (#[trigger] values[i]).len() == 0
}

/// The first error of a configuration, in the order in which its keys are read.
pub open spec fn config_error(config: PypiPolicyConfig) -> Option<PolicyErrorText> {
    if config.allow_versions is Some && !specifiers_valid(config.allow_versions->0@) {
        Some(PolicyErrorText::VersionSpecifiers(config.allow_versions->0@))
    } else if has_empty(texts(config.allow_wheel_pythons@)) || has_empty(texts(config.block_wheel_pythons@))
        || has_empty(texts(config.allow_wheel_platforms@)) || has_empty(texts(config.block_wheel_platforms@)) {
        Some(PolicyErrorText::EmptyTag(Seq::empty()))
    } else if has_empty(texts(config.required_attestations@)) {
        Some(PolicyErrorText::EmptyPredicateType)
    } else {
        None
    }
}

/// One rule, when its condition holds.
pub open spec fn rule_if(condition: bool, rule: RuleText) -> Seq<RuleText> {
    if condition {
        seq![rule]
    } else {
        Seq::empty()
    }
}

/// The mask of the kinds in `types`.
pub open spec fn mask_of(types: Seq<PackageType>) -> u8 {
    if types.contains(PackageType::Wheel) {
        if types.contains(PackageType::Sdist) {
            3
        } else {
            1
        }
    } else if types.contains(PackageType::Sdist) {
        2
    } else {
        0
    }
}

pub open spec fn python_tag_spec() -> WheelTagText {
    WheelTagText {
        attribute: "python_tag"@,
        field: "wheel_python"@,
        allow_rule: "wheel-python-allow-list"@,
        block_rule: "wheel-python-block-list"@,
    }
}

pub open spec fn platform_tag_spec() -> WheelTagText {
    WheelTagText {
        attribute: "platform_tag"@,
        field: "wheel_platform"@,
        allow_rule: "wheel-platform-allow-list"@,
        block_rule: "wheel-platform-block-list"@,
    }
}

/// `secs`, held to the range of 64 signed bits.
pub open spec fn clamped_secs(secs: u64) -> i64 {
    if secs > i64::MAX {
        i64::MAX
    } else {
        secs as i64
    }
}

pub open spec fn wheel_rule(spec: WheelTagText, allow: Seq<Seq<char>>, block: Seq<Seq<char>>) -> Seq<RuleText> {
    rule_if(
        allow.len() > 0 || block.len() > 0,
        RuleText::WheelTag { spec, allow: allow.to_set(), block: block.to_set() },
    )
}

/// The rules of a configuration, in the order in which they judge. The attestation rule stands last, so
/// that a file refused on its name, size, or a tag reports that, and the requirement applies only to a
/// file that would otherwise publish.
pub open spec fn config_rules(config: PypiPolicyConfig) -> Seq<RuleText> {
    rule_if(config.allow_versions is Some, RuleText::Version { allowed: config.allow_versions->0@ }) + rule_if(
        config.allow_package_types@.len() > 0 || config.block_package_types@.len() > 0,
        RuleText::PackageType {
            allow_mask: mask_of(config.allow_package_types@),
            block_mask: mask_of(config.block_package_types@),
        },
    ) + wheel_rule(python_tag_spec(), texts(config.allow_wheel_pythons@), texts(config.block_wheel_pythons@))
        + wheel_rule(platform_tag_spec(), texts(config.allow_wheel_platforms@), texts(config.block_wheel_platforms@))
        + rule_if(
        config.min_release_age_secs is Some && config.min_release_age_secs->0 > 0,
        RuleText::ReleaseDelay { min_age_secs: clamped_secs(config.min_release_age_secs->0) },
    ) + rule_if(
        config.required_attestations@.len() > 0,
        RuleText::RequiredAttestation {
            required: texts(config.required_attestations@).to_set(),
            mode: config.attestation_mode,
        },
    )
}

/// One setting, when its condition holds.
pub open spec fn setting_if(condition: bool, name: Seq<char>, value: Seq<char>) -> Seq<(Seq<char>, Seq<char>)> {
    if condition {
        seq![(name, value)]
    } else {
        Seq::empty()
    }
}

/// The settings of a configuration: every mode that is not the default one, and the version specifier.
pub open spec fn config_settings(config: PypiPolicyConfig) -> Seq<(Seq<char>, Seq<char>)> {
    setting_if(config.fallback_mode != FallbackMode::Fallback, FALLBACK_MODE_SETTING@, config.fallback_mode.name())
        + setting_if(
        config.upstream_attestations != RemoteMetadataMode::Direct,
        REMOTE_METADATA_SETTING@,
        config.upstream_attestations.name(),
    ) + setting_if(config.allow_versions is Some, ALLOW_VERSIONS_SETTING@, config.allow_versions->0@)
}

/// The rules, seen as text.
pub open spec fn rule_texts(rules: Seq<ArtifactRule>) -> Seq<RuleText> {
    rules.map_values(|r: ArtifactRule| r@)
}

fn tags(values: &Vec<String>) -> (r: Result<TextSet, PypiPolicyError>)
    ensures
        match r {
            Ok(set) => !has_empty(texts(values@)) && set@ == texts(values@).to_set(),
            Err(error) => has_empty(texts(values@)) && error@ == PolicyErrorText::EmptyTag(Seq::empty()),
        },
{
    let ghost all = texts(values@);
    let mut i: usize = 0;
    while i < values.len()
        invariant
            i <= values@.len(),
            all == texts(values@),
            forall|j: int| 0 <= j < i ==> (#[trigger] all[j]).len() > 0,
        decreases values.len() - i,
    {
        if values[i].as_str().is_empty() {
            assert(all[i as int].len() == 0);
            assert(values@[i as int]@ =~= Seq::<char>::empty());
            return Err(PypiPolicyError::EmptyTag(values[i].clone()));
        }
        i = i + 1;
    }
    Ok(text_set(values))
}

fn push_wheel_tag_rule(
    rules: &mut Vec<ArtifactRule>,
    spec: WheelTagSpec,
    allow: &Vec<String>,
    block: &Vec<String>,
) -> (r: Result<(), PypiPolicyError>)
    ensures
        match r {
            Ok(_) => !has_empty(texts(allow@)) && !has_empty(texts(block@)) && rule_texts(final(rules)@)
                == rule_texts(old(rules)@) + wheel_rule(spec@, texts(allow@), texts(block@)),
            Err(error) => (has_empty(texts(allow@)) || has_empty(texts(block@))) && error@
                == PolicyErrorText::EmptyTag(Seq::empty()),
        },
{
    let allowed = match tags(allow) {
        Ok(set) => set,
        Err(error) => {
            return Err(error);
        },
    };
    let blocked = match tags(block) {
        Ok(set) => set,
        Err(error) => {
            return Err(error);
        },
    };
    let ghost start = rules@;
    if allow.len() > 0 || block.len() > 0 {
        let rule = ArtifactRule::WheelTag { spec, allow: allowed, block: blocked };
        rules.push(rule);
        assert(rule_texts(rules@) =~= rule_texts(start) + seq![rule@]);
    } else {
        assert(rule_texts(rules@) =~= rule_texts(start) + Seq::<RuleText>::empty());
    }
    Ok(())
}

/// The mask of the kinds in `types`.
pub fn package_mask(types: &Vec<PackageType>) -> (r: u8)
    ensures
        r == mask_of(types@),
        (r == 0) == (types@.len() == 0),
{
    let mut wheel: bool = false;
    let mut sdist: bool = false;
    let mut mask: u8 = 0;
    let mut i: usize = 0;
    while i < types.len()
        invariant
            i <= types@.len(),
            wheel == (exists|j: int| 0 <= j < i && #[trigger] types@[j] == PackageType::Wheel),
            sdist == (exists|j: int| 0 <= j < i && #[trigger] types@[j] == PackageType::Sdist),
            mask == (if wheel { 1u8 } else { 0 }) + (if sdist { 2u8 } else { 0 }),
            i > 0 ==> wheel || sdist,
        decreases types.len() - i,
    {
        let kind: PackageType = types[i];
        let ghost before = mask;
        mask = mask | kind.mask();
        proof {
            assert(types@[i as int] == kind);
            assert((0u8 | 1) == 1 && (1u8 | 1) == 1 && (2u8 | 1) == 3 && (3u8 | 1) == 3 && (0u8 | 2) == 2 && (1u8
                | 2) == 3 && (2u8 | 2) == 2 && (3u8 | 2) == 3) by (bit_vector);
        }
        match kind {
            PackageType::Wheel => {
                wheel = true;
            },
            PackageType::Sdist => {
                sdist = true;
            },
        }
        i = i + 1;
    }
    mask
}

/// Whether `r` is what a configuration compiles to.
pub open spec fn is_compiled(config: PypiPolicyConfig, names: NormalizedNames, r: Result<PolicyCapabilities, PypiPolicyError>) -> bool {
    match r {
        Err(error) => config_error(config) == Some(error@),
        Ok(compiled) => {
            &&& config_error(config) is None
            &&& compiled.limits == (PolicyLimits {
                max_artifact_bytes: config.max_file_size_bytes,
                max_resource_bytes: config.max_project_size_bytes,
                max_accounted_bytes: None,
                max_resources: config.max_projects,
                max_groups_per_resource: config.max_versions_per_project,
            })
            &&& named_texts(compiled.owner_settings@) == config_settings(config)
            &&& compiled.activated == (config.fallback_mode != FallbackMode::Fallback)
            &&& rule_texts(compiled.artifact_rules@) == config_rules(config)
            &&& compiled.resource_rules@.len() == (if config.allow_projects@.len() > 0
                || config.block_projects@.len() > 0 || config.protected_names@.len() > 0 {
                1int
            } else {
                0
            })
            &&& compiled.resource_rules@.len() == 1 ==> {
                let rule = compiled.resource_rules@[0];
                &&& rule.allow_projects@ == texts(names.allow_projects@).to_set()
                &&& rule.block_projects@ == texts(names.block_projects@).to_set()
                &&& rule.protected_names == names.protected_names
            }
        },
    }
}

/// Compile a configuration. `names` holds its project names, normalized.
pub fn compile_capabilities(config: &PypiPolicyConfig, names: NormalizedNames) -> (r: Result<
    PolicyCapabilities,
    PypiPolicyError,
>)
    ensures
        is_compiled(*config, names, r),
{
    let limits = PolicyLimits {
        max_artifact_bytes: config.max_file_size_bytes,
        max_resource_bytes: config.max_project_size_bytes,
        max_accounted_bytes: None,
        max_resources: config.max_projects,
        max_groups_per_resource: config.max_versions_per_project,
    };
    let mut owner_settings: Vec<(&'static str, String)> = Vec::new();
    let mut activated: bool = false;
    let ghost s1 = setting_if(
        config.fallback_mode != FallbackMode::Fallback,
        FALLBACK_MODE_SETTING@,
        config.fallback_mode.name(),
    );
    if config.fallback_mode != FallbackMode::Fallback {
        owner_settings.push((FALLBACK_MODE_SETTING, config.fallback_mode.as_str().to_owned()));
        activated = true;
    }
    assert(named_texts(owner_settings@) =~= s1);
    let ghost s2 = setting_if(
        config.upstream_attestations != RemoteMetadataMode::Direct,
        REMOTE_METADATA_SETTING@,
        config.upstream_attestations.name(),
    );
    if config.upstream_attestations != RemoteMetadataMode::Direct {
        owner_settings.push((REMOTE_METADATA_SETTING, config.upstream_attestations.as_str().to_owned()));
    }
    assert(named_texts(owner_settings@) =~= s1 + s2);
    let mut resource_rules: Vec<PypiProjectRule> = Vec::new();
    if config.allow_projects.len() > 0 || config.block_projects.len() > 0 || config.protected_names.len() > 0 {
        resource_rules.push(PypiProjectRule::new(names));
    }
    let mut rules: Vec<ArtifactRule> = Vec::new();
    let ghost r1 = rule_if(config.allow_versions is Some, RuleText::Version { allowed: config.allow_versions->0@ });
    let ghost s3 = setting_if(config.allow_versions is Some, ALLOW_VERSIONS_SETTING@, config.allow_versions->0@);
    match &config.allow_versions {
        Some(specifier) => {
            if !is_version_specifiers(specifier.as_str()) {
                return Err(PypiPolicyError::VersionSpecifiers(specifier.clone()));
            }
            owner_settings.push((ALLOW_VERSIONS_SETTING, specifier.clone()));
            rules.push(ArtifactRule::Version { allowed: specifier.clone() });
        },
        None => {},
    }
    assert(named_texts(owner_settings@) =~= s1 + s2 + s3);
    assert(rule_texts(rules@) =~= r1);
    let allow: u8 = package_mask(&config.allow_package_types);
    let block: u8 = package_mask(&config.block_package_types);
    let ghost r2 = rule_if(
        config.allow_package_types@.len() > 0 || config.block_package_types@.len() > 0,
        RuleText::PackageType {
            allow_mask: mask_of(config.allow_package_types@),
            block_mask: mask_of(config.block_package_types@),
        },
    );
    if allow != 0 || block != 0 {
        rules.push(ArtifactRule::PackageType { allow_mask: allow, block_mask: block });
    }
    assert(rule_texts(rules@) =~= r1 + r2);
    match push_wheel_tag_rule(
        &mut rules,
        WheelTagSpec {
            attribute: "python_tag",
            field: "wheel_python",
            allow_rule: "wheel-python-allow-list",
            block_rule: "wheel-python-block-list",
        },
        &config.allow_wheel_pythons,
        &config.block_wheel_pythons,
    ) {
        Ok(_) => {},
        Err(error) => {
            return Err(error);
        },
    }
    match push_wheel_tag_rule(
        &mut rules,
        WheelTagSpec {
            attribute: "platform_tag",
            field: "wheel_platform",
            allow_rule: "wheel-platform-allow-list",
            block_rule: "wheel-platform-block-list",
        },
        &config.allow_wheel_platforms,
        &config.block_wheel_platforms,
    ) {
        Ok(_) => {},
        Err(error) => {
            return Err(error);
        },
    }
    let ghost r4 = rule_texts(rules@);
    let ghost r5 = rule_if(
        config.min_release_age_secs is Some && config.min_release_age_secs->0 > 0,
        RuleText::ReleaseDelay { min_age_secs: clamped_secs(config.min_release_age_secs->0) },
    );
    match config.min_release_age_secs {
        Some(secs) => {
            if secs > 0 {
                let min_age_secs: i64 = if secs > i64::MAX as u64 {
                    i64::MAX
                } else {
                    secs as i64
                };
                rules.push(ArtifactRule::ReleaseDelay { min_age_secs });
            }
        },
        None => {},
    }
    assert(rule_texts(rules@) =~= r4 + r5);
    if config.required_attestations.len() > 0 {
        match tags(&config.required_attestations) {
            Ok(required) => {
                let rule = ArtifactRule::RequiredAttestation { required, mode: config.attestation_mode };
                rules.push(rule);
                assert(rule_texts(rules@) =~= r4 + r5 + seq![rule@]);
            },
            Err(_) => {
                return Err(PypiPolicyError::EmptyPredicateType);
            },
        }
    } else {
        assert(rule_texts(rules@) =~= r4 + r5 + Seq::<RuleText>::empty());
    }
    Ok(PolicyCapabilities { limits, owner_settings, activated, resource_rules, artifact_rules: rules })
}

/// Whether a policy table may hold the key.
pub open spec fn is_config_key(key: Seq<char>) -> bool {
    key == "fallback_mode"@
        || key == "upstream_attestations"@
        || key == "allow_projects"@
        || key == "block_projects"@
        || key == "protected_names"@
        || key == "max_file_size_bytes"@
        || key == "max_project_size_bytes"@
        || key == "max_projects"@
        || key == "max_versions_per_project"@
        || key == "allow_versions"@
        || key == "allow_package_types"@
        || key == "block_package_types"@
        || key == "allow_wheel_pythons"@
        || key == "block_wheel_pythons"@
        || key == "allow_wheel_platforms"@
        || key == "block_wheel_platforms"@
        || key == "min_release_age_secs"@
        || key == "required_attestations"@
        || key == "attestation_mode"@
}

/// Whether `r` says if every key is one of a configuration.
pub open spec fn are_keys_checked(keys: Seq<String>, r: Result<(), String>) -> bool {
    match r {
        Ok(_) => forall|i: int| 0 <= i < keys.len() ==> is_config_key((#[trigger] keys[i])@),
        Err(message) => exists|i: int|
            0 <= i < keys.len() && !is_config_key((#[trigger] keys[i])@) && message@ == "unknown field `"@
                + keys[i]@ + "` in `[index.policy]`"@ && (forall|j: int|
                0 <= j < i ==> is_config_key((#[trigger] keys[j])@)),
    }
}

impl PypiPolicyConfig {
    /// Whether a policy table may hold the key.
    pub fn knows_key(key: &str) -> (r: bool)
        ensures
            r == is_config_key(key@),
    {
        text_eq(key, "fallback_mode")
        || text_eq(key, "upstream_attestations")
        || text_eq(key, "allow_projects")
        || text_eq(key, "block_projects")
        || text_eq(key, "protected_names")
        || text_eq(key, "max_file_size_bytes")
        || text_eq(key, "max_project_size_bytes")
        || text_eq(key, "max_projects")
        || text_eq(key, "max_versions_per_project")
        || text_eq(key, "allow_versions")
        || text_eq(key, "allow_package_types")
        || text_eq(key, "block_package_types")
        || text_eq(key, "allow_wheel_pythons")
        || text_eq(key, "block_wheel_pythons")
        || text_eq(key, "allow_wheel_platforms")
        || text_eq(key, "block_wheel_platforms")
        || text_eq(key, "min_release_age_secs")
        || text_eq(key, "required_attestations")
        || text_eq(key, "attestation_mode")
    }

    /// Refuse a policy table with a key that nothing reads: the first such key is named.
    pub fn check_keys(keys: &Vec<String>) -> (r: Result<(), String>)
        ensures
            are_keys_checked(keys@, r),
    {
        let mut i: usize = 0;
        while i < keys.len()
            invariant
                i <= keys@.len(),
                forall|j: int| 0 <= j < i ==> is_config_key((#[trigger] keys@[j])@),
            decreases keys.len() - i,
        {
            if !PypiPolicyConfig::knows_key(keys[i].as_str()) {
                let mut message = "unknown field `".to_owned();
                message.append(keys[i].as_str());
                message.append("` in `[index.policy]`");
                assert(!is_config_key(keys@[i as int]@));
                return Err(message);
            }
            i = i + 1;
        }
        Ok(())
    }
}

} // verus!
