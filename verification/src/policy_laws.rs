//! What the policy promises of files, projects and pages, whatever the configuration.
use vstd::prelude::*;

use crate::collections::listed;
use crate::distribution::{opt_distribution, DistributionKind, DistributionText};
use crate::outside::{specifiers_contain, specifiers_valid};
use crate::policy::{
    opt_denial, are_keys_checked, attestation_denial, config_rules, config_settings, covers, has_empty, is_compiled, is_config_key,
    lookup, mask_of, package_type_denial, platform_tag_spec, project_denial, python_tag_spec, release_delay_denial,
    rule_denial, rule_if, rule_texts, version_denial, wheel_rule, wheel_tag_denial, AttestationMode, DenialText,
    FactsText, FallbackMode, NormalizedNames, PackageType, PolicyAction, PolicyCapabilities, PolicyDenial,
    PypiPolicyConfig, PypiPolicyError, RuleText, WheelTagText, ALLOW_VERSIONS_SETTING, ATTESTATION_PREDICATE_TYPES,
    FALLBACK_MODE_SETTING, REMOTE_METADATA_SETTING,
};
use crate::policy_engine::{
    are_previews, artifact_name, fallback_named, file_facts, first_denial, first_project_denial, is_page_judged, kept_files,
    listed_set, remote_metadata_named, size_denial, total_size, upload_facts, FileFacts, Policy,
};
use crate::simple::file::{File, FileText};
use crate::simple::page::{ProjectDetail, ProjectListEntry};
use crate::store::txn::finite_sets_are_listed;
use crate::text::{holds_text, joined, joined_texts_hold, pieces, texts};

verus! {

// ---------------------------------------------------------------------------------------------
// Release delay
// ---------------------------------------------------------------------------------------------

/// A dated file is held back by a release delay exactly while it is younger than the delay.
pub proof fn a_delay_holds_young_releases_alone(min_age_secs: i64, action: PolicyAction, facts: FactsText)
    requires
        min_age_secs >= 0,
        facts.now is Some,
        facts.upload_time is Some,
    ensures
        release_delay_denial(min_age_secs, action, facts) is None <==> facts.now->0 - facts.upload_time->0
            >= min_age_secs,
{
}

/// A release delay holds back a file that nothing dates, and holds nothing back where there is no clock.
pub proof fn a_delay_needs_a_date_and_a_clock(min_age_secs: i64, action: PolicyAction, facts: FactsText)
    ensures
        facts.now is None ==> release_delay_denial(min_age_secs, action, facts) is None,
        facts.now is Some && facts.upload_time is None ==> release_delay_denial(min_age_secs, action, facts) is Some,
{
}

/// A file that a release delay lets pass passes at every later time.
pub proof fn aged_releases_stay_aged(min_age_secs: i64, action: PolicyAction, facts: FactsText, now: i64, later: i64)
    requires
        min_age_secs >= 0,
        now <= later,
        release_delay_denial(min_age_secs, action, FactsText { now: Some(now), ..facts }) is None,
    ensures
        release_delay_denial(min_age_secs, action, FactsText { now: Some(later), ..facts }) is None,
{
}

/// Time hides nothing: what the rules let pass at one time they let pass at every later one.
pub proof fn time_hides_nothing(rules: Seq<RuleText>, action: PolicyAction, facts: FactsText, now: i64, later: i64)
    requires
        now <= later,
        forall|i: int|
            0 <= i < rules.len() ==> ((#[trigger] rules[i]) matches RuleText::ReleaseDelay { min_age_secs }
                ==> min_age_secs >= 0),
        first_denial(rules, action, FactsText { now: Some(now), ..facts }) is None,
    ensures
        first_denial(rules, action, FactsText { now: Some(later), ..facts }) is None,
    decreases rules.len(),
{
    if rules.len() > 0 {
        let rest = rules.skip(1);
        assert forall|i: int| 0 <= i < rest.len() implies ((#[trigger] rest[i]) matches RuleText::ReleaseDelay {
            min_age_secs,
        } ==> min_age_secs >= 0) by {
            assert(rest[i] == rules[i + 1]);
        }
        time_hides_nothing(rest, action, facts, now, later);
        let early = FactsText { now: Some(now), ..facts };
        let late = FactsText { now: Some(later), ..facts };
        assert(rule_denial(rules[0], action, early) is None);
        match rules[0] {
            RuleText::ReleaseDelay { min_age_secs } => {
                aged_releases_stay_aged(min_age_secs, action, facts, now, later);
            },
            _ => {},
        }
    }
}

// ---------------------------------------------------------------------------------------------
// The other rules on files
// ---------------------------------------------------------------------------------------------

/// A version rule lets a file pass exactly where its version is known and satisfies the specifiers.
pub proof fn admitted_versions_satisfy_the_specifiers(allowed: Seq<char>, action: PolicyAction, facts: FactsText)
    ensures
        version_denial(allowed, action, facts) is None <==> (facts.group matches Some(version) && specifiers_contain(
            allowed,
            version,
        ) == Some(true)),
{
}

/// A package-type rule lets a file pass exactly where an allow list, if there is one, names its kind, and the
/// block list does not.
pub proof fn package_types_follow_their_lists(
    allow: Seq<PackageType>,
    block: Seq<PackageType>,
    action: PolicyAction,
    facts: FactsText,
)
    ensures
        ({
            let kind = lookup(facts.attributes, "package_type"@);
            let named = |kinds: Seq<PackageType>|
                (kinds.contains(PackageType::Wheel) && kind == Some("wheel"@)) || (kinds.contains(PackageType::Sdist)
                    && kind == Some("sdist"@));
            package_type_denial(mask_of(allow), mask_of(block), action, facts) is None <==> (allow.len() == 0 || named(
                allow,
            )) && !named(block)
        }),
{
    reveal_strlit("wheel");
    reveal_strlit("sdist");
    assert("wheel"@[0] != "sdist"@[0]);
    assert(1u8 & 1 == 1 && 1u8 & 2 == 0 && 2u8 & 1 == 0 && 2u8 & 2 == 2 && 3u8 & 1 == 1 && 3u8 & 2 == 2 && 0u8 & 1 == 0
        && 0u8 & 2 == 0) by (bit_vector);
    if allow.len() > 0 {
        assert(allow.contains(allow[0]));
    }
}

/// A wheel-tag rule judges wheels alone, and lets one pass exactly where a part of its tag is in the allow list, if
/// there is one, and none in the block list.
pub proof fn wheel_tags_follow_their_lists(
    spec: WheelTagText,
    allow: Set<Seq<char>>,
    block: Set<Seq<char>>,
    action: PolicyAction,
    facts: FactsText,
)
    ensures
        ({
            let tag = lookup(facts.attributes, spec.attribute);
            let in_allow = exists|i: int|
                tag is Some && 0 <= i < pieces(tag->0, '.').len() && allow.contains(#[trigger] pieces(tag->0, '.')[i]);
            let in_block = exists|i: int|
                tag is Some && 0 <= i < pieces(tag->0, '.').len() && block.contains(#[trigger] pieces(tag->0, '.')[i]);
            &&& lookup(facts.attributes, "package_type"@) != Some("wheel"@) ==> wheel_tag_denial(
                spec,
                allow,
                block,
                action,
                facts,
            ) is None
            &&& lookup(facts.attributes, "package_type"@) == Some("wheel"@) ==> (wheel_tag_denial(
                spec,
                allow,
                block,
                action,
                facts,
            ) is None <==> (allow.is_empty() || in_allow) && !in_block)
        }),
{
    assert(allow.is_empty() <==> allow =~= Set::<Seq<char>>::empty());
    assert(block.is_empty() <==> block =~= Set::<Seq<char>>::empty());
}

/// A required-attestation rule judges uploads alone, and lets one pass exactly where every required type is among
/// those it declares.
pub proof fn required_attestations_are_declared(
    required: Set<Seq<char>>,
    mode: AttestationMode,
    action: PolicyAction,
    facts: FactsText,
)
    requires
        required.finite(),
    ensures
        ({
            let declared = lookup(facts.attributes, ATTESTATION_PREDICATE_TYPES@);
            attestation_denial(required, mode, action, facts) is None <==> (declared is None || forall|p: Seq<char>|
                #[trigger] required.contains(p) ==> p.len() > 0 && pieces(declared->0, '\n').contains(p))
        }),
{
    let declared = lookup(facts.attributes, ATTESTATION_PREDICATE_TYPES@);
    if declared is Some {
        let all = listed(required);
        let lacks = |p: Seq<char>| !(p.len() > 0 && pieces(declared->0, '\n').contains(p));
        let missing = all.filter(lacks);
        finite_sets_are_listed(required);
        assert forall|p: Seq<char>| required.contains(p) == all.contains(p) by {
            assert(all.to_set().contains(p) == all.contains(p));
        }
        assert forall|p: Seq<char>| missing.contains(p) == (all.contains(p) && lacks(p)) by {
            crate::store::txn::filtered_members(all, lacks, p);
        }
        if missing.len() > 0 {
            assert(missing.contains(missing[0]));
            assert(required.contains(missing[0]));
        } else {
            assert forall|p: Seq<char>| #[trigger] required.contains(p) implies p.len() > 0 && pieces(
                declared->0,
                '\n',
            ).contains(p) by {
                assert(!missing.contains(p));
            }
        }
    }
}

/// An unmet requirement is told apart by its mode: only an enforcing one raises the rule that refuses an upload.
pub proof fn audits_are_told_from_enforcement(required: Set<Seq<char>>, action: PolicyAction, facts: FactsText)
    ensures
        attestation_denial(required, AttestationMode::Enforce, action, facts) matches Some(denial) ==> denial.rule
            == "required-attestation"@,
        attestation_denial(required, AttestationMode::Audit, action, facts) matches Some(denial) ==> denial.rule
            == "required-attestation-audit"@,
        attestation_denial(required, AttestationMode::Enforce, action, facts) is None == attestation_denial(
            required,
            AttestationMode::Audit,
            action,
            facts,
        ) is None,
{
}

/// A denial speaks of the action and the file that were judged.
pub proof fn denials_name_what_was_judged(rule: RuleText, action: PolicyAction, facts: FactsText)
    ensures
        rule_denial(rule, action, facts) matches Some(denial) ==> denial.action == action && denial.resource
            == facts.resource && denial.artifact == facts.artifact && denial.group == facts.group,
{
}

// ---------------------------------------------------------------------------------------------
// All rules together
// ---------------------------------------------------------------------------------------------

/// A file passes exactly where no rule denies it, and is denied by the first that does.
pub proof fn files_pass_where_no_rule_denies(rules: Seq<RuleText>, action: PolicyAction, facts: FactsText)
    ensures
        first_denial(rules, action, facts) is None <==> forall|i: int|
            0 <= i < rules.len() ==> rule_denial(#[trigger] rules[i], action, facts) is None,
        first_denial(rules, action, facts) matches Some(denial) ==> exists|i: int|
            0 <= i < rules.len() && rule_denial(#[trigger] rules[i], action, facts) == Some(denial) && forall|j: int|
                0 <= j < i ==> rule_denial(#[trigger] rules[j], action, facts) is None,
    decreases rules.len(),
{
    if rules.len() > 0 {
        let rest = rules.skip(1);
        files_pass_where_no_rule_denies(rest, action, facts);
        if rule_denial(rules[0], action, facts) is None {
            if first_denial(rest, action, facts) is None {
                assert forall|i: int| 0 <= i < rules.len() implies rule_denial(#[trigger] rules[i], action, facts) is None by {
                    if i > 0 {
                        assert(rest[i - 1] == rules[i]);
                    }
                }
            } else {
                let denial = first_denial(rest, action, facts)->0;
                let i = choose|i: int|
                    0 <= i < rest.len() && rule_denial(#[trigger] rest[i], action, facts) == Some(denial) && forall|j: int|
                        0 <= j < i ==> rule_denial(#[trigger] rest[j], action, facts) is None;
                assert(rules[i + 1] == rest[i]);
                assert forall|j: int| 0 <= j < i + 1 implies rule_denial(#[trigger] rules[j], action, facts) is None by {
                    if j > 0 {
                        assert(rest[j - 1] == rules[j]);
                    }
                }
            }
        } else {
            assert(rule_denial(rules[0], action, facts) == first_denial(rules, action, facts));
        }
    }
}

/// What the registry's own rules refuse stays refused, whatever the policy's rules say, and nothing else is refused
/// than what one of them denies.
pub proof fn refusals_stand_first(policy: Policy, refusal: Option<DenialText>, action: PolicyAction, facts: FactsText)
    ensures
        refusal is Some ==> policy.verdict(refusal, action, facts) == refusal,
        refusal is None ==> (policy.verdict(refusal, action, facts) is None <==> forall|i: int|
            0 <= i < policy.artifact_rules@.len() ==> rule_denial((#[trigger] policy.artifact_rules@[i])@, action, facts) is None),
{
    let rules = rule_texts(policy.artifact_rules@);
    files_pass_where_no_rule_denies(rules, action, facts);
    assert forall|i: int| 0 <= i < rules.len() implies rules[i] == (#[trigger] policy.artifact_rules@[i])@ by {
    }
    if refusal is None && policy.verdict(refusal, action, facts) is None {
        assert forall|i: int| 0 <= i < policy.artifact_rules@.len() implies rule_denial(
            (#[trigger] policy.artifact_rules@[i])@,
            action,
            facts,
        ) is None by {
            assert(rules[i] == policy.artifact_rules@[i]@);
        }
    }
    if refusal is None && policy.verdict(refusal, action, facts) is Some {
        let denial = policy.verdict(refusal, action, facts)->0;
        let i = choose|i: int| 0 <= i < rules.len() && rule_denial(#[trigger] rules[i], action, facts) == Some(denial);
        assert(rule_denial(policy.artifact_rules@[i]@, action, facts) is Some);
    }
}

proof fn denials_of_joined_rules(a: Seq<RuleText>, b: Seq<RuleText>, action: PolicyAction, facts: FactsText)
    ensures
        first_denial(a + b, action, facts) is None <==> first_denial(a, action, facts) is None && first_denial(
            b,
            action,
            facts,
        ) is None,
    decreases a.len(),
{
    if a.len() == 0 {
        assert(a + b =~= b);
    } else {
        assert((a + b)[0] == a[0]);
        assert((a + b).skip(1) =~= a.skip(1) + b);
        denials_of_joined_rules(a.skip(1), b, action, facts);
    }
}

proof fn denial_of_one_rule(condition: bool, rule: RuleText, action: PolicyAction, facts: FactsText)
    ensures
        first_denial(rule_if(condition, rule), action, facts) is None <==> (condition ==> rule_denial(rule, action, facts) is None),
{
    reveal_with_fuel(first_denial, 2);
}

/// A compiled configuration lets a file pass exactly where each of its keys does: the versions, the kinds of
/// distribution, the Python and the platform tags of wheels, the age, and the attestations.
pub proof fn compiled_rules_judge_by_every_key(config: PypiPolicyConfig, action: PolicyAction, facts: FactsText)
    ensures
        first_denial(config_rules(config), action, facts) is None <==> {
            &&& config.allow_versions matches Some(allowed) ==> version_denial(allowed@, action, facts) is None
            &&& package_type_denial(
                mask_of(config.allow_package_types@),
                mask_of(config.block_package_types@),
                action,
                facts,
            ) is None
            &&& wheel_tag_denial(
                python_tag_spec(),
                texts(config.allow_wheel_pythons@).to_set(),
                texts(config.block_wheel_pythons@).to_set(),
                action,
                facts,
            ) is None
            &&& wheel_tag_denial(
                platform_tag_spec(),
                texts(config.allow_wheel_platforms@).to_set(),
                texts(config.block_wheel_platforms@).to_set(),
                action,
                facts,
            ) is None
            &&& config.min_release_age_secs matches Some(secs) ==> secs > 0 ==> (facts.now matches Some(now)
                ==> facts.upload_time is Some && now - facts.upload_time->0 >= (if secs > i64::MAX {
                i64::MAX as int
            } else {
                secs as int
            }))
            &&& config.required_attestations@.len() > 0 ==> attestation_denial(
                texts(config.required_attestations@).to_set(),
                config.attestation_mode,
                action,
                facts,
            ) is None
        },
{
    let version = rule_if(config.allow_versions is Some, RuleText::Version { allowed: config.allow_versions->0@ });
    let kind_rule = RuleText::PackageType {
        allow_mask: mask_of(config.allow_package_types@),
        block_mask: mask_of(config.block_package_types@),
    };
    let has_kinds = config.allow_package_types@.len() > 0 || config.block_package_types@.len() > 0;
    let kind = rule_if(has_kinds, kind_rule);
    let pythons = texts(config.allow_wheel_pythons@);
    let no_pythons = texts(config.block_wheel_pythons@);
    let platforms = texts(config.allow_wheel_platforms@);
    let no_platforms = texts(config.block_wheel_platforms@);
    let python = wheel_rule(python_tag_spec(), pythons, no_pythons);
    let platform = wheel_rule(platform_tag_spec(), platforms, no_platforms);
    let delay_rule = RuleText::ReleaseDelay {
        min_age_secs: crate::policy::clamped_secs(config.min_release_age_secs->0),
    };
    let has_delay = config.min_release_age_secs is Some && config.min_release_age_secs->0 > 0;
    let delay = rule_if(has_delay, delay_rule);
    let attested = rule_if(
        config.required_attestations@.len() > 0,
        RuleText::RequiredAttestation {
            required: texts(config.required_attestations@).to_set(),
            mode: config.attestation_mode,
        },
    );
    denials_of_joined_rules(version + kind + python + platform + delay, attested, action, facts);
    denials_of_joined_rules(version + kind + python + platform, delay, action, facts);
    denials_of_joined_rules(version + kind + python, platform, action, facts);
    denials_of_joined_rules(version + kind, python, action, facts);
    denials_of_joined_rules(version, kind, action, facts);
    denial_of_one_rule(
        config.allow_versions is Some,
        RuleText::Version { allowed: config.allow_versions->0@ },
        action,
        facts,
    );
    denial_of_one_rule(has_kinds, kind_rule, action, facts);
    package_types_follow_their_lists(config.allow_package_types@, config.block_package_types@, action, facts);
    denial_of_one_rule(
        pythons.len() > 0 || no_pythons.len() > 0,
        RuleText::WheelTag { spec: python_tag_spec(), allow: pythons.to_set(), block: no_pythons.to_set() },
        action,
        facts,
    );
    denial_of_one_rule(
        platforms.len() > 0 || no_platforms.len() > 0,
        RuleText::WheelTag { spec: platform_tag_spec(), allow: platforms.to_set(), block: no_platforms.to_set() },
        action,
        facts,
    );
    empty_lists_are_empty_sets(pythons);
    empty_lists_are_empty_sets(no_pythons);
    empty_lists_are_empty_sets(platforms);
    empty_lists_are_empty_sets(no_platforms);
    denial_of_one_rule(has_delay, delay_rule, action, facts);
    denial_of_one_rule(
        config.required_attestations@.len() > 0,
        RuleText::RequiredAttestation {
            required: texts(config.required_attestations@).to_set(),
            mode: config.attestation_mode,
        },
        action,
        facts,
    );
}

proof fn empty_lists_are_empty_sets(items: Seq<Seq<char>>)
    ensures
        items.len() == 0 ==> items.to_set() == Set::<Seq<char>>::empty(),
{
    if items.len() == 0 {
        assert(items.to_set() =~= Set::<Seq<char>>::empty());
    }
}

/// The modes and the version specifier of a configuration are what the compiled policy goes by.
pub proof fn settings_carry_the_configuration(config: PypiPolicyConfig)
    ensures
        fallback_named(lookup(config_settings(config), FALLBACK_MODE_SETTING@)) == config.fallback_mode,
        remote_metadata_named(lookup(config_settings(config), REMOTE_METADATA_SETTING@)) == config.upstream_attestations,
        lookup(config_settings(config), ALLOW_VERSIONS_SETTING@) == (match config.allow_versions {
            Some(allowed) => Some(allowed@),
            None => None,
        }),
{
    reveal_with_fuel(lookup, 4);
    reveal_strlit("pypi.fallback-mode");
    reveal_strlit("pypi.remote-metadata-mode");
    reveal_strlit("pypi.allow-versions");
    assert(FALLBACK_MODE_SETTING@.len() != REMOTE_METADATA_SETTING@.len());
    assert(FALLBACK_MODE_SETTING@.len() != ALLOW_VERSIONS_SETTING@.len() || FALLBACK_MODE_SETTING@[5]
        != ALLOW_VERSIONS_SETTING@[5]);
    assert(REMOTE_METADATA_SETTING@.len() != ALLOW_VERSIONS_SETTING@.len());
    crate::policy_engine::fallback_mode_reads_back(config.fallback_mode);
    crate::policy_engine::remote_metadata_mode_reads_back(config.upstream_attestations);
    let all = config_settings(config);
    if all.len() > 0 {
        assert(all.skip(1).len() == all.len() - 1);
        if all.len() > 1 {
            assert(all.skip(1)[0] == all[1]);
            assert(all.skip(1).skip(1).len() == all.len() - 2);
            if all.len() > 2 {
                assert(all.skip(1).skip(1)[0] == all[2]);
            }
        }
    }
}

// ---------------------------------------------------------------------------------------------
// Projects
// ---------------------------------------------------------------------------------------------

/// A project passes exactly where it is not protected from the upstream that would fill it, an allow list, if
/// there is one, names it, and the block list does not.
pub proof fn projects_follow_their_lists(
    allow: Set<Seq<char>>,
    block: Set<Seq<char>>,
    protected: Seq<Seq<char>>,
    action: PolicyAction,
    project: Seq<char>,
)
    ensures
        project_denial(allow, block, protected, action, project) is None <==> {
            &&& !(action is Cached && exists|i: int| 0 <= i < protected.len() && covers(#[trigger] protected[i], project))
            &&& allow.is_empty() || allow.contains(project)
            &&& !block.contains(project)
        },
        project_denial(allow, block, protected, action, project) matches Some(denial) ==> denial.action == action
            && denial.resource == project,
{
    assert(allow.is_empty() <==> allow =~= Set::<Seq<char>>::empty());
}

/// A protected name that ends in a star covers what begins with the rest of it; any other covers itself alone.
pub proof fn protected_names_cover(name: Seq<char>, project: Seq<char>)
    requires
        !name.contains('*'),
    ensures
        covers(name + "*"@, project) <==> name.len() <= project.len() && project.take(name.len() as int) == name,
        covers(name, project) <==> name == project,
{
    reveal_strlit("*");
    let starred = name + "*"@;
    assert(starred.skip(starred.len() - 1) =~= "*"@);
    assert(starred.take(starred.len() - 1) =~= name);
    assert("*"@.is_suffix_of(starred));
    if name.len() > 0 && "*"@.is_suffix_of(name) {
        assert(name.skip(name.len() - 1)[0] == '*');
        assert(name[name.len() - 1] == '*');
    }
    if name.len() <= project.len() {
        assert(project.take(name.len() as int) =~= project.subrange(0, name.len() as int));
    }
}

// ---------------------------------------------------------------------------------------------
// Facts
// ---------------------------------------------------------------------------------------------

/// The rules judge a file by what its name, its size and its upload time say.
pub proof fn facts_say_what_the_file_says(project: Seq<char>, file: FileText, parsed: Option<DistributionText>)
    ensures
        ({
            let facts = file_facts(project, file, parsed);
            &&& facts.resource == project
            &&& facts.artifact == Some(file.filename)
            &&& facts.size == file.size
            &&& facts.now is None
            &&& file.upload_time is None ==> facts.upload_time is None
            &&& file.upload_time matches Some(time) ==> facts.upload_time == crate::outside::rfc3339_second(time)
            &&& parsed is None ==> facts.group is None && facts.attributes.len() == 0
            &&& parsed matches Some(name) ==> {
                &&& facts.group == Some(name.version)
                &&& lookup(facts.attributes, "package_type"@) == Some(
                    if name.kind == DistributionKind::Wheel {
                        "wheel"@
                    } else {
                        "sdist"@
                    },
                )
                &&& lookup(facts.attributes, "python_tag"@) == name.python_tag
                &&& lookup(facts.attributes, "platform_tag"@) == name.platform_tag
                &&& lookup(facts.attributes, ATTESTATION_PREDICATE_TYPES@) is None
            }
        }),
{
    let facts = file_facts(project, file, parsed);
    if parsed is Some {
        attributes_are_found(facts.attributes, parsed->0);
    }
}

proof fn attribute_names_keep_apart()
    ensures
        "package_type"@ != "python_tag"@,
        "package_type"@ != "platform_tag"@,
        "python_tag"@ != "platform_tag"@,
        ATTESTATION_PREDICATE_TYPES@ != "package_type"@,
        ATTESTATION_PREDICATE_TYPES@ != "python_tag"@,
        ATTESTATION_PREDICATE_TYPES@ != "platform_tag"@,
{
    reveal_strlit("package_type");
    reveal_strlit("python_tag");
    reveal_strlit("platform_tag");
    reveal_strlit("attestation_predicate_types");
    assert("package_type"@.len() != "python_tag"@.len());
    assert("package_type"@[1] != "platform_tag"@[1]);
    assert("python_tag"@.len() != "platform_tag"@.len());
    assert(ATTESTATION_PREDICATE_TYPES@.len() > "platform_tag"@.len());
}

proof fn attributes_are_found(attributes: Seq<(Seq<char>, Seq<char>)>, parsed: DistributionText)
    requires
        attributes == crate::policy_engine::attributes_of(Some(parsed)),
    ensures
        lookup(attributes, "package_type"@) == Some(parsed.kind.package().name()),
        lookup(attributes, "python_tag"@) == parsed.python_tag,
        lookup(attributes, "platform_tag"@) == parsed.platform_tag,
        lookup(attributes, ATTESTATION_PREDICATE_TYPES@) is None,
{
    reveal_with_fuel(lookup, 5);
    attribute_names_keep_apart();
    let one = attributes.skip(1);
    if attributes.len() > 1 {
        assert(one[0] == attributes[1]);
        if attributes.len() > 2 {
            assert(one.skip(1)[0] == attributes[2]);
            assert(one.skip(1).skip(1).len() == attributes.len() - 3);
        }
    }
}

/// An upload is judged by its file and by the attestations it declares, also where it declares none.
pub proof fn uploads_declare_their_attestations(
    project: Seq<char>,
    file: FileText,
    parsed: Option<DistributionText>,
    predicate_types: Set<Seq<char>>,
)
    ensures
        ({
            let facts = upload_facts(project, file, parsed, predicate_types);
            let plain = file_facts(project, file, parsed);
            &&& lookup(facts.attributes, ATTESTATION_PREDICATE_TYPES@) == Some(joined(listed(predicate_types), "\n"@))
            &&& lookup(facts.attributes, "package_type"@) == lookup(plain.attributes, "package_type"@)
            &&& lookup(facts.attributes, "python_tag"@) == lookup(plain.attributes, "python_tag"@)
            &&& lookup(facts.attributes, "platform_tag"@) == lookup(plain.attributes, "platform_tag"@)
            &&& facts.resource == project && facts.artifact == Some(file.filename) && facts.size == file.size
            &&& facts.group == plain.group && facts.upload_time == plain.upload_time && facts.now is None
        }),
{
    let plain = file_facts(project, file, parsed).attributes;
    let extra = (ATTESTATION_PREDICATE_TYPES@, joined(listed(predicate_types), "\n"@));
    attribute_names_keep_apart();
    if parsed is Some {
        attributes_are_found(plain, parsed->0);
    }
    lookups_behind_others(plain, extra, "package_type"@);
    lookups_behind_others(plain, extra, "python_tag"@);
    lookups_behind_others(plain, extra, "platform_tag"@);
    lookups_behind_others(plain, extra, ATTESTATION_PREDICATE_TYPES@);
}

/// An entry behind others is found where none of them has its name.
proof fn lookups_behind_others(entries: Seq<(Seq<char>, Seq<char>)>, extra: (Seq<char>, Seq<char>), name: Seq<char>)
    ensures
        lookup(entries.push(extra), name) == (if lookup(entries, name) is Some {
            lookup(entries, name)
        } else if extra.0 == name {
            Some(extra.1)
        } else {
            None
        }),
    decreases entries.len(),
{
    let more = entries.push(extra);
    if entries.len() == 0 {
        assert(more[0] == extra);
        assert(lookup(more.skip(1), name) is None);
    } else {
        assert(more[0] == entries[0]);
        assert(more.skip(1) =~= entries.skip(1).push(extra));
        lookups_behind_others(entries.skip(1), extra, name);
    }
}

/// A sibling is judged as the distribution it belongs to, and any other download as itself.
pub proof fn siblings_are_judged_as_their_distribution(artifact: Seq<char>)
    ensures
        artifact_name(artifact + ".metadata"@) == artifact,
        artifact_name(artifact + ".provenance"@) == artifact,
        !".metadata"@.is_suffix_of(artifact) && !".provenance"@.is_suffix_of(artifact) ==> artifact_name(artifact)
            == artifact,
{
    reveal_strlit(".metadata");
    reveal_strlit(".provenance");
    let metadata = artifact + ".metadata"@;
    let provenance = artifact + ".provenance"@;
    assert(metadata.take(artifact.len() as int) =~= artifact);
    assert(provenance.take(artifact.len() as int) =~= artifact);
    assert(metadata.subrange(metadata.len() - 9, metadata.len() as int) =~= ".metadata"@);
    assert(provenance.subrange(provenance.len() - 11, provenance.len() as int) =~= ".provenance"@);
    if ".metadata"@.is_suffix_of(provenance) {
        assert(provenance.subrange(provenance.len() - 9, provenance.len() as int)[8] == ".metadata"@[8]);
        assert(provenance.last() == 'e');
    }
}

// ---------------------------------------------------------------------------------------------
// Pages
// ---------------------------------------------------------------------------------------------

/// The size limit withdraws a page exactly where the size of one of its files is unknown, or all of them together
/// are larger. A total beyond 64 bits counts as the largest number that they hold.
pub proof fn pages_stay_within_the_size_limit(
    action: PolicyAction,
    project: Seq<char>,
    files: Seq<(Seq<char>, Option<u64>)>,
    limit: u64,
)
    ensures
        size_denial(action, project, files, limit) is None <==> {
            &&& forall|i: int| 0 <= i < files.len() ==> (#[trigger] files[i]).1 is Some
            &&& total_size(files) <= limit || limit == u64::MAX
        },
{
    if exists|i: int| 0 <= i < files.len() && (#[trigger] files[i]).1 is None {
        let i = choose|i: int| 0 <= i < files.len() && (#[trigger] files[i]).1 is None;
        first_unsized_exists(files, i);
    } else if exists|i: int| crate::policy_engine::first_unsized(files, i) {
        let i = choose|i: int| crate::policy_engine::first_unsized(files, i);
        assert(files[i].1 is None);
    }
}

proof fn first_unsized_exists(files: Seq<(Seq<char>, Option<u64>)>, i: int)
    requires
        0 <= i < files.len(),
        files[i].1 is None,
    ensures
        exists|k: int| crate::policy_engine::first_unsized(files, k),
    decreases i,
{
    if exists|j: int| 0 <= j < i && (#[trigger] files[j]).1 is None {
        let j = choose|j: int| 0 <= j < i && (#[trigger] files[j]).1 is None;
        first_unsized_exists(files, j);
    } else {
        assert(crate::policy_engine::first_unsized(files, i));
    }
}

/// The sizes add up, file by file.
pub proof fn sizes_add_up(files: Seq<(Seq<char>, Option<u64>)>, name: Seq<char>, size: u64)
    ensures
        total_size(Seq::empty()) == 0,
        total_size(files.push((name, Some(size)))) == total_size(files) + size,
        total_size(files.push((name, None))) == total_size(files),
{
    assert(files.push((name, Some(size))).drop_last() =~= files);
    assert(files.push((name, None)).drop_last() =~= files);
}

/// A page names a file among its denials exactly where a file of that name is denied.
pub proof fn denials_cover_the_denied_files(
    policy: Policy,
    action: PolicyAction,
    project: Seq<char>,
    files: Seq<File>,
    facts: Seq<FileFacts>,
    now: Option<i64>,
    n: int,
    name: Seq<char>,
)
    requires
        0 <= n <= files.len(),
        facts.len() == files.len(),
    ensures
        policy.page_denials(action, project, files, facts, now, n).contains_key(name) <==> exists|i: int|
            0 <= i < n && (#[trigger] files[i]).filename@ == name && policy.verdict(
                crate::policy::opt_denial(facts[i].refusal),
                action,
                FactsText { now, ..file_facts(project, files[i]@, opt_distribution(facts[i].parsed)) },
            ) is Some,
    decreases n,
{
    if n > 0 {
        denials_cover_the_denied_files(policy, action, project, files, facts, now, n - 1, name);
        let last = files[n - 1];
        if last.filename@ == name && policy.page_verdict(action, project, last@, facts[n - 1], now) is Some {
            assert(files[n - 1].filename@ == name);
        }
    }
}

/// A filtered page keeps a file exactly where its name is not denied, and adds none.
pub proof fn kept_files_are_the_others(files: Seq<File>, denied: Set<Seq<char>>, file: File)
    ensures
        kept_files(files, denied).contains(file) <==> files.contains(file) && !denied.contains(file.filename@),
        kept_files(files, Set::empty()) == files,
{
    let keeps = |f: File| !denied.contains(f.filename@);
    let kept = kept_files(files, denied);
    filtered_files(files, keeps, file);
    all_files_kept(files);
}

proof fn filtered_files(files: Seq<File>, keeps: spec_fn(File) -> bool, file: File)
    ensures
        files.filter(keeps).contains(file) <==> files.contains(file) && keeps(file),
    decreases files.len(),
{
    reveal(Seq::filter);
    if files.len() > 0 {
        let fewer = files.drop_last();
        filtered_files(fewer, keeps, file);
        let sub = fewer.filter(keeps);
        let all = files.filter(keeps);
        if fewer.contains(file) {
            let i = choose|i: int| 0 <= i < fewer.len() && fewer[i] == file;
            assert(files[i] == file);
        }
        if files.contains(file) {
            let i = choose|i: int| 0 <= i < files.len() && files[i] == file;
            if i < files.len() - 1 {
                assert(fewer[i] == file);
            }
        }
        if keeps(files.last()) {
            assert(all =~= sub.push(files.last()));
            if sub.contains(file) {
                let i = choose|i: int| 0 <= i < sub.len() && sub[i] == file;
                assert(all[i] == file);
            }
            if file == files.last() {
                assert(all[sub.len() as int] == file);
            }
            if all.contains(file) {
                let i = choose|i: int| 0 <= i < all.len() && all[i] == file;
                if i < sub.len() {
                    assert(sub[i] == file);
                } else {
                    assert(files[files.len() - 1] == file);
                }
            }
        }
    }
}

proof fn all_files_kept(files: Seq<File>)
    ensures
        kept_files(files, Set::empty()) == files,
    decreases files.len(),
{
    reveal(Seq::filter);
    if files.len() > 0 {
        all_files_kept(files.drop_last());
        assert(files =~= files.drop_last().push(files.last()));
    } else {
        assert(kept_files(files, Set::empty()) =~= files);
    }
}

/// A page lists a version exactly where one of its served files has it, or it is declared and the policy's
/// specifiers, if there are any, admit it.
pub proof fn listed_versions_are_served_or_admitted(
    allowed: Option<Seq<char>>,
    declared: Seq<Seq<char>>,
    local: Seq<Seq<char>>,
    served: Seq<Seq<char>>,
    version: Seq<char>,
)
    ensures
        listed_set(allowed, declared, local, served).contains(version) <==> served.contains(version) || ((
        declared.contains(version) || local.contains(version)) && (allowed is None || specifiers_contain(
            allowed->0,
            version,
        ) == Some(true))),
{
}

/// A project list shows exactly the projects that policy serves.
pub proof fn shown_projects_are_served(
    policy: Policy,
    projects: Seq<ProjectListEntry>,
    normalized: Seq<String>,
    refusals: Seq<Option<crate::policy::PolicyDenial>>,
    n: int,
    entry: ProjectListEntry,
)
    requires
        0 <= n <= projects.len(),
        normalized.len() == projects.len(),
        refusals.len() == projects.len(),
    ensures
        policy.shown_projects(projects, normalized, refusals, n).contains(entry) <==> exists|i: int|
            0 <= i < n && #[trigger] projects[i] == entry && refusals[i] is None && forall|k: int|
                0 <= k < policy.resource_rules@.len() ==> (#[trigger] policy.resource_rules@[k]).says(
                    PolicyAction::Serve,
                    normalized[i]@,
                ) is None,
    decreases n,
{
    if n > 0 {
        let fewer = policy.shown_projects(projects, normalized, refusals, n - 1);
        let all = policy.shown_projects(projects, normalized, refusals, n);
        shown_projects_are_served(policy, projects, normalized, refusals, n - 1, entry);
        projects_pass_where_no_rule_denies(policy.resource_rules@, PolicyAction::Serve, normalized[n - 1]@);
        if fewer.contains(entry) {
            let i = choose|i: int| 0 <= i < fewer.len() && fewer[i] == entry;
            assert(all[i] == entry);
        }
        if all.len() > fewer.len() && projects[n - 1] == entry {
            assert(all[fewer.len() as int] == entry);
        }
        if all.contains(entry) && !fewer.contains(entry) {
            let i = choose|i: int| 0 <= i < all.len() && all[i] == entry;
            if i < fewer.len() {
                assert(fewer[i] == entry);
            }
            assert(projects[n - 1] == entry);
        }
    }
}

proof fn projects_pass_where_no_rule_denies(
    rules: Seq<crate::policy::PypiProjectRule>,
    action: PolicyAction,
    project: Seq<char>,
)
    ensures
        crate::policy_engine::first_project_denial(rules, action, project) is None <==> forall|k: int|
            0 <= k < rules.len() ==> (#[trigger] rules[k]).says(action, project) is None,
    decreases rules.len(),
{
    if rules.len() > 0 {
        let rest = rules.skip(1);
        projects_pass_where_no_rule_denies(rest, action, project);
        if crate::policy_engine::first_project_denial(rules, action, project) is None {
            assert forall|k: int| 0 <= k < rules.len() implies (#[trigger] rules[k]).says(action, project) is None by {
                if k > 0 {
                    assert(rest[k - 1] == rules[k]);
                }
            }
        } else if rules[0].says(action, project) is None {
            let k = choose|k: int| 0 <= k < rest.len() && (#[trigger] rest[k]).says(action, project) is Some;
            assert(rules[k + 1] == rest[k]);
        }
    }
}

/// A configuration compiles exactly where its specifiers parse and none of its tags and predicate types is empty. What it
/// compiles to carries its limits, its rules and its project lists.
pub proof fn configurations_compile_whole(
    config: PypiPolicyConfig,
    names: NormalizedNames,
    r: Result<PolicyCapabilities, PypiPolicyError>,
)
    requires
        is_compiled(config, names, r),
    ensures
        r is Ok <==> (config.allow_versions matches Some(allowed) ==> specifiers_valid(allowed@)) && !has_empty(
            texts(config.allow_wheel_pythons@),
        ) && !has_empty(texts(config.block_wheel_pythons@)) && !has_empty(texts(config.allow_wheel_platforms@))
            && !has_empty(texts(config.block_wheel_platforms@)) && !has_empty(texts(config.required_attestations@)),
        r matches Ok(compiled) ==> compiled.limits.max_artifact_bytes == config.max_file_size_bytes
            && compiled.limits.max_resource_bytes == config.max_project_size_bytes && compiled.limits.max_resources
            == config.max_projects && compiled.limits.max_groups_per_resource == config.max_versions_per_project,
        r matches Ok(compiled) ==> rule_texts(compiled.artifact_rules@) == config_rules(config),
        r matches Ok(compiled) ==> (compiled.activated <==> config.fallback_mode != FallbackMode::Fallback),
        r matches Ok(compiled) ==> (config.block_projects@.len() > 0 ==> compiled.resource_rules@.len() == 1
            && compiled.resource_rules@[0].block_projects@ == texts(names.block_projects@).to_set()),
        r matches Ok(compiled) ==> (config.allow_projects@.len() > 0 ==> compiled.resource_rules@.len() == 1
            && compiled.resource_rules@[0].allow_projects@ == texts(names.allow_projects@).to_set()),
        r matches Ok(compiled) ==> (config.allow_projects@.len() == 0 && config.block_projects@.len() == 0
            && config.protected_names@.len() == 0 ==> compiled.resource_rules@.len() == 0),
{
}

/// A value is empty where it has no character.
pub proof fn empty_values_are_found(values: Seq<Seq<char>>, i: int)
    requires
        0 <= i < values.len(),
    ensures
        values[i].len() == 0 ==> has_empty(values),
        (forall|j: int| 0 <= j < values.len() ==> (#[trigger] values[j]).len() > 0) ==> !has_empty(values),
{
}

/// A key that no configuration has is refused by its name.
pub proof fn unknown_keys_are_refused(keys: Seq<String>, r: Result<(), String>)
    requires
        are_keys_checked(keys, r),
    ensures
        r is Ok <==> forall|i: int| 0 <= i < keys.len() ==> is_config_key((#[trigger] keys[i])@),
        keys.len() > 0 && !is_config_key(keys[0]@) ==> (r matches Err(message) && holds_text(message@, keys[0]@)),
        is_config_key("fallback_mode"@) && is_config_key("upstream_attestations"@) && is_config_key("allow_projects"@)
            && is_config_key("block_projects"@) && is_config_key("protected_names"@) && is_config_key(
            "max_file_size_bytes"@,
        ) && is_config_key("max_project_size_bytes"@) && is_config_key("max_projects"@) && is_config_key(
            "max_versions_per_project"@,
        ) && is_config_key("allow_versions"@) && is_config_key("allow_package_types"@) && is_config_key(
            "block_package_types"@,
        ) && is_config_key("allow_wheel_pythons"@) && is_config_key("block_wheel_pythons"@) && is_config_key(
            "allow_wheel_platforms"@,
        ) && is_config_key("block_wheel_platforms"@) && is_config_key("min_release_age_secs"@) && is_config_key(
            "required_attestations"@,
        ) && is_config_key("attestation_mode"@),
{
    if keys.len() > 0 && !is_config_key(keys[0]@) {
        joined_texts_hold("unknown field `"@, keys[0]@, "` in `[index.policy]`"@);
    }
}

/// A refused project has no page. One that is not refused keeps its name and its metadata, and under a policy that is off
/// every file and version.
pub proof fn judged_pages_keep_what_is_not_denied(
    policy: Policy,
    refusal: Option<PolicyDenial>,
    action: PolicyAction,
    project: Seq<char>,
    detail: ProjectDetail,
    facts: Seq<FileFacts>,
    now: Option<i64>,
    r: Result<ProjectDetail, PolicyDenial>,
)
    requires
        is_page_judged(policy, refusal, action, project, detail, facts, now, r),
    ensures
        refusal matches Some(denial) ==> (r matches Err(told) && told@ == denial@),
        r matches Ok(page) ==> page.meta == detail.meta && page.name == detail.name,
        r matches Ok(page) ==> (!policy.active ==> page.files@ == detail.files@ && page.versions@ == detail.versions@),
        refusal is None && !policy.active && policy.resource_rules@.len() == 0 ==> r is Ok,
{
    reveal_with_fuel(first_project_denial, 1);
}

/// A preview tells every denial of a page: that of each denied file, and that of the project itself. A page without a
/// denial has an empty preview.
pub proof fn previews_tell_every_denial(
    policy: Policy,
    refusal: Option<PolicyDenial>,
    action: PolicyAction,
    detail: ProjectDetail,
    facts: Seq<FileFacts>,
    r: Seq<PolicyDenial>,
    name: Seq<char>,
)
    requires
        are_previews(policy, refusal, action, detail, facts, r),
    ensures
        ({
            let files = policy.file_denials(opt_denial(refusal), action, detail.name@, detail.files@, facts, None);
            let project = policy.page_denial(opt_denial(refusal), action, detail.name@, detail.files@, facts, None);
            &&& files.contains_key(name) ==> exists|i: int| 0 <= i < r.len() && (#[trigger] r[i])@ == files[name]
            &&& project is Some ==> r.len() > 0 && r.last()@ == project->0
            &&& r.len() > 0 ==> project is Some || exists|n: Seq<char>| #[trigger] files.contains_key(n)
        }),
        refusal matches Some(denial) ==> r.len() == 1 && r[0]@ == denial@,
        refusal is None && !policy.active && policy.resource_rules@.len() == 0 ==> r.len() == 0,
{
    reveal_with_fuel(first_project_denial, 1);
    let files = policy.file_denials(opt_denial(refusal), action, detail.name@, detail.files@, facts, None);
    let names = listed(files.dom());
    denials_are_finite(policy, action, detail.name@, detail.files@, facts, detail.files@.len() as int);
    finite_sets_are_listed(files.dom());
    if files.contains_key(name) {
        assert(names.to_set().contains(name));
        let k = choose|k: int| 0 <= k < names.len() && names[k] == name;
        assert(r[k]@ == files[names[k]]);
    }
    if names.len() > 0 {
        assert(names.to_set().contains(names[0]));
        assert(files.contains_key(names[0]));
    }
    if refusal is Some || !policy.active {
        assert(files =~= Map::empty());
        if names.len() > 0 {
            assert(names.to_set().contains(names[0]));
        }
    }
}

proof fn denials_are_finite(
    policy: Policy,
    action: PolicyAction,
    project: Seq<char>,
    files: Seq<File>,
    facts: Seq<FileFacts>,
    n: int,
)
    ensures
        policy.page_denials(action, project, files, facts, None, n).dom().finite(),
    decreases n,
{
    if n > 0 {
        denials_are_finite(policy, action, project, files, facts, n - 1);
    }
}

} // verus!
