//! The quota a write faces, and what becomes of an allocation.
use vstd::prelude::*;

use crate::text::{opt_str, text_eq};

verus! {

/// The limits an allocation is held to.
#[derive(Debug, Clone, Copy, PartialEq, Eq, Structural)]
pub struct QuotaLimits {
    pub max_artifact_bytes: Option<u64>,
    pub max_accounted_bytes: Option<u64>,
    pub max_resources: Option<u64>,
    pub max_groups_per_resource: Option<u64>,
    /// Whether a violation is only recorded.
    pub audit: bool,
}

/// The quota a write faces on one route: the named index's limits merged with those of the hosted layer
/// it writes through, since a virtual route answers to both.
#[derive(Debug, Clone, Copy, PartialEq, Eq, Structural)]
pub struct EffectiveQuota {
    pub limits: QuotaLimits,
    pub max_project_bytes: Option<u64>,
}

/// What a policy says of quotas.
#[derive(Debug, Clone, Copy, PartialEq, Eq, Structural)]
pub struct PolicyQuota {
    pub enforces_quota: bool,
    pub max_artifact_size: Option<u64>,
    pub max_accounted_bytes: Option<u64>,
    pub max_resources: Option<u64>,
    pub max_groups_per_resource: Option<u64>,
    pub audit: bool,
    pub max_resource_size: Option<u64>,
}

/// The smaller of two optional limits; one that is missing limits nothing.
pub open spec fn tighter(first: Option<u64>, second: Option<u64>) -> Option<u64> {
    match (first, second) {
        (Some(a), Some(b)) => if a <= b {
            Some(a)
        } else {
            Some(b)
        },
        (Some(a), None) => Some(a),
        (None, second) => second,
    }
}

/// The smaller of two optional limits.
pub fn minimum(first: Option<u64>, second: Option<u64>) -> (r: Option<u64>)
    ensures
        r == tighter(first, second),
{
    match (first, second) {
        (Some(a), Some(b)) => if a <= b {
            Some(a)
        } else {
            Some(b)
        },
        (Some(a), None) => Some(a),
        (None, second) => second,
    }
}

/// Two quotas together: every limit the tighter one, and audited only where both are.
pub open spec fn merged(first: EffectiveQuota, second: EffectiveQuota) -> EffectiveQuota {
    EffectiveQuota {
        limits: QuotaLimits {
            max_artifact_bytes: tighter(first.limits.max_artifact_bytes, second.limits.max_artifact_bytes),
            max_accounted_bytes: tighter(first.limits.max_accounted_bytes, second.limits.max_accounted_bytes),
            max_resources: tighter(first.limits.max_resources, second.limits.max_resources),
            max_groups_per_resource: tighter(
                first.limits.max_groups_per_resource,
                second.limits.max_groups_per_resource,
            ),
            audit: first.limits.audit && second.limits.audit,
        },
        max_project_bytes: tighter(first.max_project_bytes, second.max_project_bytes),
    }
}

fn merge_quotas(first: EffectiveQuota, second: EffectiveQuota) -> (r: EffectiveQuota)
    ensures
        r == merged(first, second),
{
    EffectiveQuota {
        limits: QuotaLimits {
            max_artifact_bytes: minimum(first.limits.max_artifact_bytes, second.limits.max_artifact_bytes),
            max_accounted_bytes: minimum(first.limits.max_accounted_bytes, second.limits.max_accounted_bytes),
            max_resources: minimum(first.limits.max_resources, second.limits.max_resources),
            max_groups_per_resource: minimum(
                first.limits.max_groups_per_resource,
                second.limits.max_groups_per_resource,
            ),
            audit: first.limits.audit && second.limits.audit,
        },
        max_project_bytes: minimum(first.max_project_bytes, second.max_project_bytes),
    }
}

/// The quota of a policy: one that enforces none and limits no project has none.
pub open spec fn quota_of(policy: PolicyQuota) -> Option<EffectiveQuota> {
    if policy.enforces_quota || policy.max_resource_size is Some {
        Some(
            EffectiveQuota {
                limits: QuotaLimits {
                    max_artifact_bytes: policy.max_artifact_size,
                    max_accounted_bytes: policy.max_accounted_bytes,
                    max_resources: policy.max_resources,
                    max_groups_per_resource: policy.max_groups_per_resource,
                    audit: policy.audit,
                },
                max_project_bytes: policy.max_resource_size,
            },
        )
    } else {
        None
    }
}

/// The quota of a policy.
pub fn policy_quota(policy: &PolicyQuota) -> (r: Option<EffectiveQuota>)
    ensures
        r == quota_of(*policy),
{
    if policy.enforces_quota || policy.max_resource_size.is_some() {
        Some(
            EffectiveQuota {
                limits: QuotaLimits {
                    max_artifact_bytes: policy.max_artifact_size,
                    max_accounted_bytes: policy.max_accounted_bytes,
                    max_resources: policy.max_resources,
                    max_groups_per_resource: policy.max_groups_per_resource,
                    audit: policy.audit,
                },
                max_project_bytes: policy.max_resource_size,
            },
        )
    } else {
        None
    }
}

/// The quota that two policies leave together.
pub open spec fn combined(first: Option<EffectiveQuota>, second: Option<EffectiveQuota>) -> Option<EffectiveQuota> {
    match (first, second) {
        (Some(a), Some(b)) => Some(merged(a, b)),
        (Some(a), None) => Some(a),
        (None, second) => second,
    }
}

/// Whether `r` is the quota of a write on the route of one index that lands on another.
pub open spec fn is_effective_quota(
    index_name: Seq<char>,
    index_policy: PolicyQuota,
    hosted_name: Seq<char>,
    hosted_policy: PolicyQuota,
    r: Option<EffectiveQuota>,
) -> bool {
    r == (if index_name == hosted_name {
        quota_of(index_policy)
    } else {
        combined(quota_of(index_policy), quota_of(hosted_policy))
    })
}

/// The quota of a write on the route of `index` that lands on `hosted`. A route that writes to itself
/// answers to its policy once.
pub fn effective_project_quota(
    index_name: &str,
    index_policy: &PolicyQuota,
    hosted_name: &str,
    hosted_policy: &PolicyQuota,
) -> (r: Option<EffectiveQuota>)
    ensures
        is_effective_quota(index_name@, *index_policy, hosted_name@, *hosted_policy, r),
{
    let first: Option<EffectiveQuota> = policy_quota(index_policy);
    if text_eq(index_name, hosted_name) {
        return first;
    }
    let second: Option<EffectiveQuota> = policy_quota(hosted_policy);
    match (first, second) {
        (Some(a), Some(b)) => Some(merge_quotas(a, b)),
        (Some(a), None) => Some(a),
        (None, second) => second,
    }
}

/// Whether a number of bytes keeps an optional limit.
pub open spec fn keeps(limit: Option<u64>, bytes: u64) -> bool {
    limit is None || bytes <= limit->0
}

/// What keeps a merged limit keeps both, and the other way round: a virtual route never admits what one
/// of its two policies refuses.
pub proof fn merged_limits_answer_to_both(first: EffectiveQuota, second: EffectiveQuota, bytes: u64)
    ensures
        keeps(merged(first, second).max_project_bytes, bytes) == (keeps(first.max_project_bytes, bytes) && keeps(
            second.max_project_bytes,
            bytes,
        )),
        keeps(merged(first, second).limits.max_artifact_bytes, bytes) == (keeps(
            first.limits.max_artifact_bytes,
            bytes,
        ) && keeps(second.limits.max_artifact_bytes, bytes)),
        keeps(merged(first, second).limits.max_accounted_bytes, bytes) == (keeps(
            first.limits.max_accounted_bytes,
            bytes,
        ) && keeps(second.limits.max_accounted_bytes, bytes)),
{
}

/// Merging does not depend on which policy comes first.
pub proof fn merging_is_symmetric(first: EffectiveQuota, second: EffectiveQuota)
    ensures
        merged(first, second) == merged(second, first),
{
}

/// What an allocation of upload bytes is asked for.
#[derive(Debug)]
pub struct NewQuotaReservation<'a> {
    pub repository: &'a str,
    pub resource: Option<&'a str>,
    pub group: Option<&'a str>,
    pub digest: &'a str,
    pub bytes: u64,
    pub created_at_unix: i64,
}

/// Ask for a hosted upload's bytes. The project is named by its normalized name, so that equivalent
/// spellings account together.
pub fn quota_reservation<'a>(
    repository: &'a str,
    project: &'a str,
    version: Option<&'a str>,
    digest: &'a str,
    bytes: u64,
    created_at_unix: i64,
) -> (r: NewQuotaReservation<'a>)
    ensures
        r.repository@ == repository@,
        opt_str(r.resource) == Some(project@),
        opt_str(r.group) == opt_str(version),
        r.digest@ == digest@,
        r.bytes == bytes,
        r.created_at_unix == created_at_unix,
{
    NewQuotaReservation { repository, resource: Some(project), group: version, digest, bytes, created_at_unix }
}

/// One exceeded limit.
#[derive(Debug, Clone, Copy, PartialEq, Eq, Structural)]
pub enum QuotaLimit {
    ArtifactBytes,
    AccountedBytes,
    Resources,
    GroupsPerResource,
}

/// What the quota store said of a request.
pub enum QuotaOutcome {
    /// The bytes are held under this allocation.
    Reserved { id: u128 },
    /// The project would hold that many bytes, more than it may.
    ResourceExceeded { total: u64 },
    /// The limits that the request exceeds.
    Exceeded { violations: Vec<QuotaLimit> },
    /// The store failed.
    Failed,
}

/// Why a metered upload is refused.
pub enum QuotaRejection {
    ProjectBytes { total: u64 },
    Limits(Vec<QuotaLimit>),
}

/// A metered upload's admission decision.
pub enum Admission {
    Reserved(PendingQuota),
    Rejected(QuotaRejection),
}

/// A pending upload allocation. It is to be released unless it is finished.
pub struct PendingQuota {
    pub id: Option<u128>,
}

impl PendingQuota {
    /// The allocation was settled with the upload it was made for.
    pub fn finish(&mut self)
        ensures
            final(self).id is None,
    {
        self.id = None;
    }

    /// The allocation to release when the request ends here.
    pub fn to_release(&self) -> (r: Option<u128>)
        ensures
            r == self.id,
    {
        self.id
    }
}

/// Whether `r` is what is decided on what the quota store said.
pub open spec fn is_quota_decision(outcome: QuotaOutcome, r: Option<Admission>) -> bool {
    match outcome {
        QuotaOutcome::Reserved { id } => r matches Some(Admission::Reserved(pending)) && pending.id == Some(id),
        QuotaOutcome::ResourceExceeded { total } => r matches Some(
            Admission::Rejected(QuotaRejection::ProjectBytes { total: t }),
        ) && t == total,
        QuotaOutcome::Exceeded { violations } => r matches Some(
            Admission::Rejected(QuotaRejection::Limits(list)),
        ) && list == violations,
        QuotaOutcome::Failed => r is None,
    }
}

/// Decide on an upload from what the quota store said. A configured limit is a rejection; a failure of
/// the store is none.
pub fn admit_upload(outcome: QuotaOutcome) -> (r: Option<Admission>)
    ensures
        is_quota_decision(outcome, r),
{
    match outcome {
        QuotaOutcome::Reserved { id } => Some(Admission::Reserved(PendingQuota { id: Some(id) })),
        QuotaOutcome::ResourceExceeded { total } => Some(
            Admission::Rejected(QuotaRejection::ProjectBytes { total }),
        ),
        QuotaOutcome::Exceeded { violations } => Some(Admission::Rejected(QuotaRejection::Limits(violations))),
        QuotaOutcome::Failed => None,
    }
}

} // verus!
