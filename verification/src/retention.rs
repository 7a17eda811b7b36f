//! Evaluating retention one project at a time, so that memory stays bounded.
//!
//! Ranking versions needs one project's candidates in memory at once, so the scan cannot stream within a
//! project. Each raw record is projected to a compact candidate as it is read, and a byte budget over the
//! live set rejects a project that would exceed it.
use vstd::prelude::*;
use vstd::utf8::encode_utf8;

use crate::outside::{
    is_version, order_versions, quoted, quoted_text, rfc3339_second, rfc3339_to_unix, version_order, version_valid,
    VersionOrder,
};
use crate::simple::file::{File, Yanked, YankedText};
use crate::text::{before, cut_first, decimal, decimal_text, opt_text, split_once, text_before, text_eq};

verus! {

/// Default ceiling on the live footprint one project may hold before a scan rejects it.
pub const RETENTION_PROJECT_BUDGET_BYTES: usize = 268_435_456;

/// How many upload records the scan reads between cancellation checks.
pub const RETENTION_SCAN_PAGE: usize = 100;

/// A selector of a retention policy.
pub struct RetentionSelector {
    pub kind: SelectorKind,
    pub name: String,
}

/// What a selector selects by, as far as it matters here.
#[derive(Debug, Clone, Copy, PartialEq, Eq, Structural)]
pub enum SelectorKind {
    Source,
    Cached,
    Orphan,
    Other,
}

/// Whether hosted records cannot answer a selector.
pub open spec fn unsupported(selector: RetentionSelector) -> bool {
    selector.kind is Source || selector.kind is Cached || selector.kind is Orphan
}

/// Whether validating a policy's selectors comes to `r`: the first that cannot be answered is refused by name.
pub open spec fn validated(selectors: Seq<RetentionSelector>, r: Result<(), String>) -> bool {
    match r {
        Ok(_) => forall|i: int| 0 <= i < selectors.len() ==> !unsupported(#[trigger] selectors[i]),
        Err(message) => exists|i: int|
            0 <= i < selectors.len() && unsupported(#[trigger] selectors[i]) && message@
                == "pypi retention does not support selector "@ + quoted_text(selectors[i].name@) && (forall|
                j: int,
            |
                0 <= j < i ==> !unsupported(#[trigger] selectors[j])),
    }
}

/// Refuse the first selector that hosted records cannot evaluate.
pub fn validate_retention(selectors: &Vec<RetentionSelector>) -> (r: Result<(), String>)
    ensures
        validated(selectors@, r),
{
    let mut i: usize = 0;
    while i < selectors.len()
        invariant
            i <= selectors@.len(),
            forall|j: int| 0 <= j < i ==> !unsupported(#[trigger] selectors@[j]),
        decreases selectors.len() - i,
    {
        let selector = &selectors[i];
        if matches!(selector.kind, SelectorKind::Source | SelectorKind::Cached | SelectorKind::Orphan) {
            let mut message = "pypi retention does not support selector ".to_owned();
            let name = quoted(selector.name.as_str());
            message.append(name.as_str());
            assert(unsupported(selectors@[i as int]));
            return Err(message);
        }
        i = i + 1;
    }
    Ok(())
}

/// What kind of record a candidate is.
#[derive(Debug, Clone, Copy, PartialEq, Eq, Structural)]
pub enum RetentionClass {
    Hosted,
    Trash,
}

/// Who still sees a candidate.
#[derive(Debug, Clone, Copy, PartialEq, Eq, Structural)]
pub enum RetentionVisibility {
    Active,
    Withdrawn,
    Hidden,
}

/// A stored upload record, as far as retention reads it.
pub struct Uploaded {
    pub version: String,
    pub file: File,
    pub trashed: bool,
}

/// One artifact that retention may remove.
pub struct RetentionCandidate {
    pub resource: String,
    pub artifact: String,
    pub digest: String,
    pub class: RetentionClass,
    pub visibility: RetentionVisibility,
    pub bytes: u64,
    pub upload_time_unix: Option<i64>,
    pub group: String,
    pub rank: u64,
}

/// Who still sees a file: a trashed one nobody, and a yanked one only those who ask for it.
pub open spec fn visibility_of(trashed: bool, yanked: YankedText) -> RetentionVisibility {
    if trashed {
        RetentionVisibility::Hidden
    } else if yanked is No {
        RetentionVisibility::Active
    } else {
        RetentionVisibility::Withdrawn
    }
}

/// Whether `c` is the candidate of a record, not yet ranked.
pub open spec fn is_candidate_of(c: RetentionCandidate, project: Seq<char>, uploaded: Uploaded) -> bool {
    &&& c.resource@ == project
    &&& c.artifact == uploaded.file.filename
    &&& c.digest@ == (match uploaded.file@.sha256() {
        Some(digest) => digest,
        None => Seq::empty(),
    })
    &&& c.class == (if uploaded.trashed {
        RetentionClass::Trash
    } else {
        RetentionClass::Hosted
    })
    &&& c.visibility == visibility_of(uploaded.trashed, uploaded.file.yanked@)
    &&& c.bytes == (match uploaded.file.size {
        Some(size) => size,
        None => 0,
    })
    &&& c.upload_time_unix == (match uploaded.file.upload_time {
        Some(time) => rfc3339_second(time@),
        None => None,
    })
    &&& c.group == uploaded.version
    &&& c.rank == 0
}

/// Project one upload record to its compact candidate, keeping the fields retention needs.
pub fn candidate(project: &str, uploaded: Uploaded) -> (r: RetentionCandidate)
    ensures
        is_candidate_of(r, project@, uploaded),
{
    let digest: String = match uploaded.file.sha256() {
        Some(digest) => digest.to_owned(),
        None => String::new(),
    };
    let Uploaded { version, file, trashed } = uploaded;
    let visibility: RetentionVisibility = if trashed {
        RetentionVisibility::Hidden
    } else if matches!(file.yanked, Yanked::No) {
        RetentionVisibility::Active
    } else {
        RetentionVisibility::Withdrawn
    };
    let upload_time_unix: Option<i64> = match &file.upload_time {
        Some(time) => rfc3339_to_unix(time.as_str()),
        None => None,
    };
    RetentionCandidate {
        resource: project.to_owned(),
        artifact: file.filename,
        digest,
        class: if trashed {
            RetentionClass::Trash
        } else {
            RetentionClass::Hosted
        },
        visibility,
        bytes: match file.size {
            Some(size) => size,
            None => 0,
        },
        upload_time_unix,
        group: version,
        rank: 0,
    }
}

// ---------------------------------------------------------------------------------------------
// Ranks
// ---------------------------------------------------------------------------------------------

/// Whether two spellings name one release: equal versions, or the same text where neither is a version.
pub open spec fn same_release(a: Seq<char>, b: Seq<char>) -> bool {
    if version_valid(a) && version_valid(b) {
        version_order(a, b) == Some(VersionOrder::Same)
    } else if !version_valid(a) && !version_valid(b) {
        a == b
    } else {
        false
    }
}

/// Whether release `a` ranks ahead of release `b`: newer versions first, and a spelling that is no
/// version behind every version, by the order of the texts.
pub open spec fn ahead(a: Seq<char>, b: Seq<char>) -> bool {
    if version_valid(a) && version_valid(b) {
        version_order(a, b) == Some(VersionOrder::Newer)
    } else if !version_valid(a) && !version_valid(b) {
        before(a, b)
    } else {
        version_valid(a)
    }
}

fn is_same_release(a: &str, b: &str) -> (r: bool)
    ensures
        r == same_release(a@, b@),
{
    match order_versions(a, b) {
        Some(order) => matches!(order, VersionOrder::Same),
        None => !is_version(a) && !is_version(b) && text_eq(a, b),
    }
}

fn is_ahead(a: &str, b: &str) -> (r: bool)
    ensures
        r == ahead(a@, b@),
{
    match order_versions(a, b) {
        Some(order) => matches!(order, VersionOrder::Newer),
        None => {
            if is_version(a) {
                true
            } else if is_version(b) {
                false
            } else {
                text_before(a, b)
            }
        },
    }
}

/// The groups of the candidates.
pub open spec fn groups(list: Seq<RetentionCandidate>) -> Seq<Seq<char>> {
    list.map_values(|c: RetentionCandidate| c.group@)
}

/// Whether the release at `j` stands there for the first time.
pub open spec fn first_of_release(list: Seq<Seq<char>>, j: int) -> bool {
    forall|k: int| 0 <= k < j ==> !same_release(#[trigger] list[k], list[j])
}

/// How many distinct releases among the first `n` rank ahead of `release`.
pub open spec fn rank_among(list: Seq<Seq<char>>, release: Seq<char>, n: int) -> nat
    decreases n,
{
    if n <= 0 {
        0
    } else {
        rank_among(list, release, n - 1) + (if first_of_release(list, n - 1) && ahead(list[n - 1], release) {
            1nat
        } else {
            0nat
        })
    }
}

fn is_first_of_release(list: &Vec<RetentionCandidate>, j: usize) -> (r: bool)
    requires
        j < list@.len(),
    ensures
        r == first_of_release(groups(list@), j as int),
{
    let ghost all = groups(list@);
    let mut k: usize = 0;
    while k < j
        invariant
            k <= j,
            j < list@.len(),
            all == groups(list@),
            forall|m: int| 0 <= m < k ==> !same_release(#[trigger] all[m], all[j as int]),
        decreases j - k,
    {
        assert(all[k as int] == list@[k as int].group@ && all[j as int] == list@[j as int].group@);
        if is_same_release(list[k].group.as_str(), list[j].group.as_str()) {
            return false;
        }
        k = k + 1;
    }
    true
}

fn rank_of(list: &Vec<RetentionCandidate>, i: usize) -> (r: u64)
    requires
        i < list@.len(),
    ensures
        r == rank_among(groups(list@), groups(list@)[i as int], list@.len() as int),
{
    let ghost all = groups(list@);
    let mut rank: u64 = 0;
    let mut j: usize = 0;
    while j < list.len()
        invariant
            j <= list@.len(),
            i < list@.len(),
            all == groups(list@),
            rank <= j,
            rank == rank_among(all, all[i as int], j as int),
        decreases list.len() - j,
    {
        assert(all[i as int] == list@[i as int].group@ && all[j as int] == list@[j as int].group@);
        if is_first_of_release(list, j) && is_ahead(list[j].group.as_str(), list[i].group.as_str()) {
            rank = rank + 1;
        }
        j = j + 1;
    }
    rank
}

/// Rank each distinct release newest-first. Two spellings of one release collapse to one rank; a legacy
/// spelling that does not parse ranks after every valid one, by string order.
pub fn assign_ranks(group: &mut Vec<RetentionCandidate>)
    ensures
        final(group)@.len() == old(group)@.len(),
        forall|i: int|
            0 <= i < old(group)@.len() ==> #[trigger] final(group)@[i] == (RetentionCandidate {
                rank: rank_among(groups(old(group)@), groups(old(group)@)[i], old(group)@.len() as int) as u64,
                ..old(group)@[i]
            }),
{
    let ghost start = group@;
    let ghost all = groups(start);
    let mut ranks: Vec<u64> = Vec::new();
    let mut i: usize = 0;
    while i < group.len()
        invariant
            i <= group@.len(),
            group@ == start,
            all == groups(start),
            ranks@.len() == i,
            forall|j: int| 0 <= j < i ==> #[trigger] ranks@[j] == rank_among(all, all[j], start.len() as int),
        decreases group.len() - i,
    {
        ranks.push(rank_of(group, i));
        i = i + 1;
    }
    let mut k: usize = 0;
    while k < group.len()
        invariant
            k <= group@.len(),
            group@.len() == start.len(),
            ranks@.len() == start.len(),
            all == groups(start),
            forall|j: int| 0 <= j < start.len() ==> #[trigger] ranks@[j] == rank_among(all, all[j], start.len() as int),
            forall|j: int| k <= j < start.len() ==> #[trigger] group@[j] == start[j],
            forall|j: int|
                0 <= j < k ==> #[trigger] group@[j] == (RetentionCandidate {
                    rank: rank_among(all, all[j], start.len() as int) as u64,
                    ..start[j]
                }),
        decreases group.len() - k,
    {
        let rank: u64 = ranks[k];
        let mut item = take_candidate(&group[k]);
        item.rank = rank;
        group.set(k, item);
        k = k + 1;
    }
}

fn take_candidate(c: &RetentionCandidate) -> (r: RetentionCandidate)
    ensures
        r == *c,
{
    RetentionCandidate {
        resource: c.resource.clone(),
        artifact: c.artifact.clone(),
        digest: c.digest.clone(),
        class: c.class,
        visibility: c.visibility,
        bytes: c.bytes,
        upload_time_unix: c.upload_time_unix,
        group: c.group.clone(),
        rank: c.rank,
    }
}

/// A release that is a version ranks ahead of every spelling that is none, wherever the two stand.
pub proof fn versions_rank_ahead_of_legacy_spellings(a: Seq<char>, b: Seq<char>)
    requires
        version_valid(a),
        !version_valid(b),
    ensures
        ahead(a, b),
        !ahead(b, a),
        !same_release(a, b),
{
}

// ---------------------------------------------------------------------------------------------
// The scan
// ---------------------------------------------------------------------------------------------

/// Sum, held to the range of `usize`.
pub open spec fn clamped_sum(a: int, b: int) -> int {
    if a + b > usize::MAX {
        usize::MAX as int
    } else {
        a + b
    }
}

/// The bytes one candidate holds: its struct and the strings it owns.
pub open spec fn footprint_of(struct_bytes: usize, c: RetentionCandidate) -> int {
    clamped_sum(
        clamped_sum(
            clamped_sum(
                clamped_sum(struct_bytes as int, encode_utf8(c.resource@).len() as int),
                encode_utf8(c.artifact@).len() as int,
            ),
            encode_utf8(c.digest@).len() as int,
        ),
        encode_utf8(c.group@).len() as int,
    )
}

/// The bytes one candidate holds. `struct_bytes` is the size of the candidate itself.
pub fn footprint(struct_bytes: usize, candidate: &RetentionCandidate) -> (r: usize)
    ensures
        r == footprint_of(struct_bytes, *candidate),
{
    struct_bytes.saturating_add(candidate.resource.as_str().as_bytes().len()).saturating_add(
        candidate.artifact.as_str().as_bytes().len(),
    ).saturating_add(candidate.digest.as_str().as_bytes().len()).saturating_add(
        candidate.group.as_str().as_bytes().len(),
    )
}

/// What an operator is told of a project that exceeds its budget.
pub open spec fn over_budget_text(project: Seq<char>, budget: usize) -> Seq<char> {
    "retention plan for project "@ + project + " exceeds the "@ + decimal(budget as nat)
        + "-byte per-project memory budget"@
}

fn over_budget(project: &str, budget: usize) -> (r: String)
    ensures
        r@ == over_budget_text(project@, budget),
{
    let mut out = "retention plan for project ".to_owned();
    out.append(project);
    out.append(" exceeds the ");
    let number = decimal_text(budget as u64);
    out.append(number.as_str());
    out.append("-byte per-project memory budget");
    out
}

/// A project whose records have all been read: its candidates, ranked, and the bytes they hold.
pub struct ProjectGroup {
    pub project: String,
    pub candidates: Vec<RetentionCandidate>,
    pub used: usize,
}

/// Where a scan stands: the project being read, its candidates so far, the bytes they hold, and how many
/// records were read.
pub struct RetentionScan {
    pub current: Option<String>,
    pub group: Vec<RetentionCandidate>,
    pub used: usize,
    pub scanned: usize,
    pub budget: usize,
    pub struct_bytes: usize,
}

/// What reading a record's key comes to.
pub enum Entered {
    /// The key names no project; the record is passed over.
    Skipped,
    /// The record belongs to the project being read. The project before it, if it ended, is to be planned.
    Project(Option<ProjectGroup>),
}

/// Whether `done` is the project that a scan has read, with its candidates ranked.
pub open spec fn is_group_of(done: ProjectGroup, scan: RetentionScan) -> bool {
    &&& scan.current is Some
    &&& done.project@ == (scan.current->0)@
    &&& done.used == scan.used
    &&& done.candidates@.len() == scan.group@.len()
    &&& forall|i: int|
        0 <= i < scan.group@.len() ==> #[trigger] done.candidates@[i] == (RetentionCandidate {
            rank: rank_among(groups(scan.group@), groups(scan.group@)[i], scan.group@.len() as int) as u64,
            ..scan.group@[i]
        })
}

/// Whether reading `key` takes the scan from `was` to `now` and comes to `r`.
pub open spec fn entered(
    was: RetentionScan,
    key: Seq<char>,
    cancelled: bool,
    now: RetentionScan,
    r: Result<Entered, String>,
) -> bool {
    if was.scanned % RETENTION_SCAN_PAGE == 0 && cancelled {
        r matches Err(message) && message@ == "retention scan cancelled"@ && now == was
    } else {
        &&& now.scanned == was.scanned + 1
        &&& now.budget == was.budget
        &&& now.struct_bytes == was.struct_bytes
        &&& match cut_first(key, '/') {
            None => r matches Ok(Entered::Skipped) && now.current == was.current && now.group == was.group && now.used
                == was.used,
            Some((project, _)) => if opt_text(was.current) == Some(project) {
                r matches Ok(Entered::Project(None)) && now.current == was.current && now.group == was.group
                    && now.used == was.used
            } else {
                &&& opt_text(now.current) == Some(project)
                &&& now.group@.len() == 0
                &&& now.used == 0
                &&& match was.current {
                    Some(_) => r matches Ok(Entered::Project(Some(done))) && is_group_of(done, was),
                    None => r matches Ok(Entered::Project(None)),
                }
            },
        }
    }
}

/// Whether adding a record takes the scan from `was` to `now` and comes to `r`.
pub open spec fn record_added(
    was: RetentionScan,
    uploaded: Uploaded,
    now: RetentionScan,
    r: Result<(), String>,
) -> bool {
    let project = (was.current->0)@;
    &&& exists|c: RetentionCandidate| #[trigger]
        is_candidate_of(c, project, uploaded) && {
            let used = clamped_sum(was.used as int, footprint_of(was.struct_bytes, c));
            if used > was.budget {
                r matches Err(message) && message@ == over_budget_text(project, was.budget) && now == was
            } else {
                r is Ok && now.group@ == was.group@.push(c) && now.used == used
            }
        }
    &&& now.current == was.current
    &&& now.scanned == was.scanned
    &&& now.budget == was.budget
    &&& now.struct_bytes == was.struct_bytes
}

/// Whether ending the scan takes it from `was` to `now` and comes to `r`. The project being read is handed out with
/// its candidates.
pub open spec fn scan_ended(
    was: RetentionScan,
    cancelled: bool,
    now: RetentionScan,
    r: Result<Option<ProjectGroup>, String>,
) -> bool {
    if cancelled {
        r matches Err(message) && message@ == "retention scan cancelled"@ && now == was
    } else {
        match was.current {
            Some(_) => {
                &&& r matches Ok(Some(done)) && is_group_of(done, was)
                &&& now.group@.len() == 0
                &&& now.current == was.current
                &&& now.used == was.used
                &&& now.scanned == was.scanned
                &&& now.budget == was.budget
                &&& now.struct_bytes == was.struct_bytes
            },
            None => r matches Ok(None) && now == was,
        }
    }
}

impl RetentionScan {
    /// A scan before the first record.
    pub fn new(budget: usize, struct_bytes: usize) -> (r: Self)
        ensures
            r.current is None,
            r.group@.len() == 0,
            r.used == 0,
            r.scanned == 0,
            r.budget == budget,
            r.struct_bytes == struct_bytes,
    {
        RetentionScan { current: None, group: Vec::new(), used: 0, scanned: 0, budget, struct_bytes }
    }

    fn close_group(&mut self) -> (r: ProjectGroup)
        requires
            old(self).current is Some,
        ensures
            is_group_of(r, *old(self)),
            final(self).group@.len() == 0,
            final(self).current == old(self).current,
            final(self).used == old(self).used,
            final(self).scanned == old(self).scanned,
            final(self).budget == old(self).budget,
            final(self).struct_bytes == old(self).struct_bytes,
    {
        let mut candidates: Vec<RetentionCandidate> = Vec::new();
        core::mem::swap(&mut self.group, &mut candidates);
        assign_ranks(&mut candidates);
        let project: String = match &self.current {
            Some(project) => project.clone(),
            None => String::new(),
        };
        ProjectGroup { project, candidates, used: self.used }
    }

    /// Read the key of the next record. Keys come in order, so a key of another project ends the one being
    /// read. A cancellation is noticed once every page of records.
    pub fn enter(&mut self, key: &str, cancelled: bool) -> (r: Result<Entered, String>)
        requires
            old(self).scanned < usize::MAX,
        ensures
            entered(*old(self), key@, cancelled, *final(self), r),
    {
        if self.scanned % RETENTION_SCAN_PAGE == 0 && cancelled {
            return Err("retention scan cancelled".to_owned());
        }
        self.scanned = self.scanned + 1;
        let project = match split_once(key, '/') {
            Some((project, _)) => project,
            None => {
                return Ok(Entered::Skipped);
            },
        };
        match &self.current {
            Some(current) => {
                if text_eq(current.as_str(), project) {
                    return Ok(Entered::Project(None));
                }
            },
            None => {
                self.current = Some(project.to_owned());
                self.group.clear();
                self.used = 0;
                return Ok(Entered::Project(None));
            },
        }
        let done = self.close_group();
        self.current = Some(project.to_owned());
        self.used = 0;
        Ok(Entered::Project(Some(done)))
    }

    /// Add the record whose key was entered last. A project that outgrows its budget is refused before the
    /// record is kept.
    pub fn add_record(&mut self, uploaded: Uploaded) -> (r: Result<(), String>)
        requires
            old(self).current is Some,
        ensures
            record_added(*old(self), uploaded, *final(self), r),
    {
        let project: String = match &self.current {
            Some(project) => project.clone(),
            None => String::new(),
        };
        let kept = candidate(project.as_str(), uploaded);
        let used: usize = self.used.saturating_add(footprint(self.struct_bytes, &kept));
        assert(is_candidate_of(kept, project@, uploaded));
        if used > self.budget {
            return Err(over_budget(project.as_str(), self.budget));
        }
        self.used = used;
        self.group.push(kept);
        Ok(())
    }

    /// End the scan: the project being read is to be planned.
    pub fn finish(&mut self, cancelled: bool) -> (r: Result<Option<ProjectGroup>, String>)
        ensures
            scan_ended(*old(self), cancelled, *final(self), r),
    {
        if cancelled {
            return Err("retention scan cancelled".to_owned());
        }
        if self.current.is_none() {
            return Ok(None);
        }
        let done = self.close_group();
        Ok(Some(done))
    }
}

/// Whether `r` says if a plan keeps the budget.
pub open spec fn is_plan_verdict(project: Seq<char>, used: usize, live_bytes: usize, budget: usize, r: Result<(), String>) -> bool {
    if clamped_sum(used as int, live_bytes as int) > budget {
        r matches Err(message) && message@ == over_budget_text(project, budget)
    } else {
        r is Ok
    }
}

/// Admit a project's plan: its candidates and the plan's compact state together must keep the budget.
pub fn admit_plan(project: &str, used: usize, live_bytes: usize, budget: usize) -> (r: Result<(), String>)
    ensures
        is_plan_verdict(project@, used, live_bytes, budget, r),
{
    if used.saturating_add(live_bytes) > budget {
        return Err(over_budget(project, budget));
    }
    Ok(())
}

/// What an operator is told of a record that does not decode.
pub fn corrupt_record(key: &str, error: &str) -> (r: String)
    ensures
        r@ == "corrupt upload record "@ + key@ + ": "@ + error@,
{
    let mut out = "corrupt upload record ".to_owned();
    out.append(key);
    out.append(": ");
    out.append(error);
    out
}

/// What happened last in the evaluation of an index's uploads.
pub enum RetentionEvent {
    /// The evaluation was asked for, by a policy with these selectors.
    Asked(Vec<RetentionSelector>),
    /// The read snapshot was opened.
    Opened(Result<(), String>),
    /// The plan's identity was handed out.
    Announced(Result<(), String>),
    /// A record was reached, in the order of the keys.
    Reached { key: String, cancelled: bool },
    /// The record that was reached was decoded.
    Decoded { key: String, record: Result<Uploaded, String> },
    /// A project that used that many bytes was planned. `ended` says whether it is the last one.
    Planned { project: String, used: usize, live_bytes: usize, ended: bool },
    /// The decisions of a plan were handed out.
    Emitted { result: Result<(), String>, ended: bool },
    /// No record is left.
    Exhausted { cancelled: bool },
    /// The store could not be read.
    Unreadable(String),
}

/// What to do next in the evaluation of an index's uploads.
pub enum RetentionAction {
    /// Open the read snapshot.
    Open,
    /// Hand out the plan's identity.
    Announce,
    /// Reach the next record.
    Read,
    /// Decode the record that was reached.
    Decode,
    /// Plan a project. `ended` says whether it is the last one.
    Plan { group: ProjectGroup, ended: bool },
    /// Hand out the decisions of the plan.
    Emit { ended: bool },
    Fail(String),
    Done,
}

/// Whether `action` is the step behind `event`, which takes the scan from `was` to `now`.
pub open spec fn is_retention_step(
    was: RetentionScan,
    event: RetentionEvent,
    now: RetentionScan,
    action: RetentionAction,
) -> bool {
    match event {
        RetentionEvent::Asked(selectors) => now == was && exists|r: Result<(), String>| #[trigger]
            validated(selectors@, r) && match r {
                Ok(_) => action is Open,
                Err(message) => action == RetentionAction::Fail(message),
            },
        RetentionEvent::Opened(Ok(_)) => now == was && action is Announce,
        RetentionEvent::Announced(Ok(_)) => now == was && action is Read,
        RetentionEvent::Opened(Err(message)) => now == was && action == RetentionAction::Fail(message),
        RetentionEvent::Announced(Err(message)) => now == was && action == RetentionAction::Fail(message),
        RetentionEvent::Unreadable(message) => now == was && action == RetentionAction::Fail(message),
        RetentionEvent::Reached { key, cancelled } => exists|r: Result<Entered, String>| #[trigger]
            entered(was, key@, cancelled, now, r) && match r {
                Err(message) => action == RetentionAction::Fail(message),
                Ok(Entered::Skipped) => action is Read,
                Ok(Entered::Project(None)) => action is Decode,
                Ok(Entered::Project(Some(group))) => action == (RetentionAction::Plan { group, ended: false }),
            },
        RetentionEvent::Decoded { key, record: Err(error) } => now == was && (action matches RetentionAction::Fail(
            message,
        ) && message@ == "corrupt upload record "@ + key@ + ": "@ + error@),
        RetentionEvent::Decoded { key, record: Ok(uploaded) } => exists|r: Result<(), String>| #[trigger]
            record_added(was, uploaded, now, r) && match r {
                Err(message) => action == RetentionAction::Fail(message),
                Ok(_) => action is Read,
            },
        RetentionEvent::Planned { project, used, live_bytes, ended } => now == was && if clamped_sum(
            used as int,
            live_bytes as int,
        ) > was.budget {
            action matches RetentionAction::Fail(message) && message@ == over_budget_text(project@, was.budget)
        } else {
            action == (RetentionAction::Emit { ended })
        },
        RetentionEvent::Emitted { result: Err(message), ended } => now == was && action == RetentionAction::Fail(
            message,
        ),
        RetentionEvent::Emitted { result: Ok(_), ended } => now == was && if ended {
            action is Done
        } else {
            action is Decode
        },
        RetentionEvent::Exhausted { cancelled } => exists|r: Result<Option<ProjectGroup>, String>| #[trigger]
            scan_ended(was, cancelled, now, r) && match r {
                Err(message) => action == RetentionAction::Fail(message),
                Ok(Some(group)) => action == (RetentionAction::Plan { group, ended: true }),
                Ok(None) => action is Done,
            },
    }
}

/// Evaluate an index's uploads, step by step: the selectors are checked before the store is read, the plan's
/// identity is handed out before the first decision, each project is planned when its last record has been
/// read, and a project whose live set outgrows the budget ends the evaluation before a decision is expanded.
pub fn evaluate_retention(scan: &mut RetentionScan, event: RetentionEvent) -> (r: RetentionAction)
    requires
        event is Reached ==> old(scan).scanned < usize::MAX,
        event is Decoded ==> old(scan).current is Some,
    ensures
        is_retention_step(*old(scan), event, *final(scan), r),
{
    match event {
        RetentionEvent::Asked(selectors) => {
            let checked = validate_retention(&selectors);
            assert(validated(selectors@, checked));
            match checked {
                Ok(_) => RetentionAction::Open,
                Err(message) => RetentionAction::Fail(message),
            }
        },
        RetentionEvent::Opened(Ok(_)) => RetentionAction::Announce,
        RetentionEvent::Announced(Ok(_)) => RetentionAction::Read,
        RetentionEvent::Opened(Err(message)) => RetentionAction::Fail(message),
        RetentionEvent::Announced(Err(message)) => RetentionAction::Fail(message),
        RetentionEvent::Unreadable(message) => RetentionAction::Fail(message),
        RetentionEvent::Reached { key, cancelled } => {
            let reached = scan.enter(key.as_str(), cancelled);
            assert(entered(*old(scan), key@, cancelled, *scan, reached));
            match reached {
                Err(message) => RetentionAction::Fail(message),
                Ok(Entered::Skipped) => RetentionAction::Read,
                Ok(Entered::Project(None)) => RetentionAction::Decode,
                Ok(Entered::Project(Some(group))) => RetentionAction::Plan { group, ended: false },
            }
        },
        RetentionEvent::Decoded { key, record: Err(error) } => RetentionAction::Fail(
            corrupt_record(key.as_str(), error.as_str()),
        ),
        RetentionEvent::Decoded { key: _, record: Ok(uploaded) } => {
            let added = scan.add_record(uploaded);
            assert(record_added(*old(scan), uploaded, *scan, added));
            match added {
                Err(message) => RetentionAction::Fail(message),
                Ok(_) => RetentionAction::Read,
            }
        },
        RetentionEvent::Planned { project, used, live_bytes, ended } => match admit_plan(
            project.as_str(),
            used,
            live_bytes,
            scan.budget,
        ) {
            Err(message) => RetentionAction::Fail(message),
            Ok(_) => RetentionAction::Emit { ended },
        },
        RetentionEvent::Emitted { result: Err(message), ended: _ } => RetentionAction::Fail(message),
        RetentionEvent::Emitted { result: Ok(_), ended } => {
            if ended {
                RetentionAction::Done
            } else {
                RetentionAction::Decode
            }
        },
        RetentionEvent::Exhausted { cancelled } => {
            let done = scan.finish(cancelled);
            assert(scan_ended(*old(scan), cancelled, *scan, done));
            match done {
                Err(message) => RetentionAction::Fail(message),
                Ok(Some(group)) => RetentionAction::Plan { group, ended: true },
                Ok(None) => RetentionAction::Done,
            }
        },
    }
}

/// One step of an evaluation: the scan before it, what happened, the scan behind it, and what is done next.
pub struct RetentionMoment {
    pub was: RetentionScan,
    pub event: RetentionEvent,
    pub now: RetentionScan,
    pub action: RetentionAction,
}

/// Whether `event` can follow on `action`.
pub open spec fn follows(action: RetentionAction, event: RetentionEvent) -> bool {
    match action {
        RetentionAction::Open => event is Opened,
        RetentionAction::Announce => event is Announced,
        RetentionAction::Read => event is Reached || event is Exhausted || event is Unreadable,
        RetentionAction::Decode => event is Decoded,
        RetentionAction::Plan { group, ended } => event matches RetentionEvent::Planned {
            project,
            used,
            ended: last,
            ..
        } && project@ == group.project@ && used == group.used && last == ended,
        RetentionAction::Emit { ended } => event matches RetentionEvent::Emitted { ended: last, .. } && last == ended,
        RetentionAction::Fail(_) => false,
        RetentionAction::Done => false,
    }
}

/// Whether `run` is an evaluation from its start on, each event following on the action before it.
pub open spec fn is_evaluation(run: Seq<RetentionMoment>) -> bool {
    &&& run.len() > 0
    &&& run[0].event is Asked
    &&& forall|i: int|
        0 <= i < run.len() ==> #[trigger] is_retention_step(run[i].was, run[i].event, run[i].now, run[i].action)
    &&& forall|i: int|
        0 < i < run.len() ==> (#[trigger] run[i]).was == run[i - 1].now && follows(run[i - 1].action, run[i].event)
}

proof fn reading_goes_on(run: Seq<RetentionMoment>, n: int)
    requires
        is_evaluation(run),
        0 <= n < run.len(),
    ensures
        n == 1 ==> run[n].event is Opened,
        n == 2 ==> run[n].event is Announced,
        n > 2 ==> !(run[n].event is Asked) && !(run[n].event is Opened) && !(run[n].event is Announced),
        run[n].was.budget == run[0].was.budget,
        run[n].now.budget == run[0].was.budget,
    decreases n,
{
    assert(is_retention_step(run[n].was, run[n].event, run[n].now, run[n].action));
    if n > 0 {
        reading_goes_on(run, n - 1);
        assert(is_retention_step(run[n - 1].was, run[n - 1].event, run[n - 1].now, run[n - 1].action));
        assert(run[n].was == run[n - 1].now && follows(run[n - 1].action, run[n].event));
    }
}

/// An evaluation hands out the plan's identity at most once, once the store is open and before anything is
/// read.
pub proof fn the_plan_is_announced_once(run: Seq<RetentionMoment>, n: int)
    requires
        is_evaluation(run),
        0 <= n < run.len(),
        run[n].action is Announce,
    ensures
        n == 1,
        run[1].event matches RetentionEvent::Opened(Ok(_)),
{
    assert(is_retention_step(run[n].was, run[n].event, run[n].now, run[n].action));
    reading_goes_on(run, n);
}

/// Decisions are handed out only behind the plan's identity, and only for a project that has just been planned
/// and whose candidates and plan together keep the budget that the evaluation began with.
pub proof fn decisions_keep_the_budget(run: Seq<RetentionMoment>, n: int)
    requires
        is_evaluation(run),
        0 <= n < run.len(),
        run[n].action is Emit,
    ensures
        n > 3,
        run[1].action is Announce,
        run[2].event matches RetentionEvent::Announced(Ok(_)),
        run[n - 1].action is Plan,
        run[n].event matches RetentionEvent::Planned { used, live_bytes, .. } && used
            == run[n - 1].action->Plan_group.used && clamped_sum(used as int, live_bytes as int)
            <= run[0].was.budget,
{
    reading_goes_on(run, n);
    assert(is_retention_step(run[n].was, run[n].event, run[n].now, run[n].action));
    assert(run[n].event is Planned);
    assert(n > 2);
    assert(run[n].was == run[n - 1].now && follows(run[n - 1].action, run[n].event));
    reading_goes_on(run, 1);
    reading_goes_on(run, 2);
    reading_goes_on(run, n - 1);
    assert(is_retention_step(run[1].was, run[1].event, run[1].now, run[1].action));
    assert(is_retention_step(run[2].was, run[2].event, run[2].now, run[2].action));
    assert(run[2].was == run[1].now && follows(run[1].action, run[2].event));
    assert(run[3].was == run[2].now && follows(run[2].action, run[3].event));
    assert(is_retention_step(run[n - 1].was, run[n - 1].event, run[n - 1].now, run[n - 1].action));
}

} // verus!
