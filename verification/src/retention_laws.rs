//! What retention promises: what each record stands for, how releases rank, and when a scan stops.
use vstd::prelude::*;

use crate::outside::{version_order, version_valid, VersionOrder};
use crate::retention::{
    ahead, clamped_sum, entered, first_of_release, footprint_of, is_candidate_of, is_group_of, is_plan_verdict,
    is_retention_step, rank_among, record_added, same_release, scan_ended, unsupported, validated, visibility_of, Entered,
    ProjectGroup, RetentionAction, RetentionCandidate, RetentionClass, RetentionEvent, RetentionScan, RetentionSelector,
    RetentionVisibility, SelectorKind, Uploaded,
};
use crate::simple::file::YankedText;
use crate::text::{before, holds_text, joined_texts_hold};

verus! {

/// A policy is taken up exactly where each of its selectors can be answered from hosted records: none selects by
/// source, by cache or by orphanhood.
pub proof fn selectors_are_answered_or_refused(selectors: Seq<RetentionSelector>, r: Result<(), String>)
    requires
        validated(selectors, r),
    ensures
        r is Ok <==> forall|i: int|
            0 <= i < selectors.len() ==> (#[trigger] selectors[i]).kind == SelectorKind::Other,
{
    if r is Ok {
        assert forall|i: int| 0 <= i < selectors.len() implies (#[trigger] selectors[i]).kind == SelectorKind::Other by {
            assert(!unsupported(selectors[i]));
        }
    } else {
        let i = choose|i: int| 0 <= i < selectors.len() && unsupported(#[trigger] selectors[i]);
        assert(selectors[i].kind != SelectorKind::Other);
    }
}

/// Nobody sees a trashed file, only those who ask for it see a yanked one, and everyone sees any other.
pub proof fn files_are_seen_until_withdrawn(trashed: bool, yanked: YankedText)
    ensures
        visibility_of(trashed, yanked) == RetentionVisibility::Hidden <==> trashed,
        visibility_of(trashed, yanked) == RetentionVisibility::Active <==> !trashed && yanked is No,
        visibility_of(trashed, yanked) == RetentionVisibility::Withdrawn <==> !trashed && !(yanked is No),
{
}

/// A candidate stands for its record: its file, its digest, its size, its release, and whether it is in the trash.
pub proof fn candidates_stand_for_their_record(c: RetentionCandidate, project: Seq<char>, uploaded: Uploaded)
    requires
        is_candidate_of(c, project, uploaded),
    ensures
        c.resource@ == project,
        c.artifact@ == uploaded.file.filename@,
        c.group@ == uploaded.version@,
        c.class == RetentionClass::Trash <==> uploaded.trashed,
        c.class == RetentionClass::Hosted <==> !uploaded.trashed,
        uploaded.file.size matches Some(size) ==> c.bytes == size,
        uploaded.file.size is None ==> c.bytes == 0,
        uploaded.file@.hashes.contains_key("sha256"@) ==> c.digest@ == uploaded.file@.hashes["sha256"@],
        uploaded.file.upload_time is None ==> c.upload_time_unix is None,
        uploaded.file.upload_time matches Some(time) ==> c.upload_time_unix == crate::outside::rfc3339_second(time@),
        uploaded.trashed ==> c.visibility == RetentionVisibility::Hidden,
        !uploaded.trashed && uploaded.file.yanked@ is No ==> c.visibility == RetentionVisibility::Active,
{
}

/// Newer versions rank ahead of older ones, a version ahead of every spelling that is none, and such spellings in the
/// order of their texts. Two spellings of one version are one release.
pub proof fn releases_rank_newest_first(a: Seq<char>, b: Seq<char>)
    ensures
        version_valid(a) && version_valid(b) ==> (ahead(a, b) <==> version_order(a, b) == Some(VersionOrder::Newer)),
        version_valid(a) && version_valid(b) ==> (same_release(a, b) <==> version_order(a, b) == Some(VersionOrder::Same)),
        version_valid(a) && !version_valid(b) ==> ahead(a, b) && !ahead(b, a) && !same_release(a, b),
        !version_valid(a) && !version_valid(b) ==> (ahead(a, b) <==> before(a, b)),
        !version_valid(a) && !version_valid(b) ==> (same_release(a, b) <==> a == b),
{
}

/// The positions where a release that ranks ahead of `release` stands for the first time.
pub open spec fn ahead_at(list: Seq<Seq<char>>, release: Seq<char>, n: int) -> Set<int> {
    Set::new(|j: int| 0 <= j < n && first_of_release(list, j) && ahead(list[j], release))
}

/// A release's rank is the number of distinct releases ahead of it. So the newest has rank zero, and no release has a
/// lower one.
pub proof fn ranks_count_the_releases_ahead(list: Seq<Seq<char>>, release: Seq<char>, n: int)
    requires
        0 <= n <= list.len(),
    ensures
        ahead_at(list, release, n).finite(),
        rank_among(list, release, n) == ahead_at(list, release, n).len(),
        rank_among(list, release, n) == 0 <==> forall|j: int|
            0 <= j < n && first_of_release(list, j) ==> !ahead(#[trigger] list[j], release),
    decreases n,
{
    let all = ahead_at(list, release, n);
    if n > 0 {
        ranks_count_the_releases_ahead(list, release, n - 1);
        let fewer = ahead_at(list, release, n - 1);
        if first_of_release(list, n - 1) && ahead(list[n - 1], release) {
            assert(all =~= fewer.insert(n - 1));
            assert(ahead(list[n - 1], release));
        } else {
            assert(all =~= fewer);
        }
    } else {
        assert(all =~= Set::empty());
    }
}

/// A record is kept exactly where its project stays within the budget with it; otherwise nothing changes.
pub proof fn projects_keep_their_budget(was: RetentionScan, uploaded: Uploaded, now: RetentionScan, r: Result<(), String>)
    requires
        was.current is Some,
        was.used <= was.budget,
        record_added(was, uploaded, now, r),
    ensures
        now.used <= now.budget,
        now.budget == was.budget,
        r is Err ==> now == was,
        r is Ok ==> now.group@.len() == was.group@.len() + 1 && is_candidate_of(
            now.group@.last(),
            (was.current->0)@,
            uploaded,
        ) && now.used >= was.used,
        r is Ok ==> forall|i: int| 0 <= i < was.group@.len() ==> now.group@[i] == #[trigger] was.group@[i],
{
    let project = (was.current->0)@;
    let c = choose|c: RetentionCandidate| #[trigger]
        is_candidate_of(c, project, uploaded) && {
            let used = clamped_sum(was.used as int, footprint_of(was.struct_bytes, c));
            if used > was.budget {
                r matches Err(message) && now == was
            } else {
                r is Ok && now.group@ == was.group@.push(c) && now.used == used
            }
        };
    assert(is_candidate_of(c, project, uploaded));
}

/// A key of another project ends the one being read, which is handed out with all its candidates; a key of the same
/// goes on with it. A cancellation is noticed at the start of a page of records.
pub proof fn projects_are_handed_out_whole(
    was: RetentionScan,
    project: Seq<char>,
    rest: Seq<char>,
    cancelled: bool,
    now: RetentionScan,
    r: Result<Entered, String>,
)
    requires
        !project.contains('/'),
        entered(was, project + seq!['/'] + rest, cancelled, now, r),
    ensures
        r is Err <==> cancelled && was.scanned % 100 == 0,
        r is Err ==> now == was,
        r is Ok ==> now.current is Some && (now.current->0)@ == project && now.scanned == was.scanned + 1,
        r is Ok && was.current is Some && (was.current->0)@ == project ==> (r matches Ok(Entered::Project(None)))
            && now.group == was.group && now.used == was.used,
        r is Ok && was.current is Some && (was.current->0)@ != project ==> (r matches Ok(Entered::Project(Some(done)))
            && done.project@ == (was.current->0)@ && done.candidates@.len() == was.group@.len() && now.group@.len() == 0
            && now.used == 0),
        r is Ok && was.current is None ==> (r matches Ok(Entered::Project(None))) && now.group@.len() == 0,
{
    crate::text::first_index_of_joined(project, '/', rest);
}

/// The end of a scan hands out the project being read, with all its candidates, unless it is cancelled.
pub proof fn the_last_project_is_handed_out(
    was: RetentionScan,
    cancelled: bool,
    now: RetentionScan,
    r: Result<Option<ProjectGroup>, String>,
)
    requires
        scan_ended(was, cancelled, now, r),
    ensures
        r is Err <==> cancelled,
        !cancelled ==> ((r matches Ok(Some(_))) <==> was.current is Some),
        r matches Ok(Some(done)) ==> done.project@ == (was.current->0)@ && done.candidates@.len() == was.group@.len()
            && done.used == was.used,
{
}

/// A group's candidates are those of the scan, in order, each with its rank and otherwise as it was.
pub proof fn grouped_candidates_are_ranked(done: ProjectGroup, scan: RetentionScan, i: int)
    requires
        is_group_of(done, scan),
        0 <= i < scan.group@.len(),
    ensures
        done.candidates@.len() == scan.group@.len(),
        done.candidates@[i].artifact == scan.group@[i].artifact,
        done.candidates@[i].digest == scan.group@[i].digest,
        done.candidates@[i].class == scan.group@[i].class,
        done.candidates@[i].visibility == scan.group@[i].visibility,
        done.candidates@[i].bytes == scan.group@[i].bytes,
        done.candidates@[i].group == scan.group@[i].group,
        done.candidates@[i].upload_time_unix == scan.group@[i].upload_time_unix,
        done.candidates@[i].rank == crate::retention::rank_among(
            scan.group@.map_values(|c: RetentionCandidate| c.group@),
            scan.group@[i].group@,
            scan.group@.len() as int,
        ) as u64,
{
}

/// A plan is admitted exactly where it keeps the budget together with its candidates.
pub proof fn plans_keep_the_budget(project: Seq<char>, used: usize, live_bytes: usize, budget: usize, r: Result<(), String>)
    requires
        is_plan_verdict(project, used, live_bytes, budget, r),
        used + live_bytes <= usize::MAX,
    ensures
        r is Ok <==> used + live_bytes <= budget,
{
}

/// An evaluation goes on wherever nothing is against it: selectors that can be answered open the store, an open store
/// has its plan announced, an announced plan is read for, a plan within its budget is handed out, and behind the last
/// decision the evaluation is done. It fails where one of these fails.
pub proof fn evaluations_go_on(was: RetentionScan, event: RetentionEvent, now: RetentionScan, action: RetentionAction)
    requires
        is_retention_step(was, event, now, action),
    ensures
        event matches RetentionEvent::Asked(selectors) ==> (action is Open <==> forall|i: int|
            0 <= i < selectors@.len() ==> (#[trigger] selectors@[i]).kind == SelectorKind::Other) && (action is Open
            || action is Fail),
        event matches RetentionEvent::Opened(opened) ==> (action is Announce <==> opened is Ok) && (action is Announce
            || action is Fail),
        event matches RetentionEvent::Announced(announced) ==> (action is Read <==> announced is Ok) && (action is Read
            || action is Fail),
        event matches RetentionEvent::Decoded { key, record } ==> (record is Err ==> action is Fail) && (action is Read
            || action is Fail),
        event matches RetentionEvent::Planned { project, used, live_bytes, ended } ==> (used + live_bytes <= usize::MAX
            ==> (action == (RetentionAction::Emit { ended }) <==> used + live_bytes <= was.budget)) && (action is Emit
            || action is Fail),
        event matches RetentionEvent::Emitted { result, ended } ==> (result is Ok ==> action == (if ended {
            RetentionAction::Done
        } else {
            RetentionAction::Decode
        })) && (result is Err ==> action is Fail),
        event matches RetentionEvent::Unreadable(message) ==> action == RetentionAction::Fail(message),
        event matches RetentionEvent::Opened(Err(message)) ==> action == RetentionAction::Fail(message),
        event matches RetentionEvent::Announced(Err(message)) ==> action == RetentionAction::Fail(message),
        (event matches RetentionEvent::Emitted { result: Err(message), .. }) ==> action == RetentionAction::Fail(
            event->result->Err_0,
        ),
        event is Opened || event is Announced || event is Unreadable || event is Planned || event is Emitted ==> now
            == was,
        event matches RetentionEvent::Decoded { key, record: Err(error) } ==> now == was && (
        action matches RetentionAction::Fail(message) && holds_text(message@, key@) && holds_text(message@, error@)),
        event matches RetentionEvent::Exhausted { cancelled } ==> (action is Fail <==> cancelled) && (!cancelled
            && was.current is Some ==> (action matches RetentionAction::Plan { group, ended } && ended
            && group.candidates@.len() == was.group@.len())) && (!cancelled && was.current is None ==> action is Done),
{
    match event {
        RetentionEvent::Asked(selectors) => {
            let r = choose|r: Result<(), String>| #[trigger]
                validated(selectors@, r) && match r {
                    Ok(_) => action is Open,
                    Err(message) => action == RetentionAction::Fail(message),
                };
            selectors_are_answered_or_refused(selectors@, r);
        },
        RetentionEvent::Decoded { key, record: Err(error) } => {
            let head = "corrupt upload record "@;
            joined_texts_hold(head, key@, ": "@ + error@);
            joined_texts_hold(head + key@ + ": "@, error@, Seq::empty());
            assert(head + key@ + (": "@ + error@) =~= head + key@ + ": "@ + error@);
            assert(head + key@ + ": "@ + error@ + Seq::empty() =~= head + key@ + ": "@ + error@);
        },
        RetentionEvent::Exhausted { cancelled } => {
            let r = choose|r: Result<Option<ProjectGroup>, String>| #[trigger]
                scan_ended(was, cancelled, now, r) && match r {
                    Err(message) => action == RetentionAction::Fail(message),
                    Ok(Some(group)) => action == (RetentionAction::Plan { group, ended: true }),
                    Ok(None) => action is Done,
                };
            the_last_project_is_handed_out(was, cancelled, now, r);
        },
        _ => {},
    }
}

} // verus!
