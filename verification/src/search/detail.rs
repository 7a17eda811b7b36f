//! A project as an index describes it to the search index: the stored records of a leaf, or the merged
//! view of a virtual repository's members.
use vstd::prelude::*;

use crate::collections::{listed, TextMap, TextSet};
use crate::digest::{is_digest, valid_digest};
use crate::policy::{opt_denial, PolicyAction, PolicyDenial};
use crate::policy_engine::{FileFacts, Policy};
use crate::retention::Uploaded;
use crate::search::text::{searched, search_text, CoreMetadataDoc};
use crate::simple::file::{CoreMetadata, File, FileText, MetadataText, Yanked};
use crate::simple::meta::{Meta, ProjectStatus, API_VERSION};
use crate::simple::page::{incoming_refusal, parse_detail, served_meta, IncomingDetail, ProjectDetail};
use crate::simple::SimpleError;
use crate::source_policy::{selected, Member, SourceSelection};
use crate::store::overrides::FileOverride;
use crate::text::{opt_text, texts};

verus! {

/// The files as texts.
pub open spec fn file_views(files: Seq<File>) -> Seq<FileText> {
    files.map_values(|f: File| f@)
}

/// A page without a file or a version.
pub open spec fn is_empty_page(detail: ProjectDetail, normalized: Seq<char>) -> bool {
    &&& detail.meta.api_version@ == API_VERSION@
    &&& detail.meta.project_status is None
    &&& detail.meta.project_status_reason is None
    &&& detail.name@ == normalized
    &&& detail.versions@.len() == 0
    &&& detail.files@.len() == 0
}

/// The page of a project that an index holds nothing of.
pub fn empty_detail(normalized: &str) -> (r: ProjectDetail)
    ensures
        is_empty_page(r, normalized@),
{
    ProjectDetail { meta: Meta::default(), name: normalized.to_owned(), versions: Vec::new(), files: Vec::new() }
}

/// Whether `now` is the page `was` held to its own status.
pub open spec fn is_status_applied(was: ProjectDetail, now: ProjectDetail) -> bool {
    &&& now.meta == was.meta
    &&& now.name == was.name
    &&& now.versions == was.versions
    &&& now.files@ == (if was.meta.status_named() is Quarantined {
        Seq::empty()
    } else {
        was.files@
    })
}

/// A quarantined project shows no file.
pub fn apply_project_status(detail: &mut ProjectDetail)
    ensures
        is_status_applied(*old(detail), *final(detail)),
{
    if detail.meta.status() == ProjectStatus::Quarantined {
        detail.files.clear();
    }
}

/// A mirrored file as it is served here: a file without a digest loses its metadata sibling, one whose
/// sibling has no digest does too, and a relative address stays while any other becomes the local one.
pub open spec fn presented(file: FileText, local_url: Seq<char>) -> FileText {
    if file.sha256() is None {
        file.with_metadata(MetadataText::Absent)
    } else {
        let verified = if file.advertised().sha256() is Some {
            file
        } else {
            file.with_metadata(MetadataText::Absent)
        };
        if file.url.len() > 0 && file.url[0] == '/' {
            verified
        } else {
            FileText { url: local_url, ..verified }
        }
    }
}

/// Present a mirrored file. `local_url` is the address its route serves it under.
pub fn present_file(file: File, local_url: String) -> (r: File)
    ensures
        r@ == presented(file@, local_url@),
{
    let mut file = file;
    if file.sha256().is_none() {
        file.clear_metadata();
        return file;
    }
    let verified: bool = match file.metadata() {
        CoreMetadata::Hashes(hashes) => hashes.contains_key("sha256"),
        _ => false,
    };
    if !verified {
        file.clear_metadata();
    }
    let relative: bool = file.url.as_str().unicode_len() > 0 && file.url.as_str().get_char(0) == '/';
    if !relative {
        file.url = local_url;
    }
    file
}

/// Whether `r` is the page of a mirrored record.
pub open spec fn is_record_page(record: IncomingDetail, local_urls: Seq<String>, r: Result<ProjectDetail, SimpleError>) -> bool {
    match incoming_refusal(record.meta, record.project_status) {
        Some(error) => r matches Err(e) && e@ == error,
        None => r matches Ok(detail) && {
            &&& served_meta(record.meta, record.project_status, detail.meta)
            &&& detail.name == record.name
            &&& detail.versions == record.versions
            &&& file_views(detail.files@) == (if detail.meta.status_named() is Quarantined {
                Seq::empty()
            } else {
                Seq::new(
                    record.files@.len(),
                    |i: int| presented(record.files@[i]@, local_urls[i]@),
                )
            })
        },
    }
}

/// The page of a mirrored record. `local_urls` are the addresses its files are served under.
pub fn detail_from_record(record: IncomingDetail, local_urls: Vec<String>) -> (r: Result<ProjectDetail, SimpleError>)
    requires
        local_urls@.len() == record.files@.len(),
    ensures
        is_record_page(record, local_urls@, r),
{
    let parsed = match parse_detail(record) {
        Ok(parsed) => parsed,
        Err(error) => {
            return Err(error);
        },
    };
    let ghost all = parsed.files@;
    let ghost urls = local_urls@;
    let n: usize = local_urls.len();
    let mut files: Vec<File> = Vec::new();
    let mut at: usize = 0;
    for file in it: parsed.files
        invariant
            it.seq() == all,
            at == it.index(),
            n == all.len(),
            n == local_urls@.len(),
            urls == local_urls@,
            files@.len() == at,
            forall|i: int| 0 <= i < at ==> (#[trigger] files@[i])@ == presented(all[i]@, urls[i]@),
    {
        files.push(present_file(file, local_urls[at].clone()));
        at = at + 1;
    }
    let mut detail = ProjectDetail { meta: parsed.meta, name: parsed.name, versions: parsed.versions, files };
    let ghost whole = detail.files@;
    apply_project_status(&mut detail);
    proof {
        assert(file_views(whole) =~= Seq::new(all.len(), |i: int| presented(all[i]@, urls[i]@)));
        if detail.meta.status_named() is Quarantined {
            assert(file_views(detail.files@) =~= Seq::<FileText>::empty());
        }
    }
    Ok(detail)
}

/// An uploaded file as it is served here: under its local address when it has a digest.
pub open spec fn hosted(file: FileText, local_url: Seq<char>) -> FileText {
    if file.sha256() is Some {
        FileText { url: local_url, ..file }
    } else {
        file
    }
}

/// The first `n` uploads that are not in the trash, as they are served.
pub open spec fn hosted_files(entries: Seq<Uploaded>, local_urls: Seq<String>, n: int) -> Seq<FileText>
    decreases n,
{
    if n <= 0 {
        Seq::empty()
    } else {
        let before = hosted_files(entries, local_urls, n - 1);
        if entries[n - 1].trashed {
            before
        } else {
            before.push(hosted(entries[n - 1].file@, local_urls[n - 1]@))
        }
    }
}

/// The versions of the uploads that are not in the trash.
pub open spec fn hosted_versions(entries: Seq<Uploaded>) -> Set<Seq<char>> {
    Set::new(
        |v: Seq<char>|
            exists|i: int|
                0 <= i < entries.len() && !(#[trigger] entries[i]).trashed && entries[i].version@ == v,
    )
}

/// Whether `r` is the page of a hosted index.
pub open spec fn is_hosted_page(normalized: Seq<char>, entries: Seq<Uploaded>, local_urls: Seq<String>, r: ProjectDetail) -> bool {
    &&& r.meta.api_version@ == API_VERSION@
    &&& r.meta.project_status is None
    &&& r.meta.project_status_reason is None
    &&& r.name@ == normalized
    &&& texts(r.versions@) == listed(hosted_versions(entries))
    &&& file_views(r.files@) == hosted_files(entries, local_urls, entries.len() as int)
}

/// The page of a hosted index. A soft-deleted upload is hidden from serving, and from search with it.
pub fn local_detail(normalized: &str, entries: Vec<Uploaded>, local_urls: &Vec<String>) -> (r: ProjectDetail)
    requires
        local_urls@.len() == entries@.len(),
    ensures
        is_hosted_page(normalized@, entries@, local_urls@, r),
{
    let ghost all = entries@;
    let n: usize = entries.len();
    let mut files: Vec<File> = Vec::new();
    let mut versions = TextSet::new();
    let mut at: usize = 0;
    assert(file_views(files@) =~= Seq::<FileText>::empty());
    for entry in it: entries
        invariant
            it.seq() == all,
            at == it.index(),
            n == all.len(),
            n == local_urls@.len(),
            file_views(files@) == hosted_files(all, local_urls@, at as int),
            forall|v: Seq<char>| #[trigger]
                versions@.contains(v) == (exists|i: int|
                    0 <= i < at && !(#[trigger] all[i]).trashed && all[i].version@ == v),
    {
        let ghost was = versions@;
        let ghost so_far = files@;
        let Uploaded { version, file, trashed } = entry;
        if !trashed {
            let ghost added = version@;
            versions.insert(version);
            let mut file = file;
            if file.sha256().is_some() {
                file.url = local_urls[at].clone();
            }
            files.push(file);
            proof {
                assert(file_views(files@) =~= file_views(so_far).push(file@));
                assert forall|v: Seq<char>| #[trigger]
                    versions@.contains(v) == (exists|i: int|
                        0 <= i < at + 1 && !(#[trigger] all[i]).trashed && all[i].version@ == v) by {
                    if v == added {
                        assert(!all[at as int].trashed && all[at as int].version@ == v);
                    } else if versions@.contains(v) {
                        assert(was.contains(v));
                    }
                }
            }
        } else {
            proof {
                assert forall|v: Seq<char>| #[trigger]
                    versions@.contains(v) == (exists|i: int|
                        0 <= i < at + 1 && !(#[trigger] all[i]).trashed && all[i].version@ == v) by {
                    if versions@.contains(v) {
                        assert(was.contains(v));
                    }
                }
            }
        }
        at = at + 1;
    }
    assert(versions@ =~= hosted_versions(all));
    let listed_versions = versions.to_list();
    let mut detail = ProjectDetail {
        meta: Meta::default(),
        name: normalized.to_owned(),
        versions: listed_versions,
        files,
    };
    apply_project_status(&mut detail);
    detail
}

/// Whether `r` is what an index's policy leaves of a page: a refused project is described by nothing.
pub open spec fn is_policed(
    policy: Policy,
    refusal: Option<PolicyDenial>,
    normalized: Seq<char>,
    detail: ProjectDetail,
    facts: Seq<FileFacts>,
    r: ProjectDetail,
) -> bool {
    let denied = policy.page_denial(
        opt_denial(refusal),
        PolicyAction::Serve,
        normalized,
        detail.files@,
        facts,
        None,
    );
    let names = policy.file_denials(
        opt_denial(refusal),
        PolicyAction::Serve,
        normalized,
        detail.files@,
        facts,
        None,
    ).dom();
    if denied is Some {
        is_empty_page(r, normalized)
    } else {
        &&& r.meta == detail.meta
        &&& r.name == detail.name
        &&& !policy.active ==> r.files@ == detail.files@ && r.versions@ == detail.versions@
        &&& policy.active ==> r.files@ == crate::policy_engine::kept_files(detail.files@, names) && texts(r.versions@)
            == listed(
            crate::policy_engine::listed_set(
                policy.allowed_versions(),
                texts(detail.versions@),
                Seq::empty(),
                crate::policy_engine::served_releases(detail.files@, facts, names, detail.files@.len() as int),
            ),
        )
    }
}

/// Hold a page to an index's policy: a refused project is described by nothing.
pub fn apply_index_policy(
    policy: &Policy,
    refusal: &Option<PolicyDenial>,
    normalized: &str,
    detail: ProjectDetail,
    facts: &Vec<FileFacts>,
) -> (r: ProjectDetail)
    requires
        facts@.len() == detail.files@.len(),
    ensures
        is_policed(*policy, *refusal, normalized@, detail, facts@, r),
{
    match policy.apply_detail(refusal, PolicyAction::Serve, normalized, detail, facts, None) {
        Ok(page) => page,
        Err(_) => empty_detail(normalized),
    }
}

/// The leaf candidates that a virtual member offers, each held to that member's own policy. `facts` are those
/// of each candidate's files.
pub fn member_candidates(
    policy: &Policy,
    refusal: &Option<PolicyDenial>,
    normalized: &str,
    candidates: Vec<Member<ProjectDetail>>,
    facts: &Vec<Vec<FileFacts>>,
) -> (r: Vec<Member<ProjectDetail>>)
    requires
        facts@.len() == candidates@.len(),
        forall|i: int|
            0 <= i < candidates@.len() ==> facts@[i]@.len() == (#[trigger] candidates@[i]).value.files@.len(),
    ensures
        r@.len() == candidates@.len(),
        forall|i: int|
            0 <= i < candidates@.len() ==> {
                &&& (#[trigger] r@[i]).position == candidates@[i].position
                &&& r@[i].has_files == (r@[i].value.files@.len() > 0)
                &&& is_policed(*policy, *refusal, normalized@, candidates@[i].value, facts@[i]@, r@[i].value)
            },
{
    let ghost all = candidates@;
    let n: usize = candidates.len();
    let mut out: Vec<Member<ProjectDetail>> = Vec::new();
    let mut i: usize = 0;
    for member in it: candidates
        invariant
            it.seq() == all,
            n == all.len(),
            i == it.index(),
            facts@.len() == all.len(),
            forall|i: int| 0 <= i < all.len() ==> facts@[i]@.len() == (#[trigger] all[i]).value.files@.len(),
            out@.len() == i,
            forall|j: int|
                0 <= j < i ==> {
                    &&& (#[trigger] out@[j]).position == all[j].position
                    &&& out@[j].has_files == (out@[j].value.files@.len() > 0)
                    &&& is_policed(*policy, *refusal, normalized@, all[j].value, facts@[j]@, out@[j].value)
                },
    {
        let Member { position, has_files: _, value } = member;
        let value = apply_index_policy(policy, refusal, normalized, value, &facts[i]);
        let has_files: bool = value.files.len() > 0;
        out.push(Member { position, has_files, value });
        i = i + 1;
    }
    out
}

// ---------------------------------------------------------------------------------------------
// The merged view
// ---------------------------------------------------------------------------------------------

/// The status that the first `n` candidates come to: the most severe one, the earliest among equals.
pub open spec fn merged_status(candidates: Seq<ProjectDetail>, n: int) -> (Option<String>, Option<String>)
    decreases n,
{
    if n <= 0 {
        (None, None)
    } else {
        let before = merged_status(candidates, n - 1);
        let meta = candidates[n - 1].meta;
        if meta.status_named().rank() > status_of(before.0).rank() {
            (meta.project_status, meta.project_status_reason)
        } else {
            before
        }
    }
}

/// The status that a marker names.
pub open spec fn status_of(marker: Option<String>) -> ProjectStatus {
    match marker {
        Some(marker) => match crate::simple::meta::status_of_marker(marker@) {
            Some(status) => status,
            None => ProjectStatus::Active,
        },
        None => ProjectStatus::Active,
    }
}

/// `files` behind `so_far`, each name once.
pub open spec fn claimed(so_far: Seq<File>, files: Seq<File>, n: int) -> Seq<File>
    decreases n,
{
    if n <= 0 {
        so_far
    } else {
        let before = claimed(so_far, files, n - 1);
        if names_file(before, files[n - 1].filename@) {
            before
        } else {
            before.push(files[n - 1])
        }
    }
}

/// Whether one of `files` has the name.
pub open spec fn names_file(files: Seq<File>, name: Seq<char>) -> bool {
    exists|i: int| 0 <= i < files.len() && (#[trigger] files[i]).filename@ == name
}

/// The files of the first `n` candidates: the first to claim a name keeps it.
pub open spec fn merged_files(candidates: Seq<ProjectDetail>, n: int) -> Seq<File>
    decreases n,
{
    if n <= 0 {
        Seq::empty()
    } else {
        claimed(merged_files(candidates, n - 1), candidates[n - 1].files@, candidates[n - 1].files@.len() as int)
    }
}

/// The versions of the first `n` candidates that have files.
pub open spec fn merged_versions(candidates: Seq<ProjectDetail>, n: int) -> Set<Seq<char>>
    decreases n,
{
    if n <= 0 {
        Set::empty()
    } else {
        let before = merged_versions(candidates, n - 1);
        if candidates[n - 1].files@.len() == 0 {
            before
        } else {
            before.union(texts(candidates[n - 1].versions@).to_set())
        }
    }
}

fn claim_files(kept: &mut Vec<File>, seen: &mut TextSet, files: Vec<File>)
    requires
        forall|name: Seq<char>| #[trigger] old(seen)@.contains(name) == names_file(old(kept)@, name),
    ensures
        final(kept)@ == claimed(old(kept)@, files@, files@.len() as int),
        forall|name: Seq<char>| #[trigger] final(seen)@.contains(name) == names_file(final(kept)@, name),
{
    let ghost all = files@;
    let ghost start = kept@;
    let n: usize = files.len();
    for file in it: files
        invariant
            it.seq() == all,
            n == all.len(),
            kept@ == claimed(start, all, it.index() as int),
            forall|name: Seq<char>| #[trigger] seen@.contains(name) == names_file(kept@, name),
    {
        let ghost was = kept@;
        let ghost had = seen@;
        let ghost key = file.filename@;
        if seen.insert(file.filename.clone()) {
            kept.push(file);
            proof {
                assert forall|name: Seq<char>| #[trigger] seen@.contains(name) == names_file(kept@, name) by {
                    assert(kept@[was.len() as int].filename@ == key);
                    if names_file(was, name) {
                        let i = choose|i: int| 0 <= i < was.len() && (#[trigger] was[i]).filename@ == name;
                        assert(kept@[i].filename@ == name);
                    }
                    if names_file(kept@, name) && name != key {
                        let i = choose|i: int| 0 <= i < kept@.len() && (#[trigger] kept@[i]).filename@ == name;
                        assert(was[i].filename@ == name);
                    }
                    assert(had.contains(name) == names_file(was, name));
                }
            }
        }
    }
}

fn add_versions(versions: &mut TextSet, more: Vec<String>)
    ensures
        final(versions)@ == old(versions)@.union(texts(more@).to_set()),
{
    let ghost all = more@;
    let ghost start = versions@;
    let n: usize = more.len();
    assert(versions@ =~= start.union(texts(all).take(0).to_set()));
    for version in it: more
        invariant
            it.seq() == all,
            n == all.len(),
            versions@ == start.union(texts(all).take(it.index() as int).to_set()),
    {
        let ghost i = it.index() as int;
        let ghost was = versions@;
        let ghost key = version@;
        versions.insert(version);
        proof {
            let upto = texts(all).take(i + 1);
            let before = texts(all).take(i);
            assert(upto =~= before.push(key));
            assert forall|v: Seq<char>| upto.contains(v) == (before.contains(v) || v == key) by {
                if before.contains(v) {
                    let j = choose|j: int| 0 <= j < before.len() && before[j] == v;
                    assert(upto[j] == v);
                }
                if v == key {
                    assert(upto[i] == v);
                }
                if upto.contains(v) {
                    let j = choose|j: int| 0 <= j < upto.len() && upto[j] == v;
                    if j < i {
                        assert(before[j] == v);
                    }
                }
            }
            assert(versions@ =~= start.union(upto.to_set()));
        }
    }
    assert(texts(all).take(n as int) =~= texts(all));
}

/// Whether `r` is the merged view of ranked candidates.
pub open spec fn is_merged_page(normalized: Seq<char>, candidates: Seq<ProjectDetail>, r: ProjectDetail) -> bool {
    let n = candidates.len() as int;
    &&& r.meta.api_version@ == API_VERSION@
    &&& r.meta.project_status == merged_status(candidates, n).0
    &&& r.meta.project_status_reason == merged_status(candidates, n).1
    &&& r.name@ == normalized
    &&& texts(r.versions@) == listed(merged_versions(candidates, n))
    &&& r.files@ == (if r.meta.status_named() is Quarantined {
        Seq::empty()
    } else {
        merged_files(candidates, n)
    })
}

/// Merge ranked candidates into the document view, keeping the first candidate to claim a filename. The
/// status is merged even of a candidate without files: quarantine dominates member order.
pub fn merge_candidates(normalized: &str, candidates: Vec<ProjectDetail>) -> (r: ProjectDetail)
    ensures
        is_merged_page(normalized@, candidates@, r),
{
    let ghost all = candidates@;
    let n: usize = candidates.len();
    let mut files: Vec<File> = Vec::new();
    let mut seen = TextSet::new();
    let mut versions = TextSet::new();
    let mut meta = Meta::default();
    for detail in it: candidates
        invariant
            it.seq() == all,
            n == all.len(),
            meta.api_version@ == API_VERSION@,
            meta.project_status == merged_status(all, it.index() as int).0,
            meta.project_status_reason == merged_status(all, it.index() as int).1,
            files@ == merged_files(all, it.index() as int),
            versions@ == merged_versions(all, it.index() as int),
            forall|name: Seq<char>| #[trigger] seen@.contains(name) == names_file(files@, name),
    {
        let ghost i = it.index() as int;
        assert(detail == all[i]);
        assert(meta.status_named() == status_of(meta.project_status));
        let severer: bool = detail.meta.status().severity() > meta.status().severity();
        let ProjectDetail { meta: own, name: _, versions: own_versions, files: own_files } = detail;
        if severer {
            meta.project_status = own.project_status;
            meta.project_status_reason = own.project_status_reason;
        }
        if own_files.len() != 0 {
            add_versions(&mut versions, own_versions);
            claim_files(&mut files, &mut seen, own_files);
        }
    }
    let all_versions = versions.to_list();
    let mut detail = ProjectDetail { meta, name: normalized.to_owned(), versions: all_versions, files };
    apply_project_status(&mut detail);
    detail
}

proof fn merged_status_is_severest(candidates: Seq<ProjectDetail>, n: int)
    requires
        0 <= n <= candidates.len(),
    ensures
        forall|i: int|
            0 <= i < n ==> (#[trigger] candidates[i]).meta.status_named().rank() <= status_of(
                merged_status(candidates, n).0,
            ).rank(),
    decreases n,
{
    if n > 0 {
        merged_status_is_severest(candidates, n - 1);
        let meta = candidates[n - 1].meta;
        assert(meta.status_named() == status_of(meta.project_status));
    }
}

/// Quarantine dominates member order: when any candidate is quarantined, so is the merged view, which
/// then shows no file.
pub proof fn quarantine_dominates(candidates: Seq<ProjectDetail>, i: int)
    requires
        0 <= i < candidates.len(),
        candidates[i].meta.status_named() is Quarantined,
    ensures
        status_of(merged_status(candidates, candidates.len() as int).0) is Quarantined,
{
    merged_status_is_severest(candidates, candidates.len() as int);
    assert(candidates[i].meta.status_named().rank() <= status_of(
        merged_status(candidates, candidates.len() as int).0,
    ).rank());
}

/// Whether no two of `files` share a name.
pub open spec fn distinct_names(files: Seq<File>) -> bool {
    forall|i: int, j: int|
        0 <= i < j < files.len() ==> (#[trigger] files[i]).filename@ != (#[trigger] files[j]).filename@
}

proof fn claimed_keeps(so_far: Seq<File>, files: Seq<File>, n: int)
    requires
        distinct_names(so_far),
        0 <= n <= files.len(),
    ensures
        distinct_names(claimed(so_far, files, n)),
        so_far.is_prefix_of(claimed(so_far, files, n)),
    decreases n,
{
    if n > 0 {
        claimed_keeps(so_far, files, n - 1);
        let before = claimed(so_far, files, n - 1);
        if !names_file(before, files[n - 1].filename@) {
            let after = before.push(files[n - 1]);
            assert forall|i: int, j: int| 0 <= i < j < after.len() implies (#[trigger] after[i]).filename@ != (
            #[trigger] after[j]).filename@ by {
                if j == before.len() {
                    assert(before[i].filename@ == after[i].filename@);
                }
            }
        }
    }
}

/// A merged view lists each filename once, and a later candidate never displaces what earlier candidates
/// claimed.
pub proof fn first_claim_stands(candidates: Seq<ProjectDetail>, m: int, n: int)
    requires
        0 <= m <= n <= candidates.len(),
    ensures
        distinct_names(merged_files(candidates, n)),
        merged_files(candidates, m).is_prefix_of(merged_files(candidates, n)),
    decreases n,
{
    if n > 0 {
        if m < n {
            first_claim_stands(candidates, m, n - 1);
        } else {
            first_claim_stands(candidates, m - 1, n - 1);
        }
        claimed_keeps(
            merged_files(candidates, n - 1),
            candidates[n - 1].files@,
            candidates[n - 1].files@.len() as int,
        );
    }
}

// ---------------------------------------------------------------------------------------------
// Overrides, revocations, availability
// ---------------------------------------------------------------------------------------------

/// A file under its override: an imposed yank replaces its own.
pub open spec fn overridden(overrides: Map<Seq<char>, FileOverride>, file: FileText) -> FileText {
    if overrides.contains_key(file.filename) && !(overrides[file.filename].yanked@ is No) {
        FileText { yanked: overrides[file.filename].yanked@, ..file }
    } else {
        file
    }
}

/// Whether an override hides the file.
pub open spec fn hidden(overrides: Map<Seq<char>, FileOverride>, filename: Seq<char>) -> bool {
    overrides.contains_key(filename) && overrides[filename].hidden
}

/// The first `n` files under their overrides, without the hidden ones.
pub open spec fn overridden_files(overrides: Map<Seq<char>, FileOverride>, files: Seq<File>, n: int) -> Seq<FileText>
    decreases n,
{
    if n <= 0 {
        Seq::empty()
    } else {
        let before = overridden_files(overrides, files, n - 1);
        if hidden(overrides, files[n - 1].filename@) {
            before
        } else {
            before.push(overridden(overrides, files[n - 1]@))
        }
    }
}

/// Whether `r` is the page under its overrides.
pub open spec fn is_page_overridden(overrides: Map<Seq<char>, FileOverride>, detail: ProjectDetail, r: ProjectDetail) -> bool {
    &&& r.meta == detail.meta
    &&& r.name == detail.name
    &&& r.versions == detail.versions
    &&& file_views(r.files@) == overridden_files(overrides, detail.files@, detail.files@.len() as int)
}

/// Hold one candidate to the overrides of the upload layer.
pub fn apply_overrides(overrides: &TextMap<FileOverride>, detail: ProjectDetail) -> (r: ProjectDetail)
    ensures
        is_page_overridden(overrides@, detail, r),
{
    let ProjectDetail { meta, name, versions, files } = detail;
    let ghost all = files@;
    let n: usize = files.len();
    let mut kept: Vec<File> = Vec::new();
    assert(file_views(kept@) =~= Seq::<FileText>::empty());
    for file in it: files
        invariant
            it.seq() == all,
            n == all.len(),
            file_views(kept@) == overridden_files(overrides@, all, it.index() as int),
    {
        let ghost so_far = kept@;
        let mut file = file;
        let mut keep: bool = true;
        match overrides.get(file.filename.as_str()) {
            Some(record) => {
                if record.hidden {
                    keep = false;
                } else if !matches!(record.yanked, Yanked::No) {
                    file.yanked = record.yanked.copied();
                }
            },
            None => {},
        }
        if keep {
            kept.push(file);
            assert(file_views(kept@) =~= file_views(so_far).push(file@));
        }
    }
    ProjectDetail { meta, name, versions, files: kept }
}

/// What a member comes to under the overrides.
pub open spec fn is_overridden(
    overrides: Option<Map<Seq<char>, FileOverride>>,
    from: Member<ProjectDetail>,
    to: Member<ProjectDetail>,
) -> bool {
    &&& to.position == from.position
    &&& match overrides {
        Some(overrides) => {
            &&& to.value.meta == from.value.meta
            &&& to.value.name == from.value.name
            &&& to.value.versions == from.value.versions
            &&& file_views(to.value.files@) == overridden_files(
                overrides,
                from.value.files@,
                from.value.files@.len() as int,
            )
        },
        None => to.value == from.value,
    }
}

/// The overrides as a map, when there is an upload layer.
pub open spec fn opt_overrides(overrides: Option<&TextMap<FileOverride>>) -> Option<Map<Seq<char>, FileOverride>> {
    match overrides {
        Some(map) => Some(map@),
        None => None,
    }
}

/// The leaf candidates that a virtual repository contributes: those the source policy selects of what its
/// members found, under the overrides of its upload layer.
pub fn virtual_candidates(
    selection: &SourceSelection,
    members: Vec<Member<ProjectDetail>>,
    reaches_cached: &Vec<bool>,
    overrides: Option<&TextMap<FileOverride>>,
) -> (r: Vec<Member<ProjectDetail>>)
    ensures
        ({
            let kept = selected(selection.fallback(), members@, reaches_cached@);
            &&& r@.len() == kept.len()
            &&& forall|i: int|
                0 <= i < kept.len() ==> is_overridden(opt_overrides(overrides), kept[i], #[trigger] r@[i])
        }),
{
    let (chosen, _) = selection.retain_selected(members, reaches_cached);
    let overrides = match overrides {
        Some(overrides) => overrides,
        None => {
            return chosen;
        },
    };
    let ghost kept = chosen@;
    let n: usize = chosen.len();
    let mut out: Vec<Member<ProjectDetail>> = Vec::new();
    for member in it: chosen
        invariant
            it.seq() == kept,
            n == kept.len(),
            out@.len() == it.index(),
            forall|i: int|
                0 <= i < it.index() ==> is_overridden(Some(overrides@), kept[i], #[trigger] out@[i]),
    {
        let Member { position, has_files, value } = member;
        let value = apply_overrides(overrides, value);
        out.push(Member { position, has_files, value });
    }
    out
}

/// Whether a revocation names the file. A file without a usable digest has nothing a revocation can name.
pub open spec fn revoked_file(revoked: Set<Seq<char>>, file: File) -> bool {
    match file@.sha256() {
        Some(digest) => is_digest(digest) && revoked.contains(digest),
        None => false,
    }
}

/// Whether `r` is the page without its revoked files.
pub open spec fn is_page_unrevoked(revoked: Set<Seq<char>>, detail: ProjectDetail, r: ProjectDetail) -> bool {
    &&& r.meta == detail.meta
    &&& r.name == detail.name
    &&& r.versions == detail.versions
    &&& r.files@ == detail.files@.filter(|f: File| !revoked_file(revoked, f))
}

/// Drop every file that the served page hides. `revoked` holds the digests under an active revocation.
pub fn drop_revoked_files(revoked: &TextSet, detail: ProjectDetail) -> (r: ProjectDetail)
    ensures
        is_page_unrevoked(revoked@, detail, r),
{
    let ProjectDetail { meta, name, versions, files } = detail;
    let ghost all = files@;
    let ghost keep = |f: File| !revoked_file(revoked@, f);
    let n: usize = files.len();
    let mut kept: Vec<File> = Vec::new();
    reveal(Seq::filter);
    assert(all.take(0).filter(keep) =~= Seq::<File>::empty());
    for file in it: files
        invariant
            it.seq() == all,
            n == all.len(),
            keep == (|f: File| !revoked_file(revoked@, f)),
            kept@ == all.take(it.index() as int).filter(keep),
    {
        reveal(Seq::filter);
        let ghost i = it.index();
        assert(all.take(i + 1).drop_last() =~= all.take(i as int));
        assert(all.take(i + 1).last() == file);
        let gone: bool = match file.sha256() {
            Some(digest) => valid_digest(digest) && revoked.contains(digest),
            None => false,
        };
        if !gone {
            kept.push(file);
        }
    }
    assert(all.take(n as int) =~= all);
    ProjectDetail { meta, name, versions, files: kept }
}

/// Where the bytes of an artifact are recorded to be.
#[derive(Debug, Clone, Copy, PartialEq, Eq, Structural)]
pub struct Placement {
    /// Whether the record belongs to a hosted upload.
    pub hosted: bool,
    /// Whether it says that the bytes are here.
    pub local: bool,
}

/// Whether a file can be served from local storage. A hosted upload's bytes are local unless its own
/// placement marks them gone; a mirrored file's only when its placement says so.
pub open spec fn file_is_local(
    hosted_names: Set<Seq<char>>,
    placements: Map<Seq<char>, Placement>,
    file: File,
) -> bool {
    match file@.sha256() {
        None => false,
        Some(digest) => if hosted_names.contains(file.filename@) {
            !placements.contains_key(digest) || !placements[digest].hosted || placements[digest].local
        } else {
            placements.contains_key(digest) && placements[digest].local
        },
    }
}

/// Whether `r` says if any of a project's files can be served from local storage.
pub open spec fn is_available(hosted_names: Set<Seq<char>>, placements: Map<Seq<char>, Placement>, detail: ProjectDetail, r: bool) -> bool {
    r == (exists|i: int|
        0 <= i < detail.files@.len() && file_is_local(
            hosted_names,
            placements,
            #[trigger] detail.files@[i],
        ))
}

/// Whether any of a project's files can be served from local storage right now.
pub fn available_locally(hosted_names: &TextSet, placements: &TextMap<Placement>, detail: &ProjectDetail) -> (r: bool)
    ensures
        is_available(hosted_names@, placements@, *detail, r),
{
    let mut i: usize = 0;
    while i < detail.files.len()
        invariant
            i <= detail.files@.len(),
            forall|j: int|
                0 <= j < i ==> !file_is_local(hosted_names@, placements@, #[trigger] detail.files@[j]),
        decreases detail.files.len() - i,
    {
        let file = &detail.files[i];
        match file.sha256() {
            Some(digest) => {
                let placement = placements.get(digest);
                let local: bool = if hosted_names.contains(file.filename.as_str()) {
                    match placement {
                        Some(placement) => !placement.hosted || placement.local,
                        None => true,
                    }
                } else {
                    match placement {
                        Some(placement) => placement.local,
                        None => false,
                    }
                };
                if local {
                    assert(file_is_local(hosted_names@, placements@, detail.files@[i as int]));
                    return true;
                }
            },
            None => {},
        }
        i = i + 1;
    }
    false
}

/// The metadata siblings worth reading among the first `n` files, the last file's first: each the digest
/// recorded for the file's own.
pub open spec fn siblings(by_artifact: Map<Seq<char>, String>, files: Seq<File>, n: int) -> Seq<Seq<char>>
    decreases n,
{
    if n <= 0 {
        Seq::empty()
    } else {
        let rest = siblings(by_artifact, files, n - 1);
        match files[n - 1]@.sha256() {
            Some(digest) => if by_artifact.contains_key(digest) && is_digest(by_artifact[digest]@) {
                seq![by_artifact[digest]@] + rest
            } else {
                rest
            },
            None => rest,
        }
    }
}

/// The digests of the metadata documents to try, in order: a missing or malformed one gives way to the
/// next rather than fail the crawl.
pub fn metadata_digests(by_artifact: &TextMap<String>, files: &Vec<File>) -> (r: Vec<String>)
    ensures
        texts(r@) == siblings(by_artifact@, files@, files@.len() as int),
{
    let mut out: Vec<String> = Vec::new();
    let mut n: usize = files.len();
    let ghost all = siblings(by_artifact@, files@, files@.len() as int);
    assert(texts(out@) + all =~= all);
    while n > 0
        invariant
            n <= files@.len(),
            all == texts(out@) + siblings(by_artifact@, files@, n as int),
        decreases n,
    {
        n = n - 1;
        let ghost rest = siblings(by_artifact@, files@, n as int);
        match files[n].sha256() {
            Some(digest) => match by_artifact.get(digest) {
                Some(metadata) => {
                    if valid_digest(metadata.as_str()) {
                        let ghost so_far = texts(out@);
                        out.push(metadata.clone());
                        assert(texts(out@) =~= so_far.push(metadata@));
                        assert(so_far + (seq![metadata@] + rest) =~= texts(out@) + rest);
                    }
                },
                None => {},
            },
            None => {},
        }
    }
    assert(texts(out@) + Seq::<Seq<char>>::empty() =~= texts(out@));
    out
}

// ---------------------------------------------------------------------------------------------
// The document
// ---------------------------------------------------------------------------------------------

/// Where a project's content comes from.
#[derive(Debug, Clone, Copy, PartialEq, Eq, Structural)]
pub enum ContentSource {
    Uploaded,
    Cached,
    Override,
}

/// The index a document belongs to.
pub struct DocumentIndex {
    pub route: String,
    pub index: String,
    pub ecosystem: String,
}

/// What the search index holds of a project.
pub struct SearchDocument {
    pub text: String,
    pub display_label: String,
    pub resource_key: String,
    pub index: DocumentIndex,
    pub source: ContentSource,
    pub available_locally: bool,
    pub summary: Option<String>,
}

/// The name a project is shown under: its metadata's, its page's, or the normalized one.
pub open spec fn label(metadata: Option<CoreMetadataDoc>, name: Seq<char>, normalized: Seq<char>) -> Seq<char> {
    if metadata is Some && (metadata->0).name@.len() > 0 {
        (metadata->0).name@
    } else if name.len() == 0 {
        normalized
    } else {
        name
    }
}

/// Whether `r` is the document of a project.
pub open spec fn is_document(
    index: DocumentIndex,
    normalized: Seq<char>,
    detail: ProjectDetail,
    source: ContentSource,
    hosted_names: Set<Seq<char>>,
    placements: Map<Seq<char>, Placement>,
    metadata: Option<CoreMetadataDoc>,
    budget: usize,
    r: Option<SearchDocument>,
) -> bool {
    match r {
        None => detail.files@.len() == 0,
        Some(document) => {
            &&& detail.files@.len() > 0
            &&& document.display_label@ == label(metadata, detail.name@, normalized)
            &&& document.text@ == searched(document.display_label@, normalized, detail, metadata, budget)
            &&& document.resource_key@ == normalized
            &&& document.index == index
            &&& document.source == source
            &&& document.available_locally == (exists|i: int|
                0 <= i < detail.files@.len() && file_is_local(
                    hosted_names,
                    placements,
                    #[trigger] detail.files@[i],
                ))
            &&& opt_text(document.summary) == (match metadata {
                Some(doc) => opt_text(doc.summary),
                None => None,
            })
        },
    }
}

/// The document of a project, or nothing for a project that has no file left.
pub fn package_document(
    index: DocumentIndex,
    normalized: &str,
    detail: &ProjectDetail,
    source: ContentSource,
    hosted_names: &TextSet,
    placements: &TextMap<Placement>,
    metadata: &Option<CoreMetadataDoc>,
    budget: usize,
) -> (r: Option<SearchDocument>)
    ensures
        is_document(index, normalized@, *detail, source, hosted_names@, placements@, *metadata, budget, r),
{
    if detail.files.len() == 0 {
        return None;
    }
    let available = available_locally(hosted_names, placements, detail);
    let mut display_label: String = if detail.name.as_str().unicode_len() == 0 {
        normalized.to_owned()
    } else {
        detail.name.clone()
    };
    let mut summary: Option<String> = None;
    match metadata {
        Some(doc) => {
            if doc.name.as_str().unicode_len() > 0 {
                display_label = doc.name.clone();
            }
            summary = crate::text::opt_clone(&doc.summary);
        },
        None => {},
    }
    let text = search_text(display_label.as_str(), normalized, detail, metadata, budget);
    Some(
        SearchDocument {
            text,
            display_label,
            resource_key: normalized.to_owned(),
            index,
            source,
            available_locally: available,
            summary,
        },
    )
}

} // verus!
