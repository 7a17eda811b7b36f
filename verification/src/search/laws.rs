//! What the search index promises: which projects an index covers, what a document says, and what it leaves out.
use vstd::prelude::*;

use crate::collections::listed;
use crate::digest::is_digest;
use crate::policy::{opt_denial, PolicyAction, PolicyDenial};
use crate::policy_engine::{first_project_denial, kept_files, FileFacts, Policy};
use crate::retention::Uploaded;
use crate::search::detail::{
    claimed, file_is_local, file_views, hidden, hosted, hosted_files, hosted_versions, is_available, is_document,
    is_hosted_page, is_merged_page, is_overridden, is_page_overridden, is_page_unrevoked, is_policed, is_record_page,
    is_status_applied, label,
    merged_files, merged_status, merged_versions, names_file, overridden, overridden_files, presented, revoked_file,
    siblings, ContentSource, DocumentIndex, Placement, SearchDocument,
};
use crate::search::scope::{
    acyclic, is_source, layer_is_lower, leaf_projects, over_layers, over_leaves, project_sets, record_project,
    upload_of, IndexEntry,
    IndexKind,
};
use crate::search::text::{
    char_width, fact_texts, file_texts, fitting, list_texts, metadata_texts, present, pushed_text, pushed_unique,
    repeated, url_texts, width, width_of_joined, CoreMetadataDoc,
};
use crate::simple::file::{File, FileText};
use crate::simple::page::{incoming_refusal, IncomingDetail, ProjectDetail};
use crate::simple::SimpleError;
use crate::source_policy::Member;
use crate::store::overrides::FileOverride;
use crate::store::txn::finite_sets_are_listed;
use crate::text::{cut_prefix_of_joined, first_index_bounds, first_index_of_joined, opt_text, texts, trimmed};

verus! {

// ---------------------------------------------------------------------------------------------
// Which projects an index covers
// ---------------------------------------------------------------------------------------------

/// A record's key names its index and its project, and one that names no index, no project or more names none.
pub proof fn record_keys_name_their_project(index: Seq<char>, project: Seq<char>, key: Seq<char>)
    ensures
        project.len() > 0 && !project.contains('/') ==> record_project(index + seq!['/'] + project, index) == Some(project),
        record_project(key, index) matches Some(named) ==> key == index + seq!['/'] + named && named.len() > 0
            && !named.contains('/'),
{
    cut_prefix_of_joined(index + seq!['/'], project);
    if record_project(key, index) is Some {
        let prefix = index + seq!['/'];
        assert(key.subrange(0, prefix.len() as int) =~= prefix);
        assert(key =~= prefix + key.skip(prefix.len() as int));
    }
}

/// An upload's key names its index, its project and its filename.
pub proof fn upload_keys_name_their_file(index: Seq<char>, project: Seq<char>, filename: Seq<char>, key: Seq<char>)
    ensures
        project.len() > 0 && filename.len() > 0 && !project.contains('/') ==> upload_of(
            index + seq!['/'] + (project + seq!['/'] + filename),
            index,
        ) == Some((project, filename)),
        upload_of(key, index) matches Some((named, file)) ==> key == index + seq!['/'] + (named + seq!['/'] + file)
            && named.len() > 0 && file.len() > 0,
{
    let rest = project + seq!['/'] + filename;
    cut_prefix_of_joined(index + seq!['/'], rest);
    if !project.contains('/') {
        first_index_of_joined(project, '/', filename);
    }
    if upload_of(key, index) is Some {
        let prefix = index + seq!['/'];
        let behind = key.skip(prefix.len() as int);
        let i = crate::text::first_index(behind, '/');
        assert(key.subrange(0, prefix.len() as int) =~= prefix);
        assert(key =~= prefix + behind);
        first_index_bounds(behind, '/');
        assert(behind =~= behind.take(i) + seq!['/'] + behind.skip(i + 1));
    }
}

/// A cached index covers the projects that its records name, and a hosted one those of its uploads.
pub proof fn leaves_cover_what_their_records_name(
    entry: IndexEntry,
    index_keys: Seq<String>,
    upload_keys: Seq<String>,
    i: int,
    project: Seq<char>,
    filename: Seq<char>,
)
    ensures
        entry.kind is Cached && 0 <= i < index_keys.len() && project.len() > 0 && !project.contains('/') && index_keys[i]@
            == entry.name@ + seq!['/'] + project ==> leaf_projects(entry, index_keys, upload_keys).contains(project),
        entry.kind is Hosted && 0 <= i < upload_keys.len() && project.len() > 0 && filename.len() > 0 && !project.contains(
            '/',
        ) && upload_keys[i]@ == entry.name@ + seq!['/'] + (project + seq!['/'] + filename) ==> leaf_projects(
            entry,
            index_keys,
            upload_keys,
        ).contains(project),
        entry.kind is Cached && leaf_projects(entry, index_keys, upload_keys).contains(project) ==> exists|j: int|
            0 <= j < index_keys.len() && (#[trigger] index_keys[j])@ == entry.name@ + seq!['/'] + project,
{
    record_keys_name_their_project(entry.name@, project, Seq::empty());
    upload_keys_name_their_file(entry.name@, project, filename, Seq::empty());
    if entry.kind is Cached && leaf_projects(entry, index_keys, upload_keys).contains(project) {
        let j = choose|j: int|
            0 <= j < index_keys.len() && record_project((#[trigger] index_keys[j])@, entry.name@) == Some(project);
        record_keys_name_their_project(entry.name@, project, index_keys[j]@);
    }
}

/// A virtual index covers exactly what its layers cover; any other covers its own.
pub proof fn virtual_indexes_cover_their_layers(
    indexes: Seq<IndexEntry>,
    sets: Seq<Set<Seq<char>>>,
    position: int,
    project: Seq<char>,
)
    requires
        acyclic(indexes),
        0 <= position < indexes.len(),
    ensures
        !(indexes[position].kind is Virtual) ==> over_leaves(indexes, sets, position) == sets[position],
        indexes[position].kind is Virtual ==> (over_leaves(indexes, sets, position).contains(project) <==> exists|i: int|
            0 <= i < indexes[position].kind->layers@.len() && over_leaves(
                indexes,
                sets,
                #[trigger] indexes[position].kind->layers@[i] as int,
            ).contains(project)),
{
    if indexes[position].kind is Virtual {
        first_layers_cover(indexes, sets, position, indexes[position].kind->layers@.len(), project);
    }
}

proof fn first_layers_cover(
    indexes: Seq<IndexEntry>,
    sets: Seq<Set<Seq<char>>>,
    position: int,
    n: nat,
    project: Seq<char>,
)
    requires
        acyclic(indexes),
        0 <= position < indexes.len(),
        indexes[position].kind is Virtual,
        n <= indexes[position].kind->layers@.len(),
    ensures
        over_layers(indexes, sets, position, n).contains(project) <==> exists|i: int|
            0 <= i < n && over_leaves(indexes, sets, #[trigger] indexes[position].kind->layers@[i] as int).contains(project),
    decreases n,
{
    if n > 0 {
        first_layers_cover(indexes, sets, position, (n - 1) as nat, project);
        layer_is_lower(indexes, position, n - 1);
        let last = indexes[position].kind->layers@[n - 1];
        if over_leaves(indexes, sets, last as int).contains(project) {
            assert(indexes[position].kind->layers@[n - 1] == last);
        }
    }
}

/// A hosted index's content was uploaded and a cached one's is cached; a virtual one's is overridden exactly where its
/// write target holds uploads or overrides.
pub proof fn content_has_its_source(kind: IndexKind, has_uploads: bool, has_overrides: bool, r: ContentSource)
    requires
        is_source(kind, has_uploads, has_overrides, r),
    ensures
        r == ContentSource::Uploaded <==> kind is Hosted,
        r == ContentSource::Override <==> (kind matches IndexKind::Virtual { write_target, .. } && write_target is Some)
            && (has_uploads || has_overrides),
{
}

// ---------------------------------------------------------------------------------------------
// Pages
// ---------------------------------------------------------------------------------------------

/// A quarantined page shows no file, and any other shows all of its own.
pub proof fn only_quarantine_hides_files(was: ProjectDetail, now: ProjectDetail)
    requires
        is_status_applied(was, now),
    ensures
        was.meta.status_named() is Quarantined ==> now.files@.len() == 0,
        !(was.meta.status_named() is Quarantined) ==> now.files@ == was.files@,
        now.versions == was.versions && now.name == was.name && now.meta == was.meta,
{
}

/// A presented file is the same file, at the local address where it has a digest and none here yet, and it advertises
/// metadata exactly where that can be verified.
pub proof fn presented_files_are_the_same(file: FileText, local_url: Seq<char>)
    ensures
        ({
            let r = presented(file, local_url);
            &&& r.filename == file.filename
            &&& r.hashes == file.hashes
            &&& r.requires_python == file.requires_python
            &&& r.size == file.size
            &&& r.upload_time == file.upload_time
            &&& r.yanked == file.yanked
            &&& r.url == (if file.sha256() is None || (file.url.len() > 0 && file.url[0] == '/') {
                file.url
            } else {
                local_url
            })
            &&& file.sha256() is Some && file.advertised().sha256() is Some ==> r.core_metadata == file.core_metadata
                && r.dist_info_metadata == file.dist_info_metadata
            &&& file.sha256() is None || file.advertised().sha256() is None ==> r.core_metadata is Absent
                && r.dist_info_metadata is Absent
        }),
{
}

/// A record's page lists its versions and all of its files, each as it is presented, unless it is quarantined.
pub proof fn records_are_presented_whole(
    record: IncomingDetail,
    local_urls: Seq<String>,
    r: Result<ProjectDetail, SimpleError>,
    i: int,
)
    requires
        is_record_page(record, local_urls, r),
        0 <= i < record.files@.len(),
    ensures
        r is Ok <==> incoming_refusal(record.meta, record.project_status) is None,
        r matches Ok(page) ==> page.name == record.name && page.versions == record.versions,
        r matches Ok(page) ==> (page.meta.status_named() is Quarantined ==> page.files@.len() == 0),
        r matches Ok(page) ==> (!(page.meta.status_named() is Quarantined) ==> page.files@.len() == record.files@.len()
            && page.files@[i]@ == presented(record.files@[i]@, local_urls[i]@)),
{
    if r is Ok {
        let page = r->Ok_0;
        assert(file_views(page.files@).len() == page.files@.len());
        if !(page.meta.status_named() is Quarantined) {
            assert(file_views(page.files@)[i] == presented(record.files@[i]@, local_urls[i]@));
        }
    }
}

/// An uploaded file is served as it is, at its local address where it has a digest.
pub proof fn uploads_are_served_locally(file: FileText, local_url: Seq<char>)
    ensures
        hosted(file, local_url).url == (if file.sha256() is Some {
            local_url
        } else {
            file.url
        }),
        hosted(file, local_url).filename == file.filename,
        hosted(file, local_url).hashes == file.hashes,
        hosted(file, local_url).yanked == file.yanked,
        hosted(file, local_url).size == file.size,
        hosted(file, local_url).requires_python == file.requires_python,
        hosted(file, local_url).core_metadata == file.core_metadata,
{
}

/// The page of a hosted index lists the files and versions that are not in the trash, and no others.
pub proof fn trashed_uploads_are_hidden(entries: Seq<Uploaded>, local_urls: Seq<String>, n: int, i: int)
    requires
        0 <= i < n <= entries.len(),
    ensures
        !entries[i].trashed ==> hosted_files(entries, local_urls, n).contains(
            hosted(entries[i].file@, local_urls[i]@),
        ),
        (forall|j: int| 0 <= j < n ==> (#[trigger] entries[j]).trashed) ==> hosted_files(entries, local_urls, n).len() == 0,
        (forall|j: int| 0 <= j < n ==> !(#[trigger] entries[j]).trashed) ==> hosted_files(entries, local_urls, n).len()
            == n,
        !entries[i].trashed ==> hosted_versions(entries).contains(entries[i].version@),
    decreases n,
{
    let fewer = hosted_files(entries, local_urls, n - 1);
    let all = hosted_files(entries, local_urls, n);
    if n > 1 {
        trashed_uploads_are_hidden(entries, local_urls, n - 1, if i < n - 1 {
            i
        } else {
            0
        });
    }
    assert(entries[n - 1].trashed || !entries[n - 1].trashed);
    if !entries[i].trashed {
        let file = hosted(entries[i].file@, local_urls[i]@);
        if i < n - 1 {
            let k = choose|k: int| 0 <= k < fewer.len() && fewer[k] == file;
            assert(all[k] == file);
        } else {
            assert(all[fewer.len() as int] == file);
        }
    }
}

/// The page of a hosted index has no status, its own name, and what is not in the trash.
pub proof fn hosted_pages_list_the_uploads(
    normalized: Seq<char>,
    entries: Seq<Uploaded>,
    local_urls: Seq<String>,
    r: ProjectDetail,
    i: int,
)
    requires
        is_hosted_page(normalized, entries, local_urls, r),
        0 <= i < entries.len(),
        !entries[i].trashed,
    ensures
        r.name@ == normalized,
        r.meta.project_status is None,
        file_views(r.files@).contains(hosted(entries[i].file@, local_urls[i]@)),
        texts(r.versions@).contains(entries[i].version@),
{
    trashed_uploads_are_hidden(entries, local_urls, entries.len() as int, i);
    let spelled = entries.map_values(|u: Uploaded| u.version@);
    vstd::seq_lib::seq_to_set_is_finite(spelled);
    assert forall|v: Seq<char>| hosted_versions(entries).contains(v) implies spelled.to_set().contains(v) by {
        let k = choose|k: int| 0 <= k < entries.len() && !(#[trigger] entries[k]).trashed && entries[k].version@ == v;
        assert(spelled[k] == v);
    }
    vstd::set_lib::lemma_set_subset_finite(spelled.to_set(), hosted_versions(entries));
    finite_sets_are_listed(hosted_versions(entries));
    assert(hosted_versions(entries).contains(entries[i].version@));
    assert(listed(hosted_versions(entries)).to_set().contains(entries[i].version@));
}

// ---------------------------------------------------------------------------------------------
// The merged view
// ---------------------------------------------------------------------------------------------

/// Every file that is claimed stays, every other of a new name is added, and nothing else is.
pub proof fn names_are_claimed_once(so_far: Seq<File>, files: Seq<File>, n: int, name: Seq<char>)
    requires
        0 <= n <= files.len(),
    ensures
        names_file(claimed(so_far, files, n), name) <==> names_file(so_far, name) || names_file(files.take(n), name),
        claimed(so_far, files, n).len() <= so_far.len() + n,
    decreases n,
{
    if n > 0 {
        names_are_claimed_once(so_far, files, n - 1, name);
        let before = claimed(so_far, files, n - 1);
        let all = claimed(so_far, files, n);
        let last = files[n - 1];
        names_are_claimed_once(so_far, files, n - 1, last.filename@);
        assert(files.take(n)[n - 1] == last);
        if names_file(files.take(n - 1), name) {
            let i = choose|i: int| 0 <= i < files.take(n - 1).len() && (#[trigger] files.take(n - 1)[i]).filename@ == name;
            assert(files.take(n)[i] == files.take(n - 1)[i]);
        }
        if names_file(files.take(n), name) {
            let i = choose|i: int| 0 <= i < files.take(n).len() && (#[trigger] files.take(n)[i]).filename@ == name;
            if i < n - 1 {
                assert(files.take(n - 1)[i] == files.take(n)[i]);
            }
        }
        if !names_file(before, last.filename@) {
            assert(all == before.push(last));
            assert(all[before.len() as int] == last);
            if names_file(before, name) {
                let i = choose|i: int| 0 <= i < before.len() && (#[trigger] before[i]).filename@ == name;
                assert(all[i] == before[i]);
            }
            if names_file(all, name) {
                let i = choose|i: int| 0 <= i < all.len() && (#[trigger] all[i]).filename@ == name;
                if i < before.len() {
                    assert(before[i] == all[i]);
                }
            }
        }
    } else {
        assert(files.take(0).len() == 0);
    }
}

/// The merged view names every file of every candidate.
pub proof fn every_candidates_files_are_merged(candidates: Seq<ProjectDetail>, n: int, c: int, i: int)
    requires
        0 <= c < n <= candidates.len(),
        0 <= i < candidates[c].files@.len(),
    ensures
        names_file(merged_files(candidates, n), candidates[c].files@[i].filename@),
    decreases n,
{
    let name = candidates[c].files@[i].filename@;
    let files = candidates[n - 1].files@;
    names_are_claimed_once(merged_files(candidates, n - 1), files, files.len() as int, name);
    if c < n - 1 {
        every_candidates_files_are_merged(candidates, n - 1, c, i);
    } else {
        assert(files.take(files.len() as int) =~= files);
        assert(files[i].filename@ == name);
    }
}

/// The merged view lists the versions of every candidate that has files, and no other.
pub proof fn versions_of_candidates_with_files_are_merged(candidates: Seq<ProjectDetail>, n: int, version: Seq<char>)
    requires
        0 <= n <= candidates.len(),
    ensures
        merged_versions(candidates, n).contains(version) <==> exists|c: int|
            0 <= c < n && (#[trigger] candidates[c]).files@.len() > 0 && texts(candidates[c].versions@).contains(version),
    decreases n,
{
    if n > 0 {
        versions_of_candidates_with_files_are_merged(candidates, n - 1, version);
        let last = candidates[n - 1];
        if last.files@.len() > 0 && texts(last.versions@).contains(version) {
            assert(texts(last.versions@).to_set().contains(version));
        }
    }
}

/// A merged view takes the status of its most severe candidate, the earliest among equals, and has none where every
/// candidate is active.
pub proof fn the_merged_status_is_a_candidates(candidates: Seq<ProjectDetail>, n: int)
    requires
        0 <= n <= candidates.len(),
    ensures
        (forall|c: int| 0 <= c < n ==> (#[trigger] candidates[c]).meta.status_named() is Active) ==> merged_status(
            candidates,
            n,
        ).0 is None,
        merged_status(candidates, n).0 is Some ==> exists|c: int|
            0 <= c < n && (#[trigger] candidates[c]).meta.project_status == merged_status(candidates, n).0
                && candidates[c].meta.project_status_reason == merged_status(candidates, n).1,
    decreases n,
{
    if n > 0 {
        the_merged_status_is_a_candidates(candidates, n - 1);
        assert(candidates[n - 1].meta.project_status == candidates[n - 1].meta.project_status);
    }
}

/// A merged page is its project's, and shows every file of its candidates unless it is quarantined.
pub proof fn merged_pages_show_every_file(
    normalized: Seq<char>,
    candidates: Seq<ProjectDetail>,
    r: ProjectDetail,
    c: int,
    i: int,
)
    requires
        is_merged_page(normalized, candidates, r),
        0 <= c < candidates.len(),
        0 <= i < candidates[c].files@.len(),
    ensures
        r.name@ == normalized,
        r.meta.status_named() is Quarantined ==> r.files@.len() == 0,
        !(r.meta.status_named() is Quarantined) ==> names_file(r.files@, candidates[c].files@[i].filename@),
{
    every_candidates_files_are_merged(candidates, candidates.len() as int, c, i);
}

// ---------------------------------------------------------------------------------------------
// Overrides, revocations, availability
// ---------------------------------------------------------------------------------------------

/// An imposed yank replaces the file's own and changes nothing else; a file without one is as it was.
pub proof fn imposed_yanks_replace_the_files_own(overrides: Map<Seq<char>, FileOverride>, file: FileText)
    ensures
        ({
            let r = overridden(overrides, file);
            let imposed = overrides.contains_key(file.filename) && !(overrides[file.filename].yanked@ is No);
            &&& r.yanked == (if imposed {
                overrides[file.filename].yanked@
            } else {
                file.yanked
            })
            &&& r.filename == file.filename && r.url == file.url && r.hashes == file.hashes && r.size == file.size
                && r.requires_python == file.requires_python
        }),
        hidden(overrides, file.filename) <==> overrides.contains_key(file.filename) && overrides[file.filename].hidden,
{
}

/// Hidden files are left out, and every other is shown under its override.
pub proof fn hidden_files_are_left_out(overrides: Map<Seq<char>, FileOverride>, files: Seq<File>, n: int, i: int)
    requires
        0 <= i < n <= files.len(),
    ensures
        !hidden(overrides, files[i].filename@) ==> overridden_files(overrides, files, n).contains(
            overridden(overrides, files[i]@),
        ),
        forall|k: int|
            0 <= k < overridden_files(overrides, files, n).len() ==> !hidden(
                overrides,
                (#[trigger] overridden_files(overrides, files, n)[k]).filename,
            ),
        (forall|j: int| 0 <= j < n ==> !hidden(overrides, (#[trigger] files[j]).filename@)) ==> overridden_files(
            overrides,
            files,
            n,
        ).len() == n,
    decreases n,
{
    let fewer = overridden_files(overrides, files, n - 1);
    let all = overridden_files(overrides, files, n);
    if n > 1 {
        hidden_files_are_left_out(overrides, files, n - 1, if i < n - 1 {
            i
        } else {
            0
        });
    }
    assert(hidden(overrides, files[n - 1].filename@) || !hidden(overrides, files[n - 1].filename@));
    assert forall|k: int| 0 <= k < all.len() implies !hidden(overrides, (#[trigger] all[k]).filename) by {
        if k < fewer.len() {
            assert(all[k] == fewer[k]);
        }
    }
    if !hidden(overrides, files[i].filename@) {
        let file = overridden(overrides, files[i]@);
        if i < n - 1 {
            let k = choose|k: int| 0 <= k < fewer.len() && fewer[k] == file;
            assert(all[k] == file);
        } else {
            assert(all[fewer.len() as int] == file);
        }
    }
}

/// A page under its overrides lists the same versions, and every file that is not hidden.
pub proof fn overridden_pages_keep_the_rest(
    overrides: Map<Seq<char>, FileOverride>,
    detail: ProjectDetail,
    r: ProjectDetail,
    i: int,
)
    requires
        is_page_overridden(overrides, detail, r),
        0 <= i < detail.files@.len(),
    ensures
        r.versions == detail.versions && r.meta == detail.meta && r.name == detail.name,
        !hidden(overrides, detail.files@[i].filename@) ==> file_views(r.files@).contains(
            overridden(overrides, detail.files@[i]@),
        ),
{
    hidden_files_are_left_out(overrides, detail.files@, detail.files@.len() as int, i);
}

/// A file is shown exactly where no revocation names its digest.
pub proof fn revoked_files_are_left_out(revoked: Set<Seq<char>>, detail: ProjectDetail, r: ProjectDetail, file: File)
    requires
        is_page_unrevoked(revoked, detail, r),
    ensures
        r.files@.contains(file) <==> detail.files@.contains(file) && !(file@.sha256() matches Some(digest) && is_digest(
            digest,
        ) && revoked.contains(digest)),
        r.versions == detail.versions && r.meta == detail.meta && r.name == detail.name,
{
    let shown = |f: File| !revoked_file(revoked, f);
    broadcast use vstd::seq_lib::group_filter_ensures;

    let kept = detail.files@.filter(shown);
    assert(r.files@ == kept);
    if kept.contains(file) {
        let k = choose|k: int| 0 <= k < kept.len() && kept[k] == file;
        assert(shown(kept[k]));
        kept_files_were_there(detail.files@, shown, k);
    }
    if detail.files@.contains(file) && shown(file) {
        let k = choose|k: int| 0 <= k < detail.files@.len() && detail.files@[k] == file;
        assert(kept.contains(detail.files@[k]));
    }
}

proof fn kept_files_were_there(files: Seq<File>, shown: spec_fn(File) -> bool, k: int)
    requires
        0 <= k < files.filter(shown).len(),
    ensures
        files.contains(files.filter(shown)[k]),
    decreases files.len(),
{
    reveal(Seq::filter);
    if files.len() > 0 {
        let fewer = files.drop_last();
        if k < fewer.filter(shown).len() {
            kept_files_were_there(fewer, shown, k);
            let i = choose|i: int| 0 <= i < fewer.len() && fewer[i] == fewer.filter(shown)[k];
            assert(files[i] == fewer[i]);
        } else {
            assert(files[files.len() - 1] == files.last());
        }
    }
}

/// A hosted file is here unless its own placement says that it is gone; a mirrored one is here exactly where its
/// placement says so; and one without a digest is not.
pub proof fn files_are_here_where_they_were_placed(
    hosted_names: Set<Seq<char>>,
    placements: Map<Seq<char>, Placement>,
    file: File,
)
    ensures
        file@.sha256() is None ==> !file_is_local(hosted_names, placements, file),
        file@.sha256() matches Some(digest) ==> {
            let local = file_is_local(hosted_names, placements, file);
            &&& hosted_names.contains(file.filename@) ==> (local <==> !(placements.contains_key(digest)
                && placements[digest].hosted && !placements[digest].local))
            &&& !hosted_names.contains(file.filename@) ==> (local <==> placements.contains_key(digest)
                && placements[digest].local)
        },
{
}

/// A project is available exactly where one of its files is here.
pub proof fn projects_are_available_by_any_file(
    hosted_names: Set<Seq<char>>,
    placements: Map<Seq<char>, Placement>,
    detail: ProjectDetail,
    r: bool,
    i: int,
)
    requires
        is_available(hosted_names, placements, detail, r),
        0 <= i < detail.files@.len(),
    ensures
        file_is_local(hosted_names, placements, detail.files@[i]) ==> r,
        (forall|j: int|
            0 <= j < detail.files@.len() ==> !file_is_local(hosted_names, placements, #[trigger] detail.files@[j])) ==> !r,
{
}

/// The sibling that is recorded for a file is tried, wherever the file stands, and the last file's is tried first.
pub proof fn recorded_siblings_are_tried(by_artifact: Map<Seq<char>, String>, files: Seq<File>, n: int, i: int)
    requires
        0 <= i < n <= files.len(),
        files[i]@.sha256() is Some,
        by_artifact.contains_key(files[i]@.sha256()->0),
        is_digest(by_artifact[files[i]@.sha256()->0]@),
    ensures
        siblings(by_artifact, files, n).contains(by_artifact[files[i]@.sha256()->0]@),
        i == n - 1 ==> siblings(by_artifact, files, n)[0] == by_artifact[files[i]@.sha256()->0]@,
    decreases n,
{
    let sibling = by_artifact[files[i]@.sha256()->0]@;
    let all = siblings(by_artifact, files, n);
    let rest = siblings(by_artifact, files, n - 1);
    if i < n - 1 {
        recorded_siblings_are_tried(by_artifact, files, n - 1, i);
        let k = choose|k: int| 0 <= k < rest.len() && rest[k] == sibling;
        if all == rest {
            assert(all[k] == sibling);
        } else {
            assert(all[k + 1] == sibling);
        }
    } else {
        assert(all[0] == sibling);
    }
}

// ---------------------------------------------------------------------------------------------
// The document
// ---------------------------------------------------------------------------------------------

/// A project is shown under its metadata's name, or else its page's, or else its own.
pub proof fn projects_are_shown_under_their_name(
    metadata: Option<CoreMetadataDoc>,
    name: Seq<char>,
    normalized: Seq<char>,
)
    ensures
        metadata matches Some(doc) ==> (doc.name@.len() > 0 ==> label(metadata, name, normalized) == doc.name@),
        (metadata is None || metadata->0.name@.len() == 0) && name.len() > 0 ==> label(metadata, name, normalized) == name,
        (metadata is None || metadata->0.name@.len() == 0) && name.len() == 0 ==> label(metadata, name, normalized)
            == normalized,
{
}

/// A project has a document exactly where it has a file, found by its normalized name under its index, with the summary
/// of its metadata.
pub proof fn documents_describe_projects_with_files(
    index: DocumentIndex,
    normalized: Seq<char>,
    detail: ProjectDetail,
    source: ContentSource,
    hosted_names: Set<Seq<char>>,
    placements: Map<Seq<char>, Placement>,
    metadata: Option<CoreMetadataDoc>,
    budget: usize,
    r: Option<SearchDocument>,
)
    requires
        is_document(index, normalized, detail, source, hosted_names, placements, metadata, budget, r),
    ensures
        r is Some <==> detail.files@.len() > 0,
        r matches Some(document) ==> document.resource_key@ == normalized && document.index == index && document.source
            == source,
        r matches Some(document) ==> opt_text(document.summary) == (match metadata {
            Some(doc) => opt_text(doc.summary),
            None => None,
        }),
        r matches Some(document) ==> width(document.text@) <= budget,
        r matches Some(document) ==> (document.available_locally ==> exists|i: int|
            0 <= i < detail.files@.len() && file_is_local(hosted_names, placements, #[trigger] detail.files@[i])),
{
    if r is Some {
        crate::search::text::searched_text_keeps_its_budget(
            r->0.display_label@,
            normalized,
            detail,
            metadata,
            budget,
        );
    }
}

/// What fits is the front of a text, the whole where there is room, and never one character fewer than would fit.
pub proof fn texts_are_cut_where_they_must_be(s: Seq<char>, available: int)
    requires
        available >= 0,
    ensures
        fitting(s, available).len() <= s.len(),
        s.take(fitting(s, available).len() as int) == fitting(s, available),
        width(s) <= available ==> fitting(s, available) == s,
        fitting(s, available).len() < s.len() ==> width(fitting(s, available)) + char_width(
            s[fitting(s, available).len() as int],
        ) > available,
    decreases s.len(),
{
    if s.len() > 0 {
        let first = seq![s[0]];
        let rest = s.drop_first();
        assert(s =~= first + rest);
        width_of_joined(first, rest);
        assert(first.drop_first() =~= Seq::<char>::empty());
        width_of_one(s[0]);
        if char_width(s[0]) <= available {
            let more = fitting(rest, available - char_width(s[0]));
            texts_are_cut_where_they_must_be(rest, available - char_width(s[0]));
            width_of_joined(first, more);
            assert(fitting(s, available) == first + more);
            assert(s.take(fitting(s, available).len() as int) =~= first + rest.take(more.len() as int));
            if more.len() < rest.len() {
                assert(s[(first + more).len() as int] == rest[more.len() as int]);
            }
        } else {
            width_of_nothing();
        }
    } else {
        assert(fitting(s, available) =~= s);
    }
}

proof fn width_of_one(c: char)
    ensures
        width(seq![c]) == char_width(c),
{
    width_of_nothing();
    reveal_with_fuel(vstd::utf8::encode_utf8, 2);
    assert(seq![c].drop_first() =~= Seq::<char>::empty());
}

proof fn width_of_nothing()
    ensures
        width(Seq::empty()) == 0,
{
    reveal_with_fuel(vstd::utf8::encode_utf8, 1);
}

/// What is pushed stands behind what was there, after a blank, whole where there is room.
pub proof fn pushed_texts_stand_behind(out: Seq<char>, value: Seq<char>, limit: int)
    ensures
        out.is_prefix_of(pushed_text(out, value, limit)),
        trimmed(value).len() == 0 ==> pushed_text(out, value, limit) == out,
        trimmed(value).len() > 0 && out.len() == 0 && width(trimmed(value)) <= limit && 0 < limit ==> pushed_text(
            out,
            value,
            limit,
        ) == trimmed(value),
        trimmed(value).len() > 0 && out.len() > 0 && width(out) < limit && width(out.push(' ')) + width(trimmed(value))
            <= limit ==> pushed_text(out, value, limit) == out + seq![' '] + trimmed(value),
{
    let separated = if out.len() > 0 {
        out.push(' ')
    } else {
        out
    };
    width_of_nothing();
    assert(out.len() == 0 ==> out =~= Seq::<char>::empty());
    if limit - width(separated) >= 0 {
        texts_are_cut_where_they_must_be(trimmed(value), limit - width(separated));
    }
    let r = pushed_text(out, value, limit);
    assert(r.subrange(0, out.len() as int) =~= out);
    if out.len() == 0 {
        assert(separated + trimmed(value) =~= trimmed(value));
    } else {
        assert(out.push(' ') + trimmed(value) =~= out + seq![' '] + trimmed(value));
    }
}

/// What was there before is not pushed again, and everything else is, in its order.
pub proof fn values_are_pushed_once(out: Seq<char>, values: Seq<Seq<char>>, value: Seq<char>, limit: int)
    ensures
        pushed_unique(out, Seq::empty(), limit) == out,
        pushed_unique(out, values.push(value), limit) == (if exists|j: int|
            0 <= j < values.len() && trimmed(#[trigger] values[j]) == trimmed(value) {
            pushed_unique(out, values, limit)
        } else {
            pushed_text(pushed_unique(out, values, limit), value, limit)
        }),
{
    let more = values.push(value);
    assert(more.drop_last() =~= values);
    assert(more.last() == value);
    if exists|j: int| 0 <= j < values.len() && trimmed(#[trigger] values[j]) == trimmed(value) {
        let j = choose|j: int| 0 <= j < values.len() && trimmed(#[trigger] values[j]) == trimmed(value);
        assert(more[j] == values[j]);
        assert(repeated(more, more.len() - 1));
    } else if repeated(more, more.len() - 1) {
        let j = choose|j: int| 0 <= j < more.len() - 1 && trimmed(#[trigger] more[j]) == trimmed(more[more.len() - 1]);
        assert(values[j] == more[j]);
    }
}

/// The short facts of a project's metadata are searched, then its lists, its addresses and last its description.
pub proof fn all_of_the_metadata_is_searched(doc: CoreMetadataDoc)
    ensures
        metadata_texts(doc) == fact_texts(doc) + list_texts(doc) + url_texts(doc.project_urls@) + present(doc.home_page)
            + seq![doc.description@],
        metadata_texts(doc).last() == doc.description@,
        doc.summary matches Some(summary) ==> metadata_texts(doc)[0] == summary@,
        fact_texts(doc).len() == present(doc.summary).len() + present(doc.requires_python).len() + present(
            doc.license,
        ).len() + present(doc.license_expression).len() + present(doc.author).len() + present(doc.author_email).len()
            + present(doc.maintainer).len() + present(doc.maintainer_email).len() + present(
            doc.description_content_type,
        ).len(),
        list_texts(doc).len() == doc.keywords@.len() + doc.requires_dist@.len() + doc.provides_extra@.len()
            + doc.classifiers@.len() + doc.license_files@.len() + doc.import_names@.len() + doc.import_namespaces@.len(),
{
}

/// A project is found by the name of every file, and by the Python it requires.
pub proof fn files_are_found_by_their_names(files: Seq<File>, i: int)
    requires
        0 <= i < files.len(),
    ensures
        file_texts(files).contains(files[i].filename@),
        files[i].requires_python matches Some(python) ==> file_texts(files).contains(python@),
    decreases files.len(),
{
    let fewer = files.drop_last();
    let rest = file_texts(fewer);
    let last = files.last();
    let all = file_texts(files);
    assert(all == rest.push(last.filename@) + present(last.requires_python));
    if i < fewer.len() {
        files_are_found_by_their_names(fewer, i);
        let k = choose|k: int| 0 <= k < rest.len() && rest[k] == files[i].filename@;
        assert(all[k] == files[i].filename@);
        if files[i].requires_python is Some {
            let m = choose|m: int| 0 <= m < rest.len() && rest[m] == files[i].requires_python->0@;
            assert(all[m] == rest[m]);
        }
    } else {
        assert(all[rest.len() as int] == last.filename@);
        if last.requires_python is Some {
            assert(all[rest.len() as int + 1] == last.requires_python->0@);
        }
    }
}

// ---------------------------------------------------------------------------------------------
// What a policy leaves of a page
// ---------------------------------------------------------------------------------------------

/// A project that an index refuses is described by nothing. Of any other project the page keeps its name and its
/// metadata, and of its files exactly those that are not denied: all of them under a policy that is off.
pub proof fn policed_pages_keep_what_is_not_denied(
    policy: Policy,
    refusal: Option<PolicyDenial>,
    normalized: Seq<char>,
    detail: ProjectDetail,
    facts: Seq<FileFacts>,
    r: ProjectDetail,
    file: File,
)
    requires
        is_policed(policy, refusal, normalized, detail, facts, r),
    ensures
        refusal is Some ==> r.files@.len() == 0 && r.versions@.len() == 0 && r.name@ == normalized,
        refusal is Some ==> r.meta.project_status is None && r.meta.project_status_reason is None,
        r.files@.contains(file) ==> detail.files@.contains(file),
        r.files@.len() > 0 ==> r.meta == detail.meta && r.name == detail.name,
        refusal is None && !policy.active && policy.resource_rules@.len() == 0 ==> r.files@ == detail.files@
            && r.versions@ == detail.versions@ && r.meta == detail.meta && r.name == detail.name,
        detail.files@.contains(file) && policy.page_denial(
            opt_denial(refusal),
            PolicyAction::Serve,
            normalized,
            detail.files@,
            facts,
            None,
        ) is None ==> (r.files@.contains(file) <==> !policy.file_denials(
            opt_denial(refusal),
            PolicyAction::Serve,
            normalized,
            detail.files@,
            facts,
            None,
        ).contains_key(file.filename@)),
{
    reveal_with_fuel(first_project_denial, 1);
    let names = policy.file_denials(
        opt_denial(refusal),
        PolicyAction::Serve,
        normalized,
        detail.files@,
        facts,
        None,
    ).dom();
    let shown = |f: File| !names.contains(f.filename@);
    let files = detail.files@;
    let kept = files.filter(shown);
    assert(kept_files(files, names) == kept);
    if kept.contains(file) {
        let k = choose|k: int| 0 <= k < kept.len() && kept[k] == file;
        kept_files_were_there(files, shown, k);
        files.filter_lemma(shown);
        assert(shown(kept[k]));
    }
    if files.contains(file) && shown(file) {
        files.filter_lemma(shown);
        let i = choose|i: int| 0 <= i < files.len() && files[i] == file;
        assert(kept.contains(files[i]));
    }
}

/// Overrides change no more of a member than its files: the member stays where it stood, no hidden file is left, and
/// without overrides nothing changes.
pub proof fn overridden_members_stay_in_place(
    overrides: Option<Map<Seq<char>, FileOverride>>,
    was: Member<ProjectDetail>,
    now: Member<ProjectDetail>,
    i: int,
)
    requires
        is_overridden(overrides, was, now),
    ensures
        now.position == was.position,
        now.value.name == was.value.name && now.value.meta == was.value.meta && now.value.versions == was.value.versions,
        overrides is None ==> now.value.files == was.value.files,
        0 <= i < was.value.files@.len() && overrides is Some && overrides->0.contains_key(was.value.files@[i].filename@)
            && overrides->0[was.value.files@[i].filename@].hidden ==> forall|k: int|
            0 <= k < now.value.files@.len() ==> (#[trigger] now.value.files@[k]).filename@
                != was.value.files@[i].filename@,
{
    if 0 <= i < was.value.files@.len() && overrides is Some && overrides->0.contains_key(
        was.value.files@[i].filename@,
    ) && overrides->0[was.value.files@[i].filename@].hidden {
        let files = was.value.files@;
        let shown = overridden_files(overrides->0, files, files.len() as int);
        hidden_files_are_left_out(overrides->0, files, files.len() as int, i);
        assert forall|k: int| 0 <= k < now.value.files@.len() implies (#[trigger] now.value.files@[k]).filename@
            != files[i].filename@ by {
            assert(file_views(now.value.files@)[k] == shown[k]);
        }
    }
}

/// Each leaf contributes the projects that its own records name, and a virtual index contributes none of its own.
pub proof fn leaves_contribute_their_own_projects(
    indexes: Seq<IndexEntry>,
    index_keys: Seq<String>,
    upload_keys: Seq<String>,
    position: int,
    project: Seq<char>,
    i: int,
)
    requires
        0 <= position < indexes.len(),
    ensures
        project_sets(indexes, index_keys, upload_keys).len() == indexes.len(),
        indexes[position].kind is Virtual ==> !project_sets(indexes, index_keys, upload_keys)[position].contains(project),
        indexes[position].kind is Cached && 0 <= i < index_keys.len() && index_keys[i]@ == indexes[position].name@
            + seq!['/'] + project && project.len() > 0 && !project.contains('/') ==> project_sets(
            indexes,
            index_keys,
            upload_keys,
        )[position].contains(project),
        acyclic(indexes) && !(indexes[position].kind is Virtual) ==> over_leaves(
            indexes,
            project_sets(indexes, index_keys, upload_keys),
            position,
        ) == leaf_projects(indexes[position], index_keys, upload_keys),
{
    if 0 <= i < index_keys.len() {
        record_keys_name_their_project(indexes[position].name@, project, index_keys[i]@);
    }
}

/// A project is found by the labels of its links and by their targets.
pub proof fn projects_are_found_by_their_links(urls: Seq<(String, String)>, i: int)
    requires
        0 <= i < urls.len(),
    ensures
        url_texts(urls).len() == 2 * urls.len(),
        url_texts(urls)[2 * i] == urls[i].0@,
        url_texts(urls)[2 * i + 1] == urls[i].1@,
    decreases urls.len(),
{
    reveal_with_fuel(url_texts, 2);
    let fewer = urls.drop_last();
    if i < fewer.len() {
        projects_are_found_by_their_links(fewer, i);
        assert(fewer[i] == urls[i]);
    } else if fewer.len() > 0 {
        projects_are_found_by_their_links(fewer, 0);
    }
}

} // verus!
