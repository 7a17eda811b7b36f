//! What the pages promise: where a file is said to be, which release stands first, what may be done, and where a link
//! leads.
use vstd::prelude::*;

use crate::digest::is_digest;
use crate::outside::{regex_match, unicode_lower, version_order, version_valid, VersionOrder};
use crate::search::scope::{acyclic, height_of, layer_is_lower, IndexEntry, IndexKind};
use crate::serving::browse::{
    archive_of, archive_pairs, asks_for, block_section, breadcrumbs_of, browse_address, browse_pair_read,
    browse_query_of, browse_read, description_section, expression_asked, file_row_of, file_rows, files_asked,
    lifecycle_badge, list_page, listing_page, member_page, member_row, place_pairs, project_page_of, provenance_badge,
    release_row, releases, status_badge, ArchiveMember, ArchivePlace, BrowseQueryText, MemberText, PlacementLabels,
};
use crate::serving::page_model::{action_texts, SectionText, UiActionMethod};
use crate::serving::project_view::{
    are_actions_given, artifact_refusal, best_release, claims_through, claims_through_layers, describes_release,
    install_text, is_metadata_sibling, is_provenance_view, layer_claims, may_describe, outranks, placed, placement_of,
    project_action, release_actions, shell_plain, shell_quoted, stable, version_greater, ArtifactPlacement,
    ArtifactSource, AttestationView, ByteAvailability, EncodedProject, FileView, LifecycleView, MetadataBlock,
    MetadataView, ProjectView, ProvenanceView, ReleaseView,
};
use crate::text::{before, decimal, holds, joined, opt_text, texts, u64_of};

verus! {

// ---------------------------------------------------------------------------------------------
// Where files are
// ---------------------------------------------------------------------------------------------

/// A file that this node wrote is its own, and here unless what is recorded of it says otherwise. Any other is what is
/// recorded of it, and a mirror's that is not here yet where nothing is.
pub proof fn files_are_where_they_were_seen(placement: Option<ArtifactPlacement>)
    ensures
        placement_of(true, placement).source == ArtifactSource::Hosted,
        placement matches Some(seen) ==> (seen.source is Hosted ==> placement_of(true, placement) == seen),
        !(placement matches Some(seen) && seen.source is Hosted) ==> placement_of(true, placement).availability
            == ByteAvailability::Local,
        placement matches Some(seen) ==> placement_of(false, placement) == seen,
        placement is None ==> placement_of(false, placement).source == ArtifactSource::Proxy && placement_of(
            false,
            placement,
        ).availability == ByteAvailability::RemoteOnly,
{
}

/// Placing a file changes nothing else of it, and a hosted file names no upstream.
pub proof fn placing_changes_nothing_else(
    was: FileView,
    now: FileView,
    hosted: bool,
    placement: Option<ArtifactPlacement>,
    upstream: Option<Seq<char>>,
)
    requires
        placed(was, now, hosted, placement, upstream),
    ensures
        hosted ==> now.upstream is None && now.placement.source is Hosted,
        !hosted ==> opt_text(now.upstream) == upstream,
        now.filename == was.filename,
        now.sha256 == was.sha256,
        now.release == was.release,
        now.size == was.size,
        now.upload_time == was.upload_time,
        now.lifecycle == was.lifecycle,
        now.has_metadata == was.has_metadata,
        now.provenance_detail == was.provenance_detail,
        now.browsable == was.browsable,
{
}

/// A panel is shown exactly where provenance is advertised. A hosted document that cannot be read is shown as malformed;
/// a mirrored one is a claim, and its attestations are not shown.
pub proof fn advertised_provenance_is_shown(
    advertised: bool,
    hosted: bool,
    attestations: Option<Vec<AttestationView>>,
    r: Option<ProvenanceView>,
)
    requires
        is_provenance_view(advertised, hosted, attestations, r),
    ensures
        r is Some <==> advertised,
        r matches Some(view) ==> (view.source is Hosted <==> hosted),
        r matches Some(view) ==> (view.malformed <==> hosted && attestations is None),
        r matches Some(view) ==> view.attestations@ == (if hosted && attestations is Some {
            attestations->0@
        } else {
            Seq::<AttestationView>::empty()
        }),
{
}

/// The first layer to claim a filename keeps it, and a layer claims every filename of its own that no other has.
pub proof fn the_first_layer_keeps_a_filename(
    names: Map<Seq<char>, Seq<char>>,
    layer: Seq<char>,
    filenames: Set<Seq<char>>,
    filename: Seq<char>,
)
    ensures
        ({
            let after = layer_claims(names, layer, filenames);
            &&& after.contains_key(filename) <==> names.contains_key(filename) || filenames.contains(filename)
            &&& names.contains_key(filename) ==> after[filename] == names[filename]
            &&& !names.contains_key(filename) && filenames.contains(filename) ==> after[filename] == layer
        }),
{
}

/// Walking an index and its layers takes no claim back, and every claim it adds is a hosted layer's of a file that it
/// published.
pub proof fn claims_are_kept_and_founded(
    indexes: Seq<IndexEntry>,
    uploads: Seq<Set<Seq<char>>>,
    position: int,
    names: Map<Seq<char>, Seq<char>>,
    filename: Seq<char>,
)
    requires
        acyclic(indexes),
        0 <= position < indexes.len(),
    ensures
        ({
            let after = claims_through(indexes, uploads, position, names);
            &&& names.contains_key(filename) ==> after.contains_key(filename) && after[filename] == names[filename]
            &&& after.contains_key(filename) && !names.contains_key(filename) ==> exists|i: int|
                0 <= i < indexes.len() && (#[trigger] indexes[i]).kind is Hosted && indexes[i].name@ == after[filename]
                    && uploads[i].contains(filename)
        }),
    decreases height_of(indexes, position), 1nat, 0nat,
{
    match indexes[position].kind {
        IndexKind::Virtual { layers, .. } => {
            layer_claims_are_kept(indexes, uploads, position, layers@.len(), names, filename);
        },
        IndexKind::Hosted => {
            assert(indexes[position].kind is Hosted);
        },
        IndexKind::Cached => {},
    }
}

proof fn layer_claims_are_kept(
    indexes: Seq<IndexEntry>,
    uploads: Seq<Set<Seq<char>>>,
    position: int,
    n: nat,
    names: Map<Seq<char>, Seq<char>>,
    filename: Seq<char>,
)
    requires
        acyclic(indexes),
        0 <= position < indexes.len(),
        indexes[position].kind is Virtual,
        n <= indexes[position].kind->layers@.len(),
    ensures
        ({
            let after = claims_through_layers(indexes, uploads, position, n, names);
            &&& names.contains_key(filename) ==> after.contains_key(filename) && after[filename] == names[filename]
            &&& after.contains_key(filename) && !names.contains_key(filename) ==> exists|i: int|
                0 <= i < indexes.len() && (#[trigger] indexes[i]).kind is Hosted && indexes[i].name@ == after[filename]
                    && uploads[i].contains(filename)
        }),
    decreases height_of(indexes, position), 0nat, n,
{
    if n > 0 {
        layer_is_lower(indexes, position, n - 1);
        let fewer = claims_through_layers(indexes, uploads, position, (n - 1) as nat, names);
        layer_claims_are_kept(indexes, uploads, position, (n - 1) as nat, names, filename);
        claims_are_kept_and_founded(
            indexes,
            uploads,
            indexes[position].kind->layers@[n - 1] as int,
            fewer,
            filename,
        );
    }
}

/// Every file that a hosted index published is claimed there, and a virtual index claims what any of its layers does.
pub proof fn published_files_are_claimed(
    indexes: Seq<IndexEntry>,
    uploads: Seq<Set<Seq<char>>>,
    position: int,
    names: Map<Seq<char>, Seq<char>>,
    filename: Seq<char>,
    layer: int,
)
    requires
        acyclic(indexes),
        0 <= position < indexes.len(),
    ensures
        indexes[position].kind is Hosted && uploads[position].contains(filename) ==> claims_through(
            indexes,
            uploads,
            position,
            names,
        ).contains_key(filename),
        indexes[position].kind matches IndexKind::Virtual { layers, .. } ==> (0 <= layer < layers@.len()
            && indexes[layers@[layer] as int].kind is Hosted && uploads[layers@[layer] as int].contains(filename)
            ==> claims_through(indexes, uploads, position, names).contains_key(filename)),
{
    if indexes[position].kind is Virtual {
        let layers = indexes[position].kind->layers@;
        if 0 <= layer < layers.len() {
            layer_is_lower(indexes, position, layer);
            if indexes[layers[layer] as int].kind is Hosted && uploads[layers[layer] as int].contains(filename) {
                claims_of_a_layer_stay(indexes, uploads, position, layers.len(), names, filename, layer);
            }
        }
    }
}

proof fn claims_of_a_layer_stay(
    indexes: Seq<IndexEntry>,
    uploads: Seq<Set<Seq<char>>>,
    position: int,
    n: nat,
    names: Map<Seq<char>, Seq<char>>,
    filename: Seq<char>,
    layer: int,
)
    requires
        acyclic(indexes),
        0 <= position < indexes.len(),
        indexes[position].kind is Virtual,
        0 <= layer < n <= indexes[position].kind->layers@.len(),
        indexes[indexes[position].kind->layers@[layer] as int].kind is Hosted,
        uploads[indexes[position].kind->layers@[layer] as int].contains(filename),
    ensures
        claims_through_layers(indexes, uploads, position, n, names).contains_key(filename),
    decreases n,
{
    layer_is_lower(indexes, position, n - 1);
    let fewer = claims_through_layers(indexes, uploads, position, (n - 1) as nat, names);
    let last = indexes[position].kind->layers@[n - 1] as int;
    if layer < n - 1 {
        claims_of_a_layer_stay(indexes, uploads, position, (n - 1) as nat, names, filename, layer);
        claims_are_kept_and_founded(indexes, uploads, last, fewer, filename);
    } else {
        the_first_layer_keeps_a_filename(fewer, indexes[last].name@, uploads[last], filename);
        assert(claims_through(indexes, uploads, last, fewer) == layer_claims(
            fewer,
            indexes[last].name@,
            uploads[last],
        ));
    }
}

// ---------------------------------------------------------------------------------------------
// Which release stands first
// ---------------------------------------------------------------------------------------------

/// An active release outranks one that is not, a stable one another of its kind, and the greater version the rest.
pub proof fn releases_are_ranked(a: ReleaseView, b: ReleaseView)
    ensures
        a.lifecycle is None && b.lifecycle is Some ==> outranks(a, b) && !outranks(b, a),
        (a.lifecycle is None) == (b.lifecycle is None) && stable(a.version@) && !stable(b.version@) ==> outranks(a, b)
            && !outranks(b, a),
        (a.lifecycle is None) == (b.lifecycle is None) && stable(a.version@) == stable(b.version@) ==> (outranks(a, b)
            <==> version_greater(a.version@, b.version@)),
{
}

/// A version that parses is greater than one that does not; two that parse are told by their order, and two that do
/// not by their text.
pub proof fn versions_are_told_by_their_order(a: Seq<char>, b: Seq<char>)
    ensures
        version_valid(a) && !version_valid(b) ==> version_greater(a, b) && !version_greater(b, a),
        version_valid(a) && version_valid(b) && version_order(a, b) == Some(VersionOrder::Newer) ==> version_greater(a, b),
        version_valid(a) && version_valid(b) && version_order(a, b) == Some(VersionOrder::Older) ==> !version_greater(a, b),
        !version_valid(a) && !version_valid(b) ==> (version_greater(a, b) <==> before(b, a)),
{
}

/// Of two releases, the second is the default unless the first outranks it; one alone is the default.
pub proof fn the_better_of_two_is_the_default(a: ReleaseView, b: ReleaseView)
    ensures
        best_release(seq![a], 1) == 0,
        best_release(seq![a, b], 2) == (if outranks(a, b) {
            0int
        } else {
            1int
        }),
{
    reveal_with_fuel(best_release, 3);
}

/// The file that describes a release is one of its own with metadata, active where any such is, and of those the first
/// by its name.
pub proof fn releases_are_described_by_their_own_file(
    files: Seq<FileView>,
    of_release: Seq<bool>,
    i: int,
    n: int,
    j: int,
)
    requires
        describes_release(files, of_release, i, n),
        0 <= j < n,
        files[j].has_metadata,
        of_release[j],
    ensures
        files[i].has_metadata,
        of_release[i],
        files[j].lifecycle is None ==> files[i].lifecycle is None,
        (files[i].lifecycle is None) == (files[j].lifecycle is None) ==> !before(files[j].filename@, files[i].filename@),
{
    assert(may_describe(files, of_release, j));
}

/// A page's metadata comes from a file that has some and can be reached; with no default release it is the last.
pub proof fn metadata_comes_from_a_file_that_has_some(
    files: Seq<FileView>,
    has_default: bool,
    of_release: Seq<bool>,
    r: Option<usize>,
)
    requires
        is_metadata_sibling(files, has_default, of_release, r),
    ensures
        r matches Some(i) ==> i < files.len() && files[i as int].has_metadata && is_digest(files[i as int].sha256@),
        r matches Some(i) ==> (has_default ==> of_release[i as int]),
        r matches Some(i) ==> (!has_default ==> forall|j: int| i < j < files.len() ==> !(#[trigger] files[j]).has_metadata),
        !has_default && r is None && files.len() > 0 ==> !(files.last().has_metadata && is_digest(files.last().sha256@)),
{
    if !has_default && r is None && files.len() > 0 {
        let last = files.len() - 1;
        if files[last].has_metadata && is_digest(files[last].sha256@) {
            assert(crate::serving::project_view::last_with_metadata(files, last));
        }
    }
}

// ---------------------------------------------------------------------------------------------
// Commands and actions
// ---------------------------------------------------------------------------------------------

/// A plain word is left as it is, and any other stands between quotes.
pub proof fn words_are_quoted_unless_plain(value: Seq<char>)
    ensures
        (forall|i: int| 0 <= i < value.len() ==> shell_plain(#[trigger] value[i])) ==> shell_quoted(value) == value,
        (exists|i: int| 0 <= i < value.len() && !shell_plain(#[trigger] value[i])) ==> shell_quoted(value).len() >= 2
            && shell_quoted(value).first() == '\'' && shell_quoted(value).last() == '\'',
        !shell_plain('\'') && !shell_plain(' ') && !shell_plain('$') && !shell_plain('"') && !shell_plain(';')
            && !shell_plain('`') && !shell_plain('&') && !shell_plain('|') && !shell_plain('\\') && !shell_plain('*'),
{
    reveal_strlit("'");
}

/// The command names the index and the project, at the release that is shown.
pub proof fn commands_install_what_is_shown(route: Seq<char>, project: Seq<char>, version: Seq<char>)
    ensures
        install_text(route, project, None) == "uv pip install --index-url "@ + "<origin>/"@ + route + "/simple/"@ + " "@
            + shell_quoted(project),
        install_text(route, project, Some(version)) == "uv pip install --index-url "@ + "<origin>/"@ + route + "/simple/"@
            + " "@ + shell_quoted(project + "=="@ + version),
{
}

/// A release is yanked and un-yanked at one address and deleted at another; only deleting destroys.
pub proof fn only_deleting_destroys(route: Seq<char>, project: Seq<char>, version: Seq<char>)
    ensures
        ({
            let actions = release_actions(route, project, version);
            &&& actions.len() == 3
            &&& actions[0].method == UiActionMethod::Put && actions[1].method == UiActionMethod::Delete && actions[2].method
                == UiActionMethod::Delete
            &&& actions[0].endpoint == actions[1].endpoint
            &&& actions[0].endpoint == "/"@ + route + "/"@ + project + "/"@ + (version + "/"@) + "yank"@
            &&& actions[2].endpoint == "/"@ + route + "/"@ + project + "/"@ + (version + "/"@) + Seq::<char>::empty()
            &&& !actions[0].destructive && !actions[1].destructive && actions[2].destructive
            &&& actions[0].label == "yank"@ && actions[1].label == "un-yank"@ && actions[2].label == "delete"@
        }),
        ({
            let action = project_action(route, project);
            &&& action.method == UiActionMethod::Delete
            &&& action.destructive
            &&& action.endpoint == "/"@ + route + "/"@ + project + "/"@ + Seq::<char>::empty() + Seq::<char>::empty()
        }),
{
}

/// Giving a project its actions changes nothing else of it: every release stays in its place, with its three actions.
pub proof fn every_release_gets_its_actions(encoded: EncodedProject, project: ProjectView, r: ProjectView, i: int)
    requires
        are_actions_given(encoded, project, r),
        0 <= i < project.versions@.len(),
    ensures
        r.files == project.files,
        r.name == project.name,
        r.status == project.status,
        r.versions@.len() == project.versions@.len(),
        r.versions@[i].version == project.versions@[i].version,
        r.versions@[i].lifecycle == project.versions@[i].lifecycle,
        action_texts(r.versions@[i].actions@) == release_actions(
            encoded.route_path@,
            encoded.project@,
            encoded.versions@[i]@,
        ),
        action_texts(r.actions@).len() == action_texts(project.actions@).len() + 1,
        action_texts(r.actions@).last() == project_action(encoded.route_path@, encoded.project@),
{
}

/// The browser reaches a file exactly where its digest is one and the file is the browsed project's.
pub proof fn browsers_reach_the_projects_own_files(
    route: Seq<char>,
    filename: Seq<char>,
    digest: Seq<char>,
    same_project: bool,
    not_found: Seq<char>,
)
    ensures
        artifact_refusal(route, filename, digest, same_project, not_found) is None <==> is_digest(digest) && same_project,
{
}

// ---------------------------------------------------------------------------------------------
// What a browse request asks for
// ---------------------------------------------------------------------------------------------

/// A pair sets what it names and nothing else; an empty one says nothing, but of the index.
pub proof fn pairs_set_what_they_name(q: BrowseQueryText, key: Seq<char>, value: Seq<char>, now: BrowseQueryText)
    requires
        browse_pair_read(q, (key, value)) == Ok::<BrowseQueryText, Seq<char>>(now),
        value.len() > 0,
    ensures
        now.index == (if key == "index"@ { value } else { q.index }),
        key != "index"@ ==> now.project == (if key == "project"@ { Some(value) } else { q.project }),
        key == "version"@ && key != "index"@ && key != "project"@ ==> now.version == Some(value),
        key != "version"@ ==> now.version == q.version,
        key != "filename"@ ==> now.filename == q.filename,
        key != "filename_match"@ ==> now.filename_match == q.filename_match,
        key != "sha256"@ ==> now.sha256 == q.sha256,
        key != "file"@ ==> now.file == q.file,
        key != "container"@ ==> now.containers == q.containers,
        key != "member"@ ==> now.member == q.member,
        key != "offset"@ ==> now.offset == q.offset,
{
}

/// An empty value says nothing, and a query is refused for what is no offset alone.
pub proof fn empty_values_say_nothing(q: BrowseQueryText, key: Seq<char>, value: Seq<char>)
    ensures
        key != "index"@ && value.len() == 0 ==> browse_pair_read(q, (key, value)) == Ok::<BrowseQueryText, Seq<char>>(q),
        browse_pair_read(q, (key, value)) is Err ==> key == "offset"@ && u64_of(value) is None,
{
}

/// A query without an index is refused, and one with an index is refused for an offset alone.
pub proof fn queries_name_an_index(pairs: Seq<(Seq<char>, Seq<char>)>)
    ensures
        browse_query_of(pairs) matches Ok(q) ==> q.index.len() > 0 && browse_read(pairs, pairs.len() as int) == Ok::<
            BrowseQueryText,
            Seq<char>,
        >(q),
        (browse_read(pairs, pairs.len() as int) matches Ok(q) && q.index.len() > 0) ==> browse_query_of(pairs) is Ok,
        browse_query_of(Seq::empty()) is Err,
{
}

/// An archive is addressed by a digest and a filename, given apart or as one; a request for something in an archive
/// says which.
pub proof fn archives_are_addressed_whole(q: BrowseQueryText, digest: Seq<char>, filename: Seq<char>)
    ensures
        q.sha256 == Some(digest) && q.file == Some(filename) ==> archive_of(q) == Ok::<
            Option<(Seq<char>, Seq<char>)>,
            Seq<char>,
        >(Some((digest, filename))),
        q.sha256 is Some && q.file is None ==> archive_of(q) is Err,
        q.sha256 is None && q.file is None ==> (archive_of(q) is Err <==> q.member is Some || q.containers.len() > 0),
        q.sha256 is None && q.file is None && archive_of(q) is Ok ==> archive_of(q)->Ok_0 is None,
        q.sha256 is None && q.file == Some(digest + seq!['/'] + filename) && !digest.contains('/') ==> archive_of(q)
            == Ok::<Option<(Seq<char>, Seq<char>)>, Seq<char>>(Some((digest, filename))),
{
    if !digest.contains('/') {
        crate::text::first_index_of_joined(digest, '/', filename);
    }
}

/// A file is asked for by its release and by its name; a query that names neither asks for every file.
pub proof fn files_are_asked_for_by_release_and_name(q: BrowseQueryText, file: FileView, expression: Option<Seq<char>>)
    ensures
        asks_for(q, file, expression) ==> (q.version is Some ==> opt_text(file.release) == q.version),
        expression matches Some(e) ==> (asks_for(q, file, expression) ==> regex_match(e, file.filename@)),
        expression is None && q.filename is Some && asks_for(q, file, expression) ==> holds(
            unicode_lower(file.filename@),
            unicode_lower(q.filename->0),
        ),
        q.version is None && q.filename is None && expression is None ==> asks_for(q, file, expression),
        expression_asked(q) is Some <==> q.filename is Some && q.filename_match == Some("regex"@),
        expression_asked(q) is Some ==> expression_asked(q) == q.filename,
{
}

/// The table lists the files that are asked for and no others, in their order.
pub proof fn asked_files_are_listed(
    q: BrowseQueryText,
    project: ProjectView,
    expression: Option<Seq<char>>,
    labels: PlacementLabels,
    n: int,
    i: int,
)
    requires
        0 <= n <= project.files@.len(),
        0 <= i < n,
    ensures
        file_rows(q, project, expression, labels, n).len() <= n,
        asks_for(q, project.files@[i], expression) ==> file_rows(q, project, expression, labels, n).contains(
            file_row_of(q.index, project.name@, project.files@[i], labels),
        ),
        (forall|j: int| 0 <= j < n ==> asks_for(q, #[trigger] project.files@[j], expression)) ==> file_rows(
            q,
            project,
            expression,
            labels,
            n,
        ).len() == n && file_rows(q, project, expression, labels, n)[i] == file_row_of(
            q.index,
            project.name@,
            project.files@[i],
            labels,
        ),
        (forall|j: int| 0 <= j < n ==> !asks_for(q, #[trigger] project.files@[j], expression)) ==> file_rows(
            q,
            project,
            expression,
            labels,
            n,
        ).len() == 0,
    decreases n,
{
    let fewer = file_rows(q, project, expression, labels, n - 1);
    let all = file_rows(q, project, expression, labels, n);
    let row = file_row_of(q.index, project.name@, project.files@[i], labels);
    if n > 1 {
        asked_files_are_listed(q, project, expression, labels, n - 1, if i < n - 1 {
            i
        } else {
            0
        });
    }
    if asks_for(q, project.files@[i], expression) {
        if i == n - 1 {
            assert(all[fewer.len() as int] == row);
        } else {
            let k = choose|k: int| 0 <= k < fewer.len() && fewer[k] == row;
            assert(all[k] == row);
        }
    }
    assert(asks_for(q, project.files@[n - 1], expression) || !asks_for(q, project.files@[n - 1], expression));
}

/// A file's row says its name, its release, its size and where it is, and leads into it exactly where it can be browsed.
pub proof fn rows_say_what_the_file_is(route: Seq<char>, project: Seq<char>, file: FileView, labels: PlacementLabels)
    ensures
        ({
            let row = file_row_of(route, project, file, labels);
            &&& row.cells.len() == 6
            &&& row.cells[0].text == file.filename@
            &&& row.cells[0].href is Some <==> file.browsable
            &&& file.browsable ==> row.cells[0].href == Some(
                browse_address(archive_pairs(route, project, file.sha256@, file.filename@, Seq::empty(), None, None)),
            )
            &&& file.release matches Some(release) ==> row.cells[1].text == release@
            &&& file.size matches Some(size) ==> row.cells[2].text == decimal(size as nat)
            &&& file.upload_time matches Some(time) ==> row.cells[3].text == time@
            &&& file.placement.source is Hosted ==> row.cells[4].text == labels.hosted@
            &&& file.placement.source is Proxy ==> row.cells[4].text == labels.proxy@
            &&& file.placement.source is Generated ==> row.cells[4].text == labels.generated@
            &&& row.cells[4].href == opt_text(file.upstream)
            &&& file.placement.availability is Local ==> row.cells[5].text == labels.local@
            &&& file.placement.availability is RemoteOnly ==> row.cells[5].text == labels.remote_only@
            &&& file.placement.availability is Unavailable ==> row.cells[5].text == labels.unavailable@
            &&& row.badges.len() == (if file.lifecycle is Some { 1nat } else { 0nat }) + (if file.provenance_detail is Some {
                1nat
            } else {
                0nat
            })
            &&& row.actions.len() == 0
        }),
{
}

/// Every release has its row, which leads to it and says whether it is active.
pub proof fn every_release_has_its_row(route: Seq<char>, project: ProjectView, i: int)
    requires
        0 <= i < project.versions@.len(),
    ensures
        releases(route, project) matches SectionText::Table { rows, .. } && rows.len() == project.versions@.len() && rows[i]
            == release_row(route, project, i),
        ({
            let row = release_row(route, project, i);
            let release = project.versions@[i];
            &&& row.cells[0].text == release.version@
            &&& row.cells[0].href == Some(
                browse_address(place_pairs(route, Some(project.name@)) + seq![("version"@, release.version@)]),
            )
            &&& release.lifecycle is None ==> row.cells[1].text == "active"@ && row.badges.len() == 0
            &&& release.lifecycle matches Some(lifecycle) ==> row.cells[1].text == lifecycle.label@ && row.badges.len()
                == 1
            &&& row.actions == action_texts(release.actions@)
        }),
{
}

/// A badge says what is special, with its reasons, and there is none where nothing is.
pub proof fn badges_say_what_is_special(
    lifecycle: Option<LifecycleView>,
    provenance: Option<ProvenanceView>,
    project: ProjectView,
)
    ensures
        lifecycle is None <==> lifecycle_badge(lifecycle).len() == 0,
        lifecycle matches Some(view) ==> lifecycle_badge(lifecycle)[0].label == view.label@ && (lifecycle_badge(
            lifecycle,
        )[0].hint is Some <==> view.reasons@.len() > 0),
        lifecycle matches Some(view) ==> (view.reasons@.len() > 0 ==> lifecycle_badge(lifecycle)[0].hint == Some(
            joined(texts(view.reasons@), "; "@),
        )),
        provenance is None <==> provenance_badge(provenance).len() == 0,
        provenance matches Some(view) ==> {
            let badge = provenance_badge(provenance)[0];
            &&& badge.label == (if view.source is Hosted {
                "hosted provenance"@
            } else {
                "upstream provenance"@
            })
            &&& badge.class == (if view.malformed {
                "provenance-malformed"@
            } else {
                "provenance-valid"@
            })
            &&& badge.hint is Some <==> view.attestations@.len() > 0
        },
        project.status is None <==> status_badge(project).len() == 0,
        project.status matches Some(status) ==> status_badge(project)[0].label == status.marker@ && status_badge(
            project,
        )[0].hint == opt_text(status.reason),
{
}

/// A project's page shows its name, its metadata, its releases and the files that are asked for, in this order.
pub proof fn pages_show_the_project(
    q: BrowseQueryText,
    project: ProjectView,
    metadata: MetadataView,
    labels: PlacementLabels,
)
    ensures
        ({
            let page = project_page_of(q, project, metadata, labels);
            let n = page.sections.len();
            &&& page.title == project.name@
            &&& page.subtitle == opt_text(metadata.version)
            &&& page.summary == opt_text(metadata.summary)
            &&& page.command == opt_text(project.client_command)
            &&& page.actions == action_texts(project.actions@)
            &&& n == description_section(metadata.description).len() + metadata.blocks@.len() + 2
            &&& page.sections[n - 2] == releases(q.index, project)
            &&& page.sections[n - 1] == files_asked(q, project, expression_asked(q), labels)
            &&& metadata.description is Some ==> page.sections[0] is Markup
            &&& description_section(metadata.description).len() == (if metadata.description is Some {
                1nat
            } else {
                0nat
            })
        }),
{
}

/// A block of metadata is shown under its label, with every value it has.
pub proof fn blocks_show_their_values(block: MetadataBlock, i: int)
    ensures
        block matches MetadataBlock::KeyValue { label, value } ==> (block_section(block) matches SectionText::Properties {
            heading,
            properties,
        } && heading == label@ && properties.len() == 1 && properties[0].value == value@),
        block matches MetadataBlock::Chips { label, values } ==> (0 <= i < values@.len() ==> (block_section(
            block,
        ) matches SectionText::Properties { heading, properties } && heading == label@ && properties.len()
            == values@.len() && properties[i].value == values@[i]@)),
        block matches MetadataBlock::Links { label, links } ==> (0 <= i < links@.len() ==> (block_section(
            block,
        ) matches SectionText::Links { heading, links: shown, .. } && heading == label@ && shown.len() == links@.len()
            && shown[i].label == links@[i].0@ && shown[i].href == links@[i].1@)),
        block matches MetadataBlock::Groups { label, groups } ==> (0 <= i < groups@.len() ==> (block_section(
            block,
        ) matches SectionText::Properties { heading, properties } && heading == label@ && properties.len()
            == groups@.len() && properties[i].label == groups@[i].0@ && properties[i].value == joined(
            texts(groups@[i].1@),
            ", "@,
        ))),
{
}

/// A member's row leads inside a nested archive, to the content of a text, and nowhere otherwise.
pub proof fn members_lead_where_they_can(q: BrowseQueryText, place: ArchivePlace, member: ArchiveMember)
    ensures
        ({
            let row = member_row(q, place, member);
            &&& row.cells[0].text == member.path@
            &&& row.cells[0].href is Some <==> member.kind@ == "archive"@ || member.previewable
            &&& member.kind@ == "archive"@ ==> row.cells[0].href == Some(
                browse_address(
                    archive_pairs(
                        q.index,
                        place.project@,
                        place.digest@,
                        place.filename@,
                        q.containers,
                        Some((member.path@, true)),
                        None,
                    ),
                ),
            )
            &&& member.kind@ != "archive"@ && member.previewable ==> row.cells[0].href == Some(
                browse_address(
                    archive_pairs(
                        q.index,
                        place.project@,
                        place.digest@,
                        place.filename@,
                        q.containers,
                        Some((member.path@, false)),
                        None,
                    ),
                ),
            )
            &&& row.cells[1].text == decimal(member.size as nat)
            &&& row.cells[2].text == member.kind@
        }),
{
}

/// The way to a container leads over the index, the project, the file and each container before it.
pub proof fn breadcrumbs_lead_back(route: Seq<char>, place: ArchivePlace, containers: Seq<Seq<char>>, i: int)
    requires
        0 <= i < containers.len(),
    ensures
        ({
            let way = breadcrumbs_of(route, place, containers);
            &&& way.len() == containers.len() + 3
            &&& way[0].label == route
            &&& way[1].label == place.project@
            &&& way[2].label == place.filename@
            &&& way[3 + i].label == containers[i]
            &&& way[3 + i].href == browse_address(
                archive_pairs(
                    route,
                    place.project@,
                    place.digest@,
                    place.filename@,
                    containers.take(i + 1),
                    None,
                    None,
                ),
            )
        }),
{
}

/// A listing shows every member under the name of the innermost container; a member's page shows its text, and leads on
/// exactly where there is more.
pub proof fn archive_pages_show_what_is_there(
    q: BrowseQueryText,
    place: ArchivePlace,
    members: Seq<ArchiveMember>,
    member: Seq<char>,
    chunk: MemberText,
    i: int,
)
    requires
        0 <= i < members.len(),
    ensures
        ({
            let page = listing_page(q, place, members);
            &&& page.title == (if q.containers.len() > 0 {
                q.containers.last()
            } else {
                place.filename@
            })
            &&& page.sections.len() == 1
            &&& page.sections[0] matches SectionText::Table { rows, .. } && rows.len() == members.len() && rows[i]
                == member_row(q, place, members[i])
        }),
        ({
            let page = member_page(q, place, member, chunk);
            &&& page.title == member
            &&& page.sections.len() == 1
            &&& page.sections[0] matches SectionText::Content { text, size, offset, next, .. } && text == chunk.text@ && size
                == Some(chunk.size) && offset == chunk.offset && (next is Some <==> chunk.next_offset is Some)
        }),
{
}

/// The list of an index's projects leads to each of them.
pub proof fn lists_lead_to_each_project(route: Seq<char>, names: Seq<Seq<char>>, i: int)
    requires
        0 <= i < names.len(),
    ensures
        ({
            let page = list_page(route, names);
            &&& page.title == route
            &&& page.sections.len() == 1
            &&& page.sections[0] matches SectionText::Links { links, .. } && links.len() == names.len() && links[i].label
                == names[i] && links[i].href == browse_address(place_pairs(route, Some(names[i])) + Seq::empty())
        }),
{
}

} // verus!
