//! What routing promises: who may write, where a path leads, in which format, and what a replica holds back.
use vstd::prelude::*;

use crate::search::scope::{acyclic, layer_is_lower, IndexEntry, IndexKind};
use crate::serving::access::{
    are_serving, bearer_resource_of, covers_route, grants_something, index_reaches, is_authorization,
    is_bearer_verdict, is_identifying, is_presented, layers_reach_index, position_of, reaching, route_class,
    shows_change, write_position, BasicCredential, Denial, Grant, RouteClass, TokenUse,
};
use crate::serving::finalize::{
    describes, is_finalization, is_published, Finalization, FinalizeDescriptor, FinalizeError, FinalizeFailure,
    FinalizeStep, Lease, StagedIntent,
};
use crate::serving::negotiate::{
    accept_range, claims_after, claims_of_fields, html_specificity, json_specificity, negotiated, quality_parts,
    quality_value, Format, Preference,
};
use crate::serving::project_view::ArtifactPlacement;
use crate::serving::reply::Reply;
use crate::serving::response::{CacheError, DetailPage};
use crate::serving::route::{
    addressed_file, after_legacy_lookup, after_legacy_resolve, after_lookup, after_resolve, after_stream, held,
    is_get_step, is_legacy_step, is_legacy_target, is_requested, is_route, is_simple_project, legacy_path, opened, owned_elsewhere,
    simple_path, GetAction, GetEvent, GetRoute, LegacyEvent, LegacyJsonTarget, PageOutcome, PageStep, RenderedPage,
    Segment, SimpleProject,
};
use crate::store::keys::{key3, UPLOAD_PREFIX};
use crate::store::txn::TxnState;
use crate::store::uploads::PublishedFile;
use crate::store::values::VersionedProvenanceReference;
use crate::text::{
    ascii_lower_text, cut_suffix, decimal_value, digit_value, first_index, first_index_bounds, first_index_is,
    first_index_of_joined, holds, is_digit, opt_text, pieces, without_leading, without_trailing,
};

verus! {

// ---------------------------------------------------------------------------------------------
// Who may write
// ---------------------------------------------------------------------------------------------

/// A write is granted exactly where the index is hosted and its access list has nothing against it. A success is
/// recorded once its project is named; every refusal of a hosted index is recorded as what it is.
pub proof fn writes_need_a_hosted_index_and_a_grant(
    hosted: bool,
    project_named: bool,
    verdict: Option<Denial>,
    r: (Result<(), Reply>, Option<TokenUse>),
)
    requires
        is_authorization(hosted, project_named, verdict, r),
    ensures
        r.0 is Ok <==> hosted && verdict is None,
        r.0 matches Err(answer) ==> answer.status == (if !hosted {
            404u16
        } else if verdict->0 == Denial::Unauthenticated {
            401u16
        } else {
            403u16
        }),
        r.1 == Some(TokenUse::Success) <==> hosted && verdict is None && project_named,
        r.1 matches Some(TokenUse::Denied(denial)) ==> hosted && verdict == Some(denial),
        hosted && verdict is Some ==> r.1 == Some(TokenUse::Denied(verdict->0)),
        !hosted ==> r.1 is None,
{
}

/// A bearer may write under a route exactly where one of its grants grants the action and one of that grant's patterns
/// covers the route.
pub proof fn bearers_write_what_they_are_granted(grants: Seq<Grant>, route: Seq<char>, r: Result<(), Denial>)
    requires
        is_bearer_verdict(grants, route, r),
    ensures
        r is Ok <==> exists|i: int|
            0 <= i < grants.len() && (#[trigger] grants[i]).acts && (if route.len() == 0 {
                grants[i].under_route@.len() > 0
            } else {
                grants[i].under_route@.contains(true)
            }),
        r is Err ==> r == Err::<(), Denial>(Denial::Forbidden),
{
    assert forall|i: int| 0 <= i < grants.len() implies (grants_something(grants[i], route) <==> (
    #[trigger] grants[i]).acts && (if route.len() == 0 {
        grants[i].under_route@.len() > 0
    } else {
        grants[i].under_route@.contains(true)
    })) by {
        let patterns = grants[i].under_route@;
        if grants_something(grants[i], route) {
            let j = choose|j: int| covers_route(grants[i], route, j);
            assert(covers_route(grants[i], route, j));
            if route.len() > 0 {
                assert(patterns[j]);
            }
        }
        if grants[i].acts && route.len() == 0 && patterns.len() > 0 {
            assert(covers_route(grants[i], route, 0));
        }
        if grants[i].acts && patterns.contains(true) {
            let j = choose|j: int| 0 <= j < patterns.len() && patterns[j] == true;
            assert(covers_route(grants[i], route, j));
        }
    }
}

/// A bearer's grants are asked about the project itself where there is no route, and about the project below the route
/// otherwise.
pub proof fn resources_stand_below_their_route(route: Seq<char>, project: Seq<char>)
    ensures
        route.len() == 0 ==> bearer_resource_of(route, project) == project,
        route.len() > 0 ==> bearer_resource_of(route, project) == route + "/"@ + project,
{
    reveal_strlit("/");
    assert("/"@ =~= seq!['/']);
}

/// A token is presented for trusted publishing only where that is on: a bearer token first, and otherwise the password
/// of the user name that stands for a token.
pub proof fn tokens_are_presented_where_trusted(
    trusted_publishing: bool,
    bearer: Option<String>,
    basic: Option<BasicCredential>,
    r: Option<String>,
)
    requires
        is_presented(trusted_publishing, bearer, basic, r),
    ensures
        !trusted_publishing ==> r is None,
        trusted_publishing && bearer is Some ==> r == bearer,
        trusted_publishing && bearer is None ==> (r is Some <==> basic is Some && basic->0.user@ == "__token__"@),
        trusted_publishing && bearer is None && r is Some ==> r->0 == basic->0.password,
{
}

/// A hosted index takes its own writes, a virtual one hands them to its write target, and a cached one takes none.
pub proof fn writes_land_on_a_hosted_index(kind: IndexKind, position: usize, r: usize)
    requires
        is_identifying(kind, position, r),
    ensures
        kind is Hosted ==> write_position(kind, position) == Some(position) && r == position,
        kind is Cached ==> write_position(kind, position) is None && r == position,
        kind matches IndexKind::Virtual { layers, write_target } ==> write_position(kind, position) == write_target && r
            == (match write_target {
            Some(target) => target,
            None => position,
        }),
{
}

/// A sidecar of a file is metadata, any other path of a file or of an inspection an artifact, and every other path a
/// listing.
pub proof fn paths_have_their_class(path: Seq<char>)
    requires
        path.len() > 0 ==> path[0] != '/',
    ensures
        ({
            let sidecar = cut_suffix(path, ".metadata"@) is Some || cut_suffix(path, ".provenance"@) is Some;
            &&& route_class(path) == RouteClass::Metadata <==> holds(path, "/files/"@) && sidecar
            &&& route_class(path) == RouteClass::Artifact <==> (holds(path, "/files/"@) && !sidecar) || (!holds(
                path,
                "/files/"@,
            ) && holds(path, "/inspect/"@))
            &&& route_class(path) == RouteClass::Listing <==> !holds(path, "/files/"@) && !holds(path, "/inspect/"@)
        }),
{
    assert(without_leading(path, '/') == path);
}

// ---------------------------------------------------------------------------------------------
// Which indexes a change shows in
// ---------------------------------------------------------------------------------------------

/// A virtual index reaches another exactly where that is one of its layers, or one of its virtual layers reaches it; no
/// other index reaches any.
pub proof fn layers_are_reached(indexes: Seq<IndexEntry>, position: int, target: int)
    requires
        acyclic(indexes),
        0 <= position < indexes.len(),
    ensures
        !(indexes[position].kind is Virtual) ==> !index_reaches(indexes, position, target),
        indexes[position].kind is Virtual ==> (index_reaches(indexes, position, target) <==> exists|i: int| #![trigger
            indexes[position].kind->layers@[i]]
            0 <= i < indexes[position].kind->layers@.len() && (indexes[position].kind->layers@[i] == target
                || index_reaches(indexes, indexes[position].kind->layers@[i] as int, target))),
{
    if indexes[position].kind is Virtual {
        first_layers_are_reached(indexes, position, indexes[position].kind->layers@.len(), target);
    }
}

proof fn first_layers_are_reached(indexes: Seq<IndexEntry>, position: int, n: nat, target: int)
    requires
        acyclic(indexes),
        0 <= position < indexes.len(),
        indexes[position].kind is Virtual,
        n <= indexes[position].kind->layers@.len(),
    ensures
        layers_reach_index(indexes, position, n, target) <==> exists|i: int| #![trigger indexes[position].kind->layers@[i]]
            0 <= i < n && (indexes[position].kind->layers@[i] == target || index_reaches(
                indexes,
                indexes[position].kind->layers@[i] as int,
                target,
            )),
    decreases n,
{
    if n > 0 {
        first_layers_are_reached(indexes, position, (n - 1) as nat, target);
        layer_is_lower(indexes, position, n - 1);
        let layer = indexes[position].kind->layers@[n - 1];
        if layer == target || index_reaches(indexes, layer as int, target) {
            assert(indexes[position].kind->layers@[n - 1] == layer);
        }
    }
}

/// A change shows in the index it was made under and in every virtual index that reaches that one, and nowhere else.
/// One under a name that no index has shows nowhere.
pub proof fn changes_show_where_they_are_reached(indexes: Seq<IndexEntry>, base: Seq<char>, position: int)
    requires
        0 <= position < indexes.len(),
    ensures
        shows_change(indexes, base, position) ==> exists|i: int|
            0 <= i < indexes.len() && (#[trigger] indexes[i]).name@ == base && (position == i || index_reaches(
                indexes,
                position,
                i,
            )),
        (forall|i: int| 0 <= i < indexes.len() ==> (#[trigger] indexes[i]).name@ != base) ==> !shows_change(
            indexes,
            base,
            position,
        ),
        indexes[position].name@ == base && (forall|i: int| 0 <= i < position ==> (#[trigger] indexes[i]).name@ != base)
            ==> shows_change(indexes, base, position),
{
    names_have_their_position(indexes, base, 0);
}

proof fn names_have_their_position(indexes: Seq<IndexEntry>, name: Seq<char>, n: int)
    requires
        0 <= n <= indexes.len(),
    ensures
        n <= position_of(indexes, name, n) <= indexes.len(),
        position_of(indexes, name, n) < indexes.len() ==> indexes[position_of(indexes, name, n)].name@ == name,
        forall|i: int| n <= i < position_of(indexes, name, n) ==> (#[trigger] indexes[i]).name@ != name,
    decreases indexes.len() - n,
{
    if n < indexes.len() && indexes[n].name@ != name {
        names_have_their_position(indexes, name, n + 1);
    }
}

/// The documents to rebuild for a change are exactly those of the indexes that it shows in.
pub proof fn changed_documents_are_those_that_show_it(
    indexes: Seq<IndexEntry>,
    base: Seq<char>,
    r: Seq<usize>,
    position: usize,
)
    requires
        are_serving(indexes, base, r),
        position < indexes.len(),
        indexes.len() <= usize::MAX,
    ensures
        r.contains(position) <==> shows_change(indexes, base, position as int),
{
    names_have_their_position(indexes, base, 0);
    let changed = position_of(indexes, base, 0);
    if changed < indexes.len() {
        let all = reaching(indexes, changed, indexes.len() as int);
        reaching_are_reached(indexes, changed, indexes.len() as int, position);
        let both = seq![changed as usize] + all;
        if position == changed {
            assert(both[0] == position);
        }
        if all.contains(position) {
            let i = choose|i: int| 0 <= i < all.len() && all[i] == position;
            assert(both[i + 1] == position);
        }
        if both.contains(position) {
            let i = choose|i: int| 0 <= i < both.len() && both[i] == position;
            if i > 0 {
                assert(all[i - 1] == position);
            }
        }
    }
}

proof fn reaching_are_reached(indexes: Seq<IndexEntry>, changed: int, n: int, position: usize)
    requires
        0 <= n <= indexes.len(),
        indexes.len() <= usize::MAX,
    ensures
        reaching(indexes, changed, n).contains(position) <==> position < n && index_reaches(
            indexes,
            position as int,
            changed,
        ),
    decreases n,
{
    if n > 0 {
        reaching_are_reached(indexes, changed, n - 1, position);
        let fewer = reaching(indexes, changed, n - 1);
        let all = reaching(indexes, changed, n);
        if fewer.contains(position) {
            let i = choose|i: int| 0 <= i < fewer.len() && fewer[i] == position;
            assert(all[i] == position);
        }
        if all.len() > fewer.len() {
            assert(all[fewer.len() as int] == (n - 1) as usize);
            if all.contains(position) {
                let i = choose|i: int| 0 <= i < all.len() && all[i] == position;
                if i < fewer.len() {
                    assert(fewer[i] == position);
                }
            }
        }
    }
}

// ---------------------------------------------------------------------------------------------
// Paths
// ---------------------------------------------------------------------------------------------

/// A Simple API path names the segment behind its prefix, and says whether a slash ends it.
pub proof fn simple_paths_name_their_project(segment: Seq<char>)
    requires
        segment.len() > 0,
        !segment.contains('/'),
    ensures
        simple_path("simple/"@ + segment + "/"@) == Some((segment, true)),
        simple_path("simple/"@ + segment) == Some((segment, false)),
{
    reveal_strlit("simple/");
    reveal_strlit("/");
    let bare = "simple/"@ + segment;
    let slashed = "simple/"@ + segment + "/"@;
    assert(bare.subrange(0, 7) =~= "simple/"@);
    assert(slashed.subrange(0, 7) =~= "simple/"@);
    assert(bare.skip(7) =~= segment);
    assert(slashed.skip(7) =~= segment + "/"@);
    let s = segment + "/"@;
    assert(s.subrange(s.len() - 1, s.len() as int) =~= "/"@);
    assert(s.take(s.len() - 1) =~= segment);
    if "/"@.is_suffix_of(segment) {
        assert(segment.subrange(segment.len() - 1, segment.len() as int)[0] == '/');
        assert(segment.contains(segment[segment.len() - 1]));
    }
}

/// A path names a project exactly where its segment decodes to a name that a project may have; a segment that does not
/// decode or is unsafe is refused.
pub proof fn project_paths_are_read(rest: Seq<char>, segment: Segment, r: Result<Option<SimpleProject>, Reply>)
    requires
        is_simple_project(rest, segment, r),
    ensures
        simple_path(rest) is None ==> r == Ok::<Option<SimpleProject>, Reply>(None),
        simple_path(rest) is Some ==> (r is Err <==> !(segment is Good)),
        r matches Err(answer) ==> answer.status == 400,
        simple_path(rest) is Some && segment is Good ==> ((r matches Ok(Some(_))) <==> segment->Good_0.is_project_name),
        r matches Ok(Some(project)) ==> project.normalized@ == segment->Good_0.normalized@ && project.trailing_slash
            == (simple_path(rest)->0).1,
{
}

/// A legacy path names its project.
pub proof fn legacy_paths_name_their_project(project: Seq<char>)
    requires
        !project.contains('/'),
        project != "simple"@ && project != "files"@ && project != "inspect"@,
    ensures
        legacy_path(project + "/json"@) == Some((project, None::<Seq<char>>)),
{
    reveal_strlit("/json");
    let path = project + "/json"@;
    assert(path.last() == 'n');
    assert(without_trailing(path, '/') == path);
    assert(path.subrange(path.len() - 5, path.len() as int) =~= "/json"@);
    assert(path.take(path.len() - 5) =~= project);
    first_index_bounds(project, '/');
    if first_index(project, '/') < project.len() {
        assert(project.contains(project[first_index(project, '/')]));
    }
    assert(path =~= project + seq!['/'] + "/json"@.skip(1));
    paths_below_other_names_are_free(project, "/json"@.skip(1));
}

/// A legacy path of a release names its project and its version.
pub proof fn legacy_paths_name_their_version(project: Seq<char>, version: Seq<char>)
    requires
        !project.contains('/'),
        project != "simple"@ && project != "files"@ && project != "inspect"@,
    ensures
        legacy_path(project + seq!['/'] + version + "/json"@) == Some((project, Some(version))),
{
    reveal_strlit("/json");
    let path = project + seq!['/'] + version + "/json"@;
    let spec_part = project + seq!['/'] + version;
    assert(path.last() == 'n');
    assert(without_trailing(path, '/') == path);
    assert(path.subrange(path.len() - 5, path.len() as int) =~= "/json"@);
    assert(path.take(path.len() - 5) =~= spec_part);
    first_index_of_joined(project, '/', version);
    assert(path =~= project + seq!['/'] + (version + "/json"@));
    paths_below_other_names_are_free(project, version + "/json"@);
}

/// No other route owns a path whose first segment is not its name.
proof fn paths_below_other_names_are_free(first: Seq<char>, rest: Seq<char>)
    requires
        !first.contains('/'),
        first != "simple"@ && first != "files"@ && first != "inspect"@,
    ensures
        !owned_elsewhere(first + seq!['/'] + rest),
{
    reveal_strlit("simple/");
    reveal_strlit("files/");
    reveal_strlit("inspect/");
    reveal_strlit("simple");
    reveal_strlit("files");
    reveal_strlit("inspect");
    assert("simple"@ + seq!['/'] =~= "simple/"@);
    assert("files"@ + seq!['/'] =~= "files/"@);
    assert("inspect"@ + seq!['/'] =~= "inspect/"@);
    other_names_are_no_prefix(first, rest, "simple"@);
    other_names_are_no_prefix(first, rest, "files"@);
    other_names_are_no_prefix(first, rest, "inspect"@);
}

/// A path whose first segment is another one does not begin with a name and a slash.
proof fn other_names_are_no_prefix(first: Seq<char>, rest: Seq<char>, name: Seq<char>)
    requires
        !first.contains('/'),
        !name.contains('/'),
        first != name,
    ensures
        !(name + seq!['/']).is_prefix_of(first + seq!['/'] + rest),
{
    let whole = first + seq!['/'] + rest;
    let prefix = name + seq!['/'];
    if prefix.is_prefix_of(whole) {
        first_index_of_joined(first, '/', rest);
        assert(whole =~= name + seq!['/'] + whole.skip(prefix.len() as int)) by {
            assert(whole.subrange(0, prefix.len() as int) =~= prefix);
            assert(whole =~= whole.subrange(0, prefix.len() as int) + whole.skip(prefix.len() as int));
        }
        first_index_of_joined(name, '/', whole.skip(prefix.len() as int));
        assert(first =~= name);
    }
}

/// A legacy path asks for its project, and for its version where it has one; it is refused where a segment does not
/// decode or is unsafe.
pub proof fn legacy_targets_are_read(
    rest: Seq<char>,
    project: Segment,
    version: Option<Segment>,
    r: Result<Option<LegacyJsonTarget>, Reply>,
)
    requires
        is_legacy_target(rest, project, version, r),
    ensures
        legacy_path(rest) is None ==> r == Ok::<Option<LegacyJsonTarget>, Reply>(None),
        legacy_path(rest) is Some ==> (r is Err <==> !(project is Good) || (version is Some && !(version->0 is Good))),
        r matches Err(answer) ==> answer.status == 400,
        r matches Ok(Some(target)) ==> target.project@ == project->Good_0.normalized@ && (target.version is Some <==> version
            is Some) && (version matches Some(segment) ==> target.version->0@ == segment->Good_0.text@),
{
}

/// A file path addresses the filename behind its digest.
pub proof fn file_paths_name_their_file(digest: Seq<char>, filename: Seq<char>)
    requires
        !digest.contains('/'),
        !filename.contains('/'),
    ensures
        addressed_file("files/"@ + digest + "/"@ + filename) == Some(filename),
        addressed_file("inspect/"@ + digest + "/"@ + filename) == Some(filename),
{
    reveal_strlit("files/");
    reveal_strlit("inspect/");
    reveal_strlit("/");
    assert("/"@ =~= seq!['/']);
    let file = "files/"@ + digest + "/"@ + filename;
    let inspect = "inspect/"@ + digest + "/"@ + filename;
    let target = digest + seq!['/'] + filename;
    assert(file.subrange(0, 6) =~= "files/"@);
    assert(inspect.subrange(0, 8) =~= "inspect/"@);
    assert(file.skip(6) =~= target);
    assert(inspect.skip(8) =~= target);
    if "files/"@.is_prefix_of(inspect) {
        assert(inspect.subrange(0, 6)[0] == 'i');
    }
    first_index_of_joined(digest, '/', filename);
    reveal_with_fuel(pieces, 3);
    first_index_bounds(filename, '/');
    let i = first_index(filename, '/');
    if i < filename.len() {
        assert(filename.contains(filename[i]));
    }
    assert(target.skip(first_index(target, '/') + 1) == filename);
    assert(pieces(filename, '/') =~= seq![filename]);
    assert(pieces(target, '/')[1] == filename);
}

/// A request addresses the project that its path names, and otherwise the one that its file belongs to.
pub proof fn requests_address_one_project(
    legacy: Result<Option<LegacyJsonTarget>, Reply>,
    simple: Result<Option<SimpleProject>, Reply>,
    file_project: Option<String>,
    r: Option<String>,
)
    requires
        is_requested(legacy, simple, file_project, r),
    ensures
        legacy matches Ok(Some(target)) ==> opt_text(r) == Some(target.project@),
        !(legacy matches Ok(Some(_))) ==> (simple matches Ok(Some(project)) ==> opt_text(r) == Some(project.normalized@)),
        !(legacy matches Ok(Some(_))) && !(simple matches Ok(Some(_))) ==> opt_text(r) == opt_text(file_project),
{
}

/// A path leads where it says: to the list, to a project, to a file, to an inspection or to a legacy document; a path
/// that cannot be read is refused, and any other is not found.
pub proof fn paths_lead_where_they_say(
    rest: Seq<char>,
    legacy: Result<Option<LegacyJsonTarget>, Reply>,
    simple: Result<Option<SimpleProject>, Reply>,
    r: GetRoute,
)
    requires
        is_route(rest, legacy, simple, r),
    ensures
        legacy matches Err(answer) ==> r == GetRoute::Refused(answer),
        legacy matches Ok(Some(target)) ==> r == GetRoute::LegacyJson(target),
        (legacy matches Ok(None)) && rest == "simple/"@ ==> r is List,
        (legacy matches Ok(None)) && rest == "simple"@ ==> r is ListRedirect,
        (legacy matches Ok(None)) && rest != "simple"@ && rest != "simple/"@ ==> {
            &&& simple matches Err(answer) ==> r == GetRoute::Refused(answer)
            &&& simple matches Ok(Some(project)) ==> r == GetRoute::Project(project)
            &&& (simple matches Ok(None)) ==> match r {
                GetRoute::File(file) => rest == "files/"@ + file@,
                GetRoute::Inspect(file) => rest == "inspect/"@ + file@,
                GetRoute::NotFound => !"files/"@.is_prefix_of(rest) && !"inspect/"@.is_prefix_of(rest),
                _ => false,
            }
        },
{
    reveal_strlit("simple");
    reveal_strlit("simple/");
    assert("simple"@.len() != "simple/"@.len());
    if "files/"@.is_prefix_of(rest) {
        assert(rest =~= "files/"@ + rest.skip("files/"@.len() as int));
    }
    if "inspect/"@.is_prefix_of(rest) {
        assert(rest =~= "inspect/"@ + rest.skip("inspect/"@.len() as int));
    }
}

// ---------------------------------------------------------------------------------------------
// Pages, step by step
// ---------------------------------------------------------------------------------------------

/// A project page at its canonical address is streamed as JSON or looked up as HTML, as the client accepts; one that
/// accepts neither is told so, and any other address is redirected.
pub proof fn pages_open_in_the_accepted_format(project: SimpleProject, format: Option<Format>, step: PageStep)
    requires
        opened(project, format, step),
    ensures
        !project.trailing_slash <==> step is Redirect,
        step matches PageStep::Redirect(tail) ==> tail@ == "simple/"@ + project.normalized@ + "/"@,
        project.trailing_slash && format == Some(Format::Json) ==> step is Stream,
        project.trailing_slash && format == Some(Format::Html) ==> step is ReadRendered,
        project.trailing_slash && format is None ==> (step matches PageStep::Answer(answer) && answer.status == 406),
{
}

/// A streamed page is served, a project that is not there is not found, an upstream page out of form is reported, and
/// every other failure falls back to resolving the page.
pub proof fn streams_are_served_or_fall_back(
    outcome: PageOutcome,
    index: Seq<char>,
    project: Seq<char>,
    action: Seq<char>,
    step: PageStep,
)
    requires
        after_stream(outcome, index, project, action, step),
    ensures
        outcome is Page ==> (step matches PageStep::ServePage(answer) && answer.status == 200),
        outcome is NotFound ==> (step matches PageStep::Answer(answer) && answer.status == 404),
        outcome is Fallback ==> step is Resolve,
        outcome matches PageOutcome::Failed(error) ==> (if error.kind is Simple {
            step matches PageStep::Answer(answer) && answer.status == 502
        } else {
            step is Resolve
        }),
{
}

/// A rendering that is there is served, one that is not is resolved, and a failure is answered. A resolved page is
/// served, and its rendering kept unless revoked files were taken from it.
pub proof fn renderings_are_served_or_resolved(
    found: Result<Option<RenderedPage>, CacheError>,
    resolved: Result<Option<DetailPage>, CacheError>,
    html: Option<Seq<char>>,
    index: Seq<char>,
    project: Seq<char>,
    action: Seq<char>,
    looked: PageStep,
    rendered: PageStep,
)
    requires
        after_lookup(found, index, project, action, looked),
        after_resolve(resolved, html, index, project, action, rendered),
    ensures
        found matches Ok(Some(page)) ==> (looked matches PageStep::Answer(answer) && answer.status == 200 && answer.body@
            == page.body@),
        (found matches Ok(None)) ==> looked is Resolve,
        found is Err ==> (looked matches PageStep::Answer(answer) && answer.status >= 400),
        html matches Some(body) ==> (resolved matches Ok(Some(page)) ==> (rendered matches PageStep::Rendered {
            answer,
            keep,
        } && answer.status == 200 && answer.body@ == body && (keep <==> !page.revoked_files_removed))),
        html is None ==> (resolved matches Ok(Some(page)) ==> (rendered matches PageStep::Answer(answer) && answer.status
            == 200)),
        (resolved matches Ok(None)) ==> (rendered matches PageStep::Answer(answer) && answer.status == 404),
        resolved is Err ==> (rendered matches PageStep::Answer(answer) && answer.status >= 400),
{
}

/// A legacy document goes the same way: a kept rendering is served, a resolved page that has the release is served and
/// kept unless revoked files were taken from it, and one that lacks it is not found.
pub proof fn legacy_documents_are_served_or_not_found(
    event: LegacyEvent,
    index: Seq<char>,
    target: LegacyJsonTarget,
    action: Seq<char>,
    step: PageStep,
)
    requires
        is_legacy_step(event, index, target, action, step),
    ensures
        event matches LegacyEvent::LookedUp(Ok(Some(page))) ==> (step matches PageStep::Answer(answer) && answer.status
            == 200 && answer.body@ == page.body@),
        (event matches LegacyEvent::LookedUp(Ok(None))) ==> step is Resolve,
        (event matches LegacyEvent::LookedUp(Err(_))) ==> (step matches PageStep::Answer(answer) && answer.status >= 400),
        event matches LegacyEvent::Resolved(Ok(Some(page)), Some(body)) ==> (step matches PageStep::Rendered {
            answer,
            keep,
        } && answer.status == 200 && answer.body@ == body@ && (keep <==> !page.revoked_files_removed)),
        (event matches LegacyEvent::Resolved(Ok(Some(_)), None)) ==> (step matches PageStep::Answer(answer)
            && answer.status == 404),
        (event matches LegacyEvent::Resolved(Ok(None), _)) ==> (step matches PageStep::Answer(answer) && answer.status
            == 404),
        (event matches LegacyEvent::Resolved(Err(_), _)) ==> (step matches PageStep::Answer(answer) && answer.status
            >= 400),
{
}

/// The two ways to a legacy document agree on what a lookup and a resolution lead to.
pub proof fn legacy_steps_agree(
    found: Result<Option<RenderedPage>, CacheError>,
    resolved: Result<Option<DetailPage>, CacheError>,
    body: Option<Seq<char>>,
    index: Seq<char>,
    target: LegacyJsonTarget,
    action: Seq<char>,
    looked: PageStep,
    rendered: PageStep,
)
    requires
        after_legacy_lookup(found, index, target.project@, action, looked),
        after_legacy_resolve(resolved, body, index, target, action, rendered),
    ensures
        is_legacy_step(LegacyEvent::LookedUp(found), index, target, action, looked),
        resolved matches Ok(Some(page)) ==> (body is Some ==> (rendered matches PageStep::Rendered { answer, keep }
            && answer.status == 200 && answer.body@ == body->0 && (keep <==> !page.revoked_files_removed))),
        (resolved matches Ok(Some(_))) && body is None ==> (rendered matches PageStep::Answer(answer) && answer.status
            == 404),
{
}

/// Every step of a `GET` leads to what its path asks for.
pub proof fn gets_lead_to_what_they_ask_for(
    event: GetEvent,
    index: Seq<char>,
    project: Seq<char>,
    action: Seq<char>,
    r: GetAction,
)
    requires
        is_get_step(event, index, project, action, r),
    ensures
        event matches GetEvent::Routed(GetRoute::File(file), _) ==> r == GetAction::File(file),
        event matches GetEvent::Routed(GetRoute::Inspect(file), _) ==> r == GetAction::Inspect(file),
        event matches GetEvent::Routed(GetRoute::LegacyJson(target), _) ==> r == GetAction::LegacyJson(target),
        (event matches GetEvent::Routed(GetRoute::ListRedirect, _)) ==> r is ListRedirect,
        event matches GetEvent::Routed(GetRoute::List, Some(format)) ==> r == GetAction::List(format),
        (event matches GetEvent::Routed(GetRoute::List, None)) ==> (r matches GetAction::Page(PageStep::Answer(answer))
            && answer.status == 406),
        (event matches GetEvent::Routed(GetRoute::NotFound, _)) ==> (r matches GetAction::Page(PageStep::Answer(answer))
            && answer.status == 404),
        event matches GetEvent::Routed(GetRoute::Refused(answer), _) ==> r == GetAction::Page(PageStep::Answer(answer)),
        event matches GetEvent::Routed(GetRoute::Project(found), format) ==> (r matches GetAction::Page(step) && opened(
            found,
            format,
            step,
        )),
        event matches GetEvent::Streamed(outcome) ==> (r matches GetAction::Page(step) && after_stream(
            outcome,
            index,
            project,
            action,
            step,
        )),
        event matches GetEvent::LookedUp(found) ==> (r matches GetAction::Page(step) && after_lookup(
            found,
            index,
            project,
            action,
            step,
        )),
        event matches GetEvent::Resolved(resolved, html) ==> (r matches GetAction::Page(step) && after_resolve(
            resolved,
            opt_text(html),
            index,
            project,
            action,
            step,
        )),
{
}

/// A replica holds a hosted page back exactly where it stands past the frontier, a virtual one that shows hosted
/// content exactly where the whole store is not known to be readable, and a cached one never.
pub proof fn replicas_hold_back_what_is_not_readable(
    read_only: bool,
    frontier: u64,
    kind: IndexKind,
    layers_hosted: bool,
    current_serial: Option<u64>,
    last_serial: Option<u64>,
)
    ensures
        ({
            let h = held(read_only, frontier, kind, layers_hosted, current_serial, last_serial);
            &&& !read_only ==> !h
            &&& kind is Cached ==> !h
            &&& read_only && kind is Hosted ==> (h <==> (last_serial matches Some(serial) && serial > frontier))
            &&& read_only && kind is Virtual ==> (h <==> layers_hosted && !(current_serial matches Some(serial) && serial
                <= frontier))
        }),
{
}

// ---------------------------------------------------------------------------------------------
// Formats
// ---------------------------------------------------------------------------------------------

/// A claim gives way to a more specific one, and to a better one that is as specific, and to no other.
pub proof fn the_stronger_claim_stands(p: Preference, specificity: u8, quality: u16)
    ensures
        ({
            let q = p.considered(specificity, quality);
            &&& specificity > p.specificity ==> q.specificity == specificity && q.quality == quality
            &&& specificity < p.specificity ==> q == p
            &&& specificity == p.specificity ==> q.specificity == p.specificity && q.quality == (if quality > p.quality {
                quality
            } else {
                p.quality
            })
        }),
{
}

/// The order in which claims are made does not matter.
pub proof fn claims_come_in_any_order(c: (Preference, Preference), a: Seq<char>, b: Seq<char>)
    ensures
        claims_after(claims_after(c, a), b) == claims_after(claims_after(c, b), a),
{
}

/// A client is answered in JSON exactly where its best claim on JSON is better than that on HTML.
pub proof fn json_is_chosen_where_it_is_better(fields: Seq<Seq<char>>)
    ensures
        negotiated(fields) == Format::Json <==> claims_of_fields(fields, fields.len() as int).0.quality > claims_of_fields(
            fields,
            fields.len() as int,
        ).1.quality,
{
}

/// The media types of each format are told by their names, whatever their letter case: its own types most specifically,
/// then the wildcards that cover them.
pub proof fn media_types_are_told_by_their_names(media: Seq<char>)
    ensures
        json_specificity(media) == Some(2u8) <==> ascii_lower_text(media) == ascii_lower_text("application/json"@)
            || ascii_lower_text(media) == ascii_lower_text("application/vnd.pypi.simple.v1+json"@) || ascii_lower_text(media)
            == ascii_lower_text("application/vnd.pypi.simple.latest+json"@),
        html_specificity(media) == Some(2u8) <==> ascii_lower_text(media) == ascii_lower_text("text/html"@)
            || ascii_lower_text(media) == ascii_lower_text("application/vnd.pypi.simple.v1+html"@) || ascii_lower_text(media)
            == ascii_lower_text("application/vnd.pypi.simple.latest+html"@),
        json_specificity(media) == Some(1u8) ==> ascii_lower_text(media) == ascii_lower_text("application/*"@),
        html_specificity(media) == Some(1u8) ==> ascii_lower_text(media) == ascii_lower_text("application/*"@)
            || ascii_lower_text(media) == ascii_lower_text("text/*"@),
        json_specificity(media) == Some(0u8) ==> ascii_lower_text(media) == ascii_lower_text("*/*"@),
        ascii_lower_text(media) == ascii_lower_text("*/*"@) ==> json_specificity(media) is Some && html_specificity(media)
            is Some,
        ascii_lower_text(media) == ascii_lower_text("application/*"@) ==> json_specificity(media) is Some
            && html_specificity(media) is Some,
{
}

/// A range claims each format that it covers, with its quality; one that asks for a charset claims HTML alone. A piece
/// that is no range claims nothing.
pub proof fn ranges_claim_what_they_cover(c: (Preference, Preference), piece: Seq<char>)
    ensures
        accept_range(piece) is None ==> claims_after(c, piece) == c,
        accept_range(piece) matches Some(range) ==> {
            let after = claims_after(c, piece);
            &&& json_specificity(range.media) is None || range.utf8 ==> after.0 == c.0
            &&& html_specificity(range.media) is None ==> after.1 == c.1
            &&& json_specificity(range.media) is Some && !range.utf8 && c.0 == Preference::nothing() ==> after.0.quality
                == range.quality
            &&& html_specificity(range.media) is Some && c.1 == Preference::nothing() ==> after.1.quality == range.quality
        },
{
}

/// A quality of nothing or of one is written without decimals, and a fraction with up to three, each worth a tenth of
/// the one before.
pub proof fn qualities_are_thousandths(a: char, b: char, c: char)
    requires
        is_digit(a),
        is_digit(b),
        is_digit(c),
    ensures
        quality_value(seq!['1']) == Some(1000u16),
        quality_value(seq!['0']) == Some(0u16),
        quality_value(seq!['0', '.', a]) == Some((digit_value(a) * 100) as u16),
        quality_value(seq!['0', '.', a, b]) == Some((digit_value(a) * 100 + digit_value(b) * 10) as u16),
        quality_value(seq!['0', '.', a, b, c]) == Some((digit_value(a) * 100 + digit_value(b) * 10 + digit_value(c)) as u16),
{
    first_index_is(seq!['1'], '.', 1);
    first_index_is(seq!['0'], '.', 1);
    first_index_is(seq!['0', '.', a], '.', 1);
    first_index_is(seq!['0', '.', a, b], '.', 1);
    first_index_is(seq!['0', '.', a, b, c], '.', 1);
    reveal_with_fuel(decimal_value, 4);
    assert(seq!['0', '.', a].take(1) =~= seq!['0']);
    assert(seq!['0', '.', a].skip(2) =~= seq![a]);
    assert(seq!['0', '.', a, b].take(1) =~= seq!['0']);
    assert(seq!['0', '.', a, b].skip(2) =~= seq![a, b]);
    assert(seq!['0', '.', a, b, c].take(1) =~= seq!['0']);
    assert(seq!['0', '.', a, b, c].skip(2) =~= seq![a, b, c]);
    assert(seq![a, b, c].drop_last() =~= seq![a, b]);
    assert(seq![a, b].drop_last() =~= seq![a]);
    assert(seq![a].drop_last() =~= Seq::<char>::empty());
    assert(decimal_value(Seq::<char>::empty()) == 0);
    assert(decimal_value(seq![a]) == digit_value(a));
    assert(decimal_value(seq![a, b]) == digit_value(a) * 10 + digit_value(b));
    assert(decimal_value(seq![a, b, c]) == digit_value(a) * 100 + digit_value(b) * 10 + digit_value(c));
}

/// A quality is at most one.
pub proof fn qualities_are_at_most_one(value: Seq<char>)
    requires
        quality_value(value) is Some,
        quality_parts(value).0 == seq!['1'],
    ensures
        quality_value(value) == Some(1000u16),
        forall|i: int| 0 <= i < quality_parts(value).1.len() ==> #[trigger] quality_parts(value).1[i] == '0',
{
    assert(seq!['1'][0] != seq!['0'][0]);
}

// ---------------------------------------------------------------------------------------------
// Finalizing
// ---------------------------------------------------------------------------------------------

/// An admitted upload is published exactly where it is staged, was not published before, is what was admitted, has
/// arrived, is still permitted, and its home may write. What was published before is replayed as it was.
pub proof fn uploads_are_finalized_once_nothing_stands_against_it(
    staged: Option<StagedIntent>,
    outcome: Option<Vec<u8>>,
    descriptor: FinalizeDescriptor,
    placement: Option<ArtifactPlacement>,
    authorized: bool,
    lease: Lease,
    ownership: bool,
    r: Result<FinalizeStep, FinalizeError>,
)
    requires
        is_finalization(staged, outcome, descriptor, placement, authorized, lease, ownership, r),
    ensures
        (r matches Ok(FinalizeStep::Publish)) <==> {
            &&& staged matches Some(intent) && descriptor.artifact_sha256@ == intent.digest@ && descriptor.artifact_size
                == intent.size
            &&& outcome is None
            &&& placement matches Some(place) && place.availability is Local
            &&& authorized
            &&& lease == Lease::Held || (lease == Lease::Absent && !ownership)
        },
        staged is Some ==> (outcome matches Some(response) ==> r == Ok::<FinalizeStep, FinalizeError>(
            FinalizeStep::Done(Finalization::Replayed { response }),
        )),
        staged is None ==> r is Err,
        r matches Err(FinalizeError::Rejected(FinalizeFailure::Unauthorized)) ==> !authorized,
        r matches Err(FinalizeError::Rejected(FinalizeFailure::Fenced)) ==> lease == Lease::Failed || (lease
            == Lease::Absent && ownership),
{
}

/// A finalized upload leaves its record in the store where the filename was free, leaves a filename that is taken as it
/// is, and writes nothing once its lease has lapsed.
pub proof fn finalized_uploads_are_read_back(
    was: TxnState,
    outbox: bool,
    descriptor: FinalizeDescriptor,
    python_tag: Seq<char>,
    decoded: Option<VersionedProvenanceReference>,
    lapsed: bool,
    now: TxnState,
    r: Result<Vec<Vec<u8>>, FinalizeError>,
)
    requires
        is_published(was, outbox, descriptor, python_tag, decoded, lapsed, now, r),
    ensures
        lapsed ==> now == was && r == Err::<Vec<Vec<u8>>, FinalizeError>(FinalizeError::Rejected(FinalizeFailure::Fenced)),
        r is Err ==> now == was,
        ({
            let key = key3(UPLOAD_PREFIX@, descriptor.index_name@, descriptor.normalized@, descriptor.filename@);
            &&& r is Ok && was.row(key) is Some ==> now == was
            &&& r is Ok && was.row(key) is None ==> now.row(key) == Some(descriptor.record@)
        }),
{
    if !lapsed {
        let file = choose|file: PublishedFile| #[trigger]
            describes(descriptor, python_tag, file) && {
                let upload = key3(UPLOAD_PREFIX@, file.index@, file.normalized@, file.filename@);
                let provenance = crate::store::keys::key4(
                    crate::store::keys::PROVENANCE_PREFIX@,
                    file.index@,
                    file.normalized@,
                    file.artifact_sha256@,
                    file.filename@,
                );
                match crate::store::uploads::reference_at(
                    was,
                    provenance,
                    crate::store::values::decoded_reference(decoded),
                ) {
                    Err(error) => r matches Err(FinalizeError::Store(e)) && e@ == error && now == was,
                    Ok(_) => if was.row(upload) is Some {
                        r matches Ok(journal) && journal@.len() == 0 && now == was
                    } else {
                        match was.file_published(outbox, file, None) {
                            Err(error) => r matches Err(FinalizeError::Store(e)) && e@ == error && now == was,
                            Ok(done) => r matches Ok(journal) && now == done.state && crate::store::txn::byte_seqs(journal@)
                                == done.journal,
                        }
                    },
                }
            };
        assert(describes(descriptor, python_tag, file));
        if was.file_published(outbox, file, None) is Ok {
            crate::store::publish_laws::published_files_read_back(was, outbox, file, None);
        }
    }
}

} // verus!
