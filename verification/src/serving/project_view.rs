//! A project as its page shows it.
use vstd::prelude::*;

use crate::collections::TextMap;
use crate::digest::{is_digest, valid_digest};
use crate::outside::{
    is_prerelease, is_version, order_versions, quoted, quoted_text, version_order, version_prerelease, version_valid,
    VersionOrder,
};
use crate::search::scope::{acyclic, height_of, layer_is_lower, IndexEntry, IndexKind};
use crate::serving::page_model::{action_texts, ActionText, UiAction, UiActionMethod};
use crate::text::{
    before, before_irreflexive, before_total, before_transitive, chars_of, opt_str, opt_text, replace, replaced,
    text_before, text_eq, texts,
};

verus! {

/// Where a file's bytes came from.
#[derive(Debug, Clone, Copy, PartialEq, Eq, Structural)]
pub enum ArtifactSource {
    Hosted,
    Proxy,
    Generated,
}

/// Where a file's bytes are.
#[derive(Debug, Clone, Copy, PartialEq, Eq, Structural)]
pub enum ByteAvailability {
    Local,
    RemoteOnly,
    Unavailable,
}

/// Where a file came from and where it is.
#[derive(Debug, Clone, Copy, PartialEq, Eq, Structural)]
pub struct ArtifactPlacement {
    pub source: ArtifactSource,
    pub availability: ByteAvailability,
}

/// The source and availability to report for a file.
pub open spec fn placement_of(hosted: bool, placement: Option<ArtifactPlacement>) -> ArtifactPlacement {
    if hosted {
        if placement is Some && (placement->0).source is Hosted {
            placement->0
        } else {
            ArtifactPlacement { source: ArtifactSource::Hosted, availability: ByteAvailability::Local }
        }
    } else {
        match placement {
            Some(placement) => placement,
            None => ArtifactPlacement { source: ArtifactSource::Proxy, availability: ByteAvailability::RemoteOnly },
        }
    }
}

/// The source and availability to report for a file, given whether an upload record already establishes that
/// this node wrote its bytes.
///
/// A record is consulted to demote that answer, never to establish it, because a missing record is no
/// observation at all. A record left by a mirror of the same bytes describes that mirror, not this upload.
pub fn resolve_file_placement(hosted: bool, placement: Option<ArtifactPlacement>) -> (r: ArtifactPlacement)
    ensures
        r == placement_of(hosted, placement),
{
    if hosted {
        return match placement {
            Some(placement) => {
                if placement.source == ArtifactSource::Hosted {
                    placement
                } else {
                    ArtifactPlacement { source: ArtifactSource::Hosted, availability: ByteAvailability::Local }
                }
            },
            None => ArtifactPlacement { source: ArtifactSource::Hosted, availability: ByteAvailability::Local },
        };
    }
    match placement {
        Some(placement) => placement,
        None => ArtifactPlacement { source: ArtifactSource::Proxy, availability: ByteAvailability::RemoteOnly },
    }
}

/// A hosted file is never reported as a mirror's, whatever is recorded of its bytes.
pub proof fn hosted_files_stay_hosted(placement: Option<ArtifactPlacement>)
    ensures
        placement_of(true, placement).source is Hosted,
{
}

/// What is special about a release or a file.
pub struct LifecycleView {
    pub label: String,
    pub reasons: Vec<String>,
}

/// How an attestation's subject compares with the file.
#[derive(Debug, Clone, Copy, PartialEq, Eq, Structural)]
pub enum SubjectMatch {
    Matched,
    Mismatched,
    Unknown,
}

/// One attestation.
pub struct AttestationView {
    pub predicate_type: Option<String>,
    pub subject: SubjectMatch,
}

/// Who vouches for a provenance document.
#[derive(Debug, Clone, Copy, PartialEq, Eq, Structural)]
pub enum ProvenanceSource {
    Hosted,
    Mirrored,
}

/// A file's provenance.
pub struct ProvenanceView {
    pub source: ProvenanceSource,
    pub attestations: Vec<AttestationView>,
    pub malformed: bool,
}

/// Whether `r` is the provenance panel of a file.
pub open spec fn is_provenance_view(
    advertised: bool,
    hosted: bool,
    attestations: Option<Vec<AttestationView>>,
    r: Option<ProvenanceView>,
) -> bool {
    match r {
        None => !advertised,
        Some(view) => advertised && if hosted {
            view.source is Hosted && view.malformed == (attestations is None) && view.attestations@ == (
            match attestations {
                Some(list) => list@,
                None => Seq::empty(),
            })
        } else {
            view.source is Mirrored && !view.malformed && view.attestations@.len() == 0
        },
    }
}

/// The provenance panel of a file, or nothing when it advertises none. A mirrored file's is an upstream
/// claim; a hosted document that cannot be read is reported as malformed rather than hidden, so the page
/// never implies that an advertised attestation is absent.
pub fn provenance_detail(advertised: bool, hosted: bool, attestations: Option<Vec<AttestationView>>) -> (r: Option<
    ProvenanceView,
>)
    ensures
        is_provenance_view(advertised, hosted, attestations, r),
{
    if !advertised {
        return None;
    }
    if !hosted {
        return Some(
            ProvenanceView { source: ProvenanceSource::Mirrored, attestations: Vec::new(), malformed: false },
        );
    }
    match attestations {
        Some(attestations) => Some(
            ProvenanceView { source: ProvenanceSource::Hosted, attestations, malformed: false },
        ),
        None => {
            let attestations: Vec<AttestationView> = Vec::new();
            assert(attestations@ =~= Seq::<AttestationView>::empty());
            Some(ProvenanceView { source: ProvenanceSource::Hosted, attestations, malformed: true })
        },
    }
}

/// A file on a project's page.
pub struct FileView {
    pub filename: String,
    pub sha256: String,
    /// The release it belongs to.
    pub release: Option<String>,
    pub size: Option<u64>,
    pub upload_time: Option<String>,
    pub placement: ArtifactPlacement,
    /// Where it was mirrored from.
    pub upstream: Option<String>,
    pub lifecycle: Option<LifecycleView>,
    pub has_metadata: bool,
    pub provenance_detail: Option<ProvenanceView>,
    pub browsable: bool,
}

/// A release on a project's page.
pub struct ReleaseView {
    pub version: String,
    pub lifecycle: Option<LifecycleView>,
    pub actions: Vec<UiAction>,
}

/// A project's status.
pub struct StatusView {
    pub marker: String,
    pub reason: Option<String>,
}

/// A project on its page.
pub struct ProjectView {
    pub name: String,
    pub status: Option<StatusView>,
    pub versions: Vec<ReleaseView>,
    pub files: Vec<FileView>,
    pub client_command: Option<String>,
    pub actions: Vec<UiAction>,
}

/// A rendered description.
pub struct RenderedDescription {
    pub html: String,
    pub notice: Option<String>,
}

/// A block of metadata.
pub enum MetadataBlock {
    KeyValue { label: String, value: String },
    Chips { label: String, values: Vec<String> },
    Links { label: String, links: Vec<(String, String)> },
    Groups { label: String, groups: Vec<(String, Vec<String>)> },
}

/// A project's metadata on its page.
pub struct MetadataView {
    pub version: Option<String>,
    pub summary: Option<String>,
    pub description: Option<RenderedDescription>,
    pub blocks: Vec<MetadataBlock>,
}

// ---------------------------------------------------------------------------------------------
// Placement
// ---------------------------------------------------------------------------------------------

/// A file whose placement is resolved: a hosted one names no upstream.
pub open spec fn placed(
    before_file: FileView,
    after: FileView,
    hosted: bool,
    placement: Option<ArtifactPlacement>,
    upstream: Option<Seq<char>>,
) -> bool {
    after == (FileView {
        placement: placement_of(hosted, placement),
        upstream: after.upstream,
        ..before_file
    }) && opt_text(after.upstream) == (if hosted {
        None
    } else {
        upstream
    })
}

/// Resolve where a file came from and where it is. A hosted upload shadows a mirrored file of its name, so
/// membership of the hosted layer forces the source over any stale record.
pub fn apply_placement(file: &mut FileView, hosted: bool, placement: Option<ArtifactPlacement>, upstream: Option<String>)
    ensures
        placed(*old(file), *final(file), hosted, placement, opt_text(upstream)),
{
    file.upstream = if hosted {
        None
    } else {
        upstream
    };
    file.placement = resolve_file_placement(hosted, placement);
}

/// The layer that published each filename, once a layer's own filenames are added: the first layer to claim
/// a filename keeps it.
pub open spec fn layer_claims(
    names: Map<Seq<char>, Seq<char>>,
    layer: Seq<char>,
    filenames: Set<Seq<char>>,
) -> Map<Seq<char>, Seq<char>> {
    Map::new(
        |f: Seq<char>| names.contains_key(f) || filenames.contains(f),
        |f: Seq<char>|
            if names.contains_key(f) {
                names[f]
            } else {
                layer
            },
    )
}

/// The map as texts.
pub open spec fn claim_texts(names: Map<Seq<char>, String>) -> Map<Seq<char>, Seq<char>> {
    crate::simple::file::text_values(names)
}

/// The layer that published each filename, through the index at `position` and its layers in their order.
pub open spec fn claims_through(
    indexes: Seq<IndexEntry>,
    uploads: Seq<Set<Seq<char>>>,
    position: int,
    names: Map<Seq<char>, Seq<char>>,
) -> Map<Seq<char>, Seq<char>>
    decreases height_of(indexes, position), 1nat, 0nat,
{
    if !acyclic(indexes) || !(0 <= position < indexes.len()) {
        names
    } else {
        match indexes[position].kind {
            IndexKind::Hosted => layer_claims(names, indexes[position].name@, uploads[position]),
            IndexKind::Cached => names,
            IndexKind::Virtual { layers, .. } => claims_through_layers(
                indexes,
                uploads,
                position,
                layers@.len(),
                names,
            ),
        }
    }
}

/// The layer that published each filename, through the first `n` layers of a virtual index.
pub open spec fn claims_through_layers(
    indexes: Seq<IndexEntry>,
    uploads: Seq<Set<Seq<char>>>,
    position: int,
    n: nat,
    names: Map<Seq<char>, Seq<char>>,
) -> Map<Seq<char>, Seq<char>>
    decreases height_of(indexes, position), 0nat, n,
    when acyclic(indexes) && 0 <= position < indexes.len() && indexes[position].kind is Virtual && n
        <= indexes[position].kind->layers@.len()
    via claims_descend
{
    if n == 0 {
        names
    } else {
        claims_through(
            indexes,
            uploads,
            indexes[position].kind->layers@[n - 1] as int,
            claims_through_layers(indexes, uploads, position, (n - 1) as nat, names),
        )
    }
}

#[via_fn]
proof fn claims_descend(
    indexes: Seq<IndexEntry>,
    uploads: Seq<Set<Seq<char>>>,
    position: int,
    n: nat,
    names: Map<Seq<char>, Seq<char>>,
) {
    if n > 0 {
        layer_is_lower(indexes, position, n - 1);
    }
}

/// The upload names of each index, as sets.
pub open spec fn upload_sets(uploads: Seq<Vec<String>>) -> Seq<Set<Seq<char>>> {
    uploads.map_values(|names: Vec<String>| texts(names@).to_set())
}

fn claim_layer(names: &mut TextMap<String>, layer: &str, filenames: &Vec<String>)
    ensures
        claim_texts(final(names)@) == layer_claims(
            claim_texts(old(names)@),
            layer@,
            texts(filenames@).to_set(),
        ),
{
    let ghost start = claim_texts(names@);
    let ghost all = texts(filenames@);
    let mut i: usize = 0;
    assert(claim_texts(names@) =~= layer_claims(start, layer@, all.take(0).to_set()));
    while i < filenames.len()
        invariant
            i <= filenames@.len(),
            all == texts(filenames@),
            claim_texts(names@) == layer_claims(start, layer@, all.take(i as int).to_set()),
        decreases filenames.len() - i,
    {
        let ghost was = claim_texts(names@);
        let ghost key = filenames@[i as int]@;
        proof {
            let upto = all.take(i + 1);
            let earlier = all.take(i as int);
            assert(upto =~= earlier.push(key));
            assert forall|v: Seq<char>| upto.contains(v) == (earlier.contains(v) || v == key) by {
                if earlier.contains(v) {
                    let j = choose|j: int| 0 <= j < earlier.len() && earlier[j] == v;
                    assert(upto[j] == v);
                }
                if v == key {
                    assert(upto[i as int] == v);
                }
                if upto.contains(v) {
                    let j = choose|j: int| 0 <= j < upto.len() && upto[j] == v;
                    if j < i {
                        assert(earlier[j] == v);
                    }
                }
            }
        }
        let ghost had = names@;
        if !names.contains_key(filenames[i].as_str()) {
            names.insert(filenames[i].clone(), layer.to_owned());
            assert(claim_texts(names@) =~= was.insert(key, layer@));
        }
        assert(had.contains_key(key) == was.contains_key(key));
        proof {
            let upto = all.take(i + 1);
            let earlier = all.take(i as int);
            let got = claim_texts(names@);
            let want = layer_claims(start, layer@, upto.to_set());
            assert forall|v: Seq<char>| got.contains_key(v) == want.contains_key(v) by {
                assert(upto.to_set().contains(v) == upto.contains(v));
                assert(earlier.to_set().contains(v) == earlier.contains(v));
            }
            assert forall|v: Seq<char>| got.contains_key(v) implies got[v] == want[v] by {
                assert(earlier.to_set().contains(v) == earlier.contains(v));
            }
            assert(got =~= want);
        }
        i = i + 1;
    }
    assert(all.take(i as int) =~= all);
}

/// Add the layer that published each filename of a project, through an index and its layers. Layers stand in
/// the order in which their pages are merged, so the panel reads the same publication the page serves.
/// `uploads` are the filenames each index published.
pub fn collect_hosted_filenames(
    indexes: &Vec<IndexEntry>,
    uploads: &Vec<Vec<String>>,
    position: usize,
    names: &mut TextMap<String>,
)
    requires
        acyclic(indexes@),
        position < indexes@.len(),
        uploads@.len() == indexes@.len(),
    ensures
        claim_texts(final(names)@) == claims_through(
            indexes@,
            upload_sets(uploads@),
            position as int,
            claim_texts(old(names)@),
        ),
    decreases height_of(indexes@, position as int),
{
    let ghost start = claim_texts(names@);
    let ghost sets = upload_sets(uploads@);
    match &indexes[position].kind {
        IndexKind::Hosted => {
            claim_layer(names, indexes[position].name.as_str(), &uploads[position]);
        },
        IndexKind::Cached => {},
        IndexKind::Virtual { layers, .. } => {
            let mut i: usize = 0;
            while i < layers.len()
                invariant
                    i <= layers@.len(),
                    acyclic(indexes@),
                    position < indexes@.len(),
                    uploads@.len() == indexes@.len(),
                    sets == upload_sets(uploads@),
                    indexes@[position as int].kind is Virtual,
                    indexes@[position as int].kind->layers == *layers,
                    claim_texts(names@) == claims_through_layers(indexes@, sets, position as int, i as nat, start),
                decreases layers.len() - i,
            {
                proof {
                    layer_is_lower(indexes@, position as int, i as int);
                }
                collect_hosted_filenames(indexes, uploads, layers[i], names);
                i = i + 1;
            }
        },
    }
}

// ---------------------------------------------------------------------------------------------
// The default release
// ---------------------------------------------------------------------------------------------

/// Whether a version is a stable one.
pub open spec fn stable(version: Seq<char>) -> bool {
    version_valid(version) && !version_prerelease(version)
}

/// The class of a release: an active one outranks one that is not, and within these a stable version
/// outranks another.
pub open spec fn release_class(release: ReleaseView) -> int {
    (if release.lifecycle is None {
        2int
    } else {
        0int
    }) + (if stable(release.version@) {
        1int
    } else {
        0int
    })
}

/// Whether version `a` is greater than version `b`: a version that parses is greater than one that does not,
/// and the texts settle what is equal otherwise.
pub open spec fn version_greater(a: Seq<char>, b: Seq<char>) -> bool {
    if version_valid(a) && version_valid(b) {
        version_order(a, b) == Some(VersionOrder::Newer) || (version_order(a, b) == Some(VersionOrder::Same) && before(
            b,
            a,
        ))
    } else if !version_valid(a) && !version_valid(b) {
        before(b, a)
    } else {
        version_valid(a)
    }
}

/// Whether release `a` outranks release `b`.
pub open spec fn outranks(a: ReleaseView, b: ReleaseView) -> bool {
    release_class(a) > release_class(b) || (release_class(a) == release_class(b) && version_greater(
        a.version@,
        b.version@,
    ))
}

/// The position of the best of the first `n` releases: a later one takes over unless the best so far
/// outranks it.
pub open spec fn best_release(releases: Seq<ReleaseView>, n: int) -> int
    decreases n,
{
    if n <= 1 {
        0
    } else {
        let best = best_release(releases, n - 1);
        if outranks(releases[best], releases[n - 1]) {
            best
        } else {
            n - 1
        }
    }
}

fn is_version_greater(a: &str, b: &str) -> (r: bool)
    ensures
        r == version_greater(a@, b@),
{
    match order_versions(a, b) {
        Some(VersionOrder::Newer) => true,
        Some(VersionOrder::Same) => text_before(b, a),
        Some(VersionOrder::Older) => false,
        None => {
            if is_version(a) {
                true
            } else if is_version(b) {
                false
            } else {
                text_before(b, a)
            }
        },
    }
}

fn class_of(release: &ReleaseView) -> (r: u8)
    ensures
        r == release_class(*release),
{
    let version = release.version.as_str();
    let stable: bool = is_version(version) && !is_prerelease(version);
    let active: u8 = if release.lifecycle.is_none() {
        2
    } else {
        0
    };
    if stable {
        active + 1
    } else {
        active
    }
}

fn does_outrank(a: &ReleaseView, b: &ReleaseView) -> (r: bool)
    ensures
        r == outranks(*a, *b),
{
    let left: u8 = class_of(a);
    let right: u8 = class_of(b);
    left > right || (left == right && is_version_greater(a.version.as_str(), b.version.as_str()))
}

/// The release the project page defaults to. An active release outranks a yanked one, a stable release
/// outranks a pre-release, and the greatest version wins within a class. A version that does not parse
/// counts as neither stable nor greater than one that does.
pub fn default_version(releases: &Vec<ReleaseView>) -> (r: Option<String>)
    ensures
        opt_text(r) == (if releases@.len() == 0 {
            None
        } else {
            Some(releases@[best_release(releases@, releases@.len() as int)].version@)
        }),
{
    if releases.len() == 0 {
        return None;
    }
    let mut best: usize = 0;
    let mut i: usize = 1;
    while i < releases.len()
        invariant
            1 <= i <= releases@.len(),
            best < i,
            best == best_release(releases@, i as int),
        decreases releases.len() - i,
    {
        if !does_outrank(&releases[best], &releases[i]) {
            best = i;
        }
        i = i + 1;
    }
    Some(releases[best].version.clone())
}

proof fn best_release_is_of_the_best_class(releases: Seq<ReleaseView>, n: int)
    requires
        1 <= n <= releases.len(),
    ensures
        0 <= best_release(releases, n) < n,
        forall|i: int|
            0 <= i < n ==> release_class(#[trigger] releases[i]) <= release_class(releases[best_release(releases, n)]),
    decreases n,
{
    if n > 1 {
        best_release_is_of_the_best_class(releases, n - 1);
    }
}

/// A page defaults to an active release whenever there is one, and to a stable one whenever an active stable
/// one exists.
pub proof fn the_default_release_is_active(releases: Seq<ReleaseView>, i: int)
    requires
        0 <= i < releases.len(),
        releases[i].lifecycle is None,
    ensures
        ({
            let best = releases[best_release(releases, releases.len() as int)];
            &&& best.lifecycle is None
            &&& stable(releases[i].version@) ==> stable(best.version@)
        }),
{
    best_release_is_of_the_best_class(releases, releases.len() as int);
    assert(release_class(releases[i]) <= release_class(
        releases[best_release(releases, releases.len() as int)],
    ));
}

/// Whether the file at `i` stands before the one at `j`: an active one before one that is not, and the
/// filename settles the rest.
pub open spec fn sibling_before(files: Seq<FileView>, i: int, j: int) -> bool {
    let a = files[i];
    let b = files[j];
    (a.lifecycle is None && b.lifecycle is Some) || ((a.lifecycle is None) == (b.lifecycle is None) && before(
        a.filename@,
        b.filename@,
    ))
}

/// Whether the file at `i` may describe the release: it has a metadata sibling and is the release's own.
pub open spec fn may_describe(files: Seq<FileView>, of_release: Seq<bool>, i: int) -> bool {
    files[i].has_metadata && of_release[i]
}

/// Whether the file at `i` describes the release: no other that may stands before it, and it is the first
/// among its equals.
pub open spec fn describes_release(files: Seq<FileView>, of_release: Seq<bool>, i: int, n: int) -> bool {
    &&& 0 <= i < n
    &&& may_describe(files, of_release, i)
    &&& forall|j: int|
        0 <= j < n && #[trigger] may_describe(files, of_release, j) ==> !sibling_before(files, j, i) && (j < i
            ==> sibling_before(files, i, j))
}

fn is_sibling_before(a: &FileView, b: &FileView) -> (r: bool)
    ensures
        r == ((a.lifecycle is None && b.lifecycle is Some) || ((a.lifecycle is None) == (b.lifecycle is None)
            && before(a.filename@, b.filename@))),
{
    let a_active: bool = a.lifecycle.is_none();
    let b_active: bool = b.lifecycle.is_none();
    (a_active && !b_active) || (a_active == b_active && text_before(a.filename.as_str(), b.filename.as_str()))
}

proof fn sibling_order(files: Seq<FileView>, a: int, b: int, c: int)
    ensures
        !sibling_before(files, a, a),
        sibling_before(files, a, b) && sibling_before(files, b, c) ==> sibling_before(files, a, c),
        sibling_before(files, a, b) ==> !sibling_before(files, b, a),
        !sibling_before(files, a, b) && !sibling_before(files, b, a) ==> files[a].filename@ == files[b].filename@ && (
        files[a].lifecycle is None) == (files[b].lifecycle is None),
{
    before_irreflexive(files[a].filename@);
    before_total(files[a].filename@, files[b].filename@);
    if before(files[a].filename@, files[b].filename@) && before(files[b].filename@, files[c].filename@) {
        before_transitive(files[a].filename@, files[b].filename@, files[c].filename@);
    }
    if before(files[a].filename@, files[b].filename@) && before(files[b].filename@, files[a].filename@) {
        before_transitive(files[a].filename@, files[b].filename@, files[a].filename@);
    }
}

/// The file whose metadata sibling describes a release, so the page never borrows another release's
/// metadata. `of_release` says for each file whether it is the release's. An active file outranks a yanked
/// one, and the filename settles the rest, so a release with several siblings always renders the same one.
pub fn metadata_file(files: &Vec<FileView>, of_release: &Vec<bool>) -> (r: Option<usize>)
    requires
        of_release@.len() == files@.len(),
    ensures
        match r {
            Some(i) => describes_release(files@, of_release@, i as int, files@.len() as int),
            None => forall|j: int| 0 <= j < files@.len() ==> !(#[trigger] may_describe(files@, of_release@, j)),
        },
{
    let mut best: Option<usize> = None;
    let mut i: usize = 0;
    while i < files.len()
        invariant
            i <= files@.len(),
            of_release@.len() == files@.len(),
            match best {
                Some(b) => describes_release(files@, of_release@, b as int, i as int),
                None => forall|j: int| 0 <= j < i ==> !(#[trigger] may_describe(files@, of_release@, j)),
            },
        decreases files.len() - i,
    {
        let candidate: bool = files[i].has_metadata && of_release[i];
        assert(candidate == may_describe(files@, of_release@, i as int));
        if candidate {
            let better: bool = match best {
                Some(b) => is_sibling_before(&files[i], &files[b]),
                None => true,
            };
            proof {
                let f = files@;
                let n = i as int;
                sibling_order(f, n, n, n);
                match best {
                    Some(b) => {
                        let b = b as int;
                        sibling_order(f, n, b, n);
                        if better {
                            assert forall|j: int|
                                0 <= j < n + 1 && #[trigger] may_describe(f, of_release@, j) implies !sibling_before(
                                f,
                                j,
                                n,
                            ) && (j < n ==> sibling_before(f, n, j)) by {
                                sibling_order(f, n, b, j);
                                sibling_order(f, j, n, b);
                                sibling_order(f, b, j, n);
                                sibling_order(f, n, j, n);
                                if j < n {
                                    if j != b && !sibling_before(f, b, j) {
                                        assert(!sibling_before(f, j, b));
                                    }
                                }
                            }
                        }
                    },
                    None => {},
                }
            }
            if better {
                best = Some(i);
            }
        }
        i = i + 1;
    }
    best
}

/// Whether `r` is the file that a project page's metadata comes from.
pub open spec fn is_metadata_sibling(files: Seq<FileView>, has_default: bool, of_release: Seq<bool>, r: Option<usize>) -> bool {
    match r {
        Some(i) => i < files.len() && is_digest(files[i as int].sha256@) && if has_default {
            describes_release(files, of_release, i as int, files.len() as int)
        } else {
            last_with_metadata(files, i as int)
        },
        None => forall|i: int|
            0 <= i < files.len() && #[trigger] is_digest(files[i].sha256@) ==> if has_default {
                !describes_release(files, of_release, i, files.len() as int)
            } else {
                !last_with_metadata(files, i)
            },
    }
}

/// Where a project page's metadata comes from: the default release's sibling, or the last file that has one
/// when an upstream names no versions. A sibling whose digest is none cannot be reached.
pub fn metadata_sibling_of(files: &Vec<FileView>, has_default: bool, of_release: &Vec<bool>) -> (r: Option<usize>)
    requires
        of_release@.len() == files@.len(),
    ensures
        is_metadata_sibling(files@, has_default, of_release@, r),
{
    if has_default {
        let found = metadata_file(files, of_release);
        match found {
            Some(i) => {
                if valid_digest(files[i].sha256.as_str()) {
                    return Some(i);
                }
                proof {
                    assert forall|k: int|
                        0 <= k < files@.len() && #[trigger] is_digest(files@[k].sha256@) implies !describes_release(
                        files@,
                        of_release@,
                        k,
                        files@.len() as int,
                    ) by {
                        if describes_release(files@, of_release@, k, files@.len() as int) {
                            assert(may_describe(files@, of_release@, k));
                            assert(may_describe(files@, of_release@, i as int));
                            assert(k != i);
                        }
                    }
                }
                return None;
            },
            None => {
                proof {
                    assert forall|k: int|
                        0 <= k < files@.len() && #[trigger] is_digest(files@[k].sha256@) implies !describes_release(
                        files@,
                        of_release@,
                        k,
                        files@.len() as int,
                    ) by {
                        assert(!may_describe(files@, of_release@, k));
                    }
                }
                return None;
            },
        }
    }
    let mut n: usize = files.len();
    while n > 0
        invariant
            n <= files@.len(),
            !has_default,
            forall|j: int| n <= j < files@.len() ==> !(#[trigger] files@[j]).has_metadata,
        decreases n,
    {
        n = n - 1;
        if files[n].has_metadata {
            assert(last_with_metadata(files@, n as int));
            if valid_digest(files[n].sha256.as_str()) {
                return Some(n);
            }
            assert forall|k: int| 0 <= k < files@.len() && #[trigger] is_digest(files@[k].sha256@) implies !last_with_metadata(
                files@,
                k,
            ) by {
                if last_with_metadata(files@, k) {
                    if k < n {
                        assert(files@[n as int].has_metadata);
                    } else if k > n {
                        assert(!files@[k].has_metadata);
                    }
                }
            }
            return None;
        }
    }
    None
}

/// Whether the file at `i` is the last that has a metadata sibling.
pub open spec fn last_with_metadata(files: Seq<FileView>, i: int) -> bool {
    0 <= i < files.len() && files[i].has_metadata && forall|j: int|
        i < j < files.len() ==> !(#[trigger] files[j]).has_metadata
}

// ---------------------------------------------------------------------------------------------
// Commands and actions
// ---------------------------------------------------------------------------------------------

/// Whether a shell reads the character as it is.
pub open spec fn shell_plain(c: char) -> bool {
    ('0' <= c && c <= '9') || ('a' <= c && c <= 'z') || ('A' <= c && c <= 'Z') || c == '-' || c == '.' || c == '_' || c
        == '=' || c == '+' || c == ':' || c == '@' || c == '/' || c == ','
}

/// A word as a shell reads it back: in quotes unless it is plain, with each quote in it escaped.
pub open spec fn shell_quoted(value: Seq<char>) -> Seq<char> {
    if forall|i: int| 0 <= i < value.len() ==> shell_plain(#[trigger] value[i]) {
        value
    } else {
        "'"@ + replaced(value, "'"@, "'\\''"@) + "'"@
    }
}

/// Quote a word for a shell.
pub fn shell_quote(value: &str) -> (r: String)
    ensures
        r@ == shell_quoted(value@),
{
    let chars = chars_of(value);
    let mut plain: bool = true;
    let mut i: usize = 0;
    while i < chars.len()
        invariant
            i <= chars@.len(),
            chars@ == value@,
            plain == (forall|j: int| 0 <= j < i ==> shell_plain(#[trigger] value@[j])),
        decreases chars.len() - i,
    {
        let c: char = chars[i];
        let as_is: bool = ('0' <= c && c <= '9') || ('a' <= c && c <= 'z') || ('A' <= c && c <= 'Z') || c == '-' || c
            == '.' || c == '_' || c == '=' || c == '+' || c == ':' || c == '@' || c == '/' || c == ',';
        if !as_is {
            plain = false;
            assert(!shell_plain(value@[i as int]));
        }
        i = i + 1;
    }
    if plain {
        return value.to_owned();
    }
    proof {
        reveal_strlit("'");
    }
    let mut out = "'".to_owned();
    let inner = replace(value, "'", "'\\''");
    out.append(inner.as_str());
    out.append("'");
    out
}

/// The command that installs a project: from an index at an encoded path, at a release when there is one.
pub open spec fn install_text(route_path: Seq<char>, project: Seq<char>, version: Option<Seq<char>>) -> Seq<char> {
    "uv pip install --index-url "@ + "<origin>/"@ + route_path + "/simple/"@ + " "@ + shell_quoted(
        match version {
            Some(version) => project + "=="@ + version,
            None => project,
        },
    )
}

/// The command that installs a project. `route_path` is the index's path, encoded.
pub fn install_command(route_path: &str, project: &str, version: Option<&str>) -> (r: String)
    ensures
        r@ == install_text(route_path@, project@, opt_str(version)),
{
    let mut target = project.to_owned();
    match version {
        Some(version) => {
            target.append("==");
            target.append(version);
        },
        None => {},
    }
    let word = shell_quote(target.as_str());
    let mut out = "uv pip install --index-url ".to_owned();
    out.append("<origin>/");
    out.append(route_path);
    out.append("/simple/");
    out.append(" ");
    out.append(word.as_str());
    out
}

/// The address that changes a project or a release, of encoded parts.
pub open spec fn endpoint_of(
    route_path: Seq<char>,
    project: Seq<char>,
    version: Option<Seq<char>>,
    action: Option<Seq<char>>,
) -> Seq<char> {
    "/"@ + route_path + "/"@ + project + "/"@ + (match version {
        Some(version) => version + "/"@,
        None => Seq::empty(),
    }) + (match action {
        Some(action) => action,
        None => Seq::empty(),
    })
}

/// The address that changes a project or a release. Its parts come encoded.
pub fn mutation_endpoint(route_path: &str, project: &str, version: Option<&str>, action: Option<&str>) -> (r: String)
    ensures
        r@ == endpoint_of(route_path@, project@, opt_str(version), opt_str(action)),
{
    let mut out = "/".to_owned();
    out.append(route_path);
    out.append("/");
    out.append(project);
    out.append("/");
    let ghost base = out@;
    match version {
        Some(version) => {
            out.append(version);
            out.append("/");
            assert(out@ =~= base + (version@ + "/"@));
        },
        None => {
            assert(out@ =~= base + Seq::<char>::empty());
        },
    }
    let ghost named = out@;
    match action {
        Some(action) => {
            out.append(action);
        },
        None => {
            assert(out@ =~= named + Seq::<char>::empty());
        },
    }
    out
}

/// What may be done to a project.
pub open spec fn project_action(route_path: Seq<char>, project: Seq<char>) -> ActionText {
    ActionText {
        label: "delete whole project"@,
        method: UiActionMethod::Delete,
        endpoint: endpoint_of(route_path, project, None, None),
        destructive: true,
    }
}

/// What may be done to a release.
pub open spec fn release_actions(route_path: Seq<char>, project: Seq<char>, version: Seq<char>) -> Seq<ActionText> {
    seq![
        ActionText {
            label: "yank"@,
            method: UiActionMethod::Put,
            endpoint: endpoint_of(route_path, project, Some(version), Some("yank"@)),
            destructive: false,
        },
        ActionText {
            label: "un-yank"@,
            method: UiActionMethod::Delete,
            endpoint: endpoint_of(route_path, project, Some(version), Some("yank"@)),
            destructive: false,
        },
        ActionText {
            label: "delete"@,
            method: UiActionMethod::Delete,
            endpoint: endpoint_of(route_path, project, Some(version), None),
            destructive: true,
        },
    ]
}

/// The encoded parts of a project's addresses.
pub struct EncodedProject {
    pub route_path: String,
    pub project: String,
    pub versions: Vec<String>,
}

fn actions_of_release(encoded: &EncodedProject, i: usize) -> (r: Vec<UiAction>)
    requires
        i < encoded.versions@.len(),
    ensures
        action_texts(r@) == release_actions(
            encoded.route_path@,
            encoded.project@,
            encoded.versions@[i as int]@,
        ),
{
    let route = encoded.route_path.as_str();
    let project = encoded.project.as_str();
    let version = encoded.versions[i].as_str();
    let mut actions: Vec<UiAction> = Vec::new();
    actions.push(
        UiAction {
            label: "yank".to_owned(),
            method: UiActionMethod::Put,
            endpoint: mutation_endpoint(route, project, Some(version), Some("yank")),
            destructive: false,
        },
    );
    actions.push(
        UiAction {
            label: "un-yank".to_owned(),
            method: UiActionMethod::Delete,
            endpoint: mutation_endpoint(route, project, Some(version), Some("yank")),
            destructive: false,
        },
    );
    actions.push(
        UiAction {
            label: "delete".to_owned(),
            method: UiActionMethod::Delete,
            endpoint: mutation_endpoint(route, project, Some(version), None),
            destructive: true,
        },
    );
    assert(action_texts(actions@) =~= release_actions(route@, project@, version@));
    actions
}

/// Whether `r` is the project with its actions.
pub open spec fn are_actions_given(encoded: EncodedProject, project: ProjectView, r: ProjectView) -> bool {
    &&& r.name == project.name
    &&& r.status == project.status
    &&& r.files == project.files
    &&& r.client_command == project.client_command
    &&& action_texts(r.actions@) == action_texts(project.actions@).push(
        project_action(encoded.route_path@, encoded.project@),
    )
    &&& r.versions@.len() == project.versions@.len()
    &&& forall|i: int|
        0 <= i < project.versions@.len() ==> (#[trigger] r.versions@[i]).version == project.versions@[i].version
            && r.versions@[i].lifecycle == project.versions@[i].lifecycle && action_texts(
            r.versions@[i].actions@,
        ) == release_actions(encoded.route_path@, encoded.project@, encoded.versions@[i]@)
}

/// Give a project and its releases their actions.
pub fn apply_actions(encoded: &EncodedProject, project: ProjectView) -> (r: ProjectView)
    requires
        encoded.versions@.len() == project.versions@.len(),
    ensures
        are_actions_given(*encoded, project, r),
{
    let ProjectView { name, status, versions, files, client_command, actions } = project;
    let ghost all = versions@;
    let n: usize = versions.len();
    let mut actions = actions;
    let ghost before_actions = actions@;
    let deletion = UiAction {
        label: "delete whole project".to_owned(),
        method: UiActionMethod::Delete,
        endpoint: mutation_endpoint(encoded.route_path.as_str(), encoded.project.as_str(), None, None),
        destructive: true,
    };
    let ghost view = deletion@;
    actions.push(deletion);
    assert(action_texts(actions@) =~= action_texts(before_actions).push(view));
    let mut out: Vec<ReleaseView> = Vec::new();
    let mut at: usize = 0;
    for release in it: versions
        invariant
            it.seq() == all,
            at == it.index(),
            n == all.len(),
            n == encoded.versions@.len(),
            out@.len() == at,
            forall|i: int|
                0 <= i < at ==> (#[trigger] out@[i]).version == all[i].version && out@[i].lifecycle == all[i].lifecycle
                    && action_texts(out@[i].actions@) == release_actions(
                    encoded.route_path@,
                    encoded.project@,
                    encoded.versions@[i]@,
                ),
    {
        let ReleaseView { version, lifecycle, actions: _ } = release;
        out.push(ReleaseView { version, lifecycle, actions: actions_of_release(encoded, at) });
        at = at + 1;
    }
    ProjectView { name, status, versions: out, files, client_command, actions }
}

// ---------------------------------------------------------------------------------------------
// Reaching an artifact from the browser
// ---------------------------------------------------------------------------------------------

/// Why the browser does not reach an artifact: its digest is none, or the file is another project's than the
/// one the caller may read. Both read alike, so neither reports on what the index holds.
pub open spec fn artifact_refusal(
    route: Seq<char>,
    filename: Seq<char>,
    digest: Seq<char>,
    same_project: bool,
    not_found: Seq<char>,
) -> Option<Seq<char>> {
    if !is_digest(digest) {
        Some(
            "artifact on index "@ + quoted_text(route) + " for file "@ + quoted_text(filename)
                + ": invalid sha256 digest "@ + quoted_text(digest),
        )
    } else if !same_project {
        Some(artifact_failure(route, filename, digest, not_found))
    } else {
        None
    }
}

/// What a failure to reach an artifact is told as.
pub open spec fn artifact_failure(
    route: Seq<char>,
    filename: Seq<char>,
    digest: Seq<char>,
    message: Seq<char>,
) -> Seq<char> {
    "artifact on index "@ + quoted_text(route) + " for file "@ + quoted_text(filename) + " with digest "@ + digest
        + ": "@ + message
}

/// Say what went wrong on the way to an artifact.
pub fn artifact_error(route: &str, filename: &str, digest: &str, message: &str) -> (r: String)
    ensures
        r@ == artifact_failure(route@, filename@, digest@, message@),
{
    let mut out = "artifact on index ".to_owned();
    let at = quoted(route);
    out.append(at.as_str());
    out.append(" for file ");
    let name = quoted(filename);
    out.append(name.as_str());
    out.append(" with digest ");
    out.append(digest);
    out.append(": ");
    out.append(message);
    out
}

/// The checks before the shared download barrier, which keys membership on the project the filename names: a
/// browse of a project the caller may read must not reach a file of another. `project` is the browsed
/// project, normalized, `file_project` the one the filename names, and `not_found` what a missing file is
/// told as.
pub fn artifact_in_project(
    route: &str,
    filename: &str,
    digest: &str,
    project: &str,
    file_project: &str,
    not_found: &str,
) -> (r: Result<(), String>)
    ensures
        match artifact_refusal(route@, filename@, digest@, project@ == file_project@, not_found@) {
            Some(message) => r matches Err(m) && m@ == message,
            None => r is Ok,
        },
{
    if !valid_digest(digest) {
        let mut out = "artifact on index ".to_owned();
        let at = quoted(route);
        out.append(at.as_str());
        out.append(" for file ");
        let name = quoted(filename);
        out.append(name.as_str());
        out.append(": invalid sha256 digest ");
        let shown = quoted(digest);
        out.append(shown.as_str());
        return Err(out);
    }
    if !text_eq(project, file_project) {
        return Err(artifact_error(route, filename, digest, not_found));
    }
    Ok(())
}

} // verus!
