//! The keys of this ecosystem's records, and the projects that keys name.
use vstd::prelude::*;

use crate::text::{
    cut_last, cut_prefix, cut_prefix_of_joined, last_index_of_joined, opt_str, rsplit_once, starts_with, strip_prefix,
};

verus! {

/// Cached simple-index pages, keyed by the caller's route key.
pub const INDEX_PREFIX: &'static str = "pypi\u{0}i\u{0}";

/// The fetch time and lifetime of a page whose body did not change, keyed by the same route key, so that
/// a revalidation rewrites a header and not a body.
pub const FRESHNESS_PREFIX: &'static str = "pypi\u{0}h\u{0}";

/// Where one index's publication of an artifact is fetched from, keyed by `{index}/{normalized}/{sha256}`.
pub const FILE_PREFIX: &'static str = "pypi\u{0}f\u{0}";

/// Metadata derived from an artifact's own verified bytes, keyed by artifact digest.
pub const METADATA_PREFIX: &'static str = "pypi\u{0}d\u{0}";

/// One cached index's publication of one file, keyed by `{index}/{normalized}/{sha256}/{filename}`.
pub const PUBLICATION_PREFIX: &'static str = "pypi\u{0}n\u{0}";

/// One hosted publication's provenance bundle, keyed by `{index}/{normalized}/{sha256}/{filename}`.
pub const PROVENANCE_PREFIX: &'static str = "pypi\u{0}a\u{0}";

/// Provenance objects advertised by upstream indexes, keyed by source, artifact digest, filename, and
/// owning project.
pub const UPSTREAM_ATTESTATION_PREFIX: &'static str = "pypi\u{0}t\u{0}";

/// A project's live provenance registrations.
pub const PROJECT_ATTESTATION_PREFIX: &'static str = "pypi\u{0}v\u{0}";

/// Observed display names, keyed by `{index}/{normalized}`.
pub const PROJECTS_PREFIX: &'static str = "pypi\u{0}p\u{0}";

/// Publication states of remote root catalogs, keyed by index.
pub const CATALOG_PREFIX: &'static str = "pypi\u{0}c\u{0}";

/// The projects of one catalog generation.
pub const CATALOG_GENERATION_PREFIX: &'static str = "pypi\u{0}g\u{0}";

/// Explicit status markers, keyed by `{index}/{normalized}`.
pub const PROJECT_STATUS_PREFIX: &'static str = "pypi\u{0}s\u{0}";

/// Projects that an authoritative `404` retired, keyed by `{index}/{normalized}`.
pub const RETIRED_PREFIX: &'static str = "pypi\u{0}x\u{0}";

/// Hosted file records, keyed by `{index}/{normalized}/{filename}`.
pub const UPLOAD_PREFIX: &'static str = "pypi\u{0}u\u{0}";

/// Release-wide import constraints, keyed by `{index}/{normalized}/{canonical version}`.
pub const RELEASE_IMPORTS_PREFIX: &'static str = "pypi\u{0}q\u{0}";

/// Hosted projects whose upload rows have been projected into release constraints.
pub const RELEASE_IMPORTS_INIT_PREFIX: &'static str = "pypi\u{0}z\u{0}";

/// The artifact whose metadata defines a hosted release, keyed by
/// `{index}/{normalized}/{canonical version}`.
pub const RELEASE_METADATA_PREFIX: &'static str = "pypi\u{0}b\u{0}";

/// How many upload records a hosted project holds, keyed by `{index}/{normalized}`.
pub const LIVE_UPLOADS_PREFIX: &'static str = "pypi\u{0}l\u{0}";

/// Yanked and hidden markers, keyed by `{index}/{normalized}/{filename}`.
pub const OVERRIDE_PREFIX: &'static str = "pypi\u{0}o\u{0}";

/// Releases already announced in the changelog, keyed by `{index}/{normalized}/{version}`.
pub const ANNOUNCED_RELEASE_PREFIX: &'static str = "pypi\u{0}e\u{0}";

/// One index's project and upload row counts, keyed by index name.
pub const COUNT_PREFIX: &'static str = "pypi\u{0}k\u{0}";

/// One published upload's place in its index's newest-first order.
pub const RECENT_PREFIX: &'static str = "pypi\u{0}w\u{0}";

// ---------------------------------------------------------------------------------------------
// Keys
// ---------------------------------------------------------------------------------------------

/// A prefix with one segment behind it.
pub open spec fn key1(prefix: Seq<char>, a: Seq<char>) -> Seq<char> {
    prefix + a
}

/// A prefix with two segments behind it.
pub open spec fn key2(prefix: Seq<char>, a: Seq<char>, b: Seq<char>) -> Seq<char> {
    prefix + a + "/"@ + b
}

/// A prefix with three segments behind it.
pub open spec fn key3(prefix: Seq<char>, a: Seq<char>, b: Seq<char>, c: Seq<char>) -> Seq<char> {
    prefix + a + "/"@ + b + "/"@ + c
}

/// A prefix with four segments behind it.
pub open spec fn key4(prefix: Seq<char>, a: Seq<char>, b: Seq<char>, c: Seq<char>, d: Seq<char>) -> Seq<char> {
    prefix + a + "/"@ + b + "/"@ + c + "/"@ + d
}

fn join1(prefix: &str, a: &str) -> (r: String)
    ensures
        r@ == key1(prefix@, a@),
{
    let mut key = prefix.to_owned();
    key.append(a);
    key
}

fn join2(prefix: &str, a: &str, b: &str) -> (r: String)
    ensures
        r@ == key2(prefix@, a@, b@),
{
    let mut key = join1(prefix, a);
    key.append("/");
    key.append(b);
    key
}

fn join3(prefix: &str, a: &str, b: &str, c: &str) -> (r: String)
    ensures
        r@ == key3(prefix@, a@, b@, c@),
{
    let mut key = join2(prefix, a, b);
    key.append("/");
    key.append(c);
    key
}

fn join4(prefix: &str, a: &str, b: &str, c: &str, d: &str) -> (r: String)
    ensures
        r@ == key4(prefix@, a@, b@, c@, d@),
{
    let mut key = join3(prefix, a, b, c);
    key.append("/");
    key.append(d);
    key
}

/// The key of a cached page.
pub fn index_key(key: &str) -> (r: String)
    ensures
        r@ == key1(INDEX_PREFIX@, key@),
{
    join1(INDEX_PREFIX, key)
}

/// The key of a page's freshness overlay.
pub fn freshness_key(key: &str) -> (r: String)
    ensures
        r@ == key1(FRESHNESS_PREFIX@, key@),
{
    join1(FRESHNESS_PREFIX, key)
}

/// The key of an artifact's source.
pub fn file_key(index: &str, normalized: &str, sha256: &str) -> (r: String)
    ensures
        r@ == key3(FILE_PREFIX@, index@, normalized@, sha256@),
{
    join3(FILE_PREFIX, index, normalized, sha256)
}

/// The prefix of a project's artifact sources.
pub fn file_prefix(index: &str, normalized: &str) -> (r: String)
    ensures
        r@ == key2(FILE_PREFIX@, index@, normalized@) + "/"@,
{
    let mut key = join2(FILE_PREFIX, index, normalized);
    key.append("/");
    key
}

/// The key of an artifact's own metadata digest.
pub fn metadata_key(sha256: &str) -> (r: String)
    ensures
        r@ == key1(METADATA_PREFIX@, sha256@),
{
    join1(METADATA_PREFIX, sha256)
}

/// The prefix of a project's publications.
pub fn publication_prefix(index: &str, normalized: &str) -> (r: String)
    ensures
        r@ == key2(PUBLICATION_PREFIX@, index@, normalized@) + "/"@,
{
    let mut key = join2(PUBLICATION_PREFIX, index, normalized);
    key.append("/");
    key
}

/// The key of one file's publication.
pub fn publication_key(index: &str, normalized: &str, sha256: &str, filename: &str) -> (r: String)
    ensures
        r@ == key4(PUBLICATION_PREFIX@, index@, normalized@, sha256@, filename@),
{
    join4(PUBLICATION_PREFIX, index, normalized, sha256, filename)
}

/// The prefix of a project's provenance bundles.
pub fn provenance_prefix(index: &str, normalized: &str) -> (r: String)
    ensures
        r@ == key2(PROVENANCE_PREFIX@, index@, normalized@) + "/"@,
{
    let mut key = join2(PROVENANCE_PREFIX, index, normalized);
    key.append("/");
    key
}

/// The key of one file's provenance bundle.
pub fn provenance_key(index: &str, normalized: &str, sha256: &str, filename: &str) -> (r: String)
    ensures
        r@ == key4(PROVENANCE_PREFIX@, index@, normalized@, sha256@, filename@),
{
    join4(PROVENANCE_PREFIX, index, normalized, sha256, filename)
}

/// The prefix of the provenance objects advertised for one file.
pub fn upstream_attestation_prefix(index: &str, sha256: &str, filename: &str) -> (r: String)
    ensures
        r@ == key3(UPSTREAM_ATTESTATION_PREFIX@, index@, sha256@, filename@) + "/"@,
{
    let mut key = join3(UPSTREAM_ATTESTATION_PREFIX, index, sha256, filename);
    key.append("/");
    key
}

/// The key of the provenance object that a project's page advertises for one file.
pub fn upstream_attestation_key(index: &str, sha256: &str, filename: &str, project: &str) -> (r: String)
    ensures
        r@ == key4(UPSTREAM_ATTESTATION_PREFIX@, index@, sha256@, filename@, project@),
{
    join4(UPSTREAM_ATTESTATION_PREFIX, index, sha256, filename, project)
}

/// The prefix of a project's provenance registrations.
pub fn project_attestation_prefix(index: &str, normalized: &str) -> (r: String)
    ensures
        r@ == key2(PROJECT_ATTESTATION_PREFIX@, index@, normalized@) + "/"@,
{
    let mut key = join2(PROJECT_ATTESTATION_PREFIX, index, normalized);
    key.append("/");
    key
}

/// The prefix of a project's live provenance registrations.
pub open spec fn live_prefix(index: Seq<char>, normalized: Seq<char>) -> Seq<char> {
    key2(PROJECT_ATTESTATION_PREFIX@, index, normalized) + "/"@ + "active/"@
}

/// The prefix of a project's live provenance registrations.
pub fn project_attestation_live_prefix(index: &str, normalized: &str) -> (r: String)
    ensures
        r@ == live_prefix(index@, normalized@),
{
    let mut key = project_attestation_prefix(index, normalized);
    key.append("active/");
    key
}

/// The key of one live provenance registration.
pub open spec fn live_key(
    index: Seq<char>,
    normalized: Seq<char>,
    sha256: Seq<char>,
    filename: Seq<char>,
) -> Seq<char> {
    live_prefix(index, normalized) + sha256 + "/"@ + filename
}

/// The key of one live provenance registration.
pub fn project_attestation_live_key(index: &str, normalized: &str, sha256: &str, filename: &str) -> (r: String)
    ensures
        r@ == live_key(index@, normalized@, sha256@, filename@),
{
    let mut key = project_attestation_live_prefix(index, normalized);
    key.append(sha256);
    key.append("/");
    key.append(filename);
    key
}

/// The key of a project's display name.
pub fn project_key(index: &str, normalized: &str) -> (r: String)
    ensures
        r@ == key2(PROJECTS_PREFIX@, index@, normalized@),
{
    join2(PROJECTS_PREFIX, index, normalized)
}

/// The key of a project's retirement.
pub fn retired_key(index: &str, normalized: &str) -> (r: String)
    ensures
        r@ == key2(RETIRED_PREFIX@, index@, normalized@),
{
    join2(RETIRED_PREFIX, index, normalized)
}

/// The key of a project's status marker.
pub fn project_status_key(index: &str, normalized: &str) -> (r: String)
    ensures
        r@ == key2(PROJECT_STATUS_PREFIX@, index@, normalized@),
{
    join2(PROJECT_STATUS_PREFIX, index, normalized)
}

/// The key of a hosted file record.
pub fn upload_key(index: &str, normalized: &str, filename: &str) -> (r: String)
    ensures
        r@ == key3(UPLOAD_PREFIX@, index@, normalized@, filename@),
{
    join3(UPLOAD_PREFIX, index, normalized, filename)
}

/// The prefix of a project's hosted file records.
pub fn upload_prefix(index: &str, normalized: &str) -> (r: String)
    ensures
        r@ == key2(UPLOAD_PREFIX@, index@, normalized@) + "/"@,
{
    let mut key = join2(UPLOAD_PREFIX, index, normalized);
    key.append("/");
    key
}

/// The key of a release's import constraints.
pub fn release_imports_key(index: &str, normalized: &str, version: &str) -> (r: String)
    ensures
        r@ == key3(RELEASE_IMPORTS_PREFIX@, index@, normalized@, version@),
{
    join3(RELEASE_IMPORTS_PREFIX, index, normalized, version)
}

/// The key that marks a project's import constraints as initialized.
pub fn release_imports_init_key(index: &str, normalized: &str) -> (r: String)
    ensures
        r@ == key2(RELEASE_IMPORTS_INIT_PREFIX@, index@, normalized@),
{
    join2(RELEASE_IMPORTS_INIT_PREFIX, index, normalized)
}

/// The key of a file's override.
pub fn override_key(index: &str, normalized: &str, filename: &str) -> (r: String)
    ensures
        r@ == key3(OVERRIDE_PREFIX@, index@, normalized@, filename@),
{
    join3(OVERRIDE_PREFIX, index, normalized, filename)
}

/// The key of a project's upload counts.
pub fn live_uploads_key(index: &str, normalized: &str) -> (r: String)
    ensures
        r@ == key2(LIVE_UPLOADS_PREFIX@, index@, normalized@),
{
    join2(LIVE_UPLOADS_PREFIX, index, normalized)
}

/// The key that marks a release as announced.
pub fn announced_release_key(index: &str, normalized: &str, version: &str) -> (r: String)
    ensures
        r@ == key3(ANNOUNCED_RELEASE_PREFIX@, index@, normalized@, version@),
{
    join3(ANNOUNCED_RELEASE_PREFIX, index, normalized, version)
}

/// The key of an index's row counts.
pub fn count_key(index: &str) -> (r: String)
    ensures
        r@ == key1(COUNT_PREFIX@, index@),
{
    join1(COUNT_PREFIX, index)
}

/// The key of an index's catalog state.
pub fn catalog_key(index: &str) -> (r: String)
    ensures
        r@ == key1(CATALOG_PREFIX@, index@),
{
    join1(CATALOG_PREFIX, index)
}

// ---------------------------------------------------------------------------------------------
// What a key names
// ---------------------------------------------------------------------------------------------

/// The index and the project that `rest` names: what stands before and behind its last slash, when
/// neither is empty.
pub open spec fn index_project(rest: Seq<char>) -> Option<(Seq<char>, Seq<char>)> {
    match cut_last(rest, '/') {
        Some((index, normalized)) => if index.len() > 0 && normalized.len() > 0 {
            Some((index, normalized))
        } else {
            None
        },
        None => None,
    }
}

fn split_index_project<'a>(rest: &'a str) -> (r: Option<(&'a str, &'a str)>)
    ensures
        match r {
            Some((index, normalized)) => index_project(rest@) == Some((index@, normalized@)),
            None => index_project(rest@) is None,
        },
{
    match rsplit_once(rest, '/') {
        Some((index, normalized)) => {
            if !index.is_empty() && !normalized.is_empty() {
                Some((index, normalized))
            } else {
                None
            }
        },
        None => None,
    }
}

/// The index and project of a key with a file or a version behind them.
pub open spec fn leaf_project(rest: Seq<char>) -> Option<(Seq<char>, Seq<char>)> {
    match cut_last(rest, '/') {
        Some((head, _)) => index_project(head),
        None => None,
    }
}

fn split_leaf_project<'a>(rest: &'a str) -> (r: Option<(&'a str, &'a str)>)
    ensures
        match r {
            Some((index, normalized)) => leaf_project(rest@) == Some((index@, normalized@)),
            None => leaf_project(rest@) is None,
        },
{
    match rsplit_once(rest, '/') {
        Some((head, _)) => split_index_project(head),
        None => None,
    }
}

/// The index and project that a key names. A project-marker, cached-page or freshness key is
/// `{index}/{normalized}`; an upload, override or release-metadata key has one more segment. No other
/// key names a project.
pub open spec fn key_project(key: Seq<char>) -> Option<(Seq<char>, Seq<char>)> {
    match cut_prefix(key, PROJECTS_PREFIX@) {
        Some(rest) => index_project(rest),
        None => match cut_prefix(key, INDEX_PREFIX@) {
            Some(rest) => index_project(rest),
            None => match cut_prefix(key, FRESHNESS_PREFIX@) {
                Some(rest) => index_project(rest),
                None => match cut_prefix(key, UPLOAD_PREFIX@) {
                    Some(rest) => leaf_project(rest),
                    None => match cut_prefix(key, OVERRIDE_PREFIX@) {
                        Some(rest) => leaf_project(rest),
                        None => match cut_prefix(key, RELEASE_METADATA_PREFIX@) {
                            Some(rest) => leaf_project(rest),
                            None => None,
                        },
                    },
                },
            },
        },
    }
}

/// The index and project that a replicated key names, so that a replica maps the keys it just applied to
/// the projects whose derived views need rebuilding.
pub fn project_of_key<'a>(key: &'a str) -> (r: Option<(&'a str, &'a str)>)
    ensures
        match r {
            Some((index, normalized)) => key_project(key@) == Some((index@, normalized@)),
            None => key_project(key@) is None,
        },
{
    match strip_prefix(key, PROJECTS_PREFIX) {
        Some(rest) => {
            return split_index_project(rest);
        },
        None => {},
    }
    match strip_prefix(key, INDEX_PREFIX) {
        Some(rest) => {
            return split_index_project(rest);
        },
        None => {},
    }
    match strip_prefix(key, FRESHNESS_PREFIX) {
        Some(rest) => {
            return split_index_project(rest);
        },
        None => {},
    }
    match strip_prefix(key, UPLOAD_PREFIX) {
        Some(rest) => {
            return split_leaf_project(rest);
        },
        None => {},
    }
    match strip_prefix(key, OVERRIDE_PREFIX) {
        Some(rest) => {
            return split_leaf_project(rest);
        },
        None => {},
    }
    match strip_prefix(key, RELEASE_METADATA_PREFIX) {
        Some(rest) => split_leaf_project(rest),
        None => None,
    }
}

/// The artifact that a metadata pointer names.
pub open spec fn key_metadata_artifact(key: Seq<char>) -> Option<Seq<char>> {
    match cut_prefix(key, METADATA_PREFIX@) {
        Some(sha256) => if sha256.len() > 0 {
            Some(sha256)
        } else {
            None
        },
        None => None,
    }
}

/// The artifact that a replicated metadata pointer names, or nothing for any other key.
pub fn metadata_artifact_of_key<'a>(key: &'a str) -> (r: Option<&'a str>)
    ensures
        opt_str(r) == key_metadata_artifact(key@),
{
    match strip_prefix(key, METADATA_PREFIX) {
        Some(sha256) => {
            if sha256.is_empty() {
                None
            } else {
                Some(sha256)
            }
        },
        None => None,
    }
}

/// Whether a key belongs to a namespace that no derived view reads.
pub open spec fn view_neutral(key: Seq<char>) -> bool {
    FILE_PREFIX@.is_prefix_of(key) || COUNT_PREFIX@.is_prefix_of(key) || RECENT_PREFIX@.is_prefix_of(key)
        || ANNOUNCED_RELEASE_PREFIX@.is_prefix_of(key)
}

/// Whether `key` belongs to a namespace no derived view reads. A namespace this omits is one a replica
/// cannot vouch for, and it re-derives the whole index rather than guess.
pub fn derives_no_view(key: &str) -> (r: bool)
    ensures
        r == view_neutral(key@),
{
    starts_with(key, FILE_PREFIX) || starts_with(key, COUNT_PREFIX) || starts_with(key, RECENT_PREFIX) || starts_with(
        key,
        ANNOUNCED_RELEASE_PREFIX,
    )
}

// ---------------------------------------------------------------------------------------------
// Laws
// ---------------------------------------------------------------------------------------------

/// Every namespace prefix is told from the others by its sixth character.
pub open spec fn namespace_of(prefix: Seq<char>) -> char {
    prefix[5]
}

/// Whether `prefix` has the shape that all namespace prefixes share.
pub open spec fn is_namespace(prefix: Seq<char>) -> bool {
    &&& prefix.len() == 7
    &&& prefix[0] == 'p' && prefix[1] == 'y' && prefix[2] == 'p' && prefix[3] == 'i'
    &&& prefix[4] == '\u{0}' && prefix[6] == '\u{0}'
}

/// A key of one namespace is no key of another.
pub proof fn namespaces_are_disjoint(a: Seq<char>, b: Seq<char>, rest: Seq<char>)
    requires
        is_namespace(a),
        is_namespace(b),
        namespace_of(a) != namespace_of(b),
    ensures
        !b.is_prefix_of(a + rest),
        cut_prefix(a + rest, b) is None,
{
    if b.is_prefix_of(a + rest) {
        assert((a + rest).subrange(0, b.len() as int)[5] == (a + rest)[5]);
        assert((a + rest)[5] == a[5]);
    }
}

pub proof fn prefixes_are_namespaces()
    ensures
        is_namespace(INDEX_PREFIX@) && namespace_of(INDEX_PREFIX@) == 'i',
        is_namespace(FRESHNESS_PREFIX@) && namespace_of(FRESHNESS_PREFIX@) == 'h',
        is_namespace(FILE_PREFIX@) && namespace_of(FILE_PREFIX@) == 'f',
        is_namespace(METADATA_PREFIX@) && namespace_of(METADATA_PREFIX@) == 'd',
        is_namespace(PUBLICATION_PREFIX@) && namespace_of(PUBLICATION_PREFIX@) == 'n',
        is_namespace(PROVENANCE_PREFIX@) && namespace_of(PROVENANCE_PREFIX@) == 'a',
        is_namespace(PROJECTS_PREFIX@) && namespace_of(PROJECTS_PREFIX@) == 'p',
        is_namespace(UPLOAD_PREFIX@) && namespace_of(UPLOAD_PREFIX@) == 'u',
        is_namespace(OVERRIDE_PREFIX@) && namespace_of(OVERRIDE_PREFIX@) == 'o',
        is_namespace(RELEASE_METADATA_PREFIX@) && namespace_of(RELEASE_METADATA_PREFIX@) == 'b',
        is_namespace(COUNT_PREFIX@) && namespace_of(COUNT_PREFIX@) == 'k',
        is_namespace(RECENT_PREFIX@) && namespace_of(RECENT_PREFIX@) == 'w',
        is_namespace(ANNOUNCED_RELEASE_PREFIX@) && namespace_of(ANNOUNCED_RELEASE_PREFIX@) == 'e',
        is_namespace(UPSTREAM_ATTESTATION_PREFIX@) && namespace_of(UPSTREAM_ATTESTATION_PREFIX@) == 't',
        is_namespace(PROJECT_ATTESTATION_PREFIX@) && namespace_of(PROJECT_ATTESTATION_PREFIX@) == 'v',
        is_namespace(PROJECT_STATUS_PREFIX@) && namespace_of(PROJECT_STATUS_PREFIX@) == 's',
        is_namespace(RETIRED_PREFIX@) && namespace_of(RETIRED_PREFIX@) == 'x',
{
    reveal_strlit("pypi\u{0}i\u{0}");
    reveal_strlit("pypi\u{0}h\u{0}");
    reveal_strlit("pypi\u{0}f\u{0}");
    reveal_strlit("pypi\u{0}d\u{0}");
    reveal_strlit("pypi\u{0}n\u{0}");
    reveal_strlit("pypi\u{0}a\u{0}");
    reveal_strlit("pypi\u{0}p\u{0}");
    reveal_strlit("pypi\u{0}u\u{0}");
    reveal_strlit("pypi\u{0}o\u{0}");
    reveal_strlit("pypi\u{0}b\u{0}");
    reveal_strlit("pypi\u{0}k\u{0}");
    reveal_strlit("pypi\u{0}w\u{0}");
    reveal_strlit("pypi\u{0}e\u{0}");
    reveal_strlit("pypi\u{0}t\u{0}");
    reveal_strlit("pypi\u{0}v\u{0}");
    reveal_strlit("pypi\u{0}s\u{0}");
    reveal_strlit("pypi\u{0}x\u{0}");
}

/// An index and a project joined with a slash are read back, as long as the project has no slash.
pub proof fn index_project_reads_back(index: Seq<char>, normalized: Seq<char>)
    requires
        index.len() > 0,
        normalized.len() > 0,
        !normalized.contains('/'),
    ensures
        index_project(index + "/"@ + normalized) == Some((index, normalized)),
{
    reveal_strlit("/");
    assert("/"@ =~= seq!['/']);
    last_index_of_joined(index, '/', normalized);
}

/// The namespaces whose keys name a project with nothing behind it, and with a file or version behind it.
pub open spec fn names_pairs(prefix: Seq<char>) -> bool {
    prefix == PROJECTS_PREFIX@ || prefix == INDEX_PREFIX@ || prefix == FRESHNESS_PREFIX@
}

pub open spec fn names_leaves(prefix: Seq<char>) -> bool {
    prefix == UPLOAD_PREFIX@ || prefix == OVERRIDE_PREFIX@ || prefix == RELEASE_METADATA_PREFIX@
}

proof fn pair_key_project(prefix: Seq<char>, rest: Seq<char>)
    requires
        names_pairs(prefix),
    ensures
        key_project(prefix + rest) == index_project(rest),
{
    prefixes_are_namespaces();
    cut_prefix_of_joined(prefix, rest);
    if prefix != PROJECTS_PREFIX@ {
        namespaces_are_disjoint(prefix, PROJECTS_PREFIX@, rest);
        if prefix != INDEX_PREFIX@ {
            namespaces_are_disjoint(prefix, INDEX_PREFIX@, rest);
        }
    }
}

proof fn leaf_key_project(prefix: Seq<char>, rest: Seq<char>)
    requires
        names_leaves(prefix),
    ensures
        key_project(prefix + rest) == leaf_project(rest),
{
    prefixes_are_namespaces();
    cut_prefix_of_joined(prefix, rest);
    namespaces_are_disjoint(prefix, PROJECTS_PREFIX@, rest);
    namespaces_are_disjoint(prefix, INDEX_PREFIX@, rest);
    namespaces_are_disjoint(prefix, FRESHNESS_PREFIX@, rest);
    if prefix != UPLOAD_PREFIX@ {
        namespaces_are_disjoint(prefix, UPLOAD_PREFIX@, rest);
        if prefix != OVERRIDE_PREFIX@ {
            namespaces_are_disjoint(prefix, OVERRIDE_PREFIX@, rest);
        }
    }
}

/// The keys of a project's marker, cached page and freshness overlay name that project, whatever slashes
/// the index has.
pub proof fn project_keys_name_their_project(prefix: Seq<char>, index: Seq<char>, normalized: Seq<char>)
    requires
        names_pairs(prefix),
        index.len() > 0,
        normalized.len() > 0,
        !normalized.contains('/'),
    ensures
        key_project(key2(prefix, index, normalized)) == Some((index, normalized)),
{
    let rest = index + "/"@ + normalized;
    assert(key2(prefix, index, normalized) =~= prefix + rest);
    index_project_reads_back(index, normalized);
    pair_key_project(prefix, rest);
}

/// The keys of a project's uploads, overrides and releases name that project, whatever slashes the index
/// has.
pub proof fn file_keys_name_their_project(
    prefix: Seq<char>,
    index: Seq<char>,
    normalized: Seq<char>,
    leaf: Seq<char>,
)
    requires
        names_leaves(prefix),
        index.len() > 0,
        normalized.len() > 0,
        !normalized.contains('/'),
        !leaf.contains('/'),
    ensures
        key_project(key3(prefix, index, normalized, leaf)) == Some((index, normalized)),
{
    let pair = index + "/"@ + normalized;
    let rest = pair + "/"@ + leaf;
    reveal_strlit("/");
    assert("/"@ =~= seq!['/']);
    last_index_of_joined(pair, '/', leaf);
    index_project_reads_back(index, normalized);
    assert(leaf_project(rest) == Some((index, normalized)));
    assert(key3(prefix, index, normalized, leaf) =~= prefix + rest);
    leaf_key_project(prefix, rest);
}

/// A key that no derived view reads names no project, and neither does a metadata pointer.
pub proof fn neutral_keys_name_no_project(key: Seq<char>)
    requires
        view_neutral(key) || METADATA_PREFIX@.is_prefix_of(key),
    ensures
        key_project(key) is None,
{
    prefixes_are_namespaces();
    let p = if FILE_PREFIX@.is_prefix_of(key) {
        FILE_PREFIX@
    } else if COUNT_PREFIX@.is_prefix_of(key) {
        COUNT_PREFIX@
    } else if RECENT_PREFIX@.is_prefix_of(key) {
        RECENT_PREFIX@
    } else if ANNOUNCED_RELEASE_PREFIX@.is_prefix_of(key) {
        ANNOUNCED_RELEASE_PREFIX@
    } else {
        METADATA_PREFIX@
    };
    let rest = key.skip(7);
    assert(key =~= p + rest);
    namespaces_are_disjoint(p, PROJECTS_PREFIX@, rest);
    namespaces_are_disjoint(p, INDEX_PREFIX@, rest);
    namespaces_are_disjoint(p, FRESHNESS_PREFIX@, rest);
    namespaces_are_disjoint(p, UPLOAD_PREFIX@, rest);
    namespaces_are_disjoint(p, OVERRIDE_PREFIX@, rest);
    namespaces_are_disjoint(p, RELEASE_METADATA_PREFIX@, rest);
}

} // verus!
