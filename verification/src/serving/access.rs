//! Who may do what, and which indexes a request or a change concerns.
use vstd::prelude::*;

use crate::collections::{listed, TextSet};
use crate::search::scope::{acyclic, height_of, layer_is_lower, IndexEntry, IndexKind};
use crate::serving::reply::{challenge, missing, not_found, plain, reply, unauthorized, Reply, ReplyText, FORBIDDEN};
use crate::store::keys::{key_project, project_of_key};
use crate::text::{contains_str, ends_with, holds, text_eq, texts, trim_leading, trim_trailing, without_leading, without_trailing};

verus! {

// ---------------------------------------------------------------------------------------------
// Authorization
// ---------------------------------------------------------------------------------------------

/// Why an access list refuses.
#[derive(Debug, Clone, Copy, PartialEq, Eq, Structural)]
pub enum Denial {
    Unavailable,
    Unauthenticated,
    Forbidden,
}

/// What an audit record says about a refusal.
pub open spec fn denial_worded(denial: Denial) -> Seq<char> {
    match denial {
        Denial::Unavailable => "uploads are disabled"@,
        Denial::Unauthenticated => "invalid upload token"@,
        Denial::Forbidden => "token does not grant this action"@,
    }
}

/// What an audit record says about a refusal, and what a client that may retry with better credentials is
/// told. An unauthenticated caller is told only that, so the presented token is never echoed back.
pub fn denial_reason(denial: Denial) -> (r: &'static str)
    ensures
        r@ == denial_worded(denial),
{
    match denial {
        Denial::Unavailable => "uploads are disabled",
        Denial::Unauthenticated => "invalid upload token",
        Denial::Forbidden => "token does not grant this action",
    }
}

/// What the audit log is told of a token's use.
#[derive(Debug, Clone, Copy, PartialEq, Eq, Structural)]
pub enum TokenUse {
    Success,
    Denied(Denial),
}

/// Whether `r` is what is decided of a write to an index, and what the audit log is told of it.
pub open spec fn is_authorization(
    hosted: bool,
    project_named: bool,
    verdict: Option<Denial>,
    r: (Result<(), Reply>, Option<TokenUse>),
) -> bool {
    &&& (!hosted ==> (r.0 matches Err(answer) && answer@ == missing()) && r.1 is None)
    &&& (hosted && verdict is None ==> r.0 is Ok && r.1 == (if project_named {
        Some(TokenUse::Success)
    } else {
        None
    }))
    &&& (hosted && verdict is Some ==> (r.0 matches Err(answer) && answer@ == (if verdict->0 is Unauthenticated {
        challenge()
    } else {
        plain(FORBIDDEN, denial_worded(verdict->0))
    })) && r.1 == Some(TokenUse::Denied(verdict->0)))
}

/// Decide a write to an index: only a hosted one takes any. A pass without a project asks only whether the
/// caller may write anything here and leaves recording the success to the pass that names one, so one
/// upload is recorded once.
pub fn authorize(hosted: bool, project_named: bool, verdict: Option<Denial>) -> (r: (Result<(), Reply>, Option<TokenUse>))
    ensures
        is_authorization(hosted, project_named, verdict, r),
{
    if !hosted {
        return (Err(not_found()), None);
    }
    match verdict {
        None => (
            Ok(()),
            if project_named {
                Some(TokenUse::Success)
            } else {
                None
            },
        ),
        Some(Denial::Unauthenticated) => (Err(unauthorized()), Some(TokenUse::Denied(Denial::Unauthenticated))),
        Some(denial) => (Err(reply(FORBIDDEN, denial_reason(denial))), Some(TokenUse::Denied(denial))),
    }
}

/// Whether `r` is what a denied read is answered.
pub open spec fn is_read_denial(denial: Denial, r: ReplyText) -> bool {
    r == (if denial is Forbidden {
        plain(FORBIDDEN, "credential does not grant this read"@)
    } else {
        challenge()
    })
}

/// What a refused read is told. The answer is the same whether or not the resource exists, so a caller
/// without a read learns nothing about the index's contents from probing it.
pub fn read_denial_response(denial: Denial) -> (r: Reply)
    ensures
        is_read_denial(denial, r@),
{
    match denial {
        Denial::Forbidden => reply(FORBIDDEN, "credential does not grant this read"),
        Denial::Unauthenticated | Denial::Unavailable => unauthorized(),
    }
}

/// A grant that a verified token carries.
pub struct Grant {
    /// Whether it grants the action asked for.
    pub acts: bool,
    /// For each of its project patterns, whether the pattern can match a project under the route.
    pub under_route: Vec<bool>,
}

/// Whether the pattern at `i` covers something under a route; every pattern does where there is none.
pub open spec fn covers_route(grant: Grant, route: Seq<char>, i: int) -> bool {
    0 <= i < grant.under_route@.len() && (route.len() == 0 || grant.under_route@[i])
}

/// Whether a grant lets its holder write something under a route.
pub open spec fn grants_something(grant: Grant, route: Seq<char>) -> bool {
    grant.acts && exists|i: int| covers_route(grant, route, i)
}

/// The resource that a bearer's grants are asked about: the project under its route.
pub open spec fn bearer_resource_of(route: Seq<char>, project: Seq<char>) -> Seq<char> {
    if route.len() == 0 {
        project
    } else {
        route + seq!['/'] + project
    }
}

/// The resource that a bearer's grants are asked about.
pub fn bearer_resource(route: &str, project: &str) -> (r: String)
    ensures
        r@ == bearer_resource_of(route@, project@),
{
    if route.unicode_len() == 0 {
        return project.to_owned();
    }
    let mut out = route.to_owned();
    out.push('/');
    out.append(project);
    assert(out@ =~= route@ + seq!['/'] + project@);
    out
}

fn grants_under(grant: &Grant, route: &str) -> (r: bool)
    ensures
        r == grants_something(*grant, route@),
{
    if !grant.acts {
        return false;
    }
    let anything: bool = route.unicode_len() == 0;
    let mut i: usize = 0;
    while i < grant.under_route.len()
        invariant
            i <= grant.under_route@.len(),
            anything == (route@.len() == 0),
            grant.acts,
            forall|j: int| 0 <= j < i ==> !(#[trigger] covers_route(*grant, route@, j)),
        decreases grant.under_route.len() - i,
    {
        if anything || grant.under_route[i] {
            assert(covers_route(*grant, route@, i as int));
            return true;
        }
        i = i + 1;
    }
    false
}

/// Whether `r` says if a bearer may write anything under a route.
pub open spec fn is_bearer_verdict(grants: Seq<Grant>, route: Seq<char>, r: Result<(), Denial>) -> bool {
    r == (if exists|i: int| 0 <= i < grants.len() && grants_something(#[trigger] grants[i], route) {
        Ok::<(), Denial>(())
    } else {
        Err(Denial::Forbidden)
    })
}

/// Whether a bearer may write anything under a route, asked before the project is known.
pub fn authorize_bearer(grants: &Vec<Grant>, route: &str) -> (r: Result<(), Denial>)
    ensures
        is_bearer_verdict(grants@, route@, r),
{
    let mut i: usize = 0;
    while i < grants.len()
        invariant
            i <= grants@.len(),
            forall|j: int| 0 <= j < i ==> !grants_something(#[trigger] grants@[j], route@),
        decreases grants.len() - i,
    {
        if grants_under(&grants[i], route) {
            return Ok(());
        }
        i = i + 1;
    }
    Err(Denial::Forbidden)
}

// ---------------------------------------------------------------------------------------------
// Routes
// ---------------------------------------------------------------------------------------------

/// What a route serves, for rate limiting.
#[derive(Debug, Clone, Copy, PartialEq, Eq, Structural)]
pub enum RouteClass {
    Metadata,
    Artifact,
    Listing,
}

/// The class of a path: a sidecar of a file is metadata, any other path of a file or an inspection is an
/// artifact, and everything else is a listing.
pub open spec fn route_class(path: Seq<char>) -> RouteClass {
    let path = without_leading(path, '/');
    if holds(path, "/files/"@) && (crate::text::cut_suffix(path, ".metadata"@) is Some || crate::text::cut_suffix(
        path,
        ".provenance"@,
    ) is Some) {
        RouteClass::Metadata
    } else if holds(path, "/files/"@) || holds(path, "/inspect/"@) {
        RouteClass::Artifact
    } else {
        RouteClass::Listing
    }
}

/// Classify a path.
pub fn classify_route(path: &str) -> (r: RouteClass)
    ensures
        r == route_class(path@),
{
    let path = trim_leading(path, '/');
    if contains_str(path, "/files/") && (ends_with(path, ".metadata") || ends_with(path, ".provenance")) {
        RouteClass::Metadata
    } else if contains_str(path, "/files/") || contains_str(path, "/inspect/") {
        RouteClass::Artifact
    } else {
        RouteClass::Listing
    }
}

/// How a browser uploads to an index.
pub struct UploadForm {
    pub endpoint: String,
    pub form_field: &'static str,
    pub authorization_username: &'static str,
    pub token_label: &'static str,
    pub file_label: &'static str,
    pub accept: &'static str,
    pub help: &'static str,
}

/// Whether `r` is the upload form of an index.
pub open spec fn is_upload_form(route: Seq<char>, enabled: bool, r: Option<UploadForm>) -> bool {
    match r {
        None => !enabled,
        Some(form) => {
            &&& enabled
            &&& form.endpoint@ == "/"@ + without_trailing(without_leading(route, '/'), '/') + "/"@
            &&& form.form_field@ == "content"@
            &&& form.authorization_username@ == "__token__"@
            &&& form.token_label@ == "Upload token"@
            &&& form.file_label@ == "Distribution"@
            &&& form.accept@ == ".whl,.tar.gz"@
            &&& form.help@
                == "Choose one wheel or .tar.gz source distribution. The index's configured size limit applies."@
        },
    }
}

/// The upload form of an index that takes uploads.
pub fn upload_ui(route: &str, enabled: bool) -> (r: Option<UploadForm>)
    ensures
        is_upload_form(route@, enabled, r),
{
    if !enabled {
        return None;
    }
    let mut endpoint = "/".to_owned();
    endpoint.append(trim_trailing(trim_leading(route, '/'), '/'));
    endpoint.append("/");
    Some(
        UploadForm {
            endpoint,
            form_field: "content",
            authorization_username: "__token__",
            token_label: "Upload token",
            file_label: "Distribution",
            accept: ".whl,.tar.gz",
            help: "Choose one wheel or .tar.gz source distribution. The index's configured size limit applies.",
        },
    )
}

/// The position of the writable hosted index behind an index.
pub open spec fn write_position(kind: IndexKind, position: usize) -> Option<usize> {
    match kind {
        IndexKind::Hosted => Some(position),
        IndexKind::Virtual { write_target, .. } => write_target,
        IndexKind::Cached => None,
    }
}

/// The writable hosted index behind an index: itself if hosted, its upload layer if virtual.
pub fn upload_target(kind: &IndexKind, position: usize) -> (r: Option<usize>)
    ensures
        r == write_position(*kind, position),
{
    match kind {
        IndexKind::Hosted => Some(position),
        IndexKind::Virtual { write_target, .. } => *write_target,
        IndexKind::Cached => None,
    }
}

// ---------------------------------------------------------------------------------------------
// Replicated changes
// ---------------------------------------------------------------------------------------------

/// Whether the first `n` layers of the virtual index at `position` reach the index at `target`, directly
/// or through a nested virtual member.
pub open spec fn layers_reach_index(indexes: Seq<IndexEntry>, position: int, n: nat, target: int) -> bool
    decreases height_of(indexes, position), n,
    when acyclic(indexes) && 0 <= position < indexes.len() && indexes[position].kind is Virtual && n
        <= indexes[position].kind->layers@.len()
    via reach_descends
{
    n > 0 && (layers_reach_index(indexes, position, (n - 1) as nat, target) || {
        let layer = indexes[position].kind->layers@[n - 1] as int;
        layer == target || (indexes[layer].kind is Virtual && layers_reach_index(
            indexes,
            layer,
            indexes[layer].kind->layers@.len(),
            target,
        ))
    })
}

#[via_fn]
proof fn reach_descends(indexes: Seq<IndexEntry>, position: int, n: nat, target: int) {
    if n > 0 {
        layer_is_lower(indexes, position, n - 1);
    }
}

/// Whether the index at `position` is virtual and reaches the one at `target`.
pub open spec fn index_reaches(indexes: Seq<IndexEntry>, position: int, target: int) -> bool {
    indexes[position].kind is Virtual && layers_reach_index(
        indexes,
        position,
        indexes[position].kind->layers@.len(),
        target,
    )
}

/// Whether a virtual index reaches the one at `target`, directly or through a nested virtual member.
pub fn layers_reach(indexes: &Vec<IndexEntry>, position: usize, target: usize) -> (r: bool)
    requires
        acyclic(indexes@),
        position < indexes@.len(),
    ensures
        r == index_reaches(indexes@, position as int, target as int),
    decreases height_of(indexes@, position as int),
{
    match &indexes[position].kind {
        IndexKind::Virtual { layers, .. } => {
            let mut i: usize = 0;
            let mut found: bool = false;
            while i < layers.len()
                invariant
                    i <= layers@.len(),
                    acyclic(indexes@),
                    position < indexes@.len(),
                    indexes@[position as int].kind is Virtual,
                    indexes@[position as int].kind->layers == *layers,
                    found == layers_reach_index(indexes@, position as int, i as nat, target as int),
                decreases layers.len() - i,
            {
                proof {
                    layer_is_lower(indexes@, position as int, i as int);
                }
                let layer: usize = layers[i];
                if layer == target || layers_reach(indexes, layer, target) {
                    found = true;
                }
                i = i + 1;
            }
            found
        },
        _ => false,
    }
}

/// The position of the first index named `name` among those from `n` on, or the number of indexes.
pub open spec fn position_of(indexes: Seq<IndexEntry>, name: Seq<char>, n: int) -> int
    decreases indexes.len() - n,
{
    if n < 0 || n >= indexes.len() {
        indexes.len() as int
    } else if indexes[n].name@ == name {
        n
    } else {
        position_of(indexes, name, n + 1)
    }
}

/// Whether a change under the index named `base` shows in the index at `position`: its own, or one that a
/// virtual index reaches.
pub open spec fn shows_change(indexes: Seq<IndexEntry>, base: Seq<char>, position: int) -> bool {
    let changed = position_of(indexes, base, 0);
    changed < indexes.len() && (position == changed || index_reaches(indexes, position, changed))
}

fn base_position(indexes: &Vec<IndexEntry>, base: &str) -> (r: usize)
    ensures
        r == position_of(indexes@, base@, 0),
{
    let mut i: usize = 0;
    while i < indexes.len()
        invariant
            i <= indexes@.len(),
            position_of(indexes@, base@, 0) == position_of(indexes@, base@, i as int),
        decreases indexes.len() - i,
    {
        if text_eq(indexes[i].name.as_str(), base) {
            return i;
        }
        i = i + 1;
    }
    i
}

/// Whether a change under `base` shows in the index at `position`: a virtual page merges the members it
/// layers, so a member's change shows through the virtual index's own document.
pub fn serves_change(indexes: &Vec<IndexEntry>, base: &str, position: usize) -> (r: bool)
    requires
        acyclic(indexes@),
        position < indexes@.len(),
    ensures
        r == shows_change(indexes@, base@, position as int),
{
    let changed: usize = base_position(indexes, base);
    changed < indexes.len() && (position == changed || layers_reach(indexes, position, changed))
}

/// The positions below `n` of the virtual indexes that reach the one at `changed`.
pub open spec fn reaching(indexes: Seq<IndexEntry>, changed: int, n: int) -> Seq<usize>
    decreases n,
{
    if n <= 0 {
        Seq::empty()
    } else {
        let before = reaching(indexes, changed, n - 1);
        if index_reaches(indexes, n - 1, changed) {
            before.push((n - 1) as usize)
        } else {
            before
        }
    }
}

/// Whether `r` are the positions of the indexes in which a project of `base` shows.
pub open spec fn are_serving(indexes: Seq<IndexEntry>, base: Seq<char>, r: Seq<usize>) -> bool {
    let changed = position_of(indexes, base, 0);
    r == (if changed < indexes.len() {
        seq![changed as usize] + reaching(indexes, changed, indexes.len() as int)
    } else {
        Seq::empty()
    })
}

/// The positions of the indexes whose search document for a project on `base` must be rebuilt: its own,
/// then every virtual index that reaches it. An unknown name resolves to nothing.
pub fn serving_positions(indexes: &Vec<IndexEntry>, base: &str) -> (r: Vec<usize>)
    requires
        acyclic(indexes@),
    ensures
        are_serving(indexes@, base@, r@),
{
    let changed: usize = base_position(indexes, base);
    let mut out: Vec<usize> = Vec::new();
    if changed >= indexes.len() {
        return out;
    }
    out.push(changed);
    let ghost first = out@;
    assert(first =~= seq![changed]);
    let mut i: usize = 0;
    assert(first + Seq::<usize>::empty() =~= first);
    while i < indexes.len()
        invariant
            i <= indexes@.len(),
            acyclic(indexes@),
            out@ == first + reaching(indexes@, changed as int, i as int),
        decreases indexes.len() - i,
    {
        let ghost was = out@;
        if layers_reach(indexes, i, changed) {
            out.push(i);
            assert(out@ =~= first + reaching(indexes@, changed as int, i as int).push(i));
        }
        i = i + 1;
    }
    out
}

/// Whether one of the first `n` changed keys is a record of the project `normalized` that shows in the
/// index at `position`.
pub open spec fn project_changed(
    indexes: Seq<IndexEntry>,
    keys: Seq<String>,
    position: int,
    normalized: Seq<char>,
    n: int,
) -> bool {
    exists|i: int|
        0 <= i < n && key_project((#[trigger] keys[i])@) is Some && (key_project(keys[i]@)->0).1 == normalized
            && shows_change(indexes, (key_project(keys[i]@)->0).0, position)
}

/// The projects whose documents on the index at `position` a batch of replicated changes retires, each
/// once and in order.
pub fn changed_projects(indexes: &Vec<IndexEntry>, changed_keys: &Vec<String>, position: usize) -> (r: Vec<String>)
    requires
        acyclic(indexes@),
        position < indexes@.len(),
    ensures
        texts(r@) == listed(
            Set::new(
                |p: Seq<char>| project_changed(indexes@, changed_keys@, position as int, p, changed_keys@.len() as int),
            ),
        ),
{
    let mut out = TextSet::new();
    let mut n: usize = 0;
    while n < changed_keys.len()
        invariant
            n <= changed_keys@.len(),
            acyclic(indexes@),
            position < indexes@.len(),
            forall|p: Seq<char>| #[trigger]
                out@.contains(p) == project_changed(indexes@, changed_keys@, position as int, p, n as int),
        decreases changed_keys.len() - n,
    {
        let ghost was = out@;
        match project_of_key(changed_keys[n].as_str()) {
            Some((index, normalized)) => {
                if serves_change(indexes, index, position) {
                    out.insert(normalized.to_owned());
                }
            },
            None => {},
        }
        proof {
            assert forall|p: Seq<char>| #[trigger]
                out@.contains(p) == project_changed(indexes@, changed_keys@, position as int, p, n + 1) by {
                let named = key_project(changed_keys@[n as int]@);
                if named is Some && (named->0).1 == p && shows_change(indexes@, (named->0).0, position as int) {
                    assert(out@.contains(p));
                } else {
                    assert(out@.contains(p) == was.contains(p));
                }
                if project_changed(indexes@, changed_keys@, position as int, p, n as int) {
                    assert(was.contains(p));
                }
            }
        }
        n = n + 1;
    }
    assert(out@ =~= Set::new(
        |p: Seq<char>| project_changed(indexes@, changed_keys@, position as int, p, changed_keys@.len() as int),
    ));
    out.to_list()
}

/// A user name and password that a request presents.
#[derive(Debug)]
pub struct BasicCredential {
    pub user: String,
    pub password: String,
}

/// The user name that stands for a token in a user name and password.
pub const TOKEN_USER: &'static str = "__token__";

/// Whether `r` is the token that an upload presents for trusted publishing.
pub open spec fn is_presented(
    trusted_publishing: bool,
    bearer: Option<String>,
    basic: Option<BasicCredential>,
    r: Option<String>,
) -> bool {
    r == (if !trusted_publishing {
        None::<String>
    } else if bearer is Some {
        bearer
    } else if basic is Some && (basic->0).user@ == TOKEN_USER@ {
        Some((basic->0).password)
    } else {
        None
    })
}

/// The token that an upload presents for trusted publishing: a bearer token, or else the password of the
/// user name that stands for a token. Without trusted publishing there is none.
pub fn presented_token(trusted_publishing: bool, bearer: Option<String>, basic: Option<BasicCredential>) -> (r: Option<
    String,
>)
    ensures
        is_presented(trusted_publishing, bearer, basic, r),
{
    if !trusted_publishing {
        return None;
    }
    if bearer.is_some() {
        return bearer;
    }
    match basic {
        Some(basic) => if text_eq(basic.user.as_str(), TOKEN_USER) {
            Some(basic.password)
        } else {
            None
        },
        None => None,
    }
}

/// Whether `r` is the position of the index whose access list names a request's caller.
pub open spec fn is_identifying(kind: IndexKind, position: usize, r: usize) -> bool {
    r == (match write_position(kind, position) {
        Some(target) => target,
        None => position,
    })
}

/// The position of the index whose access list names a request's caller: that of the hosted index that
/// takes its uploads, or else that of the index itself, which grants nothing.
pub fn identifying_position(kind: &IndexKind, position: usize) -> (r: usize)
    ensures
        is_identifying(*kind, position, r),
{
    match upload_target(kind, position) {
        Some(target) => target,
        None => position,
    }
}

} // verus!
