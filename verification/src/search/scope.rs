//! Which projects and files an index covers, through the members of a virtual repository.
use vstd::prelude::*;

use crate::collections::TextSet;
use crate::search::detail::ContentSource;
use crate::text::{contains_char, cut_first, cut_prefix, split_once, strip_prefix};

verus! {

/// The project that an index record's key names under `index`.
pub open spec fn record_project(key: Seq<char>, index: Seq<char>) -> Option<Seq<char>> {
    match cut_prefix(key, index + seq!['/']) {
        Some(project) => if project.len() > 0 && !project.contains('/') {
            Some(project)
        } else {
            None
        },
        None => None,
    }
}

/// The project and the filename that an upload record's key names under `index`.
pub open spec fn upload_of(key: Seq<char>, index: Seq<char>) -> Option<(Seq<char>, Seq<char>)> {
    match cut_prefix(key, index + seq!['/']) {
        Some(rest) => match cut_first(rest, '/') {
            Some((project, filename)) => if project.len() > 0 && filename.len() > 0 {
                Some((project, filename))
            } else {
                None
            },
            None => None,
        },
        None => None,
    }
}

fn under_index<'a>(key: &'a str, index: &str) -> (r: Option<&'a str>)
    ensures
        match r {
            Some(rest) => cut_prefix(key@, index@ + seq!['/']) == Some(rest@),
            None => cut_prefix(key@, index@ + seq!['/']) is None,
        },
{
    let mut prefix = index.to_owned();
    prefix.push('/');
    assert(prefix@ =~= index@ + seq!['/']);
    strip_prefix(key, prefix.as_str())
}

/// The project that an index record's key names under `index`.
pub fn project_record_key<'a>(key: &'a str, index: &str) -> (r: Option<&'a str>)
    ensures
        match r {
            Some(project) => record_project(key@, index@) == Some(project@),
            None => record_project(key@, index@) is None,
        },
{
    let project = match under_index(key, index) {
        Some(project) => project,
        None => {
            return None;
        },
    };
    if project.unicode_len() > 0 && !contains_char(project, '/') {
        Some(project)
    } else {
        None
    }
}

/// The project and the filename that an upload record's key names under `index`.
pub fn upload_key<'a>(key: &'a str, index: &str) -> (r: Option<(&'a str, &'a str)>)
    ensures
        match r {
            Some((project, filename)) => upload_of(key@, index@) == Some((project@, filename@)),
            None => upload_of(key@, index@) is None,
        },
{
    let rest = match under_index(key, index) {
        Some(rest) => rest,
        None => {
            return None;
        },
    };
    match split_once(rest, '/') {
        Some((project, filename)) => {
            if project.unicode_len() > 0 && filename.unicode_len() > 0 {
                Some((project, filename))
            } else {
                None
            }
        },
        None => None,
    }
}

/// What an index is.
pub enum IndexKind {
    Cached,
    Hosted,
    Virtual { layers: Vec<usize>, write_target: Option<usize> },
}

/// A configured index.
pub struct IndexEntry {
    pub name: String,
    pub kind: IndexKind,
}

/// Whether `height` falls from every virtual index to its layers.
pub open spec fn descends(indexes: Seq<IndexEntry>, height: Seq<nat>) -> bool {
    &&& height.len() == indexes.len()
    &&& forall|p: int, i: int|
        0 <= p < indexes.len() && indexes[p].kind is Virtual && 0 <= i < indexes[p].kind->layers@.len()
            ==> #[trigger] indexes[p].kind->layers@[i] < indexes.len() && height[indexes[p].kind->layers@[i] as int]
            < height[p]
}

/// Whether every layer is a configured index and no virtual index contains itself.
pub open spec fn acyclic(indexes: Seq<IndexEntry>) -> bool {
    exists|height: Seq<nat>| descends(indexes, height)
}

/// How far an index stands above its leaves.
pub open spec fn height_of(indexes: Seq<IndexEntry>, position: int) -> nat {
    let height = choose|height: Seq<nat>| descends(indexes, height);
    height[position]
}

/// The projects that one leaf's records name.
pub open spec fn leaf_projects(entry: IndexEntry, index_keys: Seq<String>, upload_keys: Seq<String>) -> Set<Seq<char>> {
    if entry.kind is Cached {
        Set::new(
            |p: Seq<char>|
                exists|i: int|
                    0 <= i < index_keys.len() && record_project((#[trigger] index_keys[i])@, entry.name@) == Some(p),
        )
    } else {
        Set::new(
            |p: Seq<char>|
                exists|i: int|
                    0 <= i < upload_keys.len() && upload_of((#[trigger] upload_keys[i])@, entry.name@) is Some
                        && (upload_of(upload_keys[i]@, entry.name@)->0).0 == p,
        )
    }
}

/// The union of `sets` over the leaves of the index at `position`: its own when it is a leaf.
pub open spec fn over_leaves(indexes: Seq<IndexEntry>, sets: Seq<Set<Seq<char>>>, position: int) -> Set<Seq<char>>
    decreases height_of(indexes, position), 1nat, 0nat,
{
    if !acyclic(indexes) || !(0 <= position < indexes.len()) {
        Set::empty()
    } else {
        match indexes[position].kind {
            IndexKind::Virtual { layers, .. } => over_layers(indexes, sets, position, layers@.len()),
            _ => sets[position],
        }
    }
}

/// The union of `sets` over the leaves of the first `n` layers of the virtual index at `position`.
pub open spec fn over_layers(
    indexes: Seq<IndexEntry>,
    sets: Seq<Set<Seq<char>>>,
    position: int,
    n: nat,
) -> Set<Seq<char>>
    decreases height_of(indexes, position), 0nat, n,
    when acyclic(indexes) && 0 <= position < indexes.len() && indexes[position].kind is Virtual && n
        <= indexes[position].kind->layers@.len()
    via layers_descend
{
    if n == 0 {
        Set::empty()
    } else {
        over_layers(indexes, sets, position, (n - 1) as nat).union(
            over_leaves(indexes, sets, indexes[position].kind->layers@[n - 1] as int),
        )
    }
}

#[via_fn]
proof fn layers_descend(indexes: Seq<IndexEntry>, sets: Seq<Set<Seq<char>>>, position: int, n: nat) {
    if n > 0 {
        layer_is_lower(indexes, position, n - 1);
    }
}

/// A layer stands lower than the virtual index that holds it.
pub proof fn layer_is_lower(indexes: Seq<IndexEntry>, position: int, i: int)
    requires
        acyclic(indexes),
        0 <= position < indexes.len(),
        indexes[position].kind is Virtual,
        0 <= i < indexes[position].kind->layers@.len(),
    ensures
        indexes[position].kind->layers@[i] < indexes.len(),
        height_of(indexes, indexes[position].kind->layers@[i] as int) < height_of(indexes, position),
{
    let height = choose|height: Seq<nat>| descends(indexes, height);
    assert(descends(indexes, height));
    assert(indexes[position].kind->layers@[i] < indexes.len());
}

/// The sets as texts.
pub open spec fn set_views(sets: Seq<TextSet>) -> Seq<Set<Seq<char>>> {
    sets.map_values(|s: TextSet| s@)
}

/// Union what the leaves of an index hold into `out`. For a virtual index these are the leaves of its
/// layers, and so on down.
pub fn collect_over_leaves(indexes: &Vec<IndexEntry>, sets: &Vec<TextSet>, position: usize, out: &mut TextSet)
    requires
        acyclic(indexes@),
        position < indexes@.len(),
        sets@.len() == indexes@.len(),
    ensures
        final(out)@ == old(out)@.union(over_leaves(indexes@, set_views(sets@), position as int)),
    decreases height_of(indexes@, position as int),
{
    let ghost start = out@;
    let ghost views = set_views(sets@);
    match &indexes[position].kind {
        IndexKind::Virtual { layers, .. } => {
            let mut i: usize = 0;
            assert(out@ =~= start.union(over_layers(indexes@, views, position as int, 0)));
            while i < layers.len()
                invariant
                    i <= layers@.len(),
                    acyclic(indexes@),
                    position < indexes@.len(),
                    sets@.len() == indexes@.len(),
                    views == set_views(sets@),
                    indexes@[position as int].kind is Virtual,
                    indexes@[position as int].kind->layers == *layers,
                    out@ == start.union(over_layers(indexes@, views, position as int, i as nat)),
                decreases layers.len() - i,
            {
                proof {
                    layer_is_lower(indexes@, position as int, i as int);
                }
                collect_over_leaves(indexes, sets, layers[i], out);
                i = i + 1;
                assert(out@ =~= start.union(over_layers(indexes@, views, position as int, i as nat)));
            }
        },
        _ => {
            add_all(out, &sets[position]);
        },
    }
}

fn add_all(out: &mut TextSet, more: &TextSet)
    ensures
        final(out)@ == old(out)@.union(more@),
{
    let ghost start = out@;
    let n: usize = more.len();
    let mut i: usize = 0;
    assert(out@ =~= start.union(more.list().take(0).to_set()));
    while i < n
        invariant
            i <= n,
            n == more.list().len(),
            out@ == start.union(more.list().take(i as int).to_set()),
        decreases n - i,
    {
        let member: String = more.at(i).to_owned();
        let ghost key = member@;
        out.insert(member);
        proof {
            let upto = more.list().take(i + 1);
            let before = more.list().take(i as int);
            assert(upto =~= before.push(key));
            assert forall|v: Seq<char>| upto.contains(v) == (before.contains(v) || v == key) by {
                if before.contains(v) {
                    let j = choose|j: int| 0 <= j < before.len() && before[j] == v;
                    assert(upto[j] == v);
                }
                if v == key {
                    assert(upto[i as int] == v);
                }
                if upto.contains(v) {
                    let j = choose|j: int| 0 <= j < upto.len() && upto[j] == v;
                    if j < i {
                        assert(before[j] == v);
                    }
                }
            }
            assert(out@ =~= start.union(upto.to_set()));
        }
        i = i + 1;
    }
    assert(more.list().take(i as int) =~= more.list());
}

/// What each leaf's records name, and nothing for a virtual index.
pub open spec fn project_sets(indexes: Seq<IndexEntry>, index_keys: Seq<String>, upload_keys: Seq<String>) -> Seq<
    Set<Seq<char>>,
> {
    indexes.map_values(
        |entry: IndexEntry|
            if entry.kind is Virtual {
                Set::empty()
            } else {
                leaf_projects(entry, index_keys, upload_keys)
            },
    )
}

fn cached_projects(index: &str, keys: &Vec<String>) -> (r: TextSet)
    ensures
        forall|p: Seq<char>| #[trigger]
            r@.contains(p) == (exists|i: int|
                0 <= i < keys@.len() && record_project((#[trigger] keys@[i])@, index@) == Some(p)),
{
    let mut out = TextSet::new();
    let mut n: usize = 0;
    while n < keys.len()
        invariant
            n <= keys@.len(),
            forall|p: Seq<char>| #[trigger]
                out@.contains(p) == (exists|i: int|
                    0 <= i < n && record_project((#[trigger] keys@[i])@, index@) == Some(p)),
        decreases keys.len() - n,
    {
        let ghost was = out@;
        match project_record_key(keys[n].as_str(), index) {
            Some(project) => {
                out.insert(project.to_owned());
            },
            None => {},
        }
        proof {
            assert forall|p: Seq<char>| #[trigger]
                out@.contains(p) == (exists|i: int|
                    0 <= i < n + 1 && record_project((#[trigger] keys@[i])@, index@) == Some(p)) by {
                if record_project(keys@[n as int]@, index@) == Some(p) {
                    assert(out@.contains(p));
                } else if out@.contains(p) {
                    assert(was.contains(p));
                }
            }
        }
        n = n + 1;
    }
    out
}

fn hosted_projects(index: &str, keys: &Vec<String>) -> (r: TextSet)
    ensures
        forall|p: Seq<char>| #[trigger]
            r@.contains(p) == (exists|i: int|
                0 <= i < keys@.len() && upload_of((#[trigger] keys@[i])@, index@) is Some && (upload_of(
                    keys@[i]@,
                    index@,
                )->0).0 == p),
{
    let mut out = TextSet::new();
    let mut n: usize = 0;
    while n < keys.len()
        invariant
            n <= keys@.len(),
            forall|p: Seq<char>| #[trigger]
                out@.contains(p) == (exists|i: int|
                    0 <= i < n && upload_of((#[trigger] keys@[i])@, index@) is Some && (upload_of(
                        keys@[i]@,
                        index@,
                    )->0).0 == p),
        decreases keys.len() - n,
    {
        let ghost was = out@;
        match upload_key(keys[n].as_str(), index) {
            Some((project, _)) => {
                out.insert(project.to_owned());
            },
            None => {},
        }
        proof {
            assert forall|p: Seq<char>| #[trigger]
                out@.contains(p) == (exists|i: int|
                    0 <= i < n + 1 && upload_of((#[trigger] keys@[i])@, index@) is Some && (upload_of(
                        keys@[i]@,
                        index@,
                    )->0).0 == p) by {
                let named = upload_of(keys@[n as int]@, index@);
                if named is Some && (named->0).0 == p {
                    assert(out@.contains(p));
                } else if out@.contains(p) {
                    assert(was.contains(p));
                }
            }
        }
        n = n + 1;
    }
    out
}

/// The projects that an index covers: those its records name, or its layers' for a virtual index.
pub fn collect_projects(
    indexes: &Vec<IndexEntry>,
    position: usize,
    index_keys: &Vec<String>,
    upload_keys: &Vec<String>,
) -> (r: TextSet)
    requires
        acyclic(indexes@),
        position < indexes@.len(),
    ensures
        r@ == over_leaves(indexes@, project_sets(indexes@, index_keys@, upload_keys@), position as int),
{
    let ghost want = project_sets(indexes@, index_keys@, upload_keys@);
    let mut sets: Vec<TextSet> = Vec::new();
    let mut i: usize = 0;
    while i < indexes.len()
        invariant
            i <= indexes@.len(),
            want == project_sets(indexes@, index_keys@, upload_keys@),
            sets@.len() == i,
            forall|j: int| 0 <= j < i ==> (#[trigger] sets@[j])@ == want[j],
        decreases indexes.len() - i,
    {
        let entry = &indexes[i];
        let set = match &entry.kind {
            IndexKind::Cached => cached_projects(entry.name.as_str(), index_keys),
            IndexKind::Hosted => hosted_projects(entry.name.as_str(), upload_keys),
            IndexKind::Virtual { .. } => TextSet::new(),
        };
        assert(set@ =~= want[i as int]);
        sets.push(set);
        i = i + 1;
    }
    assert(set_views(sets@) =~= want);
    let mut out = TextSet::new();
    collect_over_leaves(indexes, &sets, position, &mut out);
    assert(out@ =~= over_leaves(indexes@, want, position as int));
    out
}

/// Whether `r` is where the content of a project comes from.
pub open spec fn is_source(kind: IndexKind, has_uploads: bool, has_overrides: bool, r: ContentSource) -> bool {
    r == (match kind {
        IndexKind::Hosted => ContentSource::Uploaded,
        IndexKind::Cached => ContentSource::Cached,
        IndexKind::Virtual { write_target, .. } => if write_target is Some && (has_uploads || has_overrides) {
            ContentSource::Override
        } else {
            ContentSource::Cached
        },
    })
}

/// Where the content of a project comes from: an upload layer that holds uploads or overrides of it marks
/// it overridden.
pub fn content_source(kind: &IndexKind, has_uploads: bool, has_overrides: bool) -> (r: ContentSource)
    ensures
        is_source(*kind, has_uploads, has_overrides, r),
{
    match kind {
        IndexKind::Hosted => ContentSource::Uploaded,
        IndexKind::Cached => ContentSource::Cached,
        IndexKind::Virtual { write_target, .. } => {
            if write_target.is_some() && (has_uploads || has_overrides) {
                ContentSource::Override
            } else {
                ContentSource::Cached
            }
        },
    }
}

} // verus!
