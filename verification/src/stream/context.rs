//! The surroundings of a page, from an index's own files and an operator's overrides.
use vstd::prelude::*;

use super::types::{yank_texts, LocalFile, PageContext};
use crate::collections::{TextMap, TextSet};
use crate::policy_engine::Policy;
use crate::simple::file::{Yanked, YankedText};
use crate::store::overrides::FileOverride;

verus! {

/// The names of the local files.
pub open spec fn local_names(files: Seq<LocalFile>) -> Set<Seq<char>> {
    Set::new(|name: Seq<char>| exists|i: int| 0 <= i < files.len() && (#[trigger] files[i]).file.filename@ == name)
}

/// The names that an operator hid.
pub open spec fn hidden_names(overrides: Map<Seq<char>, FileOverride>) -> Set<Seq<char>> {
    Set::new(|name: Seq<char>| overrides.contains_key(name) && overrides[name].hidden)
}

/// The yank states that an operator imposed.
pub open spec fn imposed_yanks(overrides: Map<Seq<char>, FileOverride>) -> Map<Seq<char>, YankedText> {
    Map::new(
        |name: Seq<char>| overrides.contains_key(name) && overrides[name].yanked != Yanked::No,
        |name: Seq<char>| overrides[name].yanked@,
    )
}

/// The context of a page: local files shadow the upstream files of the same name, hidden files are
/// skipped too, and yanks that an operator imposed stand.
pub fn page_context(
    route: &str,
    project: &str,
    policy: Policy,
    local_files: Vec<LocalFile>,
    local_versions: Vec<String>,
    overrides: &TextMap<FileOverride>,
) -> (r: PageContext)
    ensures
        r.route@ == route@,
        r.base is None,
        r.project@ == project@,
        r.policy == policy,
        r.local_files == local_files,
        r.local_versions == local_versions,
        r.skip@ == local_names(local_files@).union(hidden_names(overrides@)),
        r.hidden@ == hidden_names(overrides@),
        yank_texts(r.yanked@) == imposed_yanks(overrides@),
        r.known_metadata@ == Map::<Seq<char>, String>::empty(),
{
    let mut skip = TextSet::new();
    let mut i: usize = 0;
    while i < local_files.len()
        invariant
            i <= local_files@.len(),
            forall|name: Seq<char>| #[trigger]
                skip@.contains(name) <==> exists|j: int|
                    0 <= j < i && (#[trigger] local_files@[j]).file.filename@ == name,
        decreases local_files.len() - i,
    {
        let ghost was = skip@;
        let added: bool = skip.insert(local_files[i].file.filename.clone());
        assert forall|name: Seq<char>| #[trigger] skip@.contains(name) <==> exists|j: int|
            0 <= j < i + 1 && (#[trigger] local_files@[j]).file.filename@ == name by {
            if was.contains(name) {
                let j = choose|j: int| 0 <= j < i && (#[trigger] local_files@[j]).file.filename@ == name;
                assert(local_files@[j].file.filename@ == name);
            }
            if name == local_files@[i as int].file.filename@ {
                assert(local_files@[i as int].file.filename@ == name);
            }
        }
        i = i + 1;
    }
    let ghost names = local_names(local_files@);
    assert(skip@ =~= names);
    let mut hidden = TextSet::new();
    let mut yanked: TextMap<Yanked> = TextMap::new();
    let n: usize = overrides.len();
    let ghost keys = overrides.keys();
    let mut k: usize = 0;
    while k < n
        invariant
            k <= n,
            n == keys.len(),
            keys == overrides.keys(),
            n == overrides.values().len(),
            overrides@.dom() == keys.to_set(),
            forall|j: int|
                0 <= j < keys.len() ==> overrides@.contains_key(#[trigger] keys[j]) && overrides@[keys[j]]
                    == overrides.values()[j],
            forall|name: Seq<char>| #[trigger]
                hidden@.contains(name) <==> keys.take(k as int).contains(name) && overrides@[name].hidden,
            forall|name: Seq<char>| #[trigger]
                skip@.contains(name) <==> names.contains(name) || (keys.take(k as int).contains(name)
                    && overrides@[name].hidden),
            forall|name: Seq<char>| #[trigger]
                yanked@.contains_key(name) <==> keys.take(k as int).contains(name) && overrides@[name].yanked
                    != Yanked::No,
            forall|name: Seq<char>| #[trigger]
                yanked@.contains_key(name) ==> yanked@[name] == overrides@[name].yanked,
        decreases n - k,
    {
        let name = overrides.key_at(k);
        let record = overrides.value_at(k);
        let ghost fewer = keys.take(k as int);
        let ghost more = keys.take(k + 1);
        assert(more =~= fewer.push(name@));
        assert forall|q: Seq<char>| #[trigger] more.contains(q) <==> fewer.contains(q) || q == name@ by {
            if fewer.contains(q) {
                let m = choose|m: int| 0 <= m < fewer.len() && fewer[m] == q;
                assert(more[m] == q);
            }
            if q == name@ {
                assert(more[k as int] == q);
            }
        }
        if record.hidden {
            let first: bool = skip.insert(name.to_owned());
            let second: bool = hidden.insert(name.to_owned());
        }
        if !matches!(record.yanked, Yanked::No) {
            yanked.insert(name.to_owned(), record.yanked.copied());
        }
        k = k + 1;
    }
    proof {
        assert(keys.take(n as int) =~= keys);
        assert forall|name: Seq<char>| keys.contains(name) == overrides@.contains_key(name) by {
            assert(keys.to_set().contains(name) == keys.contains(name));
        }
        assert(hidden@ =~= hidden_names(overrides@));
        assert(skip@ =~= names.union(hidden_names(overrides@)));
        assert(yank_texts(yanked@) =~= imposed_yanks(overrides@));
    }
    PageContext {
        route: route.to_owned(),
        base: None,
        project: project.to_owned(),
        policy,
        local_files,
        local_versions,
        skip,
        hidden,
        yanked,
        known_metadata: TextMap::new(),
    }
}

} // verus!
