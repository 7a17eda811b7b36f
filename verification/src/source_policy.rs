//! Which members of a virtual repository may contribute to one project's view.
//!
//! Resolution serves the answer and the search indexer describes it. When the two compute it apart they
//! drift, so both go through [`SourceSelection`].
use vstd::prelude::*;

use crate::policy::{opt_denial, DenialText, FallbackMode, PolicyDenial};

verus! {

/// A virtual repository's source policy, evaluated once for one project.
pub struct SourceSelection {
    mode: FallbackMode,
    cached_denial: Option<PolicyDenial>,
}

/// Whether the member at `position` reaches a cached index.
pub open spec fn reaches(reaches_cached: Seq<bool>, position: usize) -> bool {
    position < reaches_cached.len() && reaches_cached[position as int]
}

fn reaches_at(reaches_cached: &Vec<bool>, position: usize) -> (r: bool)
    ensures
        r == reaches(reaches_cached@, position),
{
    position < reaches_cached.len() && reaches_cached[position]
}

/// A consulted member: its position, whether it produced files, and what it produced.
pub struct Member<T> {
    pub position: usize,
    pub has_files: bool,
    pub value: T,
}

impl SourceSelection {
    pub closed spec fn fallback(self) -> FallbackMode {
        self.mode
    }

    pub closed spec fn denial(self) -> Option<DenialText> {
        opt_denial(self.cached_denial)
    }

    /// The selection of a policy's mode and of what the policy says about serving the project from a
    /// cached member.
    pub fn new(mode: FallbackMode, cached_denial: Option<PolicyDenial>) -> (r: Self)
        ensures
            r.fallback() == mode,
            r.denial() == opt_denial(cached_denial),
    {
        SourceSelection { mode, cached_denial }
    }

    /// How cached members are treated.
    pub fn mode(&self) -> (r: FallbackMode)
        ensures
            r == self.fallback(),
    {
        self.mode
    }

    /// Why every cached-reaching member was excluded, so that a caller left with no member at all can
    /// report the denial rather than a bare miss.
    pub fn into_cached_denial(self) -> (r: Option<PolicyDenial>)
        ensures
            opt_denial(r) == self.denial(),
    {
        self.cached_denial
    }

    /// Whether a member may be consulted. One that reaches a cached index is out when the mode forbids
    /// upstream content or the project is denied it.
    pub open spec fn consults(self, reaches_cached: Seq<bool>, position: usize) -> bool {
        (!(self.fallback() is NoFallback) && self.denial() is None) || !reaches(reaches_cached, position)
    }

    /// The members of `order` that may be consulted.
    pub open spec fn consulted(self, order: Seq<usize>, reaches_cached: Seq<bool>) -> Seq<usize> {
        order.filter(|p: usize| self.consults(reaches_cached, p))
    }

    /// The members worth consulting, in shadow order.
    pub fn candidates(&self, shadow_order: &Vec<usize>, reaches_cached: &Vec<bool>) -> (r: Vec<usize>)
        ensures
            r@ == self.consulted(shadow_order@, reaches_cached@),
    {
        let consult_cached: bool = self.mode != FallbackMode::NoFallback && self.cached_denial.is_none();
        let ghost keep = |p: usize| self.consults(reaches_cached@, p);
        let mut out: Vec<usize> = Vec::new();
        let mut i: usize = 0;
        reveal(Seq::filter);
        assert(shadow_order@.take(0).filter(keep) =~= Seq::<usize>::empty());
        while i < shadow_order.len()
            invariant
                i <= shadow_order@.len(),
                consult_cached == (!(self.fallback() is NoFallback) && self.denial() is None),
                keep == (|p: usize| self.consults(reaches_cached@, p)),
                out@ == shadow_order@.take(i as int).filter(keep),
            decreases shadow_order.len() - i,
        {
            reveal(Seq::filter);
            let position: usize = shadow_order[i];
            assert(shadow_order@.take(i + 1).drop_last() =~= shadow_order@.take(i as int));
            assert(shadow_order@.take(i + 1).last() == position);
            if consult_cached || !reaches_at(reaches_cached, position) {
                out.push(position);
            }
            i = i + 1;
        }
        assert(shadow_order@.take(i as int) =~= shadow_order@);
        out
    }

    /// Narrow the consulted members to the ones that reach the merged view, now that each member's files
    /// are known: every mode but plain fallback drops a member that produced none, and `private-first`
    /// then drops the cached-reaching members that a member of another kind shadows. Says whether a
    /// cached-reaching member lost that race.
    pub fn retain_selected<T>(&self, members: Vec<Member<T>>, reaches_cached: &Vec<bool>) -> (r: (
        Vec<Member<T>>,
        bool,
    ))
        ensures
            r.0@ == selected(self.fallback(), members@, reaches_cached@),
            r.1 == collides(self.fallback(), members@, reaches_cached@),
    {
        if self.mode == FallbackMode::Fallback {
            return (members, false);
        }
        let members = keep_with_files(members);
        if self.mode != FallbackMode::PrivateFirst {
            return (members, false);
        }
        let mut own: bool = false;
        let mut cached: bool = false;
        let ghost kept = members@;
        let mut i: usize = 0;
        while i < members.len()
            invariant
                i <= members@.len(),
                kept == members@,
                own == (exists|j: int| 0 <= j < i && !reaches(reaches_cached@, (#[trigger] kept[j]).position)),
                cached == (exists|j: int| 0 <= j < i && reaches(reaches_cached@, (#[trigger] kept[j]).position)),
            decreases members.len() - i,
        {
            let position: usize = members[i].position;
            assert(kept[i as int].position == position);
            if reaches_at(reaches_cached, position) {
                cached = true;
            } else {
                own = true;
            }
            i = i + 1;
        }
        if !own {
            return (members, false);
        }
        (keep_own(members, reaches_cached), cached)
    }
}

/// Whether one of `members` reaches no cached index.
pub open spec fn some_own<T>(members: Seq<Member<T>>, reaches_cached: Seq<bool>) -> bool {
    exists|j: int| 0 <= j < members.len() && !reaches(reaches_cached, (#[trigger] members[j]).position)
}

/// Whether one of `members` reaches a cached index.
pub open spec fn some_cached<T>(members: Seq<Member<T>>, reaches_cached: Seq<bool>) -> bool {
    exists|j: int| 0 <= j < members.len() && reaches(reaches_cached, (#[trigger] members[j]).position)
}

/// The members that produced files.
pub open spec fn with_files<T>(members: Seq<Member<T>>) -> Seq<Member<T>> {
    members.filter(|m: Member<T>| m.has_files)
}

/// The members that reach no cached index.
pub open spec fn own_members<T>(members: Seq<Member<T>>, reaches_cached: Seq<bool>) -> Seq<Member<T>> {
    members.filter(|m: Member<T>| !reaches(reaches_cached, m.position))
}

/// The members that reach the merged view.
pub open spec fn selected<T>(mode: FallbackMode, members: Seq<Member<T>>, reaches_cached: Seq<bool>) -> Seq<Member<T>> {
    if mode is Fallback {
        members
    } else if mode is PrivateFirst && some_own(with_files(members), reaches_cached) {
        own_members(with_files(members), reaches_cached)
    } else {
        with_files(members)
    }
}

/// Whether a cached-reaching member is shadowed.
pub open spec fn collides<T>(mode: FallbackMode, members: Seq<Member<T>>, reaches_cached: Seq<bool>) -> bool {
    mode is PrivateFirst && some_own(with_files(members), reaches_cached) && some_cached(
        with_files(members),
        reaches_cached,
    )
}

fn keep_with_files<T>(members: Vec<Member<T>>) -> (r: Vec<Member<T>>)
    ensures
        r@ == with_files(members@),
{
    let ghost all = members@;
    let ghost keep = |m: Member<T>| m.has_files;
    let n: usize = members.len();
    let mut out: Vec<Member<T>> = Vec::new();
    reveal(Seq::filter);
    assert(all.take(0).filter(keep) =~= Seq::<Member<T>>::empty());
    for member in it: members
        invariant
            it.seq() == all,
            n == all.len(),
            keep == (|m: Member<T>| m.has_files),
            out@ == all.take(it.index() as int).filter(keep),
    {
        reveal(Seq::filter);
        let ghost i = it.index();
        assert(all.take(i + 1).drop_last() =~= all.take(i as int));
        assert(all.take(i + 1).last() == member);
        if member.has_files {
            out.push(member);
        }
    }
    assert(all.take(n as int) =~= all);
    out
}

fn keep_own<T>(members: Vec<Member<T>>, reaches_cached: &Vec<bool>) -> (r: Vec<Member<T>>)
    ensures
        r@ == own_members(members@, reaches_cached@),
{
    let ghost all = members@;
    let ghost keep = |m: Member<T>| !reaches(reaches_cached@, m.position);
    let n: usize = members.len();
    let mut out: Vec<Member<T>> = Vec::new();
    reveal(Seq::filter);
    assert(all.take(0).filter(keep) =~= Seq::<Member<T>>::empty());
    for member in it: members
        invariant
            it.seq() == all,
            n == all.len(),
            keep == (|m: Member<T>| !reaches(reaches_cached@, m.position)),
            out@ == all.take(it.index() as int).filter(keep),
    {
        reveal(Seq::filter);
        let ghost i = it.index();
        assert(all.take(i + 1).drop_last() =~= all.take(i as int));
        assert(all.take(i + 1).last() == member);
        if !reaches_at(reaches_cached, member.position) {
            out.push(member);
        }
    }
    assert(all.take(n as int) =~= all);
    out
}

/// A filtered sequence holds only elements that pass.
proof fn filtered_pass<T>(s: Seq<T>, keep: spec_fn(T) -> bool)
    ensures
        forall|i: int| 0 <= i < s.filter(keep).len() ==> keep(#[trigger] s.filter(keep)[i]),
    decreases s.len(),
{
    reveal(Seq::filter);
    if s.len() > 0 {
        filtered_pass(s.drop_last(), keep);
        let fewer = s.drop_last().filter(keep);
        assert forall|i: int| 0 <= i < s.filter(keep).len() implies keep(#[trigger] s.filter(keep)[i]) by {
            if i < fewer.len() {
                assert(keep(fewer[i]));
            }
        }
    }
}

/// A private-first view never mixes a hosted member's files with upstream ones: once a member of its own
/// produced files, no cached-reaching member is selected.
pub proof fn private_first_keeps_upstream_out<T>(members: Seq<Member<T>>, reaches_cached: Seq<bool>)
    requires
        some_own(with_files(members), reaches_cached),
    ensures
        !some_cached(selected(FallbackMode::PrivateFirst, members, reaches_cached), reaches_cached),
{
    filtered_pass(with_files(members), |m: Member<T>| !reaches(reaches_cached, m.position));
}

/// A repository without fallback consults no member that reaches a cached index.
pub proof fn no_fallback_consults_no_cached_member(
    selection: SourceSelection,
    order: Seq<usize>,
    reaches_cached: Seq<bool>,
)
    requires
        selection.fallback() is NoFallback || selection.denial() is Some,
    ensures
        forall|i: int|
            0 <= i < selection.consulted(order, reaches_cached).len() ==> !reaches(
                reaches_cached,
                #[trigger] selection.consulted(order, reaches_cached)[i],
            ),
{
    filtered_pass(order, |p: usize| selection.consults(reaches_cached, p));
}

} // verus!
