//! The shadow query: its validation, and the page of candidates it cuts.
use vstd::prelude::*;

use crate::collections::{ascending, ascending_unique};
use crate::text::{
    before, before_irreflexive, before_total, before_transitive, decimal, decimal_text, opt_clone, opt_text,
    text_before,
};
use vstd::utf8::encode_utf8;

verus! {

pub const MAX_LIMIT: usize = 100;

pub const MAX_PROJECT_BYTES: usize = 512;

pub const MAX_CURSOR_BYTES: usize = 1024;

/// A query for the candidates of one project.
#[derive(Debug)]
pub struct ShadowQuery {
    pub repository: String,
    pub project: String,
    pub cursor: Option<String>,
    pub limit: usize,
}

/// Why a shadow query is refused.
#[derive(Debug)]
pub enum ShadowQueryError {
    InvalidLimit,
    InvalidCursor,
    ProjectTooLong,
    Store(String),
}

/// A query error, its text seen as characters.
pub enum ShadowErrorText {
    InvalidLimit,
    InvalidCursor,
    ProjectTooLong,
    Store(Seq<char>),
}

impl ShadowQueryError {
    pub open spec fn view(self) -> ShadowErrorText {
        match self {
            ShadowQueryError::InvalidLimit => ShadowErrorText::InvalidLimit,
            ShadowQueryError::InvalidCursor => ShadowErrorText::InvalidCursor,
            ShadowQueryError::ProjectTooLong => ShadowErrorText::ProjectTooLong,
            ShadowQueryError::Store(message) => ShadowErrorText::Store(message@),
        }
    }

    /// What a client is told.
    pub fn message(&self) -> (r: String)
        ensures
            r@ == self@.sentence(),
    {
        match self {
            ShadowQueryError::InvalidLimit => {
                let mut out = "limit must be between 1 and ".to_owned();
                let number = decimal_text(MAX_LIMIT as u64);
                out.append(number.as_str());
                out
            },
            ShadowQueryError::InvalidCursor => "invalid shadow cursor".to_owned(),
            ShadowQueryError::ProjectTooLong => {
                let mut out = "project filter exceeds ".to_owned();
                let number = decimal_text(MAX_PROJECT_BYTES as u64);
                out.append(number.as_str());
                out.append(" bytes");
                out
            },
            ShadowQueryError::Store(message) => message.clone(),
        }
    }
}

impl ShadowErrorText {
    pub open spec fn sentence(self) -> Seq<char> {
        match self {
            ShadowErrorText::InvalidLimit => "limit must be between 1 and "@ + decimal(MAX_LIMIT as nat),
            ShadowErrorText::InvalidCursor => "invalid shadow cursor"@,
            ShadowErrorText::ProjectTooLong => "project filter exceeds "@ + decimal(MAX_PROJECT_BYTES as nat)
                + " bytes"@,
            ShadowErrorText::Store(message) => message,
        }
    }
}

/// How many bytes a text has.
pub open spec fn byte_len(s: Seq<char>) -> nat {
    encode_utf8(s).len()
}

/// Why a query is refused: its limit first, then its cursor, then its project.
pub open spec fn query_error(query: ShadowQuery) -> Option<ShadowErrorText> {
    if !(1 <= query.limit <= MAX_LIMIT) {
        Some(ShadowErrorText::InvalidLimit)
    } else if query.cursor is Some && ((query.cursor->0)@.len() == 0 || byte_len((query.cursor->0)@)
        > MAX_CURSOR_BYTES) {
        Some(ShadowErrorText::InvalidCursor)
    } else if byte_len(query.project@) > MAX_PROJECT_BYTES {
        Some(ShadowErrorText::ProjectTooLong)
    } else {
        None
    }
}

impl ShadowQuery {
    /// Validate pagination and the bounded project filter without reading storage.
    pub fn validate(&self) -> (r: Result<(), ShadowQueryError>)
        ensures
            match query_error(*self) {
                Some(error) => r matches Err(e) && e@ == error,
                None => r is Ok,
            },
    {
        if !(1 <= self.limit && self.limit <= MAX_LIMIT) {
            return Err(ShadowQueryError::InvalidLimit);
        }
        match &self.cursor {
            Some(cursor) => {
                if cursor.as_str().is_empty() || cursor.as_str().as_bytes().len() > MAX_CURSOR_BYTES {
                    return Err(ShadowQueryError::InvalidCursor);
                }
            },
            None => {},
        }
        if self.project.as_str().as_bytes().len() > MAX_PROJECT_BYTES {
            return Err(ShadowQueryError::ProjectTooLong);
        }
        Ok(())
    }
}

/// Where a candidate comes from.
#[derive(Debug, Clone, Copy, PartialEq, Eq, Structural)]
pub enum ShadowSource {
    Hosted,
    Cached,
}

/// One candidate of a resolution. Its cursor is its stable identity, by which pages are cut.
#[derive(Debug)]
pub struct ShadowCandidate {
    pub cursor: String,
    pub member: String,
    pub source: &'static str,
    pub filename: String,
    pub digest: Option<String>,
    pub selected: bool,
    pub reason: Option<&'static str>,
}

impl ShadowCandidate {
    /// A copy.
    pub fn copied(&self) -> (r: Self)
        ensures
            r == *self,
    {
        ShadowCandidate {
            cursor: self.cursor.clone(),
            member: self.member.clone(),
            source: self.source,
            filename: self.filename.clone(),
            digest: opt_clone(&self.digest),
            selected: self.selected,
            reason: self.reason,
        }
    }
}

/// A page of resolution candidates, with the cursor that resumes after the last row.
#[derive(Debug)]
pub struct ShadowPage {
    pub candidates: Vec<ShadowCandidate>,
    pub next_cursor: Option<String>,
}

/// Whether no candidate's cursor stands before that of one that precedes it.
pub open spec fn by_cursor(list: Seq<ShadowCandidate>) -> bool {
    forall|i: int, j: int|
        0 <= i < j < list.len() ==> !before((#[trigger] list[j]).cursor@, (#[trigger] list[i]).cursor@)
}

proof fn inserting_keeps_cursor_order(items: Seq<ShadowCandidate>, at: int, item: ShadowCandidate)
    requires
        by_cursor(items),
        0 <= at <= items.len(),
        forall|j: int| 0 <= j < at ==> !before(item.cursor@, (#[trigger] items[j]).cursor@),
        at < items.len() ==> before(item.cursor@, items[at].cursor@),
    ensures
        by_cursor(items.insert(at, item)),
{
    let now = items.insert(at, item);
    assert forall|i: int, j: int| 0 <= i < j < now.len() implies !before(
        (#[trigger] now[j]).cursor@,
        (#[trigger] now[i]).cursor@,
    ) by {
        let x = if i < at { i } else { i - 1 };
        let y = if j < at { j } else { j - 1 };
        if i == at {
            if before(items[y].cursor@, item.cursor@) {
                before_transitive(items[y].cursor@, item.cursor@, items[at].cursor@);
                if y > at {
                    assert(!before(items[y].cursor@, items[at].cursor@));
                } else {
                    before_irreflexive(items[at].cursor@);
                }
            }
        } else if j == at {
        } else {
            assert(!before(items[y].cursor@, items[x].cursor@));
        }
    }
}

/// Sort candidates by their cursors.
fn sort_candidates(candidates: Vec<ShadowCandidate>) -> (r: Vec<ShadowCandidate>)
    ensures
        by_cursor(r@),
        r@.to_multiset() == candidates@.to_multiset(),
{
    let ghost all = candidates@;
    let n: usize = candidates.len();
    let mut out: Vec<ShadowCandidate> = Vec::new();
    assert(all.take(0) =~= out@);
    for candidate in it: candidates
        invariant
            it.seq() == all,
            n == all.len(),
            by_cursor(out@),
            out@.len() == it.index(),
            out@.to_multiset() == all.take(it.index() as int).to_multiset(),
    {
        let mut at: usize = 0;
        while at < out.len() && !text_before(candidate.cursor.as_str(), out[at].cursor.as_str())
            invariant
                at <= out@.len(),
                forall|j: int| 0 <= j < at ==> !before(candidate.cursor@, (#[trigger] out@[j]).cursor@),
            decreases out.len() - at,
        {
            at = at + 1;
        }
        let ghost so_far = out@;
        let ghost i = it.index();
        out.insert(at, candidate);
        proof {
            inserting_keeps_cursor_order(so_far, at as int, candidate);
            out@.to_multiset_ensures();
            assert(out@[at as int] == candidate);
            assert(out@.remove(at as int) =~= so_far);
            assert(out@.contains(candidate));
            assert(out@.to_multiset() =~= so_far.to_multiset().insert(candidate));
            let fewer = all.take(i as int);
            assert(all.take(i + 1) =~= fewer.push(candidate));
            fewer.to_multiset_ensures();
        }
    }
    assert(all.take(n as int) =~= all);
    out
}

/// Where a page begins in a sorted list: behind every candidate whose cursor is not behind the given one.
pub open spec fn page_start(list: Seq<ShadowCandidate>, cursor: Option<Seq<char>>, start: int) -> bool {
    match cursor {
        None => start == 0,
        Some(cursor) => {
            &&& 0 <= start <= list.len()
            &&& forall|i: int| 0 <= i < start ==> !before(cursor, (#[trigger] list[i]).cursor@)
            &&& forall|i: int| start <= i < list.len() ==> before(cursor, (#[trigger] list[i]).cursor@)
        },
    }
}

/// Whether `page` is what the query cuts from the sorted candidates `list`.
pub open spec fn is_page(list: Seq<ShadowCandidate>, query: ShadowQuery, page: ShadowPage) -> bool {
    exists|start: int| #[trigger]
        page_start(list, opt_text(query.cursor), start) && {
            let rest = list.skip(start);
            let n = if rest.len() > query.limit {
                query.limit as int
            } else {
                rest.len() as int
            };
            &&& page.candidates@ == rest.take(n)
            &&& opt_text(page.next_cursor) == (if rest.len() > query.limit {
                Some(rest[query.limit - 1].cursor@)
            } else {
                None
            })
        }
}

/// Whether `page` is what the query cuts from the candidates, once they are sorted.
pub open spec fn cuts(candidates: Seq<ShadowCandidate>, query: ShadowQuery, page: ShadowPage) -> bool {
    exists|list: Seq<ShadowCandidate>|
        by_cursor(list) && list.to_multiset() == candidates.to_multiset() && #[trigger] is_page(list, query, page)
}

/// Order the candidates on their stable identity cursor and cut the requested page.
pub fn paginate(candidates: Vec<ShadowCandidate>, query: &ShadowQuery) -> (r: ShadowPage)
    requires
        query.limit >= 1,
    ensures
        cuts(candidates@, *query, r),
{
    let sorted = sort_candidates(candidates);
    let ghost list = sorted@;
    let n: usize = sorted.len();
    let mut start: usize = 0;
    match &query.cursor {
        Some(cursor) => {
            while start < n && !text_before(cursor.as_str(), sorted[start].cursor.as_str())
                invariant
                    start <= n,
                    n == sorted@.len(),
                    forall|i: int| 0 <= i < start ==> !before(cursor@, (#[trigger] sorted@[i]).cursor@),
                decreases n - start,
            {
                start = start + 1;
            }
            assert forall|i: int| start <= i < list.len() implies before(cursor@, (#[trigger] list[i]).cursor@) by {
                if i > start {
                    assert(!before(list[i].cursor@, list[start as int].cursor@));
                    before_total(list[start as int].cursor@, list[i].cursor@);
                    if before(list[start as int].cursor@, list[i].cursor@) {
                        before_transitive(cursor@, list[start as int].cursor@, list[i].cursor@);
                    }
                }
            }
        },
        None => {},
    }
    assert(page_start(list, opt_text(query.cursor), start as int));
    let ghost rest = list.skip(start as int);
    let remaining: usize = n - start;
    let take: usize = if remaining > query.limit {
        query.limit
    } else {
        remaining
    };
    let next_cursor: Option<String> = if remaining > query.limit {
        Some(sorted[start + (query.limit - 1)].cursor.clone())
    } else {
        None
    };
    let mut page: Vec<ShadowCandidate> = Vec::new();
    let mut i: usize = 0;
    while i < take
        invariant
            i <= take,
            start + take <= n,
            n == sorted@.len(),
            list == sorted@,
            rest == list.skip(start as int),
            page@ == rest.take(i as int),
        decreases take - i,
    {
        page.push(sorted[start + i].copied());
        i = i + 1;
        assert(rest.take(i as int) =~= rest.take(i - 1).push(rest[i - 1]));
    }
    let r = ShadowPage { candidates: page, next_cursor };
    assert(is_page(list, *query, r));
    r
}

/// Every candidate of a page stands behind the query's cursor, so that resuming from a page never repeats
/// it.
pub proof fn pages_stand_behind_their_cursor(
    list: Seq<ShadowCandidate>,
    query: ShadowQuery,
    page: ShadowPage,
    i: int,
)
    requires
        query.cursor is Some,
        is_page(list, query, page),
        0 <= i < page.candidates@.len(),
    ensures
        before((query.cursor->0)@, page.candidates@[i].cursor@),
{
    let start = choose|start: int| #[trigger]
        page_start(list, opt_text(query.cursor), start) && {
            let rest = list.skip(start);
            let n = if rest.len() > query.limit {
                query.limit as int
            } else {
                rest.len() as int
            };
            page.candidates@ == rest.take(n)
        };
    assert(page.candidates@[i] == list[start + i]);
}

/// Whether no two candidates share a cursor.
pub open spec fn distinct_cursors(list: Seq<ShadowCandidate>) -> bool {
    forall|i: int, j: int|
        0 <= i < j < list.len() ==> (#[trigger] list[i]).cursor@ != (#[trigger] list[j]).cursor@
}

/// The cursors of a list.
pub open spec fn cursors(list: Seq<ShadowCandidate>) -> Seq<Seq<char>> {
    list.map_values(|c: ShadowCandidate| c.cursor@)
}

proof fn sorted_cursors_ascend(list: Seq<ShadowCandidate>)
    requires
        by_cursor(list),
        distinct_cursors(list),
    ensures
        ascending(cursors(list)),
{
    assert forall|i: int, j: int| 0 <= i < j < cursors(list).len() implies before(
        #[trigger] cursors(list)[i],
        #[trigger] cursors(list)[j],
    ) by {
        assert(!before(list[j].cursor@, list[i].cursor@));
        assert(list[i].cursor@ != list[j].cursor@);
        before_total(list[i].cursor@, list[j].cursor@);
    }
}

/// Candidates with distinct cursors can be sorted in one way only, so that the pages of one resolution are cut
/// from one list.
pub proof fn sorting_is_unique(a: Seq<ShadowCandidate>, b: Seq<ShadowCandidate>)
    requires
        by_cursor(a),
        by_cursor(b),
        a.to_multiset() == b.to_multiset(),
        distinct_cursors(a),
    ensures
        a == b,
{
    a.to_multiset_ensures();
    b.to_multiset_ensures();
    assert(a.no_duplicates());
    a.lemma_multiset_has_no_duplicates();
    b.lemma_multiset_has_no_duplicates_conv();
    assert forall|x: ShadowCandidate| a.contains(x) == b.contains(x) by {
        assert(a.contains(x) <==> a.to_multiset().count(x) > 0);
        assert(b.contains(x) <==> b.to_multiset().count(x) > 0);
    }
    assert forall|i: int, j: int| 0 <= i < j < b.len() implies (#[trigger] b[i]).cursor@ != (
    #[trigger] b[j]).cursor@ by {
        assert(b.contains(b[i]));
        assert(b.contains(b[j]));
        let m = choose|m: int| 0 <= m < a.len() && a[m] == b[i];
        let n = choose|n: int| 0 <= n < a.len() && a[n] == b[j];
        assert(b[i] != b[j]);
        assert(m < n || n < m);
    }
    sorted_cursors_ascend(a);
    sorted_cursors_ascend(b);
    assert forall|k: Seq<char>| cursors(a).contains(k) == cursors(b).contains(k) by {
        if cursors(a).contains(k) {
            let i = choose|i: int| 0 <= i < cursors(a).len() && cursors(a)[i] == k;
            assert(a.contains(a[i]));
            let j = choose|j: int| 0 <= j < b.len() && b[j] == a[i];
            assert(cursors(b)[j] == k);
        }
        if cursors(b).contains(k) {
            let i = choose|i: int| 0 <= i < cursors(b).len() && cursors(b)[i] == k;
            assert(b.contains(b[i]));
            let j = choose|j: int| 0 <= j < a.len() && a[j] == b[i];
            assert(cursors(a)[j] == k);
        }
    }
    ascending_unique(cursors(a), cursors(b));
    assert(cursors(a).len() == a.len() && cursors(b).len() == b.len());
    assert forall|i: int| 0 <= i < a.len() implies a[i] == b[i] by {
        assert(a.contains(a[i]));
        let j = choose|j: int| 0 <= j < b.len() && b[j] == a[i];
        assert(cursors(a)[i] == cursors(b)[i]);
        assert(b[j].cursor@ == b[i].cursor@);
        assert(!(i < j) && !(j < i));
    }
    assert(a =~= b);
}

/// The candidates of several pages, one after the other.
pub open spec fn joined(pages: Seq<ShadowPage>) -> Seq<ShadowCandidate>
    decreases pages.len(),
{
    if pages.len() == 0 {
        Seq::empty()
    } else {
        joined(pages.drop_last()) + pages.last().candidates@
    }
}

/// Whether `pages` answer `queries` over the same candidates, where the first query has no cursor, each of the
/// others resumes where the page before it ended, and all of them ask for as many rows.
pub open spec fn read_through(
    candidates: Seq<ShadowCandidate>,
    limit: usize,
    queries: Seq<ShadowQuery>,
    pages: Seq<ShadowPage>,
) -> bool {
    &&& queries.len() == pages.len() > 0
    &&& queries[0].cursor is None
    &&& forall|i: int|
        0 <= i < pages.len() ==> (#[trigger] queries[i]).limit == limit && cuts(candidates, queries[i], pages[i])
    &&& forall|i: int|
        0 < i < pages.len() ==> (#[trigger] queries[i]).cursor is Some && opt_text(queries[i].cursor) == opt_text(
            pages[i - 1].next_cursor,
        )
}

proof fn resuming_starts_behind(list: Seq<ShadowCandidate>, done: int, start: int)
    requires
        by_cursor(list),
        distinct_cursors(list),
        0 < done <= list.len(),
        page_start(list, Some(list[done - 1].cursor@), start),
    ensures
        start == done,
{
    let cursor = list[done - 1].cursor@;
    if start < done {
        assert(before(cursor, list[start].cursor@));
        if start < done - 1 {
            assert(!before(list[done - 1].cursor@, list[start].cursor@));
        } else {
            before_irreflexive(cursor);
        }
    }
    if start > done {
        assert(!before(cursor, list[done].cursor@));
        assert(!before(list[done].cursor@, list[done - 1].cursor@));
        assert(list[done - 1].cursor@ != list[done].cursor@);
        before_total(cursor, list[done].cursor@);
    }
}

/// Pages read one after the other, each from the cursor of the one before it, hold the sorted candidates from
/// the first on, each once and none left out. Every page but the last is full, and the last one names a cursor
/// exactly where candidates remain: without one, the pages together are the whole list.
pub proof fn pages_join_to_the_sorted_list(
    candidates: Seq<ShadowCandidate>,
    list: Seq<ShadowCandidate>,
    limit: usize,
    queries: Seq<ShadowQuery>,
    pages: Seq<ShadowPage>,
)
    requires
        limit >= 1,
        by_cursor(list),
        list.to_multiset() == candidates.to_multiset(),
        distinct_cursors(list),
        read_through(candidates, limit, queries, pages),
    ensures
        joined(pages).len() <= list.len(),
        joined(pages) == list.take(joined(pages).len() as int),
        pages.last().next_cursor is Some <==> joined(pages).len() < list.len(),
        pages.last().next_cursor is None ==> joined(pages) == list,
        pages.last().next_cursor is Some ==> pages.last().candidates@.len() == limit && opt_text(
            pages.last().next_cursor,
        ) == Some(list[joined(pages).len() - 1].cursor@),
        pages.last().candidates@.len() <= limit,
        forall|i: int| 0 <= i < pages.len() - 1 ==> (#[trigger] pages[i]).candidates@.len() == limit,
    decreases pages.len(),
{
    let n = pages.len() - 1;
    let query = queries[n];
    let page = pages[n];
    assert(query.limit == limit && cuts(candidates, query, page));
    let other = choose|other: Seq<ShadowCandidate>|
        by_cursor(other) && other.to_multiset() == candidates.to_multiset() && #[trigger] is_page(other, query, page);
    sorting_is_unique(list, other);
    assert(is_page(list, query, page));
    let start = choose|start: int| #[trigger]
        page_start(list, opt_text(query.cursor), start) && {
            let rest = list.skip(start);
            let m = if rest.len() > query.limit {
                query.limit as int
            } else {
                rest.len() as int
            };
            &&& page.candidates@ == rest.take(m)
            &&& opt_text(page.next_cursor) == (if rest.len() > query.limit {
                Some(rest[query.limit - 1].cursor@)
            } else {
                None
            })
        };
    let fewer = pages.drop_last();
    if n > 0 {
        let asked = queries.drop_last();
        assert(asked[0] == queries[0]);
        assert forall|i: int| 0 <= i < fewer.len() implies (#[trigger] asked[i]).limit == limit && cuts(
            candidates,
            asked[i],
            fewer[i],
        ) by {
            assert(asked[i] == queries[i] && fewer[i] == pages[i]);
        }
        assert forall|i: int| 0 < i < fewer.len() implies (#[trigger] asked[i]).cursor is Some && opt_text(
            asked[i].cursor,
        ) == opt_text(fewer[i - 1].next_cursor) by {
            assert(asked[i] == queries[i] && fewer[i - 1] == pages[i - 1]);
        }
        pages_join_to_the_sorted_list(candidates, list, limit, asked, fewer);
        let done = joined(fewer).len() as int;
        assert(query.cursor is Some && opt_text(query.cursor) == opt_text(pages[n - 1].next_cursor));
        assert(fewer.last() == pages[n - 1]);
        assert(done > 0) by {
            reveal_with_fuel(joined, 2);
        }
        resuming_starts_behind(list, done, start);
    } else {
        assert(fewer =~= Seq::empty());
    }
    assert(start == joined(fewer).len());
    assert(joined(pages) =~= list.take(joined(pages).len() as int));
    if page.next_cursor is None {
        assert(joined(pages).len() == list.len());
        assert(list.take(list.len() as int) =~= list);
    }
    assert forall|i: int| 0 <= i < pages.len() - 1 implies (#[trigger] pages[i]).candidates@.len() == limit by {
        assert(fewer[i] == pages[i]);
    }
}

/// Whether `r` is the answer to a query.
pub open spec fn is_answered(
    query: ShadowQuery,
    found: Option<Result<Vec<ShadowCandidate>, String>>,
    r: Result<ShadowPage, ShadowQueryError>,
) -> bool {
    match query_error(query) {
        Some(error) => r matches Err(e) && e@ == error,
        None => match found {
            Some(Err(message)) => r matches Err(e) && e@ == ShadowErrorText::Store(message@),
            Some(Ok(candidates)) => r matches Ok(page) && exists|list: Seq<ShadowCandidate>|
                by_cursor(list) && list.to_multiset() == candidates@.to_multiset() && #[trigger] is_page(
                    list,
                    query,
                    page,
                ),
            None => r matches Ok(page) && page.candidates@.len() == 0 && page.next_cursor is None,
        },
    }
}

/// Answer a query: it is validated before anything is read, a repository that is not there has no candidate,
/// and a read that failed is reported. `found` is what the repository holds, where there is one.
pub fn query_shadowed(query: &ShadowQuery, found: Option<Result<Vec<ShadowCandidate>, String>>) -> (r: Result<
    ShadowPage,
    ShadowQueryError,
>)
    ensures
        is_answered(*query, found, r),
{
    match query.validate() {
        Ok(_) => {},
        Err(error) => {
            return Err(error);
        },
    }
    match found {
        Some(Err(message)) => Err(ShadowQueryError::Store(message)),
        Some(Ok(candidates)) => Ok(paginate(candidates, query)),
        None => Ok(ShadowPage { candidates: Vec::new(), next_cursor: None }),
    }
}

} // verus!
