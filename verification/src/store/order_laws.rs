//! The order rows of an index agree with its uploads, and every write keeps it so.
use vstd::prelude::*;
use vstd::utf8::encode_utf8;

use super::keys::{
    key1, key2, key3, namespaces_are_disjoint, prefixes_are_namespaces, COUNT_PREFIX, PROJECTS_PREFIX, RECENT_PREFIX,
    UPLOAD_PREFIX,
};
use super::summary::{json_recent, order_position, order_range, recent_of, time_segment, RecentText};
use super::txn::{RowScope, TxnState};
use crate::text::{first_index_of_joined, last_index_of_joined};

verus! {

/// One hosted file: an index, a project of it, and a filename.
pub struct Upload {
    pub index: Seq<char>,
    pub normalized: Seq<char>,
    pub filename: Seq<char>,
}

impl Upload {
    /// Whether the names are such as uploads have: none holds a separator of its keys, but that an index
    /// name may hold slashes.
    pub open spec fn plain(self) -> bool {
        &&& !self.index.contains('\u{0}')
        &&& !self.normalized.contains('\u{0}') && !self.normalized.contains('/')
        &&& !self.filename.contains('\u{0}') && !self.filename.contains('/')
    }

    /// The key of its record.
    pub open spec fn key(self) -> Seq<char> {
        key3(UPLOAD_PREFIX@, self.index, self.normalized, self.filename)
    }

    /// What its record says of itself, where it has one that is read.
    pub open spec fn recent(self, s: TxnState) -> Option<RecentText> {
        match s.row(self.key()) {
            Some(record) => recent_of(self.normalized, self.filename, record),
            None => None,
        }
    }

    /// Where a record that says `recent` stands in the order.
    pub open spec fn position(self, recent: RecentText) -> Seq<char> {
        order_position(self.index, recent, self.filename)
    }

    /// Whether `key` is where its record stands in the order.
    pub open spec fn stands_at(self, s: TxnState, key: Seq<char>) -> bool {
        self.plain() && self.recent(s) is Some && self.position(self.recent(s)->0) == key
    }
}

/// Whether every upload has its order row, and every order row its upload.
pub open spec fn orders_agree(s: TxnState) -> bool {
    &&& forall|u: Upload| #[trigger]
        u.plain() && u.recent(s) is Some ==> s.row(u.position(u.recent(s)->0)) == Some(
            encode_utf8(json_recent(u.recent(s)->0)),
        )
    &&& forall|key: Seq<char>| #[trigger]
        s.rows.contains_key(key) && RECENT_PREFIX@.is_prefix_of(key) ==> exists|u: Upload| u.stands_at(s, key)
}

/// An order key names one upload.
pub proof fn positions_keep_apart(a: Upload, ra: RecentText, b: Upload, rb: RecentText)
    requires
        a.plain(),
        b.plain(),
        ra.resource == a.normalized,
        rb.resource == b.normalized,
        a.position(ra) == b.position(rb),
    ensures
        a == b,
{
    reveal_strlit("\u{0}");
    assert("\u{0}"@ =~= seq!['\u{0}']);
    let p = RECENT_PREFIX@;
    let nul = seq!['\u{0}'];
    let tail_a = time_segment(ra.written_at) + "/"@ + ra.artifact + nul + ra.resource + nul + a.filename;
    let tail_b = time_segment(rb.written_at) + "/"@ + rb.artifact + nul + rb.resource + nul + b.filename;
    let key = a.position(ra);
    assert(key =~= p + (a.index + nul + tail_a));
    assert(b.position(rb) =~= p + (b.index + nul + tail_b));
    assert(key.skip(p.len() as int) =~= a.index + nul + tail_a);
    assert(key.skip(p.len() as int) =~= b.index + nul + tail_b);
    first_index_of_joined(a.index, '\u{0}', tail_a);
    first_index_of_joined(b.index, '\u{0}', tail_b);
    assert(a.index == b.index);
    let head_a = time_segment(ra.written_at) + "/"@ + ra.artifact;
    let head_b = time_segment(rb.written_at) + "/"@ + rb.artifact;
    last_index_of_joined(head_a + nul + ra.resource, '\u{0}', a.filename);
    last_index_of_joined(head_b + nul + rb.resource, '\u{0}', b.filename);
    assert(tail_a =~= head_a + nul + ra.resource + nul + a.filename);
    assert(tail_b =~= head_b + nul + rb.resource + nul + b.filename);
    last_index_of_joined(head_a, '\u{0}', ra.resource);
    last_index_of_joined(head_b, '\u{0}', rb.resource);
}

/// An upload key names one upload.
pub proof fn upload_keys_keep_apart(a: Upload, b: Upload)
    requires
        a.plain(),
        b.plain(),
        a.key() == b.key(),
    ensures
        a == b,
{
    reveal_strlit("/");
    assert("/"@ =~= seq!['/']);
    let p = UPLOAD_PREFIX@;
    let slash = seq!['/'];
    assert(a.key() =~= p + a.index + slash + a.normalized + slash + a.filename);
    assert(b.key() =~= p + b.index + slash + b.normalized + slash + b.filename);
    last_index_of_joined(p + a.index + slash + a.normalized, '/', a.filename);
    last_index_of_joined(p + b.index + slash + b.normalized, '/', b.filename);
    last_index_of_joined(p + a.index, '/', a.normalized);
    last_index_of_joined(p + b.index, '/', b.normalized);
    assert((p + a.index).skip(p.len() as int) =~= a.index);
    assert((p + b.index).skip(p.len() as int) =~= b.index);
}

/// The rows of the order and of the uploads stand in namespaces of their own.
pub proof fn order_and_uploads_keep_apart(u: Upload, recent: RecentText)
    ensures
        RECENT_PREFIX@.is_prefix_of(u.position(recent)),
        !RECENT_PREFIX@.is_prefix_of(u.key()),
        UPLOAD_PREFIX@.is_prefix_of(u.key()),
        !UPLOAD_PREFIX@.is_prefix_of(u.position(recent)),
{
    prefixes_are_namespaces();
    let p = RECENT_PREFIX@;
    let rest = u.position(recent).skip(p.len() as int);
    assert(u.position(recent).subrange(0, p.len() as int) =~= p);
    assert(u.position(recent) =~= p + rest);
    namespaces_are_disjoint(p, UPLOAD_PREFIX@, rest);
    let q = UPLOAD_PREFIX@;
    let tail = u.key().skip(q.len() as int);
    assert(u.key().subrange(0, q.len() as int) =~= q);
    assert(u.key() =~= q + tail);
    namespaces_are_disjoint(q, p, tail);
}

proof fn counts_are_neither(index: Seq<char>)
    ensures
        !RECENT_PREFIX@.is_prefix_of(key1(COUNT_PREFIX@, index)),
        !UPLOAD_PREFIX@.is_prefix_of(key1(COUNT_PREFIX@, index)),
{
    prefixes_are_namespaces();
    namespaces_are_disjoint(COUNT_PREFIX@, RECENT_PREFIX@, index);
    namespaces_are_disjoint(COUNT_PREFIX@, UPLOAD_PREFIX@, index);
}

proof fn projects_are_neither(index: Seq<char>, normalized: Seq<char>)
    ensures
        !RECENT_PREFIX@.is_prefix_of(key2(PROJECTS_PREFIX@, index, normalized)),
        !UPLOAD_PREFIX@.is_prefix_of(key2(PROJECTS_PREFIX@, index, normalized)),
{
    prefixes_are_namespaces();
    let rest = index + "/"@ + normalized;
    assert(key2(PROJECTS_PREFIX@, index, normalized) =~= PROJECTS_PREFIX@ + rest);
    namespaces_are_disjoint(PROJECTS_PREFIX@, RECENT_PREFIX@, rest);
    namespaces_are_disjoint(PROJECTS_PREFIX@, UPLOAD_PREFIX@, rest);
}

/// Rows of other namespaces have no part in the agreement.
pub proof fn other_rows_keep_orders(s: TxnState, t: TxnState)
    requires
        orders_agree(s),
        forall|key: Seq<char>|
            RECENT_PREFIX@.is_prefix_of(key) || UPLOAD_PREFIX@.is_prefix_of(key) ==> s.row(key) == #[trigger] t.row(key),
    ensures
        orders_agree(t),
{
    assert forall|u: Upload| u.recent(s) == #[trigger] u.recent(t) by {
        order_and_uploads_keep_apart(u, RecentText {
            resource: Seq::empty(),
            artifact: Seq::empty(),
            group: Seq::empty(),
            written_at: None,
            size: None,
        });
        assert(s.row(u.key()) == t.row(u.key()));
    }
    assert forall|u: Upload| #[trigger] u.plain() && u.recent(t) is Some implies t.row(u.position(u.recent(t)->0)) == Some(
        encode_utf8(json_recent(u.recent(t)->0)),
    ) by {
        assert(u.recent(s) == u.recent(t));
        order_and_uploads_keep_apart(u, u.recent(t)->0);
        assert(s.row(u.position(u.recent(t)->0)) == t.row(u.position(u.recent(t)->0)));
    }
    assert forall|key: Seq<char>| #[trigger]
        t.rows.contains_key(key) && RECENT_PREFIX@.is_prefix_of(key) implies exists|u: Upload| u.stands_at(t, key) by {
        assert(s.row(key) == t.row(key));
        assert(s.rows.contains_key(key));
        let u = choose|u: Upload| u.stands_at(s, key);
        assert(u.recent(s) == u.recent(t));
        assert(u.stands_at(t, key));
    }
}

/// Recording a project keeps the order in step with the uploads.
pub proof fn project_writes_keep_orders(
    s: TxnState,
    scope: RowScope,
    index: Seq<char>,
    normalized: Seq<char>,
    display: Seq<char>,
)
    requires
        orders_agree(s),
        s.project_written(scope, index, normalized, display) is Ok,
    ensures
        orders_agree(s.project_written(scope, index, normalized, display)->Ok_0),
{
    projects_are_neither(index, normalized);
    counts_are_neither(index);
    other_rows_keep_orders(s, s.project_written(scope, index, normalized, display)->Ok_0);
}

/// Dropping a project keeps the order in step with the uploads.
pub proof fn project_removals_keep_orders(s: TxnState, scope: RowScope, index: Seq<char>, normalized: Seq<char>)
    requires
        orders_agree(s),
        s.project_removed(scope, index, normalized) is Ok,
    ensures
        orders_agree(s.project_removed(scope, index, normalized)->Ok_0),
{
    projects_are_neither(index, normalized);
    counts_are_neither(index);
    other_rows_keep_orders(s, s.project_removed(scope, index, normalized)->Ok_0);
}

/// The rows once the record of `u` has become `after`: its old position is free, its new one taken.
spec fn is_moved(s: TxnState, t: TxnState, u: Upload, after: Option<Seq<u8>>) -> bool {
    let was = u.recent(s);
    let now = match after {
        Some(record) => recent_of(u.normalized, u.filename, record),
        None => None,
    };
    &&& t.row(u.key()) == after
    &&& now is Some ==> t.row(u.position(now->0)) == Some(encode_utf8(json_recent(now->0)))
    &&& forall|key: Seq<char>|
        (RECENT_PREFIX@.is_prefix_of(key) || UPLOAD_PREFIX@.is_prefix_of(key)) && key != u.key() && !(now is Some && key
            == u.position(now->0)) ==> #[trigger] t.row(key) == (if was is Some && key == u.position(was->0) {
            None
        } else {
            s.row(key)
        })
}

proof fn moving_keeps_orders(s: TxnState, t: TxnState, u: Upload, after: Option<Seq<u8>>)
    requires
        u.plain(),
        orders_agree(s),
        is_moved(s, t, u, after),
    ensures
        orders_agree(t),
{
    let was = u.recent(s);
    let now = u.recent(t);
    let nobody = RecentText {
        resource: Seq::empty(),
        artifact: Seq::empty(),
        group: Seq::empty(),
        written_at: None,
        size: None,
    };
    assert forall|o: Upload| o.plain() && o != u implies #[trigger] o.recent(t) == o.recent(s) by {
        if o.key() == u.key() {
            upload_keys_keep_apart(o, u);
        }
        order_and_uploads_keep_apart(o, nobody);
        if now is Some {
            order_and_uploads_keep_apart(u, now->0);
        }
        if was is Some {
            order_and_uploads_keep_apart(u, was->0);
        }
        assert(t.row(o.key()) == s.row(o.key()));
    }
    assert forall|o: Upload| #[trigger] o.plain() && o.recent(t) is Some implies t.row(o.position(o.recent(t)->0)) == Some(
        encode_utf8(json_recent(o.recent(t)->0)),
    ) by {
        if o != u {
            let recent = o.recent(t)->0;
            let key = o.position(recent);
            assert(o.recent(s) == o.recent(t));
            order_and_uploads_keep_apart(o, recent);
            order_and_uploads_keep_apart(u, nobody);
            if now is Some && key == u.position(now->0) {
                positions_keep_apart(o, recent, u, now->0);
            }
            if was is Some && key == u.position(was->0) {
                positions_keep_apart(o, recent, u, was->0);
            }
            assert(t.row(key) == s.row(key));
        }
    }
    assert forall|key: Seq<char>| #[trigger]
        t.rows.contains_key(key) && RECENT_PREFIX@.is_prefix_of(key) implies exists|o: Upload| o.stands_at(t, key) by {
        assert(t.row(key) is Some);
        order_and_uploads_keep_apart(u, nobody);
        if now is Some && key == u.position(now->0) {
            assert(u.stands_at(t, key));
        } else {
            assert(s.row(key) == t.row(key));
            assert(s.rows.contains_key(key));
            let o = choose|o: Upload| o.stands_at(s, key);
            assert(o != u);
            assert(o.recent(t) == o.recent(s));
            assert(o.stands_at(t, key));
        }
    }
}

/// Recording an upload keeps the order in step with the uploads: the record's old position is freed and its
/// new one taken, and no other upload's is touched.
pub proof fn upload_writes_keep_orders(s: TxnState, u: Upload, record: Seq<u8>)
    requires
        u.plain(),
        orders_agree(s),
        s.upload_written(u.index, u.normalized, u.filename, record) is Ok,
    ensures
        orders_agree(s.upload_written(u.index, u.normalized, u.filename, record)->Ok_0),
{
    let t = s.upload_written(u.index, u.normalized, u.filename, record)->Ok_0;
    counts_are_neither(u.index);
    let was = u.recent(s);
    let now = recent_of(u.normalized, u.filename, record);
    if was is Some {
        order_and_uploads_keep_apart(u, was->0);
    }
    if now is Some {
        order_and_uploads_keep_apart(u, now->0);
    }
    moving_keeps_orders(s, t, u, Some(record));
}

/// Removing an upload keeps the order in step with the uploads. `record` is the record that is removed.
pub proof fn upload_removals_keep_orders(s: TxnState, u: Upload, record: Seq<u8>)
    requires
        u.plain(),
        orders_agree(s),
        s.row(u.key()) == Some(record),
        s.upload_removed(u.index, u.normalized, u.filename, record) is Ok,
    ensures
        orders_agree(s.upload_removed(u.index, u.normalized, u.filename, record)->Ok_0),
{
    let t = s.upload_removed(u.index, u.normalized, u.filename, record)->Ok_0;
    counts_are_neither(u.index);
    let was = u.recent(s);
    if was is Some {
        order_and_uploads_keep_apart(u, was->0);
    }
    moving_keeps_orders(s, t, u, None);
}

/// The order range of one index holds no row of another, also where the name of one begins the other's.
pub proof fn order_ranges_keep_apart(index: Seq<char>, other: Seq<char>, recent: RecentText, filename: Seq<char>)
    requires
        !index.contains('\u{0}'),
        !other.contains('\u{0}'),
    ensures
        order_range(index).is_prefix_of(order_position(other, recent, filename)) == (index == other),
{
    reveal_strlit("\u{0}");
    assert("\u{0}"@ =~= seq!['\u{0}']);
    let nul = seq!['\u{0}'];
    let p = RECENT_PREFIX@;
    let key = order_position(other, recent, filename);
    let tail = time_segment(recent.written_at) + "/"@ + recent.artifact + nul + recent.resource + nul + filename;
    assert(key =~= p + (other + nul + tail));
    assert(key.skip(p.len() as int) =~= other + nul + tail);
    first_index_of_joined(other, '\u{0}', tail);
    let range = order_range(index);
    assert(range =~= p + index + nul);
    if index == other {
        assert(key.subrange(0, range.len() as int) =~= range);
    }
    if range.is_prefix_of(key) {
        let rest = key.skip(range.len() as int);
        assert(key =~= range + rest);
        assert(key.skip(p.len() as int) =~= index + nul + rest);
        first_index_of_joined(index, '\u{0}', rest);
    }
}

} // verus!
