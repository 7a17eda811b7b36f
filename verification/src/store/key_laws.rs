//! What stored keys and rows promise: that a key gives back what it was made of, that a release is announced once, and
//! that the smallest spelling of a project stands.
use vstd::prelude::*;
use vstd::utf8::encode_utf8;

use crate::digest::is_digest;
use crate::store::batches::{file_promoted, Promoted, PromotedRecord, PromotedRelease};
use crate::store::keys::{index_project, key3, ANNOUNCED_RELEASE_PREFIX};
use crate::store::repair::{hex, hex_digit_char, sound_publication, source_key_parts};
use crate::store::txn::TxnState;
use crate::store::uploads::version_named;
use crate::store::values::publication_read;
use crate::text::{
    bytes_before, bytes_before_irreflexive, bytes_before_total, bytes_before_transitive, first_index_bounds,
    first_index_of_joined, last_index, last_index_bounds, last_index_of_joined, opt_text,
};

verus! {

/// A project's key gives back its index and its project, and a key that lacks either gives back nothing.
pub proof fn project_keys_give_back_their_parts(index: Seq<char>, normalized: Seq<char>, rest: Seq<char>)
    ensures
        index.len() > 0 && normalized.len() > 0 && !normalized.contains('/') ==> index_project(
            index + seq!['/'] + normalized,
        ) == Some((index, normalized)),
        index_project(rest) matches Some((i, p)) ==> rest == i + seq!['/'] + p && i.len() > 0 && p.len() > 0
            && !p.contains('/'),
        !rest.contains('/') ==> index_project(rest) is None,
{
    if !normalized.contains('/') {
        last_index_of_joined(index, '/', normalized);
    }
    last_index_bounds(rest, '/');
    if index_project(rest) is Some {
        let (i, p) = index_project(rest)->0;
        assert(rest =~= i + seq!['/'] + p);
        if p.contains('/') {
            let k = choose|k: int| 0 <= k < p.len() && p[k] == '/';
            assert(rest[last_index(rest, '/') + 1 + k] == '/');
        }
    }
}

/// A file source's key gives back its index, its project and its digest.
pub proof fn source_keys_give_back_their_parts(
    index: Seq<char>,
    normalized: Seq<char>,
    digest: Seq<char>,
    key: Seq<char>,
)
    ensures
        index.len() > 0 && normalized.len() > 0 && digest.len() > 0 && !normalized.contains('/') && !digest.contains('/')
            ==> source_key_parts(index + seq!['/'] + normalized + seq!['/'] + digest) == Some(
            (index, normalized, digest),
        ),
        source_key_parts(key) matches Some((i, p, d)) ==> key == i + seq!['/'] + p + seq!['/'] + d && i.len() > 0
            && p.len() > 0 && d.len() > 0,
{
    if !normalized.contains('/') && !digest.contains('/') {
        last_index_of_joined(index + seq!['/'] + normalized, '/', digest);
        last_index_of_joined(index, '/', normalized);
    }
    last_index_bounds(key, '/');
    let at = last_index(key, '/');
    if at >= 0 {
        last_index_bounds(key.take(at), '/');
    }
    if source_key_parts(key) is Some {
        let (i, p, d) = source_key_parts(key)->0;
        assert(key.take(at) =~= i + seq!['/'] + p);
        assert(key =~= i + seq!['/'] + p + seq!['/'] + d);
    }
}

/// A publication is sound where it is empty, and where it has a digest on its second line and a line behind that.
pub proof fn publications_have_three_lines(first: Seq<char>, digest: Seq<char>, rest: Seq<char>, value: Seq<char>)
    ensures
        sound_publication(Seq::empty()),
        value.len() > 0 && !value.contains('\n') ==> !sound_publication(value),
        !first.contains('\n') && !digest.contains('\n') ==> (sound_publication(
            first + seq!['\n'] + (digest + seq!['\n'] + rest),
        ) <==> is_digest(digest)),
{
    first_index_bounds(value, '\n');
    if !first.contains('\n') && !digest.contains('\n') {
        first_index_of_joined(first, '\n', digest + seq!['\n'] + rest);
        first_index_of_joined(digest, '\n', rest);
    }
}

/// A number below sixteen is one hex digit, and any other the digits of its sixteenth and one more.
pub proof fn numbers_are_spelled_in_sixteens(n: nat, d: nat)
    requires
        d < 16,
    ensures
        hex(d) == seq![hex_digit_char(d as int)],
        n > 0 ==> hex(16 * n + d) == hex(n).push(hex_digit_char(d as int)),
        hex(n).len() > 0,
{
    assert((16 * n + d) / 16 == n);
    assert((16 * n + d) % 16 == d);
}

/// A release is announced the first time it is seen, under its own key, and never again.
pub proof fn releases_are_announced_once(
    s: TxnState,
    index: Seq<char>,
    normalized: Seq<char>,
    version: Option<Seq<char>>,
    now: i64,
    later: i64,
    other: Seq<char>,
)
    ensures
        ({
            let a = s.announced(index, normalized, version, now);
            let again = a.state.announced(index, normalized, version, later);
            &&& again.journal.len() == 0 && again.state == a.state
            &&& version is None ==> a.state == s && a.journal.len() == 0
            &&& version matches Some(v) ==> {
                let key = key3(ANNOUNCED_RELEASE_PREFIX@, index, normalized, v);
                &&& a.state.rows.contains_key(key)
                &&& !s.rows.contains_key(key) ==> a.journal.len() == 1 && a.state.rows[key] == encode_utf8(v)
                &&& s.rows.contains_key(key) ==> a.journal.len() == 0 && a.state == s
                &&& other != key ==> a.state.row(other) == s.row(other)
            }
        }),
{
}

/// A promoted file is told of in the journal exactly where one is kept, and then its release is announced as well.
pub proof fn promotions_are_journaled_where_one_is_kept(p: Promoted, release: PromotedRelease<'_>, record: PromotedRecord)
    requires
        record.guard is Commit,
    ensures
        file_promoted(p, true, release, record) is Ok <==> file_promoted(p, false, release, record) is Ok,
        file_promoted(p, false, release, record) matches Ok(q) ==> q.journal == p.journal,
        file_promoted(p, true, release, record) matches Ok(q) ==> q.journal.len() > p.journal.len(),
        file_promoted(p, true, release, record) matches Ok(q) ==> (version_named(
            record.record@,
            opt_text(record.segment),
        ) matches Some(v) ==> q.state.rows.contains_key(
            key3(ANNOUNCED_RELEASE_PREFIX@, release.index@, release.normalized@, v),
        )),
        file_promoted(p, true, release, record) matches Ok(q) ==> (file_promoted(p, false, release, record) matches Ok(
            quiet,
        ) ==> q.written == quiet.written && q.committed == quiet.committed),
        file_promoted(p, true, release, record) matches Ok(q) ==> (file_promoted(p, false, release, record) matches Ok(
            quiet,
        ) ==> q.state == quiet.state.announced(
            release.index@,
            release.normalized@,
            version_named(record.record@, opt_text(record.segment)),
            release.submitted_at_unix,
        ).state),
{
}

/// Of two spellings of a project the smaller stands, whichever came first.
pub proof fn the_smallest_spelling_stands(s: TxnState, key: Seq<char>, one: Seq<u8>, other: Seq<u8>)
    ensures
        s.spelled(key, one).row(key) matches Some(stands) && !bytes_before(one, stands) && (stands == one || s.row(key)
            == Some(stands)),
        s.row(key) is None ==> s.spelled(key, one).row(key) == Some(one),
        s.spelled(key, one).spelled(key, other).row(key) == s.spelled(key, other).spelled(key, one).row(key),
        forall|k: Seq<char>| k != key ==> #[trigger] s.spelled(key, one).row(k) == s.row(k),
{
    bytes_before_irreflexive(one);
    bytes_before_irreflexive(other);
    bytes_before_total(one, other);
    if bytes_before(one, other) && bytes_before(other, one) {
        bytes_before_transitive(one, other, one);
    }
    if s.row(key) is Some {
        let current = s.row(key)->0;
        bytes_before_total(one, current);
        bytes_before_total(other, current);
        if bytes_before(one, other) && bytes_before(other, current) {
            bytes_before_transitive(one, other, current);
        }
        if bytes_before(other, one) && bytes_before(one, current) {
            bytes_before_transitive(other, one, current);
        }
        if bytes_before(one, current) && bytes_before(current, other) {
            bytes_before_transitive(one, current, other);
        }
        if bytes_before(other, current) && bytes_before(current, one) {
            bytes_before_transitive(other, current, one);
        }
    }
}

/// An empty publication is that of a file without a claim, and one of a single line is incomplete.
pub proof fn empty_publications_claim_nothing(key: Seq<char>, value: Seq<char>)
    ensures
        publication_read(key, Seq::empty()) matches Ok(None),
        value.len() > 0 && !value.contains('\n') ==> (publication_read(key, value) matches Err(_)),
        publication_read(key, value) matches Ok(None) ==> value.len() == 0,
{
    first_index_bounds(value, '\n');
}

} // verus!
