//! What storing and retiring a cached page leave for those who read it.
use vstd::prelude::*;
use vstd::utf8::encode_utf8;

use super::attestations::{advertised_texts, desired};
use super::index::{CachedPageWrite, PublishedFileWrite};
use super::keys::{
    is_namespace, key1, key2, key3, key4, live_key, live_prefix, namespace_of, prefixes_are_namespaces, COUNT_PREFIX,
    FILE_PREFIX, FRESHNESS_PREFIX, INDEX_PREFIX, PROJECTS_PREFIX, PROJECT_ATTESTATION_PREFIX, PROJECT_STATUS_PREFIX,
    PUBLICATION_PREFIX, RETIRED_PREFIX, UPSTREAM_ATTESTATION_PREFIX,
};
use super::projects::erased_all_rows;
use super::record::{framed, json_status_record, AttestationText};
use super::txn::{finite_sets_are_listed, keys_under, rows_are_under, RowScope, TxnState};
use crate::collections::listed;
use crate::outside::json_text;
use crate::text::opt_str;

verus! {

/// The namespace that a key lies in.
spec fn namespace_at(key: Seq<char>) -> char {
    key[5]
}

proof fn keys_lie_in_their_namespace(
    prefix: Seq<char>,
    a: Seq<char>,
    b: Seq<char>,
    c: Seq<char>,
    d: Seq<char>,
)
    requires
        is_namespace(prefix),
    ensures
        namespace_at(key1(prefix, a)) == namespace_of(prefix),
        namespace_at(key2(prefix, a, b)) == namespace_of(prefix),
        namespace_at(key3(prefix, a, b, c)) == namespace_of(prefix),
        namespace_at(key4(prefix, a, b, c, d)) == namespace_of(prefix),
{
}

proof fn prefixed_keys_lie_in_their_namespace(prefix: Seq<char>, rest: Seq<char>, key: Seq<char>)
    requires
        is_namespace(prefix),
        (prefix + rest).is_prefix_of(key),
    ensures
        namespace_at(key) == namespace_of(prefix),
{
    let whole = prefix + rest;
    assert(key.subrange(0, whole.len() as int)[5] == key[5]);
    assert(whole[5] == prefix[5]);
}

/// Dropping registrations adds no row.
proof fn unregistering_adds_nothing(
    s: TxnState,
    keys: Seq<Seq<char>>,
    rows: Map<Seq<char>, Seq<u8>>,
    keep: Set<Seq<char>>,
    n: int,
    key: Seq<char>,
)
    requires
        s.unregistered(keys, rows, keep, n) is Ok,
    ensures
        s.row(key) is None ==> (s.unregistered(keys, rows, keep, n)->Ok_0).row(key) is None,
        s.rows.dom().finite() ==> (s.unregistered(keys, rows, keep, n)->Ok_0).rows.dom().finite(),
    decreases n,
{
    if n > 0 {
        unregistering_adds_nothing(s, keys, rows, keep, n - 1, key);
    }
}

/// A retired project leaves nothing behind that would answer for it: no page and no overlay of its
/// freshness, no publication of a file, no marker and no status. Its retirement is noted.
pub proof fn retired_projects_answer_nothing(
    s: TxnState,
    key: Seq<char>,
    index: Seq<char>,
    project: Seq<char>,
    stored: Map<Seq<char>, AttestationText>,
    publication: Seq<char>,
)
    requires
        s.rows.dom().finite(),
        s.project_retired(key, index, project, stored) is Ok,
        (key2(PUBLICATION_PREFIX@, index, project) + "/"@).is_prefix_of(publication),
    ensures
        ({
            let t = s.project_retired(key, index, project, stored)->Ok_0;
            &&& t.row(key1(INDEX_PREFIX@, key)) is None
            &&& t.row(key1(FRESHNESS_PREFIX@, key)) is None
            &&& t.row(publication) is None
            &&& t.row(key2(PROJECTS_PREFIX@, index, project)) is None
            &&& t.row(key2(PROJECT_STATUS_PREFIX@, index, project)) is None
            &&& t.row(key2(RETIRED_PREFIX@, index, project)) is Some
        }),
{
    prefixes_are_namespaces();
    let no = Seq::<char>::empty();
    keys_lie_in_their_namespace(INDEX_PREFIX@, key, no, no, no);
    keys_lie_in_their_namespace(FRESHNESS_PREFIX@, key, no, no, no);
    keys_lie_in_their_namespace(PROJECTS_PREFIX@, index, project, no, no);
    keys_lie_in_their_namespace(PROJECT_STATUS_PREFIX@, index, project, no, no);
    keys_lie_in_their_namespace(RETIRED_PREFIX@, index, project, no, no);
    keys_lie_in_their_namespace(COUNT_PREFIX@, index, no, no, no);
    let range = key2(PUBLICATION_PREFIX@, index, project) + "/"@;
    let rest = index + "/"@ + project + "/"@;
    assert(range =~= PUBLICATION_PREFIX@ + rest);
    prefixed_keys_lie_in_their_namespace(PUBLICATION_PREFIX@, rest, publication);

    let page = s.erased(RowScope::Replicated, key1(INDEX_PREFIX@, key)).erased(
        RowScope::Replicated,
        key1(FRESHNESS_PREFIX@, key),
    );
    let keys = keys_under(page.rows, range);
    let n = keys.len() as int;
    let emptied = page.erased_all(RowScope::Replicated, keys, n);
    rows_are_under(page.rows, range, publication);
    erased_all_rows(page, RowScope::Replicated, keys, n, publication);
    assert(keys.take(n) =~= keys);
    assert(emptied.row(publication) is None);
    erased_all_rows(page, RowScope::Replicated, keys, n, key1(INDEX_PREFIX@, key));
    erased_all_rows(page, RowScope::Replicated, keys, n, key1(FRESHNESS_PREFIX@, key));

    let none = Seq::<(Seq<char>, Seq<char>, Seq<char>)>::empty();
    let wanted = desired(index, project, none, 0);
    assert(wanted.dom() =~= Set::empty());
    finite_sets_are_listed(wanted.dom());
    if listed(wanted.dom()).len() > 0 {
        assert(listed(wanted.dom()).contains(listed(wanted.dom())[0]));
        assert(listed(wanted.dom()).to_set().contains(listed(wanted.dom())[0]));
    }
    let live = keys_under(emptied.rows, live_prefix(index, project));
    unregistering_adds_nothing(emptied, live, emptied.rows, wanted.dom(), live.len() as int, publication);
    unregistering_adds_nothing(emptied, live, emptied.rows, wanted.dom(), live.len() as int, key1(INDEX_PREFIX@, key));
    unregistering_adds_nothing(
        emptied,
        live,
        emptied.rows,
        wanted.dom(),
        live.len() as int,
        key1(FRESHNESS_PREFIX@, key),
    );
}

/// Whether every registration of a project names an object in the namespace of the objects.
pub open spec fn registrations_are_sound(s: TxnState, index: Seq<char>, project: Seq<char>) -> bool {
    forall|key: Seq<char>| #[trigger]
        s.rows.contains_key(key) && live_prefix(index, project).is_prefix_of(key) ==> match json_text(s.rows[key]) {
            Some(main) => UPSTREAM_ATTESTATION_PREFIX@.is_prefix_of(main),
            None => true,
        }
}

proof fn unregistering_keeps_other_namespaces(
    s: TxnState,
    keys: Seq<Seq<char>>,
    rows: Map<Seq<char>, Seq<u8>>,
    keep: Set<Seq<char>>,
    n: int,
    key: Seq<char>,
)
    requires
        0 <= n <= keys.len(),
        s.unregistered(keys, rows, keep, n) is Ok,
        namespace_at(key) != 't' && namespace_at(key) != 'v',
        forall|i: int|
            0 <= i < keys.len() ==> namespace_at(#[trigger] keys[i]) == 'v' && match json_text(rows[keys[i]]) {
                Some(main) => namespace_at(main) == 't',
                None => true,
            },
    ensures
        (s.unregistered(keys, rows, keep, n)->Ok_0).row(key) == s.row(key),
    decreases n,
{
    if n > 0 {
        unregistering_keeps_other_namespaces(s, keys, rows, keep, n - 1, key);
        assert(namespace_at(keys[n - 1]) == 'v');
    }
}

proof fn desired_registrations(
    index: Seq<char>,
    project: Seq<char>,
    list: Seq<(Seq<char>, Seq<char>, Seq<char>)>,
    n: int,
)
    ensures
        desired(index, project, list, n).dom().finite(),
        forall|k: Seq<char>| #[trigger]
            desired(index, project, list, n).contains_key(k) ==> namespace_at(k) == 'v',
    decreases n,
{
    prefixes_are_namespaces();
    if n > 0 {
        desired_registrations(index, project, list, n - 1);
        let owner = live_key(index, project, list[n - 1].0, list[n - 1].1);
        assert(owner[5] == PROJECT_ATTESTATION_PREFIX@[5]);
    }
}

proof fn registering_keeps_other_namespaces(
    s: TxnState,
    index: Seq<char>,
    project: Seq<char>,
    upstream: Option<Seq<char>>,
    wanted: Map<Seq<char>, (Seq<char>, Seq<char>, Seq<char>)>,
    stored: Map<Seq<char>, AttestationText>,
    n: int,
    key: Seq<char>,
)
    requires
        0 <= n <= listed(wanted.dom()).len(),
        wanted.dom().finite(),
        forall|k: Seq<char>| #[trigger] wanted.contains_key(k) ==> namespace_at(k) == 'v',
        namespace_at(key) != 't' && namespace_at(key) != 'v',
        s.registered_all(index, project, upstream, wanted, stored, n) is Ok,
    ensures
        (s.registered_all(index, project, upstream, wanted, stored, n)->Ok_0).0.row(key) == s.row(key),
    decreases n,
{
    prefixes_are_namespaces();
    if n > 0 {
        registering_keeps_other_namespaces(s, index, project, upstream, wanted, stored, n - 1, key);
        finite_sets_are_listed(wanted.dom());
        let owners = listed(wanted.dom());
        let owner = owners[n - 1];
        assert(owners.to_set().contains(owner));
        assert(wanted.contains_key(owner));
        let (digest, filename, _) = wanted[owner];
        keys_lie_in_their_namespace(UPSTREAM_ATTESTATION_PREFIX@, index, digest, filename, project);
    }
}

/// Replacing registrations touches the registrations and their objects alone.
proof fn replacing_keeps_other_namespaces(
    s: TxnState,
    index: Seq<char>,
    project: Seq<char>,
    upstream: Option<Seq<char>>,
    list: Seq<(Seq<char>, Seq<char>, Seq<char>)>,
    stored: Map<Seq<char>, AttestationText>,
    key: Seq<char>,
)
    requires
        s.rows.dom().finite(),
        registrations_are_sound(s, index, project),
        s.attestations_replaced(index, project, upstream, list, stored) is Ok,
        namespace_at(key) != 't' && namespace_at(key) != 'v',
    ensures
        (s.attestations_replaced(index, project, upstream, list, stored)->Ok_0).row(key) == s.row(key),
{
    prefixes_are_namespaces();
    let wanted = desired(index, project, list, list.len() as int);
    desired_registrations(index, project, list, list.len() as int);
    finite_sets_are_listed(wanted.dom());
    let range = live_prefix(index, project);
    let keys = keys_under(s.rows, range);
    let rest = range.skip(PROJECT_ATTESTATION_PREFIX@.len() as int);
    assert(range =~= PROJECT_ATTESTATION_PREFIX@ + rest);
    assert forall|i: int| 0 <= i < keys.len() implies namespace_at(#[trigger] keys[i]) == 'v' && match json_text(
        s.rows[keys[i]],
    ) {
        Some(main) => namespace_at(main) == 't',
        None => true,
    } by {
        rows_are_under(s.rows, range, keys[i]);
        assert(keys.contains(keys[i]));
        prefixed_keys_lie_in_their_namespace(PROJECT_ATTESTATION_PREFIX@, rest, keys[i]);
        if let Some(main) = json_text(s.rows[keys[i]]) {
            assert(UPSTREAM_ATTESTATION_PREFIX@ + Seq::<char>::empty() =~= UPSTREAM_ATTESTATION_PREFIX@);
            prefixed_keys_lie_in_their_namespace(UPSTREAM_ATTESTATION_PREFIX@, Seq::empty(), main);
        }
    }
    unregistering_keeps_other_namespaces(s, keys, s.rows, wanted.dom(), keys.len() as int, key);
    let dropped = s.unregistered(keys, s.rows, wanted.dom(), keys.len() as int)->Ok_0;
    registering_keeps_other_namespaces(
        dropped,
        index,
        project,
        upstream,
        wanted,
        stored,
        listed(wanted.dom()).len() as int,
        key,
    );
}

proof fn registered_files_are_there(
    s: TxnState,
    index: Seq<char>,
    normalized: Seq<char>,
    source: Seq<char>,
    upstream: Option<Seq<char>>,
    files: Seq<PublishedFileWrite>,
    n: int,
    key: Seq<char>,
)
    requires
        0 <= n <= files.len(),
    ensures
        ({
            let t = s.files_registered(index, normalized, source, upstream, files, n);
            &&& s.rows.dom().finite() ==> t.rows.dom().finite()
            &&& s.row(key) is Some ==> t.row(key) is Some
            &&& namespace_at(key) != 'f' && namespace_at(key) != 'n' ==> t.row(key) == s.row(key)
            &&& forall|i: int|
                0 <= i < n ==> t.row(key3(FILE_PREFIX@, index, normalized, (#[trigger] files[i]).sha256@)) is Some
                    && t.row(key4(PUBLICATION_PREFIX@, index, normalized, files[i].sha256@, files[i].filename@)) is Some
        }),
    decreases n,
{
    prefixes_are_namespaces();
    if n > 0 {
        registered_files_are_there(s, index, normalized, source, upstream, files, n - 1, key);
        let last = files[n - 1];
        keys_lie_in_their_namespace(FILE_PREFIX@, index, normalized, last.sha256@, last.filename@);
        keys_lie_in_their_namespace(PUBLICATION_PREFIX@, index, normalized, last.sha256@, last.filename@);
    }
}

/// A stored page is found by everyone who reads it: its record as it was written, with no overlay before it;
/// its project under its display name; its status, when it states one; and for every file that it lists
/// where its bytes live and what its sidecar claims. A retirement is over.
pub proof fn stored_pages_are_found(s: TxnState, write: CachedPageWrite<'_>, stored: Map<Seq<char>, AttestationText>)
    requires
        s.rows.dom().finite(),
        registrations_are_sound(s, write.index@, write.normalized@),
        s.page_stored(write, stored) is Ok,
    ensures
        ({
            let t = s.page_stored(write, stored)->Ok_0;
            &&& t.row(key1(INDEX_PREFIX@, write.key@)) == Some(
                framed(encode_utf8(write.record.header_line()), write.record.body@),
            )
            &&& t.row(key1(FRESHNESS_PREFIX@, write.key@)) is None
            &&& t.row(key2(PROJECTS_PREFIX@, write.index@, write.normalized@)) == Some(encode_utf8(write.display@))
            &&& t.row(key2(PROJECT_STATUS_PREFIX@, write.index@, write.normalized@)) == (if write.project_status is None
                && write.project_status_reason is None {
                None
            } else {
                Some(
                    encode_utf8(
                        json_status_record(opt_str(write.project_status), opt_str(write.project_status_reason)),
                    ),
                )
            })
            &&& forall|i: int|
                0 <= i < write.files@.len() ==> t.row(
                    key3(FILE_PREFIX@, write.index@, write.normalized@, (#[trigger] write.files@[i]).sha256@),
                ) is Some && t.row(
                    key4(
                        PUBLICATION_PREFIX@,
                        write.index@,
                        write.normalized@,
                        write.files@[i].sha256@,
                        write.files@[i].filename@,
                    ),
                ) is Some
            &&& t.row(key2(RETIRED_PREFIX@, write.index@, write.normalized@)) is None
        }),
{
    prefixes_are_namespaces();
    let no = Seq::<char>::empty();
    let index = write.index@;
    let project = write.normalized@;
    let page_key = key1(INDEX_PREFIX@, write.key@);
    let overlay_key = key1(FRESHNESS_PREFIX@, write.key@);
    let project_key = key2(PROJECTS_PREFIX@, index, project);
    let status_key = key2(PROJECT_STATUS_PREFIX@, index, project);
    keys_lie_in_their_namespace(INDEX_PREFIX@, write.key@, no, no, no);
    keys_lie_in_their_namespace(FRESHNESS_PREFIX@, write.key@, no, no, no);
    keys_lie_in_their_namespace(PROJECTS_PREFIX@, index, project, no, no);
    keys_lie_in_their_namespace(PROJECT_STATUS_PREFIX@, index, project, no, no);
    keys_lie_in_their_namespace(RETIRED_PREFIX@, index, project, no, no);
    keys_lie_in_their_namespace(COUNT_PREFIX@, index, no, no, no);
    let record = framed(encode_utf8(write.record.header_line()), write.record.body@);
    let page = s.wrote(RowScope::Local, page_key, record).erased(RowScope::Replicated, overlay_key);
    let named = page.project_written(RowScope::Local, index, project, write.display@)->Ok_0;
    let marked = named.status_recorded(
        index,
        project,
        opt_str(write.project_status),
        opt_str(write.project_status_reason),
    );
    let n = write.files@.len() as int;
    let upstream = opt_str(write.upstream);
    let files = marked.files_registered(index, project, write.source@, upstream, write.files@, n);
    registered_files_are_there(marked, index, project, write.source@, upstream, write.files@, n, page_key);
    registered_files_are_there(marked, index, project, write.source@, upstream, write.files@, n, overlay_key);
    registered_files_are_there(marked, index, project, write.source@, upstream, write.files@, n, project_key);
    registered_files_are_there(marked, index, project, write.source@, upstream, write.files@, n, status_key);
    assert(registrations_are_sound(files, index, project)) by {
        let range = live_prefix(index, project);
        let rest = range.skip(PROJECT_ATTESTATION_PREFIX@.len() as int);
        assert(range =~= PROJECT_ATTESTATION_PREFIX@ + rest);
        assert forall|key: Seq<char>| #[trigger]
            files.rows.contains_key(key) && range.is_prefix_of(key) implies match json_text(files.rows[key]) {
            Some(main) => UPSTREAM_ATTESTATION_PREFIX@.is_prefix_of(main),
            None => true,
        } by {
            prefixed_keys_lie_in_their_namespace(PROJECT_ATTESTATION_PREFIX@, rest, key);
            registered_files_are_there(marked, index, project, write.source@, upstream, write.files@, n, key);
            assert(files.row(key) == marked.row(key));
            assert(marked.row(key) == s.row(key));
            assert(s.rows.contains_key(key));
        }
    }
    let list = advertised_texts(write.attestations@);
    replacing_keeps_other_namespaces(files, index, project, upstream, list, stored, page_key);
    replacing_keeps_other_namespaces(files, index, project, upstream, list, stored, overlay_key);
    replacing_keeps_other_namespaces(files, index, project, upstream, list, stored, project_key);
    replacing_keeps_other_namespaces(files, index, project, upstream, list, stored, status_key);
    assert forall|i: int| 0 <= i < n implies ({
        let t = s.page_stored(write, stored)->Ok_0;
        &&& t.row(key3(FILE_PREFIX@, index, project, (#[trigger] write.files@[i]).sha256@)) is Some
        &&& t.row(key4(PUBLICATION_PREFIX@, index, project, write.files@[i].sha256@, write.files@[i].filename@)) is Some
    }) by {
        let file = write.files@[i];
        let place = key3(FILE_PREFIX@, index, project, file.sha256@);
        let claim = key4(PUBLICATION_PREFIX@, index, project, file.sha256@, file.filename@);
        keys_lie_in_their_namespace(FILE_PREFIX@, index, project, file.sha256@, no);
        keys_lie_in_their_namespace(PUBLICATION_PREFIX@, index, project, file.sha256@, file.filename@);
        replacing_keeps_other_namespaces(files, index, project, upstream, list, stored, place);
        replacing_keeps_other_namespaces(files, index, project, upstream, list, stored, claim);
    }
}

} // verus!
