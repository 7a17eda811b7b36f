//! What publishing and deleting a file do to the rows that others read.
use vstd::prelude::*;
use vstd::utf8::encode_utf8;

use crate::store::keys::{
    is_namespace, key1, key2, key3, key4, namespace_of, prefixes_are_namespaces, ANNOUNCED_RELEASE_PREFIX, COUNT_PREFIX,
    PROJECTS_PREFIX, PROVENANCE_PREFIX, RECENT_PREFIX, UPLOAD_PREFIX,
};
use crate::store::projects::erased_all_rows;
use crate::store::summary::order_position;
use crate::store::txn::{keys_under, RowScope, TxnState};
use crate::store::uploads::{ending_in, PublishedFile};
use crate::text::last_index_of_joined;

verus! {

/// Keys of two namespaces differ.
proof fn namespaces_keep_apart(a: Seq<char>, rest: Seq<char>, b: Seq<char>, other: Seq<char>)
    requires
        is_namespace(a),
        is_namespace(b),
        namespace_of(a) != namespace_of(b),
    ensures
        a + rest != b + other,
{
    assert((a + rest)[5] == a[5]);
    assert((b + other)[5] == b[5]);
}

proof fn last_segments_agree(head: Seq<char>, tail: Seq<char>, other_head: Seq<char>, other_tail: Seq<char>)
    requires
        !tail.contains('/'),
        !other_tail.contains('/'),
        head + "/"@ + tail == other_head + "/"@ + other_tail,
    ensures
        head == other_head,
        tail == other_tail,
{
    reveal_strlit("/");
    assert("/"@ =~= seq!['/']);
    last_index_of_joined(head, '/', tail);
    last_index_of_joined(other_head, '/', other_tail);
}

/// Two publications never share a row: what one index recorded for a file of one project is found for no
/// other index, project, artifact or filename, whatever slashes the index names hold.
pub proof fn publications_keep_apart(
    prefix: Seq<char>,
    index: Seq<char>,
    normalized: Seq<char>,
    sha256: Seq<char>,
    filename: Seq<char>,
    other_index: Seq<char>,
    other_normalized: Seq<char>,
    other_sha256: Seq<char>,
    other_filename: Seq<char>,
)
    requires
        !normalized.contains('/') && !sha256.contains('/') && !filename.contains('/'),
        !other_normalized.contains('/') && !other_sha256.contains('/') && !other_filename.contains('/'),
        key4(prefix, index, normalized, sha256, filename) == key4(
            prefix,
            other_index,
            other_normalized,
            other_sha256,
            other_filename,
        ),
    ensures
        index == other_index,
        normalized == other_normalized,
        sha256 == other_sha256,
        filename == other_filename,
{
    let a = prefix + index;
    let b = prefix + other_index;
    last_segments_agree(
        a + "/"@ + normalized + "/"@ + sha256,
        filename,
        b + "/"@ + other_normalized + "/"@ + other_sha256,
        other_filename,
    );
    last_segments_agree(a + "/"@ + normalized, sha256, b + "/"@ + other_normalized, other_sha256);
    last_segments_agree(a, normalized, b, other_normalized);
    let n = prefix.len() as int;
    assert(a.skip(n) =~= index);
    assert(b.skip(n) =~= other_index);
}

proof fn upload_keys_keep_apart(index: Seq<char>, normalized: Seq<char>, filename: Seq<char>)
    ensures
        ({
            let key = key3(UPLOAD_PREFIX@, index, normalized, filename);
            &&& forall|i: Seq<char>| key != #[trigger] key1(COUNT_PREFIX@, i)
            &&& forall|i: Seq<char>, n: Seq<char>| key != #[trigger] key2(PROJECTS_PREFIX@, i, n)
            &&& forall|i: Seq<char>, n: Seq<char>, v: Seq<char>| key != #[trigger]
                key3(ANNOUNCED_RELEASE_PREFIX@, i, n, v)
        }),
{
    prefixes_are_namespaces();
    let key = key3(UPLOAD_PREFIX@, index, normalized, filename);
    let rest = index + "/"@ + normalized + "/"@ + filename;
    assert(key =~= UPLOAD_PREFIX@ + rest);
    assert forall|i: Seq<char>| key != #[trigger] key1(COUNT_PREFIX@, i) by {
        namespaces_keep_apart(UPLOAD_PREFIX@, rest, COUNT_PREFIX@, i);
    }
    assert forall|i: Seq<char>, n: Seq<char>| key != #[trigger] key2(PROJECTS_PREFIX@, i, n) by {
        namespaces_keep_apart(UPLOAD_PREFIX@, rest, PROJECTS_PREFIX@, i + "/"@ + n);
        assert(key2(PROJECTS_PREFIX@, i, n) =~= PROJECTS_PREFIX@ + (i + "/"@ + n));
    }
    assert forall|i: Seq<char>, n: Seq<char>, v: Seq<char>| key != #[trigger]
        key3(ANNOUNCED_RELEASE_PREFIX@, i, n, v) by {
        namespaces_keep_apart(UPLOAD_PREFIX@, rest, ANNOUNCED_RELEASE_PREFIX@, i + "/"@ + n + "/"@ + v);
        assert(key3(ANNOUNCED_RELEASE_PREFIX@, i, n, v) =~= ANNOUNCED_RELEASE_PREFIX@ + (i + "/"@ + n + "/"@ + v));
    }
}

proof fn order_rows_keep_apart(
    index: Seq<char>,
    recent: crate::store::summary::RecentText,
    filename: Seq<char>,
    upload: Seq<char>,
)
    ensures
        order_position(index, recent, filename) != UPLOAD_PREFIX@ + upload,
{
    prefixes_are_namespaces();
    let key = order_position(index, recent, filename);
    assert(key[5] == RECENT_PREFIX@[5]);
    assert((UPLOAD_PREFIX@ + upload)[5] == UPLOAD_PREFIX@[5]);
}

/// Writing an upload leaves its record to be read.
proof fn written_uploads_read_back(
    s: TxnState,
    index: Seq<char>,
    normalized: Seq<char>,
    filename: Seq<char>,
    record: Seq<u8>,
)
    requires
        s.upload_written(index, normalized, filename, record) is Ok,
    ensures
        s.upload_written(index, normalized, filename, record)->Ok_0.row(
            key3(UPLOAD_PREFIX@, index, normalized, filename),
        ) == Some(record),
{
    upload_keys_keep_apart(index, normalized, filename);
    let key = key3(UPLOAD_PREFIX@, index, normalized, filename);
    let rest = index + "/"@ + normalized + "/"@ + filename;
    assert(key =~= UPLOAD_PREFIX@ + rest);
    match crate::store::summary::recent_of(normalized, filename, record) {
        Some(recent) => {
            order_rows_keep_apart(index, recent, filename, rest);
        },
        None => {},
    }
}

/// A published file is found published: its record is what was published, and its project is there. So a
/// publication that is guarded by what the store holds happens once.
pub proof fn published_files_read_back(s: TxnState, outbox: bool, file: PublishedFile<'_>, webhook: Option<Seq<u8>>)
    requires
        s.file_published(outbox, file, webhook) is Ok,
    ensures
        ({
            let after = s.file_published(outbox, file, webhook)->Ok_0.state;
            &&& after.row(key3(UPLOAD_PREFIX@, file.index@, file.normalized@, file.filename@)) == Some(file.record@)
            &&& after.row(key2(PROJECTS_PREFIX@, file.index@, file.normalized@)) == Some(encode_utf8(file.display@))
        }),
{
    upload_keys_keep_apart(file.index@, file.normalized@, file.filename@);
    let provenance = key4(
        PROVENANCE_PREFIX@,
        file.index@,
        file.normalized@,
        file.artifact_sha256@,
        file.filename@,
    );
    let recorded = s.touched(file.index@).webhook_queued(webhook).referenced(
        file.artifact_sha256@,
        file.artifact_size,
    ).metadata_recorded(file.artifact_sha256@, file.metadata).provenance_recorded(provenance, file.provenance);
    written_uploads_read_back(recorded, file.index@, file.normalized@, file.filename@, file.record@);
    prefixes_are_namespaces();
    let project = key2(PROJECTS_PREFIX@, file.index@, file.normalized@);
    let rest = file.index@ + "/"@ + file.normalized@;
    assert(project =~= PROJECTS_PREFIX@ + rest);
    assert(project != key1(COUNT_PREFIX@, file.index@)) by {
        namespaces_keep_apart(PROJECTS_PREFIX@, rest, COUNT_PREFIX@, file.index@);
    }
    let announced = key3(ANNOUNCED_RELEASE_PREFIX@, file.index@, file.normalized@, file.version@);
    assert(project != announced) by {
        let other = file.index@ + "/"@ + file.normalized@ + "/"@ + file.version@;
        namespaces_keep_apart(PROJECTS_PREFIX@, rest, ANNOUNCED_RELEASE_PREFIX@, other);
        assert(announced =~= ANNOUNCED_RELEASE_PREFIX@ + other);
    }
}

/// A deleted upload is gone, and so is every provenance bundle that its publication held.
pub proof fn deleted_uploads_are_gone(
    s: TxnState,
    index: Seq<char>,
    normalized: Seq<char>,
    filename: Seq<char>,
    sha256: Seq<char>,
    record: Seq<u8>,
)
    requires
        s.rows.dom().finite(),
        s.upload_removed(index, normalized, filename, record) is Ok,
    ensures
        ({
            let after = s.upload_removed(index, normalized, filename, record)->Ok_0.provenance_released(
                index,
                normalized,
                filename,
            );
            &&& after.row(key3(UPLOAD_PREFIX@, index, normalized, filename)) is None
            &&& after.row(key4(PROVENANCE_PREFIX@, index, normalized, sha256, filename)) is None
        }),
{
    let removed = s.upload_removed(index, normalized, filename, record)->Ok_0;
    let upload = key3(UPLOAD_PREFIX@, index, normalized, filename);
    upload_keys_keep_apart(index, normalized, filename);
    assert(removed.row(upload) is None);
    let prefix = key2(PROVENANCE_PREFIX@, index, normalized) + "/"@;
    let under = keys_under(removed.rows, prefix);
    let keys = ending_in(under, "/"@ + filename);
    erased_all_rows(removed, RowScope::Replicated, keys, keys.len() as int, upload);
    let bundle = key4(PROVENANCE_PREFIX@, index, normalized, sha256, filename);
    erased_all_rows(removed, RowScope::Replicated, keys, keys.len() as int, bundle);
    assert(keys.take(keys.len() as int) =~= keys);
    if removed.row(bundle) is Some {
        assert(bundle =~= prefix + (sha256 + "/"@ + filename));
        assert(prefix.is_prefix_of(bundle));
        crate::store::txn::rows_are_under(removed.rows, prefix, bundle);
        assert(bundle =~= (prefix + sha256) + ("/"@ + filename));
        assert(("/"@ + filename).is_suffix_of(bundle));
        crate::store::txn::filtered_members(
            under,
            |k: Seq<char>| ("/"@ + filename).is_suffix_of(k),
            bundle,
        );
    }
}

/// Deleting files leaves their release announced: a reader keeps the release it was told about.
pub proof fn deletions_leave_releases_announced(
    s: TxnState,
    index: Seq<char>,
    normalized: Seq<char>,
    filename: Seq<char>,
    record: Seq<u8>,
    version: Seq<char>,
)
    requires
        s.rows.dom().finite(),
        s.upload_removed(index, normalized, filename, record) is Ok,
    ensures
        ({
            let announced = key3(ANNOUNCED_RELEASE_PREFIX@, index, normalized, version);
            s.upload_removed(index, normalized, filename, record)->Ok_0.provenance_released(
                index,
                normalized,
                filename,
            ).row(announced) == s.row(announced)
        }),
{
    prefixes_are_namespaces();
    let announced = key3(ANNOUNCED_RELEASE_PREFIX@, index, normalized, version);
    assert(announced[5] == ANNOUNCED_RELEASE_PREFIX@[5]);
    assert(key3(UPLOAD_PREFIX@, index, normalized, filename)[5] == UPLOAD_PREFIX@[5]);
    assert(key1(COUNT_PREFIX@, index)[5] == COUNT_PREFIX@[5]);
    assert forall|recent: crate::store::summary::RecentText| #[trigger]
        order_position(index, recent, filename) != announced by {
        assert(order_position(index, recent, filename)[5] == RECENT_PREFIX@[5]);
    }
    let removed = s.upload_removed(index, normalized, filename, record)->Ok_0;
    assert(removed.row(announced) == s.row(announced));
    let prefix = key2(PROVENANCE_PREFIX@, index, normalized) + "/"@;
    let under = keys_under(removed.rows, prefix);
    let suffix = "/"@ + filename;
    let keys = ending_in(under, suffix);
    erased_all_rows(removed, RowScope::Replicated, keys, keys.len() as int, announced);
    assert(keys.take(keys.len() as int) =~= keys);
    if keys.contains(announced) {
        crate::store::txn::filtered_members(under, |k: Seq<char>| suffix.is_suffix_of(k), announced);
        crate::store::txn::rows_are_under(removed.rows, prefix, announced);
        assert(announced.subrange(0, prefix.len() as int)[5] == announced[5]);
        assert(prefix[5] == PROVENANCE_PREFIX@[5]);
    }
}

} // verus!
