//! What records promise: that each is read as it was written, and that provenance objects are registered, replaced and
//! exchanged as their pages say.
use vstd::prelude::*;
use vstd::utf8::encode_utf8;

use crate::collections::listed;
use crate::outside::json_string;
use crate::store::attestations::{
    are_staged_published, desired, is_exchanged, objects_read, staged_read, staged_upstream, StagedAttestation,
};
use crate::store::keys::{key4, live_key, UPSTREAM_ATTESTATION_PREFIX};
use crate::store::projects::erased_all_rows;
use crate::store::record::{
    json_attestation, page_decoded, remote_attestation, summarized, unframed, AttestationText, CachedText, DecodedPage,
    FreshnessOverlay, UpstreamAttestation,
};
use crate::store::txn::{keys_under, RowScope, TxnState};
use crate::store::values::{
    claim_of, provenance_read, upstream_field, MetaError, MetaErrorText, PypiRecords, ReferenceText,
};
use crate::text::{decimal, decimal_reads_back, first_index_of_joined, opt_text};

verus! {

/// An overlay changes when a page was fetched and how long it stays fresh, and nothing else of it.
pub proof fn overlays_change_the_freshness_alone(page: CachedText, overlay: FreshnessOverlay)
    ensures
        page.overlaid(None) == page,
        ({
            let r = page.overlaid(Some(overlay));
            &&& r.fetched_at_unix == overlay.fetched_at_unix
            &&& r.fresh_secs == overlay.fresh_secs
            &&& r.body == page.body && r.etag == page.etag && r.last_serial == page.last_serial && r.content_type
                == page.content_type
        }),
{
}

/// A framed record is read by its header line, and one of the older form as a whole; a record of neither is damaged.
/// Its summary says what the record says.
pub proof fn records_are_read_by_their_form(bytes: Seq<u8>, decoded: DecodedPage)
    ensures
        page_decoded(bytes, decoded) is Some <==> (unframed(bytes) is Some && decoded is Header) || (unframed(bytes) is None
            && decoded is Whole),
        summarized(bytes, decoded) is Some <==> page_decoded(bytes, decoded) is Some,
        page_decoded(bytes, decoded) matches Some(page) ==> (summarized(bytes, decoded) matches Some(summary)
            && summary.fetched_at_unix == page.fetched_at_unix && summary.fresh_secs == page.fresh_secs
            && summary.last_serial == page.last_serial && summary.content_type == page.content_type && summary.body_bytes
            == page.body.len() && summary.record_bytes == bytes.len()),
        unframed(bytes) matches Some((header, body)) ==> (page_decoded(bytes, decoded) matches Some(page) ==> page.body
            == body),
{
}

/// A provenance link of which nothing was fetched says where it leads and no more.
pub proof fn remote_objects_say_where_they_are(
    url: Seq<char>,
    source: Seq<char>,
    project: Seq<char>,
    upstream: Option<Seq<char>>,
    other: AttestationText,
)
    ensures
        ({
            let r = remote_attestation(url, source, project, upstream);
            &&& r.url == url && r.source == source && r.project == project && r.upstream == upstream
            &&& r.availability is RemoteOnly && r.body is None && r.etag is None && r.last_modified is None
            &&& r.media_type is None && r.fetched_at_unix is None && r.fresh_secs is None && !r.must_revalidate
            &&& r.same_source(other) <==> other.url == url && other.source == source && other.project == project
                && other.upstream == upstream
        }),
{
}

/// A reference of the current form is a verified publisher's; one of another version is refused; and one of the older
/// form is not verified.
pub proof fn references_say_whether_they_were_verified(
    key: Seq<char>,
    value: Seq<char>,
    decoded: Option<(u64, Seq<char>, u64)>,
)
    ensures
        "{"@.is_prefix_of(value) ==> (provenance_read(key, value, decoded) is Ok <==> (decoded matches Some((version, _, _))
            && version == 1)),
        "{"@.is_prefix_of(value) ==> (decoded matches Some((version, sha256, size)) ==> (version == 1 ==> provenance_read(
            key,
            value,
            decoded,
        ) == Ok::<ReferenceText, MetaErrorText>(ReferenceText { verified: true, sha256, size }))),
        provenance_read(key, value, decoded) matches Ok(reference) ==> (reference.verified <==> "{"@.is_prefix_of(value)),
{
}

/// A reference of the older form is read back as it was written.
pub proof fn older_references_read_back(
    key: Seq<char>,
    sha256: Seq<char>,
    size: u64,
    decoded: Option<(u64, Seq<char>, u64)>,
)
    requires
        !sha256.contains('\n'),
        sha256.len() > 0,
        sha256[0] != '{',
    ensures
        provenance_read(key, sha256 + seq!['\n'] + decimal(size as nat), decoded) == Ok::<ReferenceText, MetaErrorText>(
            ReferenceText { verified: false, sha256, size },
        ),
{
    let value = sha256 + seq!['\n'] + decimal(size as nat);
    reveal_strlit("{");
    if "{"@.is_prefix_of(value) {
        assert(value.subrange(0, 1)[0] == '{');
    }
    first_index_of_joined(sha256, '\n', decimal(size as nat));
    decimal_reads_back(size);
}

/// A page's sidecar pair claims its address and its digest for the source that listed it; an upstream without a name is
/// none.
pub proof fn claims_are_of_their_source(
    metadata: Option<(String, String)>,
    source: Seq<char>,
    upstream: Option<Seq<char>>,
)
    ensures
        claim_of(metadata, source, upstream) is Some <==> metadata is Some,
        metadata matches Some((url, digest)) ==> (claim_of(metadata, source, upstream) matches Some(claim) && claim.url
            == url@ && claim.metadata_sha256 == digest@ && claim.source == source && claim.upstream == upstream),
        upstream_field(upstream) == (if upstream is Some && upstream->0.len() > 0 {
            upstream
        } else {
            None
        }),
{
}

/// Each namespace is reported under a name of its own.
pub proof fn namespaces_have_their_names(namespace: PypiRecords)
    ensures
        namespace.label_text() == (match namespace {
            PypiRecords::FileUrl => "file-url"@,
            PypiRecords::Metadata => "pep658"@,
            PypiRecords::Publication => "publication"@,
            PypiRecords::Project => "project"@,
            PypiRecords::Override => "override"@,
            PypiRecords::Provenance => "provenance"@,
        }),
{
}

// ---------------------------------------------------------------------------------------------
// Provenance objects
// ---------------------------------------------------------------------------------------------

/// Every advertisement is desired, and the last one of a file stands.
pub proof fn advertisements_are_desired(
    index: Seq<char>,
    project: Seq<char>,
    list: Seq<(Seq<char>, Seq<char>, Seq<char>)>,
    n: int,
    i: int,
)
    requires
        0 <= i < n <= list.len(),
    ensures
        desired(index, project, list, n).contains_key(live_key(index, project, list[i].0, list[i].1)),
        (forall|j: int|
            i < j < n ==> live_key(index, project, (#[trigger] list[j]).0, list[j].1) != live_key(
                index,
                project,
                list[i].0,
                list[i].1,
            )) ==> desired(index, project, list, n)[live_key(index, project, list[i].0, list[i].1)] == list[i],
    decreases n,
{
    if i < n - 1 {
        advertisements_are_desired(index, project, list, n - 1, i);
        assert(list[n - 1] == list[n - 1]);
    }
}

/// What is desired was advertised.
pub proof fn only_advertisements_are_desired(
    index: Seq<char>,
    project: Seq<char>,
    list: Seq<(Seq<char>, Seq<char>, Seq<char>)>,
    n: int,
    key: Seq<char>,
)
    requires
        0 <= n <= list.len(),
        desired(index, project, list, n).contains_key(key),
    ensures
        exists|i: int|
            0 <= i < n && key == live_key(index, project, (#[trigger] list[i]).0, list[i].1) && desired(
                index,
                project,
                list,
                n,
            )[key] == list[i],
    decreases n,
{
    if n > 0 {
        let last = list[n - 1];
        if key == live_key(index, project, last.0, last.1) {
            assert(desired(index, project, list, n)[key] == list[n - 1]);
        } else {
            only_advertisements_are_desired(index, project, list, n - 1, key);
        }
    }
}

/// A registration that is still advertised is left as it is.
pub proof fn advertised_registrations_stay(
    s: TxnState,
    keys: Seq<Seq<char>>,
    rows: Map<Seq<char>, Seq<u8>>,
    keep: Set<Seq<char>>,
    n: int,
)
    requires
        0 <= n <= keys.len(),
        forall|i: int| 0 <= i < n ==> keep.contains(#[trigger] keys[i]),
    ensures
        s.unregistered(keys, rows, keep, n) == Ok::<TxnState, MetaErrorText>(s),
    decreases n,
{
    if n > 0 {
        advertised_registrations_stay(s, keys, rows, keep, n - 1);
        assert(keep.contains(keys[n - 1]));
    }
}

/// A file that is advertised for the first time is registered: its object says where it leads, and its registration
/// names the object.
pub proof fn first_advertisements_are_registered(
    s: TxnState,
    index: Seq<char>,
    project: Seq<char>,
    upstream: Option<Seq<char>>,
    wanted: Map<Seq<char>, (Seq<char>, Seq<char>, Seq<char>)>,
    known: Map<Seq<char>, AttestationText>,
    n: int,
)
    requires
        0 < n <= listed(wanted.dom()).len(),
        s.registered_all(index, project, upstream, wanted, known, n - 1) is Ok,
    ensures
        ({
            let (before, knew) = s.registered_all(index, project, upstream, wanted, known, n - 1)->Ok_0;
            let owner = listed(wanted.dom())[n - 1];
            let (digest, filename, url) = wanted[owner];
            let main = key4(UPSTREAM_ATTESTATION_PREFIX@, index, digest, filename, project);
            let r = s.registered_all(index, project, upstream, wanted, known, n);
            &&& r matches Ok((after, _)) ==> after.row(owner) == Some(encode_utf8(json_string(main)))
            &&& before.row(main) is None && main != owner ==> (r matches Ok((after, _)) && after.row(main) == Some(
                encode_utf8(json_attestation(remote_attestation(url, index, project, upstream))),
            ))
            &&& before.row(main) is Some && !knew.contains_key(main) ==> r is Err
            &&& before.row(main) is Some && knew.contains_key(main) && main != owner && knew[main].url == url
                && knew[main].source == index && knew[main].project == project && knew[main].upstream == upstream ==> (
            r matches Ok((after, _)) && after.row(main) == before.row(main))
        }),
{
}

/// Staged registrations are read in their order, all of them or none.
pub proof fn staged_registrations_are_read_whole(
    keys: Seq<Seq<char>>,
    decoded: Map<Seq<char>, StagedAttestation>,
    objects: Map<Seq<char>, AttestationText>,
    n: int,
    i: int,
)
    requires
        0 <= i < n <= keys.len(),
    ensures
        staged_read(keys, decoded, n) matches Ok(list) ==> list.len() == n && decoded.contains_key(keys[i]) && list[i] == (
            decoded[keys[i]].digest@,
            decoded[keys[i]].filename@,
            decoded[keys[i]].record.url@,
        ),
        objects_read(keys, objects, n) matches Ok(list) ==> list.len() == n && objects.contains_key(keys[i]) && list[i]
            == objects[keys[i]],
        !decoded.contains_key(keys[i]) ==> staged_read(keys, decoded, n) is Err,
        !objects.contains_key(keys[i]) ==> objects_read(keys, objects, n) is Err,
        staged_upstream(keys, decoded) == opt_text(decoded[keys.last()].record.upstream),
    decreases n,
{
    reveal_with_fuel(staged_read, 2);
    reveal_with_fuel(objects_read, 2);
    if n > 1 {
        staged_registrations_are_read_whole(keys, decoded, objects, n - 1, if i < n - 1 {
            i
        } else {
            0
        });
    }
}

/// Once staged registrations are published, none of the staged rows is left; a publication that fails writes nothing.
pub proof fn published_registrations_leave_no_staging(
    was: TxnState,
    index: Seq<char>,
    project: Seq<char>,
    prefix: Seq<char>,
    decoded: Map<Seq<char>, StagedAttestation>,
    stored: Map<Seq<char>, AttestationText>,
    now: TxnState,
    r: Result<(), MetaError>,
    key: Seq<char>,
)
    requires
        are_staged_published(was, index, project, prefix, decoded, stored, now, r),
    ensures
        r is Err ==> now == was,
        r is Ok && keys_under(was.rows, prefix).contains(key) ==> now.row(key) is None,
{
    let keys = keys_under(was.rows, prefix);
    if r is Ok {
        let list = staged_read(keys, decoded, keys.len() as int)->Ok_0;
        let state = was.attestations_replaced(index, project, staged_upstream(keys, decoded), list, stored)->Ok_0;
        erased_all_rows(state, RowScope::Replicated, keys, keys.len() as int, key);
        assert(keys.take(keys.len() as int) =~= keys);
    }
}

/// An object is replaced exactly where it is still what was read; the replacement is read back, and no other row
/// changes. One of another source is refused.
pub proof fn objects_are_exchanged_where_unchanged(
    was: TxnState,
    index: Seq<char>,
    artifact_sha256: Seq<char>,
    filename: Seq<char>,
    current: Option<UpstreamAttestation>,
    expected: UpstreamAttestation,
    replacement: UpstreamAttestation,
    now: TxnState,
    r: Result<bool, MetaError>,
    other: Seq<char>,
)
    requires
        is_exchanged(was, index, artifact_sha256, filename, current, expected, replacement, now, r),
    ensures
        ({
            let main = key4(UPSTREAM_ATTESTATION_PREFIX@, index, artifact_sha256, filename, expected.project@);
            let same = expected@.url == replacement@.url && expected@.source == replacement@.source && expected@.project
                == replacement@.project && expected@.upstream == replacement@.upstream;
            &&& (r matches Ok(true)) <==> same && was.row(main) is Some && (current matches Some(there) && there@
                == expected@)
            &&& (r matches Ok(true)) ==> now.row(main) == Some(encode_utf8(json_attestation(replacement@)))
            &&& !(r matches Ok(true)) ==> now == was
            &&& !same ==> r is Err
            &&& same && was.row(main) is None ==> (r matches Ok(false))
            &&& other != main ==> now.row(other) == was.row(other)
        }),
{
}

} // verus!
