//! Cached pages: what a freshly fetched page writes, and what a revalidation or a retirement leaves.
use vstd::prelude::*;
use vstd::utf8::encode_utf8;

use super::attestations::{
    advertised_texts, attestation_values, replace_registrations, Advertised,
};
use super::keys::{
    file_key, freshness_key, index_key, key1, key2, key3, key4, project_status_key, publication_key,
    publication_prefix, retired_key, FILE_PREFIX, FRESHNESS_PREFIX, INDEX_PREFIX, PROJECT_STATUS_PREFIX,
    PUBLICATION_PREFIX, RETIRED_PREFIX,
};
use super::projects::remove_rows_under;
use super::record::{
    framed, json_overlay, json_status_record, status_record_json, AttestationText, CachedIndex, FreshnessOverlay,
    UpstreamAttestation,
};
use super::summary::{put_cached_project_row, remove_cached_project_row};
use super::txn::{keys_under, DriverTxn, RowScope, TxnState};
use super::values::{
    claim_of, file_source_record, file_source_value, publication_record, publication_value, FileSourceText, MetaError,
    MetaErrorText,
};
use crate::collections::TextMap;
use crate::text::opt_str;

verus! {

/// One file as a page published it: enough to register where its bytes live and what it said about its
/// metadata sidecar.
pub struct PublishedFileWrite {
    pub sha256: String,
    pub filename: String,
    pub url: String,
    pub size: Option<u64>,
    /// The sibling's URL and digest, when the page advertised a sidecar for this file.
    pub metadata: Option<(String, String)>,
}

/// Everything a freshly fetched cached page produces. It goes in as one transaction.
pub struct CachedPageWrite<'a> {
    pub key: &'a str,
    pub record: &'a CachedIndex,
    pub index: &'a str,
    pub normalized: &'a str,
    pub display: &'a str,
    pub source: &'a str,
    pub upstream: Option<&'a str>,
    pub project_status: Option<&'a str>,
    pub project_status_reason: Option<&'a str>,
    pub files: &'a Vec<PublishedFileWrite>,
    pub attestations: &'a Vec<Advertised>,
}

impl TxnState {
    /// The status marker of a project is what the page said: gone where it said nothing.
    pub open spec fn status_recorded(
        self,
        index: Seq<char>,
        normalized: Seq<char>,
        status: Option<Seq<char>>,
        reason: Option<Seq<char>>,
    ) -> TxnState {
        let key = key2(PROJECT_STATUS_PREFIX@, index, normalized);
        if status is None && reason is None {
            self.erased(RowScope::Replicated, key)
        } else {
            self.wrote(RowScope::Local, key, encode_utf8(json_status_record(status, reason)))
        }
    }

    /// One file of the page is registered: where its bytes live, and its sidecar claim.
    pub open spec fn file_registered(
        self,
        index: Seq<char>,
        normalized: Seq<char>,
        source: Seq<char>,
        upstream: Option<Seq<char>>,
        file: PublishedFileWrite,
    ) -> TxnState {
        self.wrote(
            RowScope::Local,
            key3(FILE_PREFIX@, index, normalized, file.sha256@),
            encode_utf8(
                file_source_record(FileSourceText { url: file.url@, source, size: file.size, upstream }),
            ),
        ).wrote(
            RowScope::Local,
            key4(PUBLICATION_PREFIX@, index, normalized, file.sha256@, file.filename@),
            encode_utf8(publication_record(claim_of(file.metadata, source, upstream))),
        )
    }

    /// The first `n` files of the page are registered.
    pub open spec fn files_registered(
        self,
        index: Seq<char>,
        normalized: Seq<char>,
        source: Seq<char>,
        upstream: Option<Seq<char>>,
        files: Seq<PublishedFileWrite>,
        n: int,
    ) -> TxnState
        decreases n,
    {
        if n <= 0 {
            self
        } else {
            self.files_registered(index, normalized, source, upstream, files, n - 1).file_registered(
                index,
                normalized,
                source,
                upstream,
                files[n - 1],
            )
        }
    }

    /// A freshly fetched page is stored: its record, without the freshness overlay a prior revalidation
    /// left; its project, status, files and provenance; and the retirement it carried is over.
    pub open spec fn page_stored(
        self,
        write: CachedPageWrite<'_>,
        stored: Map<Seq<char>, AttestationText>,
    ) -> Result<TxnState, MetaErrorText> {
        let record = framed(encode_utf8(write.record.header_line()), write.record.body@);
        let page = self.wrote(RowScope::Local, key1(INDEX_PREFIX@, write.key@), record).erased(
            RowScope::Replicated,
            key1(FRESHNESS_PREFIX@, write.key@),
        );
        match page.project_written(RowScope::Local, write.index@, write.normalized@, write.display@) {
            Err(error) => Err(error),
            Ok(s) => match s.status_recorded(
                write.index@,
                write.normalized@,
                opt_str(write.project_status),
                opt_str(write.project_status_reason),
            ).files_registered(
                write.index@,
                write.normalized@,
                write.source@,
                opt_str(write.upstream),
                write.files@,
                write.files@.len() as int,
            ).attestations_replaced(
                write.index@,
                write.normalized@,
                opt_str(write.upstream),
                advertised_texts(write.attestations@),
                stored,
            ) {
                Err(error) => Err(error),
                Ok(t) => Ok(t.erased(RowScope::Local, key2(RETIRED_PREFIX@, write.index@, write.normalized@))),
            },
        }
    }
}

fn register_files(
    txn: &mut DriverTxn,
    index: &str,
    normalized: &str,
    source: &str,
    upstream: Option<&str>,
    files: &Vec<PublishedFileWrite>,
)
    ensures
        final(txn)@ == old(txn)@.files_registered(
            index@,
            normalized@,
            source@,
            opt_str(upstream),
            files@,
            files@.len() as int,
        ),
{
    let ghost start = txn@;
    let mut i: usize = 0;
    while i < files.len()
        invariant
            i <= files@.len(),
            txn@ == start.files_registered(index@, normalized@, source@, opt_str(upstream), files@, i as int),
        decreases files.len() - i,
    {
        let file = &files[i];
        let key = file_key(index, normalized, file.sha256.as_str());
        let value = file_source_value(file.url.as_str(), source, file.size, upstream);
        let a: bool = txn.write_row(RowScope::Local, key.as_str(), value.as_str().as_bytes());
        let published = publication_key(index, normalized, file.sha256.as_str(), file.filename.as_str());
        let claim = publication_value(&file.metadata, source, upstream);
        let b: bool = txn.write_row(RowScope::Local, published.as_str(), claim.as_str().as_bytes());
        i = i + 1;
    }
}

/// Store everything a freshly fetched cached page produces. `stored` holds the decoded provenance objects
/// of the rows that are already there.
pub fn put_cached_page(txn: &mut DriverTxn, write: CachedPageWrite<'_>, stored: &TextMap<UpstreamAttestation>) -> (r:
    Result<(), MetaError>)
    ensures
        match old(txn)@.page_stored(write, attestation_values(stored@)) {
            Err(error) => r matches Err(e) && e@ == error && final(txn)@ == old(txn)@,
            Ok(state) => r is Ok && final(txn)@ == state,
        },
{
    let saved = txn.savepoint();
    let page_key = index_key(write.key);
    let record = write.record.encode();
    let a: bool = txn.write_row(RowScope::Local, page_key.as_str(), record.as_slice());
    let overlay = freshness_key(write.key);
    let b: bool = txn.remove_row(RowScope::Replicated, overlay.as_str());
    match put_cached_project_row(txn, write.index, write.normalized, write.display) {
        Ok(_) => {},
        Err(error) => {
            *txn = saved;
            return Err(error);
        },
    }
    let status_key = project_status_key(write.index, write.normalized);
    if write.project_status.is_none() && write.project_status_reason.is_none() {
        let c: bool = txn.remove_row(RowScope::Replicated, status_key.as_str());
    } else {
        let text = status_record_json(write.project_status, write.project_status_reason);
        let c: bool = txn.write_row(RowScope::Local, status_key.as_str(), text.as_str().as_bytes());
    }
    register_files(txn, write.index, write.normalized, write.source, write.upstream, write.files);
    match replace_registrations(
        txn,
        write.index,
        write.normalized,
        write.upstream,
        write.attestations,
        stored,
    ) {
        Ok(_) => {},
        Err(error) => {
            *txn = saved;
            return Err(error);
        },
    }
    let retired = retired_key(write.index, write.normalized);
    let d: bool = txn.remove_row(RowScope::Local, retired.as_str());
    Ok(())
}

/// Store a cached record, clearing any freshness overlay a prior `304` left: a fresh body carries its own
/// fetch time, which the overlay must not shadow.
pub fn put_index(txn: &mut DriverTxn, key: &str, record: &CachedIndex)
    ensures
        final(txn)@ == old(txn)@.wrote(
            RowScope::Replicated,
            key1(INDEX_PREFIX@, key@),
            framed(encode_utf8(record.header_line()), record.body@),
        ).erased(RowScope::Replicated, key1(FRESHNESS_PREFIX@, key@)),
{
    let page_key = index_key(key);
    let bytes = record.encode();
    let a: bool = txn.write_row(RowScope::Replicated, page_key.as_str(), bytes.as_slice());
    let overlay = freshness_key(key);
    let b: bool = txn.remove_row(RowScope::Replicated, overlay.as_str());
}

/// Advance a cached page's freshness after a `304 Not Modified`: the small overlay row is written alone,
/// so that the revalidation touches a header rather than rewriting the page body.
pub fn touch_index_freshness(txn: &mut DriverTxn, key: &str, fetched_at_unix: i64, fresh_secs: Option<i64>)
    ensures
        final(txn)@ == old(txn)@.wrote(
            RowScope::Replicated,
            key1(FRESHNESS_PREFIX@, key@),
            encode_utf8(json_overlay(FreshnessOverlay { fetched_at_unix, fresh_secs })),
        ),
{
    let overlay = FreshnessOverlay { fetched_at_unix, fresh_secs };
    let row = freshness_key(key);
    let bytes = overlay.encode();
    let a: bool = txn.write_row(RowScope::Replicated, row.as_str(), bytes.as_slice());
}

impl TxnState {
    /// An upstream project is retired after an authoritative `404`: its page, its publications, its
    /// provenance, its marker and its status go, and its retirement is noted.
    pub open spec fn project_retired(
        self,
        key: Seq<char>,
        index: Seq<char>,
        project: Seq<char>,
        stored: Map<Seq<char>, AttestationText>,
    ) -> Result<TxnState, MetaErrorText> {
        let page = self.erased(RowScope::Replicated, key1(INDEX_PREFIX@, key)).erased(
            RowScope::Replicated,
            key1(FRESHNESS_PREFIX@, key),
        );
        let keys = keys_under(page.rows, key2(PUBLICATION_PREFIX@, index, project) + "/"@);
        match page.erased_all(RowScope::Replicated, keys, keys.len() as int).attestations_replaced(
            index,
            project,
            None,
            Seq::empty(),
            stored,
        ) {
            Err(error) => Err(error),
            Ok(s) => match s.project_removed(RowScope::Local, index, project) {
                Err(error) => Err(error),
                Ok(t) => Ok(
                    t.erased(RowScope::Local, key2(PROJECT_STATUS_PREFIX@, index, project)).wrote(
                        RowScope::Local,
                        key2(RETIRED_PREFIX@, index, project),
                        Seq::empty(),
                    ),
                ),
            },
        }
    }
}

/// Retire an upstream project page and its provenance locators after an authoritative `404`.
pub fn retire_cached_project(
    txn: &mut DriverTxn,
    key: &str,
    index: &str,
    project: &str,
    stored: &TextMap<UpstreamAttestation>,
) -> (r: Result<(), MetaError>)
    ensures
        match old(txn)@.project_retired(key@, index@, project@, attestation_values(stored@)) {
            Err(error) => r matches Err(e) && e@ == error && final(txn)@ == old(txn)@,
            Ok(state) => r is Ok && final(txn)@ == state,
        },
{
    let saved = txn.savepoint();
    let page_key = index_key(key);
    let a: bool = txn.remove_row(RowScope::Replicated, page_key.as_str());
    let overlay = freshness_key(key);
    let b: bool = txn.remove_row(RowScope::Replicated, overlay.as_str());
    let publications = publication_prefix(index, project);
    remove_rows_under(txn, RowScope::Replicated, publications.as_str());
    let none: Vec<Advertised> = Vec::new();
    assert(advertised_texts(none@) =~= Seq::empty());
    match replace_registrations(txn, index, project, None, &none, stored) {
        Ok(_) => {},
        Err(error) => {
            *txn = saved;
            return Err(error);
        },
    }
    match remove_cached_project_row(txn, index, project) {
        Ok(_) => {},
        Err(error) => {
            *txn = saved;
            return Err(error);
        },
    }
    let status_key = project_status_key(index, project);
    let c: bool = txn.remove_row(RowScope::Local, status_key.as_str());
    let retired = retired_key(index, project);
    let empty: Vec<u8> = Vec::new();
    let d: bool = txn.write_row(RowScope::Local, retired.as_str(), empty.as_slice());
    assert(empty@ =~= Seq::<u8>::empty());
    Ok(())
}

/// A stored page is fresh: the row of its record is what was written last, and no overlay shadows it.
pub proof fn stored_records_are_not_shadowed(s: TxnState, key: Seq<char>, record: Seq<u8>)
    ensures
        ({
            let t = s.wrote(RowScope::Replicated, key1(INDEX_PREFIX@, key), record).erased(
                RowScope::Replicated,
                key1(FRESHNESS_PREFIX@, key),
            );
            &&& t.row(key1(INDEX_PREFIX@, key)) == Some(record)
            &&& t.row(key1(FRESHNESS_PREFIX@, key)) is None
        }),
{
    super::keys::prefixes_are_namespaces();
    super::keys::namespaces_are_disjoint(INDEX_PREFIX@, FRESHNESS_PREFIX@, key);
    crate::text::cut_prefix_of_joined(FRESHNESS_PREFIX@, key);
}

/// A revalidation leaves the page body where it is.
pub proof fn revalidation_keeps_the_body(s: TxnState, key: Seq<char>, overlay: Seq<u8>)
    ensures
        s.wrote(RowScope::Replicated, key1(FRESHNESS_PREFIX@, key), overlay).row(key1(INDEX_PREFIX@, key)) == s.row(
            key1(INDEX_PREFIX@, key),
        ),
{
    super::keys::prefixes_are_namespaces();
    super::keys::namespaces_are_disjoint(INDEX_PREFIX@, FRESHNESS_PREFIX@, key);
    crate::text::cut_prefix_of_joined(FRESHNESS_PREFIX@, key);
}

} // verus!
