//! Hosted files: publishing, promoting, mutating and deleting them, each as one transaction.
use vstd::prelude::*;
use vstd::utf8::{decode_utf8, encode_utf8, valid_utf8};

use super::journal::{journal_bytes, json_journal};
use super::keys::{
    announced_release_key, key1, key2, key3, key4, metadata_key, override_key, provenance_key, provenance_prefix,
    upload_key, upload_prefix, ANNOUNCED_RELEASE_PREFIX, METADATA_PREFIX, OVERRIDE_PREFIX, PROVENANCE_PREFIX,
    UPLOAD_PREFIX,
};
use super::overrides::{
    json_override, opt_decoded, read_override, DecodedOverride, DecodedText, FileOverride, MutationText, OverrideMutation,
    OverrideText,
};
use super::summary::{put_project_row, put_upload_row, read_upload_fields, remove_upload_row, upload_fields};
use super::txn::{
    byte_seqs, entry_keys, keys_under, opt_bytes, rows_under, DriverTxn, RowScope, TxnState,
};
use super::values::{
    decoded_reference, provenance_read, provenance_record, provenance_value, record_str, split_provenance_value,
    MetaError, MetaErrorText, ReferenceText, StoredProvenanceReference, VersionedProvenanceReference,
};
use crate::collections::TextMap;
use crate::simple::file::{Yanked, YankedText};
use crate::text::{ends_with, opt_as_str, opt_str, opt_text};

verus! {

/// The metadata sibling recorded alongside a published file.
#[derive(Debug, Clone, Copy)]
pub struct MetadataSibling<'a> {
    /// The sibling's SHA-256, which the page advertises and a reader verifies.
    pub metadata_sha256: &'a str,
    /// The sibling's byte length.
    pub size: u64,
}

/// The provenance blob published alongside a distribution that carried attestations.
#[derive(Debug, Clone, Copy)]
pub struct ProvenanceSibling<'a> {
    /// The provenance blob's own SHA-256.
    pub provenance_sha256: &'a str,
    /// The provenance blob's byte length.
    pub size: u64,
}

/// Everything one published file writes to the store.
pub struct PublishedFile<'a> {
    /// The hosted index the file lands on.
    pub index: &'a str,
    /// The project's normalized name, which keys its rows.
    pub normalized: &'a str,
    /// The project's display name, as the uploader spelled it.
    pub display: &'a str,
    pub filename: &'a str,
    pub artifact_sha256: &'a str,
    pub artifact_size: u64,
    /// The serialized file record served on the project's page.
    pub record: &'a [u8],
    /// The release the file belongs to.
    pub version: &'a str,
    /// The Python tag of the distribution, as its filename gives it.
    pub python_tag: &'a str,
    /// When the upload was submitted, as Unix seconds.
    pub submitted_at_unix: i64,
    pub metadata: Option<MetadataSibling<'a>>,
    pub provenance: Option<ProvenanceSibling<'a>>,
}

/// A precondition's verdict on a key's current value, decided inside the write transaction.
///
/// `Commit` writes the staged rows; `Skip` leaves the key untouched as an idempotent no-op.
#[derive(Debug, Clone, Copy, PartialEq, Eq, Structural)]
pub enum Guard {
    Commit,
    Skip,
}

/// What becomes of one upload record.
pub enum UploadMutation {
    Keep,
    Replace(Vec<u8>),
    Delete,
}

/// One publication as the store already holds it, for a precondition that has to weigh more than the
/// served record.
pub struct PublishedState {
    /// The served file record, nothing when the filename is unpublished on this index.
    pub record: Option<Vec<u8>>,
    /// The provenance bundle blob's digest, when this publication carries one.
    pub provenance: Option<String>,
}

/// What a state reads of a row that holds a provenance reference.
pub open spec fn reference_at(
    s: TxnState,
    key: Seq<char>,
    decoded: Option<(u64, Seq<char>, u64)>,
) -> Result<Option<ReferenceText>, MetaErrorText> {
    match s.row(key) {
        None => Ok(None),
        Some(raw) => if !valid_utf8(raw) {
            Err(MetaErrorText::Utf8 { key })
        } else {
            match provenance_read(key, decode_utf8(raw), decoded) {
                Ok(reference) => Ok(Some(reference)),
                Err(error) => Err(error),
            }
        },
    }
}

pub fn read_reference(txn: &DriverTxn, key: &str, decoded: Option<VersionedProvenanceReference>) -> (r: Result<
    Option<StoredProvenanceReference>,
    MetaError,
>)
    ensures
        match r {
            Ok(found) => reference_at(txn@, key@, decoded_reference(decoded)) == Ok::<
                Option<ReferenceText>,
                MetaErrorText,
            >(
                match found {
                    Some(reference) => Some(reference@),
                    None => None,
                },
            ),
            Err(error) => reference_at(txn@, key@, decoded_reference(decoded)) == Err::<
                Option<ReferenceText>,
                MetaErrorText,
            >(error@),
        },
{
    match txn.get(key) {
        None => Ok(None),
        Some(raw) => {
            let value = match record_str(key, raw) {
                Ok(value) => value,
                Err(error) => {
                    return Err(error);
                },
            };
            match split_provenance_value(key, value.as_str(), decoded) {
                Ok(reference) => Ok(Some(reference)),
                Err(error) => Err(error),
            }
        },
    }
}

/// Whether `r` is what is stored of a published file.
pub open spec fn is_published_state(
    s: TxnState,
    file: PublishedFile<'_>,
    decoded: Option<VersionedProvenanceReference>,
    r: Result<PublishedState, MetaError>,
) -> bool {
    let upload = key3(UPLOAD_PREFIX@, file.index@, file.normalized@, file.filename@);
    let provenance = key4(
        PROVENANCE_PREFIX@,
        file.index@,
        file.normalized@,
        file.artifact_sha256@,
        file.filename@,
    );
    match reference_at(s, provenance, decoded_reference(decoded)) {
        Err(error) => r matches Err(e) && e@ == error,
        Ok(reference) => r matches Ok(state) && opt_bytes(state.record) == s.row(upload) && opt_text(
            state.provenance,
        ) == (match reference {
            Some(reference) => Some(reference.sha256),
            None => None,
        }),
    }
}

/// The publication as the store holds it. `decoded` is the versioned form of the provenance row that is
/// there, when it holds one.
pub fn published_state(
    txn: &DriverTxn,
    file: &PublishedFile<'_>,
    decoded: Option<VersionedProvenanceReference>,
) -> (r: Result<PublishedState, MetaError>)
    ensures
        is_published_state(txn@, *file, decoded, r),
{
    let upload = upload_key(file.index, file.normalized, file.filename);
    let provenance = provenance_key(file.index, file.normalized, file.artifact_sha256, file.filename);
    let record = txn.get(upload.as_str());
    match read_reference(txn, provenance.as_str(), decoded) {
        Err(error) => Err(error),
        Ok(found) => {
            let provenance: Option<String> = match &found {
                Some(reference) => Some(reference.sha256().to_owned()),
                None => None,
            };
            Ok(PublishedState { record, provenance })
        },
    }
}

// ---------------------------------------------------------------------------------------------
// Publishing
// ---------------------------------------------------------------------------------------------

/// A state and the journal entries written on the way to it.
pub struct Journaled {
    pub state: TxnState,
    pub journal: Seq<Seq<u8>>,
}

impl TxnState {
    /// A release is announced the first time one of its files is journaled: the entry that announces it
    /// precedes the file's own.
    pub open spec fn announced(
        self,
        index: Seq<char>,
        normalized: Seq<char>,
        version: Option<Seq<char>>,
        submitted_at_unix: i64,
    ) -> Journaled {
        match version {
            None => Journaled { state: self, journal: Seq::empty() },
            Some(version) => {
                let key = key3(ANNOUNCED_RELEASE_PREFIX@, index, normalized, version);
                if self.rows.contains_key(key) {
                    Journaled { state: self, journal: Seq::empty() }
                } else {
                    Journaled {
                        state: self.wrote(RowScope::Replicated, key, encode_utf8(version)),
                        journal: seq![
                            encode_utf8(
                                json_journal(
                                    "new-release"@,
                                    normalized,
                                    Some(version),
                                    None,
                                    None,
                                    submitted_at_unix,
                                ),
                            ),
                        ],
                    }
                }
            },
        }
    }

    /// A file's metadata sibling is recorded and referenced.
    pub open spec fn metadata_recorded(self, artifact: Seq<char>, sibling: Option<MetadataSibling<'_>>) -> TxnState {
        match sibling {
            None => self,
            Some(sibling) => self.wrote(
                RowScope::Replicated,
                key1(METADATA_PREFIX@, artifact),
                encode_utf8(sibling.metadata_sha256@),
            ).referenced(sibling.metadata_sha256@, sibling.size),
        }
    }

    /// A file's provenance sibling is recorded and referenced.
    pub open spec fn provenance_recorded(self, key: Seq<char>, sibling: Option<ProvenanceSibling<'_>>) -> TxnState {
        match sibling {
            None => self,
            Some(sibling) => self.wrote(
                RowScope::Replicated,
                key,
                encode_utf8(provenance_record(sibling.provenance_sha256@, sibling.size)),
            ).referenced(sibling.provenance_sha256@, sibling.size),
        }
    }

    pub open spec fn webhook_queued(self, event: Option<Seq<u8>>) -> TxnState {
        match event {
            None => self,
            Some(event) => TxnState { webhooks: self.webhooks.push(event), ..self },
        }
    }

    /// A file is published: its blobs are referenced, its siblings, its record and its project are
    /// recorded, and the journal names it, behind the announcement of its release.
    pub open spec fn file_published(
        self,
        outbox: bool,
        file: PublishedFile<'_>,
        webhook: Option<Seq<u8>>,
    ) -> Result<Journaled, MetaErrorText> {
        let provenance = key4(
            PROVENANCE_PREFIX@,
            file.index@,
            file.normalized@,
            file.artifact_sha256@,
            file.filename@,
        );
        let recorded = self.touched(file.index@).webhook_queued(webhook).referenced(
            file.artifact_sha256@,
            file.artifact_size,
        ).metadata_recorded(file.artifact_sha256@, file.metadata).provenance_recorded(provenance, file.provenance);
        match recorded.upload_written(file.index@, file.normalized@, file.filename@, file.record@) {
            Err(error) => Err(error),
            Ok(s) => match s.project_written(RowScope::Replicated, file.index@, file.normalized@, file.display@) {
                Err(error) => Err(error),
                Ok(t) => if outbox {
                    let a = t.announced(file.index@, file.normalized@, Some(file.version@), file.submitted_at_unix);
                    Ok(
                        Journaled {
                            state: a.state,
                            journal: a.journal.push(
                                encode_utf8(
                                    json_journal(
                                        "add-file"@,
                                        file.normalized@,
                                        Some(file.version@),
                                        Some(file.filename@),
                                        Some(file.python_tag@),
                                        file.submitted_at_unix,
                                    ),
                                ),
                            ),
                        },
                    )
                } else {
                    Ok(Journaled { state: t, journal: Seq::empty() })
                },
            },
        }
    }
}

pub fn announce_release(
    txn: &mut DriverTxn,
    index: &str,
    normalized: &str,
    version: Option<&str>,
    submitted_at_unix: i64,
) -> (r: Vec<Vec<u8>>)
    ensures
        ({
            let a = old(txn)@.announced(index@, normalized@, opt_str(version), submitted_at_unix);
            final(txn)@ == a.state && byte_seqs(r@) == a.journal
        }),
{
    let mut journal: Vec<Vec<u8>> = Vec::new();
    assert(byte_seqs(journal@) =~= Seq::<Seq<u8>>::empty());
    match version {
        None => {},
        Some(version) => {
            let key = announced_release_key(index, normalized, version);
            if txn.get(key.as_str()).is_none() {
                let fresh: bool = txn.write_row(RowScope::Replicated, key.as_str(), version.as_bytes());
                let entry = journal_bytes("new-release", normalized, Some(version), None, None, submitted_at_unix);
                journal.push(entry);
                assert(byte_seqs(journal@) =~= seq![entry@]);
            }
        },
    }
    journal
}

/// Whether publishing a file takes the store from `was` to `now`, and `r` says so.
pub open spec fn is_publication(
    was: TxnState,
    outbox: bool,
    file: PublishedFile<'_>,
    guard: Guard,
    webhook: Option<Seq<u8>>,
    now: TxnState,
    r: Result<(bool, Vec<Vec<u8>>), MetaError>,
) -> bool {
    match guard {
        Guard::Skip => r matches Ok((written, journal)) && !written && journal@.len() == 0 && now == was,
        Guard::Commit => match was.file_published(outbox, file, webhook) {
            Err(error) => r matches Err(e) && e@ == error && now == was,
            Ok(done) => r matches Ok((written, journal)) && written && now == done.state && byte_seqs(
                journal@,
            ) == done.journal,
        },
    }
}

/// Publish a file, if `guard` accepts the publication as the store holds it: its record, its siblings,
/// its project, and its journal entry go in together. Say whether it was written, and give the journal
/// entries.
///
/// These rows are one fact. Committed separately, a crash between the upload row and the journal entry
/// would leave a file served forever that no replica will ever receive.
pub fn publish_file_in_txn(
    txn: &mut DriverTxn,
    outbox: bool,
    file: &PublishedFile<'_>,
    guard: Guard,
    webhook: Option<Vec<u8>>,
) -> (r: Result<(bool, Vec<Vec<u8>>), MetaError>)
    ensures
        is_publication(old(txn)@, outbox, *file, guard, opt_bytes(webhook), final(txn)@, r),
{
    match guard {
        Guard::Skip => {
            let journal: Vec<Vec<u8>> = Vec::new();
            return Ok((false, journal));
        },
        Guard::Commit => {},
    }
    let saved = txn.savepoint();
    txn.touch_policy_inputs(file.index);
    match webhook {
        Some(event) => txn.enqueue_webhook_event(event),
        None => {},
    }
    txn.reference_blob(file.artifact_sha256, file.artifact_size);
    match &file.metadata {
        Some(sibling) => {
            let key = metadata_key(file.artifact_sha256);
            let fresh: bool = txn.write_row(
                RowScope::Replicated,
                key.as_str(),
                sibling.metadata_sha256.as_bytes(),
            );
            txn.reference_blob(sibling.metadata_sha256, sibling.size);
        },
        None => {},
    }
    match &file.provenance {
        Some(sibling) => {
            let key = provenance_key(file.index, file.normalized, file.artifact_sha256, file.filename);
            let value = provenance_value(sibling.provenance_sha256, sibling.size);
            let fresh: bool = txn.write_row(RowScope::Replicated, key.as_str(), value.as_str().as_bytes());
            txn.reference_blob(sibling.provenance_sha256, sibling.size);
        },
        None => {},
    }
    match put_upload_row(txn, file.index, file.normalized, file.filename, file.record) {
        Ok(_) => {},
        Err(error) => {
            *txn = saved;
            return Err(error);
        },
    }
    match put_project_row(txn, file.index, file.normalized, file.display) {
        Ok(_) => {},
        Err(error) => {
            *txn = saved;
            return Err(error);
        },
    }
    if !outbox {
        let journal: Vec<Vec<u8>> = Vec::new();
        assert(byte_seqs(journal@) =~= Seq::<Seq<u8>>::empty());
        return Ok((true, journal));
    }
    let mut journal = announce_release(
        txn,
        file.index,
        file.normalized,
        Some(file.version),
        file.submitted_at_unix,
    );
    let ghost announced = byte_seqs(journal@);
    let entry = journal_bytes(
        "add-file",
        file.normalized,
        Some(file.version),
        Some(file.filename),
        Some(file.python_tag),
        file.submitted_at_unix,
    );
    journal.push(entry);
    assert(byte_seqs(journal@) =~= announced.push(entry@));
    Ok((true, journal))
}

/// A release is announced at most once: the second file of a version attaches to a release the reader has
/// already been told about.
pub proof fn releases_are_announced_once(
    s: TxnState,
    index: Seq<char>,
    normalized: Seq<char>,
    version: Seq<char>,
    first: i64,
    second: i64,
)
    ensures
        ({
            let once = s.announced(index, normalized, Some(version), first);
            let twice = once.state.announced(index, normalized, Some(version), second);
            &&& twice.journal.len() == 0
            &&& twice.state == once.state
        }),
{
}

// ---------------------------------------------------------------------------------------------
// Mutating
// ---------------------------------------------------------------------------------------------

/// The version that a journal entry names: the one the record carries, or else the one its filename
/// spells.
pub open spec fn version_named(record: Seq<u8>, segment: Option<Seq<char>>) -> Option<Seq<char>> {
    match upload_fields(record) {
        Some(fields) => match fields.version {
            Some(version) => Some(version),
            None => segment,
        },
        None => segment,
    }
}

/// The version that a journal entry names. `segment` is the version segment of the filename.
pub fn journal_version(record: &[u8], segment: Option<&str>) -> (r: Option<String>)
    ensures
        opt_text(r) == version_named(record@, opt_str(segment)),
{
    match read_upload_fields(record) {
        Some(fields) => match fields.version {
            Some(version) => Some(version),
            None => crate::text::opt_to_owned(segment),
        },
        None => crate::text::opt_to_owned(segment),
    }
}

/// The value of `key`, seen as characters.
pub open spec fn found_text(map: Map<Seq<char>, String>, key: Seq<char>) -> Option<Seq<char>> {
    if map.contains_key(key) {
        Some(map[key]@)
    } else {
        None
    }
}

pub fn find_text<'a>(map: &'a TextMap<String>, key: &str) -> (r: Option<&'a str>)
    ensures
        opt_str(r) == found_text(map@, key@),
{
    match map.get(key) {
        Some(value) => Some(value.as_str()),
        None => None,
    }
}

/// What the mutations say of a filename. A filename they do not name is kept.
pub open spec fn mutation_of(mutations: Map<Seq<char>, UploadMutation>, filename: Seq<char>) -> UploadMutation {
    if mutations.contains_key(filename) {
        mutations[filename]
    } else {
        UploadMutation::Keep
    }
}

/// Where a batch of mutations stands: the state, how many records changed, and the journal.
pub struct Mutated {
    pub state: TxnState,
    pub changed: nat,
    pub journal: Seq<Seq<u8>>,
}

/// What a batch of mutations is about.
pub struct MutationBatch {
    pub outbox: bool,
    pub index: Seq<char>,
    pub normalized: Seq<char>,
    pub action: Seq<char>,
    pub submitted_at_unix: i64,
}

/// One more change, journaled where entries are kept.
pub open spec fn journaled(
    m: Mutated,
    state: TxnState,
    batch: MutationBatch,
    action: Seq<char>,
    version: Option<Seq<char>>,
    filename: Seq<char>,
) -> Mutated {
    Mutated {
        state: state.touched(batch.index),
        changed: m.changed + 1,
        journal: if batch.outbox {
            m.journal.push(
                encode_utf8(
                    json_journal(
                        action,
                        batch.normalized,
                        version,
                        Some(filename),
                        None,
                        batch.submitted_at_unix,
                    ),
                ),
            )
        } else {
            m.journal
        },
    }
}

/// The filename in an upload key.
pub open spec fn filename_in(batch: MutationBatch, key: Seq<char>) -> Seq<char> {
    key.skip((key2(UPLOAD_PREFIX@, batch.index, batch.normalized) + "/"@).len() as int)
}

/// The first `n` upload records are mutated, and every one that is rewritten or removed is journaled
/// against its filename.
pub open spec fn mutated(
    start: TxnState,
    batch: MutationBatch,
    keys: Seq<Seq<char>>,
    mutations: Map<Seq<char>, UploadMutation>,
    segments: Map<Seq<char>, String>,
    n: int,
) -> Result<Mutated, MetaErrorText>
    decreases n,
{
    if n <= 0 {
        Ok(Mutated { state: start, changed: 0, journal: Seq::empty() })
    } else {
        match mutated(start, batch, keys, mutations, segments, n - 1) {
            Err(error) => Err(error),
            Ok(m) => {
                let filename = filename_in(batch, keys[n - 1]);
                let record = start.rows[keys[n - 1]];
                let version = version_named(record, found_text(segments, filename));
                match mutation_of(mutations, filename) {
                    UploadMutation::Keep => Ok(m),
                    UploadMutation::Replace(bytes) => match m.state.upload_written(
                        batch.index,
                        batch.normalized,
                        filename,
                        bytes@,
                    ) {
                        Err(error) => Err(error),
                        Ok(s) => Ok(journaled(m, s, batch, batch.action, version, filename)),
                    },
                    UploadMutation::Delete => match m.state.upload_removed(
                        batch.index,
                        batch.normalized,
                        filename,
                        record,
                    ) {
                        Err(error) => Err(error),
                        Ok(s) => Ok(journaled(m, s, batch, batch.action, version, filename)),
                    },
                }
            },
        }
    }
}

proof fn mutation_error_stays(
    start: TxnState,
    batch: MutationBatch,
    keys: Seq<Seq<char>>,
    mutations: Map<Seq<char>, UploadMutation>,
    segments: Map<Seq<char>, String>,
    n: int,
    m: int,
)
    requires
        0 <= n <= m,
        mutated(start, batch, keys, mutations, segments, n) is Err,
    ensures
        mutated(start, batch, keys, mutations, segments, m) == mutated(
            start,
            batch,
            keys,
            mutations,
            segments,
            n,
        ),
    decreases m,
{
    if n < m {
        mutation_error_stays(start, batch, keys, mutations, segments, n, m - 1);
    }
}

/// Whether mutating the records of a project takes the store from `was` to `now`, and `r` says so.
pub open spec fn is_mutation(
    was: TxnState,
    batch: MutationBatch,
    mutations: Map<Seq<char>, UploadMutation>,
    segments: Map<Seq<char>, String>,
    now: TxnState,
    r: Result<(usize, Vec<Vec<u8>>), MetaError>,
) -> bool {
    let keys = keys_under(was.rows, key2(UPLOAD_PREFIX@, batch.index, batch.normalized) + "/"@);
    match mutated(was, batch, keys, mutations, segments, keys.len() as int) {
        Err(error) => r matches Err(e) && e@ == error && now == was,
        Ok(m) => r matches Ok((changed, journal)) && now == m.state && changed == m.changed
            && byte_seqs(journal@) == m.journal,
    }
}

/// Apply a per-file mutation to every uploaded record of a project, journaling `action` for each record
/// it changes. A filename that `mutations` does not name is kept; `segments` holds the version segment of
/// a filename that spells one. Give how many records were rewritten or removed, and the journal entries.
pub fn mutate_uploads(
    txn: &mut DriverTxn,
    outbox: bool,
    index: &str,
    normalized: &str,
    action: &str,
    submitted_at_unix: i64,
    mutations: &TextMap<UploadMutation>,
    segments: &TextMap<String>,
) -> (r: Result<(usize, Vec<Vec<u8>>), MetaError>)
    ensures
        is_mutation(
            old(txn)@,
            MutationBatch { outbox, index: index@, normalized: normalized@, action: action@, submitted_at_unix },
            mutations@,
            segments@,
            final(txn)@,
            r,
        ),
{
    let ghost start = txn@;
    let saved = txn.savepoint();
    let ghost batch = MutationBatch {
        outbox,
        index: index@,
        normalized: normalized@,
        action: action@,
        submitted_at_unix,
    };
    let prefix = upload_prefix(index, normalized);
    let skip: usize = prefix.as_str().unicode_len();
    let entries = txn.prefix(prefix.as_str());
    let ghost keys = keys_under(start.rows, prefix@);
    assert(entry_keys(entries@).len() == entries@.len());
    let mut changed: usize = 0;
    let mut journal: Vec<Vec<u8>> = Vec::new();
    assert(byte_seqs(journal@) =~= Seq::<Seq<u8>>::empty());
    let mut i: usize = 0;
    while i < entries.len()
        invariant
            i <= entries@.len(),
            changed <= i,
            start == old(txn)@,
            saved@ == start,
            batch == (MutationBatch {
                outbox,
                index: index@,
                normalized: normalized@,
                action: action@,
                submitted_at_unix,
            }),
            prefix@ == key2(UPLOAD_PREFIX@, index@, normalized@) + "/"@,
            skip == prefix@.len(),
            keys == keys_under(old(txn)@.rows, prefix@),
            entries@.len() == keys.len(),
            entry_keys(entries@) == keys,
            rows_under(start.rows, prefix@, entries@),
            mutated(start, batch, keys, mutations@, segments@, i as int) == Ok::<Mutated, MetaErrorText>(
                Mutated { state: txn@, changed: changed as nat, journal: byte_seqs(journal@) },
            ),
        decreases entries.len() - i,
    {
        let key = entries[i].0.as_str();
        let record = entries[i].1.as_slice();
        assert(entry_keys(entries@)[i as int] == entries@[i as int].0@);
        let total: usize = key.unicode_len();
        let filename = key.substring_char(skip, total);
        assert(filename@ =~= filename_in(batch, key@));
        let version = journal_version(record, find_text(segments, filename));
        let ghost so_far = journal@;
        let outcome: Option<Result<(), MetaError>> = match mutations.get(filename) {
            None => None,
            Some(UploadMutation::Keep) => None,
            Some(UploadMutation::Replace(bytes)) => Some(
                put_upload_row(txn, index, normalized, filename, bytes.as_slice()),
            ),
            Some(UploadMutation::Delete) => Some(remove_upload_row(txn, index, normalized, filename, record)),
        };
        match outcome {
            None => {},
            Some(Err(error)) => {
                proof {
                    mutation_error_stays(
                        start,
                        batch,
                        keys,
                        mutations@,
                        segments@,
                        i + 1,
                        keys.len() as int,
                    );
                }
                *txn = saved;
                return Err(error);
            },
            Some(Ok(_)) => {
                txn.touch_policy_inputs(index);
                changed = changed + 1;
                if outbox {
                    let entry = journal_bytes(
                        action,
                        normalized,
                        opt_as_str(&version),
                        Some(filename),
                        None,
                        submitted_at_unix,
                    );
                    journal.push(entry);
                    assert(byte_seqs(journal@) =~= byte_seqs(so_far).push(entry@));
                }
            },
        }
        i = i + 1;
    }
    Ok((changed, journal))
}

// ---------------------------------------------------------------------------------------------
// Overrides
// ---------------------------------------------------------------------------------------------

/// The override that a row holds. `decoded` is what the row decodes to. A row that cannot be read is no
/// absent one: treating it so would drop whatever hide or yank it held.
pub open spec fn override_at(s: TxnState, key: Seq<char>, decoded: DecodedText) -> Result<
    OverrideText,
    MetaErrorText,
> {
    match s.row(key) {
        None => Ok(OverrideText { hidden: false, yanked: YankedText::No }),
        Some(raw) => if !valid_utf8(raw) {
            Err(MetaErrorText::Utf8 { key })
        } else {
            decoded.read(key)
        },
    }
}

/// One field change is applied to an override, and the action a replica replays when the record moved. A
/// record left imposing nothing is removed rather than stored.
pub open spec fn override_applied(
    s: TxnState,
    key: Seq<char>,
    decoded: DecodedText,
    mutation: MutationText,
) -> Result<(TxnState, Option<Seq<char>>), MetaErrorText> {
    match override_at(s, key, decoded) {
        Err(error) => Err(error),
        Ok(record) => {
            let after = mutation.applied(record);
            let action = mutation.action(record);
            if action is None {
                Ok((s, None))
            } else if !after.hidden && after.yanked is No {
                Ok((s.erased(RowScope::Replicated, key), action))
            } else {
                Ok((s.wrote(RowScope::Replicated, key, encode_utf8(json_override(after))), action))
            }
        },
    }
}

/// Apply one field change to the override at `key`, and give the action a replica replays when it moved.
pub fn apply_override(txn: &mut DriverTxn, key: &str, decoded: Option<&DecodedOverride>, mutation: &OverrideMutation<'_>) -> (r:
    Result<Option<&'static str>, MetaError>)
    ensures
        match override_applied(old(txn)@, key@, opt_decoded(decoded), mutation@) {
            Err(error) => r matches Err(e) && e@ == error && final(txn)@ == old(txn)@,
            Ok((state, action)) => r matches Ok(a) && final(txn)@ == state && opt_str(a) == action,
        },
{
    let mut record = match txn.get(key) {
        None => FileOverride { hidden: false, yanked: Yanked::No },
        Some(raw) => {
            match record_str(key, raw) {
                Ok(_) => {},
                Err(error) => {
                    return Err(error);
                },
            }
            match read_override(key, decoded) {
                Ok(record) => record,
                Err(error) => {
                    return Err(error);
                },
            }
        },
    };
    let action = match mutation.apply(&mut record) {
        Some(action) => action,
        None => {
            return Ok(None);
        },
    };
    if record.is_empty() {
        let there: bool = txn.remove_row(RowScope::Replicated, key);
    } else {
        let text = record.encode();
        let fresh: bool = txn.write_row(RowScope::Replicated, key, text.as_str().as_bytes());
    }
    Ok(Some(action))
}

/// One field change is applied to a file's override record: the rows it leaves, whether the record moved, and the
/// journal entry a replica replays when it did.
pub open spec fn override_set(
    s: TxnState,
    outbox: bool,
    index: Seq<char>,
    normalized: Seq<char>,
    filename: Seq<char>,
    segment: Option<Seq<char>>,
    decoded: DecodedText,
    mutation: MutationText,
    submitted_at_unix: i64,
) -> Result<(TxnState, bool, Seq<Seq<u8>>), MetaErrorText> {
    match override_applied(s, key3(OVERRIDE_PREFIX@, index, normalized, filename), decoded, mutation) {
        Err(error) => Err(error),
        Ok((state, None)) => Ok((state, false, Seq::empty())),
        Ok((state, Some(action))) => Ok(
            (
                state.touched(index),
                true,
                if outbox {
                    seq![
                        encode_utf8(
                            json_journal(action, normalized, segment, Some(filename), None, submitted_at_unix),
                        ),
                    ]
                } else {
                    Seq::empty()
                },
            ),
        ),
    }
}

/// Apply one field change to a file's override record, and say whether the record moved, with the journal
/// entry a replica replays. `decoded` is what the record that is there decodes to; `segment` is the
/// version segment of the filename.
pub fn set_override(
    txn: &mut DriverTxn,
    outbox: bool,
    index: &str,
    normalized: &str,
    filename: &str,
    segment: Option<&str>,
    decoded: Option<&DecodedOverride>,
    mutation: &OverrideMutation<'_>,
    submitted_at_unix: i64,
) -> (r: Result<(bool, Vec<Vec<u8>>), MetaError>)
    ensures
        match override_set(
            old(txn)@,
            outbox,
            index@,
            normalized@,
            filename@,
            opt_str(segment),
            opt_decoded(decoded),
            mutation@,
            submitted_at_unix,
        ) {
            Err(error) => r matches Err(e) && e@ == error && final(txn)@ == old(txn)@,
            Ok((state, moved, entries)) => r matches Ok((m, journal)) && m == moved && byte_seqs(journal@) == entries
                && final(txn)@ == state,
        },
{
    let key = override_key(index, normalized, filename);
    let mut journal: Vec<Vec<u8>> = Vec::new();
    assert(byte_seqs(journal@) =~= Seq::<Seq<u8>>::empty());
    match apply_override(txn, key.as_str(), decoded, mutation) {
        Err(error) => Err(error),
        Ok(None) => Ok((false, journal)),
        Ok(Some(action)) => {
            txn.touch_policy_inputs(index);
            if outbox {
                let entry = journal_bytes(action, normalized, segment, Some(filename), None, submitted_at_unix);
                journal.push(entry);
                assert(byte_seqs(journal@) =~= seq![entry@]);
            }
            Ok((true, journal))
        },
    }
}

// ---------------------------------------------------------------------------------------------
// Deleting
// ---------------------------------------------------------------------------------------------

/// Those of `keys` that end in `suffix`.
pub open spec fn ending_in(keys: Seq<Seq<char>>, suffix: Seq<char>) -> Seq<Seq<char>> {
    keys.filter(|k: Seq<char>| suffix.is_suffix_of(k))
}

impl TxnState {
    /// The provenance bundle of a deleted publication is gone, so that the blob's last reference goes with
    /// the publication that claimed it.
    pub open spec fn provenance_released(
        self,
        index: Seq<char>,
        normalized: Seq<char>,
        filename: Seq<char>,
    ) -> TxnState {
        let keys = ending_in(
            keys_under(self.rows, key2(PROVENANCE_PREFIX@, index, normalized) + "/"@),
            "/"@ + filename,
        );
        self.erased_all(RowScope::Replicated, keys, keys.len() as int)
    }
}

fn release_provenance(txn: &mut DriverTxn, index: &str, normalized: &str, filename: &str)
    ensures
        final(txn)@ == old(txn)@.provenance_released(index@, normalized@, filename@),
{
    let ghost start = txn@;
    let prefix = provenance_prefix(index, normalized);
    let mut suffix = "/".to_owned();
    suffix.append(filename);
    let entries = txn.prefix(prefix.as_str());
    let ghost all = keys_under(start.rows, prefix@);
    let ghost keep = |k: Seq<char>| suffix@.is_suffix_of(k);
    assert(entry_keys(entries@).len() == entries@.len());
    let ghost whole = ending_in(all, suffix@);
    let mut i: usize = 0;
    reveal(Seq::filter);
    assert(all.take(0).filter(keep) =~= Seq::<Seq<char>>::empty());
    let mut removed: usize = 0;
    while i < entries.len()
        invariant
            i <= entries@.len(),
            removed <= i,
            entries@.len() == all.len(),
            entry_keys(entries@) == all,
            keep == (|k: Seq<char>| suffix@.is_suffix_of(k)),
            removed == all.take(i as int).filter(keep).len(),
            txn@ == start.erased_all(RowScope::Replicated, all.take(i as int).filter(keep), removed as int),
        decreases entries.len() - i,
    {
        reveal(Seq::filter);
        assert(entry_keys(entries@)[i as int] == entries@[i as int].0@);
        let ghost fewer = all.take(i as int).filter(keep);
        let ghost more = all.take(i + 1).filter(keep);
        assert(all.take(i + 1).drop_last() =~= all.take(i as int));
        let key = entries[i].0.as_str();
        if ends_with(key, suffix.as_str()) {
            let there: bool = txn.remove_row(RowScope::Replicated, key);
            removed = removed + 1;
            proof {
                erased_prefix(start, fewer, more, removed - 1);
            }
        }
        i = i + 1;
    }
    assert(all.take(i as int) =~= all);
}

/// Removing the first keys does not depend on the keys behind them.
proof fn erased_prefix(s: TxnState, a: Seq<Seq<char>>, b: Seq<Seq<char>>, n: int)
    requires
        0 <= n <= a.len(),
        n <= b.len(),
        forall|i: int| 0 <= i < n ==> a[i] == b[i],
    ensures
        s.erased_all(RowScope::Replicated, a, n) == s.erased_all(RowScope::Replicated, b, n),
    decreases n,
{
    if n > 0 {
        erased_prefix(s, a, b, n - 1);
    }
}

/// Whether deleting a file takes the store from `was` to `now`, and `r` says so.
pub open spec fn is_deletion(
    was: TxnState,
    outbox: bool,
    index: Seq<char>,
    normalized: Seq<char>,
    filename: Seq<char>,
    segment: Option<Seq<char>>,
    submitted_at_unix: i64,
    now: TxnState,
    r: Result<(bool, Vec<Vec<u8>>), MetaError>,
) -> bool {
    let key = key3(UPLOAD_PREFIX@, index, normalized, filename);
    match was.row(key) {
        None => r matches Ok((there, journal)) && !there && journal@.len() == 0 && now == was,
        Some(record) => match was.touched(index).upload_removed(
            index,
            normalized,
            filename,
            record,
        ) {
            Err(error) => r matches Err(e) && e@ == error && now == was,
            Ok(s) => r matches Ok((there, journal)) && there && now == s.provenance_released(
                index,
                normalized,
                filename,
            ) && byte_seqs(journal@) == (if outbox {
                seq![
                    encode_utf8(
                        json_journal(
                            "delete-file"@,
                            normalized,
                            version_named(record, segment),
                            Some(filename),
                            None,
                            submitted_at_unix,
                        ),
                    ),
                ]
            } else {
                Seq::empty()
            }),
        },
    }
}

/// Delete a hosted file: its record goes, with its position and its count, and its provenance is
/// released. Say whether it was there, and give the journal entry.
pub fn delete_upload(
    txn: &mut DriverTxn,
    outbox: bool,
    index: &str,
    normalized: &str,
    filename: &str,
    segment: Option<&str>,
    submitted_at_unix: i64,
) -> (r: Result<(bool, Vec<Vec<u8>>), MetaError>)
    ensures
        is_deletion(
            old(txn)@,
            outbox,
            index@,
            normalized@,
            filename@,
            opt_str(segment),
            submitted_at_unix,
            final(txn)@,
            r,
        ),
{
    let key = upload_key(index, normalized, filename);
    let mut journal: Vec<Vec<u8>> = Vec::new();
    assert(byte_seqs(journal@) =~= Seq::<Seq<u8>>::empty());
    let record = match txn.get(key.as_str()) {
        Some(record) => record,
        None => {
            return Ok((false, journal));
        },
    };
    match remove_upload_row(txn, index, normalized, filename, record.as_slice()) {
        Ok(_) => {},
        Err(error) => {
            return Err(error);
        },
    }
    txn.touch_policy_inputs(index);
    release_provenance(txn, index, normalized, filename);
    if outbox {
        let version = journal_version(record.as_slice(), segment);
        let entry = journal_bytes(
            "delete-file",
            normalized,
            opt_as_str(&version),
            Some(filename),
            None,
            submitted_at_unix,
        );
        journal.push(entry);
        assert(byte_seqs(journal@) =~= seq![entry@]);
    }
    Ok((true, journal))
}

} // verus!
