//! Mutations of several records at once: promoting a release, and changing records and overrides
//! together.
use vstd::prelude::*;
use vstd::utf8::encode_utf8;

use super::journal::{journal_bytes, json_journal};
use super::keys::{
    key2, key3, key4, override_key, provenance_key, upload_prefix, OVERRIDE_PREFIX, PROVENANCE_PREFIX, UPLOAD_PREFIX,
};
use super::overrides::{decoded_at, DecodedOverride, MutationText, OverrideMutation};
use super::summary::{put_project_row, put_upload_row};
use super::txn::{byte_seqs, entry_keys, keys_under, opt_bytes, rows_under, DriverTxn, RowScope, TxnState};
use super::uploads::{
    announce_release, apply_override, filename_in, find_text, found_text, journal_version, journaled, override_applied,
    read_reference, reference_at, version_named, Guard, Mutated, MutationBatch,
};
use super::values::{MetaError, MetaErrorText, VersionedProvenanceReference};
use crate::collections::TextMap;
use crate::text::{opt_as_str, opt_str, opt_text, texts};

verus! {

// ---------------------------------------------------------------------------------------------
// Promoting
// ---------------------------------------------------------------------------------------------

/// One file of a promotion.
pub struct PromotedRecord {
    pub filename: String,
    /// The artifact's digest.
    pub token: String,
    /// The serialized file record.
    pub record: Vec<u8>,
    /// Whether the target takes the file.
    pub guard: Guard,
    /// The version segment and the Python tag of the filename.
    pub segment: Option<String>,
    pub python_tag: String,
}

/// Everything one release promotion writes to the store.
pub struct PromotedRelease<'a> {
    /// The hosted index the release is copied from, whose provenance bundles the promotion inherits.
    pub source: &'a str,
    /// The hosted index the release lands on.
    pub index: &'a str,
    pub normalized: &'a str,
    pub display: &'a str,
    pub records: &'a Vec<PromotedRecord>,
    /// The artifact size for each digest known to the promotion.
    pub blob_sizes: &'a TextMap<u64>,
    /// The quota allocation held for each promoted filename. A file that is skipped releases its own.
    pub reservations: &'a TextMap<u128>,
    /// The versioned forms of the source's provenance rows, by key.
    pub bundles: &'a TextMap<VersionedProvenanceReference>,
    pub submitted_at_unix: i64,
}

/// Where a promotion stands.
pub struct Promoted {
    pub state: TxnState,
    pub written: nat,
    /// The allocations of the files that were written.
    pub committed: Seq<u128>,
    pub journal: Seq<Seq<u8>>,
}

/// The versioned form of the provenance row at `key`.
pub open spec fn bundle_at(bundles: Map<Seq<char>, VersionedProvenanceReference>, key: Seq<char>) -> Option<(
    u64,
    Seq<char>,
    u64,
)> {
    if bundles.contains_key(key) {
        Some((bundles[key].version, bundles[key].sha256@, bundles[key].size))
    } else {
        None
    }
}

/// A promoted publication's provenance bundle is carried onto the target index: the target gets its own
/// row and its own blob reference. A source row too damaged to name its blob fails the promotion.
pub open spec fn provenance_copied(s: TxnState, release: PromotedRelease<'_>, record: PromotedRecord) -> Result<
    TxnState,
    MetaErrorText,
> {
    let source = key4(PROVENANCE_PREFIX@, release.source@, release.normalized@, record.token@, record.filename@);
    let target = key4(PROVENANCE_PREFIX@, release.index@, release.normalized@, record.token@, record.filename@);
    match reference_at(s, source, bundle_at(release.bundles@, source)) {
        Err(error) => Err(error),
        Ok(None) => Ok(s),
        Ok(Some(reference)) => Ok(
            s.referenced(reference.sha256, reference.size).wrote(RowScope::Replicated, target, s.rows[source]),
        ),
    }
}

/// One file is promoted, if the target takes it.
pub open spec fn file_promoted(p: Promoted, outbox: bool, release: PromotedRelease<'_>, record: PromotedRecord) -> Result<
    Promoted,
    MetaErrorText,
> {
    match record.guard {
        Guard::Skip => Ok(p),
        Guard::Commit => match p.state.touched(release.index@).upload_written(
            release.index@,
            release.normalized@,
            record.filename@,
            record.record@,
        ) {
            Err(error) => Err(error),
            Ok(s) => {
                let referenced = if release.blob_sizes@.contains_key(record.token@) {
                    s.referenced(record.token@, release.blob_sizes@[record.token@])
                } else {
                    s
                };
                match provenance_copied(referenced, release, record) {
                    Err(error) => Err(error),
                    Ok(t) => {
                        let version = version_named(record.record@, opt_text(record.segment));
                        let a = t.announced(
                            release.index@,
                            release.normalized@,
                            version,
                            release.submitted_at_unix,
                        );
                        let entry = encode_utf8(
                            json_journal(
                                "add-file"@,
                                release.normalized@,
                                version,
                                Some(record.filename@),
                                Some(record.python_tag@),
                                release.submitted_at_unix,
                            ),
                        );
                        Ok(
                            Promoted {
                                state: if outbox {
                                    a.state
                                } else {
                                    t
                                },
                                written: p.written + 1,
                                committed: if release.reservations@.contains_key(record.filename@) {
                                    p.committed.push(release.reservations@[record.filename@])
                                } else {
                                    p.committed
                                },
                                journal: if outbox {
                                    (p.journal + a.journal).push(entry)
                                } else {
                                    p.journal
                                },
                            },
                        )
                    },
                }
            },
        },
    }
}

/// The first `n` files are promoted.
pub open spec fn files_promoted(start: TxnState, outbox: bool, release: PromotedRelease<'_>, n: int) -> Result<
    Promoted,
    MetaErrorText,
>
    decreases n,
{
    if n <= 0 {
        Ok(Promoted { state: start, written: 0, committed: Seq::empty(), journal: Seq::empty() })
    } else {
        match files_promoted(start, outbox, release, n - 1) {
            Err(error) => Err(error),
            Ok(p) => file_promoted(p, outbox, release, release.records@[n - 1]),
        }
    }
}

/// A release is promoted. Its project is recorded only when at least one file was written.
pub open spec fn release_promoted(start: TxnState, outbox: bool, release: PromotedRelease<'_>) -> Result<
    Promoted,
    MetaErrorText,
> {
    match files_promoted(start, outbox, release, release.records@.len() as int) {
        Err(error) => Err(error),
        Ok(p) => if p.written == 0 {
            Ok(p)
        } else {
            match p.state.project_written(
                RowScope::Replicated,
                release.index@,
                release.normalized@,
                release.display@,
            ) {
                Err(error) => Err(error),
                Ok(s) => Ok(Promoted { state: s, ..p }),
            }
        },
    }
}

proof fn promotion_error_stays(start: TxnState, outbox: bool, release: PromotedRelease<'_>, n: int, m: int)
    requires
        0 <= n <= m,
        files_promoted(start, outbox, release, n) is Err,
    ensures
        files_promoted(start, outbox, release, m) == files_promoted(start, outbox, release, n),
    decreases m,
{
    if n < m {
        promotion_error_stays(start, outbox, release, n, m - 1);
    }
}

/// What a promotion came to.
pub struct Promotion {
    pub written: usize,
    pub committed: Vec<u128>,
    pub journal: Vec<Vec<u8>>,
}

impl Promotion {
    /// The promotion at the state `state`.
    pub open spec fn at(self, state: TxnState) -> Promoted {
        Promoted {
            state,
            written: self.written as nat,
            committed: self.committed@,
            journal: byte_seqs(self.journal@),
        }
    }
}

fn copy_provenance(txn: &mut DriverTxn, release: &PromotedRelease<'_>, record: &PromotedRecord) -> (r: Result<
    (),
    MetaError,
>)
    ensures
        match provenance_copied(old(txn)@, *release, *record) {
            Err(error) => r matches Err(e) && e@ == error && final(txn)@ == old(txn)@,
            Ok(state) => r is Ok && final(txn)@ == state,
        },
{
    let token = record.token.as_str();
    let filename = record.filename.as_str();
    let source = provenance_key(release.source, release.normalized, token, filename);
    let decoded: Option<VersionedProvenanceReference> = match release.bundles.get(source.as_str()) {
        Some(bundle) => Some(
            VersionedProvenanceReference {
                version: bundle.version,
                sha256: bundle.sha256.clone(),
                size: bundle.size,
            },
        ),
        None => None,
    };
    let raw = match txn.get(source.as_str()) {
        Some(raw) => raw,
        None => {
            return Ok(());
        },
    };
    match read_reference(txn, source.as_str(), decoded) {
        Err(error) => Err(error),
        Ok(None) => Ok(()),
        Ok(Some(reference)) => {
            let size: u64 = match &reference {
                super::values::StoredProvenanceReference::Verified { size, .. } => *size,
                super::values::StoredProvenanceReference::Legacy { size, .. } => *size,
            };
            txn.reference_blob(reference.sha256(), size);
            let target = provenance_key(release.index, release.normalized, token, filename);
            let fresh: bool = txn.write_row(RowScope::Replicated, target.as_str(), raw.as_slice());
            Ok(())
        },
    }
}

fn promote_file(
    txn: &mut DriverTxn,
    outbox: bool,
    release: &PromotedRelease<'_>,
    record: &PromotedRecord,
    promotion: Promotion,
) -> (r: Result<Promotion, MetaError>)
    requires
        promotion.written < usize::MAX,
    ensures
        match file_promoted(promotion.at(old(txn)@), outbox, *release, *record) {
            Err(error) => r matches Err(e) && e@ == error,
            Ok(p) => r matches Ok(done) && done.at(final(txn)@) == p,
        },
{
    match record.guard {
        Guard::Skip => {
            return Ok(promotion);
        },
        Guard::Commit => {},
    }
    let Promotion { written, committed, journal } = promotion;
    let mut committed = committed;
    let mut journal = journal;
    let filename = record.filename.as_str();
    match release.reservations.get(filename) {
        Some(id) => {
            committed.push(*id);
        },
        None => {},
    }
    txn.touch_policy_inputs(release.index);
    match put_upload_row(txn, release.index, release.normalized, filename, record.record.as_slice()) {
        Ok(_) => {},
        Err(error) => {
            return Err(error);
        },
    }
    match release.blob_sizes.get(record.token.as_str()) {
        Some(size) => txn.reference_blob(record.token.as_str(), *size),
        None => {},
    }
    match copy_provenance(txn, release, record) {
        Ok(_) => {},
        Err(error) => {
            return Err(error);
        },
    }
    if outbox {
        let version = journal_version(record.record.as_slice(), opt_as_str(&record.segment));
        let ghost before = byte_seqs(journal@);
        let mut announced = announce_release(
            txn,
            release.index,
            release.normalized,
            opt_as_str(&version),
            release.submitted_at_unix,
        );
        let ghost news = byte_seqs(announced@);
        journal.append(&mut announced);
        assert(byte_seqs(journal@) =~= before + news);
        let entry = journal_bytes(
            "add-file",
            release.normalized,
            opt_as_str(&version),
            Some(filename),
            Some(record.python_tag.as_str()),
            release.submitted_at_unix,
        );
        journal.push(entry);
        assert(byte_seqs(journal@) =~= (before + news).push(entry@));
    }
    Ok(Promotion { written: written + 1, committed, journal })
}

/// Whether promoting a release takes the store from `was` to `now`.
pub open spec fn is_promotion(
    was: TxnState,
    outbox: bool,
    release: PromotedRelease<'_>,
    now: TxnState,
    r: Result<Promotion, MetaError>,
) -> bool {
    match release_promoted(was, outbox, release) {
        Err(error) => r matches Err(e) && e@ == error && now == was,
        Ok(p) => r matches Ok(done) && done.at(now) == p,
    }
}

/// Promote a release, each file only if the target takes it: its file records, its project, and its
/// journal entries go in together, since a promotion the journal never records is invisible to every
/// replica.
pub fn promote_files_checked(txn: &mut DriverTxn, outbox: bool, release: &PromotedRelease<'_>) -> (r: Result<
    Promotion,
    MetaError,
>)
    ensures
        is_promotion(old(txn)@, outbox, *release, final(txn)@, r),
{
    let ghost start = txn@;
    let saved = txn.savepoint();
    let committed: Vec<u128> = Vec::new();
    let journal: Vec<Vec<u8>> = Vec::new();
    let mut promotion = Promotion { written: 0, committed, journal };
    assert(promotion.committed@ =~= Seq::<u128>::empty());
    assert(byte_seqs(promotion.journal@) =~= Seq::<Seq<u8>>::empty());
    let mut i: usize = 0;
    while i < release.records.len()
        invariant
            i <= release.records@.len(),
            start == old(txn)@,
            saved@ == start,
            promotion.written <= i,
            files_promoted(start, outbox, *release, i as int) == Ok::<Promoted, MetaErrorText>(promotion.at(txn@)),
        decreases release.records.len() - i,
    {
        proof {
            if files_promoted(start, outbox, *release, i + 1) is Err {
                promotion_error_stays(start, outbox, *release, i + 1, release.records@.len() as int);
            }
        }
        let ghost was = promotion.written;
        match promote_file(txn, outbox, release, &release.records[i], promotion) {
            Ok(next) => {
                promotion = next;
            },
            Err(error) => {
                *txn = saved;
                return Err(error);
            },
        }
        i = i + 1;
    }
    if promotion.written == 0 {
        return Ok(promotion);
    }
    match put_project_row(txn, release.index, release.normalized, release.display) {
        Ok(_) => Ok(promotion),
        Err(error) => {
            *txn = saved;
            Err(error)
        },
    }
}

/// A promotion that every target skips writes nothing: promoting a release again is the no-op it is.
pub proof fn skipped_promotions_write_nothing(start: TxnState, outbox: bool, release: PromotedRelease<'_>, n: int)
    requires
        0 <= n <= release.records@.len(),
        forall|i: int| 0 <= i < release.records@.len() ==> (#[trigger] release.records@[i]).guard is Skip,
    ensures
        files_promoted(start, outbox, release, n) == Ok::<Promoted, MetaErrorText>(
            Promoted { state: start, written: 0, committed: Seq::empty(), journal: Seq::empty() },
        ),
    decreases n,
{
    if n > 0 {
        skipped_promotions_write_nothing(start, outbox, release, n - 1);
    }
}

// ---------------------------------------------------------------------------------------------
// Records and overrides together
// ---------------------------------------------------------------------------------------------

/// What a batch of record rewrites and override changes is about.
pub struct UploadMutationPlan<'a> {
    pub outbox: bool,
    pub index: &'a str,
    pub normalized: &'a str,
    pub action: &'a str,
    pub submitted_at_unix: i64,
    pub override_filenames: &'a Vec<String>,
    pub override_mutation: OverrideMutation<'a>,
}

impl<'a> UploadMutationPlan<'a> {
    pub open spec fn batch(self) -> MutationBatch {
        MutationBatch {
            outbox: self.outbox,
            index: self.index@,
            normalized: self.normalized@,
            action: self.action@,
            submitted_at_unix: self.submitted_at_unix,
        }
    }
}

/// Why a batch is refused.
#[derive(Debug)]
pub enum BatchError {
    /// The caller may no longer write here.
    Refused,
    Store(MetaError),
}

/// Why a batch is refused, seen as text.
pub enum BatchErrorText {
    Refused,
    Store(MetaErrorText),
}

impl BatchError {
    pub open spec fn view(self) -> BatchErrorText {
        match self {
            BatchError::Refused => BatchErrorText::Refused,
            BatchError::Store(error) => BatchErrorText::Store(error@),
        }
    }
}

/// The first `n` upload records are rewritten where a rewrite is given. A change needs permission.
pub open spec fn rewritten(
    start: TxnState,
    batch: MutationBatch,
    keys: Seq<Seq<char>>,
    allowed: bool,
    rewrites: Map<Seq<char>, Vec<u8>>,
    segments: Map<Seq<char>, String>,
    n: int,
) -> Result<Mutated, BatchErrorText>
    decreases n,
{
    if n <= 0 {
        Ok(Mutated { state: start, changed: 0, journal: Seq::empty() })
    } else {
        match rewritten(start, batch, keys, allowed, rewrites, segments, n - 1) {
            Err(error) => Err(error),
            Ok(m) => {
                let filename = filename_in(batch, keys[n - 1]);
                if !rewrites.contains_key(filename) {
                    Ok(m)
                } else if !allowed {
                    Err(BatchErrorText::Refused)
                } else {
                    let version = version_named(start.rows[keys[n - 1]], found_text(segments, filename));
                    match m.state.upload_written(batch.index, batch.normalized, filename, rewrites[filename]@) {
                        Err(error) => Err(BatchErrorText::Store(error)),
                        Ok(s) => Ok(journaled(m, s, batch, batch.action, version, filename)),
                    }
                }
            },
        }
    }
}

/// The overrides of the first `n` filenames are changed. Each needs permission, moved or not.
pub open spec fn overridden(
    m: Mutated,
    batch: MutationBatch,
    filenames: Seq<Seq<char>>,
    allowed: bool,
    mutation: MutationText,
    decoded: Map<Seq<char>, DecodedOverride>,
    segments: Map<Seq<char>, String>,
    n: int,
) -> Result<Mutated, BatchErrorText>
    decreases n,
{
    if n <= 0 {
        Ok(m)
    } else {
        match overridden(m, batch, filenames, allowed, mutation, decoded, segments, n - 1) {
            Err(error) => Err(error),
            Ok(m) => {
                let filename = filenames[n - 1];
                let key = key3(OVERRIDE_PREFIX@, batch.index, batch.normalized, filename);
                if !allowed {
                    Err(BatchErrorText::Refused)
                } else {
                    match override_applied(m.state, key, decoded_at(decoded, filename), mutation) {
                        Err(error) => Err(BatchErrorText::Store(error)),
                        Ok((_, None)) => Ok(m),
                        Ok((s, Some(action))) => Ok(
                            journaled(m, s, batch, action, found_text(segments, filename), filename),
                        ),
                    }
                }
            },
        }
    }
}

proof fn rewrite_error_stays(
    start: TxnState,
    batch: MutationBatch,
    keys: Seq<Seq<char>>,
    allowed: bool,
    rewrites: Map<Seq<char>, Vec<u8>>,
    segments: Map<Seq<char>, String>,
    n: int,
    m: int,
)
    requires
        0 <= n <= m,
        rewritten(start, batch, keys, allowed, rewrites, segments, n) is Err,
    ensures
        rewritten(start, batch, keys, allowed, rewrites, segments, m) == rewritten(
            start,
            batch,
            keys,
            allowed,
            rewrites,
            segments,
            n,
        ),
    decreases m,
{
    if n < m {
        rewrite_error_stays(start, batch, keys, allowed, rewrites, segments, n, m - 1);
    }
}

proof fn override_error_stays(
    start: Mutated,
    batch: MutationBatch,
    filenames: Seq<Seq<char>>,
    allowed: bool,
    mutation: MutationText,
    decoded: Map<Seq<char>, DecodedOverride>,
    segments: Map<Seq<char>, String>,
    n: int,
    m: int,
)
    requires
        0 <= n <= m,
        overridden(start, batch, filenames, allowed, mutation, decoded, segments, n) is Err,
    ensures
        overridden(start, batch, filenames, allowed, mutation, decoded, segments, m) == overridden(
            start,
            batch,
            filenames,
            allowed,
            mutation,
            decoded,
            segments,
            n,
        ),
    decreases m,
{
    if n < m {
        override_error_stays(start, batch, filenames, allowed, mutation, decoded, segments, n, m - 1);
    }
}

/// How many records a batch changed, and the journal entries.
pub struct BatchDone {
    pub changed: usize,
    pub journal: Vec<Vec<u8>>,
}

impl BatchDone {
    pub open spec fn at(self, state: TxnState) -> Mutated {
        Mutated { state, changed: self.changed as nat, journal: byte_seqs(self.journal@) }
    }
}

fn journal_change(
    txn: &mut DriverTxn,
    plan: &UploadMutationPlan<'_>,
    action: &str,
    version: Option<&str>,
    filename: &str,
    done: BatchDone,
    Ghost(before): Ghost<TxnState>,
) -> (r: BatchDone)
    requires
        done.changed < usize::MAX,
    ensures
        r.at(final(txn)@) == journaled(done.at(before), old(txn)@, plan.batch(), action@, opt_str(version), filename@),
        r.changed == done.changed + 1,
{
    let BatchDone { changed, journal } = done;
    let mut journal = journal;
    let ghost so_far = journal@;
    txn.touch_policy_inputs(plan.index);
    if plan.outbox {
        let entry = journal_bytes(
            action,
            plan.normalized,
            version,
            Some(filename),
            None,
            plan.submitted_at_unix,
        );
        journal.push(entry);
        assert(byte_seqs(journal@) =~= byte_seqs(so_far).push(entry@));
    }
    BatchDone { changed: changed + 1, journal }
}

fn rewrite_records(
    txn: &mut DriverTxn,
    plan: &UploadMutationPlan<'_>,
    allowed: bool,
    rewrites: &TextMap<Vec<u8>>,
    segments: &TextMap<String>,
) -> (r: Result<BatchDone, BatchError>)
    ensures
        ({
            let keys = keys_under(old(txn)@.rows, key2(UPLOAD_PREFIX@, plan.index@, plan.normalized@) + "/"@);
            match rewritten(
                old(txn)@,
                plan.batch(),
                keys,
                allowed,
                rewrites@,
                segments@,
                keys.len() as int,
            ) {
                Err(error) => r matches Err(e) && e@ == error,
                Ok(m) => r matches Ok(done) && done.at(final(txn)@) == m && done.changed <= keys.len(),
            }
        }),
{
    let ghost start = txn@;
    let ghost batch = plan.batch();
    let prefix = upload_prefix(plan.index, plan.normalized);
    let skip: usize = prefix.as_str().unicode_len();
    let entries = txn.prefix(prefix.as_str());
    let ghost keys = keys_under(start.rows, prefix@);
    assert(entry_keys(entries@).len() == entries@.len());
    let journal: Vec<Vec<u8>> = Vec::new();
    let mut done = BatchDone { changed: 0, journal };
    assert(byte_seqs(done.journal@) =~= Seq::<Seq<u8>>::empty());
    let mut i: usize = 0;
    while i < entries.len()
        invariant
            i <= entries@.len(),
            done.changed <= i,
            start == old(txn)@,
            batch == plan.batch(),
            prefix@ == key2(UPLOAD_PREFIX@, plan.index@, plan.normalized@) + "/"@,
            skip == prefix@.len(),
            keys == keys_under(old(txn)@.rows, prefix@),
            entries@.len() == keys.len(),
            entry_keys(entries@) == keys,
            rows_under(start.rows, prefix@, entries@),
            rewritten(start, batch, keys, allowed, rewrites@, segments@, i as int) == Ok::<Mutated, BatchErrorText>(
                done.at(txn@),
            ),
        decreases entries.len() - i,
    {
        let key = entries[i].0.as_str();
        assert(entry_keys(entries@)[i as int] == entries@[i as int].0@);
        let total: usize = key.unicode_len();
        let filename = key.substring_char(skip, total);
        assert(filename@ =~= filename_in(batch, key@));
        proof {
            if rewritten(start, batch, keys, allowed, rewrites@, segments@, i + 1) is Err {
                rewrite_error_stays(
                    start,
                    batch,
                    keys,
                    allowed,
                    rewrites@,
                    segments@,
                    i + 1,
                    keys.len() as int,
                );
            }
        }
        match rewrites.get(filename) {
            None => {},
            Some(bytes) => {
                if !allowed {
                    return Err(BatchError::Refused);
                }
                let version = journal_version(entries[i].1.as_slice(), find_text(segments, filename));
                let ghost before = txn@;
                match put_upload_row(txn, plan.index, plan.normalized, filename, bytes.as_slice()) {
                    Ok(_) => {},
                    Err(error) => {
                        return Err(BatchError::Store(error));
                    },
                }
                done = journal_change(
                    txn,
                    plan,
                    plan.action,
                    opt_as_str(&version),
                    filename,
                    done,
                    Ghost(before),
                );
            },
        }
        i = i + 1;
    }
    Ok(done)
}

/// Whether rewriting records and changing overrides takes the store from `was` to `now`.
pub open spec fn is_batch_done(
    was: TxnState,
    plan: UploadMutationPlan<'_>,
    allowed: bool,
    rewrites: Map<Seq<char>, Vec<u8>>,
    decoded: Map<Seq<char>, DecodedOverride>,
    segments: Map<Seq<char>, String>,
    now: TxnState,
    r: Result<BatchDone, BatchError>,
) -> bool {
    let keys = keys_under(was.rows, key2(UPLOAD_PREFIX@, plan.index@, plan.normalized@) + "/"@);
    let names = texts(plan.override_filenames@);
    match rewritten(
        was,
        plan.batch(),
        keys,
        allowed,
        rewrites,
        segments,
        keys.len() as int,
    ) {
        Err(error) => r matches Err(e) && e@ == error && now == was,
        Ok(m) => match overridden(
            m,
            plan.batch(),
            names,
            allowed,
            plan.override_mutation@,
            decoded,
            segments,
            names.len() as int,
        ) {
            Err(error) => r matches Err(e) && e@ == error && now == was,
            Ok(m) => r matches Ok(done) && done.at(now) == m,
        },
    }
}

/// Rewrite a project's upload records and change its overrides in one transaction. A record is rewritten
/// where `rewrites` names its filename; `decoded` holds the overrides that are there, decoded; `allowed`
/// says whether the caller may write. Give how many changed, and the journal entries.
pub fn mutate_uploads_and_overrides(
    txn: &mut DriverTxn,
    plan: &UploadMutationPlan<'_>,
    allowed: bool,
    rewrites: &TextMap<Vec<u8>>,
    decoded: &TextMap<DecodedOverride>,
    segments: &TextMap<String>,
) -> (r: Result<BatchDone, BatchError>)
    requires
        keys_under(old(txn)@.rows, key2(UPLOAD_PREFIX@, plan.index@, plan.normalized@) + "/"@).len()
            + plan.override_filenames@.len() <= usize::MAX,
    ensures
        is_batch_done(old(txn)@, *plan, allowed, rewrites@, decoded@, segments@, final(txn)@, r),
{
    let saved = txn.savepoint();
    let ghost batch = plan.batch();
    let ghost names = texts(plan.override_filenames@);
    let mut done = match rewrite_records(txn, plan, allowed, rewrites, segments) {
        Ok(done) => done,
        Err(error) => {
            *txn = saved;
            return Err(error);
        },
    };
    let ghost start = done.at(txn@);
    let ghost base = done.changed;
    let mut i: usize = 0;
    assert(names.len() == plan.override_filenames@.len());
    let ghost middle = txn@;
    while i < plan.override_filenames.len()
        invariant
            i <= plan.override_filenames@.len(),
            saved@ == old(txn)@,
            batch == plan.batch(),
            names == texts(plan.override_filenames@),
            names.len() == plan.override_filenames@.len(),
            base + names.len() <= usize::MAX,
            done.changed <= base + i,
            overridden(
                start,
                batch,
                names,
                allowed,
                plan.override_mutation@,
                decoded@,
                segments@,
                i as int,
            ) == Ok::<Mutated, BatchErrorText>(done.at(txn@)),
            ({
                let keys = keys_under(old(txn)@.rows, key2(UPLOAD_PREFIX@, plan.index@, plan.normalized@) + "/"@);
                rewritten(
                    old(txn)@,
                    plan.batch(),
                    keys,
                    allowed,
                    rewrites@,
                    segments@,
                    keys.len() as int,
                ) == Ok::<Mutated, BatchErrorText>(start)
            }),
        decreases plan.override_filenames.len() - i,
    {
        let filename = plan.override_filenames[i].as_str();
        assert(names[i as int] == filename@);
        proof {
            if overridden(
                start,
                batch,
                names,
                allowed,
                plan.override_mutation@,
                decoded@,
                segments@,
                i + 1,
            ) is Err {
                override_error_stays(
                    start,
                    batch,
                    names,
                    allowed,
                    plan.override_mutation@,
                    decoded@,
                    segments@,
                    i + 1,
                    names.len() as int,
                );
            }
        }
        if !allowed {
            *txn = saved;
            return Err(BatchError::Refused);
        }
        let key = override_key(plan.index, plan.normalized, filename);
        let ghost before = txn@;
        match apply_override(txn, key.as_str(), decoded.get(filename), &plan.override_mutation) {
            Err(error) => {
                *txn = saved;
                return Err(BatchError::Store(error));
            },
            Ok(None) => {},
            Ok(Some(action)) => {
                let version = find_text(segments, filename);
                done = journal_change(txn, plan, action, version, filename, done, Ghost(before));
            },
        }
        i = i + 1;
    }
    Ok(done)
}

/// Whether queueing the event of a batch takes the store from `was` to `now`.
pub open spec fn is_event_queued(was: TxnState, changed: usize, event: Option<Vec<u8>>, now: TxnState) -> bool {
    now == (if changed > 0 {
        was.webhook_queued(opt_bytes(event))
    } else {
        was
    })
}

/// Queue the event that tells of a batch, in the transaction of the batch. A batch that changed nothing
/// tells nobody.
pub fn queue_batch_event(txn: &mut DriverTxn, changed: usize, event: Option<Vec<u8>>)
    ensures
        is_event_queued(old(txn)@, changed, event, final(txn)@),
{
    match event {
        Some(event) => {
            if changed > 0 {
                txn.enqueue_webhook_event(event);
            }
        },
        None => {},
    }
}

} // verus!
