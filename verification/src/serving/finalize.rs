//! Finalizing admitted uploads at their authority's home.
//!
//! Finalization is fenced and idempotent. A stale epoch, a permission no longer held, bytes that are not
//! recorded as arrived, or a checksum that disagrees with what was admitted each refuses it before anything
//! is published. Only the publication is durable: a refusal leaves no record, so an upload blocked on a
//! condition that later clears finalizes on its next attempt.
use vstd::prelude::*;

use crate::serving::admission::{operation_id, operation_of};
use crate::serving::project_view::{ArtifactPlacement, ByteAvailability};
use crate::store::txn::{DriverTxn, TxnState};
use crate::store::uploads::{published_state, publish_file_in_txn, reference_at, Guard, PublishedFile};
use crate::store::values::{MetaError, VersionedProvenanceReference};
use crate::text::text_eq;

verus! {

/// The answer a finalized upload stores and replays.
pub const DURABLE_ACK: &'static str = "upload accepted";

/// How long a finalized operation's outcome is kept, in seconds.
pub const OUTCOME_RETENTION_SECS: i64 = 86_400;

/// How many pending intents one sweep reads.
pub const SWEEP_BATCH: usize = 256;

/// What was admitted under an intent.
pub struct StagedIntent {
    pub authority: String,
    pub digest: String,
    pub size: u64,
    pub updated_at_unix: i64,
}

/// What a home needs to publish an admitted upload.
pub struct FinalizeDescriptor {
    pub operation: String,
    pub authority: String,
    pub index_name: String,
    pub normalized: String,
    pub display: String,
    pub filename: String,
    pub artifact_sha256: String,
    pub artifact_size: u64,
    pub record: Vec<u8>,
    pub version: String,
    pub submitted_at_unix: i64,
    pub expiry_unix: Option<i64>,
}

/// Whether `r` describes what a staged intent is to become.
pub open spec fn is_described(
    key: Seq<char>,
    intent: StagedIntent,
    filename: Seq<char>,
    index_name: Seq<char>,
    record: Vec<u8>,
    version: Option<Seq<char>>,
    now: i64,
    r: FinalizeDescriptor,
) -> bool {
    &&& r.operation@ == operation_of(key, intent.digest@)
    &&& r.authority@ == intent.authority@
    &&& r.normalized@ == intent.authority@
    &&& r.display@ == intent.authority@
    &&& r.index_name@ == index_name
    &&& r.filename@ == filename
    &&& r.artifact_sha256@ == intent.digest@
    &&& r.artifact_size == intent.size
    &&& r.record == record
    &&& r.version@ == (match version {
        Some(version) => version,
        None => Seq::empty(),
    })
    &&& r.submitted_at_unix == intent.updated_at_unix
    &&& r.expiry_unix == Some((now + OUTCOME_RETENTION_SECS) as i64)
}

/// Describe what to publish for an intent found under `key`: the staging record names what was admitted.
pub fn describe_intent(
    key: &str,
    intent: &StagedIntent,
    filename: &str,
    index_name: &str,
    record: Vec<u8>,
    version: Option<&str>,
    now: i64,
) -> (r: FinalizeDescriptor)
    requires
        now <= i64::MAX - OUTCOME_RETENTION_SECS,
    ensures
        is_described(key@, *intent, filename@, index_name@, record, crate::text::opt_str(version), now, r),
{
    FinalizeDescriptor {
        operation: operation_id(key, intent.digest.as_str()),
        authority: intent.authority.clone(),
        index_name: index_name.to_owned(),
        normalized: intent.authority.clone(),
        display: intent.authority.clone(),
        filename: filename.to_owned(),
        artifact_sha256: intent.digest.clone(),
        artifact_size: intent.size,
        record,
        version: match version {
            Some(version) => version.to_owned(),
            None => String::new(),
        },
        submitted_at_unix: intent.updated_at_unix,
        expiry_unix: Some(now + OUTCOME_RETENTION_SECS),
    }
}

/// Why a finalize refused to publish.
#[derive(Debug, Clone, Copy, PartialEq, Eq, Structural)]
pub enum FinalizeFailure {
    /// The authority's epoch does not admit it: its home moved or was never assigned.
    Fenced,
    /// The principal no longer holds write on the index.
    Unauthorized,
    /// The artifact's bytes are not placed, so publishing would serve a file no store holds.
    MissingPlacement,
    /// The digest or the size disagrees with what was admitted.
    ChecksumMismatch,
}

/// Why a finalize did not publish.
pub enum FinalizeError {
    NotStaged,
    Rejected(FinalizeFailure),
    Store(MetaError),
}

/// What asking for the right to write came to.
#[derive(Debug, Clone, Copy, PartialEq, Eq, Structural)]
pub enum Lease {
    Held,
    /// There is none to be had.
    Absent,
    Failed,
}

/// A finalize's committed verdict.
pub enum Finalization {
    /// The upload committed for the first time; the answer is what a retry replays.
    Published { response: Vec<u8> },
    /// A prior finalize committed the operation; its answer is replayed with no second write.
    Replayed { response: Vec<u8> },
}

/// The verdict on an upload whose rows were just committed.
pub fn published() -> (r: Finalization)
    ensures
        r matches Finalization::Published { response } && response@ == vstd::utf8::encode_utf8(DURABLE_ACK@),
{
    let mut response: Vec<u8> = Vec::new();
    crate::text::push_bytes(&mut response, DURABLE_ACK.as_bytes());
    assert(response@ =~= vstd::utf8::encode_utf8(DURABLE_ACK@));
    Finalization::Published { response }
}

/// What a finalize comes to before anything is written.
pub enum FinalizeStep {
    Done(Finalization),
    Publish,
}

/// Whether a lease lets the home write: an absent one does where no ownership is kept.
pub open spec fn lease_admits(lease: Lease, ownership: bool) -> bool {
    lease is Held || (lease is Absent && !ownership)
}

/// Whether a placement records that the bytes arrived here. An absent one is no observation at all, and one
/// that places them elsewhere says that they did not.
pub open spec fn has_arrived(placement: Option<ArtifactPlacement>) -> bool {
    placement is Some && (placement->0).availability is Local
}

/// Whether `r` is what a finalize comes to before anything is written.
pub open spec fn is_finalization(
    staged: Option<StagedIntent>,
    outcome: Option<Vec<u8>>,
    descriptor: FinalizeDescriptor,
    placement: Option<ArtifactPlacement>,
    authorized: bool,
    lease: Lease,
    ownership: bool,
    r: Result<FinalizeStep, FinalizeError>,
) -> bool {
    match staged {
        None => r matches Err(FinalizeError::NotStaged),
        Some(intent) => match outcome {
            Some(response) => r == Ok::<FinalizeStep, FinalizeError>(
                FinalizeStep::Done(Finalization::Replayed { response }),
            ),
            None => if descriptor.artifact_sha256@ != intent.digest@ || descriptor.artifact_size != intent.size {
                r == Err::<FinalizeStep, FinalizeError>(FinalizeError::Rejected(FinalizeFailure::ChecksumMismatch))
            } else if !has_arrived(placement) {
                r == Err::<FinalizeStep, FinalizeError>(FinalizeError::Rejected(FinalizeFailure::MissingPlacement))
            } else if !authorized {
                r == Err::<FinalizeStep, FinalizeError>(FinalizeError::Rejected(FinalizeFailure::Unauthorized))
            } else if !lease_admits(lease, ownership) {
                r == Err::<FinalizeStep, FinalizeError>(FinalizeError::Rejected(FinalizeFailure::Fenced))
            } else {
                r matches Ok(FinalizeStep::Publish)
            },
        },
    }
}

/// Decide a finalize. A terminal outcome is replayed before anything is judged; then the checksum, the
/// placement, the permission and the fence each refuse in turn.
pub fn finalize_admitted_upload(
    staged: &Option<StagedIntent>,
    outcome: Option<Vec<u8>>,
    descriptor: &FinalizeDescriptor,
    placement: Option<ArtifactPlacement>,
    authorized: bool,
    lease: Lease,
    ownership: bool,
) -> (r: Result<FinalizeStep, FinalizeError>)
    ensures
        is_finalization(*staged, outcome, *descriptor, placement, authorized, lease, ownership, r),
{
    let intent = match staged {
        Some(intent) => intent,
        None => {
            return Err(FinalizeError::NotStaged);
        },
    };
    match outcome {
        Some(response) => {
            return Ok(FinalizeStep::Done(Finalization::Replayed { response }));
        },
        None => {},
    }
    if !text_eq(descriptor.artifact_sha256.as_str(), intent.digest.as_str()) || descriptor.artifact_size != intent.size {
        return Err(FinalizeError::Rejected(FinalizeFailure::ChecksumMismatch));
    }
    let arrived: bool = match placement {
        Some(placement) => matches!(placement.availability, ByteAvailability::Local),
        None => false,
    };
    if !arrived {
        return Err(FinalizeError::Rejected(FinalizeFailure::MissingPlacement));
    }
    if !authorized {
        return Err(FinalizeError::Rejected(FinalizeFailure::Unauthorized));
    }
    let admitted: bool = match lease {
        Lease::Held => true,
        Lease::Absent => !ownership,
        Lease::Failed => false,
    };
    if !admitted {
        return Err(FinalizeError::Rejected(FinalizeFailure::Fenced));
    }
    Ok(FinalizeStep::Publish)
}

/// Whether `file` is what a descriptor publishes.
pub open spec fn describes(descriptor: FinalizeDescriptor, python_tag: Seq<char>, file: PublishedFile) -> bool {
    &&& file.index@ == descriptor.index_name@
    &&& file.normalized@ == descriptor.normalized@
    &&& file.display@ == descriptor.display@
    &&& file.filename@ == descriptor.filename@
    &&& file.artifact_sha256@ == descriptor.artifact_sha256@
    &&& file.artifact_size == descriptor.artifact_size
    &&& file.record@ == descriptor.record@
    &&& file.version@ == descriptor.version@
    &&& file.python_tag@ == python_tag
    &&& file.submitted_at_unix == descriptor.submitted_at_unix
    &&& file.metadata is None
    &&& file.provenance is None
}

/// Whether publishing a finalized upload's rows takes the store from `was` to `now`, and `r` says so.
pub open spec fn is_published(
    was: TxnState,
    outbox: bool,
    descriptor: FinalizeDescriptor,
    python_tag: Seq<char>,
    decoded: Option<VersionedProvenanceReference>,
    lapsed: bool,
    now: TxnState,
    r: Result<Vec<Vec<u8>>, FinalizeError>,
) -> bool {
    if lapsed {
        r == Err::<Vec<Vec<u8>>, FinalizeError>(FinalizeError::Rejected(FinalizeFailure::Fenced)) && now
            == was
    } else {
        exists|file: PublishedFile| #[trigger]
            describes(descriptor, python_tag, file) && {
                let upload = crate::store::keys::key3(
                    crate::store::keys::UPLOAD_PREFIX@,
                    file.index@,
                    file.normalized@,
                    file.filename@,
                );
                let provenance = crate::store::keys::key4(
                    crate::store::keys::PROVENANCE_PREFIX@,
                    file.index@,
                    file.normalized@,
                    file.artifact_sha256@,
                    file.filename@,
                );
                match reference_at(
                    was,
                    provenance,
                    crate::store::values::decoded_reference(decoded),
                ) {
                    Err(error) => r matches Err(FinalizeError::Store(e)) && e@ == error && now == was,
                    Ok(_) => if was.row(upload) is Some {
                        r matches Ok(journal) && journal@.len() == 0 && now == was
                    } else {
                        match was.file_published(outbox, file, None) {
                            Err(error) => r matches Err(FinalizeError::Store(e)) && e@ == error && now
                                == was,
                            Ok(done) => r matches Ok(journal) && now == done.state
                                && crate::store::txn::byte_seqs(journal@) == done.journal,
                        }
                    },
                }
            }
    }
}

/// Publish a finalized upload's rows, unless the lease has lapsed. The bytes were stored where the upload
/// was admitted, so a filename that is already published is left as it is. `decoded` is the reading of the
/// stored provenance reference, if there is one.
pub fn publish(
    txn: &mut DriverTxn,
    outbox: bool,
    descriptor: &FinalizeDescriptor,
    python_tag: &str,
    decoded: Option<VersionedProvenanceReference>,
    lapsed: bool,
) -> (r: Result<Vec<Vec<u8>>, FinalizeError>)
    ensures
        is_published(old(txn)@, outbox, *descriptor, python_tag@, decoded, lapsed, final(txn)@, r),
{
    if lapsed {
        return Err(FinalizeError::Rejected(FinalizeFailure::Fenced));
    }
    let file = PublishedFile {
        index: descriptor.index_name.as_str(),
        normalized: descriptor.normalized.as_str(),
        display: descriptor.display.as_str(),
        filename: descriptor.filename.as_str(),
        artifact_sha256: descriptor.artifact_sha256.as_str(),
        artifact_size: descriptor.artifact_size,
        record: descriptor.record.as_slice(),
        version: descriptor.version.as_str(),
        python_tag,
        submitted_at_unix: descriptor.submitted_at_unix,
        metadata: None,
        provenance: None,
    };
    assert(describes(*descriptor, python_tag@, file));
    let stored = match published_state(txn, &file, decoded) {
        Ok(stored) => stored,
        Err(error) => {
            return Err(FinalizeError::Store(error));
        },
    };
    let guard: Guard = if stored.record.is_some() {
        Guard::Skip
    } else {
        Guard::Commit
    };
    match publish_file_in_txn(txn, outbox, &file, guard, None) {
        Ok((_, journal)) => Ok(journal),
        Err(error) => Err(FinalizeError::Store(error)),
    }
}

/// Whether `r` is the first place at which something was found.
pub open spec fn is_first_found(found: Seq<Option<Vec<u8>>>, r: Option<usize>) -> bool {
    match r {
        Some(position) => position < found.len() && found[position as int] is Some && forall|i: int|
            0 <= i < position ==> (#[trigger] found[i]) is None,
        None => forall|i: int| 0 <= i < found.len() ==> (#[trigger] found[i]) is None,
    }
}

/// The first index whose store holds an upload's rows: `found` says for each index what is stored there.
pub fn locate(found: &Vec<Option<Vec<u8>>>) -> (r: Option<usize>)
    ensures
        is_first_found(found@, r),
{
    let mut i: usize = 0;
    while i < found.len()
        invariant
            i <= found@.len(),
            forall|j: int| 0 <= j < i ==> (#[trigger] found@[j]) is None,
        decreases found.len() - i,
    {
        if found[i].is_some() {
            return Some(i);
        }
        i = i + 1;
    }
    None
}

/// Whether `r` is the first credential that is granted the write.
pub open spec fn is_first_granted(granted: Seq<bool>, r: Option<usize>) -> bool {
    match r {
        Some(position) => position < granted.len() && granted[position as int] && forall|i: int|
            0 <= i < position ==> !#[trigger] granted[i],
        None => forall|i: int| 0 <= i < granted.len() ==> !#[trigger] granted[i],
    }
}

/// The first token that still grants the write: `granted` says for each token whether it does. Permission is
/// checked against the current list rather than trusted from admission.
pub fn write_principal(granted: &Vec<bool>) -> (r: Option<usize>)
    ensures
        is_first_granted(granted@, r),
{
    let mut i: usize = 0;
    while i < granted.len()
        invariant
            i <= granted@.len(),
            forall|j: int| 0 <= j < i ==> !#[trigger] granted@[j],
        decreases granted.len() - i,
    {
        if granted[i] {
            return Some(i);
        }
        i = i + 1;
    }
    None
}

} // verus!
