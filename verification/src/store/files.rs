//! Where a file's bytes can be had, and the sidecars recorded of it.
use vstd::prelude::*;
use vstd::utf8::{decode_utf8, encode_utf8, valid_utf8};

use crate::collections::TextMap;
use crate::serving::project_view::{ArtifactPlacement, ArtifactSource, ByteAvailability};
use crate::store::keys::{
    file_key, key1, key3, key4, metadata_key, provenance_key, publication_key, FILE_PREFIX, METADATA_PREFIX,
    PROVENANCE_PREFIX, PUBLICATION_PREFIX,
};
use crate::store::txn::{DriverTxn, RowScope, TxnState};
use crate::store::uploads::{read_reference, reference_at, ProvenanceSibling};
use crate::store::values::{
    decoded_reference, file_source_read, file_source_reads_back, file_source_record, file_source_value,
    provenance_record, provenance_value, publication_read, record_str, split_file_source, split_publication, ClaimText,
    FilePublication, FileSource, FileSourceText, MetaError, MetaErrorText, StoredProvenanceReference,
    VersionedProvenanceReference,
};
use crate::text::opt_text;

verus! {

/// Where a file's bytes came from.
#[derive(Debug, Clone, Copy, PartialEq, Eq, Structural)]
pub enum PypiArtifactOrigin {
    /// Uploaded into a hosted index here.
    Upload,
    /// Cached from an upstream Simple index.
    Cached,
}

/// Whether `r` is the source that a placement records for an origin.
pub open spec fn is_origin_source(origin: PypiArtifactOrigin, r: ArtifactSource) -> bool {
    r == (match origin {
        PypiArtifactOrigin::Upload => ArtifactSource::Hosted,
        PypiArtifactOrigin::Cached => ArtifactSource::Proxy,
    })
}

impl PypiArtifactOrigin {
    /// The source that a placement records for it.
    pub fn artifact_source(self) -> (r: ArtifactSource)
        ensures
            is_origin_source(self, r),
    {
        match self {
            PypiArtifactOrigin::Upload => ArtifactSource::Hosted,
            PypiArtifactOrigin::Cached => ArtifactSource::Proxy,
        }
    }
}

/// A text row.
pub open spec fn text_at(s: TxnState, key: Seq<char>) -> Result<Option<Seq<char>>, MetaErrorText> {
    match s.row(key) {
        None => Ok(None),
        Some(raw) => if valid_utf8(raw) {
            Ok(Some(decode_utf8(raw)))
        } else {
            Err(MetaErrorText::Utf8 { key })
        },
    }
}

/// Read a text row. A row that is not text is damage, not absence.
pub fn read_text(txn: &DriverTxn, key: &str) -> (r: Result<Option<String>, MetaError>)
    ensures
        match text_at(txn@, key@) {
            Ok(text) => r matches Ok(found) && opt_text(found) == text,
            Err(error) => r matches Err(e) && e@ == error,
        },
{
    match txn.get(key) {
        None => Ok(None),
        Some(raw) => match record_str(key, raw) {
            Ok(text) => Ok(Some(text)),
            Err(error) => Err(error),
        },
    }
}

/// Record where a file can be fetched from: its upstream address and the cached index it came from. Gives the
/// placement to register beside it: a proxied file whose bytes are not here yet.
pub fn put_file_url(txn: &mut DriverTxn, index: &str, normalized: &str, sha256: &str, url: &str, source: &str) -> (r:
    ArtifactPlacement)
    ensures
        final(txn)@ == old(txn)@.wrote(
            RowScope::Replicated,
            key3(FILE_PREFIX@, index@, normalized@, sha256@),
            encode_utf8(
                file_source_record(FileSourceText { url: url@, source: source@, size: None, upstream: None }),
            ),
        ),
        r == (ArtifactPlacement { source: ArtifactSource::Proxy, availability: ByteAvailability::RemoteOnly }),
{
    let key = file_key(index, normalized, sha256);
    let value = file_source_value(url, source, None, None);
    let fresh: bool = txn.write_row(RowScope::Replicated, key.as_str(), value.as_str().as_bytes());
    ArtifactPlacement {
        source: PypiArtifactOrigin::Cached.artifact_source(),
        availability: ByteAvailability::RemoteOnly,
    }
}

/// The source that a row records.
pub open spec fn source_at(s: TxnState, key: Seq<char>) -> Result<Option<FileSourceText>, MetaErrorText> {
    match text_at(s, key) {
        Err(error) => Err(error),
        Ok(None) => Ok(None),
        Ok(Some(value)) => match file_source_read(key, value) {
            Ok(source) => Ok(Some(source)),
            Err(error) => Err(error),
        },
    }
}

/// Where a file can be fetched from.
pub fn get_file_url(txn: &DriverTxn, index: &str, normalized: &str, sha256: &str) -> (r: Result<
    Option<FileSource>,
    MetaError,
>)
    ensures
        match source_at(txn@, key3(FILE_PREFIX@, index@, normalized@, sha256@)) {
            Ok(Some(source)) => r matches Ok(Some(found)) && found@ == source,
            Ok(None) => r matches Ok(None),
            Err(error) => r matches Err(e) && e@ == error,
        },
{
    let key = file_key(index, normalized, sha256);
    match read_text(txn, key.as_str()) {
        Err(error) => Err(error),
        Ok(None) => Ok(None),
        Ok(Some(value)) => match split_file_source(key.as_str(), value.as_str()) {
            Ok(source) => Ok(Some(source)),
            Err(error) => Err(error),
        },
    }
}

/// A recorded source is read back as it was recorded, as long as its address and its index name are single
/// lines.
pub proof fn recorded_sources_read_back(s: TxnState, key: Seq<char>, url: Seq<char>, source: Seq<char>)
    requires
        !url.contains('\n'),
        !source.contains('\n'),
    ensures
        ({
            let record = FileSourceText { url, source, size: None, upstream: None };
            source_at(s.wrote(RowScope::Replicated, key, encode_utf8(file_source_record(record))), key) == Ok::<
                Option<FileSourceText>,
                MetaErrorText,
            >(Some(record))
        }),
{
    broadcast use vstd::utf8::encode_utf8_decode_utf8, vstd::utf8::encode_utf8_valid_utf8;

    file_source_reads_back(key, FileSourceText { url, source, size: None, upstream: None });
}

/// Record the metadata derived from an artifact's own verified bytes, keyed by its digest: every publication
/// of the artifact may serve it.
pub fn put_metadata(txn: &mut DriverTxn, artifact_sha256: &str, metadata_sha256: &str)
    ensures
        final(txn)@ == old(txn)@.wrote(
            RowScope::Replicated,
            key1(METADATA_PREFIX@, artifact_sha256@),
            encode_utf8(metadata_sha256@),
        ),
{
    let key = metadata_key(artifact_sha256);
    let fresh: bool = txn.write_row(RowScope::Replicated, key.as_str(), metadata_sha256.as_bytes());
}

/// The digest of the metadata derived from an artifact.
pub fn get_metadata_digest(txn: &DriverTxn, artifact_sha256: &str) -> (r: Result<Option<String>, MetaError>)
    ensures
        match text_at(txn@, key1(METADATA_PREFIX@, artifact_sha256@)) {
            Ok(text) => r matches Ok(found) && opt_text(found) == text,
            Err(error) => r matches Err(e) && e@ == error,
        },
{
    let key = metadata_key(artifact_sha256);
    read_text(txn, key.as_str())
}

/// What was recorded for an artifact is read back for it, and for no other.
pub proof fn recorded_metadata_reads_back(s: TxnState, artifact: Seq<char>, metadata: Seq<char>, other: Seq<char>)
    ensures
        ({
            let after = s.wrote(RowScope::Replicated, key1(METADATA_PREFIX@, artifact), encode_utf8(metadata));
            &&& text_at(after, key1(METADATA_PREFIX@, artifact)) == Ok::<Option<Seq<char>>, MetaErrorText>(
                Some(metadata),
            )
            &&& other != artifact ==> text_at(after, key1(METADATA_PREFIX@, other)) == text_at(
                s,
                key1(METADATA_PREFIX@, other),
            )
        }),
{
    broadcast use vstd::utf8::encode_utf8_decode_utf8, vstd::utf8::encode_utf8_valid_utf8;

    if key1(METADATA_PREFIX@, other) == key1(METADATA_PREFIX@, artifact) {
        let n = METADATA_PREFIX@.len() as int;
        assert(key1(METADATA_PREFIX@, other).skip(n) =~= other);
        assert(key1(METADATA_PREFIX@, artifact).skip(n) =~= artifact);
    }
}

/// The digests recorded for the first `n` artifacts, or why they cannot be read.
pub open spec fn digests_read(s: TxnState, artifacts: Seq<String>, n: int) -> Result<
    Map<Seq<char>, Seq<char>>,
    MetaErrorText,
>
    decreases n,
{
    if n <= 0 {
        Ok(Map::empty())
    } else {
        match digests_read(s, artifacts, n - 1) {
            Err(error) => Err(error),
            Ok(map) => match text_at(s, key1(METADATA_PREFIX@, artifacts[n - 1]@)) {
                Err(error) => Err(error),
                Ok(None) => Ok(map),
                Ok(Some(digest)) => Ok(map.insert(artifacts[n - 1]@, digest)),
            },
        }
    }
}

proof fn digest_error_stays(s: TxnState, artifacts: Seq<String>, m: int, n: int)
    requires
        0 <= m <= n,
        digests_read(s, artifacts, m) is Err,
    ensures
        digests_read(s, artifacts, n) == digests_read(s, artifacts, m),
    decreases n,
{
    if m < n {
        digest_error_stays(s, artifacts, m, n - 1);
    }
}

/// The digests of the metadata derived from some artifacts; those without any are left out.
pub fn get_metadata_digests(txn: &DriverTxn, artifacts: &Vec<String>) -> (r: Result<TextMap<String>, MetaError>)
    ensures
        match digests_read(txn@, artifacts@, artifacts@.len() as int) {
            Ok(map) => r matches Ok(found) && crate::simple::file::text_values(found@) == map,
            Err(error) => r matches Err(e) && e@ == error,
        },
{
    let mut out: TextMap<String> = TextMap::new();
    let mut i: usize = 0;
    assert(crate::simple::file::text_values(out@) =~= Map::<Seq<char>, Seq<char>>::empty());
    while i < artifacts.len()
        invariant
            i <= artifacts@.len(),
            digests_read(txn@, artifacts@, i as int) == Ok::<Map<Seq<char>, Seq<char>>, MetaErrorText>(
                crate::simple::file::text_values(out@),
            ),
        decreases artifacts.len() - i,
    {
        match get_metadata_digest(txn, artifacts[i].as_str()) {
            Err(error) => {
                proof {
                    assert(digests_read(txn@, artifacts@, i + 1) == Err::<Map<Seq<char>, Seq<char>>, MetaErrorText>(
                        error@,
                    ));
                    digest_error_stays(txn@, artifacts@, i + 1, artifacts@.len() as int);
                }
                return Err(error);
            },
            Ok(None) => {},
            Ok(Some(digest)) => {
                let ghost before = crate::simple::file::text_values(out@);
                let ghost value = digest@;
                out.insert(artifacts[i].clone(), digest);
                assert(crate::simple::file::text_values(out@) =~= before.insert(artifacts@[i as int]@, value));
            },
        }
        i = i + 1;
    }
    Ok(out)
}

/// What a row says one index's page said of a file's sidecar.
pub open spec fn publication_at(s: TxnState, key: Seq<char>) -> Result<Option<Option<ClaimText>>, MetaErrorText> {
    match text_at(s, key) {
        Err(error) => Err(error),
        Ok(None) => Ok(None),
        Ok(Some(value)) => match publication_read(key, value) {
            Ok(publication) => Ok(Some(publication)),
            Err(error) => Err(error),
        },
    }
}

/// What one index's page said of a file's sidecar, when the page listed the file.
pub fn get_file_publication(txn: &DriverTxn, index: &str, normalized: &str, sha256: &str, filename: &str) -> (r: Result<
    Option<FilePublication>,
    MetaError,
>)
    ensures
        match publication_at(txn@, key4(PUBLICATION_PREFIX@, index@, normalized@, sha256@, filename@)) {
            Ok(Some(publication)) => r matches Ok(Some(found)) && found@ == publication,
            Ok(None) => r matches Ok(None),
            Err(error) => r matches Err(e) && e@ == error,
        },
{
    let key = publication_key(index, normalized, sha256, filename);
    match read_text(txn, key.as_str()) {
        Err(error) => Err(error),
        Ok(None) => Ok(None),
        Ok(Some(value)) => match split_publication(key.as_str(), value.as_str()) {
            Ok(publication) => Ok(Some(publication)),
            Err(error) => Err(error),
        },
    }
}

/// Record one hosted publication's provenance bundle: its digest and its length. The bundle is the
/// publication's own, since two indexes may accept different bundles for the same bytes.
pub fn put_provenance(
    txn: &mut DriverTxn,
    index: &str,
    normalized: &str,
    artifact_sha256: &str,
    filename: &str,
    bundle: &ProvenanceSibling<'_>,
)
    ensures
        final(txn)@ == old(txn)@.wrote(
            RowScope::Replicated,
            key4(PROVENANCE_PREFIX@, index@, normalized@, artifact_sha256@, filename@),
            encode_utf8(provenance_record(bundle.provenance_sha256@, bundle.size)),
        ),
{
    let key = provenance_key(index, normalized, artifact_sha256, filename);
    let value = provenance_value(bundle.provenance_sha256, bundle.size);
    let fresh: bool = txn.write_row(RowScope::Replicated, key.as_str(), value.as_str().as_bytes());
}

/// One hosted publication's provenance bundle. `decoded` is the reading of its record, when it has the
/// current form.
pub fn get_provenance(
    txn: &DriverTxn,
    index: &str,
    normalized: &str,
    artifact_sha256: &str,
    filename: &str,
    decoded: Option<VersionedProvenanceReference>,
) -> (r: Result<Option<StoredProvenanceReference>, MetaError>)
    ensures
        match reference_at(
            txn@,
            key4(PROVENANCE_PREFIX@, index@, normalized@, artifact_sha256@, filename@),
            decoded_reference(decoded),
        ) {
            Ok(Some(reference)) => r matches Ok(Some(found)) && found@ == reference,
            Ok(None) => r matches Ok(None),
            Err(error) => r matches Err(e) && e@ == error,
        },
{
    let key = provenance_key(index, normalized, artifact_sha256, filename);
    read_reference(txn, key.as_str(), decoded)
}

} // verus!
