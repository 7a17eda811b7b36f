use peryx_ecosystem_pypi::collections::{TextMap, TextSet};
use peryx_ecosystem_pypi::policy::{ArtifactRule, AttestationMode};
use peryx_ecosystem_pypi::policy_engine::{FileFacts, Policy};
use peryx_ecosystem_pypi::quota::{Admission as QuotaAdmission, PendingQuota, QuotaLimit, QuotaRejection};
use peryx_ecosystem_pypi::serving::admission::{
    admit_staged, ingress_dc, intent_key, open_admission, operation_id, pypi_filename, staging_limits, Admission,
    AdmissionRequest, IntentStageOutcome,
};
use peryx_ecosystem_pypi::serving::finalize::{
    describe_intent, finalize_admitted_upload, locate, publish, published, write_principal, Finalization, FinalizeError,
    FinalizeFailure, FinalizeStep, Lease, StagedIntent,
};
use peryx_ecosystem_pypi::serving::reply::{reply, Reply};
use peryx_ecosystem_pypi::serving::response::{CacheError, CacheErrorKind};
use peryx_ecosystem_pypi::serving::project_view::{ArtifactPlacement, ArtifactSource, ByteAvailability};
use peryx_ecosystem_pypi::serving::upload::{
    accept_upload, ack_response, admission_rejection, browser_response, browser_upload, claim_short_circuit, first_publish_fence,
    operation_expiry, project_quota_reservation, releases_intent, store_admitted, store_event, upload_barrier, upload_policy_response,
    upload_status_response, BrowserHeaders, ClaimOutcome, HomeClaim, PolicyJudgement, StoreAction, StoreError,
    StoreEvent, UploadProgress, UploadStep, WriteDurability,
};
use peryx_ecosystem_pypi::serving::upload_form::{
    distribution_filename_error_message, hex, reject_stalled, storage_reject, upload_error_response, upload_text_field,
    BrowserNaming, DistributionFilenameError, FormReader, PartStep, Staging, UploadError, UploadForm, UploadTextField,
};
use peryx_ecosystem_pypi::simple::file::{CoreMetadata, File, Provenance, Yanked};
use peryx_ecosystem_pypi::simple::meta::ProjectStatus;
use peryx_ecosystem_pypi::store::reads::get_upload;
use peryx_ecosystem_pypi::store::txn::DriverTxn;

fn header<'a>(answer: &'a Reply, name: &str) -> Option<&'a str> {
    answer.headers.iter().find(|(header, _)| *header == name).map(|(_, value)| value.as_str())
}

fn error() -> CacheError {
    CacheError { kind: CacheErrorKind::Meta, message: "it broke".to_owned() }
}

fn no_name() -> Result<BrowserNaming, DistributionFilenameError> {
    Err(DistributionFilenameError::UnsupportedExtension)
}

fn headers(origin: Option<&str>, csrf: Option<&str>, site: Option<&str>, host: Option<&str>) -> BrowserHeaders {
    let bytes = |value: Option<&str>| value.map(|text| text.as_bytes().to_vec());
    BrowserHeaders { origin: bytes(origin), csrf: bytes(csrf), fetch_site: bytes(site), host: bytes(host) }
}

#[test]
fn a_browser_uploads_only_from_its_own_page() {
    let page = Some("https://pypi.example");
    assert_eq!(browser_upload(&headers(None, None, None, None)).ok(), Some(false));
    assert_eq!(browser_upload(&headers(page, page, Some("same-origin"), Some("PyPI.example"))).ok(), Some(true));
    assert_eq!(browser_upload(&headers(page, page, None, Some("pypi.example:443"))).ok(), Some(true));
    assert_eq!(browser_upload(&headers(Some("http://[::1]:80"), Some("http://[::1]:80"), None, Some("[::1]"))).ok(), None);
    for refused in [
        headers(page, None, None, Some("pypi.example")),
        headers(page, Some("https://other.example"), None, Some("pypi.example")),
        headers(page, page, Some("cross-site"), Some("pypi.example")),
        headers(page, page, None, Some("other.example")),
        headers(page, page, None, Some("pypi.example:8443")),
        headers(page, page, None, None),
        headers(Some("null"), Some("null"), None, Some("pypi.example")),
        headers(Some("ftp://pypi.example"), Some("ftp://pypi.example"), None, Some("pypi.example")),
    ] {
        assert_eq!(browser_upload(&refused).err().map(|answer| (answer.status, answer.body)), Some((403, "browser upload rejected".to_owned())));
    }
    assert_eq!(browser_response(true, reply(507, "disk /dev/x is full")).body, "upload storage failed");
    assert_eq!(browser_response(false, reply(507, "disk")).body, "disk");
    assert_eq!(browser_response(true, reply(400, "no")).body, "no");
}

#[test]
fn uploads_go_to_the_root_of_an_index_that_takes_them() {
    let said = |resolved, root, accepts| upload_barrier(resolved, root, accepts).map(|refusal| (refusal.answer.status, refusal.reason));
    assert_eq!(said(false, true, true), Some((404, None)));
    assert_eq!(said(true, false, true), Some((404, Some("upload path must target an index root"))));
    assert_eq!(said(true, true, false), Some((405, Some("index does not accept uploads"))));
    assert_eq!(said(true, true, true), None);
}

fn read_text(reader: &mut FormReader, name: &str, value: &[u8]) -> Result<(), Reply> {
    match reader.begin_part(name, None, no_name())? {
        PartStep::Text(field) => {
            let mut bytes = Vec::new();
            reader.take_text(field, name, &mut bytes, value)?;
            reader.end_text(field, bytes)
        }
        PartStep::Drain => reader.drain(value.len()),
        PartStep::Stage => panic!("a text part"),
    }
}

#[test]
fn a_form_is_read_field_by_field() {
    let mut reader = FormReader::new(false);
    assert!(read_text(&mut reader, "name", b"Flask").is_ok());
    assert!(read_text(&mut reader, "project_urls", b"a, https://a").is_ok());
    assert!(read_text(&mut reader, "project_urls", b"b, https://b").is_ok());
    assert!(read_text(&mut reader, "keywords", b"ignored").is_ok());
    assert!(matches!(reader.begin_part("content", Some("flask-1.whl"), no_name()), Ok(PartStep::Stage)));
    assert_eq!(reader.form.name.as_deref(), Some("Flask"));
    assert_eq!(reader.form.project_urls.len(), 2);
    assert_eq!(reader.form.filename.as_deref(), Some("flask-1.whl"));
    assert!(reader.staged);
    assert_eq!(read_text(&mut reader, "name", b"again").err().map(|answer| answer.body), Some("bad upload: duplicate upload field \"name\"".to_owned()));
    assert_eq!(reader.begin_part("content", None, no_name()).err().map(|answer| answer.body), Some("bad upload: duplicate content field".to_owned()));
    let mut broken = FormReader::new(false);
    assert_eq!(
        read_text(&mut broken, "name", &[0xff]).err().map(|answer| answer.body),
        Some("bad upload: invalid utf-8 sequence of 1 bytes from index 0".to_owned()),
    );
}

#[test]
fn a_form_is_bounded_everywhere() {
    let mut reader = FormReader::new(false);
    for _ in 0..64 {
        assert!(read_text(&mut reader, "license_files", b"x").is_ok());
    }
    assert_eq!(
        read_text(&mut reader, "license_file", b"x").err().map(|answer| answer.body),
        Some("bad upload: upload field \"license_file\" appears more than 64 times".to_owned()),
    );
    let mut parts = FormReader::new(false);
    for _ in 0..256 {
        assert!(read_text(&mut parts, "ignored", b"").is_ok());
    }
    assert_eq!(read_text(&mut parts, "ignored", b"").err().map(|answer| answer.body), Some("bad upload: upload has more than 256 parts".to_owned()));
    let mut long = FormReader::new(false);
    assert_eq!(
        read_text(&mut long, "name", &vec![b'x'; 65_537]).err().map(|answer| answer.body),
        Some("upload field \"name\" exceeds 65536 bytes".to_owned()),
    );
    let mut total = FormReader::new(false);
    assert!(read_text(&mut total, "attestations", &vec![b'x'; 1_048_576]).is_ok());
    assert!(read_text(&mut total, "ignored", &vec![b'x'; 1_048_576]).is_ok());
    assert_eq!(
        read_text(&mut total, "ignored", b"x").err().map(|answer| answer.body),
        Some("bad upload: upload text fields exceed 2097152 bytes".to_owned()),
    );
}

#[test]
fn a_browser_form_is_named_by_its_file() {
    let naming = || Ok(BrowserNaming { name: "flask".to_owned(), version: "1".to_owned(), filetype: "bdist_wheel".to_owned() });
    let mut reader = FormReader::new(true);
    assert!(read_text(&mut reader, "name", b"evil").is_ok());
    assert!(matches!(reader.begin_part("content", Some("flask-1-py3-none-any.whl"), naming()), Ok(PartStep::Stage)));
    assert!(read_text(&mut reader, "version", b"9").is_ok());
    assert_eq!((reader.form.name.as_deref(), reader.form.version.as_deref(), reader.form.action.as_deref()), (Some("flask"), Some("1"), Some("file_upload")));
    let mut nameless = FormReader::new(true);
    assert_eq!(nameless.begin_part("content", None, naming()).err().map(|answer| answer.body), Some("missing required field: filename".to_owned()));
    let mut odd = FormReader::new(true);
    assert_eq!(
        odd.begin_part("content", Some("x.exe"), no_name()).err().map(|answer| answer.body),
        Some("invalid distribution filename \"x.exe\": accepted upload formats are .whl, .tar.gz, and .zip".to_owned()),
    );
    assert_eq!(upload_text_field(":action"), Some(UploadTextField::Action));
    assert_eq!(upload_text_field("provides_extras"), Some(UploadTextField::ProvidesExtra));
    assert_eq!(upload_text_field("nothing"), None);
}

#[test]
fn staged_content_is_hashed_and_bounded() {
    let form = UploadForm::new();
    let mut staging = Staging::begin(Some(3), Some(3), &form, "flask", "upload").unwrap_or_else(|answer| panic!("{}", answer.body));
    assert!(staging.take(b"ab", &form, "flask", "upload").is_ok());
    assert!(staging.take(b"c", &form, "flask", "upload").is_ok());
    assert_eq!(staging.finish(), "bddd813c634239723171ef3fee98579b94964e3bb1cb3e427262c8c068d52319");
    let mut over = Staging::begin(Some(3), None, &form, "flask", "upload").unwrap_or_else(|answer| panic!("{}", answer.body));
    let refused = over.take(b"abcd", &form, "flask", "upload").err().map(|answer| answer.body);
    assert!(refused.is_some_and(|body| body.contains("\"reason\":\"file size 4 exceeds limit 3\"") && body.contains("\"rule\":\"max-file-size\"")));
    assert!(Staging::begin(Some(3), Some(4), &form, "flask", "upload").is_err());
    assert_eq!(hex(&[0, 15, 255]), "000fff");
    assert_eq!(reject_stalled("30s").status, 408);
    assert_eq!(storage_reject("full").body, "upload staging: blob store error: full");
}

#[test]
fn refused_uploads_are_told_why() {
    let said = |error: UploadError| {
        let answer = upload_error_response(&error);
        (answer.status, answer.body)
    };
    let text = |value: &str| value.to_owned();
    assert_eq!(said(UploadError::NotFileUpload), (400, text("unsupported :action")));
    assert_eq!(said(UploadError::Missing("name")), (400, text("missing required field: name")));
    assert_eq!(said(UploadError::InvalidVersion(text("x"))), (400, text("invalid version \"x\": expected a PEP 440 version")));
    assert_eq!(
        said(UploadError::FiletypeMismatch { expected: text("sdist"), actual: text("bdist_wheel") }),
        (400, text("filetype \"bdist_wheel\" does not match filename; expected \"sdist\"")),
    );
    assert_eq!(
        said(UploadError::FilenameNameMismatch { of_filename: text("a"), form: text("b") }),
        (400, text("filename project \"a\" does not match upload name \"b\"")),
    );
    assert_eq!(said(UploadError::DigestMismatch("md5_digest")), (400, text("md5_digest mismatch")));
    assert_eq!(
        said(UploadError::InvalidDigest { digest: "md5_digest", value: text("X") }),
        (400, text("md5_digest value \"X\" is not lowercase hex with the expected length")),
    );
    assert_eq!(
        said(UploadError::InvalidProjectUrl { label: text("l"), url: text("u") }),
        (400, text("invalid metadata Project-URL label \"l\" with URL \"u\": expected a label of 1 to 32 characters and an HTTP or HTTPS URL")),
    );
    assert_eq!(
        said(UploadError::InvalidMetadataValue { field: text("Name"), value: text("v"), reason: text("is odd") }),
        (400, text("metadata Name value \"v\" is odd")),
    );
    assert_eq!(
        said(UploadError::MetadataFieldMismatch { field: text("License"), metadata: text("a"), form: text("b") }),
        (400, text("metadata License \"a\" does not match upload value \"b\"")),
    );
    assert_eq!(said(UploadError::InvalidUploadTime).0, 500);
    assert_eq!(said(UploadError::Attestation(text("bad bundle"))), (400, text("bad bundle")));
    assert_eq!(
        distribution_filename_error_message(&DistributionFilenameError::InvalidTag(text("!"))),
        "wheel build/tag component \"!\" contains invalid characters",
    );
}

fn upload_file() -> File {
    File {
        filename: "x-1.tar.gz".to_owned(),
        url: "u".to_owned(),
        hashes: TextMap::new(),
        requires_python: None,
        size: Some(1),
        upload_time: None,
        yanked: Yanked::No,
        core_metadata: CoreMetadata::Absent,
        dist_info_metadata: CoreMetadata::Absent,
        gpg_sig: None,
        provenance: Provenance::Absent,
    }
}

fn attested(mode: AttestationMode) -> Policy {
    let mut required = TextSet::new();
    required.insert("https://a".to_owned());
    Policy {
        active: true,
        max_resource_size: None,
        owner_settings: Vec::new(),
        resource_rules: Vec::new(),
        artifact_rules: vec![ArtifactRule::RequiredAttestation { required, mode }],
    }
}

#[test]
fn an_audit_rule_records_and_lets_pass() {
    let facts = FileFacts { parsed: None, refusal: None };
    let audit = upload_policy_response(&attested(AttestationMode::Audit), "x", &upload_file(), &facts, &TextSet::new(), "upload");
    assert!(audit.answer.is_none());
    assert_eq!(audit.event.map(|event| event.result), Some("audit"));
    let enforced = upload_policy_response(&attested(AttestationMode::Enforce), "x", &upload_file(), &facts, &TextSet::new(), "upload");
    assert_eq!(enforced.answer.map(|answer| answer.status), Some(403));
    assert_eq!(enforced.event.map(|event| event.result), Some("denied"));
}

#[test]
fn a_status_may_disable_uploads() {
    assert!(upload_status_response(&Ok(ProjectStatus::Deprecated), "root", "x", "upload").is_none());
    let block = upload_status_response(&Ok(ProjectStatus::Archived), "root", "x", "upload").unwrap_or_else(|| panic!("a block"));
    assert_eq!((block.answer.status, block.answer.body.as_str(), block.event.result), (403, "project \"x\" is archived; uploads are disabled", "denied"));
    let block = upload_status_response(&Err(error()), "root", "x", "upload").unwrap_or_else(|| panic!("a block"));
    assert_eq!((block.answer.status, block.event.result, block.event.reason.as_str()), (500, "failure", "it broke"));
}

#[test]
fn an_upload_passes_every_check_before_admission() {
    let step = |progress, layered| accept_upload(progress, layered).step;
    assert!(matches!(step(UploadProgress::Collected(Ok(true)), true), UploadStep::Prepare));
    assert!(matches!(step(UploadProgress::Collected(Ok(false)), true), UploadStep::Answer(answer) if answer.body == "missing required field: content"));
    let rejected = accept_upload(UploadProgress::Collected(Err(reply(400, "bad"))), false);
    assert_eq!(rejected.event.map(|event| event.reason), Some("multipart body rejected".to_owned()));
    assert!(matches!(step(UploadProgress::Prepared(Ok(())), true), UploadStep::Authorize));
    assert!(matches!(step(UploadProgress::Authorized(Ok(())), true), UploadStep::JudgeByIndex));
    let silent = || PolicyJudgement { answer: None, event: None };
    assert!(matches!(step(UploadProgress::JudgedByIndex(silent()), true), UploadStep::JudgeByLayer));
    assert!(matches!(step(UploadProgress::JudgedByIndex(silent()), false), UploadStep::LookUpStatus));
    assert!(matches!(step(UploadProgress::JudgedByLayer(silent()), true), UploadStep::LookUpStatus));
    assert!(matches!(step(UploadProgress::StatusKnown(None), true), UploadStep::Admit));
}

#[test]
fn quota_rejections_name_their_limits() {
    let ask = |admission| project_quota_reservation(admission, Some(9), &vec!["bytes".to_owned(), "projects".to_owned()], "index", "root", "x", "x-1.whl", "upload");
    assert!(ask(Ok(QuotaAdmission::Reserved(PendingQuota { id: Some(1) }))).is_ok());
    let total = ask(Ok(QuotaAdmission::Rejected(QuotaRejection::ProjectBytes { total: 12 }))).err().map(|block| block.event.reason);
    assert_eq!(total.as_deref(), Some("project size 12 would exceed limit 9"));
    let limits = ask(Ok(QuotaAdmission::Rejected(QuotaRejection::Limits(vec![QuotaLimit::Resources])))).err().map(|block| block.event.reason);
    assert_eq!(limits.as_deref(), Some("index quota exceeded: bytes, projects"));
    assert_eq!(ask(Err(error())).err().map(|block| block.event.result), Some("failure"));
}

#[test]
fn a_published_operation_is_replayed() {
    assert!(claim_short_circuit(&ClaimOutcome::Proceed).is_none());
    let ack = ack_response(WriteDurability::Confirmed, "op");
    let replayed = claim_short_circuit(&ClaimOutcome::Published(ack.body.clone().into_bytes()));
    assert_eq!(replayed.map(|answer| (answer.status, answer.body)), Some((ack.status, ack.body)));
    assert_eq!(claim_short_circuit(&ClaimOutcome::Published(vec![0xff])).map(|answer| answer.body), Some("\u{fffd}".to_owned()));
    assert_eq!(claim_short_circuit(&ClaimOutcome::Failed).map(|answer| answer.status), Some(500));
    assert_eq!(ack_response(WriteDurability::Unavailable, "op").body, "upload accepted; durability pending, retry-safe operation op");
    assert!(!ack_response(WriteDurability::Pending, "op").finalize);
}

#[test]
fn only_the_home_publishes_first() {
    let claimed = HomeClaim::Claimed { home: "east".to_owned(), epoch: 4 };
    assert_eq!(first_publish_fence(&HomeClaim::Unclaimed, None).ok(), Some(0));
    assert_eq!(first_publish_fence(&claimed, Some("east")).ok(), Some(4));
    let refused = first_publish_fence(&claimed, Some("west")).err().unwrap_or_else(|| panic!("a refusal"));
    assert_eq!((refused.status, header(&refused, "retry-after")), (503, Some("1")));
    assert!(first_publish_fence(&HomeClaim::Failed, Some("east")).is_err());
}

#[test]
fn what_stored_nothing_gives_its_intent_back() {
    let act = |event| store_admitted(event, Some("east"), "op", "root", "x", "upload");
    assert!(matches!(act(StoreEvent::Claimed(ClaimOutcome::Proceed)), StoreAction::FindHome));
    assert!(matches!(act(StoreEvent::HomeFound(HomeClaim::Unclaimed)), StoreAction::Reserve(0)));
    assert!(matches!(act(StoreEvent::Reserved(Ok(()))), StoreAction::Store));
    assert!(matches!(act(StoreEvent::Stored(Ok(true))), StoreAction::Confirm { fresh: true }));
    let exists = act(StoreEvent::Stored(Err(StoreError::FileExists("x-1.whl".to_owned()))));
    assert!(releases_intent(&exists, true));
    assert!(!releases_intent(&exists, false));
    match exists {
        StoreAction::Finish { answer, event, durable, finalize } => {
            assert_eq!((answer.status, durable, finalize), (400, false, false));
            assert_eq!(answer.body, "File already exists: \"x-1.whl\" has different content; use a different filename");
            assert_eq!(event.map(|event| event.reason), Some("file exists with different content".to_owned()));
        }
        _ => panic!("an answer"),
    }
    let mismatch = act(StoreEvent::Stored(Err(StoreError::ProvenanceMismatch("x".to_owned()))));
    assert!(matches!(mismatch, StoreAction::Finish { answer, .. } if answer.body.ends_with("a re-upload cannot change them")));
    let done = act(StoreEvent::Confirmed(WriteDurability::Confirmed));
    assert!(!releases_intent(&done, true));
    assert!(matches!(done, StoreAction::Finish { durable: true, finalize: true, .. }));
    assert_eq!(store_event(false), ("noop", Some("same content already stored")));
}

fn request<'a>(digest: &'a str) -> AdmissionRequest<'a> {
    AdmissionRequest { tenant: "root/pypi", authority: "flask", filename: "a:b.whl", digest, size: 3, ingress_dc: "local" }
}

#[test]
fn an_intent_binds_an_upload_to_its_file() {
    let draft = open_admission(&request("aa"), None).unwrap_or_else(|answer| panic!("{}", answer.body));
    assert_eq!(draft.key, "pypi:root/pypi:flask:a:b.whl");
    assert_eq!(draft.operation, "pypi:root/pypi:flask:a:b.whl:aa");
    assert_eq!(
        draft.payload,
        "{\"tenant\":\"root/pypi\",\"authority\":\"flask\",\"digest\":\"aa\",\"size\":3,\"ingress_dc\":\"local\",\"operation\":\"pypi:root/pypi:flask:a:b.whl:aa\"}",
    );
    assert_eq!(pypi_filename(&draft.key), Some("a:b.whl"));
    assert_eq!(pypi_filename("npm:a:b:c"), None);
    assert_eq!(pypi_filename("pypi:a:b"), None);
    assert_eq!(operation_id(&intent_key("t", "a", "f"), "d"), "pypi:t:a:f:d");
    let short = open_admission(&request("aa"), Some("no fsync")).err().map(|answer| (answer.status, answer.body));
    assert_eq!(short, Some((503, "same-datacenter durability unavailable: no fsync".to_owned())));
    assert_eq!(ingress_dc(None), "local");
    assert_eq!(staging_limits().max_bytes, 64 * 1024 * 1024 * 1024);
}

#[test]
fn a_full_authority_sheds_load() {
    let close = |outcome| {
        let draft = open_admission(&request("aa"), None).unwrap_or_else(|answer| panic!("{}", answer.body));
        admit_staged(outcome, "a.whl", draft)
    };
    assert!(matches!(close(IntentStageOutcome::Admitted), Admission::Admitted(intent) if intent.fresh));
    assert!(matches!(close(IntentStageOutcome::Duplicate), Admission::Admitted(intent) if !intent.fresh));
    assert!(matches!(close(IntentStageOutcome::Conflict), Admission::Reject(answer) if answer.status == 400));
    assert!(matches!(close(IntentStageOutcome::Failed), Admission::Reject(answer) if answer.body == "ingress admission failed"));
    match close(IntentStageOutcome::RejectedOverByteLimit) {
        Admission::Reject(answer) => {
            assert_eq!((answer.status, header(&answer, "retry-after")), (503, Some("30")));
            assert_eq!(answer.body, "ingress admission retention is full: authority is at its byte ceiling");
        }
        Admission::Admitted(_) => panic!("a refusal"),
    }
}

fn staged() -> StagedIntent {
    StagedIntent { authority: "flask".to_owned(), digest: "aa".to_owned(), size: 3, updated_at_unix: 5 }
}

#[test]
fn finalization_refuses_in_order() {
    let descriptor = describe_intent("k", &staged(), "a.whl", "hosted", b"record".to_vec(), Some("1"), 10);
    assert_eq!((descriptor.operation.as_str(), descriptor.expiry_unix), ("k:aa", Some(86_410)));
    let at = |availability| Some(ArtifactPlacement { source: ArtifactSource::Hosted, availability });
    let here = || at(ByteAvailability::Local);
    let decide = |outcome, placed, authorized, lease, ownership| finalize_admitted_upload(&Some(staged()), outcome, &descriptor, placed, authorized, lease, ownership);
    assert!(matches!(finalize_admitted_upload(&None, None, &descriptor, here(), true, Lease::Held, true), Err(FinalizeError::NotStaged)));
    assert!(matches!(decide(Some(b"done".to_vec()), None, false, Lease::Failed, true), Ok(FinalizeStep::Done(Finalization::Replayed { response })) if response == b"done"));
    assert!(matches!(decide(None, None, false, Lease::Failed, true), Err(FinalizeError::Rejected(FinalizeFailure::MissingPlacement))));
    for elsewhere in [ByteAvailability::RemoteOnly, ByteAvailability::Unavailable] {
        assert!(matches!(decide(None, at(elsewhere), true, Lease::Held, true), Err(FinalizeError::Rejected(FinalizeFailure::MissingPlacement))));
    }
    assert!(matches!(decide(None, here(), false, Lease::Failed, true), Err(FinalizeError::Rejected(FinalizeFailure::Unauthorized))));
    assert!(matches!(decide(None, here(), true, Lease::Absent, true), Err(FinalizeError::Rejected(FinalizeFailure::Fenced))));
    assert!(matches!(decide(None, here(), true, Lease::Absent, false), Ok(FinalizeStep::Publish)));
    let other = StagedIntent { authority: "flask".to_owned(), digest: "aa".to_owned(), size: 4, updated_at_unix: 5 };
    assert!(matches!(
        finalize_admitted_upload(&Some(other), None, &descriptor, here(), true, Lease::Held, true),
        Err(FinalizeError::Rejected(FinalizeFailure::ChecksumMismatch)),
    ));
}

#[test]
fn a_finalized_upload_is_published_once() {
    let descriptor = describe_intent("k", &staged(), "a.whl", "hosted", b"{\"version\":\"1\"}".to_vec(), Some("1"), 10);
    let mut txn = DriverTxn::new(TextMap::new());
    assert!(matches!(publish(&mut txn, true, &descriptor, "py3", None, true), Err(FinalizeError::Rejected(FinalizeFailure::Fenced))));
    let journal = publish(&mut txn, true, &descriptor, "py3", None, false).unwrap_or_else(|_| panic!("a publication"));
    assert!(!journal.is_empty());
    assert!(get_upload(&txn, "hosted", "flask", "a.whl").is_some());
    let again = publish(&mut txn, true, &descriptor, "py3", None, false).unwrap_or_else(|_| panic!("a publication"));
    assert!(again.is_empty());
    assert!(matches!(published(), Finalization::Published { response } if response == b"upload accepted"));
    assert_eq!(locate(&vec![None, Some(vec![1]), Some(vec![2])]), Some(1));
    assert_eq!(write_principal(&vec![false, false]), None);
    assert_eq!(write_principal(&vec![false, true]), Some(1));
}

#[test]
fn an_operation_is_kept_for_a_day() {
    assert_eq!(operation_expiry(1_000), 87_400);
    let event = admission_rejection();
    assert_eq!((event.result, event.reason.as_str()), ("denied", "ingress admission rejected"));
}
