//! What reading an upload form promises: which fields stand for what, what one request can make the registry hold,
//! and what a client is told.
use vstd::prelude::*;

use crate::outside::quoted_text;
use crate::serving::reply::Reply;
use crate::serving::upload_form::{
    browser_completed, browser_refusal, field_named, filename_error_text, hex_digit, hex_text, is_chunk_staged, is_drained,
    is_field_counted, is_part_begun, is_part_counted, is_staging_begun, is_text_counted, is_text_ended, is_text_taken,
    oversize_denial, upload_error_status, upload_error_text, BrowserNaming, DistributionFilenameError, FormBudget,
    FormReader, PartStep, Staging, UploadError, UploadFormText, UploadTextField,
};
use crate::text::decimal;

verus! {

/// A field that stands once is what the form said, and every other field is as it was. One that repeats is added to.
pub proof fn fields_are_set_one_at_a_time(form: UploadFormText, field: UploadTextField, value: Seq<char>)
    ensures
        ({
            let after = form.with_field(field, value);
            &&& after.filename == form.filename
            &&& after.action == (if field is Action { Some(value) } else { form.action })
            &&& after.metadata_version == (if field is MetadataVersion { Some(value) } else { form.metadata_version })
            &&& after.name == (if field is Name { Some(value) } else { form.name })
            &&& after.version == (if field is Version { Some(value) } else { form.version })
            &&& after.requires_python == (if field is RequiresPython { Some(value) } else { form.requires_python })
            &&& after.license == (if field is License { Some(value) } else { form.license })
            &&& after.license_expression == (if field is LicenseExpression {
                Some(value)
            } else {
                form.license_expression
            })
            &&& after.license_files == (if field is LicenseFile {
                form.license_files.push(value)
            } else {
                form.license_files
            })
            &&& after.provides_extra == (if field is ProvidesExtra {
                form.provides_extra.push(value)
            } else {
                form.provides_extra
            })
            &&& after.project_urls == (if field is ProjectUrl {
                form.project_urls.push(value)
            } else {
                form.project_urls
            })
            &&& after.home_page == (if field is HomePage { Some(value) } else { form.home_page })
            &&& after.filetype == (if field is Filetype { Some(value) } else { form.filetype })
            &&& after.sha256_digest == (if field is Sha256Digest { Some(value) } else { form.sha256_digest })
            &&& after.blake2_256_digest == (if field is Blake2Digest { Some(value) } else { form.blake2_256_digest })
            &&& after.md5_digest == (if field is Md5Digest { Some(value) } else { form.md5_digest })
            &&& after.attestations == (if field is Attestations { Some(value) } else { form.attestations })
        }),
{
}

/// Two fields that differ are set in any order.
pub proof fn fields_come_in_any_order(
    form: UploadFormText,
    a: UploadTextField,
    x: Seq<char>,
    b: UploadTextField,
    y: Seq<char>,
)
    requires
        a != b,
    ensures
        form.with_field(a, x).with_field(b, y) == form.with_field(b, y).with_field(a, x),
{
}

/// A form that says nothing has nothing in any field.
pub proof fn a_silent_form_says_nothing(field: UploadTextField, value: Seq<char>)
    ensures
        ({
            let form = UploadFormText::silent();
            &&& form.filename is None && form.name is None && form.version is None && form.action is None
            &&& form.filetype is None && form.requires_python is None && form.sha256_digest is None
            &&& form.blake2_256_digest is None && form.md5_digest is None && form.attestations is None
            &&& form.license is None && form.license_expression is None && form.home_page is None
            &&& form.metadata_version is None
            &&& form.license_files.len() == 0 && form.provides_extra.len() == 0 && form.project_urls.len() == 0
        }),
{
}

/// Only license files, extras and project addresses may stand more than once, and attestations alone may be longer than
/// other fields.
pub proof fn fields_have_their_bounds(field: UploadTextField)
    ensures
        field.repeats() <==> field is LicenseFile || field is ProvidesExtra || field is ProjectUrl,
        field.most() == (if field is LicenseFile || field is ProvidesExtra || field is ProjectUrl {
            64int
        } else {
            1int
        }),
        field.limit() == (if field is Attestations {
            1_048_576usize
        } else {
            65_536usize
        }),
        field.from_filename() <==> field is Action || field is Name || field is Version || field is Filetype,
        0 <= field.place() < 16,
{
}

/// Each field has a count of its own.
pub proof fn fields_are_counted_apart(a: UploadTextField, b: UploadTextField)
    requires
        a != b,
    ensures
        a.place() != b.place(),
{
}

/// Each field is called by its name, and one that no field has is none.
pub proof fn fields_are_called_by_their_names(name: Seq<char>)
    ensures
        field_named(":action"@) == Some(UploadTextField::Action),
        field_named(name) == Some(UploadTextField::Action) ==> name == ":action"@,
        field_named(name) == Some(UploadTextField::MetadataVersion) ==> name == "metadata_version"@,
        field_named(name) == Some(UploadTextField::Name) ==> name == "name"@,
        field_named(name) == Some(UploadTextField::Version) ==> name == "version"@,
        field_named(name) == Some(UploadTextField::RequiresPython) ==> name == "requires_python"@,
        field_named(name) == Some(UploadTextField::License) ==> name == "license"@,
        field_named(name) == Some(UploadTextField::LicenseExpression) ==> name == "license_expression"@,
        field_named(name) == Some(UploadTextField::LicenseFile) ==> name == "license_file"@ || name == "license_files"@,
        field_named(name) == Some(UploadTextField::ProvidesExtra) ==> name == "provides_extra"@ || name
            == "provides_extras"@,
        field_named(name) == Some(UploadTextField::ProjectUrl) ==> name == "project_urls"@,
        field_named(name) == Some(UploadTextField::HomePage) ==> name == "home_page"@,
        field_named(name) == Some(UploadTextField::Filetype) ==> name == "filetype"@,
        field_named(name) == Some(UploadTextField::Sha256Digest) ==> name == "sha256_digest"@,
        field_named(name) == Some(UploadTextField::Blake2Digest) ==> name == "blake2_256_digest"@,
        field_named(name) == Some(UploadTextField::Md5Digest) ==> name == "md5_digest"@,
        field_named(name) == Some(UploadTextField::Attestations) ==> name == "attestations"@,
        field_named(name) is None <==> name != ":action"@ && name != "metadata_version"@ && name != "name"@ && name
            != "version"@ && name != "requires_python"@ && name != "license"@ && name != "license_expression"@ && name
            != "license_file"@ && name != "license_files"@ && name != "provides_extra"@ && name != "provides_extras"@
            && name != "project_urls"@ && name != "home_page"@ && name != "filetype"@ && name != "sha256_digest"@ && name
            != "blake2_256_digest"@ && name != "md5_digest"@ && name != "attestations"@,
{
}

// ---------------------------------------------------------------------------------------------
// The budget
// ---------------------------------------------------------------------------------------------

/// A part is counted exactly while there are fewer than a form may have, and nothing else changes.
pub proof fn parts_are_bounded(was: FormBudget, now: FormBudget, r: Result<(), Reply>)
    requires
        is_part_counted(was, now, r),
    ensures
        r is Ok <==> was.parts < 256,
        r is Ok ==> now.parts == was.parts + 1 && now.text_bytes == was.text_bytes && now.fields == was.fields,
        r is Err ==> now == was,
        r matches Err(answer) ==> answer.status == 400,
        now.parts <= 256,
{
}

/// A field is counted exactly while it may stand once more, and no other field's count changes.
pub proof fn fields_are_bounded(
    was: FormBudget,
    field: UploadTextField,
    name: Seq<char>,
    now: FormBudget,
    r: Result<(), Reply>,
    other: UploadTextField,
)
    requires
        is_field_counted(was, field, name, now, r),
        was.wf(),
    ensures
        r is Ok <==> was.fields@[field.place()] < (if field is LicenseFile || field is ProvidesExtra || field
            is ProjectUrl {
            64int
        } else {
            1int
        }),
        r is Ok ==> now.fields@[field.place()] == was.fields@[field.place()] + 1,
        r is Ok && other != field ==> now.fields@[other.place()] == was.fields@[other.place()],
        r is Err ==> now == was,
        r matches Err(answer) ==> answer.status == 400,
{
    assert(was.fields@[field.place()] <= was.parts);
}

/// Text is counted exactly while it stays within what a form may hold.
pub proof fn text_is_bounded(was: FormBudget, bytes: usize, now: FormBudget, r: Result<(), Reply>)
    requires
        is_text_counted(was, bytes, now, r),
    ensures
        r is Ok <==> was.text_bytes + bytes <= 2_097_152,
        r is Ok ==> now.text_bytes == was.text_bytes + bytes,
        r is Err ==> now == was,
        r matches Err(answer) ==> answer.status == 400,
        now.text_bytes <= 2_097_152,
{
}

// ---------------------------------------------------------------------------------------------
// Parts
// ---------------------------------------------------------------------------------------------

/// The content is staged, a field that the registry knows is read, and any other part is forgotten, while the form stays
/// within its bounds. The content comes once.
pub proof fn parts_are_read_as_what_they_are(
    was: FormReader,
    name: Seq<char>,
    file_name: Option<Seq<char>>,
    naming: Result<BrowserNaming, DistributionFilenameError>,
    now: FormReader,
    r: Result<PartStep, Reply>,
)
    requires
        is_part_begun(was, name, file_name, naming, now, r),
    ensures
        was.budget.parts >= 256 ==> r is Err,
        (r matches Ok(PartStep::Stage)) ==> name == "content"@ && !was.staged && now.staged && now.form@.filename
            == file_name,
        (r matches Ok(PartStep::Drain)) <==> was.budget.parts < 256 && name != "content"@ && field_named(name) is None,
        r matches Ok(PartStep::Text(field)) ==> name != "content"@ && field_named(name) == Some(field),
        was.budget.parts < 256 && name == "content"@ ==> (r is Err <==> was.staged || (was.browser && (file_name is None
            || naming is Err))),
        was.budget.parts < 256 && name != "content"@ ==> now.form == was.form && now.staged == was.staged,
        was.budget.parts < 256 ==> (field_named(name) matches Some(field) ==> (name != "content"@ ==> (r is Err <==> (
        was.budget.fields@[field.place()] >= field.most())))),
        r matches Err(answer) ==> answer.status == 400,
        r is Ok ==> now.budget.parts == was.budget.parts + 1,
{
}

/// A browser's form says what the filename says; what another client's fields say stands.
pub proof fn filenames_speak_for_browsers(
    was: FormReader,
    name: Seq<char>,
    file_name: Option<Seq<char>>,
    naming: Result<BrowserNaming, DistributionFilenameError>,
    now: FormReader,
    r: Result<PartStep, Reply>,
)
    requires
        is_part_begun(was, name, file_name, naming, now, r),
        r matches Ok(PartStep::Stage),
    ensures
        was.browser ==> naming is Ok && now.form@.name == Some(naming->Ok_0.name@) && now.form@.version == Some(
            naming->Ok_0.version@,
        ) && now.form@.filetype == Some(naming->Ok_0.filetype@) && now.form@.action == Some("file_upload"@),
        !was.browser ==> now.form@.name == was.form@.name && now.form@.version == was.form@.version
            && now.form@.filetype == was.form@.filetype && now.form@.action == was.form@.action,
        now.form@.requires_python == was.form@.requires_python,
        now.form@.sha256_digest == was.form@.sha256_digest,
        now.form@.blake2_256_digest == was.form@.blake2_256_digest,
        now.form@.md5_digest == was.form@.md5_digest,
        now.form@.attestations == was.form@.attestations,
        now.form@.license_files == was.form@.license_files,
        now.form@.provides_extra == was.form@.provides_extra,
        now.form@.project_urls == was.form@.project_urls,
        now.form@.metadata_version == was.form@.metadata_version,
{
}

/// A browser's file is refused exactly where it has no name or its name is no distribution's.
pub proof fn browsers_need_a_distribution_filename(
    filename: Option<Seq<char>>,
    naming: Result<BrowserNaming, DistributionFilenameError>,
    form: UploadFormText,
)
    ensures
        browser_refusal(filename, naming) is None <==> filename is Some && naming is Ok,
        browser_refusal(filename, naming) matches Some(answer) ==> answer.status == 400,
        naming matches Ok(named) ==> browser_completed(form, named).name == Some(named.name@) && browser_completed(
            form,
            named,
        ).filename == form.filename,
{
}

/// A field's text grows by what comes while both bounds hold, and is refused otherwise.
pub proof fn texts_grow_within_both_bounds(
    was: FormReader,
    field: UploadTextField,
    name: Seq<char>,
    bytes: Seq<u8>,
    chunk: Seq<u8>,
    now: FormReader,
    taken: Seq<u8>,
    r: Result<(), Reply>,
)
    requires
        is_text_taken(was, field, name, bytes, chunk, now, taken, r),
    ensures
        r is Ok <==> bytes.len() + chunk.len() <= (if field is Attestations {
            1_048_576int
        } else {
            65_536int
        }) && was.budget.text_bytes + chunk.len() <= 2_097_152,
        r is Ok ==> taken == bytes + chunk,
        r is Ok ==> now.budget.text_bytes == was.budget.text_bytes + chunk.len(),
        r matches Err(answer) ==> answer.status == 400,
        now.form == was.form,
{
}

/// What is forgotten counts all the same.
pub proof fn forgotten_parts_count(was: FormReader, bytes: usize, now: FormReader, r: Result<(), Reply>)
    requires
        is_drained(was, bytes, now, r),
    ensures
        r is Ok <==> was.budget.text_bytes + bytes <= 2_097_152,
        r is Ok ==> now.budget.text_bytes == was.budget.text_bytes + bytes,
        now.form == was.form,
{
}

/// A field's text is what its bytes spell, and refused where they spell none. A browser's form ignores the fields that
/// its filename decides.
pub proof fn fields_are_what_was_sent(
    was: FormReader,
    field: UploadTextField,
    bytes: Seq<u8>,
    now: FormReader,
    r: Result<(), Reply>,
)
    requires
        is_text_ended(was, field, bytes, now, r),
    ensures
        r is Ok <==> vstd::utf8::valid_utf8(bytes),
        r matches Err(answer) ==> answer.status == 400 && now.form == was.form,
        r is Ok && !was.browser ==> now.form@ == was.form@.with_field(field, vstd::utf8::decode_utf8(bytes)),
        r is Ok && was.browser && (field is Action || field is Name || field is Version || field is Filetype) ==> now.form@
            == was.form@,
        r is Ok && was.browser && !(field is Action || field is Name || field is Version || field is Filetype)
            ==> now.form@ == was.form@.with_field(field, vstd::utf8::decode_utf8(bytes)),
        now.budget == was.budget,
{
}

// ---------------------------------------------------------------------------------------------
// Content
// ---------------------------------------------------------------------------------------------

/// Content is staged exactly where it declares no more than the limit, and there is none where no limit is set.
pub proof fn staging_begins_within_the_limit(
    max_file_size: Option<u64>,
    declared: Option<u64>,
    form: UploadFormText,
    project: Seq<char>,
    action: Seq<char>,
    r: Result<Staging, Reply>,
)
    requires
        is_staging_begun(max_file_size, declared, form, project, action, r),
    ensures
        r is Err <==> max_file_size is Some && declared is Some && declared->0 > max_file_size->0,
        r matches Ok(staging) ==> staging.size == 0 && staging.content().len() == 0 && staging.limit == (
        match max_file_size {
            Some(limit) => limit,
            None => u64::MAX,
        }),
        r matches Err(answer) ==> answer.status == 403,
{
}

/// Content is staged whole and in its order while it stays within the limit, and is refused as soon as it does not.
pub proof fn content_is_staged_within_the_limit(
    was: Staging,
    chunk: Seq<u8>,
    form: UploadFormText,
    project: Seq<char>,
    action: Seq<char>,
    now: Staging,
    r: Result<(), Reply>,
)
    requires
        is_chunk_staged(was, chunk, form, project, action, now, r),
    ensures
        r is Ok <==> was.size + chunk.len() <= was.limit || was.limit == u64::MAX,
        r is Ok ==> now.content() == was.content() + chunk,
        r is Ok && was.size + chunk.len() <= u64::MAX ==> now.size == was.size + chunk.len(),
        now.limit == was.limit,
        r matches Err(answer) ==> answer.status == 403,
{
}

/// Content that is too large is denied for its size, with its size and the limit told.
pub proof fn oversized_content_is_told(
    project: Seq<char>,
    filename: Option<Seq<char>>,
    version: Option<Seq<char>>,
    size: u64,
    limit: u64,
)
    ensures
        ({
            let denial = oversize_denial(project, filename, version, size, limit);
            &&& denial.resource == project
            &&& denial.artifact == filename
            &&& denial.group == version
            &&& denial.rule == "max-file-size"@
            &&& denial.field == "size"@
            &&& denial.reason == "file size "@ + decimal(size as nat) + " exceeds limit "@ + decimal(limit as nat)
        }),
{
}

/// Each byte is two hex digits, in the order of the bytes.
pub proof fn bytes_are_two_digits_each(bytes: Seq<u8>, i: int)
    requires
        0 <= i < bytes.len(),
    ensures
        hex_text(bytes).len() == 2 * bytes.len(),
        hex_text(bytes)[2 * i] == hex_digit(bytes[i] as int / 16),
        hex_text(bytes)[2 * i + 1] == hex_digit(bytes[i] as int % 16),
    decreases bytes.len(),
{
    let shorter = bytes.drop_last();
    if shorter.len() > 0 {
        bytes_are_two_digits_each(shorter, if i < shorter.len() {
            i
        } else {
            0
        });
    }
    assert(hex_text(bytes).len() == hex_text(shorter).len() + 2);
    if i < shorter.len() {
        assert(shorter[i] == bytes[i]);
    }
}

/// Hex digits are the ten figures and the first six small letters.
pub proof fn hex_digits_are_lowercase(n: int)
    requires
        0 <= n < 16,
    ensures
        hex_digit(n) == seq!['0', '1', '2', '3', '4', '5', '6', '7', '8', '9', 'a', 'b', 'c', 'd', 'e', 'f'][n],
{
}

// ---------------------------------------------------------------------------------------------
// Errors
// ---------------------------------------------------------------------------------------------

/// A refused upload is the client's fault, but for a clock that no upload can be dated by.
pub proof fn refused_uploads_are_the_clients_fault(error: UploadError)
    ensures
        upload_error_status(error) == (if error is InvalidUploadTime {
            500u16
        } else {
            400u16
        }),
{
}

/// Two values that differ are told apart: what the artifact says, and what the upload says.
pub proof fn mismatches_tell_both_values(error: UploadError)
    ensures
        error matches UploadError::FilenameNameMismatch { of_filename, form } ==> upload_error_text(error)
            == "filename project "@ + quoted_text(of_filename@) + " does not match upload name "@ + quoted_text(form@),
        error matches UploadError::FilenameVersionMismatch { of_filename, form } ==> upload_error_text(error)
            == "filename version "@ + quoted_text(of_filename@) + " does not match upload version "@ + quoted_text(form@),
        error matches UploadError::FiletypeMismatch { expected, actual } ==> upload_error_text(error) == "filetype "@
            + quoted_text(actual@) + " does not match filename; expected "@ + quoted_text(expected@),
        error matches UploadError::MetadataNameMismatch { metadata, form } ==> upload_error_text(error)
            == "metadata Name "@ + quoted_text(metadata@) + " does not match upload name "@ + quoted_text(form@),
        error matches UploadError::MetadataVersionMismatch { metadata, form } ==> upload_error_text(error)
            == "metadata Version "@ + quoted_text(metadata@) + " does not match upload version "@ + quoted_text(form@),
        error matches UploadError::DigestMismatch(field) ==> upload_error_text(error) == field@ + " mismatch"@,
        error matches UploadError::Missing(field) ==> upload_error_text(error) == "missing required field: "@ + field@,
        error matches UploadError::InvalidDistributionFilename { filename, error: why } ==> upload_error_text(error)
            == "invalid distribution filename "@ + quoted_text(filename@) + ": "@ + filename_error_text(why),
{
}

} // verus!
