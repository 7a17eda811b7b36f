//! Reading an upload form, within bounds on everything one request can make the registry hold.
use vstd::prelude::*;

use crate::outside::{
    blake2_256, blake2_begin, blake2_finish, blake2_take, blake2_taken, quoted, quoted_text, utf8_error,
    utf8_error_text, utf8_text, Blake2Hasher,
};
use crate::policy::{DenialText, PolicyAction, PolicyDenial};
use crate::serving::reply::{plain, reply, Reply, ReplyText, BAD_REQUEST, INTERNAL_SERVER_ERROR};
use crate::serving::response::{denial_reply, policy_denial_response};
use crate::text::{bytes_clone, decimal, decimal_text, opt_clone, opt_str, opt_text, text_eq, texts};

verus! {

pub const MAX_UPLOAD_TEXT_FIELD_BYTES: usize = 65_536;

/// One attestation bundle may use half of this; the other half is the same bounded share for all other
/// retained metadata.
pub const MAX_UPLOAD_TEXT_BYTES: usize = 2_097_152;

/// Three repeatable metadata fields may each reach their own limit, leaving 64 parts for scalar and ignored
/// fields.
pub const MAX_UPLOAD_PARTS: usize = 256;

/// A 64-entry cap admits long repeated metadata lists without unbounded growth.
pub const MAX_UPLOAD_REPEATED_FIELDS: usize = 64;

/// The cap on the attestations field, which carries certificates and transparency proofs.
pub const MAX_ATTESTATIONS_FIELD_BYTES: usize = 1_048_576;

pub const REQUEST_TIMEOUT: u16 = 408;

// ---------------------------------------------------------------------------------------------
// Fields
// ---------------------------------------------------------------------------------------------

/// A text field that the registry reads.
#[derive(Debug, Clone, Copy, PartialEq, Eq, Structural)]
pub enum UploadTextField {
    Action,
    MetadataVersion,
    Name,
    Version,
    RequiresPython,
    License,
    LicenseExpression,
    LicenseFile,
    ProvidesExtra,
    ProjectUrl,
    HomePage,
    Filetype,
    Sha256Digest,
    Blake2Digest,
    Md5Digest,
    Attestations,
}

/// How many fields there are.
pub const FIELD_COUNT: usize = 16;

impl UploadTextField {
    /// The field's place among the counts.
    pub open spec fn place(self) -> int {
        match self {
            UploadTextField::Action => 0,
            UploadTextField::MetadataVersion => 1,
            UploadTextField::Name => 2,
            UploadTextField::Version => 3,
            UploadTextField::RequiresPython => 4,
            UploadTextField::License => 5,
            UploadTextField::LicenseExpression => 6,
            UploadTextField::LicenseFile => 7,
            UploadTextField::ProvidesExtra => 8,
            UploadTextField::ProjectUrl => 9,
            UploadTextField::HomePage => 10,
            UploadTextField::Filetype => 11,
            UploadTextField::Sha256Digest => 12,
            UploadTextField::Blake2Digest => 13,
            UploadTextField::Md5Digest => 14,
            UploadTextField::Attestations => 15,
        }
    }

    fn place_of(self) -> (r: usize)
        ensures
            r == self.place(),
            r < FIELD_COUNT,
    {
        match self {
            UploadTextField::Action => 0,
            UploadTextField::MetadataVersion => 1,
            UploadTextField::Name => 2,
            UploadTextField::Version => 3,
            UploadTextField::RequiresPython => 4,
            UploadTextField::License => 5,
            UploadTextField::LicenseExpression => 6,
            UploadTextField::LicenseFile => 7,
            UploadTextField::ProvidesExtra => 8,
            UploadTextField::ProjectUrl => 9,
            UploadTextField::HomePage => 10,
            UploadTextField::Filetype => 11,
            UploadTextField::Sha256Digest => 12,
            UploadTextField::Blake2Digest => 13,
            UploadTextField::Md5Digest => 14,
            UploadTextField::Attestations => 15,
        }
    }

    /// Whether the field may stand in a form more than once.
    pub open spec fn repeats(self) -> bool {
        self is LicenseFile || self is ProvidesExtra || self is ProjectUrl
    }

    /// How often the field may stand in a form.
    pub open spec fn most(self) -> int {
        if self.repeats() {
            MAX_UPLOAD_REPEATED_FIELDS as int
        } else {
            1
        }
    }

    /// Whether the field may stand in a form more than once.
    pub fn is_repeated(self) -> (r: bool)
        ensures
            r == self.repeats(),
    {
        matches!(self, UploadTextField::LicenseFile | UploadTextField::ProvidesExtra | UploadTextField::ProjectUrl)
    }

    /// Whether a browser's form gets the field from the filename instead.
    pub open spec fn from_filename(self) -> bool {
        self is Action || self is Name || self is Version || self is Filetype
    }

    /// Whether a browser's form gets the field from the filename instead.
    pub fn browser_derived(self) -> (r: bool)
        ensures
            r == self.from_filename(),
    {
        matches!(
            self,
            UploadTextField::Action | UploadTextField::Name | UploadTextField::Version | UploadTextField::Filetype
        )
    }

    /// The most bytes the field may hold.
    pub open spec fn limit(self) -> usize {
        if self is Attestations {
            MAX_ATTESTATIONS_FIELD_BYTES
        } else {
            MAX_UPLOAD_TEXT_FIELD_BYTES
        }
    }

    /// The most bytes the field may hold.
    pub fn text_field_limit(self) -> (r: usize)
        ensures
            r == self.limit(),
    {
        match self {
            UploadTextField::Attestations => MAX_ATTESTATIONS_FIELD_BYTES,
            _ => MAX_UPLOAD_TEXT_FIELD_BYTES,
        }
    }
}

/// The field that a form calls `name`.
pub open spec fn field_named(name: Seq<char>) -> Option<UploadTextField> {
    if name == ":action"@ {
        Some(UploadTextField::Action)
    } else if name == "metadata_version"@ {
        Some(UploadTextField::MetadataVersion)
    } else if name == "name"@ {
        Some(UploadTextField::Name)
    } else if name == "version"@ {
        Some(UploadTextField::Version)
    } else if name == "requires_python"@ {
        Some(UploadTextField::RequiresPython)
    } else if name == "license"@ {
        Some(UploadTextField::License)
    } else if name == "license_expression"@ {
        Some(UploadTextField::LicenseExpression)
    } else if name == "license_file"@ || name == "license_files"@ {
        Some(UploadTextField::LicenseFile)
    } else if name == "provides_extra"@ || name == "provides_extras"@ {
        Some(UploadTextField::ProvidesExtra)
    } else if name == "project_urls"@ {
        Some(UploadTextField::ProjectUrl)
    } else if name == "home_page"@ {
        Some(UploadTextField::HomePage)
    } else if name == "filetype"@ {
        Some(UploadTextField::Filetype)
    } else if name == "sha256_digest"@ {
        Some(UploadTextField::Sha256Digest)
    } else if name == "blake2_256_digest"@ {
        Some(UploadTextField::Blake2Digest)
    } else if name == "md5_digest"@ {
        Some(UploadTextField::Md5Digest)
    } else if name == "attestations"@ {
        Some(UploadTextField::Attestations)
    } else {
        None
    }
}

/// The field that a form calls `name`.
pub fn upload_text_field(name: &str) -> (r: Option<UploadTextField>)
    ensures
        r == field_named(name@),
{
    if text_eq(name, ":action") {
        Some(UploadTextField::Action)
    } else if text_eq(name, "metadata_version") {
        Some(UploadTextField::MetadataVersion)
    } else if text_eq(name, "name") {
        Some(UploadTextField::Name)
    } else if text_eq(name, "version") {
        Some(UploadTextField::Version)
    } else if text_eq(name, "requires_python") {
        Some(UploadTextField::RequiresPython)
    } else if text_eq(name, "license") {
        Some(UploadTextField::License)
    } else if text_eq(name, "license_expression") {
        Some(UploadTextField::LicenseExpression)
    } else if text_eq(name, "license_file") || text_eq(name, "license_files") {
        Some(UploadTextField::LicenseFile)
    } else if text_eq(name, "provides_extra") || text_eq(name, "provides_extras") {
        Some(UploadTextField::ProvidesExtra)
    } else if text_eq(name, "project_urls") {
        Some(UploadTextField::ProjectUrl)
    } else if text_eq(name, "home_page") {
        Some(UploadTextField::HomePage)
    } else if text_eq(name, "filetype") {
        Some(UploadTextField::Filetype)
    } else if text_eq(name, "sha256_digest") {
        Some(UploadTextField::Sha256Digest)
    } else if text_eq(name, "blake2_256_digest") {
        Some(UploadTextField::Blake2Digest)
    } else if text_eq(name, "md5_digest") {
        Some(UploadTextField::Md5Digest)
    } else if text_eq(name, "attestations") {
        Some(UploadTextField::Attestations)
    } else {
        None
    }
}

/// What an upload form says.
pub struct UploadForm {
    pub filename: Option<String>,
    pub action: Option<String>,
    pub metadata_version: Option<String>,
    pub name: Option<String>,
    pub version: Option<String>,
    pub requires_python: Option<String>,
    pub license: Option<String>,
    pub license_expression: Option<String>,
    pub license_files: Vec<String>,
    pub provides_extra: Vec<String>,
    pub project_urls: Vec<String>,
    pub home_page: Option<String>,
    pub filetype: Option<String>,
    pub sha256_digest: Option<String>,
    pub blake2_256_digest: Option<String>,
    pub md5_digest: Option<String>,
    pub attestations: Option<String>,
}

/// A form, its text seen as characters.
pub struct UploadFormText {
    pub filename: Option<Seq<char>>,
    pub action: Option<Seq<char>>,
    pub metadata_version: Option<Seq<char>>,
    pub name: Option<Seq<char>>,
    pub version: Option<Seq<char>>,
    pub requires_python: Option<Seq<char>>,
    pub license: Option<Seq<char>>,
    pub license_expression: Option<Seq<char>>,
    pub license_files: Seq<Seq<char>>,
    pub provides_extra: Seq<Seq<char>>,
    pub project_urls: Seq<Seq<char>>,
    pub home_page: Option<Seq<char>>,
    pub filetype: Option<Seq<char>>,
    pub sha256_digest: Option<Seq<char>>,
    pub blake2_256_digest: Option<Seq<char>>,
    pub md5_digest: Option<Seq<char>>,
    pub attestations: Option<Seq<char>>,
}

impl UploadForm {
    pub open spec fn view(self) -> UploadFormText {
        UploadFormText {
            filename: opt_text(self.filename),
            action: opt_text(self.action),
            metadata_version: opt_text(self.metadata_version),
            name: opt_text(self.name),
            version: opt_text(self.version),
            requires_python: opt_text(self.requires_python),
            license: opt_text(self.license),
            license_expression: opt_text(self.license_expression),
            license_files: texts(self.license_files@),
            provides_extra: texts(self.provides_extra@),
            project_urls: texts(self.project_urls@),
            home_page: opt_text(self.home_page),
            filetype: opt_text(self.filetype),
            sha256_digest: opt_text(self.sha256_digest),
            blake2_256_digest: opt_text(self.blake2_256_digest),
            md5_digest: opt_text(self.md5_digest),
            attestations: opt_text(self.attestations),
        }
    }

    /// A form that says nothing.
    pub fn new() -> (r: Self)
        ensures
            r@ == UploadFormText::silent(),
    {
        let r = UploadForm {
            filename: None,
            action: None,
            metadata_version: None,
            name: None,
            version: None,
            requires_python: None,
            license: None,
            license_expression: None,
            license_files: Vec::new(),
            provides_extra: Vec::new(),
            project_urls: Vec::new(),
            home_page: None,
            filetype: None,
            sha256_digest: None,
            blake2_256_digest: None,
            md5_digest: None,
            attestations: None,
        };
        assert(texts(r.license_files@) =~= Seq::<Seq<char>>::empty());
        assert(texts(r.provides_extra@) =~= Seq::<Seq<char>>::empty());
        assert(texts(r.project_urls@) =~= Seq::<Seq<char>>::empty());
        r
    }
}

impl UploadFormText {
    /// A form that says nothing.
    pub open spec fn silent() -> UploadFormText {
        UploadFormText {
            filename: None,
            action: None,
            metadata_version: None,
            name: None,
            version: None,
            requires_python: None,
            license: None,
            license_expression: None,
            license_files: Seq::empty(),
            provides_extra: Seq::empty(),
            project_urls: Seq::empty(),
            home_page: None,
            filetype: None,
            sha256_digest: None,
            blake2_256_digest: None,
            md5_digest: None,
            attestations: None,
        }
    }

    /// The form with a field set, or with one more entry of a field that repeats.
    pub open spec fn with_field(self, field: UploadTextField, value: Seq<char>) -> UploadFormText {
        match field {
            UploadTextField::Action => UploadFormText { action: Some(value), ..self },
            UploadTextField::MetadataVersion => UploadFormText { metadata_version: Some(value), ..self },
            UploadTextField::Name => UploadFormText { name: Some(value), ..self },
            UploadTextField::Version => UploadFormText { version: Some(value), ..self },
            UploadTextField::RequiresPython => UploadFormText { requires_python: Some(value), ..self },
            UploadTextField::License => UploadFormText { license: Some(value), ..self },
            UploadTextField::LicenseExpression => UploadFormText { license_expression: Some(value), ..self },
            UploadTextField::LicenseFile => UploadFormText { license_files: self.license_files.push(value), ..self },
            UploadTextField::ProvidesExtra => UploadFormText { provides_extra: self.provides_extra.push(value), ..self },
            UploadTextField::ProjectUrl => UploadFormText { project_urls: self.project_urls.push(value), ..self },
            UploadTextField::HomePage => UploadFormText { home_page: Some(value), ..self },
            UploadTextField::Filetype => UploadFormText { filetype: Some(value), ..self },
            UploadTextField::Sha256Digest => UploadFormText { sha256_digest: Some(value), ..self },
            UploadTextField::Blake2Digest => UploadFormText { blake2_256_digest: Some(value), ..self },
            UploadTextField::Md5Digest => UploadFormText { md5_digest: Some(value), ..self },
            UploadTextField::Attestations => UploadFormText { attestations: Some(value), ..self },
        }
    }
}

/// Set a field of a form.
pub fn set_upload_text_field(form: &mut UploadForm, field: UploadTextField, value: String)
    ensures
        final(form)@ == old(form)@.with_field(field, value@),
{
    let ghost before = *form;
    let ghost v = value@;
    match field {
        UploadTextField::Action => form.action = Some(value),
        UploadTextField::MetadataVersion => form.metadata_version = Some(value),
        UploadTextField::Name => form.name = Some(value),
        UploadTextField::Version => form.version = Some(value),
        UploadTextField::RequiresPython => form.requires_python = Some(value),
        UploadTextField::License => form.license = Some(value),
        UploadTextField::LicenseExpression => form.license_expression = Some(value),
        UploadTextField::LicenseFile => {
            form.license_files.push(value);
            assert(texts(form.license_files@) =~= texts(before.license_files@).push(v));
        },
        UploadTextField::ProvidesExtra => {
            form.provides_extra.push(value);
            assert(texts(form.provides_extra@) =~= texts(before.provides_extra@).push(v));
        },
        UploadTextField::ProjectUrl => {
            form.project_urls.push(value);
            assert(texts(form.project_urls@) =~= texts(before.project_urls@).push(v));
        },
        UploadTextField::HomePage => form.home_page = Some(value),
        UploadTextField::Filetype => form.filetype = Some(value),
        UploadTextField::Sha256Digest => form.sha256_digest = Some(value),
        UploadTextField::Blake2Digest => form.blake2_256_digest = Some(value),
        UploadTextField::Md5Digest => form.md5_digest = Some(value),
        UploadTextField::Attestations => form.attestations = Some(value),
    }
}

// ---------------------------------------------------------------------------------------------
// The budget
// ---------------------------------------------------------------------------------------------

/// What a client is told of a form that cannot be read.
pub open spec fn rejection(reason: Seq<char>) -> ReplyText {
    plain(BAD_REQUEST, "bad upload: "@ + reason)
}

/// Answer a form that cannot be read.
pub fn reject(reason: &str) -> (r: Reply)
    ensures
        r@ == rejection(reason@),
{
    let mut body = "bad upload: ".to_owned();
    body.append(reason);
    reply(BAD_REQUEST, body.as_str())
}

/// Answer a body that stopped arriving. `after` says how long nothing came: repeating the upload is the
/// right move, while a malformed form repeated unchanged fails again.
pub fn reject_stalled(after: &str) -> (r: Reply)
    ensures
        r@ == plain(REQUEST_TIMEOUT, "upload stopped: the request body sent nothing for "@ + after@),
{
    let mut body = "upload stopped: the request body sent nothing for ".to_owned();
    body.append(after);
    reply(REQUEST_TIMEOUT, body.as_str())
}

/// Answer an upload that could not be staged.
pub fn storage_reject(error: &str) -> (r: Reply)
    ensures
        r@ == plain(INTERNAL_SERVER_ERROR, "upload staging: blob store error: "@ + error@),
{
    let mut body = "upload staging: blob store error: ".to_owned();
    body.append(error);
    reply(INTERNAL_SERVER_ERROR, body.as_str())
}

/// What a form has used so far.
pub struct FormBudget {
    pub parts: usize,
    pub text_bytes: usize,
    pub fields: Vec<usize>,
}

/// Whether counting one more part takes the budget from `was` to `now`.
pub open spec fn is_part_counted(was: FormBudget, now: FormBudget, r: Result<(), Reply>) -> bool {
    &&& now.wf()
    &&& now.text_bytes == was.text_bytes
    &&& now.fields == was.fields
    &&& (if was.parts < MAX_UPLOAD_PARTS {
        r is Ok && now.parts == was.parts + 1
    } else {
        r matches Err(answer) && answer@ == rejection("upload has more than 256 parts"@) && now == was
    })
}

/// Whether counting one more field takes the budget from `was` to `now`.
pub open spec fn is_field_counted(was: FormBudget, field: UploadTextField, name: Seq<char>, now: FormBudget, r: Result<(), Reply>) -> bool {
    &&& now.wf()
    &&& now.text_bytes == was.text_bytes
    &&& now.parts == was.parts
    &&& (if was.fields@[field.place()] < field.most() {
        r is Ok && now.fields@ == was.fields@.update(
            field.place(),
            (was.fields@[field.place()] + 1) as usize,
        )
    } else {
        r matches Err(answer) && answer@ == too_often(field, name) && now == was
    })
}

/// Whether counting more bytes of text takes the budget from `was` to `now`.
pub open spec fn is_text_counted(was: FormBudget, bytes: usize, now: FormBudget, r: Result<(), Reply>) -> bool {
    &&& now.wf()
    &&& now.parts == was.parts
    &&& now.fields == was.fields
    &&& (if was.text_bytes + bytes <= MAX_UPLOAD_TEXT_BYTES {
        r is Ok && now.text_bytes == was.text_bytes + bytes
    } else {
        r matches Err(answer) && answer@ == rejection("upload text fields exceed 2097152 bytes"@) && now
            == was
    })
}

impl FormBudget {
    /// Whether nothing has outgrown its limit.
    pub open spec fn wf(self) -> bool {
        &&& self.parts <= MAX_UPLOAD_PARTS
        &&& self.text_bytes <= MAX_UPLOAD_TEXT_BYTES
        &&& self.fields@.len() == FIELD_COUNT
        &&& forall|i: int| 0 <= i < self.fields@.len() ==> #[trigger] self.fields@[i] <= self.parts
    }

    /// A budget of which nothing is used.
    pub fn new() -> (r: Self)
        ensures
            r.wf(),
            r.parts == 0,
            r.text_bytes == 0,
            forall|i: int| 0 <= i < r.fields@.len() ==> #[trigger] r.fields@[i] == 0,
    {
        let mut fields: Vec<usize> = Vec::new();
        let mut i: usize = 0;
        while i < FIELD_COUNT
            invariant
                i <= FIELD_COUNT,
                fields@.len() == i,
                forall|j: int| 0 <= j < i ==> #[trigger] fields@[j] == 0,
            decreases FIELD_COUNT - i,
        {
            fields.push(0);
            i = i + 1;
        }
        FormBudget { parts: 0, text_bytes: 0, fields }
    }

    /// Count one more part.
    pub fn add_part(&mut self) -> (r: Result<(), Reply>)
        requires
            old(self).wf(),
        ensures
            is_part_counted(*old(self), *final(self), r),
    {
        if self.parts >= MAX_UPLOAD_PARTS {
            return Err(reject("upload has more than 256 parts"));
        }
        self.parts = self.parts + 1;
        Ok(())
    }

    /// Count one more field of a kind, within the part that was counted last.
    pub fn add_field(&mut self, field: UploadTextField, name: &str) -> (r: Result<(), Reply>)
        requires
            old(self).wf(),
            old(self).fields@[field.place()] < old(self).parts,
        ensures
            is_field_counted(*old(self), field, name@, *final(self), r),
    {
        let place: usize = field.place_of();
        let limit: usize = if field.is_repeated() {
            MAX_UPLOAD_REPEATED_FIELDS
        } else {
            1
        };
        let count: usize = self.fields[place];
        if count < limit {
            self.fields.set(place, count + 1);
            return Ok(());
        }
        let shown = quoted(name);
        let mut reason = if limit == 1 {
            "duplicate upload field ".to_owned()
        } else {
            "upload field ".to_owned()
        };
        reason.append(shown.as_str());
        if limit != 1 {
            reason.append(" appears more than 64 times");
        }
        Err(reject(reason.as_str()))
    }

    /// Count more bytes of text.
    pub fn add_text(&mut self, bytes: usize) -> (r: Result<(), Reply>)
        requires
            old(self).wf(),
        ensures
            is_text_counted(*old(self), bytes, *final(self), r),
    {
        if self.text_bytes.saturating_add(bytes) > MAX_UPLOAD_TEXT_BYTES {
            return Err(reject("upload text fields exceed 2097152 bytes"));
        }
        self.text_bytes = self.text_bytes + bytes;
        Ok(())
    }
}

/// What a client is told of a field that stands too often.
pub open spec fn too_often(field: UploadTextField, name: Seq<char>) -> ReplyText {
    if field.repeats() {
        rejection("upload field "@ + quoted_text(name) + " appears more than 64 times"@)
    } else {
        rejection("duplicate upload field "@ + quoted_text(name))
    }
}

// ---------------------------------------------------------------------------------------------
// Reading the form, part by part
// ---------------------------------------------------------------------------------------------

/// What a browser's upload is named by its filename.
pub struct BrowserNaming {
    pub name: String,
    pub version: String,
    pub filetype: String,
}

/// A form as far as it is read.
pub struct FormReader {
    pub form: UploadForm,
    /// Whether the content has come.
    pub staged: bool,
    pub budget: FormBudget,
    /// Whether a browser sent it.
    pub browser: bool,
}

/// What to do with a part.
pub enum PartStep {
    /// Stage the content.
    Stage,
    /// Read the part as a field's text, up to a limit.
    Text(UploadTextField),
    /// Read the part and forget it.
    Drain,
}

/// What a browser's form says once its file is known: what the filename says, whatever its fields said.
pub open spec fn browser_completed(form: UploadFormText, naming: BrowserNaming) -> UploadFormText {
    UploadFormText {
        action: Some("file_upload"@),
        name: Some(naming.name@),
        version: Some(naming.version@),
        filetype: Some(naming.filetype@),
        ..form
    }
}

/// Why a browser's file gives no form.
pub open spec fn browser_refusal(
    filename: Option<Seq<char>>,
    naming: Result<BrowserNaming, DistributionFilenameError>,
) -> Option<ReplyText> {
    match filename {
        None => Some(plain(BAD_REQUEST, "missing required field: "@ + "filename"@)),
        Some(filename) => match naming {
            Err(error) => Some(
                plain(
                    BAD_REQUEST,
                    "invalid distribution filename "@ + quoted_text(filename) + ": "@ + filename_error_text(error),
                ),
            ),
            Ok(_) => None,
        },
    }
}

/// Complete a browser's form from its filename. `naming` is what the filename parses to.
pub fn complete_browser_form(form: &mut UploadForm, naming: Result<BrowserNaming, DistributionFilenameError>) -> (r:
    Result<(), Reply>)
    ensures
        match browser_refusal(old(form)@.filename, naming) {
            Some(answer) => r matches Err(a) && a@ == answer && *final(form) == *old(form),
            None => r is Ok && final(form)@ == browser_completed(old(form)@, naming->Ok_0),
        },
{
    let filename: String = match &form.filename {
        Some(filename) => filename.clone(),
        None => {
            return Err(upload_error_response(&UploadError::Missing("filename")));
        },
    };
    match naming {
        Err(error) => Err(upload_error_response(&UploadError::InvalidDistributionFilename { filename, error })),
        Ok(naming) => {
            form.action = Some("file_upload".to_owned());
            form.name = Some(naming.name);
            form.version = Some(naming.version);
            form.filetype = Some(naming.filetype);
            Ok(())
        },
    }
}

/// Whether beginning a part takes the reader from `was` to `now`, and `r` says what to do with the part.
pub open spec fn is_part_begun(
    was: FormReader,
    name: Seq<char>,
    file_name: Option<Seq<char>>,
    naming: Result<BrowserNaming, DistributionFilenameError>,
    now: FormReader,
    r: Result<PartStep, Reply>,
) -> bool {
    &&& now.budget.wf()
    &&& now.browser == was.browser
    &&& now.budget.text_bytes == was.budget.text_bytes
    &&& (if was.budget.parts >= MAX_UPLOAD_PARTS {
        r matches Err(answer) && answer@ == rejection("upload has more than 256 parts"@) && now
            == was
    } else {
        &&& now.budget.parts == was.budget.parts + 1
        &&& now.budget.fields@ == (match r {
            Ok(PartStep::Text(field)) => was.budget.fields@.update(
                field.place(),
                (was.budget.fields@[field.place()] + 1) as usize,
            ),
            _ => was.budget.fields@,
        })
        &&& if name == "content"@ {
            if was.staged {
                r matches Err(answer) && answer@ == rejection("duplicate content field"@)
            } else if was.browser && browser_refusal(file_name, naming) is Some {
                r matches Err(answer) && answer@ == browser_refusal(file_name, naming)->0
            } else {
                &&& r matches Ok(PartStep::Stage)
                &&& now.staged
                &&& now.form@ == (if was.browser {
                    browser_completed(
                        UploadFormText { filename: file_name, ..was.form@ },
                        naming->Ok_0,
                    )
                } else {
                    UploadFormText { filename: file_name, ..was.form@ }
                })
            }
        } else {
            &&& now.form == was.form
            &&& now.staged == was.staged
            &&& match field_named(name) {
                Some(field) => if was.budget.fields@[field.place()] < field.most() {
                    r matches Ok(PartStep::Text(f)) && f == field
                } else {
                    r matches Err(answer) && answer@ == too_often(field, name)
                },
                None => r matches Ok(PartStep::Drain),
            }
        }
    })
}

/// Whether taking in a chunk of a field's text takes the reader from `was` to `now`, and its bytes to `taken`.
pub open spec fn is_text_taken(
    was: FormReader,
    field: UploadTextField,
    name: Seq<char>,
    bytes: Seq<u8>,
    chunk: Seq<u8>,
    now: FormReader,
    taken: Seq<u8>,
    r: Result<(), Reply>,
) -> bool {
    &&& now.budget.wf()
    &&& now.form == was.form
    &&& now.staged == was.staged
    &&& now.browser == was.browser
    &&& now.budget.parts == was.budget.parts
    &&& now.budget.fields == was.budget.fields
    &&& (if bytes.len() + chunk.len() > field.limit() {
        r matches Err(answer) && answer@ == plain(
            BAD_REQUEST,
            "upload field "@ + quoted_text(name) + " exceeds "@ + decimal(field.limit() as nat) + " bytes"@,
        )
    } else if was.budget.text_bytes + chunk.len() > MAX_UPLOAD_TEXT_BYTES {
        r matches Err(answer) && answer@ == rejection("upload text fields exceed 2097152 bytes"@)
    } else {
        r is Ok && taken == bytes + chunk && now.budget.text_bytes == was.budget.text_bytes + chunk.len()
    })
}

/// Whether taking in a chunk of a forgotten part takes the reader from `was` to `now`.
pub open spec fn is_drained(was: FormReader, bytes: usize, now: FormReader, r: Result<(), Reply>) -> bool {
    &&& now.budget.wf()
    &&& now.form == was.form
    &&& now.staged == was.staged
    &&& now.browser == was.browser
    &&& now.budget.parts == was.budget.parts
    &&& now.budget.fields == was.budget.fields
    &&& (if was.budget.text_bytes + bytes > MAX_UPLOAD_TEXT_BYTES {
        r matches Err(answer) && answer@ == rejection("upload text fields exceed 2097152 bytes"@)
    } else {
        r is Ok && now.budget.text_bytes == was.budget.text_bytes + bytes
    })
}

/// Whether ending a field's text takes the reader from `was` to `now`.
pub open spec fn is_text_ended(was: FormReader, field: UploadTextField, bytes: Seq<u8>, now: FormReader, r: Result<(), Reply>) -> bool {
    &&& now.budget == was.budget
    &&& now.staged == was.staged
    &&& now.browser == was.browser
    &&& (if !vstd::utf8::valid_utf8(bytes) {
        r matches Err(answer) && answer@ == rejection(utf8_error(bytes)) && now.form == was.form
    } else {
        r is Ok && now.form@ == (if was.browser && (field is Action || field is Name || field
            is Version || field is Filetype) {
            was.form@
        } else {
            was.form@.with_field(field, vstd::utf8::decode_utf8(bytes))
        })
    })
}

impl FormReader {
    /// Before the first part.
    pub fn new(browser: bool) -> (r: Self)
        ensures
            r.form@ == UploadFormText::silent(),
            !r.staged,
            r.budget.wf(),
            r.budget.parts == 0,
            r.budget.text_bytes == 0,
            forall|i: int| 0 <= i < r.budget.fields@.len() ==> #[trigger] r.budget.fields@[i] == 0,
            r.browser == browser,
    {
        FormReader { form: UploadForm::new(), staged: false, budget: FormBudget::new(), browser }
    }

    /// Begin a part. For the content, `file_name` is its filename and `naming` what that parses to, which
    /// only a browser's upload reads.
    pub fn begin_part(
        &mut self,
        name: &str,
        file_name: Option<&str>,
        naming: Result<BrowserNaming, DistributionFilenameError>,
    ) -> (r: Result<PartStep, Reply>)
        requires
            old(self).budget.wf(),
        ensures
            is_part_begun(*old(self), name@, opt_str(file_name), naming, *final(self), r),
    {
        match self.budget.add_part() {
            Ok(_) => {},
            Err(answer) => {
                return Err(answer);
            },
        }
        if text_eq(name, "content") {
            if self.staged {
                return Err(reject("duplicate content field"));
            }
            self.form.filename = crate::text::opt_to_owned(file_name);
            if self.browser {
                match complete_browser_form(&mut self.form, naming) {
                    Ok(_) => {},
                    Err(answer) => {
                        return Err(answer);
                    },
                }
            }
            self.staged = true;
            return Ok(PartStep::Stage);
        }
        match upload_text_field(name) {
            Some(field) => match self.budget.add_field(field, name) {
                Ok(_) => Ok(PartStep::Text(field)),
                Err(answer) => Err(answer),
            },
            None => Ok(PartStep::Drain),
        }
    }

    /// Take in a chunk of a field's text, of which `bytes` are already here: the field's own limit stands
    /// ahead of the form's.
    pub fn take_text(&mut self, field: UploadTextField, name: &str, bytes: &mut Vec<u8>, chunk: &[u8]) -> (r: Result<
        (),
        Reply,
    >)
        requires
            old(self).budget.wf(),
        ensures
            is_text_taken(*old(self), field, name@, old(bytes)@, chunk@, *final(self), final(bytes)@, r),
    {
        let limit: usize = field.text_field_limit();
        if bytes.len().saturating_add(chunk.len()) > limit {
            let mut body = "upload field ".to_owned();
            let shown = quoted(name);
            body.append(shown.as_str());
            body.append(" exceeds ");
            let most = decimal_text(limit as u64);
            body.append(most.as_str());
            body.append(" bytes");
            return Err(reply(BAD_REQUEST, body.as_str()));
        }
        match self.budget.add_text(chunk.len()) {
            Ok(_) => {},
            Err(answer) => {
                return Err(answer);
            },
        }
        crate::text::push_bytes(bytes, chunk);
        Ok(())
    }

    /// Take in a chunk of a part that is forgotten; it counts against the form all the same.
    pub fn drain(&mut self, bytes: usize) -> (r: Result<(), Reply>)
        requires
            old(self).budget.wf(),
        ensures
            is_drained(*old(self), bytes, *final(self), r),
    {
        self.budget.add_text(bytes)
    }

    /// End a field's text. A browser's form ignores the fields that its filename decides.
    pub fn end_text(&mut self, field: UploadTextField, bytes: Vec<u8>) -> (r: Result<(), Reply>)
        requires
            old(self).budget.wf(),
        ensures
            is_text_ended(*old(self), field, bytes@, *final(self), r),
    {
        let copy = bytes_clone(bytes.as_slice());
        match utf8_text(copy) {
            None => {
                let reason = utf8_error_text(bytes.as_slice());
                Err(reject(reason.as_str()))
            },
            Some(value) => {
                if !self.browser || !field.browser_derived() {
                    set_upload_text_field(&mut self.form, field, value);
                }
                Ok(())
            },
        }
    }
}

// ---------------------------------------------------------------------------------------------
// Staging the content
// ---------------------------------------------------------------------------------------------

/// Two hex digits of a byte.
pub open spec fn hex_digit(n: int) -> char {
    if n < 10 {
        (48 + n) as u8 as char
    } else {
        (87 + n) as u8 as char
    }
}

/// The lowercase hex form of bytes.
pub open spec fn hex_text(bytes: Seq<u8>) -> Seq<char>
    decreases bytes.len(),
{
    if bytes.len() == 0 {
        Seq::empty()
    } else {
        hex_text(bytes.drop_last()).push(hex_digit(bytes.last() as int / 16)).push(hex_digit(bytes.last() as int % 16))
    }
}

fn hex_char(n: u8) -> (r: char)
    requires
        n < 16,
    ensures
        r == hex_digit(n as int),
{
    if n < 10 {
        (48 + n) as char
    } else {
        (87 + n) as char
    }
}

/// The lowercase hex form of bytes.
pub fn hex(bytes: &[u8]) -> (r: String)
    ensures
        r@ == hex_text(bytes@),
{
    let mut out = String::new();
    let mut i: usize = 0;
    assert(bytes@.take(0) =~= Seq::<u8>::empty());
    while i < bytes.len()
        invariant
            i <= bytes@.len(),
            out@ == hex_text(bytes@.take(i as int)),
        decreases bytes.len() - i,
    {
        let byte: u8 = bytes[i];
        assert(bytes@.take(i + 1).drop_last() =~= bytes@.take(i as int));
        out.push(hex_char(byte / 16));
        out.push(hex_char(byte % 16));
        i = i + 1;
    }
    assert(bytes@.take(i as int) =~= bytes@);
    out
}

/// Content on its way into the store.
pub struct Staging {
    pub limit: u64,
    pub size: u64,
    pub hasher: Blake2Hasher,
}

/// What a client is told of content that is too large.
pub open spec fn oversize_denial(
    project: Seq<char>,
    filename: Option<Seq<char>>,
    version: Option<Seq<char>>,
    size: u64,
    limit: u64,
) -> DenialText {
    DenialText {
        action: PolicyAction::Upload,
        resource: project,
        artifact: filename,
        group: version,
        rule: "max-file-size"@,
        field: "size"@,
        reason: "file size "@ + decimal(size as nat) + " exceeds limit "@ + decimal(limit as nat),
    }
}

/// Answer content that is too large. `project` is the form's project, normalized, or nothing; `action` is
/// the wire name of an upload.
pub fn upload_size_reject(form: &UploadForm, project: &str, size: u64, limit: u64, action: &str) -> (r: Reply)
    ensures
        r@ == denial_reply(
            oversize_denial(project@, form@.filename, form@.version, size, limit),
            action@,
        ),
{
    let mut reason = "file size ".to_owned();
    let is = decimal_text(size);
    reason.append(is.as_str());
    reason.append(" exceeds limit ");
    let most = decimal_text(limit);
    reason.append(most.as_str());
    policy_denial_response(
        &PolicyDenial {
            action: PolicyAction::Upload,
            resource: project.to_owned(),
            artifact: opt_clone(&form.filename),
            group: opt_clone(&form.version),
            rule: "max-file-size",
            field: "size",
            reason,
        },
        action,
    )
}

/// The sum, held to the range of `u64`.
pub open spec fn clamped_size(size: u64, more: int) -> u64 {
    if size + more > u64::MAX {
        u64::MAX
    } else {
        (size + more) as u64
    }
}

/// Whether `r` is staging at its beginning.
pub open spec fn is_staging_begun(
    max_file_size: Option<u64>,
    declared: Option<u64>,
    form: UploadFormText,
    project: Seq<char>,
    action: Seq<char>,
    r: Result<Staging, Reply>,
) -> bool {
    let limit = match max_file_size {
        Some(limit) => limit,
        None => u64::MAX,
    };
    match r {
        Ok(staging) => (declared is None || declared->0 <= limit) && staging.limit == limit && staging.size
            == 0 && staging.content() == Seq::<u8>::empty(),
        Err(answer) => declared is Some && declared->0 > limit && answer@ == denial_reply(
            oversize_denial(project, form.filename, form.version, declared->0, limit),
            action,
        ),
    }
}

/// Whether taking in a chunk takes staging from `was` to `now`.
pub open spec fn is_chunk_staged(
    was: Staging,
    chunk: Seq<u8>,
    form: UploadFormText,
    project: Seq<char>,
    action: Seq<char>,
    now: Staging,
    r: Result<(), Reply>,
) -> bool {
    &&& now.limit == was.limit
    &&& ({
        let size = clamped_size(was.size, chunk.len() as int);
        if size > was.limit {
            r matches Err(answer) && answer@ == denial_reply(
                oversize_denial(project, form.filename, form.version, size, was.limit),
                action,
            )
        } else {
            r is Ok && now.size == size && now.content() == was.content() + chunk
        }
    })
}

impl Staging {
    /// What has been staged.
    pub open spec fn content(self) -> Seq<u8> {
        blake2_taken(self.hasher)
    }

    /// Begin staging, unless the part declares more than the limit.
    pub fn begin(max_file_size: Option<u64>, declared: Option<u64>, form: &UploadForm, project: &str, action: &str) -> (r:
        Result<Staging, Reply>)
        ensures
            is_staging_begun(max_file_size, declared, form@, project@, action@, r),
    {
        let limit: u64 = match max_file_size {
            Some(limit) => limit,
            None => u64::MAX,
        };
        match declared {
            Some(size) => {
                if size > limit {
                    return Err(upload_size_reject(form, project, size, limit, action));
                }
            },
            None => {},
        }
        Ok(Staging { limit, size: 0, hasher: blake2_begin() })
    }

    /// Take in a chunk, unless the content outgrows the limit.
    pub fn take(&mut self, chunk: &[u8], form: &UploadForm, project: &str, action: &str) -> (r: Result<(), Reply>)
        ensures
            is_chunk_staged(*old(self), chunk@, form@, project@, action@, *final(self), r),
    {
        let size: u64 = self.size.saturating_add(chunk.len() as u64);
        if size > self.limit {
            return Err(upload_size_reject(form, project, size, self.limit, action));
        }
        self.size = size;
        blake2_take(&mut self.hasher, chunk);
        Ok(())
    }

    /// End staging: the BLAKE2b digest of what was staged.
    pub fn finish(self) -> (r: String)
        ensures
            r@ == hex_text(blake2_256(self.content())),
    {
        let digest = blake2_finish(self.hasher);
        hex(digest.as_slice())
    }
}

// ---------------------------------------------------------------------------------------------
// Errors
// ---------------------------------------------------------------------------------------------

/// Why a filename is not a distribution's.
pub enum DistributionFilenameError {
    UnsupportedExtension,
    LegacyEgg,
    InvalidWheelShape,
    InvalidSdistShape,
    InvalidName(String),
    InvalidVersion(String),
    InvalidTag(String),
}

/// What a client is told of a filename that is not a distribution's.
pub open spec fn filename_error_text(error: DistributionFilenameError) -> Seq<char> {
    match error {
        DistributionFilenameError::UnsupportedExtension => "accepted upload formats are .whl, .tar.gz, and .zip"@,
        DistributionFilenameError::LegacyEgg =>
            "legacy .egg uploads are not accepted; upload a wheel or .tar.gz sdist"@,
        DistributionFilenameError::InvalidWheelShape =>
            "wheel filenames must use distribution-version(-build tag)?-python tag-abi tag-platform tag.whl"@,
        DistributionFilenameError::InvalidSdistShape => "sdist filenames must use name-version.tar.gz"@,
        DistributionFilenameError::InvalidName(name) => "distribution name component "@ + quoted_text(name@)
            + " is not a valid PyPA project name"@,
        DistributionFilenameError::InvalidVersion(version) => "version component "@ + quoted_text(version@)
            + " is not a PEP 440 version"@,
        DistributionFilenameError::InvalidTag(tag) => "wheel build/tag component "@ + quoted_text(tag@)
            + " contains invalid characters"@,
    }
}

fn around(before: &str, value: &str, after: &str) -> (r: String)
    ensures
        r@ == before@ + quoted_text(value@) + after@,
{
    let mut out = before.to_owned();
    let shown = quoted(value);
    out.append(shown.as_str());
    out.append(after);
    out
}

/// What a client is told of a filename that is not a distribution's.
pub fn distribution_filename_error_message(error: &DistributionFilenameError) -> (r: String)
    ensures
        r@ == filename_error_text(*error),
{
    match error {
        DistributionFilenameError::UnsupportedExtension => {
            "accepted upload formats are .whl, .tar.gz, and .zip".to_owned()
        },
        DistributionFilenameError::LegacyEgg => {
            "legacy .egg uploads are not accepted; upload a wheel or .tar.gz sdist".to_owned()
        },
        DistributionFilenameError::InvalidWheelShape => {
            "wheel filenames must use distribution-version(-build tag)?-python tag-abi tag-platform tag.whl".to_owned()
        },
        DistributionFilenameError::InvalidSdistShape => "sdist filenames must use name-version.tar.gz".to_owned(),
        DistributionFilenameError::InvalidName(name) => around(
            "distribution name component ",
            name.as_str(),
            " is not a valid PyPA project name",
        ),
        DistributionFilenameError::InvalidVersion(version) => around(
            "version component ",
            version.as_str(),
            " is not a PEP 440 version",
        ),
        DistributionFilenameError::InvalidTag(tag) => around(
            "wheel build/tag component ",
            tag.as_str(),
            " contains invalid characters",
        ),
    }
}

/// Why an upload is refused.
pub enum UploadError {
    NotFileUpload,
    Missing(&'static str),
    InvalidName(String),
    InvalidVersion(String),
    InvalidFilename(String),
    InvalidDistributionFilename { filename: String, error: DistributionFilenameError },
    FiletypeMismatch { expected: String, actual: String },
    FilenameNameMismatch { of_filename: String, form: String },
    FilenameVersionMismatch { of_filename: String, form: String },
    DigestMismatch(&'static str),
    InvalidDigest { digest: &'static str, value: String },
    InvalidRequiresPython(String),
    InvalidContent(String),
    InvalidMetadataUtf8,
    MalformedMetadata(String),
    InvalidProjectUrl { label: String, url: String },
    InvalidLicenseFile { value: String, reason: String },
    ConflictingLicenseFields,
    MissingMetadataVersion,
    UnsupportedMetadataVersion(String),
    InvalidMetadataValue { field: String, value: String, reason: String },
    MetadataNameMismatch { metadata: String, form: String },
    MetadataVersionMismatch { metadata: String, form: String },
    MetadataFieldMismatch { field: String, metadata: String, form: String },
    InvalidUploadTime,
    Attestation(String),
}

/// What a client is told of a refused upload.
pub open spec fn upload_error_text(error: UploadError) -> Seq<char> {
    match error {
        UploadError::NotFileUpload => "unsupported :action"@,
        UploadError::Missing(field) => "missing required field: "@ + field@,
        UploadError::InvalidName(name) => "invalid project name "@ + quoted_text(name@)
            + ": names must start and end with an ASCII letter or digit and contain only letters, digits, '.', '_' or '-'"@,
        UploadError::InvalidVersion(version) => "invalid version "@ + quoted_text(version@)
            + ": expected a PEP 440 version"@,
        UploadError::InvalidFilename(filename) => "invalid filename "@ + quoted_text(filename@)
            + ": filenames must be relative path segments without separators, traversal, or control characters"@,
        UploadError::InvalidDistributionFilename { filename, error } => "invalid distribution filename "@ + quoted_text(
            filename@,
        ) + ": "@ + filename_error_text(error),
        UploadError::FiletypeMismatch { expected, actual } => "filetype "@ + quoted_text(actual@)
            + " does not match filename; expected "@ + quoted_text(expected@),
        UploadError::FilenameNameMismatch { of_filename, form } => "filename project "@ + quoted_text(of_filename@)
            + " does not match upload name "@ + quoted_text(form@),
        UploadError::FilenameVersionMismatch { of_filename, form } => "filename version "@ + quoted_text(of_filename@)
            + " does not match upload version "@ + quoted_text(form@),
        UploadError::DigestMismatch(field) => field@ + " mismatch"@,
        UploadError::InvalidDigest { digest, value } => digest@ + " value "@ + quoted_text(value@)
            + " is not lowercase hex with the expected length"@,
        UploadError::InvalidRequiresPython(value) => "invalid Requires-Python value "@ + quoted_text(value@)
            + ": expected PEP 440 version specifiers"@,
        UploadError::InvalidContent(message) => "uploaded content does not match the filename format: "@ + message@,
        UploadError::InvalidMetadataUtf8 => "artifact metadata is not valid UTF-8"@,
        UploadError::MalformedMetadata(message) => "malformed artifact metadata: "@ + message@,
        UploadError::InvalidProjectUrl { label, url } => "invalid metadata Project-URL label "@ + quoted_text(label@)
            + " with URL "@ + quoted_text(url@)
            + ": expected a label of 1 to 32 characters and an HTTP or HTTPS URL"@,
        UploadError::InvalidLicenseFile { value, reason } => "invalid metadata License-File "@ + quoted_text(value@)
            + ": "@ + reason@,
        UploadError::ConflictingLicenseFields =>
            "metadata License and License-Expression fields are mutually exclusive"@,
        UploadError::MissingMetadataVersion => "artifact metadata is missing required Metadata-Version"@,
        UploadError::UnsupportedMetadataVersion(value) => "invalid metadata Metadata-Version "@ + quoted_text(value@)
            + ": supported values are 1.0 through 1.2 and 2.1 through 2.6"@,
        UploadError::InvalidMetadataValue { field, value, reason } => "metadata "@ + field@ + " value "@ + quoted_text(
            value@,
        ) + " "@ + reason@,
        UploadError::MetadataNameMismatch { metadata, form } => "metadata Name "@ + quoted_text(metadata@)
            + " does not match upload name "@ + quoted_text(form@),
        UploadError::MetadataVersionMismatch { metadata, form } => "metadata Version "@ + quoted_text(metadata@)
            + " does not match upload version "@ + quoted_text(form@),
        UploadError::MetadataFieldMismatch { field, metadata, form } => "metadata "@ + field@ + " "@ + quoted_text(
            metadata@,
        ) + " does not match upload value "@ + quoted_text(form@),
        UploadError::InvalidUploadTime => "configured clock produced an invalid upload timestamp"@,
        UploadError::Attestation(message) => message@,
    }
}

/// The status of a refused upload: the client's fault, but for a clock that no upload can be dated by.
pub open spec fn upload_error_status(error: UploadError) -> u16 {
    if error is InvalidUploadTime {
        INTERNAL_SERVER_ERROR
    } else {
        BAD_REQUEST
    }
}

fn mismatch(what: &str, is: &str, against: &str, wants: &str) -> (r: String)
    ensures
        r@ == what@ + quoted_text(is@) + against@ + quoted_text(wants@),
{
    let mut out = what.to_owned();
    let shown = quoted(is);
    out.append(shown.as_str());
    out.append(against);
    let wanted = quoted(wants);
    out.append(wanted.as_str());
    out
}

fn followed(before: &str, after: &str) -> (r: String)
    ensures
        r@ == before@ + after@,
{
    let mut out = before.to_owned();
    out.append(after);
    out
}

/// The status and the text of a refused upload.
pub fn upload_error_message(error: &UploadError) -> (r: (u16, String))
    ensures
        r.0 == upload_error_status(*error),
        r.1@ == upload_error_text(*error),
{
    let text: String = match error {
        UploadError::NotFileUpload => "unsupported :action".to_owned(),
        UploadError::Missing(field) => followed("missing required field: ", field),
        UploadError::InvalidName(name) => around(
            "invalid project name ",
            name.as_str(),
            ": names must start and end with an ASCII letter or digit and contain only letters, digits, '.', '_' or '-'",
        ),
        UploadError::InvalidVersion(version) => around(
            "invalid version ",
            version.as_str(),
            ": expected a PEP 440 version",
        ),
        UploadError::InvalidFilename(filename) => around(
            "invalid filename ",
            filename.as_str(),
            ": filenames must be relative path segments without separators, traversal, or control characters",
        ),
        UploadError::InvalidDistributionFilename { filename, error } => {
            let mut out = around("invalid distribution filename ", filename.as_str(), ": ");
            let reason = distribution_filename_error_message(error);
            out.append(reason.as_str());
            out
        },
        UploadError::FiletypeMismatch { expected, actual } => mismatch(
            "filetype ",
            actual.as_str(),
            " does not match filename; expected ",
            expected.as_str(),
        ),
        UploadError::FilenameNameMismatch { of_filename, form } => mismatch(
            "filename project ",
            of_filename.as_str(),
            " does not match upload name ",
            form.as_str(),
        ),
        UploadError::FilenameVersionMismatch { of_filename, form } => mismatch(
            "filename version ",
            of_filename.as_str(),
            " does not match upload version ",
            form.as_str(),
        ),
        UploadError::DigestMismatch(field) => followed(field, " mismatch"),
        UploadError::InvalidDigest { digest, value } => {
            let mut out = followed(digest, " value ");
            let rest = around("", value.as_str(), " is not lowercase hex with the expected length");
            out.append(rest.as_str());
            proof {
                reveal_strlit("");
                assert(""@ =~= Seq::<char>::empty());
                assert(out@ =~= upload_error_text(*error));
            }
            out
        },
        UploadError::InvalidRequiresPython(value) => around(
            "invalid Requires-Python value ",
            value.as_str(),
            ": expected PEP 440 version specifiers",
        ),
        UploadError::InvalidContent(message) => followed(
            "uploaded content does not match the filename format: ",
            message.as_str(),
        ),
        UploadError::InvalidMetadataUtf8 => "artifact metadata is not valid UTF-8".to_owned(),
        UploadError::MalformedMetadata(message) => followed("malformed artifact metadata: ", message.as_str()),
        UploadError::InvalidProjectUrl { label, url } => {
            let mut out = mismatch("invalid metadata Project-URL label ", label.as_str(), " with URL ", url.as_str());
            out.append(": expected a label of 1 to 32 characters and an HTTP or HTTPS URL");
            out
        },
        UploadError::InvalidLicenseFile { value, reason } => {
            let mut out = around("invalid metadata License-File ", value.as_str(), ": ");
            out.append(reason.as_str());
            out
        },
        UploadError::ConflictingLicenseFields => {
            "metadata License and License-Expression fields are mutually exclusive".to_owned()
        },
        UploadError::MissingMetadataVersion => "artifact metadata is missing required Metadata-Version".to_owned(),
        UploadError::UnsupportedMetadataVersion(value) => around(
            "invalid metadata Metadata-Version ",
            value.as_str(),
            ": supported values are 1.0 through 1.2 and 2.1 through 2.6",
        ),
        UploadError::InvalidMetadataValue { field, value, reason } => {
            let mut out = followed("metadata ", field.as_str());
            let rest = around(" value ", value.as_str(), " ");
            out.append(rest.as_str());
            out.append(reason.as_str());
            assert(out@ =~= upload_error_text(*error));
            out
        },
        UploadError::MetadataNameMismatch { metadata, form } => mismatch(
            "metadata Name ",
            metadata.as_str(),
            " does not match upload name ",
            form.as_str(),
        ),
        UploadError::MetadataVersionMismatch { metadata, form } => mismatch(
            "metadata Version ",
            metadata.as_str(),
            " does not match upload version ",
            form.as_str(),
        ),
        UploadError::MetadataFieldMismatch { field, metadata, form } => {
            let mut out = followed("metadata ", field.as_str());
            let rest = mismatch(" ", metadata.as_str(), " does not match upload value ", form.as_str());
            out.append(rest.as_str());
            assert(out@ =~= upload_error_text(*error));
            out
        },
        UploadError::InvalidUploadTime => "configured clock produced an invalid upload timestamp".to_owned(),
        UploadError::Attestation(message) => message.clone(),
    };
    let status: u16 = match error {
        UploadError::InvalidUploadTime => INTERNAL_SERVER_ERROR,
        _ => BAD_REQUEST,
    };
    (status, text)
}

/// Answer a refused upload.
pub fn upload_error_response(error: &UploadError) -> (r: Reply)
    ensures
        r@ == plain(upload_error_status(*error), upload_error_text(*error)),
{
    let (status, text) = upload_error_message(error);
    reply(status, text.as_str())
}

} // verus!
