//! What a page transformation takes and gives.
use vstd::prelude::*;

use crate::collections::{TextMap, TextSet};
use crate::policy_engine::{FileFacts, Policy};
use crate::simple::file::{File, Yanked, YankedText};
use crate::simple::{SimpleError, SimpleErrorText};
use crate::text::opt_text;

verus! {

/// Why a page cannot be transformed.
#[derive(Debug)]
pub enum TransformError {
    /// A captured element is not the JSON it should be.
    Parse,
    /// The page holds more bytes or more files than one page may.
    TooLarge,
    /// The document ended inside a token.
    Truncated,
    /// Bytes followed the document root.
    Trailing,
    /// The bytes were not a single well-formed JSON object.
    Malformed,
    /// The page breaks the Simple API.
    Simple(SimpleError),
}

/// A transformation error, its text seen as characters.
pub enum TransformErrorText {
    Parse,
    TooLarge,
    Truncated,
    Trailing,
    Malformed,
    Simple(SimpleErrorText),
}

impl TransformError {
    pub open spec fn view(self) -> TransformErrorText {
        match self {
            TransformError::Parse => TransformErrorText::Parse,
            TransformError::TooLarge => TransformErrorText::TooLarge,
            TransformError::Truncated => TransformErrorText::Truncated,
            TransformError::Trailing => TransformErrorText::Trailing,
            TransformError::Malformed => TransformErrorText::Malformed,
            TransformError::Simple(error) => TransformErrorText::Simple(error@),
        }
    }
}

/// A file this index published itself, with what lies outside the page about it.
pub struct LocalFile {
    pub file: File,
    pub facts: FileFacts,
}

/// What a transformation needs to know of the page's surroundings.
pub struct PageContext {
    /// The route that serves the page.
    pub route: String,
    /// The URL the page was fetched from, against which relative file references resolve.
    pub base: Option<String>,
    pub project: String,
    pub policy: Policy,
    pub local_files: Vec<LocalFile>,
    pub local_versions: Vec<String>,
    /// The upstream files that are not served: those shadowed by a local file, and the hidden ones.
    pub skip: TextSet,
    pub hidden: TextSet,
    /// The yank state an operator imposed, by filename.
    pub yanked: TextMap<Yanked>,
    /// The metadata digest known for an artifact digest.
    pub known_metadata: TextMap<String>,
}

/// The values of a map of yank states, seen as text.
pub open spec fn yank_texts(map: Map<Seq<char>, Yanked>) -> Map<Seq<char>, YankedText> {
    map.map_values(|y: Yanked| y@)
}

/// What lies outside the page about one upstream file: its parsed filename, what the registry's own
/// rules refuse of it, and how this registry addresses it.
pub struct UpstreamFacts {
    pub facts: FileFacts,
    /// Where the serving route offers the file.
    pub local_url: String,
    /// Where the serving route offers the file's provenance.
    pub local_provenance_url: String,
    /// Whether the file's URL is already one of the serving route.
    pub already_local: bool,
}

/// An artifact a page advertised, to be fetched on demand.
pub struct Registration {
    pub filename: String,
    pub sha256: String,
    pub url: String,
    pub size: Option<u64>,
    /// The metadata sibling's URL and digest.
    pub metadata: Option<(String, String)>,
    pub provenance: Option<String>,
}

/// A registration, its text seen as characters.
pub struct RegistrationText {
    pub filename: Seq<char>,
    pub sha256: Seq<char>,
    pub url: Seq<char>,
    pub size: Option<u64>,
    pub metadata: Option<(Seq<char>, Seq<char>)>,
    pub provenance: Option<Seq<char>>,
}

impl Registration {
    pub open spec fn view(self) -> RegistrationText {
        RegistrationText {
            filename: self.filename@,
            sha256: self.sha256@,
            url: self.url@,
            size: self.size,
            metadata: match self.metadata {
                Some((url, digest)) => Some((url@, digest@)),
                None => None,
            },
            provenance: opt_text(self.provenance),
        }
    }
}

/// The registrations, seen as text.
pub open spec fn registration_texts(list: Seq<Registration>) -> Seq<RegistrationText> {
    list.map_values(|r: Registration| r@)
}

/// What a finished transformation learned of the page.
pub struct PageSummary {
    pub registrations: Vec<Registration>,
    pub name: Option<String>,
    pub project_status: Option<String>,
    pub project_status_reason: Option<String>,
}

} // verus!
