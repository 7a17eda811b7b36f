//! The Simple repository API: the files and projects that pages list, and their JSON form.
use vstd::prelude::*;

pub mod file;
pub mod json;
pub mod laws;
pub mod meta;
pub mod page;

verus! {

/// Why an upstream Simple API document is refused.
#[derive(Debug)]
pub enum SimpleError {
    /// The advertised API version is no `major.minor` pair.
    InvalidApiVersion(String),
    /// The advertised API version has an unsupported major number.
    UnsupportedApiVersion(String),
    /// The project status marker is none of the standard ones.
    InvalidProjectStatus(String),
    /// A page that owes a `versions` array carries none.
    MissingVersions,
    /// A page that owes every file's size carries a file without one.
    MissingFileSize(String),
    /// The `versions` array names a version twice.
    DuplicateVersion(String),
}

/// The parts of an error that a contract speaks of: which one it is and the text it carries.
pub enum SimpleErrorText {
    InvalidApiVersion(Seq<char>),
    UnsupportedApiVersion(Seq<char>),
    InvalidProjectStatus(Seq<char>),
    MissingVersions,
    MissingFileSize(Seq<char>),
    DuplicateVersion(Seq<char>),
}

impl SimpleError {
    pub open spec fn view(self) -> SimpleErrorText {
        match self {
            SimpleError::InvalidApiVersion(s) => SimpleErrorText::InvalidApiVersion(s@),
            SimpleError::UnsupportedApiVersion(s) => SimpleErrorText::UnsupportedApiVersion(s@),
            SimpleError::InvalidProjectStatus(s) => SimpleErrorText::InvalidProjectStatus(s@),
            SimpleError::MissingVersions => SimpleErrorText::MissingVersions,
            SimpleError::MissingFileSize(s) => SimpleErrorText::MissingFileSize(s@),
            SimpleError::DuplicateVersion(s) => SimpleErrorText::DuplicateVersion(s@),
        }
    }
}

} // verus!
