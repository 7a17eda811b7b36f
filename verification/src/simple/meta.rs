//! The `meta` object of a Simple API response and the project status it carries.
use vstd::prelude::*;

use super::{SimpleError, SimpleErrorText};
use crate::text::{cut_first, opt_as_str, opt_str, opt_text, parse_u64, split_once, text_eq, u64_of};

verus! {

/// The highest Simple API version advertised, for a page that carries every PEP 700 guarantee.
pub const API_VERSION: &'static str = "1.4";

/// The version advertised when PEP 700's `versions` and per-file `size` cannot be guaranteed: PEP 691
/// mandates neither.
pub const API_VERSION_BASE: &'static str = "1.0";

const API_MAJOR: u64 = 1;

/// The first minor version whose payload guarantees `versions` and per-file `size`.
const PEP700_MINOR: u64 = 1;

/// The `meta` object shared by both response kinds.
#[derive(Debug)]
pub struct Meta {
    pub api_version: &'static str,
    pub project_status: Option<String>,
    pub project_status_reason: Option<String>,
}

impl Default for Meta {
    fn default() -> (r: Self)
        ensures
            r.api_version@ == API_VERSION@,
            r.project_status is None,
            r.project_status_reason is None,
    {
        Meta { api_version: API_VERSION, project_status: None, project_status_reason: None }
    }
}

/// The version to advertise for an upstream that declared `version`: the ceiling once the upstream
/// promises PEP 700's `versions` and `size` (minor at least 1), otherwise the base. An upstream that
/// advertises nothing promises neither. The major number is judged before the minor one is read.
pub open spec fn version_served(version: Option<Seq<char>>) -> Result<Seq<char>, SimpleErrorText> {
    match version {
        None => Ok(API_VERSION_BASE@),
        Some(text) => match cut_first(text, '.') {
            None => Err(SimpleErrorText::InvalidApiVersion(text)),
            Some((major, minor)) => match u64_of(major) {
                None => Err(SimpleErrorText::InvalidApiVersion(text)),
                Some(major) => if major != 1 {
                    Err(SimpleErrorText::UnsupportedApiVersion(text))
                } else {
                    match u64_of(minor) {
                        None => Err(SimpleErrorText::InvalidApiVersion(text)),
                        Some(minor) => if minor >= 1 {
                            Ok(API_VERSION@)
                        } else {
                            Ok(API_VERSION_BASE@)
                        },
                    }
                },
            },
        },
    }
}

/// The version to advertise for an upstream that declared `version`.
pub fn served_version(version: Option<&str>) -> (r: Result<&'static str, SimpleError>)
    ensures
        match r {
            Ok(v) => version_served(opt_str(version)) == Ok::<Seq<char>, SimpleErrorText>(v@),
            Err(e) => version_served(opt_str(version)) == Err::<Seq<char>, SimpleErrorText>(e@),
        },
{
    let version = match version {
        Some(version) => version,
        None => {
            return Ok(API_VERSION_BASE);
        },
    };
    let (major, minor) = match split_once(version, '.') {
        Some(pair) => pair,
        None => {
            return Err(SimpleError::InvalidApiVersion(version.to_owned()));
        },
    };
    let major: u64 = match parse_u64(major) {
        Some(major) => major,
        None => {
            return Err(SimpleError::InvalidApiVersion(version.to_owned()));
        },
    };
    if major != API_MAJOR {
        return Err(SimpleError::UnsupportedApiVersion(version.to_owned()));
    }
    match parse_u64(minor) {
        Some(minor) => Ok(if minor >= PEP700_MINOR {
            API_VERSION
        } else {
            API_VERSION_BASE
        }),
        None => Err(SimpleError::InvalidApiVersion(version.to_owned())),
    }
}

/// The status that the marker `text` names.
pub open spec fn status_of_marker(text: Seq<char>) -> Option<ProjectStatus> {
    if text == "active"@ {
        Some(ProjectStatus::Active)
    } else if text == "archived"@ {
        Some(ProjectStatus::Archived)
    } else if text == "quarantined"@ {
        Some(ProjectStatus::Quarantined)
    } else if text == "deprecated"@ {
        Some(ProjectStatus::Deprecated)
    } else {
        None
    }
}

/// Refuse a project status marker that is none of the standard ones.
pub fn validate_project_status(status: &str) -> (r: Result<(), SimpleError>)
    ensures
        match r {
            Ok(_) => status_of_marker(status@) is Some,
            Err(e) => status_of_marker(status@) is None && e@ == SimpleErrorText::InvalidProjectStatus(status@),
        },
{
    match ProjectStatus::from_marker(status) {
        Some(_) => Ok(()),
        None => Err(SimpleError::InvalidProjectStatus(status.to_owned())),
    }
}

/// Whether `r` is the metadata to serve for what an upstream said.
pub open spec fn is_served_meta(
    api_version: Option<Seq<char>>,
    project_status: Option<String>,
    project_status_reason: Option<String>,
    r: Result<Meta, SimpleError>,
) -> bool {
    match version_served(api_version) {
        Err(refusal) => r matches Err(e) && e@ == refusal,
        Ok(version) => match project_status {
            Some(status) if status_of_marker(status@) is None =>
                r matches Err(e) && e@ == SimpleErrorText::InvalidProjectStatus(status@),
            _ => r matches Ok(meta) && meta.api_version@ == version && meta.project_status == project_status
                && meta.project_status_reason == project_status_reason,
        },
    }
}

/// Whether `r` is the status object a page serializes.
pub open spec fn is_status_object(meta: Meta, r: Option<ProjectStatusObject<'_>>) -> bool {
    match r {
        Some(object) => (meta.project_status is Some || meta.project_status_reason is Some)
            && opt_str(object.status) == opt_text(meta.project_status)
            && opt_str(object.reason) == opt_text(meta.project_status_reason),
        None => meta.project_status is None && meta.project_status_reason is None,
    }
}

impl Meta {
    /// Build served metadata from upstream metadata after checking Simple API compatibility: first the
    /// version, then the status marker.
    pub fn from_upstream(
        api_version: Option<&str>,
        project_status: Option<String>,
        project_status_reason: Option<String>,
    ) -> (r: Result<Self, SimpleError>)
        ensures
            is_served_meta(opt_str(api_version), project_status, project_status_reason, r),
    {
        let api_version = match served_version(api_version) {
            Ok(version) => version,
            Err(error) => {
                return Err(error);
            },
        };
        match &project_status {
            Some(status) => match validate_project_status(status.as_str()) {
                Ok(_) => {},
                Err(error) => {
                    return Err(error);
                },
            },
            None => {},
        }
        Ok(Meta { api_version, project_status, project_status_reason })
    }

    /// Whether the served version carries PEP 700's `versions` and per-file `size` guarantees. Every
    /// upstream minor collapses to one of two values, so the ceiling means 1.1 or newer.
    pub fn promises_pep700(&self) -> (r: bool)
        ensures
            r == (self.api_version@ == API_VERSION@),
    {
        text_eq(self.api_version, API_VERSION)
    }

    /// The project's status: the one its marker names, or active.
    pub fn status(&self) -> (r: ProjectStatus)
        ensures
            r == self.status_named(),
    {
        match &self.project_status {
            Some(marker) => match ProjectStatus::from_marker(marker.as_str()) {
                Some(status) => status,
                None => ProjectStatus::Active,
            },
            None => ProjectStatus::Active,
        }
    }

    pub open spec fn status_named(self) -> ProjectStatus {
        match self.project_status {
            Some(marker) => match status_of_marker(marker@) {
                Some(status) => status,
                None => ProjectStatus::Active,
            },
            None => ProjectStatus::Active,
        }
    }

    /// The status object a page serializes: nothing when there is neither a marker nor a reason.
    pub fn project_status_object(&self) -> (r: Option<ProjectStatusObject<'_>>)
        ensures
            is_status_object(*self, r),
    {
        if self.project_status.is_some() || self.project_status_reason.is_some() {
            Some(ProjectStatusObject {
                status: opt_as_str(&self.project_status),
                reason: opt_as_str(&self.project_status_reason),
            })
        } else {
            None
        }
    }
}

/// The status object a page carries beside its `meta`.
pub struct ProjectStatusObject<'a> {
    pub status: Option<&'a str>,
    pub reason: Option<&'a str>,
}

/// The `meta` object as an upstream sent it.
pub struct IncomingMeta {
    pub api_version: Option<String>,
    pub project_status: Option<String>,
    pub project_status_reason: Option<String>,
}

/// The status object as an upstream sent it.
pub struct IncomingProjectStatus {
    pub status: Option<String>,
    pub reason: Option<String>,
}

impl IncomingMeta {
    /// The served metadata of a page that carries no status object.
    pub fn into_meta(self) -> (r: Result<Meta, SimpleError>)
        ensures
            is_served_meta(opt_text(self.api_version), self.project_status, self.project_status_reason, r),
    {
        Meta::from_upstream(opt_as_str(&self.api_version), self.project_status, self.project_status_reason)
    }

    /// The served metadata of a project page: its own status object wins over the one in `meta`.
    pub fn into_detail_meta(self, project_status: Option<IncomingProjectStatus>) -> (r: Result<Meta, SimpleError>)
        ensures
            ({
                let status = match project_status {
                    Some(object) => object.status,
                    None => self.project_status,
                };
                let reason = match project_status {
                    Some(object) => object.reason,
                    None => self.project_status_reason,
                };
                is_served_meta(opt_text(self.api_version), status, reason, r)
            }),
    {
        match project_status {
            Some(object) => Meta::from_upstream(opt_as_str(&self.api_version), object.status, object.reason),
            None => Meta::from_upstream(
                opt_as_str(&self.api_version),
                self.project_status,
                self.project_status_reason,
            ),
        }
    }
}

/// The standardized project status markers and their serving policy.
#[derive(Debug, Clone, Copy, PartialEq, Eq, Structural)]
pub enum ProjectStatus {
    Active,
    Archived,
    Quarantined,
    Deprecated,
}

impl ProjectStatus {
    /// The status that `status` names.
    pub fn from_marker(status: &str) -> (r: Option<Self>)
        ensures
            r == status_of_marker(status@),
    {
        if text_eq(status, "active") {
            Some(ProjectStatus::Active)
        } else if text_eq(status, "archived") {
            Some(ProjectStatus::Archived)
        } else if text_eq(status, "quarantined") {
            Some(ProjectStatus::Quarantined)
        } else if text_eq(status, "deprecated") {
            Some(ProjectStatus::Deprecated)
        } else {
            None
        }
    }

    pub open spec fn marker_text(self) -> Seq<char> {
        match self {
            ProjectStatus::Active => "active"@,
            ProjectStatus::Archived => "archived"@,
            ProjectStatus::Quarantined => "quarantined"@,
            ProjectStatus::Deprecated => "deprecated"@,
        }
    }

    /// The marker that names this status.
    pub fn marker(self) -> (r: &'static str)
        ensures
            r@ == self.marker_text(),
    {
        match self {
            ProjectStatus::Active => "active",
            ProjectStatus::Archived => "archived",
            ProjectStatus::Quarantined => "quarantined",
            ProjectStatus::Deprecated => "deprecated",
        }
    }

    /// Whether a project of this status takes uploads.
    pub open spec fn open_to_uploads(self) -> bool {
        self is Active || self is Deprecated
    }

    /// Whether the files of a project of this status may be downloaded.
    pub open spec fn open_to_downloads(self) -> bool {
        !(self is Quarantined)
    }

    /// Whether the project takes uploads.
    pub fn allows_uploads(self) -> (r: bool)
        ensures
            r == self.open_to_uploads(),
    {
        matches!(self, ProjectStatus::Active | ProjectStatus::Deprecated)
    }

    /// Whether the project's files may be downloaded.
    pub fn offers_downloads(self) -> (r: bool)
        ensures
            r == self.open_to_downloads(),
    {
        !matches!(self, ProjectStatus::Quarantined)
    }

    pub open spec fn rank(self) -> u8 {
        match self {
            ProjectStatus::Active => 0,
            ProjectStatus::Deprecated => 1,
            ProjectStatus::Archived => 2,
            ProjectStatus::Quarantined => 3,
        }
    }

    /// How restrictive the status is.
    pub fn severity(self) -> (r: u8)
        ensures
            r == self.rank(),
    {
        match self {
            ProjectStatus::Active => 0,
            ProjectStatus::Deprecated => 1,
            ProjectStatus::Archived => 2,
            ProjectStatus::Quarantined => 3,
        }
    }
}

/// A status is the one that its own marker names.
pub proof fn marker_names_its_status(status: ProjectStatus)
    ensures
        status_of_marker(status.marker_text()) == Some(status),
{
    reveal_strlit("active");
    reveal_strlit("archived");
    reveal_strlit("quarantined");
    reveal_strlit("deprecated");
    assert("active"@.len() == 6 && "archived"@.len() == 8 && "quarantined"@.len() == 11 && "deprecated"@.len() == 10);
}

/// The more severe of two statuses never offers more: what forbids uploads or downloads is at least as
/// severe as what allows them, but for the deprecated project, which restricts nothing.
pub proof fn severity_restricts(a: ProjectStatus, b: ProjectStatus)
    requires
        a.rank() <= b.rank(),
    ensures
        (b is Active || b is Deprecated) ==> (a is Active || a is Deprecated),
        !(b is Quarantined) ==> !(a is Quarantined),
{
}

} // verus!
