//! What a distribution's filename says.
use vstd::prelude::*;

use crate::policy::PackageType;
use crate::text::opt_text;

verus! {

/// The shape of a distribution file.
#[derive(Debug, Clone, Copy, PartialEq, Eq, Structural)]
pub enum DistributionKind {
    Wheel,
    SdistTarGz,
    SdistZip,
}

impl DistributionKind {
    pub open spec fn package(self) -> PackageType {
        match self {
            DistributionKind::Wheel => PackageType::Wheel,
            DistributionKind::SdistTarGz | DistributionKind::SdistZip => PackageType::Sdist,
        }
    }
}

/// The package type of a distribution shape.
pub fn package_type_of(kind: DistributionKind) -> (r: PackageType)
    ensures
        r == kind.package(),
{
    match kind {
        DistributionKind::Wheel => PackageType::Wheel,
        DistributionKind::SdistTarGz | DistributionKind::SdistZip => PackageType::Sdist,
    }
}

/// A parsed distribution filename.
#[derive(Debug)]
pub struct DistributionFilename {
    pub normalized_name: String,
    /// The version, in its canonical spelling.
    pub version: String,
    pub kind: DistributionKind,
    pub python_tag: Option<String>,
    pub platform_tag: Option<String>,
}

/// A parsed filename, its text seen as characters.
pub struct DistributionText {
    pub normalized_name: Seq<char>,
    pub version: Seq<char>,
    pub kind: DistributionKind,
    pub python_tag: Option<Seq<char>>,
    pub platform_tag: Option<Seq<char>>,
}

impl DistributionFilename {
    pub open spec fn view(self) -> DistributionText {
        DistributionText {
            normalized_name: self.normalized_name@,
            version: self.version@,
            kind: self.kind,
            python_tag: opt_text(self.python_tag),
            platform_tag: opt_text(self.platform_tag),
        }
    }
}

/// An optional parsed filename, seen as text.
pub open spec fn opt_distribution(parsed: Option<DistributionFilename>) -> Option<DistributionText> {
    match parsed {
        Some(parsed) => Some(parsed@),
        None => None,
    }
}

/// The release a served file belongs to, as its filename gives it. A filename that does not parse names
/// no release, so it contributes nothing rather than being withheld.
pub fn served_version(parsed: &Option<DistributionFilename>) -> (r: Option<String>)
    ensures
        opt_text(r) == release_of(opt_distribution(*parsed)),
{
    match parsed {
        Some(parsed) => Some(parsed.version.clone()),
        None => None,
    }
}

/// The release that a parsed filename names.
pub open spec fn release_of(parsed: Option<DistributionText>) -> Option<Seq<char>> {
    match parsed {
        Some(parsed) => Some(parsed.version),
        None => None,
    }
}

} // verus!
