//! One downloadable file of a project page.
use vstd::prelude::*;

use crate::collections::TextMap;
use crate::outside::{join_url, parse_url, url_joined, url_of, UrlHost, UrlHostText, UrlText};
use crate::text::{ascii_lower_text, eq_ignore_ascii_case, opt_str, opt_text, text_eq};

verus! {

/// Whether a file is yanked: not yanked, yanked, or yanked with a reason.
#[derive(Debug)]
pub enum Yanked {
    No,
    Yes,
    Reason(String),
}

/// A yank state, its reason seen as characters.
pub enum YankedText {
    No,
    Yes,
    Reason(Seq<char>),
}

impl Yanked {
    pub open spec fn view(self) -> YankedText {
        match self {
            Yanked::No => YankedText::No,
            Yanked::Yes => YankedText::Yes,
            Yanked::Reason(reason) => YankedText::Reason(reason@),
        }
    }

    /// A copy.
    pub fn copied(&self) -> (r: Self)
        ensures
            r == *self,
    {
        match self {
            Yanked::No => Yanked::No,
            Yanked::Yes => Yanked::Yes,
            Yanked::Reason(reason) => Yanked::Reason(reason.clone()),
        }
    }

    /// Whether two yank states are the same.
    pub fn same(&self, other: &Yanked) -> (r: bool)
        ensures
            r == (self@ == other@),
    {
        match (self, other) {
            (Yanked::No, Yanked::No) => true,
            (Yanked::Yes, Yanked::Yes) => true,
            (Yanked::Reason(a), Yanked::Reason(b)) => text_eq(a.as_str(), b.as_str()),
            _ => false,
        }
    }
}

impl Default for Yanked {
    fn default() -> (r: Self)
        ensures
            r == Yanked::No,
    {
        Yanked::No
    }
}

/// A metadata marker, its digests seen as characters.
pub enum MetadataText {
    Absent,
    Available,
    Hashes(Map<Seq<char>, Seq<char>>),
}

impl MetadataText {
    /// The sibling's SHA-256 digest.
    pub open spec fn sha256(self) -> Option<Seq<char>> {
        match self {
            MetadataText::Hashes(hashes) => digest_of(hashes),
            _ => None,
        }
    }
}

/// The values of a map, seen as characters.
pub open spec fn text_values(map: Map<Seq<char>, String>) -> Map<Seq<char>, Seq<char>> {
    map.map_values(|s: String| s@)
}

/// The SHA-256 digest among `hashes`.
pub open spec fn digest_of(hashes: Map<Seq<char>, Seq<char>>) -> Option<Seq<char>> {
    if hashes.contains_key("sha256"@) {
        Some(hashes["sha256"@])
    } else {
        None
    }
}

/// Availability of the core-metadata sibling of a file.
pub enum CoreMetadata {
    Absent,
    Available,
    /// The sibling's digests, keyed by algorithm.
    Hashes(TextMap<String>),
}

impl CoreMetadata {
    /// Whether no sibling is advertised.
    pub fn is_absent(&self) -> (r: bool)
        ensures
            r == (self is Absent),
    {
        matches!(self, CoreMetadata::Absent)
    }

    pub open spec fn view(self) -> MetadataText {
        match self {
            CoreMetadata::Absent => MetadataText::Absent,
            CoreMetadata::Available => MetadataText::Available,
            CoreMetadata::Hashes(hashes) => MetadataText::Hashes(text_values(hashes@)),
        }
    }

    /// A copy.
    pub fn copied(&self) -> (r: Self)
        ensures
            r@ == self@,
    {
        match self {
            CoreMetadata::Absent => CoreMetadata::Absent,
            CoreMetadata::Available => CoreMetadata::Available,
            CoreMetadata::Hashes(hashes) => CoreMetadata::Hashes(copy_texts(hashes)),
        }
    }
}

impl Default for CoreMetadata {
    fn default() -> (r: Self)
        ensures
            r == CoreMetadata::Absent,
    {
        CoreMetadata::Absent
    }
}

/// A provenance marker, its URL seen as characters.
pub enum ProvenanceText {
    Absent,
    Null,
    Url(Seq<char>),
}

impl ProvenanceText {
    /// The advertised URL when it is secure.
    pub open spec fn secure_url(self) -> Option<Seq<char>> {
        match self {
            ProvenanceText::Url(value) => if secure_text(value) {
                Some(value)
            } else {
                None
            },
            _ => None,
        }
    }

    /// What is left of the marker once it may only name a secure URL.
    pub open spec fn retained(self) -> ProvenanceText {
        match self {
            ProvenanceText::Url(value) => if secure_text(value) {
                self
            } else {
                ProvenanceText::Absent
            },
            _ => self,
        }
    }
}

/// A file's provenance URL, or an explicit JSON `null`.
#[derive(Debug)]
pub enum Provenance {
    Absent,
    Null,
    Url(String),
}

/// Whether a URL names a loopback host.
pub open spec fn loopback(host: Option<UrlHostText>) -> bool {
    match host {
        Some(UrlHostText::Domain(domain)) => ascii_lower_text(domain) == ascii_lower_text("localhost"@),
        Some(UrlHostText::Ipv4(first, _, _, _)) => first == 127,
        Some(UrlHostText::Ipv6(address)) => address == 1,
        None => false,
    }
}

/// Whether `url` is an absolute secure origin without embedded credentials: a host reached over HTTPS,
/// or a loopback host reached over HTTP.
pub open spec fn secure(url: UrlText) -> bool {
    &&& url.scheme == "https"@ || (url.scheme == "http"@ && loopback(url.host))
    &&& url.host is Some
    &&& url.username.len() == 0
    &&& url.password is None
}

/// Whether the text `value` is a secure URL.
pub open spec fn secure_text(value: Seq<char>) -> bool {
    match url_of(value) {
        Some(url) => secure(url),
        None => false,
    }
}

impl Provenance {
    /// The advertised URL when it is an absolute secure origin without embedded credentials.
    pub fn secure_url(&self) -> (r: Option<&str>)
        ensures
            opt_str(r) == self@.secure_url(),
    {
        let value = match self {
            Provenance::Url(value) => value,
            _ => {
                return None;
            },
        };
        let url = match parse_url(value.as_str()) {
            Some(url) => url,
            None => {
                return None;
            },
        };
        let local: bool = match &url.host {
            Some(UrlHost::Domain(domain)) => eq_ignore_ascii_case(domain.as_str(), "localhost"),
            Some(UrlHost::Ipv4(first, _, _, _)) => *first == 127,
            Some(UrlHost::Ipv6(address)) => *address == 1,
            None => false,
        };
        let scheme_ok: bool = text_eq(url.scheme.as_str(), "https") || (text_eq(url.scheme.as_str(), "http") && local);
        if scheme_ok && url.host.is_some() && url.username.as_str().is_empty() && url.password.is_none() {
            Some(value.as_str())
        } else {
            None
        }
    }

    pub open spec fn view(self) -> ProvenanceText {
        match self {
            Provenance::Absent => ProvenanceText::Absent,
            Provenance::Null => ProvenanceText::Null,
            Provenance::Url(url) => ProvenanceText::Url(url@),
        }
    }

    /// A copy.
    pub fn copied(&self) -> (r: Self)
        ensures
            r == *self,
    {
        match self {
            Provenance::Absent => Provenance::Absent,
            Provenance::Null => Provenance::Null,
            Provenance::Url(url) => Provenance::Url(url.clone()),
        }
    }

    /// Drop a provenance marker that cannot name the secure absolute URL the Simple API requires.
    pub fn retain_secure_url(&mut self)
        ensures
            final(self)@ == old(self)@.retained(),
    {
        if matches!(self, Provenance::Url(_)) && self.secure_url().is_none() {
            *self = Provenance::Absent;
        }
    }
}

impl Default for Provenance {
    fn default() -> (r: Self)
        ensures
            r == Provenance::Absent,
    {
        Provenance::Absent
    }
}

/// What resolving `url` against `base` leaves in its place: an absolute URL stays as it is, and so does
/// one that does not resolve.
pub open spec fn absolute(base: Seq<char>, url: Seq<char>) -> Seq<char> {
    if url_of(url) is Some {
        url
    } else {
        match url_joined(base, url) {
            Some(resolved) => resolved,
            None => url,
        }
    }
}

/// Resolve `url` in place against `base`, turning a relative, root-relative, or protocol-relative file
/// reference into an absolute URL. An already-absolute URL is left intact.
pub fn absolutize(base: &str, url: &mut String)
    ensures
        final(url)@ == absolute(base@, old(url)@),
{
    if parse_url(url.as_str()).is_some() {
        return;
    }
    match join_url(base, url.as_str()) {
        Some(resolved) => {
            *url = resolved;
        },
        None => {},
    }
}

/// One downloadable file in a project's detail page.
pub struct File {
    pub filename: String,
    pub url: String,
    pub hashes: TextMap<String>,
    pub requires_python: Option<String>,
    pub size: Option<u64>,
    pub upload_time: Option<String>,
    pub yanked: Yanked,
    pub core_metadata: CoreMetadata,
    pub dist_info_metadata: CoreMetadata,
    pub gpg_sig: Option<bool>,
    pub provenance: Provenance,
}

/// Copy a map of texts.
pub fn copy_texts(map: &TextMap<String>) -> (r: TextMap<String>)
    ensures
        r@ == map@,
{
    let mut out: TextMap<String> = TextMap::new();
    let n: usize = map.len();
    let mut i: usize = 0;
    while i < n
        invariant
            i <= n,
            n == map.keys().len(),
            n == map.values().len(),
            map@.dom() == map.keys().to_set(),
            forall|j: int|
                0 <= j < map.keys().len() ==> map@.contains_key(#[trigger] map.keys()[j])
                    && map@[map.keys()[j]] == map.values()[j],
            forall|j: int| 0 <= j < i ==> out@.contains_key(#[trigger] map.keys()[j]),
            forall|k: Seq<char>|
                #[trigger] out@.contains_key(k) ==> map@.contains_key(k) && out@[k] == map@[k],
        decreases n - i,
    {
        let key: String = map.key_at(i).to_owned();
        let value: String = map.value_at(i).clone();
        out.insert(key, value);
        i = i + 1;
    }
    assert forall|k: Seq<char>| map@.contains_key(k) implies out@.contains_key(k) by {
        assert(map.keys().to_set().contains(k));
        let j = choose|j: int| 0 <= j < map.keys().len() && map.keys()[j] == k;
        assert(out@.contains_key(map.keys()[j]));
    }
    assert(out@ =~= map@);
    out
}

/// A file, its text seen as characters.
pub struct FileText {
    pub filename: Seq<char>,
    pub url: Seq<char>,
    pub hashes: Map<Seq<char>, Seq<char>>,
    pub requires_python: Option<Seq<char>>,
    pub size: Option<u64>,
    pub upload_time: Option<Seq<char>>,
    pub yanked: YankedText,
    pub core_metadata: MetadataText,
    pub dist_info_metadata: MetadataText,
    pub gpg_sig: Option<bool>,
    pub provenance: ProvenanceText,
}

impl FileText {
    /// The file's SHA-256 digest.
    pub open spec fn sha256(self) -> Option<Seq<char>> {
        digest_of(self.hashes)
    }

    /// The metadata advertised: under the current spelling, or else under the older one.
    pub open spec fn advertised(self) -> MetadataText {
        if self.core_metadata is Absent {
            self.dist_info_metadata
        } else {
            self.core_metadata
        }
    }

    /// The file with `metadata` under both spellings.
    pub open spec fn with_metadata(self, metadata: MetadataText) -> FileText {
        FileText { core_metadata: metadata, dist_info_metadata: metadata, ..self }
    }
}

impl File {
    pub open spec fn view(self) -> FileText {
        FileText {
            filename: self.filename@,
            url: self.url@,
            hashes: text_values(self.hashes@),
            requires_python: opt_text(self.requires_python),
            size: self.size,
            upload_time: opt_text(self.upload_time),
            yanked: self.yanked@,
            core_metadata: self.core_metadata@,
            dist_info_metadata: self.dist_info_metadata@,
            gpg_sig: self.gpg_sig,
            provenance: self.provenance@,
        }
    }

    /// The content address a served file resolves through: its `sha256` hash. A file without one cannot
    /// be content-addressed.
    pub fn sha256(&self) -> (r: Option<&str>)
        ensures
            opt_str(r) == self@.sha256(),
    {
        match self.hashes.get("sha256") {
            Some(digest) => Some(digest.as_str()),
            None => None,
        }
    }

    /// The metadata advertised under either spelling.
    pub fn metadata(&self) -> (r: &CoreMetadata)
        ensures
            r@ == self@.advertised(),
    {
        if self.core_metadata.is_absent() {
            &self.dist_info_metadata
        } else {
            &self.core_metadata
        }
    }

    /// Clear both metadata spellings, when the sibling digest cannot be verified.
    pub fn clear_metadata(&mut self)
        ensures
            final(self)@ == old(self)@.with_metadata(MetadataText::Absent),
    {
        self.core_metadata = CoreMetadata::Absent;
        self.dist_info_metadata = CoreMetadata::Absent;
    }

    /// Advertise `metadata` under both spellings.
    pub fn set_metadata(&mut self, metadata: CoreMetadata)
        ensures
            final(self)@ == old(self)@.with_metadata(metadata@),
    {
        self.core_metadata = metadata.copied();
        self.dist_info_metadata = metadata;
    }

    /// A copy.
    pub fn copied(&self) -> (r: Self)
        ensures
            r@ == self@,
    {
        File {
            filename: self.filename.clone(),
            url: self.url.clone(),
            hashes: copy_texts(&self.hashes),
            requires_python: crate::text::opt_clone(&self.requires_python),
            size: self.size,
            upload_time: crate::text::opt_clone(&self.upload_time),
            yanked: self.yanked.copied(),
            core_metadata: self.core_metadata.copied(),
            dist_info_metadata: self.dist_info_metadata.copied(),
            gpg_sig: self.gpg_sig,
            provenance: self.provenance.copied(),
        }
    }
}

/// What is set is what is advertised.
pub proof fn set_metadata_is_advertised(file: FileText, metadata: MetadataText)
    ensures
        file.with_metadata(metadata).advertised() == metadata,
{
}

} // verus!
