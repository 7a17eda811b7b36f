//! The calls into other crates, and into parts of std, that the library's logic makes. Each is a small
//! function whose contract is taken on trust; nothing else in the library is.
use vstd::prelude::*;

use crate::text::texts;

verus! {

// ---------------------------------------------------------------------------------------------
// std
// ---------------------------------------------------------------------------------------------

/// What std's `Debug` writes for the text `s`.
pub uninterp spec fn quoted_text(s: Seq<char>) -> Seq<char>;

/// `format!` with `{:?}` on a text: a quoted and escaped spelling that depends on the text alone.
#[verifier::external_body]
pub(crate) fn quoted(s: &str) -> (r: String)
    ensures
        r@ == quoted_text(s@),
{
    format!("{s:?}")
}

/// `String::from_utf8`: the text that the bytes encode, when they are valid UTF-8.
#[verifier::external_body]
pub(crate) fn utf8_text(bytes: Vec<u8>) -> (r: Option<String>)
    ensures
        match r {
            Some(s) => vstd::utf8::valid_utf8(bytes@) && s@ == vstd::utf8::decode_utf8(bytes@),
            None => !vstd::utf8::valid_utf8(bytes@),
        },
{
    String::from_utf8(bytes).ok()
}

/// The text of bytes, with what is not UTF-8 among them replaced.
pub uninterp spec fn utf8_lossy(bytes: Seq<u8>) -> Seq<char>;

/// `String::from_utf8_lossy`: the text that the bytes encode, with a replacement character for what is not
/// UTF-8. Valid UTF-8 is read as it is.
#[verifier::external_body]
pub(crate) fn utf8_lossy_text(bytes: &[u8]) -> (r: String)
    ensures
        r@ == utf8_lossy(bytes@),
        vstd::utf8::valid_utf8(bytes@) ==> r@ == vstd::utf8::decode_utf8(bytes@),
{
    String::from_utf8_lossy(bytes).into_owned()
}

/// What the standard library says of bytes that are not UTF-8.
pub uninterp spec fn utf8_error(bytes: Seq<u8>) -> Seq<char>;

/// `str::from_utf8` on bytes that it refuses, and the `Display` of its error.
#[verifier::external_body]
pub(crate) fn utf8_error_text(bytes: &[u8]) -> (r: String)
    requires
        !vstd::utf8::valid_utf8(bytes@),
    ensures
        r@ == utf8_error(bytes@),
{
    core::str::from_utf8(bytes).expect_err("the bytes are not UTF-8").to_string()
}

// ---------------------------------------------------------------------------------------------
// pep440_rs
// ---------------------------------------------------------------------------------------------

/// Whether `pep440_rs` reads `s` as a list of version specifiers.
pub uninterp spec fn specifiers_valid(s: Seq<char>) -> bool;

/// `VersionSpecifiers::from_str`: whether the text is a list of PEP 440 version specifiers.
#[verifier::external_body]
pub(crate) fn is_version_specifiers(s: &str) -> (r: bool)
    ensures
        r == specifiers_valid(s@),
{
    <pep440_rs::VersionSpecifiers as core::str::FromStr>::from_str(s).is_ok()
}

/// Whether the version spelled `version` satisfies the specifiers spelled `specifiers`; nothing when one
/// of the two spellings does not parse.
pub uninterp spec fn specifiers_contain(specifiers: Seq<char>, version: Seq<char>) -> Option<bool>;

/// `VersionSpecifiers::contains` on the parsed specifiers and the parsed version. There is an answer
/// only where both spellings parse.
#[verifier::external_body]
pub(crate) fn specifiers_contain_version(specifiers: &str, version: &str) -> (r: Option<bool>)
    ensures
        r == specifiers_contain(specifiers@, version@),
        r is Some ==> specifiers_valid(specifiers@),
{
    let specifiers = <pep440_rs::VersionSpecifiers as core::str::FromStr>::from_str(specifiers).ok()?;
    let version = <pep440_rs::Version as core::str::FromStr>::from_str(version).ok()?;
    Some(specifiers.contains(&version))
}

/// Whether `pep440_rs` reads `s` as a version.
pub uninterp spec fn version_valid(s: Seq<char>) -> bool;

/// `Version::from_str`: whether the text is a PEP 440 version.
#[verifier::external_body]
pub(crate) fn is_version(s: &str) -> (r: bool)
    ensures
        r == version_valid(s@),
{
    <pep440_rs::Version as core::str::FromStr>::from_str(s).is_ok()
}

/// Whether the version spelled `s` is an alpha, beta, candidate or development one; a spelling that does not
/// parse is none.
pub uninterp spec fn version_prerelease(s: Seq<char>) -> bool;

/// `Version::any_prerelease` on the parsed version: whether it is an alpha, beta, candidate or development
/// one. A spelling that does not parse is none.
#[verifier::external_body]
pub(crate) fn is_prerelease(s: &str) -> (r: bool)
    ensures
        r == version_prerelease(s@),
        !version_valid(s@) ==> !r,
{
    <pep440_rs::Version as core::str::FromStr>::from_str(s).is_ok_and(|version| version.any_prerelease())
}

/// How a version stands to another.
#[derive(Debug, Clone, Copy, PartialEq, Eq, Structural)]
pub enum VersionOrder {
    Older,
    Same,
    Newer,
}

/// How the version spelled `a` stands to the one spelled `b`; nothing when one of the two spellings does
/// not parse.
pub uninterp spec fn version_order(a: Seq<char>, b: Seq<char>) -> Option<VersionOrder>;

/// `Ord` on `Version`: the order of two parsed versions. There is an answer exactly where both spellings
/// parse.
#[verifier::external_body]
pub(crate) fn order_versions(a: &str, b: &str) -> (r: Option<VersionOrder>)
    ensures
        r == version_order(a@, b@),
        r.is_some() == (version_valid(a@) && version_valid(b@)),
{
    let a: pep440_rs::Version = a.parse().ok()?;
    let b: pep440_rs::Version = b.parse().ok()?;
    Some(match a.cmp(&b) {
        core::cmp::Ordering::Less => VersionOrder::Older,
        core::cmp::Ordering::Equal => VersionOrder::Same,
        core::cmp::Ordering::Greater => VersionOrder::Newer,
    })
}

// ---------------------------------------------------------------------------------------------
// time
// ---------------------------------------------------------------------------------------------

/// The Unix second that the RFC 3339 date and time `s` names.
pub uninterp spec fn rfc3339_second(s: Seq<char>) -> Option<i64>;

/// `OffsetDateTime::parse` with the RFC 3339 format, then `OffsetDateTime::unix_timestamp`: the second
/// that the text names, or nothing when it is no RFC 3339 date and time.
#[verifier::external_body]
pub(crate) fn rfc3339_to_unix(s: &str) -> (r: Option<i64>)
    ensures
        r == rfc3339_second(s@),
{
    time::OffsetDateTime::parse(s, &time::format_description::well_known::Rfc3339)
        .ok()
        .map(time::OffsetDateTime::unix_timestamp)
}

// ---------------------------------------------------------------------------------------------
// url
// ---------------------------------------------------------------------------------------------

/// The host of a URL.
pub enum UrlHost {
    Domain(String),
    /// The four bytes of the address, the first one first.
    Ipv4(u8, u8, u8, u8),
    /// The address as one number, the first byte highest.
    Ipv6(u128),
}

/// The parts of a URL that the library reads.
pub struct UrlParts {
    pub scheme: String,
    pub host: Option<UrlHost>,
    pub username: String,
    pub password: Option<String>,
}

/// The host of a URL, its text seen as characters.
pub enum UrlHostText {
    Domain(Seq<char>),
    Ipv4(u8, u8, u8, u8),
    Ipv6(u128),
}

/// The parts of a URL, their text seen as characters.
pub struct UrlText {
    pub scheme: Seq<char>,
    pub host: Option<UrlHostText>,
    pub username: Seq<char>,
    pub password: Option<Seq<char>>,
}

impl UrlParts {
    pub open spec fn view(self) -> UrlText {
        UrlText {
            scheme: self.scheme@,
            host: match self.host {
                None => None,
                Some(UrlHost::Domain(d)) => Some(UrlHostText::Domain(d@)),
                Some(UrlHost::Ipv4(a, b, c, d)) => Some(UrlHostText::Ipv4(a, b, c, d)),
                Some(UrlHost::Ipv6(n)) => Some(UrlHostText::Ipv6(n)),
            },
            username: self.username@,
            password: crate::text::opt_text(self.password),
        }
    }
}

/// The parts of the absolute URL `s`.
pub uninterp spec fn url_of(s: Seq<char>) -> Option<UrlText>;

/// `Url::parse`, then `scheme`, `host`, `username` and `password`: the parts of an absolute URL, or
/// nothing when the text is none.
#[verifier::external_body]
pub(crate) fn parse_url(s: &str) -> (r: Option<UrlParts>)
    ensures
        match r {
            Some(parts) => url_of(s@) == Some(parts@),
            None => url_of(s@) is None,
        },
{
    let url = url::Url::parse(s).ok()?;
    let host = url.host().map(|host| match host {
        url::Host::Domain(domain) => UrlHost::Domain(domain.to_owned()),
        url::Host::Ipv4(ip) => UrlHost::Ipv4(ip.octets()[0], ip.octets()[1], ip.octets()[2], ip.octets()[3]),
        url::Host::Ipv6(ip) => UrlHost::Ipv6(u128::from(ip)),
    });
    Some(UrlParts {
        scheme: url.scheme().to_owned(),
        host,
        username: url.username().to_owned(),
        password: url.password().map(str::to_owned),
    })
}

/// The scheme, host and ports of a URL.
pub struct UrlOrigin {
    pub scheme: String,
    pub host: Option<String>,
    /// The port that stands in the URL, unless it is its scheme's own.
    pub port: Option<u16>,
    /// That port, or the scheme's own.
    pub effective_port: Option<u16>,
}

/// The scheme, host and ports of a URL, their text seen as characters.
pub struct UrlOriginText {
    pub scheme: Seq<char>,
    pub host: Option<Seq<char>>,
    pub port: Option<u16>,
    pub effective_port: Option<u16>,
}

impl UrlOrigin {
    pub open spec fn view(self) -> UrlOriginText {
        UrlOriginText {
            scheme: self.scheme@,
            host: crate::text::opt_text(self.host),
            port: self.port,
            effective_port: self.effective_port,
        }
    }
}

/// The scheme, host and ports of the absolute URL `s`.
pub uninterp spec fn url_origin_of(s: Seq<char>) -> Option<UrlOriginText>;

/// `Url::parse`, then `scheme`, `host_str`, `port` and `port_or_known_default`: what an absolute URL says
/// of where it leads, or nothing when the text is none.
#[verifier::external_body]
pub(crate) fn parse_url_origin(s: &str) -> (r: Option<UrlOrigin>)
    ensures
        match r {
            Some(origin) => url_origin_of(s@) == Some(origin@),
            None => url_origin_of(s@) is None,
        },
{
    let url = url::Url::parse(s).ok()?;
    Some(UrlOrigin {
        scheme: url.scheme().to_owned(),
        host: url.host_str().map(str::to_owned),
        port: url.port(),
        effective_port: url.port_or_known_default(),
    })
}

/// The reference `reference` resolved against the absolute URL `base`.
pub uninterp spec fn url_joined(base: Seq<char>, reference: Seq<char>) -> Option<Seq<char>>;

/// `Url::join` on the parsed base: the resolved URL's text, or nothing when the base is no absolute URL
/// or the reference does not resolve.
#[verifier::external_body]
pub(crate) fn join_url(base: &str, reference: &str) -> (r: Option<String>)
    ensures
        crate::text::opt_text(r) == url_joined(base@, reference@),
{
    url::Url::parse(base).ok()?.join(reference).ok().map(String::from)
}

// ---------------------------------------------------------------------------------------------
// serde_json, on plain values
// ---------------------------------------------------------------------------------------------

/// A hexadecimal digit, as `serde_json` writes it.
pub open spec fn hex_char(n: int) -> char {
    let digits = seq!['0', '1', '2', '3', '4', '5', '6', '7', '8', '9', 'a', 'b', 'c', 'd', 'e', 'f'];
    digits[n]
}

/// How one character stands in a JSON string literal: a quotation mark, a backslash and every control character
/// is escaped, the usual ones by a letter and the others by their number, and any other stands for itself.
pub open spec fn json_char(c: char) -> Seq<char> {
    if c == '"' {
        seq!['\\', '"']
    } else if c == '\\' {
        seq!['\\', '\\']
    } else if c as u32 == 0x08 {
        seq!['\\', 'b']
    } else if c as u32 == 0x09 {
        seq!['\\', 't']
    } else if c as u32 == 0x0A {
        seq!['\\', 'n']
    } else if c as u32 == 0x0C {
        seq!['\\', 'f']
    } else if c as u32 == 0x0D {
        seq!['\\', 'r']
    } else if (c as u32) < 0x20 {
        seq!['\\', 'u', '0', '0', hex_char(c as int / 16), hex_char(c as int % 16)]
    } else {
        seq![c]
    }
}

/// The characters of `s` as they stand in a JSON string literal.
pub open spec fn json_chars(s: Seq<char>) -> Seq<char>
    decreases s.len(),
{
    if s.len() == 0 {
        Seq::empty()
    } else {
        json_chars(s.drop_last()) + json_char(s.last())
    }
}

/// The JSON string literal of the text `s`.
#[verifier::opaque]
pub open spec fn json_string(s: Seq<char>) -> Seq<char> {
    seq!['"'] + json_chars(s) + seq!['"']
}

/// `serde_json::to_string` on a text: its JSON string literal. Serializing a text does not fail.
#[verifier::external_body]
pub(crate) fn json_string_text(s: &str) -> (r: String)
    ensures
        r@ == json_string(s@),
{
    serde_json::to_string(s).expect("text always serializes")
}

/// The list of strings that `serde_json` reads from the JSON document `bytes`.
pub uninterp spec fn json_strings(bytes: Seq<u8>) -> Option<Seq<Seq<char>>>;

/// `serde_json::from_slice` into a list of strings, or nothing when the bytes are no JSON array of
/// strings.
#[verifier::external_body]
pub(crate) fn json_string_list(bytes: &[u8]) -> (r: Option<Vec<String>>)
    ensures
        match r {
            Some(v) => json_strings(bytes@) == Some(texts(v@)),
            None => json_strings(bytes@) is None,
        },
{
    serde_json::from_slice::<Vec<String>>(bytes).ok()
}

/// The string that `serde_json` reads from the JSON document `bytes`.
pub uninterp spec fn json_text(bytes: Seq<u8>) -> Option<Seq<char>>;

/// `serde_json::from_slice` into a string, or nothing when the bytes are no JSON string.
#[verifier::external_body]
pub(crate) fn json_text_of(bytes: &[u8]) -> (r: Option<String>)
    ensures
        crate::text::opt_text(r) == json_text(bytes@),
{
    serde_json::from_slice::<String>(bytes).ok()
}

/// The names of the members of the JSON object `bytes`, as `serde_json` keeps them.
pub uninterp spec fn json_fields(bytes: Seq<u8>) -> Option<Seq<Seq<char>>>;

/// `serde_json::from_slice` into a map from names to JSON values: the names of an object's members, in the order in
/// which the map keeps them, or nothing when the bytes are no JSON object.
#[verifier::external_body]
pub(crate) fn json_object_fields(bytes: &[u8]) -> (r: Option<Vec<String>>)
    ensures
        match r {
            Some(v) => json_fields(bytes@) == Some(texts(v@)),
            None => json_fields(bytes@) is None,
        },
{
    let fields = serde_json::from_slice::<serde_json::Map<String, serde_json::Value>>(bytes).ok()?;
    Some(fields.into_iter().map(|(name, _)| name).collect())
}

/// Whether `serde_json` reads `bytes` as a JSON document.
pub uninterp spec fn json_valid(bytes: Seq<u8>) -> bool;

/// `serde_json::from_slice` into a JSON value: whether the bytes are a JSON document.
#[verifier::external_body]
pub(crate) fn is_json(bytes: &[u8]) -> (r: bool)
    ensures
        r == json_valid(bytes@),
{
    serde_json::from_slice::<serde_json::Value>(bytes).is_ok()
}

/// The string at `pointer` in the JSON document `bytes`.
pub uninterp spec fn json_text_under(bytes: Seq<u8>, pointer: Seq<char>) -> Option<Seq<char>>;

/// `serde_json::from_slice` into a JSON value, `Value::pointer`, then `Value::as_str`: the string at a JSON
/// pointer, or nothing when the bytes are no JSON document or no string stands there.
#[verifier::external_body]
pub(crate) fn json_text_at(bytes: &[u8], pointer: &str) -> (r: Option<String>)
    ensures
        crate::text::opt_text(r) == json_text_under(bytes@, pointer@),
{
    let value = serde_json::from_slice::<serde_json::Value>(bytes).ok()?;
    value.pointer(pointer)?.as_str().map(str::to_owned)
}

/// The number at `pointer` in the JSON document `bytes`.
pub uninterp spec fn json_u64_under(bytes: Seq<u8>, pointer: Seq<char>) -> Option<u64>;

/// `serde_json::from_slice` into a JSON value, `Value::pointer`, then `Value::as_u64`: the number at a JSON
/// pointer, or nothing when the bytes are no JSON document or no number of 64 unsigned bits stands there.
#[verifier::external_body]
pub(crate) fn json_u64_at(bytes: &[u8], pointer: &str) -> (r: Option<u64>)
    ensures
        r == json_u64_under(bytes@, pointer@),
{
    serde_json::from_slice::<serde_json::Value>(bytes).ok()?.pointer(pointer)?.as_u64()
}

/// The pairs that `form_urlencoded::parse` reads from `query`.
pub uninterp spec fn form_pairs_of(query: Seq<char>) -> Seq<(Seq<char>, Seq<char>)>;

/// `form_urlencoded::parse`: the name and value pairs of a query, decoded, in the order they stand.
#[verifier::external_body]
pub(crate) fn form_pairs(query: &str) -> (r: Vec<(String, String)>)
    ensures
        r@.map_values(|p: (String, String)| (p.0@, p.1@)) == form_pairs_of(query@),
{
    url::form_urlencoded::parse(query.as_bytes()).into_owned().collect()
}

/// The query that `form_urlencoded::Serializer` writes for `pairs`.
pub uninterp spec fn form_text_of(pairs: Seq<(Seq<char>, Seq<char>)>) -> Seq<char>;

/// `form_urlencoded::Serializer::extend_pairs`: the query of some pairs, in their order. Reading it gives
/// the pairs back: every byte but a letter, a digit and `*-._` is written as an escape, a blank as `+`.
#[verifier::external_body]
pub(crate) fn form_text(pairs: &Vec<(String, String)>) -> (r: String)
    ensures
        r@ == form_text_of(pairs@.map_values(|p: (String, String)| (p.0@, p.1@))),
        form_pairs_of(r@) == pairs@.map_values(|p: (String, String)| (p.0@, p.1@)),
{
    url::form_urlencoded::Serializer::new(String::new()).extend_pairs(pairs).finish()
}

// ---------------------------------------------------------------------------------------------
// regex
// ---------------------------------------------------------------------------------------------

/// A compiled regular expression.
#[verifier::external_type_specification]
#[verifier::external_body]
pub struct ExRegex(regex::Regex);

/// The pattern a regular expression was compiled from.
pub uninterp spec fn regex_pattern(regex: regex::Regex) -> Seq<char>;

/// What `regex` says of a pattern that does not compile.
pub uninterp spec fn regex_error(pattern: Seq<char>) -> Option<Seq<char>>;

/// Whether the pattern matches somewhere in the text.
pub uninterp spec fn regex_match(pattern: Seq<char>, text: Seq<char>) -> bool;

/// `Regex::new`: the compiled pattern, or the text of its error.
#[verifier::external_body]
pub(crate) fn compile_regex(pattern: &str) -> (r: Result<regex::Regex, String>)
    ensures
        match r {
            Ok(regex) => regex_pattern(regex) == pattern@ && regex_error(pattern@) is None,
            Err(message) => regex_error(pattern@) == Some(message@),
        },
{
    regex::Regex::new(pattern).map_err(|error| error.to_string())
}

/// `Regex::is_match`: whether the expression matches somewhere in the text.
#[verifier::external_body]
pub(crate) fn regex_is_match(regex: &regex::Regex, text: &str) -> (r: bool)
    ensures
        r == regex_match(regex_pattern(*regex), text@),
{
    regex.is_match(text)
}

/// The lowercase of `s`, by Unicode's rules.
pub uninterp spec fn unicode_lower(s: Seq<char>) -> Seq<char>;

/// `str::to_lowercase`: the text in lowercase, by Unicode's derived property.
#[verifier::external_body]
pub(crate) fn lowercase_text(s: &str) -> (r: String)
    ensures
        r@ == unicode_lower(s@),
{
    s.to_lowercase()
}

// ---------------------------------------------------------------------------------------------
// http
// ---------------------------------------------------------------------------------------------

/// The host and the port of the authority `s`.
pub uninterp spec fn authority_of(s: Seq<char>) -> Option<(Seq<char>, Option<u16>)>;

/// `Authority::from_str`, then `host` and `port_u16`: the parts of an authority, or nothing when the text
/// is none.
#[verifier::external_body]
pub(crate) fn parse_authority(s: &str) -> (r: Option<(String, Option<u16>)>)
    ensures
        match r {
            Some((host, port)) => authority_of(s@) == Some((host@, port)),
            None => authority_of(s@) is None,
        },
{
    let authority = s.parse::<axum::http::uri::Authority>().ok()?;
    Some((authority.host().to_owned(), authority.port_u16()))
}

// ---------------------------------------------------------------------------------------------
// blake2
// ---------------------------------------------------------------------------------------------

/// A hasher for BLAKE2b digests of 32 bytes.
#[verifier::external_body]
pub struct Blake2Hasher {
    inner: blake2::Blake2bVar,
}

/// The bytes a hasher has taken in.
pub uninterp spec fn blake2_taken(hasher: Blake2Hasher) -> Seq<u8>;

/// The BLAKE2b digest of `bytes` that is 32 bytes long.
pub uninterp spec fn blake2_256(bytes: Seq<u8>) -> Seq<u8>;

/// `Blake2bVar::new(32)`: a hasher for digests of 32 bytes, a length it accepts, that has taken in
/// nothing.
#[verifier::external_body]
pub(crate) fn blake2_begin() -> (r: Blake2Hasher)
    ensures
        blake2_taken(r) == Seq::<u8>::empty(),
{
    let inner = <blake2::Blake2bVar as blake2::digest::VariableOutput>::new(32).expect("32 bytes is a digest length");
    Blake2Hasher { inner }
}

/// `Update::update`: the hasher takes in more bytes.
#[verifier::external_body]
pub(crate) fn blake2_take(hasher: &mut Blake2Hasher, bytes: &[u8])
    ensures
        blake2_taken(*final(hasher)) == blake2_taken(*old(hasher)) + bytes@,
{
    blake2::digest::Update::update(&mut hasher.inner, bytes)
}

/// `VariableOutput::finalize_variable` into 32 bytes, the length every hasher was made for: the digest of
/// what was taken in.
#[verifier::external_body]
pub(crate) fn blake2_finish(hasher: Blake2Hasher) -> (r: Vec<u8>)
    ensures
        r@ == blake2_256(blake2_taken(hasher)),
        r@.len() == 32,
{
    let mut digest = [0; 32];
    let done = blake2::digest::VariableOutput::finalize_variable(hasher.inner, &mut digest);
    done.expect("32 bytes is the digest's length");
    digest.to_vec()
}

} // verus!
