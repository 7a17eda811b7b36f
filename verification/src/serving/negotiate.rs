//! Choosing the representation of a Simple API page.
use vstd::prelude::*;

use crate::text::{
    ascii_lower_text, chars_of, cut_first, decimal_value, eq_ignore_ascii_case, is_digit, pieces, split, split_once,
    text_eq, texts, trim, trimmed,
};

verus! {

/// The negotiated wire format for a Simple API response.
#[derive(Debug, Clone, Copy, PartialEq, Eq, Structural)]
pub enum Format {
    Json,
    Html,
}

/// The strongest claim on a format so far: how specific it was, and the quality it gave, in thousandths.
#[derive(Debug, Clone, Copy, PartialEq, Eq, Structural)]
pub struct Preference {
    pub specificity: u8,
    pub quality: u16,
}

impl Preference {
    /// The stronger of two claims: the more specific, or the better of two equally specific ones.
    pub open spec fn considered(self, specificity: u8, quality: u16) -> Preference {
        if specificity > self.specificity || (specificity == self.specificity && quality > self.quality) {
            Preference { specificity, quality }
        } else {
            self
        }
    }

    /// No claim at all.
    pub open spec fn nothing() -> Preference {
        Preference { specificity: 0, quality: 0 }
    }

    fn consider(self, specificity: u8, quality: u16) -> (r: Preference)
        ensures
            r == self.considered(specificity, quality),
    {
        if specificity > self.specificity || (specificity == self.specificity && quality > self.quality) {
            Preference { specificity, quality }
        } else {
            self
        }
    }
}

/// One media range of an `Accept` field.
pub struct AcceptRange {
    pub media: String,
    pub quality: u16,
    pub utf8: bool,
}

/// A media range, its text seen as characters.
pub struct AcceptText {
    pub media: Seq<char>,
    pub quality: u16,
    pub utf8: bool,
}

impl AcceptRange {
    pub open spec fn view(self) -> AcceptText {
        AcceptText { media: self.media@, quality: self.quality, utf8: self.utf8 }
    }
}

/// The whole and the fraction of a quality value.
pub open spec fn quality_parts(value: Seq<char>) -> (Seq<char>, Seq<char>) {
    match cut_first(value, '.') {
        Some(parts) => parts,
        None => (value, Seq::empty()),
    }
}

/// What a fraction is worth in thousandths.
pub open spec fn thousandths(fraction: Seq<char>) -> int {
    if fraction.len() == 0 {
        0
    } else if fraction.len() == 1 {
        decimal_value(fraction) * 100
    } else if fraction.len() == 2 {
        decimal_value(fraction) * 10
    } else {
        decimal_value(fraction)
    }
}

/// The quality that a value states, in thousandths: `0` or `1` with at most three decimals, and never more
/// than one.
pub open spec fn quality_value(value: Seq<char>) -> Option<u16> {
    let (whole, fraction) = quality_parts(value);
    if fraction.len() > 3 || exists|i: int| 0 <= i < fraction.len() && !is_digit(#[trigger] fraction[i]) {
        None
    } else if whole == seq!['0'] {
        Some(thousandths(fraction) as u16)
    } else if whole == seq!['1'] && forall|i: int| 0 <= i < fraction.len() ==> #[trigger] fraction[i] == '0' {
        Some(1000u16)
    } else {
        None
    }
}

fn fraction_value(fraction: &Vec<char>) -> (r: u16)
    requires
        fraction@.len() <= 3,
        forall|i: int| 0 <= i < fraction@.len() ==> is_digit(#[trigger] fraction@[i]),
    ensures
        r == thousandths(fraction@),
        r <= 999,
{
    let n: usize = fraction.len();
    proof {
        let f = fraction@;
        if f.len() == 1 {
            assert(f.drop_last() =~= Seq::<char>::empty());
            assert(decimal_value(f) == decimal_value(f.drop_last()) * 10 + crate::text::digit_value(f.last()));
        } else if f.len() == 2 {
            assert(f.drop_last() =~= seq![f[0]]);
            assert(seq![f[0]].drop_last() =~= Seq::<char>::empty());
            assert(decimal_value(seq![f[0]]) == decimal_value(seq![f[0]].drop_last()) * 10
                + crate::text::digit_value(f[0]));
            assert(decimal_value(f) == decimal_value(f.drop_last()) * 10 + crate::text::digit_value(f.last()));
        } else if f.len() == 3 {
            assert(f.drop_last() =~= seq![f[0], f[1]]);
            assert(seq![f[0], f[1]].drop_last() =~= seq![f[0]]);
            assert(seq![f[0]].drop_last() =~= Seq::<char>::empty());
            assert(decimal_value(seq![f[0]]) == decimal_value(seq![f[0]].drop_last()) * 10
                + crate::text::digit_value(f[0]));
            assert(decimal_value(seq![f[0], f[1]]) == decimal_value(seq![f[0], f[1]].drop_last()) * 10
                + crate::text::digit_value(f[1]));
            assert(decimal_value(f) == decimal_value(f.drop_last()) * 10 + crate::text::digit_value(f.last()));
        }
    }
    if n == 0 {
        return 0;
    }
    let first: u16 = (fraction[0] as u32 - 48) as u16;
    if n == 1 {
        return first * 100;
    }
    let second: u16 = (fraction[1] as u32 - 48) as u16;
    if n == 2 {
        return (first * 10 + second) * 10;
    }
    let third: u16 = (fraction[2] as u32 - 48) as u16;
    (first * 10 + second) * 10 + third
}

fn parse_qvalue(value: &str) -> (r: Option<u16>)
    ensures
        r == quality_value(value@),
{
    let (whole, fraction) = match split_once(value, '.') {
        Some(parts) => parts,
        None => (value, ""),
    };
    proof {
        reveal_strlit("");
        assert(""@ =~= Seq::<char>::empty());
        assert(quality_parts(value@) == (whole@, fraction@));
    }
    let digits = chars_of(fraction);
    if digits.len() > 3 {
        return None;
    }
    let mut zeros: bool = true;
    let mut i: usize = 0;
    while i < digits.len()
        invariant
            i <= digits@.len(),
            forall|j: int| 0 <= j < i ==> is_digit(#[trigger] digits@[j]),
            zeros == (forall|j: int| 0 <= j < i ==> #[trigger] digits@[j] == '0'),
            digits@ == fraction@,
            quality_parts(value@) == (whole@, fraction@),
        decreases digits.len() - i,
    {
        let c: char = digits[i];
        if !('0' <= c && c <= '9') {
            assert(!is_digit(digits@[i as int]));
            return None;
        }
        if c != '0' {
            zeros = false;
            assert(digits@[i as int] != '0');
        }
        i = i + 1;
    }
    proof {
        reveal_strlit("0");
        reveal_strlit("1");
        assert("0"@ =~= seq!['0']);
        assert("1"@ =~= seq!['1']);
    }
    if text_eq(whole, "0") {
        Some(fraction_value(&digits))
    } else if text_eq(whole, "1") && zeros {
        Some(1000)
    } else {
        None
    }
}

/// What the parameters say so far: a quality once at most, and a UTF-8 charset once at most.
pub struct Parameters {
    pub quality: Option<u16>,
    pub utf8: bool,
}

/// The parameters with one more. Nothing for a parameter that is not understood, or repeated.
pub open spec fn parameter_read(so_far: Parameters, parameter: Seq<char>) -> Option<Parameters> {
    match cut_first(parameter, '=') {
        None => None,
        Some((name, value)) => {
            let name = ascii_lower_text(trimmed(name));
            let value = trimmed(value);
            if name == ascii_lower_text("q"@) {
                match quality_value(value) {
                    Some(quality) if so_far.quality is None => Some(
                        Parameters { quality: Some(quality), utf8: so_far.utf8 },
                    ),
                    _ => None,
                }
            } else if name == ascii_lower_text("charset"@) && !so_far.utf8 && (ascii_lower_text(value)
                == ascii_lower_text("utf-8"@) || ascii_lower_text(value) == ascii_lower_text("\"utf-8\""@)) {
                Some(Parameters { quality: so_far.quality, utf8: true })
            } else {
                None
            }
        },
    }
}

/// What the first `n` parts behind the media range say.
pub open spec fn parameters_of(parts: Seq<Seq<char>>, n: int) -> Option<Parameters>
    decreases n,
{
    if n <= 0 {
        Some(Parameters { quality: None, utf8: false })
    } else {
        match parameters_of(parts, n - 1) {
            Some(so_far) => parameter_read(so_far, parts[n]),
            None => None,
        }
    }
}

/// The media range that a piece of an `Accept` field names.
pub open spec fn accept_range(range: Seq<char>) -> Option<AcceptText> {
    let parts = pieces(range, ';');
    match parameters_of(parts, parts.len() - 1) {
        Some(parameters) => if trimmed(parts[0]).len() > 0 {
            Some(
                AcceptText {
                    media: trimmed(parts[0]),
                    quality: match parameters.quality {
                        Some(quality) => quality,
                        None => 1000,
                    },
                    utf8: parameters.utf8,
                },
            )
        } else {
            None
        },
        None => None,
    }
}

fn read_parameter(so_far: Parameters, parameter: &str) -> (r: Option<Parameters>)
    ensures
        r == parameter_read(so_far, parameter@),
{
    let (name, value) = match split_once(parameter, '=') {
        Some(pair) => pair,
        None => {
            return None;
        },
    };
    let name = trim(name);
    let value = trim(value);
    if eq_ignore_ascii_case(name, "q") {
        if so_far.quality.is_some() {
            return None;
        }
        match parse_qvalue(value) {
            Some(quality) => Some(Parameters { quality: Some(quality), utf8: so_far.utf8 }),
            None => None,
        }
    } else if eq_ignore_ascii_case(name, "charset") {
        if so_far.utf8 || !(eq_ignore_ascii_case(value, "utf-8") || eq_ignore_ascii_case(value, "\"utf-8\"")) {
            return None;
        }
        Some(Parameters { quality: so_far.quality, utf8: true })
    } else {
        None
    }
}

proof fn pieces_are_some(s: Seq<char>, c: char)
    ensures
        pieces(s, c).len() >= 1,
    decreases s.len(),
{
}

proof fn parameters_stay_unread(parts: Seq<Seq<char>>, m: int, n: int)
    requires
        0 <= m <= n,
        parameters_of(parts, m) is None,
    ensures
        parameters_of(parts, n) is None,
    decreases n,
{
    if m < n {
        parameters_stay_unread(parts, m, n - 1);
    }
}

fn parse_accept_range(range: &str) -> (r: Option<AcceptRange>)
    ensures
        match r {
            Some(range_read) => accept_range(range@) == Some(range_read@),
            None => accept_range(range@) is None,
        },
{
    let parts = split(range, ';');
    let ghost all = pieces(range@, ';');
    proof {
        pieces_are_some(range@, ';');
        assert(texts(parts@) == all);
        assert(parts@.len() == all.len());
    }
    let mut parameters = Parameters { quality: None, utf8: false };
    let mut i: usize = 1;
    while i < parts.len()
        invariant
            1 <= i <= parts@.len(),
            texts(parts@) == all,
            parts@.len() == all.len(),
            all == pieces(range@, ';'),
            parameters_of(all, i - 1) == Some(parameters),
        decreases parts.len() - i,
    {
        assert(all[i as int] == parts@[i as int]@);
        match read_parameter(parameters, parts[i].as_str()) {
            Some(next) => {
                parameters = next;
            },
            None => {
                proof {
                    assert(parameters_of(all, i as int) is None);
                    parameters_stay_unread(all, i as int, all.len() - 1);
                }
                return None;
            },
        }
        i = i + 1;
    }
    assert(all[0] == parts@[0]@);
    let media = trim(parts[0].as_str());
    if media.unicode_len() == 0 {
        return None;
    }
    Some(
        AcceptRange {
            media: media.to_owned(),
            quality: match parameters.quality {
                Some(quality) => quality,
                None => 1000,
            },
            utf8: parameters.utf8,
        },
    )
}

/// Whether `media` is one of three names, letter case aside.
pub open spec fn names_media(media: Seq<char>, name: Seq<char>) -> bool {
    ascii_lower_text(media) == ascii_lower_text(name)
}

/// How specifically a media range asks for JSON.
pub open spec fn json_specificity(media: Seq<char>) -> Option<u8> {
    if names_media(media, "application/json"@) || names_media(media, "application/vnd.pypi.simple.v1+json"@)
        || names_media(media, "application/vnd.pypi.simple.latest+json"@) {
        Some(2u8)
    } else if names_media(media, "application/*"@) {
        Some(1u8)
    } else if names_media(media, "*/*"@) {
        Some(0u8)
    } else {
        None
    }
}

/// How specifically a media range asks for HTML.
pub open spec fn html_specificity(media: Seq<char>) -> Option<u8> {
    if names_media(media, "text/html"@) || names_media(media, "application/vnd.pypi.simple.v1+html"@)
        || names_media(media, "application/vnd.pypi.simple.latest+html"@) {
        Some(2u8)
    } else if names_media(media, "text/*"@) || names_media(media, "application/*"@) {
        Some(1u8)
    } else if names_media(media, "*/*"@) {
        Some(0u8)
    } else {
        None
    }
}

fn specificity_of_json(media: &str) -> (r: Option<u8>)
    ensures
        r == json_specificity(media@),
{
    if eq_ignore_ascii_case(media, "application/json") || eq_ignore_ascii_case(
        media,
        "application/vnd.pypi.simple.v1+json",
    ) || eq_ignore_ascii_case(media, "application/vnd.pypi.simple.latest+json") {
        Some(2)
    } else if eq_ignore_ascii_case(media, "application/*") {
        Some(1)
    } else if eq_ignore_ascii_case(media, "*/*") {
        Some(0)
    } else {
        None
    }
}

fn specificity_of_html(media: &str) -> (r: Option<u8>)
    ensures
        r == html_specificity(media@),
{
    if eq_ignore_ascii_case(media, "text/html") || eq_ignore_ascii_case(media, "application/vnd.pypi.simple.v1+html")
        || eq_ignore_ascii_case(media, "application/vnd.pypi.simple.latest+html") {
        Some(2)
    } else if eq_ignore_ascii_case(media, "text/*") || eq_ignore_ascii_case(media, "application/*") {
        Some(1)
    } else if eq_ignore_ascii_case(media, "*/*") {
        Some(0)
    } else {
        None
    }
}

/// The claims on both formats once a piece of an `Accept` field is read. A range that asks for a charset
/// asks for HTML only, and more specifically.
pub open spec fn claims_after(claims: (Preference, Preference), piece: Seq<char>) -> (Preference, Preference) {
    match accept_range(piece) {
        None => claims,
        Some(range) => (
            match json_specificity(range.media) {
                Some(specificity) if !range.utf8 => claims.0.considered((specificity * 2) as u8, range.quality),
                _ => claims.0,
            },
            match html_specificity(range.media) {
                Some(specificity) => claims.1.considered(
                    (specificity * 2 + if range.utf8 {
                        1int
                    } else {
                        0int
                    }) as u8,
                    range.quality,
                ),
                None => claims.1,
            },
        ),
    }
}

/// The claims once the first `n` pieces of a field are read.
pub open spec fn claims_of_pieces(claims: (Preference, Preference), all: Seq<Seq<char>>, n: int) -> (
    Preference,
    Preference,
)
    decreases n,
{
    if n <= 0 {
        claims
    } else {
        claims_after(claims_of_pieces(claims, all, n - 1), all[n - 1])
    }
}

/// The claims once the first `n` fields are read.
pub open spec fn claims_of_fields(fields: Seq<Seq<char>>, n: int) -> (Preference, Preference)
    decreases n,
{
    if n <= 0 {
        (Preference::nothing(), Preference::nothing())
    } else {
        let all = pieces(fields[n - 1], ',');
        claims_of_pieces(claims_of_fields(fields, n - 1), all, all.len() as int)
    }
}

/// The format that the `Accept` fields choose: JSON where it is strictly preferred, else HTML.
pub open spec fn negotiated(fields: Seq<Seq<char>>) -> Format {
    let (json, html) = claims_of_fields(fields, fields.len() as int);
    if json.quality > html.quality {
        Format::Json
    } else {
        Format::Html
    }
}

fn read_piece(claims: (Preference, Preference), piece: &str) -> (r: (Preference, Preference))
    ensures
        r == claims_after(claims, piece@),
{
    let range = match parse_accept_range(piece) {
        Some(range) => range,
        None => {
            return claims;
        },
    };
    let (mut json, mut html) = claims;
    if !range.utf8 {
        match specificity_of_json(range.media.as_str()) {
            Some(specificity) => {
                json = json.consider(specificity * 2, range.quality);
            },
            None => {},
        }
    }
    match specificity_of_html(range.media.as_str()) {
        Some(specificity) => {
            let charset: u8 = if range.utf8 {
                1
            } else {
                0
            };
            html = html.consider(specificity * 2 + charset, range.quality);
        },
        None => {},
    }
    (json, html)
}

/// Pick the supported response format with the highest `Accept` quality, falling back to HTML. `fields`
/// are the values of the request's `Accept` fields.
#[must_use]
pub fn negotiate(fields: &Vec<String>) -> (r: Format)
    ensures
        r == negotiated(texts(fields@)),
{
    let ghost all_fields = texts(fields@);
    let mut claims: (Preference, Preference) = (
        Preference { specificity: 0, quality: 0 },
        Preference { specificity: 0, quality: 0 },
    );
    let mut i: usize = 0;
    while i < fields.len()
        invariant
            i <= fields@.len(),
            all_fields == texts(fields@),
            claims == claims_of_fields(all_fields, i as int),
        decreases fields.len() - i,
    {
        let ghost before = claims;
        let parts = split(fields[i].as_str(), ',');
        let ghost all = pieces(all_fields[i as int], ',');
        assert(texts(parts@) == all);
        assert(parts@.len() == all.len());
        let mut j: usize = 0;
        while j < parts.len()
            invariant
                j <= parts@.len(),
                texts(parts@) == all,
                parts@.len() == all.len(),
                claims == claims_of_pieces(before, all, j as int),
            decreases parts.len() - j,
        {
            assert(all[j as int] == parts@[j as int]@);
            claims = read_piece(claims, parts[j].as_str());
            j = j + 1;
        }
        i = i + 1;
    }
    if claims.0.quality > claims.1.quality {
        Format::Json
    } else {
        Format::Html
    }
}

/// A request that states no preference is answered with HTML.
pub proof fn silence_chooses_html()
    ensures
        negotiated(Seq::empty()) == Format::Html,
{
}

} // verus!
