//! The text a project is found by, held to a byte budget.
use vstd::prelude::*;
use vstd::utf8::{encode_scalar, encode_utf8};

use crate::collections::TextSet;
use crate::simple::file::File;
use crate::simple::page::ProjectDetail;
use crate::text::{chars_of, texts, trim, trimmed};

verus! {

/// How many bytes a text takes.
pub open spec fn width(s: Seq<char>) -> nat {
    encode_utf8(s).len()
}

/// How many bytes a character takes.
pub open spec fn char_width(c: char) -> nat {
    encode_scalar(c as u32).len()
}

fn char_width_of(c: char) -> (r: usize)
    ensures
        r == char_width(c),
        1 <= r <= 4,
{
    broadcast use vstd::utf8::char_is_scalar;

    let v: u32 = c as u32;
    assert(vstd::utf8::is_scalar(v));
    if v <= 0x7F {
        1
    } else if v <= 0x7FF {
        2
    } else if v <= 0xFFFF {
        3
    } else {
        4
    }
}

fn text_width(s: &str) -> (r: usize)
    ensures
        r == width(s@),
{
    s.as_bytes().len()
}

/// A text takes the bytes of its parts.
pub proof fn width_of_joined(a: Seq<char>, b: Seq<char>)
    ensures
        width(a + b) == width(a) + width(b),
    decreases a.len(),
{
    if a.len() == 0 {
        assert(a + b =~= b);
    } else {
        assert((a + b).drop_first() =~= a.drop_first() + b);
        width_of_joined(a.drop_first(), b);
    }
}

/// The longest run of whole characters from the front of `s` that takes at most `available` bytes.
pub open spec fn fitting(s: Seq<char>, available: int) -> Seq<char>
    decreases s.len(),
{
    if s.len() == 0 || char_width(s[0]) > available {
        Seq::empty()
    } else {
        seq![s[0]] + fitting(s.drop_first(), available - char_width(s[0]))
    }
}

proof fn fitting_fits(s: Seq<char>, available: int)
    requires
        available >= 0,
    ensures
        width(fitting(s, available)) <= available,
    decreases s.len(),
{
    if s.len() > 0 && char_width(s[0]) <= available {
        fitting_fits(s.drop_first(), available - char_width(s[0]));
        let rest = fitting(s.drop_first(), available - char_width(s[0]));
        assert((seq![s[0]] + rest).drop_first() =~= rest);
    }
}

fn truncate_to_chars(value: &str, available: usize) -> (r: String)
    ensures
        r@ == fitting(value@, available as int),
{
    let chars = chars_of(value);
    let ghost s = chars@;
    let mut out = String::new();
    let mut left: usize = available;
    let mut i: usize = 0;
    assert(s.skip(0) =~= s);
    assert(out@ + fitting(s, left as int) =~= fitting(s, left as int));
    while i < chars.len()
        invariant
            i <= chars@.len(),
            s == chars@,
            s == value@,
            fitting(s, available as int) == out@ + fitting(s.skip(i as int), left as int),
        decreases chars.len() - i,
    {
        let c: char = chars[i];
        let w: usize = char_width_of(c);
        assert(s.skip(i as int)[0] == c);
        if w > left {
            assert(out@ + fitting(s.skip(i as int), left as int) =~= out@);
            return out;
        }
        let ghost so_far = out@;
        assert(s.skip(i as int).drop_first() =~= s.skip(i + 1));
        out.push(c);
        left = left - w;
        i = i + 1;
        assert(so_far + (seq![c] + fitting(s.skip(i as int), left as int)) =~= out@ + fitting(
            s.skip(i as int),
            left as int,
        ));
    }
    assert(out@ + fitting(s.skip(i as int), left as int) =~= out@);
    out
}

/// `out` with `value`, trimmed, behind it after a blank, cut where the text would exceed `limit` bytes.
/// An empty value adds nothing, and neither does any once the limit is reached.
pub open spec fn pushed_text(out: Seq<char>, value: Seq<char>, limit: int) -> Seq<char> {
    if trimmed(value).len() == 0 || width(out) >= limit {
        out
    } else {
        let separated = if out.len() > 0 {
            out.push(' ')
        } else {
            out
        };
        separated + fitting(trimmed(value), limit - width(separated))
    }
}

fn push_text(out: &mut String, value: &str, limit: usize)
    ensures
        final(out)@ == pushed_text(old(out)@, value@, limit as int),
{
    let ghost start = out@;
    let value = trim(value);
    if value.unicode_len() == 0 || text_width(out.as_str()) >= limit {
        return;
    }
    if out.as_str().unicode_len() > 0 {
        out.push(' ');
    }
    proof {
        assert(start.push(' ') =~= start + seq![' ']);
        width_of_joined(start, seq![' ']);
        assert(width(seq![' ']) == 1) by {
            assert(seq![' '].drop_first() =~= Seq::<char>::empty());
            assert(encode_utf8(seq![' ']) =~= encode_scalar(' ' as u32) + encode_utf8(Seq::empty()));
        }
    }
    let available: usize = limit - text_width(out.as_str());
    let cut = truncate_to_chars(value, available);
    out.append(cut.as_str());
}

/// Pushing keeps a text within its limit.
pub proof fn pushed_text_fits(out: Seq<char>, value: Seq<char>, limit: int)
    requires
        width(out) <= limit,
    ensures
        width(pushed_text(out, value, limit)) <= limit,
{
    if trimmed(value).len() != 0 && width(out) < limit {
        let separated = if out.len() > 0 {
            out.push(' ')
        } else {
            out
        };
        assert(out.push(' ') =~= out + seq![' ']);
        width_of_joined(out, seq![' ']);
        assert(width(seq![' ']) == 1) by {
            assert(seq![' '].drop_first() =~= Seq::<char>::empty());
            assert(encode_utf8(seq![' ']) =~= encode_scalar(' ' as u32) + encode_utf8(Seq::empty()));
        }
        let more = fitting(trimmed(value), limit - width(separated));
        fitting_fits(trimmed(value), limit - width(separated));
        width_of_joined(separated, more);
    }
}

/// `out` with each of `values` pushed in turn.
#[verifier::opaque]
pub open spec fn pushed_all(out: Seq<char>, values: Seq<Seq<char>>, limit: int) -> Seq<char>
    decreases values.len(),
{
    if values.len() == 0 {
        out
    } else {
        pushed_text(pushed_all(out, values.drop_last(), limit), values.last(), limit)
    }
}

proof fn pushed_one(out: Seq<char>, values: Seq<Seq<char>>, value: Seq<char>, limit: int)
    ensures
        pushed_all(out, values.push(value), limit) == pushed_text(pushed_all(out, values, limit), value, limit),
        pushed_all(out, Seq::empty(), limit) == out,
        pushed_all(out, seq![value], limit) == pushed_text(out, value, limit),
{
    reveal(pushed_all);
    assert(values.push(value).drop_last() =~= values);
    assert(seq![value].drop_last() =~= Seq::<Seq<char>>::empty());
}

proof fn pushed_in_two(out: Seq<char>, a: Seq<Seq<char>>, b: Seq<Seq<char>>, limit: int)
    ensures
        pushed_all(out, a + b, limit) == pushed_all(pushed_all(out, a, limit), b, limit),
    decreases b.len(),
{
    reveal(pushed_all);
    if b.len() == 0 {
        assert(a + b =~= a);
    } else {
        assert((a + b).drop_last() =~= a + b.drop_last());
        pushed_in_two(out, a, b.drop_last(), limit);
    }
}

proof fn pushed_all_fits(out: Seq<char>, values: Seq<Seq<char>>, limit: int)
    requires
        width(out) <= limit,
    ensures
        width(pushed_all(out, values, limit)) <= limit,
    decreases values.len(),
{
    reveal(pushed_all);
    if values.len() > 0 {
        pushed_all_fits(out, values.drop_last(), limit);
        pushed_text_fits(pushed_all(out, values.drop_last(), limit), values.last(), limit);
    }
}

/// Whether the value at `i` was there before, blanks around it aside.
pub open spec fn repeated(values: Seq<Seq<char>>, i: int) -> bool {
    exists|j: int| 0 <= j < i && trimmed(#[trigger] values[j]) == trimmed(values[i])
}

/// `out` with each of `values` pushed once.
pub open spec fn pushed_unique(out: Seq<char>, values: Seq<Seq<char>>, limit: int) -> Seq<char>
    decreases values.len(),
{
    if values.len() == 0 {
        out
    } else {
        let so_far = pushed_unique(out, values.drop_last(), limit);
        if repeated(values, values.len() - 1) {
            so_far
        } else {
            pushed_text(so_far, values.last(), limit)
        }
    }
}

proof fn pushed_unique_fits(out: Seq<char>, values: Seq<Seq<char>>, limit: int)
    requires
        width(out) <= limit,
    ensures
        width(pushed_unique(out, values, limit)) <= limit,
    decreases values.len(),
{
    if values.len() > 0 {
        pushed_unique_fits(out, values.drop_last(), limit);
        pushed_text_fits(pushed_unique(out, values.drop_last(), limit), values.last(), limit);
    }
}

/// The texts of borrowed strings.
pub open spec fn strs(values: Seq<&str>) -> Seq<Seq<char>> {
    values.map_values(|s: &str| s@)
}

fn push_unique_text(out: &mut String, values: &Vec<&str>, limit: usize)
    ensures
        final(out)@ == pushed_unique(old(out)@, strs(values@), limit as int),
{
    let ghost start = out@;
    let ghost all = strs(values@);
    let mut seen = TextSet::new();
    let mut i: usize = 0;
    assert(all.take(0) =~= Seq::<Seq<char>>::empty());
    while i < values.len()
        invariant
            i <= values@.len(),
            all == strs(values@),
            out@ == pushed_unique(start, all.take(i as int), limit as int),
            forall|t: Seq<char>| #[trigger]
                seen@.contains(t) == (exists|j: int| 0 <= j < i && trimmed(#[trigger] all[j]) == t),
        decreases values.len() - i,
    {
        let value: &str = values[i];
        assert(all[i as int] == value@);
        let ghost upto = all.take(i + 1);
        assert(upto.drop_last() =~= all.take(i as int));
        assert(upto.last() == value@);
        let ghost was = seen@;
        let key: String = trim(value).to_owned();
        proof {
            assert(repeated(upto, i as int) == was.contains(key@)) by {
                if was.contains(key@) {
                    let j = choose|j: int| 0 <= j < i && trimmed(#[trigger] all[j]) == key@;
                    assert(upto[j] == all[j]);
                }
                if repeated(upto, i as int) {
                    let j = choose|j: int| 0 <= j < i && trimmed(#[trigger] upto[j]) == trimmed(upto[i as int]);
                    assert(all[j] == upto[j]);
                }
            }
        }
        let ghost k = key@;
        if seen.insert(key) {
            push_text(out, value, limit);
        }
        i = i + 1;
        proof {
            assert forall|t: Seq<char>| #[trigger]
                seen@.contains(t) == (exists|j: int| 0 <= j < i && trimmed(#[trigger] all[j]) == t) by {
                if t == k {
                    assert(trimmed(all[i - 1]) == t);
                } else if seen@.contains(t) {
                    assert(was.contains(t));
                }
            }
        }
    }
    assert(all.take(i as int) =~= all);
}

// ---------------------------------------------------------------------------------------------
// Core metadata
// ---------------------------------------------------------------------------------------------

/// The core metadata of a distribution. An import name stands here without the marker behind its `;`.
pub struct CoreMetadataDoc {
    pub name: String,
    pub summary: Option<String>,
    pub requires_python: Option<String>,
    pub license: Option<String>,
    pub license_expression: Option<String>,
    pub author: Option<String>,
    pub author_email: Option<String>,
    pub maintainer: Option<String>,
    pub maintainer_email: Option<String>,
    pub description_content_type: Option<String>,
    pub keywords: Vec<String>,
    pub requires_dist: Vec<String>,
    pub provides_extra: Vec<String>,
    pub classifiers: Vec<String>,
    pub license_files: Vec<String>,
    pub import_names: Vec<String>,
    pub import_namespaces: Vec<String>,
    pub project_urls: Vec<(String, String)>,
    pub home_page: Option<String>,
    pub description: String,
}

/// A text that may be absent, as a list.
pub open spec fn present(value: Option<String>) -> Seq<Seq<char>> {
    match value {
        Some(text) => seq![text@],
        None => Seq::empty(),
    }
}

/// Labels and addresses, in turn.
pub open spec fn url_texts(urls: Seq<(String, String)>) -> Seq<Seq<char>>
    decreases urls.len(),
{
    if urls.len() == 0 {
        Seq::empty()
    } else {
        url_texts(urls.drop_last()).push(urls.last().0@).push(urls.last().1@)
    }
}

/// The short facts of the metadata.
pub open spec fn fact_texts(doc: CoreMetadataDoc) -> Seq<Seq<char>> {
    present(doc.summary) + present(doc.requires_python) + present(doc.license) + present(doc.license_expression)
        + present(doc.author) + present(doc.author_email) + present(doc.maintainer) + present(doc.maintainer_email)
        + present(doc.description_content_type)
}

/// The lists of the metadata.
pub open spec fn list_texts(doc: CoreMetadataDoc) -> Seq<Seq<char>> {
    texts(doc.keywords@) + texts(doc.requires_dist@) + texts(doc.provides_extra@) + texts(doc.classifiers@) + texts(
        doc.license_files@,
    ) + texts(doc.import_names@) + texts(doc.import_namespaces@)
}

/// What of the metadata is searched, in the order it competes for room: the short facts, the lists, the
/// addresses, and the description last.
pub open spec fn metadata_texts(doc: CoreMetadataDoc) -> Seq<Seq<char>> {
    fact_texts(doc) + list_texts(doc) + url_texts(doc.project_urls@) + present(doc.home_page)
        + seq![doc.description@]
}

fn push_present(text: &mut String, value: &Option<String>, limit: usize)
    ensures
        final(text)@ == pushed_all(old(text)@, present(*value), limit as int),
{
    proof {
        pushed_one(
            text@,
            Seq::empty(),
            match value {
                Some(value) => value@,
                None => Seq::empty(),
            },
            limit as int,
        );
    }
    match value {
        Some(value) => {
            push_text(text, value.as_str(), limit);
        },
        None => {},
    }
}

fn push_list(text: &mut String, values: &Vec<String>, limit: usize)
    ensures
        final(text)@ == pushed_all(old(text)@, texts(values@), limit as int),
{
    let ghost start = text@;
    let ghost all = texts(values@);
    let mut i: usize = 0;
    assert(all.take(0) =~= Seq::<Seq<char>>::empty());
    proof {
        pushed_one(start, Seq::empty(), Seq::empty(), limit as int);
    }
    while i < values.len()
        invariant
            i <= values@.len(),
            all == texts(values@),
            text@ == pushed_all(start, all.take(i as int), limit as int),
        decreases values.len() - i,
    {
        push_text(text, values[i].as_str(), limit);
        proof {
            pushed_one(start, all.take(i as int), all[i as int], limit as int);
            assert(all.take(i + 1) =~= all.take(i as int).push(all[i as int]));
        }
        i = i + 1;
    }
    assert(all.take(i as int) =~= all);
}

fn push_urls(text: &mut String, urls: &Vec<(String, String)>, limit: usize)
    ensures
        final(text)@ == pushed_all(old(text)@, url_texts(urls@), limit as int),
{
    let ghost start = text@;
    let mut i: usize = 0;
    assert(urls@.take(0) =~= Seq::<(String, String)>::empty());
    proof {
        pushed_one(start, Seq::empty(), Seq::empty(), limit as int);
    }
    while i < urls.len()
        invariant
            i <= urls@.len(),
            text@ == pushed_all(start, url_texts(urls@.take(i as int)), limit as int),
        decreases urls.len() - i,
    {
        let ghost so_far = url_texts(urls@.take(i as int));
        push_text(text, urls[i].0.as_str(), limit);
        push_text(text, urls[i].1.as_str(), limit);
        proof {
            let label = urls@[i as int].0@;
            let url = urls@[i as int].1@;
            assert(urls@.take(i + 1).drop_last() =~= urls@.take(i as int));
            pushed_one(start, so_far, label, limit as int);
            pushed_one(start, so_far.push(label), url, limit as int);
        }
        i = i + 1;
    }
    assert(urls@.take(i as int) =~= urls@);
}

fn push_facts(text: &mut String, metadata: &CoreMetadataDoc, limit: usize)
    ensures
        final(text)@ == pushed_all(old(text)@, fact_texts(*metadata), limit as int),
{
    let ghost start = text@;
    let ghost l = limit as int;
    push_present(text, &metadata.summary, limit);
    let ghost done = present(metadata.summary);
    push_present(text, &metadata.requires_python, limit);
    proof {
        pushed_in_two(start, done, present(metadata.requires_python), l);
    }
    let ghost done = done + present(metadata.requires_python);
    push_present(text, &metadata.license, limit);
    proof {
        pushed_in_two(start, done, present(metadata.license), l);
    }
    let ghost done = done + present(metadata.license);
    push_present(text, &metadata.license_expression, limit);
    proof {
        pushed_in_two(start, done, present(metadata.license_expression), l);
    }
    let ghost done = done + present(metadata.license_expression);
    push_present(text, &metadata.author, limit);
    proof {
        pushed_in_two(start, done, present(metadata.author), l);
    }
    let ghost done = done + present(metadata.author);
    push_present(text, &metadata.author_email, limit);
    proof {
        pushed_in_two(start, done, present(metadata.author_email), l);
    }
    let ghost done = done + present(metadata.author_email);
    push_present(text, &metadata.maintainer, limit);
    proof {
        pushed_in_two(start, done, present(metadata.maintainer), l);
    }
    let ghost done = done + present(metadata.maintainer);
    push_present(text, &metadata.maintainer_email, limit);
    proof {
        pushed_in_two(start, done, present(metadata.maintainer_email), l);
    }
    let ghost done = done + present(metadata.maintainer_email);
    push_present(text, &metadata.description_content_type, limit);
    proof {
        pushed_in_two(start, done, present(metadata.description_content_type), l);
    }
    let ghost done = done + present(metadata.description_content_type);
}

fn push_lists(text: &mut String, metadata: &CoreMetadataDoc, limit: usize)
    ensures
        final(text)@ == pushed_all(old(text)@, list_texts(*metadata), limit as int),
{
    let ghost start = text@;
    let ghost l = limit as int;
    push_list(text, &metadata.keywords, limit);
    let ghost done = texts(metadata.keywords@);
    push_list(text, &metadata.requires_dist, limit);
    proof {
        pushed_in_two(start, done, texts(metadata.requires_dist@), l);
    }
    let ghost done = done + texts(metadata.requires_dist@);
    push_list(text, &metadata.provides_extra, limit);
    proof {
        pushed_in_two(start, done, texts(metadata.provides_extra@), l);
    }
    let ghost done = done + texts(metadata.provides_extra@);
    push_list(text, &metadata.classifiers, limit);
    proof {
        pushed_in_two(start, done, texts(metadata.classifiers@), l);
    }
    let ghost done = done + texts(metadata.classifiers@);
    push_list(text, &metadata.license_files, limit);
    proof {
        pushed_in_two(start, done, texts(metadata.license_files@), l);
    }
    let ghost done = done + texts(metadata.license_files@);
    push_list(text, &metadata.import_names, limit);
    proof {
        pushed_in_two(start, done, texts(metadata.import_names@), l);
    }
    let ghost done = done + texts(metadata.import_names@);
    push_list(text, &metadata.import_namespaces, limit);
    proof {
        pushed_in_two(start, done, texts(metadata.import_namespaces@), l);
    }
    let ghost done = done + texts(metadata.import_namespaces@);
}

/// Push what of the metadata is searched.
pub fn push_metadata(text: &mut String, metadata: &CoreMetadataDoc, limit: usize)
    ensures
        final(text)@ == pushed_all(old(text)@, metadata_texts(*metadata), limit as int),
{
    let ghost start = text@;
    let ghost l = limit as int;
    push_facts(text, metadata, limit);
    let ghost done = fact_texts(*metadata);
    push_lists(text, metadata, limit);
    proof {
        pushed_in_two(start, done, list_texts(*metadata), l);
    }
    let ghost done = done + list_texts(*metadata);
    push_urls(text, &metadata.project_urls, limit);
    proof {
        pushed_in_two(start, done, url_texts(metadata.project_urls@), l);
    }
    let ghost done = done + url_texts(metadata.project_urls@);
    push_present(text, &metadata.home_page, limit);
    proof {
        pushed_in_two(start, done, present(metadata.home_page), l);
    }
    let ghost done = done + present(metadata.home_page);
    push_text(text, metadata.description.as_str(), limit);
    proof {
        pushed_in_two(start, done, seq![metadata.description@], l);
        pushed_one(pushed_all(start, done, l), Seq::empty(), metadata.description@, l);
    }
}

// ---------------------------------------------------------------------------------------------
// The document's text
// ---------------------------------------------------------------------------------------------

/// What a page's files are found by: their names and the Pythons they require.
pub open spec fn file_texts(files: Seq<File>) -> Seq<Seq<char>>
    decreases files.len(),
{
    if files.len() == 0 {
        Seq::empty()
    } else {
        file_texts(files.drop_last()).push(files.last().filename@) + present(files.last().requires_python)
    }
}

/// The bytes reserved for a project's names.
pub open spec fn identity_bytes(budget: usize) -> int {
    budget as int / 4
}

/// The bytes reserved for its core metadata.
pub open spec fn core_metadata_bytes(budget: usize) -> int {
    budget as int / 2
}

/// A project's names.
pub open spec fn identity_text(display_label: Seq<char>, normalized: Seq<char>, name: Seq<char>, budget: usize) -> Seq<
    char,
> {
    pushed_unique(Seq::empty(), seq![normalized, name, display_label], identity_bytes(budget))
}

/// Its core metadata, when there is any.
pub open spec fn core_metadata_text(metadata: Option<CoreMetadataDoc>, budget: usize) -> Seq<char> {
    match metadata {
        Some(doc) => pushed_all(Seq::empty(), metadata_texts(doc), core_metadata_bytes(budget)),
        None => Seq::empty(),
    }
}

/// The room its catalog has: its own share, and what the other two left of theirs.
pub open spec fn catalog_bytes(identity: Seq<char>, core_metadata: Seq<char>, budget: usize) -> int {
    budget - width(identity) - width(core_metadata)
}

/// The searched text: names, core metadata, then versions and files.
pub open spec fn searched(
    display_label: Seq<char>,
    normalized: Seq<char>,
    detail: ProjectDetail,
    metadata: Option<CoreMetadataDoc>,
    budget: usize,
) -> Seq<char> {
    let identity = identity_text(display_label, normalized, detail.name@, budget);
    let core_metadata = core_metadata_text(metadata, budget);
    let catalog = pushed_unique(
        Seq::empty(),
        texts(detail.versions@) + file_texts(detail.files@),
        catalog_bytes(identity, core_metadata, budget),
    );
    pushed_all(Seq::empty(), seq![identity, core_metadata, catalog], budget as int)
}

fn catalog_values<'a>(detail: &'a ProjectDetail) -> (r: Vec<&'a str>)
    ensures
        strs(r@) == texts(detail.versions@) + file_texts(detail.files@),
{
    let mut values: Vec<&'a str> = Vec::new();
    let mut i: usize = 0;
    assert(strs(values@) =~= texts(detail.versions@).take(0));
    while i < detail.versions.len()
        invariant
            i <= detail.versions@.len(),
            strs(values@) == texts(detail.versions@).take(i as int),
        decreases detail.versions.len() - i,
    {
        let ghost so_far = values@;
        values.push(detail.versions[i].as_str());
        assert(strs(values@) =~= strs(so_far).push(texts(detail.versions@)[i as int]));
        assert(strs(values@) =~= texts(detail.versions@).take(i + 1));
        i = i + 1;
    }
    let ghost versions = texts(detail.versions@);
    assert(strs(values@) =~= versions);
    let mut j: usize = 0;
    assert(detail.files@.take(0) =~= Seq::<File>::empty());
    assert(strs(values@) =~= versions + file_texts(detail.files@.take(0)));
    while j < detail.files.len()
        invariant
            j <= detail.files@.len(),
            strs(values@) == versions + file_texts(detail.files@.take(j as int)),
        decreases detail.files.len() - j,
    {
        let ghost so_far = values@;
        let file = &detail.files[j];
        assert(detail.files@.take(j + 1).drop_last() =~= detail.files@.take(j as int));
        values.push(file.filename.as_str());
        match &file.requires_python {
            Some(python) => {
                values.push(python.as_str());
            },
            None => {},
        }
        assert(strs(values@) =~= strs(so_far).push(file.filename@) + present(file.requires_python));
        assert(strs(values@) =~= versions + (file_texts(detail.files@.take(j as int)).push(file.filename@) + present(
            file.requires_python,
        )));
        j = j + 1;
    }
    assert(detail.files@.take(j as int) =~= detail.files@);
    values
}

proof fn empty_is_free()
    ensures
        width(Seq::empty()) == 0,
{
}

/// The text a project is found by. Its names, its core metadata and its catalog each have a share of the
/// budget; the catalog also takes what the other two leave.
pub fn search_text(
    display_label: &str,
    normalized: &str,
    detail: &ProjectDetail,
    metadata: &Option<CoreMetadataDoc>,
    budget: usize,
) -> (r: String)
    ensures
        r@ == searched(display_label@, normalized@, *detail, *metadata, budget),
{
    proof {
        empty_is_free();
    }
    let mut names: Vec<&str> = Vec::new();
    names.push(normalized);
    names.push(detail.name.as_str());
    names.push(display_label);
    assert(strs(names@) =~= seq![normalized@, detail.name@, display_label@]);
    let mut identity = String::new();
    push_unique_text(&mut identity, &names, budget / 4);
    proof {
        pushed_unique_fits(Seq::empty(), strs(names@), identity_bytes(budget));
    }
    let mut core_metadata = String::new();
    match metadata {
        Some(doc) => {
            push_metadata(&mut core_metadata, doc, budget / 2);
            proof {
                pushed_all_fits(Seq::empty(), metadata_texts(*doc), core_metadata_bytes(budget));
            }
        },
        None => {},
    }
    assert(width(identity@) <= budget / 4);
    assert(width(core_metadata@) <= budget / 2);
    let catalog_limit: usize = budget - text_width(identity.as_str()) - text_width(
        core_metadata.as_str(),
    );
    let values = catalog_values(detail);
    let mut catalog = String::new();
    push_unique_text(&mut catalog, &values, catalog_limit);
    let mut text = String::new();
    push_text(&mut text, identity.as_str(), budget);
    push_text(&mut text, core_metadata.as_str(), budget);
    push_text(&mut text, catalog.as_str(), budget);
    proof {
        let first = seq![identity@];
        let l = budget as int;
        pushed_one(Seq::empty(), Seq::empty(), identity@, l);
        pushed_one(Seq::empty(), first, core_metadata@, l);
        pushed_one(Seq::empty(), first.push(core_metadata@), catalog@, l);
        assert(first.push(core_metadata@).push(catalog@) =~= seq![identity@, core_metadata@, catalog@]);
    }
    text
}

/// A document's text never exceeds its budget, however much a project says of itself.
pub proof fn searched_text_keeps_its_budget(
    display_label: Seq<char>,
    normalized: Seq<char>,
    detail: ProjectDetail,
    metadata: Option<CoreMetadataDoc>,
    budget: usize,
)
    ensures
        width(searched(display_label, normalized, detail, metadata, budget)) <= budget,
{
    empty_is_free();
    let identity = identity_text(display_label, normalized, detail.name@, budget);
    let core_metadata = core_metadata_text(metadata, budget);
    let catalog = pushed_unique(
        Seq::empty(),
        texts(detail.versions@) + file_texts(detail.files@),
        catalog_bytes(identity, core_metadata, budget),
    );
    pushed_all_fits(Seq::empty(), seq![identity, core_metadata, catalog], budget as int);
}

} // verus!
