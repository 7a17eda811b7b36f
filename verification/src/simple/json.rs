//! The JSON form of the Simple API: what a page, a file, and a status object are written as.
use vstd::prelude::*;

use super::file::{text_values, CoreMetadata, File, FileText, MetadataText, Provenance, ProvenanceText, Yanked, YankedText};
use super::meta::{Meta, ProjectStatusObject};
use super::page::{ProjectDetail, ProjectList, ProjectListEntry};
use crate::collections::{listed, listed_is, TextMap};
use crate::outside::{json_string, json_string_text};
use crate::text::{decimal, decimal_text, opt_str, opt_text, texts};

verus! {

/// `items` with a comma between any two.
pub open spec fn comma_joined(items: Seq<Seq<char>>) -> Seq<char>
    decreases items.len(),
{
    if items.len() == 0 {
        Seq::empty()
    } else if items.len() == 1 {
        items[0]
    } else {
        comma_joined(items.drop_last()) + ","@ + items.last()
    }
}

/// One more item behind `so_far`.
pub open spec fn comma_then(count: nat, so_far: Seq<char>, item: Seq<char>) -> Seq<char> {
    if count == 0 {
        item
    } else {
        so_far + ","@ + item
    }
}

/// Joining one more item.
pub proof fn comma_joined_push(items: Seq<Seq<char>>, item: Seq<char>)
    ensures
        comma_joined(items.push(item)) == comma_then(items.len(), comma_joined(items), item),
{
    assert(items.push(item).drop_last() =~= items);
}

/// A JSON boolean.
pub open spec fn json_bool(b: bool) -> Seq<char> {
    if b {
        "true"@
    } else {
        "false"@
    }
}

/// A JSON boolean.
pub fn json_bool_text(b: bool) -> (r: &'static str)
    ensures
        r@ == json_bool(b),
{
    if b {
        "true"
    } else {
        "false"
    }
}

/// The members of an object whose values are strings, their names in order.
pub open spec fn json_pairs(map: Map<Seq<char>, Seq<char>>) -> Seq<Seq<char>> {
    listed(map.dom()).map_values(|k: Seq<char>| json_string(k) + ":"@ + json_string(map[k]))
}

/// A map of texts as an object.
pub open spec fn json_map(map: Map<Seq<char>, Seq<char>>) -> Seq<char> {
    "{"@ + comma_joined(json_pairs(map)) + "}"@
}

/// Write a map of texts.
pub fn write_map(out: &mut String, map: &TextMap<String>)
    ensures
        final(out)@ == old(out)@ + json_map(text_values(map@)),
{
    let ghost start = out@;
    let n: usize = map.len();
    let ghost shown = text_values(map@);
    let ghost pairs = json_pairs(shown);
    proof {
        listed_is(map.keys());
        assert(shown.dom() =~= map@.dom());
    }
    let mut body = String::new();
    let mut i: usize = 0;
    assert(pairs.take(0) =~= Seq::<Seq<char>>::empty());
    while i < n
        invariant
            i <= n,
            n == map.keys().len(),
            n == map.values().len(),
            shown == text_values(map@),
            listed(shown.dom()) == map.keys(),
            pairs == json_pairs(shown),
            body@ == comma_joined(pairs.take(i as int)),
        decreases n - i,
    {
        let key = json_string_text(map.key_at(i));
        let value = json_string_text(map.value_at(i).as_str());
        let mut item = key;
        item.append(":");
        item.append(value.as_str());
        assert(map@.contains_key(map.keys()[i as int]));
        assert(item@ =~= pairs[i as int]);
        proof {
            comma_joined_push(pairs.take(i as int), item@);
            assert(pairs.take(i as int).push(item@) =~= pairs.take(i + 1));
        }
        if i > 0 {
            body.append(",");
            body.append(item.as_str());
        } else {
            body = item;
        }
        i = i + 1;
    }
    assert(pairs.take(i as int) =~= pairs);
    out.append("{");
    out.append(body.as_str());
    out.append("}");
    assert(out@ =~= start + json_map(shown));
}

/// A list of strings as an array.
pub open spec fn json_list(items: Seq<Seq<char>>) -> Seq<char> {
    "["@ + comma_joined(items.map_values(|s: Seq<char>| json_string(s))) + "]"@
}

/// Write a list of strings.
pub fn write_list(out: &mut String, items: &Vec<String>)
    ensures
        final(out)@ == old(out)@ + json_list(texts(items@)),
{
    let ghost start = out@;
    let ghost all = texts(items@).map_values(|s: Seq<char>| json_string(s));
    let mut body = String::new();
    let mut i: usize = 0;
    assert(all.take(0) =~= Seq::<Seq<char>>::empty());
    while i < items.len()
        invariant
            i <= items@.len(),
            all == texts(items@).map_values(|s: Seq<char>| json_string(s)),
            body@ == comma_joined(all.take(i as int)),
        decreases items.len() - i,
    {
        let item = json_string_text(items[i].as_str());
        proof {
            comma_joined_push(all.take(i as int), item@);
            assert(all.take(i as int).push(item@) =~= all.take(i + 1));
        }
        if i > 0 {
            body.append(",");
            body.append(item.as_str());
        } else {
            body = item;
        }
        i = i + 1;
    }
    assert(all.take(i as int) =~= all);
    out.append("[");
    out.append(body.as_str());
    out.append("]");
    assert(out@ =~= start + json_list(texts(items@)));
}

/// A yank state: a boolean, or the reason.
pub open spec fn json_yanked(yanked: YankedText) -> Seq<char> {
    match yanked {
        YankedText::No => "false"@,
        YankedText::Yes => "true"@,
        YankedText::Reason(reason) => json_string(reason),
    }
}

/// The JSON form of a yank state.
pub fn yanked_json(yanked: &Yanked) -> (r: String)
    ensures
        r@ == json_yanked(yanked@),
{
    match yanked {
        Yanked::No => "false".to_owned(),
        Yanked::Yes => "true".to_owned(),
        Yanked::Reason(reason) => json_string_text(reason.as_str()),
    }
}

/// A metadata marker: a boolean, or the digests.
pub open spec fn json_metadata(metadata: MetadataText) -> Seq<char> {
    match metadata {
        MetadataText::Absent => "false"@,
        MetadataText::Available => "true"@,
        MetadataText::Hashes(hashes) => json_map(hashes),
    }
}

/// The JSON form of a metadata marker.
pub fn metadata_json(metadata: &CoreMetadata) -> (r: String)
    ensures
        r@ == json_metadata(metadata@),
{
    match metadata {
        CoreMetadata::Absent => "false".to_owned(),
        CoreMetadata::Available => "true".to_owned(),
        CoreMetadata::Hashes(hashes) => {
            let mut out = String::new();
            write_map(&mut out, hashes);
            assert(out@ =~= json_map(text_values(hashes@)));
            out
        },
    }
}

/// A member that is written only when its text is there.
pub open spec fn json_optional(name: Seq<char>, value: Option<Seq<char>>) -> Seq<char> {
    match value {
        Some(text) => name + json_string(text),
        None => Seq::empty(),
    }
}

/// Write a text member when it is there; `name` is what stands before its value.
pub fn write_optional(out: &mut String, name: &str, value: Option<&str>)
    ensures
        final(out)@ == old(out)@ + json_optional(name@, opt_str(value)),
{
    let ghost start = out@;
    match value {
        Some(text) => {
            let literal = json_string_text(text);
            out.append(name);
            out.append(literal.as_str());
            assert(out@ =~= start + (name@ + json_string(text@)));
        },
        None => {
            assert(out@ =~= start + Seq::<char>::empty());
        },
    }
}

/// The provenance member of a file.
pub open spec fn json_provenance(provenance: ProvenanceText) -> Seq<char> {
    match provenance {
        ProvenanceText::Absent => Seq::empty(),
        ProvenanceText::Null => ",\"provenance\":null"@,
        ProvenanceText::Url(url) => ",\"provenance\":"@ + json_string(url),
    }
}

/// The older spelling of the metadata member, written beside the current one when there is metadata.
pub open spec fn json_older_metadata(metadata: MetadataText) -> Seq<char> {
    if metadata is Absent {
        Seq::empty()
    } else {
        ",\"dist-info-metadata\":"@ + json_metadata(metadata)
    }
}

/// A file as an object. Both metadata spellings say what the file advertises under either.
pub open spec fn json_file(file: FileText) -> Seq<char> {
    "{\"filename\":"@ + json_string(file.filename) + ",\"url\":"@ + json_string(file.url) + ",\"hashes\":"@
        + json_map(file.hashes) + json_optional(",\"requires-python\":"@, file.requires_python) + (
    match file.size {
        Some(size) => ",\"size\":"@ + decimal(size as nat),
        None => Seq::empty(),
    }) + json_optional(",\"upload-time\":"@, file.upload_time) + ",\"yanked\":"@ + json_yanked(file.yanked)
        + ",\"core-metadata\":"@ + json_metadata(file.advertised()) + json_older_metadata(file.advertised()) + (
    match file.gpg_sig {
        Some(signed) => ",\"gpg-sig\":"@ + json_bool(signed),
        None => Seq::empty(),
    }) + json_provenance(file.provenance) + "}"@
}

/// Write a file.
pub fn file_json(file: &File) -> (r: String)
    ensures
        r@ == json_file(file@),
{
    let mut out = "{\"filename\":".to_owned();
    let filename = json_string_text(file.filename.as_str());
    out.append(filename.as_str());
    out.append(",\"url\":");
    let url = json_string_text(file.url.as_str());
    out.append(url.as_str());
    out.append(",\"hashes\":");
    write_map(&mut out, &file.hashes);
    write_optional(&mut out, ",\"requires-python\":", crate::text::opt_as_str(&file.requires_python));
    let ghost g1 = out@;
    match file.size {
        Some(size) => {
            let number = decimal_text(size);
            out.append(",\"size\":");
            out.append(number.as_str());
            assert(out@ =~= g1 + (",\"size\":"@ + decimal(size as nat)));
        },
        None => {
            assert(out@ =~= g1 + Seq::<char>::empty());
        },
    }
    write_optional(&mut out, ",\"upload-time\":", crate::text::opt_as_str(&file.upload_time));
    out.append(",\"yanked\":");
    let yanked = yanked_json(&file.yanked);
    out.append(yanked.as_str());
    out.append(",\"core-metadata\":");
    let metadata = metadata_json(file.metadata());
    out.append(metadata.as_str());
    let ghost g2 = out@;
    if !file.metadata().is_absent() {
        out.append(",\"dist-info-metadata\":");
        out.append(metadata.as_str());
        assert(out@ =~= g2 + (",\"dist-info-metadata\":"@ + json_metadata(file@.advertised())));
    } else {
        assert(out@ =~= g2 + Seq::<char>::empty());
    }
    let ghost g3 = out@;
    match file.gpg_sig {
        Some(signed) => {
            out.append(",\"gpg-sig\":");
            out.append(json_bool_text(signed));
            assert(out@ =~= g3 + (",\"gpg-sig\":"@ + json_bool(signed)));
        },
        None => {
            assert(out@ =~= g3 + Seq::<char>::empty());
        },
    }
    let ghost g4 = out@;
    match &file.provenance {
        Provenance::Absent => {
            assert(out@ =~= g4 + Seq::<char>::empty());
        },
        Provenance::Null => {
            out.append(",\"provenance\":null");
        },
        Provenance::Url(url) => {
            let literal = json_string_text(url.as_str());
            out.append(",\"provenance\":");
            out.append(literal.as_str());
            assert(out@ =~= g4 + (",\"provenance\":"@ + json_string(url@)));
        },
    }
    out.append("}");
    out
}

/// A `meta` object: it carries the API version alone.
pub open spec fn json_meta(version: Seq<char>) -> Seq<char> {
    "{\"api-version\":"@ + json_string(version) + "}"@
}

/// Write a `meta` object.
pub fn meta_json(meta: &Meta) -> (r: String)
    ensures
        r@ == json_meta(meta.api_version@),
{
    let mut out = "{\"api-version\":".to_owned();
    let version = json_string_text(meta.api_version);
    out.append(version.as_str());
    out.append("}");
    out
}

/// A status object: the marker and the reason, each when it is there.
pub open spec fn json_status(status: Option<Seq<char>>, reason: Option<Seq<char>>) -> Seq<char> {
    match (status, reason) {
        (None, None) => "{}"@,
        (Some(status), None) => "{\"status\":"@ + json_string(status) + "}"@,
        (None, Some(reason)) => "{\"reason\":"@ + json_string(reason) + "}"@,
        (Some(status), Some(reason)) => "{\"status\":"@ + json_string(status) + ",\"reason\":"@ + json_string(reason)
            + "}"@,
    }
}

/// Write a status object.
pub fn status_json(object: &ProjectStatusObject<'_>) -> (r: String)
    ensures
        r@ == json_status(opt_str(object.status), opt_str(object.reason)),
{
    match (object.status, object.reason) {
        (None, None) => "{}".to_owned(),
        (Some(status), None) => {
            let mut out = "{\"status\":".to_owned();
            let text = json_string_text(status);
            out.append(text.as_str());
            out.append("}");
            out
        },
        (None, Some(reason)) => {
            let mut out = "{\"reason\":".to_owned();
            let text = json_string_text(reason);
            out.append(text.as_str());
            out.append("}");
            out
        },
        (Some(status), Some(reason)) => {
            let mut out = "{\"status\":".to_owned();
            let text = json_string_text(status);
            out.append(text.as_str());
            out.append(",\"reason\":");
            let more = json_string_text(reason);
            out.append(more.as_str());
            out.append("}");
            out
        },
    }
}

/// The files of a page, in order.
pub open spec fn json_files(files: Seq<File>) -> Seq<Seq<char>> {
    files.map_values(|f: File| json_file(f@))
}

/// A project page as an object. The status object stands behind `meta` when there is one.
pub open spec fn json_detail(detail: ProjectDetail) -> Seq<char> {
    "{\"meta\":"@ + json_meta(detail.meta.api_version@) + (if detail.meta.project_status is Some
        || detail.meta.project_status_reason is Some {
        ",\"project-status\":"@ + json_status(
            opt_text(detail.meta.project_status),
            opt_text(detail.meta.project_status_reason),
        )
    } else {
        Seq::empty()
    }) + ",\"name\":"@ + json_string(detail.name@) + ",\"versions\":"@ + json_list(texts(detail.versions@))
        + ",\"files\":["@ + comma_joined(json_files(detail.files@)) + "]}"@
}

/// Write a project page.
pub fn detail_json(detail: &ProjectDetail) -> (r: String)
    ensures
        r@ == json_detail(*detail),
{
    let mut out = "{\"meta\":".to_owned();
    let meta = meta_json(&detail.meta);
    out.append(meta.as_str());
    let ghost g1 = out@;
    match detail.meta.project_status_object() {
        Some(object) => {
            let status = status_json(&object);
            out.append(",\"project-status\":");
            out.append(status.as_str());
            assert(out@ =~= g1 + (",\"project-status\":"@ + status@));
        },
        None => {
            assert(out@ =~= g1 + Seq::<char>::empty());
        },
    }
    out.append(",\"name\":");
    let name = json_string_text(detail.name.as_str());
    out.append(name.as_str());
    out.append(",\"versions\":");
    write_list(&mut out, &detail.versions);
    out.append(",\"files\":[");
    let ghost all = json_files(detail.files@);
    let mut body = String::new();
    let mut i: usize = 0;
    assert(all.take(0) =~= Seq::<Seq<char>>::empty());
    while i < detail.files.len()
        invariant
            i <= detail.files@.len(),
            all == json_files(detail.files@),
            body@ == comma_joined(all.take(i as int)),
        decreases detail.files.len() - i,
    {
        let item = file_json(&detail.files[i]);
        proof {
            comma_joined_push(all.take(i as int), item@);
            assert(all.take(i as int).push(item@) =~= all.take(i + 1));
        }
        if i > 0 {
            body.append(",");
            body.append(item.as_str());
        } else {
            body = item;
        }
        i = i + 1;
    }
    assert(all.take(i as int) =~= all);
    out.append(body.as_str());
    out.append("]}");
    out
}

/// A project list as an object.
pub open spec fn json_project_list(list: ProjectList) -> Seq<char> {
    "{\"meta\":"@ + json_meta(list.meta.api_version@) + ",\"projects\":["@ + comma_joined(
        list.projects@.map_values(|e: ProjectListEntry| "{\"name\":"@ + json_string(e.name@) + "}"@),
    ) + "]}"@
}

/// Write a project list.
pub fn project_list_json(list: &ProjectList) -> (r: String)
    ensures
        r@ == json_project_list(*list),
{
    let mut out = "{\"meta\":".to_owned();
    let meta = meta_json(&list.meta);
    out.append(meta.as_str());
    out.append(",\"projects\":[");
    let ghost all = list.projects@.map_values(
        |e: ProjectListEntry| "{\"name\":"@ + json_string(e.name@) + "}"@,
    );
    let mut body = String::new();
    let mut i: usize = 0;
    assert(all.take(0) =~= Seq::<Seq<char>>::empty());
    while i < list.projects.len()
        invariant
            i <= list.projects@.len(),
            all == list.projects@.map_values(
                |e: ProjectListEntry| "{\"name\":"@ + json_string(e.name@) + "}"@,
            ),
            body@ == comma_joined(all.take(i as int)),
        decreases list.projects.len() - i,
    {
        let mut item = "{\"name\":".to_owned();
        let name = json_string_text(list.projects[i].name.as_str());
        item.append(name.as_str());
        item.append("}");
        proof {
            comma_joined_push(all.take(i as int), item@);
            assert(all.take(i as int).push(item@) =~= all.take(i + 1));
        }
        if i > 0 {
            body.append(",");
            body.append(item.as_str());
        } else {
            body = item;
        }
        i = i + 1;
    }
    assert(all.take(i as int) =~= all);
    out.append(body.as_str());
    out.append("]}");
    out
}

} // verus!
