//! What reading a page byte by byte promises: where a string ends, when an element is whole, and which key was read.
use vstd::prelude::*;

use crate::distribution::{opt_distribution, release_of};
use crate::outside::json_string;
use crate::simple::file::FileText;
use crate::simple::json::{json_meta, json_status};
use crate::simple::meta::{status_of_marker, version_served, IncomingMeta, IncomingProjectStatus};
use crate::simple::page::incoming_refusal;
use crate::simple::SimpleErrorText;
use crate::stream::transformer::{
    hex_value, is_file_accepted, is_meta_accepted, is_page_finished, is_status_accepted, key_decoded, key_pushed,
    ContextText, Element, KeyDecode, LexState, Mode, NameState, PageState, StringCapture, FOREIGN, MAX_KEY_BYTES,
    MAX_PAGE_FILES,
};
use crate::stream::types::{registration_texts, PageSummary, TransformError, UpstreamFacts};
use crate::stream::{
    json_whitespace, BACKSLASH, CLOSE_BRACE, CLOSE_BRACKET, COMMA, OPEN_BRACE, OPEN_BRACKET, QUOTE,
};
use crate::text::opt_text;
use vstd::utf8::{decode_utf8, encode_utf8, valid_utf8};

verus! {

// ---------------------------------------------------------------------------------------------
// Strings and brackets
// ---------------------------------------------------------------------------------------------

/// A string ends at a quote that no backslash stands before; a backslash escapes the one byte behind it.
pub proof fn strings_end_at_a_bare_quote(lex: LexState, byte: u8)
    requires
        lex.active,
    ensures
        !lex.string_byte(byte).active <==> !lex.escaped && byte == QUOTE,
        lex.string_byte(byte).escaped <==> !lex.escaped && byte == BACKSLASH,
        lex.string_byte(byte).depth == lex.depth,
        lex.string_byte(byte).captured == lex.captured,
        lex.string_byte(byte).mode == lex.mode,
        lex.string_byte(byte).pending == lex.pending,
{
}

/// Inside a string no byte opens, closes or ends anything, but is kept.
pub proof fn brackets_in_strings_are_text(lex: LexState, byte: u8, element: Element)
    requires
        lex.active,
    ensures
        lex.object_byte(byte, element).depth == lex.depth,
        lex.object_byte(byte, element).pending == lex.pending,
        lex.object_byte(byte, element).captured == lex.captured.push(byte),
        lex.files_byte(byte).depth == lex.depth,
        lex.files_byte(byte).pending == lex.pending,
        lex.files_byte(byte).captured == lex.captured.push(byte),
        lex.files_byte(byte).mode == lex.mode,
        lex.versions_byte(byte).depth == lex.depth,
        lex.versions_byte(byte).pending == lex.pending,
        lex.versions_byte(byte).captured == lex.captured.push(byte),
{
    reveal(LexState::object_byte);
    reveal(LexState::files_byte);
    reveal(LexState::versions_byte);
}

/// A captured object keeps every byte, counts its brackets, and is whole exactly where the brace that closes it comes.
pub proof fn objects_end_at_their_brace(lex: LexState, byte: u8, element: Element)
    requires
        !lex.active,
        lex.pending is None,
        lex.depth > 1,
    ensures
        ({
            let r = lex.object_byte(byte, element);
            &&& r.captured == lex.captured.push(byte)
            &&& r.active <==> byte == QUOTE
            &&& r.depth == (if byte == OPEN_BRACE || byte == OPEN_BRACKET {
                lex.depth + 1int
            } else if byte == CLOSE_BRACE || byte == CLOSE_BRACKET {
                lex.depth - 1
            } else {
                lex.depth as int
            })
            &&& r.pending is Some <==> byte == CLOSE_BRACE && lex.depth == 2
            &&& r.pending is Some ==> r.pending == Some(element)
            &&& r.mode == lex.mode
        }),
{
    reveal(LexState::object_byte);
}

/// A file is whole where its brace closes within the array. The bracket that closes the array ends it, and what stands
/// between the files is not kept.
pub proof fn files_end_at_their_brace(lex: LexState, byte: u8)
    requires
        !lex.active,
        lex.pending is None,
        lex.depth > 1,
    ensures
        ({
            let r = lex.files_byte(byte);
            &&& r.pending == Some(Element::File) <==> byte == CLOSE_BRACE && lex.depth == 3
            &&& r.pending is Some ==> r.pending == Some(Element::File)
            &&& byte == CLOSE_BRACKET && lex.depth == 2 ==> r.mode is Passthrough && r.depth == 1 && r.captured
                == lex.captured
            &&& !(byte == CLOSE_BRACKET && lex.depth == 2) ==> r.mode == lex.mode
            &&& byte == COMMA && lex.depth == 2 ==> r == lex
            &&& byte == COMMA && lex.depth > 2 ==> r.captured == lex.captured.push(byte)
            &&& byte == OPEN_BRACE ==> r.depth == lex.depth + 1 && r.captured == lex.captured.push(byte)
            &&& byte == CLOSE_BRACE ==> r.captured == lex.captured.push(byte)
        }),
{
    reveal(LexState::files_byte);
}

/// A version list is whole where its bracket closes, and keeps every byte.
pub proof fn version_lists_end_at_their_bracket(lex: LexState, byte: u8)
    requires
        !lex.active,
        lex.pending is None,
        lex.depth > 1,
    ensures
        ({
            let r = lex.versions_byte(byte);
            &&& r.captured == lex.captured.push(byte)
            &&& r.pending is Some <==> byte == CLOSE_BRACKET && lex.depth == 2
            &&& r.pending is Some ==> r.pending == Some(Element::Versions)
        }),
{
    reveal(LexState::versions_byte);
}

/// An element that was handled leaves nothing captured and nothing pending.
pub proof fn handled_elements_leave_nothing(lex: LexState, mode: Mode, byte: u8)
    ensures
        lex.resumed(mode).captured.len() == 0,
        lex.resumed(mode).pending is None,
        lex.resumed(mode).mode == mode,
        lex.resumed(mode).depth == lex.depth,
        lex.enter(mode, byte).captured == seq![byte],
        lex.enter(mode, byte).mode == mode,
        lex.enter(mode, byte).depth == lex.depth,
        lex.deeper().shallower() == lex,
{
}

// ---------------------------------------------------------------------------------------------
// Keys and names
// ---------------------------------------------------------------------------------------------

/// A hex digit has its value, whatever its letter case.
pub proof fn hex_digits_have_their_value(byte: u8)
    ensures
        hex_value(byte) is Some <==> 0x30 <= byte <= 0x39 || 0x41 <= byte <= 0x46 || 0x61 <= byte <= 0x66,
        0x30 <= byte <= 0x39 ==> hex_value(byte) == Some((byte - 0x30) as u8),
        0x41 <= byte <= 0x46 ==> hex_value(byte) == Some((byte - 0x37) as u8),
        0x61 <= byte <= 0x66 ==> hex_value(byte) == Some((byte - 0x57) as u8),
{
}

/// A byte of a key that is not escaped stands for itself.
pub proof fn plain_key_bytes_stand_for_themselves(key: Seq<u8>, byte: u8)
    requires
        byte != BACKSLASH,
        key.len() <= MAX_KEY_BYTES,
    ensures
        key_decoded(key, KeyDecode::Literal, byte) == (key.push(byte), KeyDecode::Literal),
{
}

/// An escape of four hex digits stands for its character where that is ASCII, however the digits are spelled; every
/// other escape stands for a character that no key with a meaning holds.
pub proof fn escaped_keys_are_decoded(key: Seq<u8>, a: u8, b: u8, c: u8, d: u8)
    requires
        key.len() <= MAX_KEY_BYTES,
        hex_value(a) is Some && hex_value(b) is Some && hex_value(c) is Some && hex_value(d) is Some,
    ensures
        ({
            let (k0, s0) = key_decoded(key, KeyDecode::Literal, BACKSLASH);
            let (k1, s1) = key_decoded(k0, s0, 0x75);
            let (k2, s2) = key_decoded(k1, s1, a);
            let (k3, s3) = key_decoded(k2, s2, b);
            let (k4, s4) = key_decoded(k3, s3, c);
            let (k5, s5) = key_decoded(k4, s4, d);
            let value = hex_value(a)->0 * 4096 + hex_value(b)->0 * 256 + hex_value(c)->0 * 16 + hex_value(d)->0;
            s5 is Literal && k5 == key.push(if value < 0x80 {
                value as u8
            } else {
                FOREIGN
            })
        }),
{
    let x = hex_value(a)->0;
    let y = hex_value(b)->0;
    let z = hex_value(c)->0;
    let w = hex_value(d)->0;
    assert(x < 16 && y < 16 && z < 16 && w < 16);
}

/// A key is held to one byte more than the longest that matters, so a longer one is never taken for a shorter.
pub proof fn long_keys_are_not_taken_for_short_ones(key: Seq<u8>, byte: u8)
    ensures
        key_pushed(key, byte).len() <= key.len() + 1,
        key.len() <= MAX_KEY_BYTES ==> key_pushed(key, byte) == key.push(byte),
        key.len() > MAX_KEY_BYTES ==> key_pushed(key, byte) == key,
{
}

/// A string at the top level is the name where that is expected, and a key otherwise; a deeper one is neither.
pub proof fn top_level_strings_are_keys_or_the_name(names: NameState, top: bool)
    ensures
        top && names.expect_name ==> names.string_opened(top).string == StringCapture::Name && names.string_opened(
            top,
        ).name.len() == 0 && names.string_opened(top).key == names.key,
        top && !names.expect_name ==> names.string_opened(top).string == StringCapture::Key && names.string_opened(
            top,
        ).key.len() == 0 && names.string_opened(top).name == names.name,
        !top ==> names.string_opened(top).string == names.string && names.string_opened(top).name == names.name
            && names.string_opened(top).key == names.key,
        !names.string_opened(top).expect_name,
{
}

/// The name is kept as its bytes came, up to the quote that ends it.
pub proof fn names_are_kept_byte_by_byte(names: NameState, byte: u8, escaped: bool)
    ensures
        names.string is Name && !(!escaped && byte == QUOTE) ==> names.string_byte(byte, escaped).name == names.name.push(
            byte,
        ) && names.string_byte(byte, escaped).string is Name,
        names.string is Name && !escaped && byte == QUOTE ==> names.string_byte(byte, escaped).name == names.name
            && names.string_byte(byte, escaped).string is Nothing,
        !(names.string is Name) ==> names.string_byte(byte, escaped).name == names.name,
        !(names.string is Key) ==> names.string_byte(byte, escaped).key == names.key,
        names.string is Key && !(!escaped && byte == QUOTE) ==> (
            names.string_byte(byte, escaped).key,
            names.string_byte(byte, escaped).key_decode,
        ) == key_decoded(names.key, names.key_decode, byte),
{
}

/// A page has a name where one was read that is text and not empty.
pub proof fn pages_have_the_name_that_was_read(s: PageState, name: Seq<char>)
    ensures
        s.names.name == encode_utf8(name) && name.len() > 0 ==> s.page_name() == Some(name),
        s.page_name() matches Some(found) ==> found.len() > 0 && valid_utf8(s.names.name) && found == decode_utf8(
            s.names.name,
        ),
{
    vstd::utf8::encode_utf8_valid_utf8(name);
    vstd::utf8::encode_utf8_decode_utf8(name);
}

/// Behind the key of the name stands the name. A file array before the headers is noted, and no later one undoes that.
pub proof fn keys_say_what_follows(s: PageState)
    ensures
        s.keyed().names.expect_name <==> s.names.key == encode_utf8("name"@),
        s.keyed().header.files_precede_headers <==> s.header.files_precede_headers || (s.names.key == encode_utf8("files"@)
            && !(s.header.meta_seen && (s.header.status is Seen || s.header.status is Emitted))),
        s.keyed().tally == s.tally && s.keyed().lex == s.lex,
{
}

// ---------------------------------------------------------------------------------------------
// The end of the page
// ---------------------------------------------------------------------------------------------

/// The brace that closes the root writes the status that is owed before itself; any other bracket writes itself alone.
/// The page is closed with its last bracket.
pub proof fn the_last_brace_settles_the_status(s: PageState, byte: u8)
    ensures
        byte == CLOSE_BRACE && s.lex.depth == 1 ==> s.closed(byte).1 == s.header.seeded_status() + seq![byte] && !s.closed(
            byte,
        ).0.header.owes_status(),
        !(byte == CLOSE_BRACE && s.lex.depth == 1) ==> s.closed(byte).1 == seq![byte] && s.closed(byte).0.header == s.header,
        s.closed(byte).0.tally.closed <==> s.tally.closed || s.lex.depth <= 1,
        s.closed(byte).0.tally.served == s.tally.served,
{
    assert(Seq::<u8>::empty() + seq![byte] =~= seq![byte]);
}

/// Anything but blanks behind the root is noted.
pub proof fn what_follows_the_page_is_noted(s: PageState, byte: u8)
    ensures
        s.noting_trailing(byte).tally.trailing <==> s.tally.trailing || (s.tally.closed && !json_whitespace(byte)),
        s.noting_trailing(byte).lex == s.lex && s.noting_trailing(byte).header == s.header,
        json_whitespace(byte) <==> byte == 0x20 || byte == 0x09 || byte == 0x0A || byte == 0x0D,
{
}

/// Every local file that is served lends its release to the page.
pub proof fn served_local_files_lend_their_release(ctx: ContextText, n: int, i: int)
    requires
        0 <= i < n <= ctx.local_files.len(),
        ctx.serves_local(i),
    ensures
        release_of(opt_distribution(ctx.local_files[i].facts.parsed)) matches Some(release) ==> ctx.local_releases(
            n,
        ).contains(release),
    decreases n,
{
    if i < n - 1 {
        served_local_files_lend_their_release(ctx, n - 1, i);
    }
}

/// Each file is counted once it was handled.
pub proof fn handled_files_are_counted(s: PageState)
    ensures
        s.file_counted().tally.files_seen == s.tally.files_seen + 1,
        s.file_counted().lex.captured.len() == 0,
        s.file_counted().lex.mode is Files,
        s.file_counted().tally.served == s.tally.served,
        s.file_counted().header == s.header,
{
}

// ---------------------------------------------------------------------------------------------
// Taking in elements
// ---------------------------------------------------------------------------------------------

/// A page's metadata is taken in exactly where its version and its status can be served. It is written with the version
/// that is served, and what the page promises is noted; a page that is refused is left as it was.
pub proof fn metadata_is_taken_in_where_served(
    was: PageState,
    meta: IncomingMeta,
    out: Seq<u8>,
    now: PageState,
    wrote: Seq<u8>,
    r: Result<(), TransformError>,
)
    requires
        is_meta_accepted(was, meta, out, now, wrote, r),
    ensures
        r is Ok <==> incoming_refusal(meta, None) is None,
        r is Err ==> now == was && wrote == out,
        r is Ok ==> now.header.meta_seen && (now.header.promised <==> version_served(opt_text(meta.api_version)) == Ok::<
            Seq<char>,
            SimpleErrorText,
        >("1.4"@)),
        r is Ok ==> now.header.project_status == was.header.project_status && now.tally == was.tally && now.lex.pending is None
            && now.lex.mode is Passthrough,
        r is Ok ==> wrote == out + encode_utf8(json_meta(version_served(opt_text(meta.api_version))->Ok_0)),
{
}

/// A page's status is taken in exactly where its marker is a known one, written as it came, and then owed no more.
pub proof fn statuses_are_taken_in_where_known(
    was: PageState,
    status: IncomingProjectStatus,
    out: Seq<u8>,
    now: PageState,
    wrote: Seq<u8>,
    r: Result<(), TransformError>,
)
    requires
        is_status_accepted(was, status, out, now, wrote, r),
    ensures
        r is Ok <==> (status.status matches Some(marker) ==> status_of_marker(marker@) is Some),
        r is Err ==> now == was && wrote == out,
        r is Ok ==> now.header.project_status == opt_text(status.status) && now.header.project_status_reason == opt_text(
            status.reason,
        ) && !now.header.owes_status() && now.header.meta_seen == was.header.meta_seen,
        r is Ok ==> wrote == out + encode_utf8(json_status(opt_text(status.status), opt_text(status.reason))),
        r is Ok && opt_text(status.status) == Some("quarantined"@) ==> now.header.quarantined(),
{
}

/// A file that a page promised and that has no size is refused, and so is one too many. Every other file is counted, and
/// what comes of it is written and registered.
pub proof fn files_are_taken_in_one_by_one(
    was: PageState,
    ctx: ContextText,
    file: FileText,
    up: UpstreamFacts,
    out: Seq<u8>,
    now: PageState,
    wrote: Seq<u8>,
    r: Result<(), TransformError>,
)
    requires
        is_file_accepted(was, ctx, file, up, out, now, wrote, r),
    ensures
        r is Ok <==> was.tally.files_seen < MAX_PAGE_FILES && !(was.header.promised && file.size is None),
        r is Err ==> wrote == out,
        r is Ok ==> now.tally.files_seen == was.tally.files_seen + 1 && now.header == was.header,
        r is Ok && (was.header.quarantined() || ctx.skip.contains(file.filename)) ==> wrote == out
            && now.tally.registrations == was.tally.registrations && now.tally.served == was.tally.served,
        r is Ok && wrote != out ==> now.tally.emitted_in_array,
{
    assert(out + Seq::<u8>::empty() =~= out);
}

/// A page that finishes says its name, its status and what is registered, as they were read.
pub proof fn finished_pages_say_what_was_read(page: PageState, r: Result<PageSummary, TransformError>)
    requires
        is_page_finished(page, r),
    ensures
        r is Ok <==> page.finished() is None,
        r matches Ok(summary) ==> opt_text(summary.name) == page.page_name() && opt_text(summary.project_status)
            == page.header.project_status && opt_text(summary.project_status_reason) == page.header.project_status_reason
            && registration_texts(summary.registrations@) == page.tally.registrations,
{
}

/// A status object carries what is known of a status.
pub proof fn status_objects_carry_what_is_known(status: Seq<char>, reason: Seq<char>)
    ensures
        json_status(Some(status), None) == "{\"status\":"@ + json_string(status) + "}"@,
        json_status(None, Some(reason)) == "{\"reason\":"@ + json_string(reason) + "}"@,
        json_status(Some(status), Some(reason)) == "{\"status\":"@ + json_string(status) + ",\"reason\":"@ + json_string(
            reason,
        ) + "}"@,
        json_meta(status) == "{\"api-version\":"@ + json_string(status) + "}"@,
{
}

} // verus!
