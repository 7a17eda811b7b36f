//! The chunk-at-a-time lexer that rewrites one upstream page as it streams.
//!
//! A captured element other than the version list is decoded by the caller: the transformer stops behind
//! its last byte, and goes on once it has been handed the decoded value.
use vstd::prelude::*;
use vstd::utf8::encode_utf8;

use super::types::{
    registration_texts, yank_texts, LocalFile, PageContext, PageSummary, Registration, RegistrationText,
    TransformError, TransformErrorText, UpstreamFacts,
};
use super::validator::{grammar_start, Container, Grammar, JsonValidator, State};
use super::{
    is_json_whitespace, json_whitespace, BACKSLASH, CLOSE_BRACE, CLOSE_BRACKET, COLON, COMMA, OPEN_BRACE,
    OPEN_BRACKET, QUOTE,
};
use crate::collections::{listed, TextMap, TextSet};
use crate::distribution::{opt_distribution, release_of};
use crate::outside::{json_string_list, json_strings, utf8_text};
use crate::policy::{opt_denial, PolicyAction, RemoteMetadataMode, REMOTE_METADATA_SETTING};
use crate::policy_engine::{
    file_facts, listed_set, listed_versions, remote_metadata_named, FileFacts, Policy, VersionAdmission,
};
use crate::simple::file::{
    absolute, absolutize, text_values, CoreMetadata, File, FileText, MetadataText, Provenance, ProvenanceText,
    YankedText,
};
use crate::simple::json::{
    comma_joined, comma_joined_push, file_json, json_file, json_list, json_meta, json_status, meta_json, status_json,
    write_list,
};
use crate::simple::meta::{
    status_of_marker, version_served, IncomingMeta, IncomingProjectStatus, ProjectStatusObject, API_VERSION,
};
use crate::simple::page::{incoming_refusal, parse_project_status};
use crate::simple::{SimpleError, SimpleErrorText};
use crate::text::{
    ascii_lower_text, bytes_eq, eq_ignore_ascii_case, extension_of, first_index, opt_as_str, opt_text, path_extension,
    push_bytes, text_eq, texts,
};

verus! {

/// The most raw bytes read from one upstream page. The biggest real project pages sit in the low
/// single-digit MiB; a page an order of magnitude past that is pathological.
pub const MAX_PAGE_BYTES: usize = 67_108_864;

/// The most file entries transformed from one upstream page. Bytes alone do not bound per-element work,
/// so the element count is capped on its own.
pub const MAX_PAGE_FILES: usize = 500_000;

/// The length of the longest key that changes output. One more byte is kept of a key than that, to tell
/// a longer key apart.
pub const MAX_KEY_BYTES: usize = 14;

/// The lexer state, kept across chunk boundaries.
#[derive(Debug, Clone, Copy, PartialEq, Eq, Structural)]
pub enum Mode {
    /// Copying bytes through, watching top-level keys.
    Passthrough,
    /// Capturing the top-level `meta` object so that the supported version is advertised.
    Meta,
    /// Capturing the top-level `project-status` object.
    ProjectStatus,
    /// Between `files[` and its matching `]`: elements are captured and rewritten one by one.
    Files,
    /// Between `versions[` and its matching `]`: the whole array is buffered and merged.
    Versions,
}

/// The position inside an escape of the object key being captured. Member names carry meaning and any
/// character can be spelled with an escape, so the key is decoded before it is compared.
#[derive(Debug, Clone, Copy, PartialEq, Eq, Structural)]
pub enum KeyDecode {
    /// Reading literal key bytes.
    Literal,
    /// Saw a backslash; the next byte selects the escape.
    Escape,
    /// Inside a `\uXXXX` sequence, holding the digits seen and the value so far.
    Unicode { seen: u8, value: u16 },
}

/// What a string of the document root is captured as.
#[derive(Debug, Clone, Copy, PartialEq, Eq, Structural)]
pub enum StringCapture {
    Nothing,
    Key,
    Name,
}

/// How far the project status has come.
#[derive(Debug, Clone, Copy, PartialEq, Eq, Structural)]
pub enum StatusState {
    Unseen,
    Seen,
    Emitted,
}

/// A captured element, whole, that waits to be handled.
#[derive(Debug, Clone, Copy, PartialEq, Eq, Structural)]
pub enum Element {
    Meta,
    ProjectStatus,
    File,
    Versions,
}

// ---------------------------------------------------------------------------------------------
// The model
// ---------------------------------------------------------------------------------------------

/// Where the lexer stands.
pub struct LexState {
    pub mode: Mode,
    /// Nesting depth relative to the document root.
    pub depth: nat,
    /// Whether the last byte stands inside a string, and behind a backslash there.
    pub active: bool,
    pub escaped: bool,
    /// The bytes of the element being captured.
    pub captured: Seq<u8>,
    /// The captured element, whole, that waits to be handled.
    pub pending: Option<Element>,
}

/// The top-level key and the name being read.
pub struct NameState {
    pub string: StringCapture,
    /// Whether the next string is the value of the top-level `name`.
    pub expect_name: bool,
    pub key: Seq<u8>,
    pub key_decode: KeyDecode,
    /// The raw bytes of the top-level `name`.
    pub name: Seq<u8>,
}

/// What the page's header members said.
pub struct HeaderState {
    pub project_status: Option<Seq<char>>,
    pub project_status_reason: Option<Seq<char>>,
    pub meta_seen: bool,
    pub status: StatusState,
    pub files_precede_headers: bool,
    /// Whether `meta` declared a version that owes `versions` and a per-file `size`.
    pub promised: bool,
    pub versions_seen: bool,
}

/// What the page came to so far.
pub struct TallyState {
    pub closed: bool,
    pub trailing: bool,
    pub emitted_in_array: bool,
    /// The releases of the files served so far.
    pub served: Set<Seq<char>>,
    pub registrations: Seq<RegistrationText>,
    /// Raw bytes read so far.
    pub consumed: nat,
    /// File elements captured so far.
    pub files_seen: nat,
    pub grammar: Grammar,
}

/// Where a transformation stands.
pub struct PageState {
    pub lex: LexState,
    pub names: NameState,
    pub header: HeaderState,
    pub tally: TallyState,
}

/// A transformation before the first byte.
pub open spec fn page_start() -> PageState {
    PageState {
        lex: LexState {
            mode: Mode::Passthrough,
            depth: 0,
            active: false,
            escaped: false,
            captured: Seq::empty(),
            pending: None,
        },
        names: NameState {
            string: StringCapture::Nothing,
            expect_name: false,
            key: Seq::empty(),
            key_decode: KeyDecode::Literal,
            name: Seq::empty(),
        },
        header: HeaderState {
            project_status: None,
            project_status_reason: None,
            meta_seen: false,
            status: StatusState::Unseen,
            files_precede_headers: false,
            promised: false,
            versions_seen: false,
        },
        tally: TallyState {
            closed: false,
            trailing: false,
            emitted_in_array: false,
            served: Set::empty(),
            registrations: Seq::empty(),
            consumed: 0,
            files_seen: 0,
            grammar: grammar_start(),
        },
    }
}

/// Whether the captured key is `name`.
pub open spec fn key_is(key: Seq<u8>, name: Seq<char>) -> bool {
    key == encode_utf8(name)
}

/// A key with one more byte, held to one more than the longest key that matters.
pub open spec fn key_pushed(key: Seq<u8>, byte: u8) -> Seq<u8> {
    if key.len() <= MAX_KEY_BYTES {
        key.push(byte)
    } else {
        key
    }
}

/// The value of a hex digit.
pub open spec fn hex_value(byte: u8) -> Option<u8> {
    if 0x30 <= byte <= 0x39 {
        Some((byte - 0x30) as u8)
    } else if 0x61 <= byte <= 0x66 {
        Some((byte - 0x61 + 10) as u8)
    } else if 0x41 <= byte <= 0x46 {
        Some((byte - 0x41 + 10) as u8)
    } else {
        None
    }
}

/// What stands in a key for a character that no key with a meaning holds.
pub const FOREIGN: u8 = 0xFF;

/// One raw key byte behind the escapes read so far.
pub open spec fn key_decoded(key: Seq<u8>, decode: KeyDecode, byte: u8) -> (Seq<u8>, KeyDecode) {
    match decode {
        KeyDecode::Literal => if byte == BACKSLASH {
            (key, KeyDecode::Escape)
        } else {
            (key_pushed(key, byte), KeyDecode::Literal)
        },
        KeyDecode::Escape => if byte == 0x75 {
            (key, KeyDecode::Unicode { seen: 0, value: 0 })
        } else {
            // Only `\uXXXX` can spell an ASCII letter, so every other escape stands for a character
            // that no key with a meaning holds.
            (key_pushed(key, FOREIGN), KeyDecode::Literal)
        },
        KeyDecode::Unicode { seen, value } => match hex_value(byte) {
            None => (key_pushed(key, FOREIGN), KeyDecode::Literal),
            Some(digit) => {
                let next = (value * 16 + digit) as u16;
                if seen >= 3 {
                    (
                        key_pushed(
                            key,
                            if next < 0x80 {
                                next as u8
                            } else {
                                FOREIGN
                            },
                        ),
                        KeyDecode::Literal,
                    )
                } else {
                    (key, KeyDecode::Unicode { seen: (seen + 1) as u8, value: next })
                }
            },
        },
    }
}

/// What a page's surroundings say, seen as text.
pub struct ContextText {
    pub route: Seq<char>,
    pub base: Option<Seq<char>>,
    pub project: Seq<char>,
    pub policy: Policy,
    pub local_files: Seq<LocalFile>,
    pub local_versions: Seq<Seq<char>>,
    pub skip: Set<Seq<char>>,
    pub hidden: Set<Seq<char>>,
    pub yanked: Map<Seq<char>, YankedText>,
    pub known_metadata: Map<Seq<char>, Seq<char>>,
}

impl PageContext {
    pub open spec fn view(self) -> ContextText {
        ContextText {
            route: self.route@,
            base: opt_text(self.base),
            project: self.project@,
            policy: self.policy,
            local_files: self.local_files@,
            local_versions: texts(self.local_versions@),
            skip: self.skip@,
            hidden: self.hidden@,
            yanked: yank_texts(self.yanked@),
            known_metadata: text_values(self.known_metadata@),
        }
    }
}

impl ContextText {
    /// Whether policy serves the file.
    pub open spec fn serves(self, file: FileText, facts: FileFacts) -> bool {
        self.policy.verdict(
            opt_denial(facts.refusal),
            PolicyAction::Serve,
            file_facts(self.project, file, opt_distribution(facts.parsed)),
        ) is None
    }

    /// The file with the yank state that an operator imposed on its name.
    pub open spec fn with_yank(self, file: FileText) -> FileText {
        if self.yanked.contains_key(file.filename) {
            FileText { yanked: self.yanked[file.filename], ..file }
        } else {
            file
        }
    }

    /// Whether the local file at `i` is served. A hidden name stays hidden even where the file is local.
    pub open spec fn serves_local(self, i: int) -> bool {
        let local = self.local_files[i];
        !self.hidden.contains(local.file.filename@) && self.serves(local.file@, local.facts)
    }

    /// The JSON of those of the first `n` local files that are served.
    pub open spec fn local_json(self, n: int) -> Seq<Seq<char>>
        decreases n,
    {
        if n <= 0 {
            Seq::empty()
        } else if self.serves_local(n - 1) {
            self.local_json(n - 1).push(json_file(self.with_yank(self.local_files[n - 1].file@)))
        } else {
            self.local_json(n - 1)
        }
    }

    /// The releases of those of the first `n` local files that are served.
    pub open spec fn local_releases(self, n: int) -> Set<Seq<char>>
        decreases n,
    {
        if n <= 0 {
            Set::empty()
        } else if self.serves_local(n - 1) {
            match release_of(opt_distribution(self.local_files[n - 1].facts.parsed)) {
                Some(release) => self.local_releases(n - 1).insert(release),
                None => self.local_releases(n - 1),
            }
        } else {
            self.local_releases(n - 1)
        }
    }
}

impl LexState {
    /// A byte inside a string, as far as the end of the string goes.
    pub open spec fn string_byte(self, byte: u8) -> LexState {
        if self.escaped {
            LexState { escaped: false, ..self }
        } else if byte == BACKSLASH {
            LexState { escaped: true, ..self }
        } else if byte == QUOTE {
            LexState { active: false, ..self }
        } else {
            self
        }
    }

    pub open spec fn capture(self, byte: u8) -> LexState {
        LexState { captured: self.captured.push(byte), ..self }
    }

    /// Start capturing an element whose first byte is `byte`.
    pub open spec fn enter(self, mode: Mode, byte: u8) -> LexState {
        LexState { mode, captured: seq![byte], ..self }
    }

    /// A bracket that closes leaves the depth one less, but not below nothing.
    pub open spec fn shallower(self) -> LexState {
        LexState {
            depth: if self.depth == 0 {
                0
            } else {
                (self.depth - 1) as nat
            },
            ..self
        }
    }

    pub open spec fn deeper(self) -> LexState {
        LexState { depth: self.depth + 1, ..self }
    }

    /// The element is whole, if `whole`.
    pub open spec fn wait_if(self, whole: bool, element: Element) -> LexState {
        LexState {
            pending: if whole {
                Some(element)
            } else {
                self.pending
            },
            ..self
        }
    }

    /// A byte inside a captured object that ends the element where the object closes.
    #[verifier::opaque]
    pub open spec fn object_byte(self, byte: u8, element: Element) -> LexState {
        let s = self.capture(byte);
        if self.active {
            s.string_byte(byte)
        } else if byte == QUOTE {
            LexState { active: true, ..s }
        } else if byte == OPEN_BRACE || byte == OPEN_BRACKET {
            s.deeper()
        } else if byte == CLOSE_BRACE {
            s.shallower().wait_if(s.shallower().depth == 1, element)
        } else if byte == CLOSE_BRACKET {
            s.shallower()
        } else {
            s
        }
    }

    /// Whether `byte` closes the array being captured.
    pub open spec fn closes_array(self, byte: u8) -> bool {
        !self.active && byte == CLOSE_BRACKET && self.shallower().depth == 1
    }

    /// A byte inside the file array. Commas between its elements, and blanks around them, are not kept.
    #[verifier::opaque]
    pub open spec fn files_byte(self, byte: u8) -> LexState {
        let s = self.capture(byte);
        if self.active {
            s.string_byte(byte)
        } else if byte == QUOTE {
            LexState { active: true, ..s }
        } else if byte == OPEN_BRACE || byte == OPEN_BRACKET {
            s.deeper()
        } else if byte == CLOSE_BRACE {
            s.shallower().wait_if(s.shallower().depth == 2, Element::File)
        } else if self.closes_array(byte) {
            LexState { mode: Mode::Passthrough, ..self.shallower() }
        } else if byte == CLOSE_BRACKET {
            s.shallower()
        } else if (byte == COMMA && self.depth == 2) || (self.captured.len() == 0 && json_whitespace(byte)) {
            self
        } else {
            s
        }
    }

    /// A byte inside the version array.
    #[verifier::opaque]
    pub open spec fn versions_byte(self, byte: u8) -> LexState {
        let s = self.capture(byte);
        if self.active {
            s.string_byte(byte)
        } else if byte == QUOTE {
            LexState { active: true, ..s }
        } else if byte == OPEN_BRACE || byte == OPEN_BRACKET {
            s.deeper()
        } else if byte == CLOSE_BRACE || byte == CLOSE_BRACKET {
            s.shallower().wait_if(byte == CLOSE_BRACKET && s.shallower().depth == 1, Element::Versions)
        } else {
            s
        }
    }

    /// The element that was pending has been handled.
    pub open spec fn resumed(self, mode: Mode) -> LexState {
        LexState { mode, captured: Seq::empty(), pending: None, ..self }
    }
}

impl NameState {
    /// A byte of a string that is copied through. A top-level key is decoded and a top-level name kept.
    pub open spec fn string_byte(self, byte: u8, escaped: bool) -> NameState {
        let ends = !escaped && byte == QUOTE;
        let (key, key_decode) = if self.string is Key && !ends {
            key_decoded(self.key, self.key_decode, byte)
        } else {
            (self.key, self.key_decode)
        };
        NameState {
            key,
            key_decode,
            name: if self.string is Name && !ends {
                self.name.push(byte)
            } else {
                self.name
            },
            string: if ends {
                StringCapture::Nothing
            } else {
                self.string
            },
            ..self
        }
    }

    /// A string opens. At the top level it is an object key, or the value of the key just seen.
    pub open spec fn string_opened(self, top: bool) -> NameState {
        if top && self.expect_name {
            NameState { string: StringCapture::Name, name: Seq::empty(), expect_name: false, ..self }
        } else if top {
            NameState {
                string: StringCapture::Key,
                key: Seq::empty(),
                key_decode: KeyDecode::Literal,
                expect_name: false,
                ..self
            }
        } else {
            NameState { expect_name: false, ..self }
        }
    }
}

impl HeaderState {
    /// Whether the page's project is quarantined, and so serves no file.
    pub open spec fn quarantined(self) -> bool {
        self.project_status == Some("quarantined"@)
    }

    /// Whether the API version has been checked and the status resolved.
    pub open spec fn known(self) -> bool {
        self.meta_seen && (self.status is Seen || self.status is Emitted)
    }

    /// Whether a status was resolved that the page has not carried.
    pub open spec fn owes_status(self) -> bool {
        !(self.status is Emitted) && (self.project_status is Some || self.project_status_reason is Some)
    }

    /// The bytes of a status object that was resolved before the page streamed, when the page itself
    /// carries none.
    pub open spec fn seeded_status(self) -> Seq<u8> {
        if !self.owes_status() {
            Seq::empty()
        } else {
            encode_utf8(",\"project-status\":"@) + encode_utf8(
                json_status(self.project_status, self.project_status_reason),
            )
        }
    }

    /// The status that was owed has been written.
    pub open spec fn status_settled(self) -> HeaderState {
        HeaderState {
            status: if self.owes_status() {
                StatusState::Emitted
            } else {
                self.status
            },
            ..self
        }
    }
}

impl PageState {
    /// The JSON of the local files that stand ahead of the upstream ones.
    pub open spec fn local_items(self, ctx: ContextText) -> Seq<Seq<char>> {
        if self.header.quarantined() {
            Seq::empty()
        } else {
            ctx.local_json(ctx.local_files.len() as int)
        }
    }

    /// The tally once the file array has opened.
    pub open spec fn local_tally(self, ctx: ContextText) -> TallyState {
        TallyState {
            emitted_in_array: self.local_items(ctx).len() > 0,
            served: if self.header.quarantined() || self.header.versions_seen {
                self.tally.served
            } else {
                self.tally.served.union(ctx.local_releases(ctx.local_files.len() as int))
            },
            ..self.tally
        }
    }

    /// A bracket opens outside the captured elements, and what it writes.
    pub open spec fn opened(self, ctx: ContextText, byte: u8) -> (PageState, Seq<u8>) {
        let lex = self.lex.deeper();
        let names = NameState { expect_name: false, ..self.names };
        let s = PageState { lex, names, ..self };
        if byte == OPEN_BRACE && lex.depth == 2 && key_is(names.key, "meta"@) {
            (PageState { lex: lex.enter(Mode::Meta, byte), ..s }, Seq::empty())
        } else if byte == OPEN_BRACE && lex.depth == 2 && key_is(names.key, "project-status"@) {
            (PageState { lex: lex.enter(Mode::ProjectStatus, byte), ..s }, Seq::empty())
        } else if byte == OPEN_BRACKET && lex.depth == 2 && key_is(names.key, "files"@) {
            (
                PageState { lex: LexState { mode: Mode::Files, ..lex }, tally: s.local_tally(ctx), ..s },
                seq![byte] + encode_utf8(comma_joined(s.local_items(ctx))),
            )
        } else if byte == OPEN_BRACKET && lex.depth == 2 && key_is(names.key, "versions"@) {
            (PageState { lex: lex.enter(Mode::Versions, byte), ..s }, Seq::empty())
        } else {
            (s, seq![byte])
        }
    }

    /// A bracket closes outside the captured elements, and what it writes. Behind the last member of the
    /// root stands the status that is owed.
    pub open spec fn closed(self, byte: u8) -> (PageState, Seq<u8>) {
        let seeds = byte == CLOSE_BRACE && self.lex.depth == 1;
        let lex = self.lex.shallower();
        (
            PageState {
                lex,
                header: if seeds {
                    self.header.status_settled()
                } else {
                    self.header
                },
                tally: TallyState { closed: self.tally.closed || lex.depth == 0, ..self.tally },
                ..self
            },
            (if seeds {
                self.header.seeded_status()
            } else {
                Seq::empty()
            }) + seq![byte],
        )
    }

    /// A colon behind a top-level key.
    pub open spec fn keyed(self) -> PageState {
        PageState {
            names: NameState { expect_name: key_is(self.names.key, "name"@), ..self.names },
            header: HeaderState {
                files_precede_headers: self.header.files_precede_headers || (!self.header.known() && key_is(
                    self.names.key,
                    "files"@,
                )),
                ..self.header
            },
            ..self
        }
    }

    /// Anything but whitespace once the root has closed is trailing garbage.
    pub open spec fn noting_trailing(self, byte: u8) -> PageState {
        PageState {
            tally: TallyState {
                trailing: self.tally.trailing || (self.tally.closed && !json_whitespace(byte)),
                ..self.tally
            },
            ..self
        }
    }

    /// A byte outside the captured elements, and what it writes.
    #[verifier::opaque]
    pub open spec fn copied_byte(self, ctx: ContextText, byte: u8) -> (PageState, Seq<u8>) {
        let s = self.noting_trailing(byte);
        if self.lex.active {
            (
                PageState {
                    lex: self.lex.string_byte(byte),
                    names: self.names.string_byte(byte, self.lex.escaped),
                    ..self
                },
                seq![byte],
            )
        } else if byte == QUOTE {
            (
                PageState {
                    lex: LexState { active: true, ..s.lex },
                    names: s.names.string_opened(s.lex.depth == 1),
                    ..s
                },
                seq![byte],
            )
        } else if byte == OPEN_BRACE || byte == OPEN_BRACKET {
            s.opened(ctx, byte)
        } else if byte == CLOSE_BRACE || byte == CLOSE_BRACKET {
            s.closed(byte)
        } else if byte == COLON && s.lex.depth == 1 {
            (s.keyed(), seq![byte])
        } else if json_whitespace(byte) {
            (s, seq![byte])
        } else {
            (PageState { names: NameState { expect_name: false, ..s.names }, ..s }, seq![byte])
        }
    }

    /// One raw byte, and what it writes.
    #[verifier::opaque]
    pub open spec fn byte(self, ctx: ContextText, byte: u8) -> (PageState, Seq<u8>) {
        let s = PageState {
            tally: TallyState {
                grammar: self.tally.grammar.after(byte),
                consumed: self.tally.consumed + 1,
                ..self.tally
            },
            ..self
        };
        match s.lex.mode {
            Mode::Passthrough => s.copied_byte(ctx, byte),
            Mode::Meta => (PageState { lex: s.lex.object_byte(byte, Element::Meta), ..s }, Seq::empty()),
            Mode::ProjectStatus => (
                PageState { lex: s.lex.object_byte(byte, Element::ProjectStatus), ..s },
                Seq::empty(),
            ),
            Mode::Files => (
                PageState { lex: s.lex.files_byte(byte), ..s },
                if s.lex.closes_array(byte) {
                    seq![byte]
                } else {
                    Seq::empty()
                },
            ),
            Mode::Versions => (PageState { lex: s.lex.versions_byte(byte), ..s }, Seq::empty()),
        }
    }

    /// The versions a page lists that declared `declared`.
    pub open spec fn versions_listed(self, ctx: ContextText, declared: Seq<Seq<char>>) -> Seq<Seq<char>> {
        listed(
            listed_set(ctx.policy.allowed_versions(), declared, ctx.local_versions, listed(self.tally.served)),
        )
    }

    /// The version array has closed: it must be a list of distinct strings.
    #[verifier::opaque]
    pub open spec fn versions_closed(self, ctx: ContextText) -> Result<(PageState, Seq<u8>), TransformErrorText> {
        match json_strings(self.lex.captured) {
            None => Err(TransformErrorText::Parse),
            Some(declared) => match first_repeat(declared) {
                Some(version) => Err(TransformErrorText::Simple(SimpleErrorText::DuplicateVersion(version))),
                None => Ok(
                    (
                        PageState {
                            lex: self.lex.resumed(Mode::Passthrough),
                            header: HeaderState { versions_seen: true, ..self.header },
                            ..self
                        },
                        encode_utf8(json_list(self.versions_listed(ctx, declared))),
                    ),
                ),
            },
        }
    }
}

/// The first of `items` that stands there a second time.
pub open spec fn first_repeat(items: Seq<Seq<char>>) -> Option<Seq<char>>
    decreases items.len(),
{
    if items.len() == 0 {
        None
    } else {
        match first_repeat(items.drop_last()) {
            Some(item) => Some(item),
            None => if items.drop_last().contains(items.last()) {
                Some(items.last())
            } else {
                None
            },
        }
    }
}

/// What pushing bytes comes to: the state behind the last byte that was read, what was written, how many
/// bytes were read, and the element that waits to be handled or the error that ended it.
pub struct Pushing {
    pub state: PageState,
    pub out: Seq<u8>,
    pub used: nat,
    pub result: Result<Option<Element>, TransformErrorText>,
}

/// Read `chunk` until an element waits to be decoded.
pub open spec fn pushed(s: PageState, ctx: ContextText, chunk: Seq<u8>) -> Pushing
    decreases chunk.len(),
{
    if chunk.len() == 0 {
        Pushing { state: s, out: Seq::empty(), used: 0, result: Ok(None) }
    } else {
        let (t, out) = s.byte(ctx, chunk[0]);
        match t.lex.pending {
            None => behind(out, pushed(t, ctx, chunk.skip(1))),
            Some(Element::Versions) => match t.versions_closed(ctx) {
                Err(error) => Pushing { state: t, out, used: 1, result: Err(error) },
                Ok((u, more)) => behind(out + more, pushed(u, ctx, chunk.skip(1))),
            },
            Some(element) => Pushing { state: t, out, used: 1, result: Ok(Some(element)) },
        }
    }
}

/// `rest` with one byte read, and `out` written, before it.
pub open spec fn behind(out: Seq<u8>, rest: Pushing) -> Pushing {
    Pushing { out: out + rest.out, used: rest.used + 1, ..rest }
}

// ---------------------------------------------------------------------------------------------
// Upstream files
// ---------------------------------------------------------------------------------------------

/// The metadata sibling of a file URL: `.metadata` appended to the path, ahead of any query or fragment.
pub open spec fn sibling_url(url: Seq<char>) -> Seq<char> {
    let query = first_index(url, '?');
    let fragment = first_index(url, '#');
    let cut = if query < fragment {
        query
    } else {
        fragment
    };
    url.take(cut) + ".metadata"@ + url.skip(cut)
}

/// Whether a file of that name may have a metadata sibling: a wheel, or a gzipped source distribution.
pub open spec fn may_have_sibling(filename: Seq<char>) -> bool {
    ||| path_extension(filename) is Some && ascii_lower_text(path_extension(filename)->0) == ascii_lower_text("whl"@)
    ||| filename.len() >= 7 && ascii_lower_text(filename.skip(filename.len() - 7)) == ascii_lower_text(".tar.gz"@)
}

/// The metadata sibling that a content-addressed file advertises in a way that can be verified.
pub open spec fn sibling(file: FileText) -> Option<(Seq<char>, Seq<char>)> {
    match file.advertised().sha256() {
        Some(digest) if may_have_sibling(file.filename) => Some((sibling_url(file.url), digest)),
        _ => None,
    }
}

/// What an upstream file is registered as. Its URL is absolute by now.
pub open spec fn registered(file: FileText, sha256: Seq<char>) -> RegistrationText {
    RegistrationText {
        filename: file.filename,
        sha256,
        url: file.url,
        size: file.size,
        metadata: sibling(file),
        provenance: file.provenance.secure_url(),
    }
}

/// The metadata a content-addressed file is served with: what it advertises and can be verified, or else
/// what is known of its digest.
pub open spec fn served_metadata(ctx: ContextText, file: FileText, sha256: Seq<char>) -> FileText {
    let kept = if sibling(file) is Some {
        file
    } else {
        file.with_metadata(MetadataText::Absent)
    };
    if kept.advertised() is Absent && ctx.known_metadata.contains_key(sha256) {
        kept.with_metadata(
            MetadataText::Hashes(Map::empty().insert("sha256"@, ctx.known_metadata[sha256])),
        )
    } else {
        kept
    }
}

/// A content-addressed upstream file as it is served: at this registry's URL, without the signature
/// marker, and with its provenance at this registry's URL too unless attestations are served directly.
pub open spec fn readdressed(
    ctx: ContextText,
    file: FileText,
    sha256: Seq<char>,
    local_url: Seq<char>,
    local_provenance_url: Seq<char>,
) -> FileText {
    let kept = served_metadata(ctx, file, sha256);
    FileText {
        url: local_url,
        provenance: if remote_metadata_named(ctx.policy.setting(REMOTE_METADATA_SETTING@))
            != RemoteMetadataMode::Direct && file.provenance.secure_url() is Some {
            ProvenanceText::Url(local_provenance_url)
        } else {
            file.provenance
        },
        gpg_sig: None,
        ..kept
    }
}

/// What one upstream file comes to: the file written, if any, and what is registered for it.
pub struct Rewritten {
    pub written: Option<FileText>,
    pub registration: Option<RegistrationText>,
}

/// Rewrite one upstream file that is served. A file whose URL is already this registry's stays as it is,
/// but for the signature marker; a file without a digest keeps its URL and loses its metadata marker.
pub open spec fn rewritten_served(ctx: ContextText, file: FileText, up: UpstreamFacts) -> Rewritten {
    let yanked = ctx.with_yank(file);
    let resolved = match ctx.base {
        Some(base) => FileText { url: absolute(base, yanked.url), ..yanked },
        None => yanked,
    };
    match file.sha256() {
        Some(_) if up.already_local => Rewritten {
            written: Some(FileText { gpg_sig: None, ..yanked }),
            registration: None,
        },
        Some(sha256) => Rewritten {
            written: Some(readdressed(ctx, resolved, sha256, up.local_url@, up.local_provenance_url@)),
            registration: Some(registered(resolved, sha256)),
        },
        None => Rewritten { written: Some(resolved.with_metadata(MetadataText::Absent)), registration: None },
    }
}

impl PageState {
    /// Rewrite one upstream file. The page's conformance is judged before the file's: it is a property
    /// of what the upstream sent, not of the subset that is served.
    pub open spec fn rewritten(
        self,
        ctx: ContextText,
        file: FileText,
        up: UpstreamFacts,
    ) -> Result<Rewritten, TransformErrorText> {
        let kept = FileText { provenance: file.provenance.retained(), ..file };
        if self.tally.files_seen >= MAX_PAGE_FILES {
            Err(TransformErrorText::TooLarge)
        } else if self.header.promised && file.size is None {
            Err(TransformErrorText::Simple(SimpleErrorText::MissingFileSize(file.filename)))
        } else if self.header.quarantined() || ctx.skip.contains(file.filename) || !ctx.serves(kept, up.facts) {
            Ok(Rewritten { written: None, registration: None })
        } else {
            Ok(rewritten_served(ctx, kept, up))
        }
    }

    /// An upstream file has been taken up, and nothing has come of it.
    pub open spec fn file_counted(self) -> PageState {
        PageState {
            lex: self.lex.resumed(Mode::Files),
            tally: TallyState { files_seen: self.tally.files_seen + 1, ..self.tally },
            ..self
        }
    }

    /// The state behind an upstream file.
    pub open spec fn file_accepted(self, up: UpstreamFacts, outcome: Rewritten) -> PageState {
        PageState {
            lex: self.lex.resumed(Mode::Files),
            tally: TallyState {
                files_seen: self.tally.files_seen + 1,
                emitted_in_array: self.tally.emitted_in_array || outcome.written is Some,
                served: match release_of(opt_distribution(up.facts.parsed)) {
                    Some(release) if outcome.written is Some && !self.header.versions_seen =>
                        self.tally.served.insert(release),
                    _ => self.tally.served,
                },
                registrations: match outcome.registration {
                    Some(registration) => self.tally.registrations.push(registration),
                    None => self.tally.registrations,
                },
                ..self.tally
            },
            ..self
        }
    }

    /// The bytes an upstream file writes.
    pub open spec fn file_bytes(self, outcome: Rewritten) -> Seq<u8> {
        match outcome.written {
            Some(file) => (if self.tally.emitted_in_array {
                seq![COMMA]
            } else {
                Seq::empty()
            }) + encode_utf8(json_file(file)),
            None => Seq::empty(),
        }
    }
}

// ---------------------------------------------------------------------------------------------
// The transformer
// ---------------------------------------------------------------------------------------------

/// How far a push came: the bytes it read, and the element that waits to be decoded.
#[derive(Debug, Clone, Copy, PartialEq, Eq, Structural)]
pub struct Pushed {
    pub used: usize,
    pub element: Option<Element>,
}

struct Lexer {
    mode: Mode,
    depth: u32,
    active: bool,
    escaped: bool,
    captured: Vec<u8>,
    pending: Option<Element>,
}

struct Names {
    string: StringCapture,
    expect_name: bool,
    key: Vec<u8>,
    key_decode: KeyDecode,
    name: Vec<u8>,
}

struct Headers {
    project_status: Option<String>,
    project_status_reason: Option<String>,
    meta_seen: bool,
    status: StatusState,
    files_precede_headers: bool,
    promised: bool,
    versions_seen: bool,
}

struct Tally {
    closed: bool,
    trailing: bool,
    emitted_in_array: bool,
    served_versions: TextSet,
    registrations: Vec<Registration>,
    consumed: usize,
    files_seen: usize,
    validator: JsonValidator,
}

/// A chunk-at-a-time rewriter for one upstream page.
pub struct PageTransformer {
    context: PageContext,
    lex: Lexer,
    names: Names,
    header: Headers,
    tally: Tally,
}

/// The digits read so far bound the value of an escape.
pub open spec fn escape_bounded(decode: KeyDecode) -> bool {
    match decode {
        KeyDecode::Unicode { seen, value } => {
            ||| seen == 0 && value == 0
            ||| seen == 1 && value < 16
            ||| seen == 2 && value < 256
            ||| seen == 3 && value < 4096
        },
        _ => true,
    }
}

impl PageState {
    /// The page has outgrown its limit: whatever else comes of it is refused too.
    pub open spec fn overrun(self) -> PageState {
        PageState { tally: TallyState { consumed: (MAX_PAGE_BYTES + 1) as nat, ..self.tally }, ..self }
    }

    /// Whether the lexer stands where the grammar does, as long as the grammar has not been violated: as deep, in
    /// a string where it is in one, and in an element that its brackets still hold open. Once the root has closed,
    /// nothing else has come.
    #[verifier::opaque]
    pub open spec fn in_step(self) -> bool {
        let g = self.tally.grammar;
        !g.failed ==> {
            &&& self.lex.depth == g.stack.len()
            &&& self.lex.active == (g.state is Str)
            &&& self.lex.escaped == (g.state matches State::Str { escape, .. } && escape is Backslash)
            &&& g.complete == (g.state is Done)
            &&& g.state is Done ==> g.stack.len() == 0
            &&& self.tally.closed ==> g.state is Done
            &&& !self.tally.trailing
            &&& match self.lex.pending {
                Some(Element::File) => g.stack.len() >= 2 && g.stack[1] is Array,
                Some(_) => true,
                None => match self.lex.mode {
                    Mode::Passthrough => true,
                    Mode::Meta | Mode::ProjectStatus => g.stack.len() >= 2 && g.stack[1] is Object,
                    Mode::Files | Mode::Versions => g.stack.len() >= 2 && g.stack[1] is Array,
                },
            }
        }
    }

    /// What holds of every state that a page can lead to.
    pub open spec fn reachable(self) -> bool {
        &&& self.in_step()
        &&& self.lex.depth <= self.tally.consumed <= MAX_PAGE_BYTES + 1
        &&& self.lex.depth <= MAX_PAGE_BYTES
        &&& self.tally.files_seen <= MAX_PAGE_FILES
        &&& escape_bounded(self.names.key_decode)
    }
}

/// The grammar keeps what the lexer needs of it for one byte.
proof fn grammar_steps(g: Grammar, byte: u8)
    requires
        !g.failed,
        !g.after(byte).failed,
        g.complete == (g.state is Done),
        g.state is Done ==> g.stack.len() == 0,
    ensures
        ({
            let h = g.after(byte);
            &&& h.complete == (h.state is Done)
            &&& h.state is Done ==> h.stack.len() == 0
            &&& g.state is Done ==> h.state is Done && json_whitespace(byte)
            &&& g.state matches State::Str { escape, key } ==> h.stack == g.stack && {
                &&& (h.state is Str) == !(escape is Literal && byte == QUOTE)
                &&& (h.state matches State::Str { escape: e, .. } && e is Backslash) == (escape is Literal && byte
                    == BACKSLASH)
                &&& escape is Unicode ==> byte != QUOTE && byte != BACKSLASH
            }
            &&& !(g.state is Str) ==> {
                &&& (h.state is Str) == (byte == QUOTE)
                &&& !(h.state matches State::Str { escape: e, .. } && e is Backslash)
                &&& byte == OPEN_BRACE ==> h.stack == g.stack.push(Container::Object)
                &&& byte == OPEN_BRACKET ==> h.stack == g.stack.push(Container::Array)
                &&& byte == CLOSE_BRACE ==> g.stack.len() > 0 && g.stack.last() is Object && h.stack
                    == g.stack.drop_last()
                &&& byte == CLOSE_BRACKET ==> g.stack.len() > 0 && g.stack.last() is Array && h.stack
                    == g.stack.drop_last()
                &&& (byte == CLOSE_BRACE || byte == CLOSE_BRACKET) && h.stack.len() == 0 ==> h.state is Done
                &&& byte != OPEN_BRACE && byte != OPEN_BRACKET && byte != CLOSE_BRACE && byte != CLOSE_BRACKET
                    ==> h.stack == g.stack
            }
        }),
{
    match g.state {
        State::Lit { keyword, index } => {
            let spelling = keyword.spelling();
            assert(forall|i: int|
                0 <= i < spelling.len() ==> {
                    &&& #[trigger] spelling[i] != QUOTE
                    &&& spelling[i] != OPEN_BRACE
                    &&& spelling[i] != OPEN_BRACKET
                    &&& spelling[i] != CLOSE_BRACE
                    &&& spelling[i] != CLOSE_BRACKET
                });
        },
        _ => {},
    }
}

/// A byte keeps the lexer in step with the grammar.
proof fn bytes_keep_step(s: PageState, ctx: ContextText, byte: u8)
    requires
        s.in_step(),
        s.lex.pending is None,
    ensures
        s.byte(ctx, byte).0.in_step(),
{
    reveal(PageState::in_step);
    reveal(PageState::byte);
    reveal(PageState::copied_byte);
    reveal(LexState::object_byte);
    reveal(LexState::files_byte);
    reveal(LexState::versions_byte);
    let g = s.tally.grammar;
    if !g.failed && !g.after(byte).failed {
        grammar_steps(g, byte);
    }
}

fn key_push(key: &mut Vec<u8>, byte: u8)
    ensures
        final(key)@ == key_pushed(old(key)@, byte),
{
    if key.len() <= MAX_KEY_BYTES {
        key.push(byte);
    }
}

fn hex_digit_value(byte: u8) -> (r: Option<u8>)
    ensures
        r == hex_value(byte),
        r is Some ==> r->0 < 16,
{
    if 0x30 <= byte && byte <= 0x39 {
        Some(byte - 0x30)
    } else if 0x61 <= byte && byte <= 0x66 {
        Some(byte - 0x61 + 10)
    } else if 0x41 <= byte && byte <= 0x46 {
        Some(byte - 0x41 + 10)
    } else {
        None
    }
}

/// Append the encoding of `text` to `out`.
fn push_text(out: &mut Vec<u8>, text: &str)
    ensures
        final(out)@ == old(out)@ + encode_utf8(text@),
{
    push_bytes(out, text.as_bytes());
}

/// The empty text has the empty encoding, and that of a joined text is made of those of its parts.
proof fn encodings()
    ensures
        encode_utf8(Seq::<char>::empty()) == Seq::<u8>::empty(),
{
    assert(encode_utf8(Seq::<char>::empty()) =~= Seq::<u8>::empty());
}

impl Lexer {
    closed spec fn view(self) -> LexState {
        LexState {
            mode: self.mode,
            depth: self.depth as nat,
            active: self.active,
            escaped: self.escaped,
            captured: self.captured@,
            pending: self.pending,
        }
    }

    fn string_byte(&mut self, byte: u8)
        ensures
            final(self)@ == old(self)@.string_byte(byte),
    {
        if self.escaped {
            self.escaped = false;
        } else if byte == BACKSLASH {
            self.escaped = true;
        } else if byte == QUOTE {
            self.active = false;
        }
    }

    fn enter(&mut self, mode: Mode, byte: u8)
        ensures
            final(self)@ == old(self)@.enter(mode, byte),
    {
        self.mode = mode;
        self.captured.clear();
        self.captured.push(byte);
        assert(self.captured@ =~= seq![byte]);
    }

    fn resume(&mut self, mode: Mode)
        ensures
            final(self)@ == old(self)@.resumed(mode),
    {
        self.mode = mode;
        self.captured.clear();
        self.pending = None;
        assert(self.captured@ =~= Seq::<u8>::empty());
    }

    fn close(&mut self)
        ensures
            final(self)@ == old(self)@.shallower(),
    {
        self.depth = self.depth.saturating_sub(1);
    }

    fn step_object(&mut self, byte: u8, element: Element)
        requires
            old(self)@.depth < u32::MAX,
        ensures
            final(self)@ == old(self)@.object_byte(byte, element),
            final(self)@.depth <= old(self)@.depth + 1,
    {
        reveal(LexState::object_byte);
        self.captured.push(byte);
        if self.active {
            self.string_byte(byte);
        } else if byte == QUOTE {
            self.active = true;
        } else if byte == OPEN_BRACE || byte == OPEN_BRACKET {
            self.depth = self.depth + 1;
        } else if byte == CLOSE_BRACE {
            self.close();
            if self.depth == 1 {
                self.pending = Some(element);
            }
        } else if byte == CLOSE_BRACKET {
            self.close();
        }
    }

    /// A byte inside the file array; say whether it closed the array.
    fn step_files(&mut self, byte: u8) -> (r: bool)
        requires
            old(self)@.depth < u32::MAX,
        ensures
            final(self)@ == old(self)@.files_byte(byte),
            r == old(self)@.closes_array(byte),
            final(self)@.depth <= old(self)@.depth + 1,
    {
        reveal(LexState::files_byte);
        if self.active {
            self.captured.push(byte);
            self.string_byte(byte);
        } else if byte == QUOTE {
            self.captured.push(byte);
            self.active = true;
        } else if byte == OPEN_BRACE || byte == OPEN_BRACKET {
            self.captured.push(byte);
            self.depth = self.depth + 1;
        } else if byte == CLOSE_BRACE {
            self.captured.push(byte);
            self.close();
            if self.depth == 2 {
                self.pending = Some(Element::File);
            }
        } else if byte == CLOSE_BRACKET {
            self.close();
            if self.depth == 1 {
                self.mode = Mode::Passthrough;
                return true;
            }
            self.captured.push(byte);
        } else if (byte == COMMA && self.depth == 2) || (self.captured.len() == 0 && is_json_whitespace(byte)) {
        } else {
            self.captured.push(byte);
        }
        false
    }

    fn step_versions(&mut self, byte: u8)
        requires
            old(self)@.depth < u32::MAX,
        ensures
            final(self)@ == old(self)@.versions_byte(byte),
            final(self)@.depth <= old(self)@.depth + 1,
    {
        reveal(LexState::versions_byte);
        self.captured.push(byte);
        if self.active {
            self.string_byte(byte);
        } else if byte == QUOTE {
            self.active = true;
        } else if byte == OPEN_BRACE || byte == OPEN_BRACKET {
            self.depth = self.depth + 1;
        } else if byte == CLOSE_BRACE || byte == CLOSE_BRACKET {
            self.close();
            if byte == CLOSE_BRACKET && self.depth == 1 {
                self.pending = Some(Element::Versions);
            }
        }
    }
}

impl Names {
    closed spec fn view(self) -> NameState {
        NameState {
            string: self.string,
            expect_name: self.expect_name,
            key: self.key@,
            key_decode: self.key_decode,
            name: self.name@,
        }
    }

    fn key_matches(&self, name: &str) -> (r: bool)
        ensures
            r == key_is(self@.key, name@),
    {
        bytes_eq(self.key.as_slice(), name.as_bytes())
    }

    /// Feed one raw key byte through the string-escape grammar, so that a key is compared by its value
    /// and not by its spelling.
    fn decode_key_byte(&mut self, byte: u8)
        requires
            escape_bounded(old(self)@.key_decode),
        ensures
            final(self)@ == (NameState {
                key: key_decoded(old(self)@.key, old(self)@.key_decode, byte).0,
                key_decode: key_decoded(old(self)@.key, old(self)@.key_decode, byte).1,
                ..old(self)@
            }),
    {
        match self.key_decode {
            KeyDecode::Literal => {
                if byte == BACKSLASH {
                    self.key_decode = KeyDecode::Escape;
                } else {
                    key_push(&mut self.key, byte);
                }
            },
            KeyDecode::Escape => {
                if byte == 0x75 {
                    self.key_decode = KeyDecode::Unicode { seen: 0, value: 0 };
                } else {
                    self.key_decode = KeyDecode::Literal;
                    key_push(&mut self.key, FOREIGN);
                }
            },
            KeyDecode::Unicode { seen, value } => match hex_digit_value(byte) {
                None => {
                    self.key_decode = KeyDecode::Literal;
                    key_push(&mut self.key, FOREIGN);
                },
                Some(digit) => {
                    let next: u16 = value * 16 + digit as u16;
                    if seen >= 3 {
                        self.key_decode = KeyDecode::Literal;
                        let decoded: u8 = if next < 0x80 {
                            next as u8
                        } else {
                            FOREIGN
                        };
                        key_push(&mut self.key, decoded);
                    } else {
                        self.key_decode = KeyDecode::Unicode { seen: seen + 1, value: next };
                    }
                },
            },
        }
    }

    fn string_byte(&mut self, byte: u8, escaped: bool)
        requires
            escape_bounded(old(self)@.key_decode),
        ensures
            final(self)@ == old(self)@.string_byte(byte, escaped),
            escape_bounded(final(self)@.key_decode),
    {
        let ends: bool = !escaped && byte == QUOTE;
        if self.string == StringCapture::Key && !ends {
            self.decode_key_byte(byte);
        }
        if self.string == StringCapture::Name && !ends {
            self.name.push(byte);
        }
        if ends {
            self.string = StringCapture::Nothing;
        }
    }

    fn string_opened(&mut self, top: bool)
        ensures
            final(self)@ == old(self)@.string_opened(top),
    {
        if top {
            if self.expect_name {
                self.string = StringCapture::Name;
                self.name.clear();
                assert(self.name@ =~= Seq::<u8>::empty());
            } else {
                self.key.clear();
                assert(self.key@ =~= Seq::<u8>::empty());
                self.key_decode = KeyDecode::Literal;
                self.string = StringCapture::Key;
            }
        }
        self.expect_name = false;
    }
}

impl Headers {
    closed spec fn view(self) -> HeaderState {
        HeaderState {
            project_status: opt_text(self.project_status),
            project_status_reason: opt_text(self.project_status_reason),
            meta_seen: self.meta_seen,
            status: self.status,
            files_precede_headers: self.files_precede_headers,
            promised: self.promised,
            versions_seen: self.versions_seen,
        }
    }

    fn known(&self) -> (r: bool)
        ensures
            r == self@.known(),
    {
        self.meta_seen && matches!(self.status, StatusState::Seen | StatusState::Emitted)
    }

    fn quarantined(&self) -> (r: bool)
        ensures
            r == self@.quarantined(),
    {
        match &self.project_status {
            Some(status) => text_eq(status.as_str(), "quarantined"),
            None => false,
        }
    }

    fn emit_seeded_project_status(&mut self, out: &mut Vec<u8>)
        ensures
            final(self)@ == old(self)@.status_settled(),
            final(out)@ == old(out)@ + old(self)@.seeded_status(),
    {
        let ghost start = out@;
        if self.status == StatusState::Emitted || (self.project_status.is_none()
            && self.project_status_reason.is_none()) {
            assert(out@ =~= start + Seq::<u8>::empty());
            return;
        }
        push_text(out, ",\"project-status\":");
        let object = ProjectStatusObject {
            status: opt_as_str(&self.project_status),
            reason: opt_as_str(&self.project_status_reason),
        };
        let text = status_json(&object);
        push_text(out, text.as_str());
        self.status = StatusState::Emitted;
        assert(out@ =~= start + old(self)@.seeded_status());
    }
}

impl Tally {
    closed spec fn view(self) -> TallyState {
        TallyState {
            closed: self.closed,
            trailing: self.trailing,
            emitted_in_array: self.emitted_in_array,
            served: self.served_versions@,
            registrations: registration_texts(self.registrations@),
            consumed: self.consumed as nat,
            files_seen: self.files_seen as nat,
            grammar: self.validator@,
        }
    }
}

/// Whether taking in a page's metadata takes it from `was` to `now`, and what is written from `out` to `wrote`.
pub open spec fn is_meta_accepted(
    was: PageState,
    meta: IncomingMeta,
    out: Seq<u8>,
    now: PageState,
    wrote: Seq<u8>,
    r: Result<(), TransformError>,
) -> bool {
    match incoming_refusal(meta, None) {
        Some(refusal) => r matches Err(e) && e@ == TransformErrorText::Simple(refusal) && now
            == was && wrote == out,
        None => {
            let version = version_served(opt_text(meta.api_version))->Ok_0;
            &&& r is Ok
            &&& now == (PageState {
                lex: was.lex.resumed(Mode::Passthrough),
                header: HeaderState {
                    meta_seen: true,
                    promised: version == API_VERSION@,
                    ..was.header
                },
                ..was
            })
            &&& wrote == out + encode_utf8(json_meta(version))
        },
    }
}

/// Whether taking in a page's status takes it from `was` to `now`, and what is written from `out` to `wrote`.
pub open spec fn is_status_accepted(
    was: PageState,
    status: IncomingProjectStatus,
    out: Seq<u8>,
    now: PageState,
    wrote: Seq<u8>,
    r: Result<(), TransformError>,
) -> bool {
    let marker = opt_text(status.status);
    let reason = opt_text(status.reason);
    if marker is Some && status_of_marker(marker->0) is None {
        r matches Err(e) && e@ == TransformErrorText::Simple(
            SimpleErrorText::InvalidProjectStatus(marker->0),
        ) && now == was && wrote == out
    } else {
        &&& r is Ok
        &&& now == (PageState {
            lex: was.lex.resumed(Mode::Passthrough),
            header: HeaderState {
                project_status: marker,
                project_status_reason: reason,
                status: StatusState::Emitted,
                ..was.header
            },
            ..was
        })
        &&& wrote == out + encode_utf8(json_status(marker, reason))
    }
}

/// Whether taking in a file takes its page from `was` to `now`, and what is written from `out` to `wrote`.
pub open spec fn is_file_accepted(
    was: PageState,
    ctx: ContextText,
    file: FileText,
    up: UpstreamFacts,
    out: Seq<u8>,
    now: PageState,
    wrote: Seq<u8>,
    r: Result<(), TransformError>,
) -> bool {
    match was.rewritten(ctx, file, up) {
        Err(error) => r matches Err(e) && e@ == error && wrote == out && now == (if was.tally.files_seen >= MAX_PAGE_FILES {
            was
        } else {
            was.file_counted()
        }),
        Ok(outcome) => r is Ok && now == was.file_accepted(up, outcome) && wrote
            == out + was.file_bytes(outcome),
    }
}

/// Whether `r` is what a page comes to at its end.
pub open spec fn is_page_finished(page: PageState, r: Result<PageSummary, TransformError>) -> bool {
    match page.finished() {
        Some(error) => r matches Err(e) && e@ == error,
        None => r matches Ok(summary) && registration_texts(summary.registrations@) == page.tally.registrations
            && opt_text(summary.name) == page.page_name() && opt_text(summary.project_status)
            == page.header.project_status && opt_text(summary.project_status_reason)
            == page.header.project_status_reason,
    }
}

impl PageTransformer {
    pub closed spec fn view(self) -> PageState {
        PageState { lex: self.lex@, names: self.names@, header: self.header@, tally: self.tally@ }
    }

    /// The surroundings of the page.
    pub closed spec fn ctx(self) -> ContextText {
        self.context@
    }

    /// A rewriter before the first byte.
    pub fn new(context: PageContext) -> (r: Self)
        ensures
            r@ == page_start(),
            r@.reachable(),
            r.ctx() == context@,
    {
        let lex = Lexer {
            mode: Mode::Passthrough,
            depth: 0,
            active: false,
            escaped: false,
            captured: Vec::new(),
            pending: None,
        };
        let names = Names {
            string: StringCapture::Nothing,
            expect_name: false,
            key: Vec::new(),
            key_decode: KeyDecode::Literal,
            name: Vec::new(),
        };
        let header = Headers {
            project_status: None,
            project_status_reason: None,
            meta_seen: false,
            status: StatusState::Unseen,
            files_precede_headers: false,
            promised: false,
            versions_seen: false,
        };
        let tally = Tally {
            closed: false,
            trailing: false,
            emitted_in_array: false,
            served_versions: TextSet::new(),
            registrations: Vec::new(),
            consumed: 0,
            files_seen: 0,
            validator: JsonValidator::new(),
        };
        assert(names@.key =~= Seq::<u8>::empty());
        assert(names@.name =~= Seq::<u8>::empty());
        assert(lex@.captured =~= Seq::<u8>::empty());
        assert(tally@.registrations =~= Seq::<RegistrationText>::empty());
        reveal(PageState::in_step);
        PageTransformer { context, lex, names, header, tally }
    }

    /// The route of the index that serves the page, under which its local URLs stand.
    pub fn route(&self) -> (r: &str)
        ensures
            r@ == self.ctx().route,
    {
        self.context.route.as_str()
    }

    /// Whether preflight validated both headers or reached `files` before it could.
    pub fn header_preflight_done(&self) -> (r: bool)
        ensures
            r == (self@.header.files_precede_headers || self@.header.known()),
    {
        self.header.files_precede_headers || self.headers_known()
    }

    /// Whether streaming reached `files` before validating `meta` and resolving project status.
    pub fn files_precede_headers(&self) -> (r: bool)
        ensures
            r == self@.header.files_precede_headers,
    {
        self.header.files_precede_headers
    }

    /// Whether preflight validated the API version and resolved project status.
    pub fn headers_known(&self) -> (r: bool)
        ensures
            r == self@.header.known(),
    {
        self.header.known()
    }

    /// Seed a whole-page pass after parsing established the explicit or absent status.
    pub fn seed_project_status(&mut self, status: Option<String>, reason: Option<String>)
        ensures
            final(self)@ == (PageState {
                header: HeaderState {
                    project_status: opt_text(status),
                    project_status_reason: opt_text(reason),
                    meta_seen: true,
                    status: StatusState::Seen,
                    ..old(self)@.header
                },
                ..old(self)@
            }),
            final(self).ctx() == old(self).ctx(),
    {
        self.header.project_status = status;
        self.header.project_status_reason = reason;
        self.header.meta_seen = true;
        self.header.status = StatusState::Seen;
    }

    /// The bytes of the element that waits to be decoded.
    pub fn captured(&self) -> (r: &[u8])
        ensures
            r@ == self@.lex.captured,
    {
        self.lex.captured.as_slice()
    }

    /// Write the local files that are served.
    fn emit_local_files(&mut self, out: &mut Vec<u8>)
        ensures
            final(self)@ == (PageState { tally: old(self)@.local_tally(old(self).ctx()), ..old(self)@ }),
            final(out)@ == old(out)@ + encode_utf8(comma_joined(old(self)@.local_items(old(self).ctx()))),
            final(self).ctx() == old(self).ctx(),
    {
        let ghost start = out@;
        let ghost state = self@;
        let ghost ctx = self.ctx();
        self.tally.emitted_in_array = false;
        proof {
            encodings();
            assert(start + Seq::<u8>::empty() =~= start);
        }
        if self.header.quarantined() {
            return;
        }
        let mut text = String::new();
        let mut count: usize = 0;
        let mut releases = TextSet::new();
        let mut i: usize = 0;
        while i < self.context.local_files.len()
            invariant
                i <= self.context.local_files@.len(),
                count <= i,
                ctx == self.context@,
                text@ == comma_joined(ctx.local_json(i as int)),
                count == ctx.local_json(i as int).len(),
                releases@ == ctx.local_releases(i as int),
            decreases self.context.local_files.len() - i,
        {
            let local = &self.context.local_files[i];
            let ghost file = local.file@;
            let hidden: bool = self.context.hidden.contains(local.file.filename.as_str());
            let refused: bool = self.context.policy.check_file(
                PolicyAction::Serve,
                self.context.project.as_str(),
                &local.file,
                &local.facts,
            ).is_err();
            if !hidden && !refused {
                assert(ctx.serves_local(i as int));
                let item: String = match self.context.yanked.get(local.file.filename.as_str()) {
                    Some(yanked) => {
                        let mut copy = local.file.copied();
                        copy.yanked = yanked.copied();
                        file_json(&copy)
                    },
                    None => file_json(&local.file),
                };
                assert(item@ == json_file(ctx.with_yank(file)));
                proof {
                    comma_joined_push(ctx.local_json(i as int), item@);
                }
                if count > 0 {
                    text.append(",");
                    text.append(item.as_str());
                } else {
                    text = item;
                }
                count = count + 1;
                match crate::distribution::served_version(&local.facts.parsed) {
                    Some(release) => {
                        let added: bool = releases.insert(release);
                    },
                    None => {},
                }
            } else {
                assert(!ctx.serves_local(i as int));
            }
            i = i + 1;
        }
        push_text(out, text.as_str());
        self.tally.emitted_in_array = count > 0;
        if !self.header.versions_seen {
            add_all(&mut self.tally.served_versions, &releases);
        }
    }

    fn step_open(&mut self, byte: u8, out: &mut Vec<u8>)
        requires
            old(self)@.lex.depth < u32::MAX,
            byte == OPEN_BRACE || byte == OPEN_BRACKET,
        ensures
            final(self)@ == old(self)@.opened(old(self).ctx(), byte).0,
            final(out)@ == old(out)@ + old(self)@.opened(old(self).ctx(), byte).1,
            final(self).ctx() == old(self).ctx(),
    {
        let ghost start = out@;
        assert(start + Seq::<u8>::empty() =~= start);
        self.names.expect_name = false;
        self.lex.depth = self.lex.depth + 1;
        if byte == OPEN_BRACE && self.lex.depth == 2 {
            if self.names.key_matches("meta") {
                self.lex.enter(Mode::Meta, byte);
                return;
            }
            if self.names.key_matches("project-status") {
                self.lex.enter(Mode::ProjectStatus, byte);
                return;
            }
        }
        if byte == OPEN_BRACKET && self.lex.depth == 2 {
            if self.names.key_matches("files") {
                out.push(byte);
                assert(out@ =~= start + seq![byte]);
                self.lex.mode = Mode::Files;
                self.emit_local_files(out);
                assert(out@ =~= start + old(self)@.opened(old(self).ctx(), byte).1);
                return;
            }
            if self.names.key_matches("versions") {
                self.lex.enter(Mode::Versions, byte);
                return;
            }
        }
        out.push(byte);
        assert(out@ =~= start + seq![byte]);
    }

    fn step_close(&mut self, byte: u8, out: &mut Vec<u8>)
        ensures
            final(self)@ == old(self)@.closed(byte).0,
            final(out)@ == old(out)@ + old(self)@.closed(byte).1,
            final(self).ctx() == old(self).ctx(),
    {
        let ghost start = out@;
        if byte == CLOSE_BRACE && self.lex.depth == 1 {
            self.header.emit_seeded_project_status(out);
        }
        self.lex.close();
        if self.lex.depth == 0 {
            self.tally.closed = true;
        }
        out.push(byte);
        assert(out@ =~= start + old(self)@.closed(byte).1);
    }

    fn step_colon(&mut self)
        ensures
            final(self)@ == old(self)@.keyed(),
            final(self).ctx() == old(self).ctx(),
    {
        self.names.expect_name = self.names.key_matches("name");
        if !self.header.known() && self.names.key_matches("files") {
            self.header.files_precede_headers = true;
        }
    }

    fn note_trailing(&mut self, byte: u8)
        ensures
            final(self)@ == old(self)@.noting_trailing(byte),
            final(self).ctx() == old(self).ctx(),
    {
        if self.tally.closed && !is_json_whitespace(byte) {
            self.tally.trailing = true;
        }
    }

    fn step_passthrough(&mut self, byte: u8, out: &mut Vec<u8>)
        requires
            old(self)@.lex.depth < u32::MAX,
            escape_bounded(old(self)@.names.key_decode),
        ensures
            final(self)@ == old(self)@.copied_byte(old(self).ctx(), byte).0,
            final(out)@ == old(out)@ + old(self)@.copied_byte(old(self).ctx(), byte).1,
            final(self).ctx() == old(self).ctx(),
            final(self)@.lex.depth <= old(self)@.lex.depth + 1,
            escape_bounded(final(self)@.names.key_decode),
            final(self)@.tally.consumed == old(self)@.tally.consumed,
            final(self)@.tally.files_seen == old(self)@.tally.files_seen,
    {
        reveal(PageState::copied_byte);
        let ghost start = out@;
        assert(start.push(byte) =~= start + seq![byte]);
        if self.lex.active {
            let escaped: bool = self.lex.escaped;
            self.lex.string_byte(byte);
            self.names.string_byte(byte, escaped);
            out.push(byte);
            return;
        }
        self.note_trailing(byte);
        if byte == OPEN_BRACE || byte == OPEN_BRACKET {
            self.step_open(byte, out);
            return;
        }
        if byte == CLOSE_BRACE || byte == CLOSE_BRACKET {
            self.step_close(byte, out);
            return;
        }
        if byte == QUOTE {
            self.lex.active = true;
            self.names.string_opened(self.lex.depth == 1);
        } else if byte == COLON && self.lex.depth == 1 {
            self.step_colon();
        } else if !is_json_whitespace(byte) {
            self.names.expect_name = false;
        }
        out.push(byte);
    }

    fn step(&mut self, byte: u8, out: &mut Vec<u8>)
        requires
            old(self)@.reachable(),
            old(self)@.tally.consumed < MAX_PAGE_BYTES,
            old(self)@.lex.pending is None,
        ensures
            final(self)@ == old(self)@.byte(old(self).ctx(), byte).0,
            final(out)@ == old(out)@ + old(self)@.byte(old(self).ctx(), byte).1,
            final(self).ctx() == old(self).ctx(),
            final(self)@.reachable(),
            final(self)@.tally.consumed == old(self)@.tally.consumed + 1,
    {
        proof {
            bytes_keep_step(self@, self.ctx(), byte);
        }
        reveal(PageState::byte);
        self.tally.validator.feed(byte);
        self.tally.consumed = self.tally.consumed + 1;
        let ghost start = out@;
        assert(start + Seq::<u8>::empty() =~= start);
        match self.lex.mode {
            Mode::Passthrough => self.step_passthrough(byte, out),
            Mode::Meta => self.lex.step_object(byte, Element::Meta),
            Mode::ProjectStatus => self.lex.step_object(byte, Element::ProjectStatus),
            Mode::Files => {
                if self.lex.step_files(byte) {
                    out.push(byte);
                    assert(out@ =~= start + seq![byte]);
                }
            },
            Mode::Versions => self.lex.step_versions(byte),
        }
    }

    /// Close the version array: merge the declared versions with those of the local and the served
    /// files.
    fn emit_versions(&mut self, out: &mut Vec<u8>) -> (r: Result<(), TransformError>)
        requires
            old(self)@.reachable(),
        ensures
            match old(self)@.versions_closed(old(self).ctx()) {
                Err(error) => r matches Err(e) && e@ == error && final(self)@ == old(self)@ && final(out)@ == old(
                    out,
                )@,
                Ok((state, bytes)) => r is Ok && final(self)@ == state && final(out)@ == old(out)@ + bytes,
            },
            final(self).ctx() == old(self).ctx(),
            final(self)@.reachable(),
            final(self)@.tally.consumed == old(self)@.tally.consumed,
            r is Ok ==> final(self)@.lex.pending is None,
    {
        reveal(PageState::versions_closed);
        reveal(PageState::in_step);
        let declared = match json_string_list(self.lex.captured.as_slice()) {
            Some(declared) => declared,
            None => {
                return Err(TransformError::Parse);
            },
        };
        match repeated(&declared) {
            Some(version) => {
                return Err(TransformError::Simple(SimpleError::DuplicateVersion(version)));
            },
            None => {},
        }
        let admission = VersionAdmission::of(&self.context.policy);
        let served = self.tally.served_versions.to_list();
        let set = listed_versions(&admission, &declared, &self.context.local_versions, &served);
        let list = set.to_list();
        let mut text = String::new();
        write_list(&mut text, &list);
        assert(text@ =~= json_list(texts(list@)));
        push_text(out, text.as_str());
        self.header.versions_seen = true;
        self.lex.resume(Mode::Passthrough);
        Ok(())
    }

    /// Read `chunk`, writing what it comes to behind `out`, until an element waits to be decoded. The
    /// caller hands the decoded element over and pushes the bytes that were not read.
    pub fn push_into(&mut self, chunk: &[u8], out: &mut Vec<u8>) -> (r: Result<Pushed, TransformError>)
        requires
            old(self)@.reachable(),
            old(self)@.lex.pending is None,
        ensures
            old(self)@.tally.consumed + chunk@.len() > MAX_PAGE_BYTES ==> (r matches Err(TransformError::TooLarge)
                && final(self)@ == old(self)@.overrun() && final(out)@ == old(out)@),
            old(self)@.tally.consumed + chunk@.len() <= MAX_PAGE_BYTES ==> {
                let p = pushed(old(self)@, old(self).ctx(), chunk@);
                &&& final(self)@ == p.state
                &&& final(out)@ == old(out)@ + p.out
                &&& match r {
                    Ok(progress) => p.result == Ok::<Option<Element>, TransformErrorText>(progress.element)
                        && progress.used == p.used && progress.used <= chunk@.len(),
                    Err(error) => p.result == Err::<Option<Element>, TransformErrorText>(error@),
                }
            },
            final(self).ctx() == old(self).ctx(),
            final(self)@.reachable(),
    {
        if self.tally.consumed > MAX_PAGE_BYTES || chunk.len() > MAX_PAGE_BYTES - self.tally.consumed {
            self.tally.consumed = MAX_PAGE_BYTES + 1;
            reveal(PageState::in_step);
            return Err(TransformError::TooLarge);
        }
        let ghost start = out@;
        let ghost state = self@;
        let ghost ctx = self.ctx();
        let ghost whole = pushed(state, ctx, chunk@);
        let mut i: usize = 0;
        assert(chunk@.skip(0) =~= chunk@);
        assert(start + whole.out =~= out@ + pushed(self@, ctx, chunk@.skip(0)).out);
        while i < chunk.len()
            invariant
                i <= chunk@.len(),
                state == old(self)@,
                ctx == old(self).ctx(),
                start == old(out)@,
                self@.reachable(),
                self@.lex.pending is None,
                self.ctx() == ctx,
                self@.tally.consumed == state.tally.consumed + i,
                state.tally.consumed + chunk@.len() <= MAX_PAGE_BYTES,
                whole == pushed(state, ctx, chunk@),
                whole.state == pushed(self@, ctx, chunk@.skip(i as int)).state,
                whole.result == pushed(self@, ctx, chunk@.skip(i as int)).result,
                whole.used == pushed(self@, ctx, chunk@.skip(i as int)).used + i,
                start + whole.out == out@ + pushed(self@, ctx, chunk@.skip(i as int)).out,
            decreases chunk.len() - i,
        {
            let ghost before_out = out@;
            let ghost before_state = self@;
            let ghost rest = chunk@.skip(i as int);
            assert(rest[0] == chunk@[i as int]);
            assert(rest.skip(1) =~= chunk@.skip(i + 1));
            self.step(chunk[i], out);
            i = i + 1;
            let ghost stepped_out = before_state.byte(ctx, rest[0]).1;
            match self.lex.pending {
                None => {
                    assert(out@ + pushed(self@, ctx, chunk@.skip(i as int)).out =~= before_out + (stepped_out
                        + pushed(self@, ctx, chunk@.skip(i as int)).out));
                },
                Some(Element::Versions) => {
                    let ghost closing = self@;
                    match self.emit_versions(out) {
                        Ok(_) => {
                            assert(out@ + pushed(self@, ctx, chunk@.skip(i as int)).out =~= before_out + ((
                            stepped_out + closing.versions_closed(ctx)->Ok_0.1) + pushed(
                                self@,
                                ctx,
                                chunk@.skip(i as int),
                            ).out));
                        },
                        Err(error) => {
                            return Err(error);
                        },
                    }
                },
                Some(element) => {
                    return Ok(Pushed { used: i, element: Some(element) });
                },
            }
        }
        assert(chunk@.skip(i as int) =~= Seq::<u8>::empty());
        assert(out@ + Seq::<u8>::empty() =~= out@);
        Ok(Pushed { used: i, element: None })
    }

    /// Read `chunk` until an element waits to be decoded, giving back what was written.
    pub fn push(&mut self, chunk: &[u8]) -> (r: Result<(Vec<u8>, Pushed), TransformError>)
        requires
            old(self)@.reachable(),
            old(self)@.lex.pending is None,
        ensures
            old(self)@.tally.consumed + chunk@.len() > MAX_PAGE_BYTES ==> (r matches Err(TransformError::TooLarge)
                && final(self)@ == old(self)@.overrun()),
            old(self)@.tally.consumed + chunk@.len() <= MAX_PAGE_BYTES ==> {
                let p = pushed(old(self)@, old(self).ctx(), chunk@);
                &&& final(self)@ == p.state
                &&& match r {
                    Ok((out, progress)) => p.result == Ok::<Option<Element>, TransformErrorText>(progress.element)
                        && progress.used == p.used && progress.used <= chunk@.len() && out@ == p.out,
                    Err(error) => p.result == Err::<Option<Element>, TransformErrorText>(error@),
                }
            },
            final(self).ctx() == old(self).ctx(),
            final(self)@.reachable(),
    {
        let mut out: Vec<u8> = Vec::new();
        match self.push_into(chunk, &mut out) {
            Ok(progress) => {
                assert(out@ =~= pushed(old(self)@, old(self).ctx(), chunk@).out);
                Ok((out, progress))
            },
            Err(error) => Err(error),
        }
    }

    /// Hand over the decoded `meta` object: its version is checked, and the served one is written.
    pub fn accept_meta(&mut self, meta: IncomingMeta, out: &mut Vec<u8>) -> (r: Result<(), TransformError>)
        requires
            old(self)@.reachable(),
            old(self)@.lex.pending == Some(Element::Meta),
        ensures
            is_meta_accepted(old(self)@, meta, old(out)@, final(self)@, final(out)@, r),
            final(self).ctx() == old(self).ctx(),
            final(self)@.reachable(),
    {
        reveal(PageState::in_step);
        let served = match meta.into_meta() {
            Ok(served) => served,
            Err(error) => {
                return Err(TransformError::Simple(error));
            },
        };
        let text = meta_json(&served);
        push_text(out, text.as_str());
        self.header.meta_seen = true;
        self.header.promised = served.promises_pep700();
        self.lex.resume(Mode::Passthrough);
        Ok(())
    }

    /// Hand over the decoded status object: its marker is checked, and it is written again.
    pub fn accept_project_status(&mut self, status: IncomingProjectStatus, out: &mut Vec<u8>) -> (r: Result<
        (),
        TransformError,
    >)
        requires
            old(self)@.reachable(),
            old(self)@.lex.pending == Some(Element::ProjectStatus),
        ensures
            is_status_accepted(old(self)@, status, old(out)@, final(self)@, final(out)@, r),
            final(self).ctx() == old(self).ctx(),
            final(self)@.reachable(),
    {
        reveal(PageState::in_step);
        let (marker, reason) = match parse_project_status(status) {
            Ok(pair) => pair,
            Err(error) => {
                return Err(TransformError::Simple(error));
            },
        };
        self.header.project_status = marker;
        self.header.project_status_reason = reason;
        let object = ProjectStatusObject {
            status: opt_as_str(&self.header.project_status),
            reason: opt_as_str(&self.header.project_status_reason),
        };
        let text = status_json(&object);
        push_text(out, text.as_str());
        self.header.status = StatusState::Emitted;
        self.lex.resume(Mode::Passthrough);
        Ok(())
    }

    /// Whether the file is served, once its size has come where the page owes it.
    fn judge_file(&self, file: &File, facts: &FileFacts) -> (r: Result<bool, TransformError>)
        ensures
            match r {
                Err(error) => self@.header.promised && file.size is None && error@ == TransformErrorText::Simple(
                    SimpleErrorText::MissingFileSize(file.filename@),
                ),
                Ok(serves) => !(self@.header.promised && file.size is None) && serves == !(
                self@.header.quarantined() || self.ctx().skip.contains(file.filename@) || !self.ctx().serves(
                    file@,
                    *facts,
                )),
            },
    {
        if self.header.promised && file.size.is_none() {
            return Err(TransformError::Simple(SimpleError::MissingFileSize(file.filename.clone())));
        }
        if self.header.quarantined() {
            return Ok(false);
        }
        if self.context.skip.contains(file.filename.as_str()) {
            return Ok(false);
        }
        let verdict = self.context.policy.check_file(
            PolicyAction::Serve,
            self.context.project.as_str(),
            file,
            facts,
        );
        Ok(verdict.is_ok())
    }

    /// The file with the yank state that an operator imposed on its name.
    fn apply_yank(&self, file: &mut File)
        ensures
            final(file)@ == self.ctx().with_yank(old(file)@),
    {
        match self.context.yanked.get(file.filename.as_str()) {
            Some(yanked) => {
                file.yanked = yanked.copied();
            },
            None => {},
        }
    }

    /// Rewrite a file that is served: the file to write, and what is registered for it.
    fn rewrite(&self, file: File, up: &UpstreamFacts) -> (r: (File, Option<Registration>))
        ensures
            ({
                let outcome = rewritten_served(self.ctx(), file@, *up);
                &&& outcome.written == Some(r.0@)
                &&& outcome.registration == (match r.1 {
                    Some(registration) => Some(registration@),
                    None => None,
                })
            }),
    {
        let mut file = file;
        self.apply_yank(&mut file);
        let sha256: Option<String> = match file.sha256() {
            Some(digest) => Some(digest.to_owned()),
            None => None,
        };
        if sha256.is_some() && up.already_local {
            // A legacy cached record already carries this registry's URLs; it is served as it is, but
            // for the signature marker, since the detached signature is never served at that route.
            file.gpg_sig = None;
            return (file, None);
        }
        match &self.context.base {
            Some(base) => absolutize(base.as_str(), &mut file.url),
            None => {},
        }
        match sha256 {
            Some(sha256) => {
                let registration = self.readdress(&mut file, sha256, up);
                (file, Some(registration))
            },
            None => {
                file.clear_metadata();
                (file, None)
            },
        }
    }

    /// Hand over a decoded upstream file: it is rewritten and written, unless it is shadowed, hidden, or
    /// refused.
    pub fn accept_file(&mut self, file: File, up: UpstreamFacts, out: &mut Vec<u8>) -> (r: Result<(), TransformError>)
        requires
            old(self)@.reachable(),
            old(self)@.lex.pending == Some(Element::File),
        ensures
            is_file_accepted(old(self)@, old(self).ctx(), file@, up, old(out)@, final(self)@, final(out)@, r),
            final(self).ctx() == old(self).ctx(),
            final(self)@.reachable(),
    {
        reveal(PageState::in_step);
        let ghost state = self@;
        let ghost start = out@;
        assert(start + Seq::<u8>::empty() =~= start);
        if self.tally.files_seen >= MAX_PAGE_FILES {
            return Err(TransformError::TooLarge);
        }
        self.tally.files_seen = self.tally.files_seen + 1;
        self.lex.resume(Mode::Files);
        let mut file = file;
        file.provenance.retain_secure_url();
        match self.judge_file(&file, &up.facts) {
            Err(error) => {
                return Err(error);
            },
            Ok(serves) => {
                if !serves {
                    return Ok(());
                }
            },
        }
        let (written, registration) = self.rewrite(file, &up);
        match registration {
            Some(registration) => {
                self.tally.registrations.push(registration);
                assert(registration_texts(self.tally.registrations@) =~= state.tally.registrations.push(
                    registration@,
                ));
            },
            None => {},
        }
        self.write_file(&written, &up.facts, out);
        Ok(())
    }

    /// Point a content-addressed file at this registry, and say what is registered for it.
    fn readdress(&self, file: &mut File, sha256: String, up: &UpstreamFacts) -> (r: Registration)
        ensures
            r@ == registered(old(file)@, sha256@),
            final(file)@ == readdressed(
                self.ctx(),
                old(file)@,
                sha256@,
                up.local_url@,
                up.local_provenance_url@,
            ),
    {
        let ghost incoming = file@;
        let metadata: Option<(String, String)> = sibling_of(file);
        if metadata.is_none() {
            file.clear_metadata();
        }
        let provenance: Option<String> = match file.provenance.secure_url() {
            Some(url) => Some(url.to_owned()),
            None => None,
        };
        let proxied: bool = provenance.is_some() && self.context.policy.remote_metadata_mode()
            != RemoteMetadataMode::Direct;
        let registration = Registration {
            filename: file.filename.clone(),
            sha256: sha256.clone(),
            url: file.url.clone(),
            size: file.size,
            metadata,
            provenance,
        };
        if file.metadata().is_absent() {
            match self.context.known_metadata.get(sha256.as_str()) {
                Some(known) => {
                    let mut hashes: TextMap<String> = TextMap::new();
                    hashes.insert("sha256".to_owned(), known.clone());
                    assert(text_values(hashes@) =~= Map::empty().insert("sha256"@, known@));
                    file.set_metadata(CoreMetadata::Hashes(hashes));
                },
                None => {},
            }
        }
        file.url = up.local_url.clone();
        if proxied {
            file.provenance = Provenance::Url(up.local_provenance_url.clone());
        }
        file.gpg_sig = None;
        registration
    }

    /// Write one file of the array and remember its release, as long as the version list is still to
    /// come.
    fn write_file(&mut self, file: &File, facts: &FileFacts, out: &mut Vec<u8>)
        ensures
            final(self)@ == (PageState {
                tally: TallyState {
                    emitted_in_array: true,
                    served: match release_of(opt_distribution(facts.parsed)) {
                        Some(release) if !old(self)@.header.versions_seen => old(self)@.tally.served.insert(release),
                        _ => old(self)@.tally.served,
                    },
                    ..old(self)@.tally
                },
                ..old(self)@
            }),
            final(out)@ == old(out)@ + ((if old(self)@.tally.emitted_in_array {
                seq![COMMA]
            } else {
                Seq::empty()
            }) + encode_utf8(json_file(file@))),
            final(self).ctx() == old(self).ctx(),
    {
        let ghost start = out@;
        let text = file_json(file);
        if self.tally.emitted_in_array {
            out.push(COMMA);
        }
        push_text(out, text.as_str());
        assert(out@ =~= start + ((if old(self)@.tally.emitted_in_array {
            seq![COMMA]
        } else {
            Seq::empty()
        }) + encode_utf8(json_file(file@))));
        self.tally.emitted_in_array = true;
        if !self.header.versions_seen {
            match crate::distribution::served_version(&facts.parsed) {
                Some(release) => {
                    let added: bool = self.tally.served_versions.insert(release);
                },
                None => {},
            }
        }
    }

    /// Close the page: it must be one whole well-formed object, and carry the version list it owes.
    pub fn finish(self) -> (r: Result<PageSummary, TransformError>)
        ensures
            is_page_finished(self@, r),
    {
        if self.lex.depth != 0 || self.lex.active || self.lex.mode != Mode::Passthrough {
            return Err(TransformError::Truncated);
        }
        if self.tally.trailing {
            return Err(TransformError::Trailing);
        }
        if self.tally.validator.result().is_err() {
            return Err(TransformError::Malformed);
        }
        if self.header.promised && !self.header.versions_seen {
            return Err(TransformError::Simple(SimpleError::MissingVersions));
        }
        let name: Option<String> = match utf8_text(self.names.name) {
            Some(name) => {
                if name.as_str().is_empty() {
                    None
                } else {
                    Some(name)
                }
            },
            None => None,
        };
        Ok(
            PageSummary {
                registrations: self.tally.registrations,
                name,
                project_status: self.header.project_status,
                project_status_reason: self.header.project_status_reason,
            },
        )
    }
}

impl PageState {
    /// Why a page that ends here is refused.
    pub open spec fn finished(self) -> Option<TransformErrorText> {
        if self.lex.depth != 0 || self.lex.active || !(self.lex.mode is Passthrough) {
            Some(TransformErrorText::Truncated)
        } else if self.tally.trailing {
            Some(TransformErrorText::Trailing)
        } else if !self.tally.grammar.accepts() {
            Some(TransformErrorText::Malformed)
        } else if self.header.promised && !self.header.versions_seen {
            Some(TransformErrorText::Simple(SimpleErrorText::MissingVersions))
        } else {
            None
        }
    }

    /// The page's name, when its bytes are text and not empty.
    pub open spec fn page_name(self) -> Option<Seq<char>> {
        if vstd::utf8::valid_utf8(self.names.name) && vstd::utf8::decode_utf8(self.names.name).len() > 0 {
            Some(vstd::utf8::decode_utf8(self.names.name))
        } else {
            None
        }
    }
}

/// Add the members of `more` to `set`.
fn add_all(set: &mut TextSet, more: &TextSet)
    ensures
        final(set)@ == old(set)@.union(more@),
{
    let ghost start = set@;
    let n: usize = more.len();
    let ghost list = more.list();
    let mut i: usize = 0;
    while i < n
        invariant
            i <= n,
            n == list.len(),
            list == more.list(),
            forall|k: Seq<char>| #[trigger] set@.contains(k) <==> start.contains(k) || list.take(i as int).contains(k),
        decreases n - i,
    {
        let ghost fewer = list.take(i as int);
        let ghost longer = list.take(i + 1);
        let member = more.at(i).to_owned();
        let added: bool = set.insert(member);
        assert(longer =~= fewer.push(member@));
        assert forall|k: Seq<char>| #[trigger] set@.contains(k) <==> start.contains(k) || longer.contains(k) by {
            if fewer.contains(k) {
                let m = choose|m: int| 0 <= m < fewer.len() && fewer[m] == k;
                assert(longer[m] == k);
            }
            if k == member@ {
                assert(longer[i as int] == k);
            }
            if longer.contains(k) && k != member@ {
                let m = choose|m: int| 0 <= m < longer.len() && longer[m] == k;
                assert(fewer[m] == k);
            }
        }
        i = i + 1;
    }
    assert(list.take(n as int) =~= list);
    assert forall|k: Seq<char>| list.contains(k) == more@.contains(k) by {
        assert(list.to_set().contains(k) == list.contains(k));
    }
    assert(set@ =~= start.union(more@));
}

/// The first of `items` that stands there a second time.
fn repeated(items: &Vec<String>) -> (r: Option<String>)
    ensures
        opt_text(r) == first_repeat(texts(items@)),
{
    let ghost all = texts(items@);
    let mut seen = TextSet::new();
    let mut i: usize = 0;
    while i < items.len()
        invariant
            i <= items@.len(),
            all == texts(items@),
            all.len() == items@.len(),
            first_repeat(all.take(i as int)) is None,
            forall|k: Seq<char>| #[trigger] seen@.contains(k) <==> all.take(i as int).contains(k),
        decreases items.len() - i,
    {
        let ghost fewer = all.take(i as int);
        let ghost more = all.take(i + 1);
        assert(more.drop_last() =~= fewer);
        assert(more.last() == items@[i as int]@);
        if !seen.insert(items[i].clone()) {
            proof {
                first_repeat_stays(all, i + 1);
            }
            return Some(items[i].clone());
        }
        assert forall|k: Seq<char>| #[trigger] seen@.contains(k) <==> more.contains(k) by {
            if fewer.contains(k) {
                let m = choose|m: int| 0 <= m < fewer.len() && fewer[m] == k;
                assert(more[m] == k);
            }
            if k == more.last() {
                assert(more[i as int] == k);
            }
            if more.contains(k) && k != more.last() {
                let m = choose|m: int| 0 <= m < more.len() && more[m] == k;
                assert(fewer[m] == k);
            }
        }
        i = i + 1;
    }
    assert(all.take(i as int) =~= all);
    None
}

/// A repeat found among the first items is the first of all.
proof fn first_repeat_stays(items: Seq<Seq<char>>, n: int)
    requires
        0 <= n <= items.len(),
        first_repeat(items.take(n)) is Some,
    ensures
        first_repeat(items) == first_repeat(items.take(n)),
    decreases items.len(),
{
    if n < items.len() {
        assert(items.drop_last().take(n) =~= items.take(n));
        first_repeat_stays(items.drop_last(), n);
    } else {
        assert(items.take(n) =~= items);
    }
}

/// The metadata sibling of a file URL. A signed upstream URL like `pkg.whl?token=abc` must yield
/// `pkg.whl.metadata?token=abc`, not `pkg.whl?token=abc.metadata`.
pub fn metadata_sibling(url: &str) -> (r: String)
    ensures
        r@ == sibling_url(url@),
{
    let v = crate::text::chars_of(url);
    let query: usize = crate::text::find_char(&v, '?');
    let fragment: usize = crate::text::find_char(&v, '#');
    let cut: usize = if query < fragment {
        query
    } else {
        fragment
    };
    let mut out = url.substring_char(0, cut).to_owned();
    out.append(".metadata");
    out.append(url.substring_char(cut, v.len()));
    assert(url@.subrange(0, cut as int) =~= url@.take(cut as int));
    assert(url@.subrange(cut as int, url@.len() as int) =~= url@.skip(cut as int));
    out
}

/// Whether a file of that name may have a metadata sibling.
pub fn supports_metadata_sibling(filename: &str) -> (r: bool)
    ensures
        r == may_have_sibling(filename@),
{
    match extension_of(filename) {
        Some(extension) => {
            if eq_ignore_ascii_case(extension, "whl") {
                return true;
            }
        },
        None => {},
    }
    let n: usize = filename.unicode_len();
    if n < 7 {
        return false;
    }
    let tail = filename.substring_char(n - 7, n);
    assert(tail@ =~= filename@.skip(filename@.len() - 7));
    eq_ignore_ascii_case(tail, ".tar.gz")
}

fn sibling_of(file: &File) -> (r: Option<(String, String)>)
    ensures
        match r {
            Some((url, digest)) => sibling(file@) == Some((url@, digest@)),
            None => sibling(file@) is None,
        },
{
    if !supports_metadata_sibling(file.filename.as_str()) {
        return None;
    }
    match file.metadata() {
        CoreMetadata::Hashes(hashes) => match hashes.get("sha256") {
            Some(digest) => Some((metadata_sibling(file.url.as_str()), digest.clone())),
            None => None,
        },
        _ => None,
    }
}

} // verus!
