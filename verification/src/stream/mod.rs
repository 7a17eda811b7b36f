//! Streaming transformation of upstream project pages.
//!
//! The transformer consumes raw upstream JSON chunk by chunk and emits the page the registry serves,
//! without holding more than one `files[]` element: file URLs are rewritten to the serving route,
//! locally uploaded files come ahead of the upstream ones, shadowed and hidden files are dropped, yank
//! overrides are applied, and version lists merge.
use vstd::prelude::*;

pub mod context;
pub mod file_laws;
pub mod grammar;
pub mod grammar_laws;
pub mod laws;
pub mod lex_laws;
pub mod transformer;
pub mod types;
pub mod validator;

verus! {

/// RFC 8259 allows space, horizontal tab, line feed, and carriage return between JSON tokens.
pub open spec fn json_whitespace(byte: u8) -> bool {
    byte == 0x20 || byte == 0x09 || byte == 0x0A || byte == 0x0D
}

/// Whether `byte` may stand between JSON tokens.
pub fn is_json_whitespace(byte: u8) -> (r: bool)
    ensures
        r == json_whitespace(byte),
{
    byte == 0x20 || byte == 0x09 || byte == 0x0A || byte == 0x0D
}

/// The bytes that JSON gives a meaning.
pub const QUOTE: u8 = 0x22;
pub const BACKSLASH: u8 = 0x5C;
pub const OPEN_BRACE: u8 = 0x7B;
pub const CLOSE_BRACE: u8 = 0x7D;
pub const OPEN_BRACKET: u8 = 0x5B;
pub const CLOSE_BRACKET: u8 = 0x5D;
pub const COLON: u8 = 0x3A;
pub const COMMA: u8 = 0x2C;

} // verus!
