//! A reply before it becomes an HTTP response.
use vstd::prelude::*;

use crate::text::{decimal_text, opt_str, text_eq};

verus! {

pub const OK: u16 = 200;

pub const PARTIAL_CONTENT: u16 = 206;

pub const MOVED_PERMANENTLY: u16 = 301;

pub const SEE_OTHER: u16 = 303;

pub const NOT_MODIFIED: u16 = 304;

pub const BAD_REQUEST: u16 = 400;

pub const UNAUTHORIZED: u16 = 401;

pub const FORBIDDEN: u16 = 403;

pub const NOT_FOUND: u16 = 404;

pub const NOT_ACCEPTABLE: u16 = 406;

pub const CONFLICT: u16 = 409;

pub const PAYLOAD_TOO_LARGE: u16 = 413;

pub const UNSUPPORTED_MEDIA_TYPE: u16 = 415;

pub const RANGE_NOT_SATISFIABLE: u16 = 416;

pub const UNPROCESSABLE_ENTITY: u16 = 422;

pub const TOO_MANY_REQUESTS: u16 = 429;

pub const INTERNAL_SERVER_ERROR: u16 = 500;

pub const BAD_GATEWAY: u16 = 502;

pub const SERVICE_UNAVAILABLE: u16 = 503;

pub const INSUFFICIENT_STORAGE: u16 = 507;

/// A status, headers, and a text body.
pub struct Reply {
    pub status: u16,
    pub headers: Vec<(&'static str, String)>,
    pub body: String,
}

/// A reply, its text seen as characters.
pub struct ReplyText {
    pub status: u16,
    pub headers: Seq<(Seq<char>, Seq<char>)>,
    pub body: Seq<char>,
}

/// Headers, their text seen as characters.
pub open spec fn header_texts(headers: Seq<(&'static str, String)>) -> Seq<(Seq<char>, Seq<char>)> {
    headers.map_values(|h: (&'static str, String)| (h.0@, h.1@))
}

impl Reply {
    pub open spec fn view(self) -> ReplyText {
        ReplyText { status: self.status, headers: header_texts(self.headers@), body: self.body@ }
    }

    /// Add a header.
    pub fn with_header(self, name: &'static str, value: &str) -> (r: Reply)
        ensures
            r@ == self@.with(name@, value@),
    {
        let mut r = self;
        r.headers.push((name, value.to_owned()));
        assert(header_texts(r.headers@) =~= header_texts(self.headers@).push((name@, value@)));
        r
    }

    /// Add a header whose value is a number.
    pub fn with_number(self, name: &'static str, value: u64) -> (r: Reply)
        ensures
            r@ == self@.with(name@, crate::text::decimal(value as nat)),
    {
        let text = decimal_text(value);
        self.with_header(name, text.as_str())
    }
}

impl ReplyText {
    /// The reply with one more header.
    pub open spec fn with(self, name: Seq<char>, value: Seq<char>) -> ReplyText {
        ReplyText { headers: self.headers.push((name, value)), ..self }
    }
}

/// The value of the first header called `name`, among the first `n`.
pub open spec fn header_named(headers: Seq<(Seq<char>, Seq<char>)>, name: Seq<char>, n: int) -> Option<Seq<char>>
    decreases n,
{
    if n <= 0 {
        None
    } else {
        match header_named(headers, name, n - 1) {
            Some(value) => Some(value),
            None => if headers[n - 1].0 == name {
                Some(headers[n - 1].1)
            } else {
                None
            },
        }
    }
}

/// Whether a header is not called `name`.
pub open spec fn called_otherwise(name: Seq<char>) -> spec_fn((Seq<char>, Seq<char>)) -> bool {
    |h: (Seq<char>, Seq<char>)| h.0 != name
}

impl ReplyText {
    /// The value of the reply's first header called `name`.
    pub open spec fn header(self, name: Seq<char>) -> Option<Seq<char>> {
        header_named(self.headers, name, self.headers.len() as int)
    }

    /// The reply with this one header called `name`.
    pub open spec fn replacing(self, name: Seq<char>, value: Seq<char>) -> ReplyText {
        ReplyText {
            headers: self.headers.filter(called_otherwise(name)).push((name, value)),
            ..self
        }
    }
}

proof fn found_headers_stay(headers: Seq<(Seq<char>, Seq<char>)>, name: Seq<char>, m: int, n: int)
    requires
        0 <= m <= n <= headers.len(),
        header_named(headers, name, m) is Some,
    ensures
        header_named(headers, name, n) == header_named(headers, name, m),
    decreases n,
{
    if m < n {
        found_headers_stay(headers, name, m, n - 1);
    }
}

impl Reply {
    /// The value of the reply's first header called `name`.
    pub fn header<'a>(&'a self, name: &str) -> (r: Option<&'a str>)
        ensures
            opt_str(r) == self@.header(name@),
    {
        let ghost all = header_texts(self.headers@);
        let mut i: usize = 0;
        while i < self.headers.len()
            invariant
                i <= self.headers@.len(),
                all == header_texts(self.headers@),
                all.len() == self.headers@.len(),
                header_named(all, name@, i as int) is None,
            decreases self.headers.len() - i,
        {
            assert(all[i as int] == (self.headers@[i as int].0@, self.headers@[i as int].1@));
            if text_eq(self.headers[i].0, name) {
                proof {
                    found_headers_stay(all, name@, i + 1, all.len() as int);
                }
                return Some(self.headers[i].1.as_str());
            }
            i = i + 1;
        }
        None
    }

    /// The reply with this one header called `name`.
    pub fn replacing(self, name: &'static str, value: &str) -> (r: Reply)
        ensures
            r@ == self@.replacing(name@, value@),
    {
        let Reply { status, headers, body } = self;
        let ghost all = header_texts(headers@);
        let ghost keep = |h: (Seq<char>, Seq<char>)| h.0 != name@;
        let mut kept: Vec<(&'static str, String)> = Vec::new();
        reveal(Seq::filter);
        assert(all.take(0).filter(keep) =~= Seq::<(Seq<char>, Seq<char>)>::empty());
        assert(header_texts(kept@) =~= Seq::<(Seq<char>, Seq<char>)>::empty());
        let n: usize = headers.len();
        for header in it: headers
            invariant
                it.seq().len() == n,
                all == header_texts(it.seq()),
                all.len() == n,
                keep == (|h: (Seq<char>, Seq<char>)| h.0 != name@),
                header_texts(kept@) == all.take(it.index() as int).filter(keep),
        {
            reveal(Seq::filter);
            let ghost i = it.index();
            let ghost text = (header.0@, header.1@);
            assert(all[i] == text);
            assert(all.take(i + 1).drop_last() =~= all.take(i));
            assert(all.take(i + 1).last() == text);
            if !text_eq(header.0, name) {
                let ghost before = header_texts(kept@);
                kept.push(header);
                assert(header_texts(kept@) =~= before.push(text));
            }
        }
        assert(all.take(n as int) =~= all);
        let r = Reply { status, headers: kept, body };
        r.with_header(name, value)
    }

    /// The reply with this one header called `name`, whose value is a number.
    pub fn replacing_number(self, name: &'static str, value: u64) -> (r: Reply)
        ensures
            r@ == self@.replacing(name@, crate::text::decimal(value as nat)),
    {
        let text = decimal_text(value);
        self.replacing(name, text.as_str())
    }
}

/// A reply of a status and a text.
pub open spec fn plain(status: u16, body: Seq<char>) -> ReplyText {
    ReplyText { status, headers: Seq::empty(), body }
}

/// A reply of a status and a text.
pub fn reply(status: u16, body: &str) -> (r: Reply)
    ensures
        r@ == plain(status, body@),
{
    let r = Reply { status, headers: Vec::new(), body: body.to_owned() };
    assert(header_texts(r.headers@) =~= Seq::<(Seq<char>, Seq<char>)>::empty());
    r
}

/// Nothing is there.
pub open spec fn missing() -> ReplyText {
    plain(NOT_FOUND, "not found"@)
}

/// Nothing is there.
pub fn not_found() -> (r: Reply)
    ensures
        r@ == missing(),
{
    reply(NOT_FOUND, "not found")
}

/// A caller without a credential is asked for one.
pub open spec fn challenge() -> ReplyText {
    plain(UNAUTHORIZED, "unauthorized"@).with("www-authenticate"@, "Basic realm=\"peryx\""@)
}

/// Ask a caller for a credential.
pub fn unauthorized() -> (r: Reply)
    ensures
        r@ == challenge(),
{
    reply(UNAUTHORIZED, "unauthorized").with_header("www-authenticate", "Basic realm=\"peryx\"")
}

} // verus!
