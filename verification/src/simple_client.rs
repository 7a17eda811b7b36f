//! Fetching Simple pages: which candidate is asked, what its answer means, and how long it stays fresh.
use vstd::prelude::*;

use crate::outside::{join_url, quoted, quoted_text, url_joined};
use crate::text::{
    ascii_lower_text, chars_of, cut_first, decimal_value, decimal_value_nonneg, eq_ignore_ascii_case, is_decimal,
    is_digit, opt_str, opt_text, parse_u64, push_bytes, split_once, text_eq, to_ascii_lowercase, trim, trimmed, u64_of,
};

verus! {

/// The `Accept` header sent upstream: JSON first, then HTML.
pub const ACCEPT_SIMPLE: &'static str =
    "application/vnd.pypi.simple.v1+json, application/vnd.pypi.simple.v1+html;q=0.2, text/html;q=0.01";

// ---------------------------------------------------------------------------------------------
// Cache policy
// ---------------------------------------------------------------------------------------------

/// How a shared cache may treat one response.
#[derive(Debug, Clone, Copy, PartialEq, Eq, Structural)]
pub struct ResponseCachePolicy {
    /// The freshness lifetime granted; nothing when none was, and zero when the response requires
    /// immediate revalidation.
    pub fresh_secs: Option<i64>,
    pub must_revalidate: Option<bool>,
    pub storable: bool,
}

/// A lifetime directive: not seen, seen once and valid, or seen in any other way.
#[derive(Debug, Clone, Copy, PartialEq, Eq, Structural)]
pub enum DeltaSeconds {
    Absent,
    Value(i64),
    Invalid,
}

/// `s` with every backslash taken away, and the character behind it taken as it is. Nothing where a
/// backslash stands last.
pub open spec fn unescaped(s: Seq<char>) -> Option<Seq<char>>
    decreases s.len(),
{
    if s.len() == 0 {
        Some(Seq::empty())
    } else if s[0] == '\\' {
        if s.len() == 1 {
            None
        } else {
            match unescaped(s.skip(2)) {
                Some(rest) => Some(seq![s[1]] + rest),
                None => None,
            }
        }
    } else {
        match unescaped(s.skip(1)) {
            Some(rest) => Some(seq![s[0]] + rest),
            None => None,
        }
    }
}

/// A number of seconds, held to 64 signed bits.
pub open spec fn clamped_seconds(n: int) -> i64 {
    if n > i64::MAX {
        i64::MAX
    } else {
        n as i64
    }
}

/// The seconds that `digits` spell.
pub open spec fn seconds_of(digits: Seq<char>) -> Option<i64> {
    if is_decimal(digits) {
        Some(clamped_seconds(decimal_value(digits)))
    } else {
        None
    }
}

/// The seconds of a directive's value: decimal digits, bare or as a quoted string.
pub open spec fn delta_of(value: Seq<char>) -> Option<i64> {
    if value.len() > 0 && value[0] == '"' {
        if value.len() >= 2 && value.last() == '"' {
            match unescaped(value.subrange(1, value.len() - 1)) {
                Some(digits) => seconds_of(digits),
                None => None,
            }
        } else {
            None
        }
    } else {
        seconds_of(value)
    }
}

/// A lifetime directive is met. It must be met once, and with nothing between its name and the equals
/// sign.
pub open spec fn delta_added(delta: DeltaSeconds, value: Option<Seq<char>>, valid_separator: bool) -> DeltaSeconds {
    if delta is Absent && valid_separator && value is Some && delta_of(value->0) is Some {
        DeltaSeconds::Value(delta_of(value->0)->0)
    } else {
        DeltaSeconds::Invalid
    }
}

fn decimal_seconds(digits: &[char]) -> (r: Option<i64>)
    ensures
        r == seconds_of(digits@),
{
    if digits.len() == 0 {
        return None;
    }
    let mut seconds: i64 = 0;
    let mut i: usize = 0;
    assert(decimal_value(digits@.take(0)) == 0);
    while i < digits.len()
        invariant
            i <= digits@.len(),
            0 <= seconds,
            digits@.len() > 0,
            seconds == clamped_seconds(decimal_value(digits@.take(i as int))),
            decimal_value(digits@.take(i as int)) >= 0,
            forall|k: int| 0 <= k < i ==> is_digit(#[trigger] digits@[k]),
        decreases digits.len() - i,
    {
        let c: char = digits[i];
        if !('0' <= c && c <= '9') {
            assert(!is_digit(digits@[i as int]));
            return None;
        }
        let d: i64 = (c as u32 - '0' as u32) as i64;
        assert(digits@.take(i + 1).drop_last() =~= digits@.take(i as int));
        assert(digits@.take(i + 1).last() == c);
        seconds = if seconds > (i64::MAX - d) / 10 {
            i64::MAX
        } else {
            seconds * 10 + d
        };
        i = i + 1;
    }
    assert(digits@.take(i as int) =~= digits@);
    Some(seconds)
}

fn unescape(s: &[char]) -> (r: Option<Vec<char>>)
    ensures
        match r {
            Some(v) => unescaped(s@) == Some(v@),
            None => unescaped(s@) is None,
        },
{
    let mut out: Vec<char> = Vec::new();
    let mut i: usize = 0;
    assert(s@.skip(0) =~= s@);
    proof {
        if unescaped(s@) is Some {
            assert(out@ + unescaped(s@)->0 =~= unescaped(s@)->0);
        }
    }
    while i < s.len()
        invariant
            i <= s@.len(),
            match unescaped(s@.skip(i as int)) {
                Some(rest) => unescaped(s@) == Some(out@ + rest),
                None => unescaped(s@) is None,
            },
        decreases s.len() - i,
    {
        let ghost rest = s@.skip(i as int);
        let ghost so_far = out@;
        if s[i] == '\\' {
            if i + 1 == s.len() {
                return None;
            }
            assert(rest.skip(2) =~= s@.skip(i + 2));
            out.push(s[i + 1]);
            i = i + 2;
        } else {
            assert(rest.skip(1) =~= s@.skip(i + 1));
            out.push(s[i]);
            i = i + 1;
        }
        proof {
            if unescaped(s@.skip(i as int)) is Some {
                let tail = unescaped(s@.skip(i as int))->0;
                assert(so_far + (seq![out@.last()] + tail) =~= out@ + tail);
            }
        }
    }
    assert(s@.skip(i as int) =~= Seq::<char>::empty());
    assert(out@ + Seq::<char>::empty() =~= out@);
    Some(out)
}

/// The seconds of a directive's value.
pub fn delta_seconds(value: &str) -> (r: Option<i64>)
    ensures
        r == delta_of(value@),
{
    let v = chars_of(value);
    let n: usize = v.len();
    if n > 0 && v[0] == '"' {
        if n >= 2 && v[n - 1] == '"' {
            let inner = vstd::slice::slice_subrange(v.as_slice(), 1, n - 1);
            match unescape(inner) {
                Some(digits) => decimal_seconds(digits.as_slice()),
                None => None,
            }
        } else {
            None
        }
    } else {
        decimal_seconds(v.as_slice())
    }
}

impl DeltaSeconds {
    fn add_directive(self, value: Option<&str>, valid_separator: bool) -> (r: Self)
        ensures
            r == delta_added(self, opt_str(value), valid_separator),
    {
        if self == DeltaSeconds::Absent && valid_separator {
            match value {
                Some(value) => match delta_seconds(value) {
                    Some(seconds) => DeltaSeconds::Value(seconds),
                    None => DeltaSeconds::Invalid,
                },
                None => DeltaSeconds::Invalid,
            }
        } else {
            DeltaSeconds::Invalid
        }
    }

    fn value(self) -> (r: Option<i64>)
        ensures
            r == self.seconds(),
    {
        match self {
            DeltaSeconds::Value(seconds) => Some(seconds),
            _ => None,
        }
    }

    pub open spec fn seconds(self) -> Option<i64> {
        match self {
            DeltaSeconds::Value(seconds) => Some(seconds),
            _ => None,
        }
    }
}

/// What the directives met so far say.
#[derive(Debug, Clone, Copy, PartialEq, Eq, Structural)]
pub struct Directives {
    pub max_age: DeltaSeconds,
    pub s_maxage: DeltaSeconds,
    /// A header value was no text, or left a quoted string open.
    pub invalid: bool,
    pub validate_before_reuse: bool,
    pub revalidate_when_stale: bool,
    pub storable: bool,
}

/// Whether two names differ at most in case.
pub open spec fn named(name: Seq<char>, expected: Seq<char>) -> bool {
    ascii_lower_text(name) == ascii_lower_text(expected)
}

/// The name of a directive, as it stands before the equals sign.
pub open spec fn directive_name(directive: Seq<char>) -> Seq<char> {
    match cut_first(trimmed(directive), '=') {
        Some((name, _)) => name,
        None => trimmed(directive),
    }
}

/// The value of a directive.
pub open spec fn directive_value(directive: Seq<char>) -> Option<Seq<char>> {
    match cut_first(trimmed(directive), '=') {
        Some((_, value)) => Some(value),
        None => None,
    }
}

impl Directives {
    /// One directive is met. Unknown ones say nothing.
    pub open spec fn met(self, directive: Seq<char>) -> Directives {
        let name = directive_name(directive);
        let value = directive_value(directive);
        let normalized = trimmed(name);
        if named(normalized, "no-cache"@) {
            Directives { validate_before_reuse: true, ..self }
        } else if named(normalized, "must-revalidate"@) || named(normalized, "proxy-revalidate"@) {
            Directives { revalidate_when_stale: true, ..self }
        } else if named(normalized, "no-store"@) {
            Directives { validate_before_reuse: true, storable: false, ..self }
        } else if named(normalized, "private"@) {
            Directives { storable: false, ..self }
        } else if named(normalized, "max-age"@) {
            Directives { max_age: delta_added(self.max_age, value, name == normalized), ..self }
        } else if named(normalized, "s-maxage"@) {
            Directives {
                s_maxage: delta_added(self.s_maxage, value, name == normalized),
                revalidate_when_stale: true,
                ..self
            }
        } else {
            self
        }
    }

    /// The directives of a header value from position `i` on are met, the current one having begun at
    /// `start`. A comma inside a quoted string separates nothing; a string left open spoils the value.
    pub open spec fn scanned(self, v: Seq<char>, i: int, start: int, quoted: bool, escaped: bool) -> Directives
        decreases v.len() - i,
    {
        if i >= v.len() {
            if quoted {
                Directives { invalid: true, ..self }
            } else {
                self.met(v.skip(start))
            }
        } else if escaped {
            self.scanned(v, i + 1, start, quoted, false)
        } else if quoted && v[i] == '\\' {
            self.scanned(v, i + 1, start, quoted, true)
        } else if v[i] == '"' {
            self.scanned(v, i + 1, start, !quoted, false)
        } else if v[i] == ',' && !quoted {
            self.met(v.subrange(start, i)).scanned(v, i + 1, i + 1, quoted, false)
        } else {
            self.scanned(v, i + 1, start, quoted, false)
        }
    }

    /// A header value is met. One that is no text spoils the header.
    pub open spec fn header_met(self, value: Option<Seq<char>>) -> Directives {
        match value {
            Some(v) => self.scanned(v, 0, 0, false, false),
            None => Directives { invalid: true, ..self },
        }
    }

    /// The first `n` header values are met.
    pub open spec fn headers_met(self, values: Seq<Option<String>>, n: int) -> Directives
        decreases n,
    {
        if n <= 0 {
            self
        } else {
            self.headers_met(values, n - 1).header_met(opt_text(values[n - 1]))
        }
    }

    /// What the directives come to. A directive for shared caches wins over the general one; any spoiled
    /// or repeated lifetime, and any demand to validate first, leaves nothing fresh.
    pub open spec fn policy(self) -> ResponseCachePolicy {
        ResponseCachePolicy {
            fresh_secs: if self.validate_before_reuse || self.invalid || self.max_age is Invalid
                || self.s_maxage is Invalid {
                Some(0)
            } else if self.s_maxage.seconds() is Some {
                self.s_maxage.seconds()
            } else {
                self.max_age.seconds()
            },
            must_revalidate: Some(self.validate_before_reuse || self.revalidate_when_stale),
            storable: self.storable,
        }
    }

    fn meet(self, directive: &str) -> (r: Self)
        ensures
            r == self.met(directive@),
    {
        let directive = trim(directive);
        let (name, value): (&str, Option<&str>) = match split_once(directive, '=') {
            Some((name, value)) => (name, Some(value)),
            None => (directive, None),
        };
        let normalized = trim(name);
        let mut next = self;
        if eq_ignore_ascii_case(normalized, "no-cache") {
            next.validate_before_reuse = true;
        } else if eq_ignore_ascii_case(normalized, "must-revalidate") || eq_ignore_ascii_case(
            normalized,
            "proxy-revalidate",
        ) {
            next.revalidate_when_stale = true;
        } else if eq_ignore_ascii_case(normalized, "no-store") {
            next.validate_before_reuse = true;
            next.storable = false;
        } else if eq_ignore_ascii_case(normalized, "private") {
            next.storable = false;
        } else if eq_ignore_ascii_case(normalized, "max-age") {
            next.max_age = self.max_age.add_directive(value, text_eq(name, normalized));
        } else if eq_ignore_ascii_case(normalized, "s-maxage") {
            next.s_maxage = self.s_maxage.add_directive(value, text_eq(name, normalized));
            next.revalidate_when_stale = true;
        }
        next
    }

    fn visit_cache_directives(self, value: &str) -> (r: Self)
        ensures
            r == self.header_met(Some(value@)),
    {
        let v = chars_of(value);
        let n: usize = v.len();
        let ghost whole = self.scanned(value@, 0, 0, false, false);
        let mut met = self;
        let mut start: usize = 0;
        let mut quoted: bool = false;
        let mut escaped: bool = false;
        let mut i: usize = 0;
        while i < n
            invariant
                start <= i <= n,
                n == v@.len(),
                v@ == value@,
                whole == met.scanned(value@, i as int, start as int, quoted, escaped),
            decreases n - i,
        {
            let c: char = v[i];
            if escaped {
                escaped = false;
            } else if quoted && c == '\\' {
                escaped = true;
            } else if c == '"' {
                quoted = !quoted;
            } else if c == ',' && !quoted {
                met = met.meet(value.substring_char(start, i));
                start = i + 1;
            }
            i = i + 1;
        }
        if quoted {
            met.invalid = true;
            return met;
        }
        let last = value.substring_char(start, n);
        assert(last@ =~= value@.skip(start as int));
        met.meet(last)
    }
}

/// Before any directive is met.
pub open spec fn no_directives() -> Directives {
    Directives {
        max_age: DeltaSeconds::Absent,
        s_maxage: DeltaSeconds::Absent,
        invalid: false,
        validate_before_reuse: false,
        revalidate_when_stale: false,
        storable: true,
    }
}

/// Whether `r` is how a shared cache may treat a response with those `Cache-Control` values.
pub open spec fn is_cache_policy(values: Seq<Option<String>>, r: ResponseCachePolicy) -> bool {
    r == (if values.len() == 0 {
        ResponseCachePolicy { fresh_secs: None, must_revalidate: None, storable: true }
    } else {
        no_directives().headers_met(values, values.len() as int).policy()
    })
}

/// Parse the storage and revalidation directives a shared cache must apply to one response. `values` are
/// the response's `Cache-Control` header values, those that are no text being nothing.
pub fn response_cache_policy(values: &Vec<Option<String>>) -> (r: ResponseCachePolicy)
    ensures
        is_cache_policy(values@, r),
{
    if values.len() == 0 {
        return ResponseCachePolicy { fresh_secs: None, must_revalidate: None, storable: true };
    }
    let mut met = Directives {
        max_age: DeltaSeconds::Absent,
        s_maxage: DeltaSeconds::Absent,
        invalid: false,
        validate_before_reuse: false,
        revalidate_when_stale: false,
        storable: true,
    };
    let mut i: usize = 0;
    while i < values.len()
        invariant
            i <= values@.len(),
            met == no_directives().headers_met(values@, i as int),
        decreases values.len() - i,
    {
        match &values[i] {
            Some(value) => {
                met = met.visit_cache_directives(value.as_str());
            },
            None => {
                met.invalid = true;
            },
        }
        i = i + 1;
    }
    let fresh_secs: Option<i64> = if met.validate_before_reuse || met.invalid || met.max_age == DeltaSeconds::Invalid
        || met.s_maxage == DeltaSeconds::Invalid {
        Some(0)
    } else {
        match met.s_maxage.value() {
            Some(seconds) => Some(seconds),
            None => met.max_age.value(),
        }
    };
    ResponseCachePolicy {
        fresh_secs,
        must_revalidate: Some(met.validate_before_reuse || met.revalidate_when_stale),
        storable: met.storable,
    }
}

/// Meeting a directive never makes an unstorable response storable, nor a response that must be validated
/// first reusable without.
pub proof fn restrictions_stay(d: Directives, directive: Seq<char>)
    ensures
        !d.storable ==> !d.met(directive).storable,
        d.validate_before_reuse ==> d.met(directive).validate_before_reuse,
        d.revalidate_when_stale ==> d.met(directive).revalidate_when_stale,
        d.max_age is Invalid ==> d.met(directive).max_age is Invalid,
        d.s_maxage is Invalid ==> d.met(directive).s_maxage is Invalid,
{
}

/// A policy never grants a negative lifetime.
pub proof fn lifetimes_are_not_negative(value: Seq<char>)
    ensures
        delta_of(value) matches Some(seconds) ==> seconds >= 0,
{
    if value.len() > 0 && value[0] == '"' {
        if value.len() >= 2 && value.last() == '"' {
            let inner = value.subrange(1, value.len() - 1);
            if unescaped(inner) is Some && is_decimal(unescaped(inner)->0) {
                decimal_value_nonneg(unescaped(inner)->0);
            }
        }
    } else if is_decimal(value) {
        decimal_value_nonneg(value);
    }
}

// ---------------------------------------------------------------------------------------------
// Validators
// ---------------------------------------------------------------------------------------------

/// The stored response a conditional request may revalidate: the source that produced it and the
/// validators it arrived with. A validator belongs to the one stored response it was received with, so a
/// router sends the pair only to the candidate that answered it. A record without a source belongs to no
/// candidate.
#[derive(Debug, Clone, Copy)]
pub struct CachedValidators<'a> {
    pub source: Option<&'a str>,
    pub etag: Option<&'a str>,
    pub last_modified: Option<&'a str>,
}

impl<'a> Default for CachedValidators<'a> {
    fn default() -> (r: Self)
        ensures
            r.source is None,
            r.etag is None,
            r.last_modified is None,
    {
        CachedValidators { source: None, etag: None, last_modified: None }
    }
}

/// Whether `r` are the validators that `candidate` may be asked about.
pub open spec fn is_validators_for(validators: CachedValidators<'_>, candidate: Seq<char>, r: CachedValidators<'_>) -> bool {
    &&& (opt_str(validators.source) == Some(candidate) ==> r == validators)
    &&& (opt_str(validators.source) != Some(candidate) ==> r.source is None && r.etag is None && r.last_modified
        is None)
}

impl<'a> CachedValidators<'a> {
    /// The validators `candidate` may be asked about: the stored pair when it answered the stored
    /// response, and nothing at all otherwise.
    pub fn for_candidate(self, candidate: &str) -> (r: Self)
        ensures
            is_validators_for(self, candidate@, r),
    {
        match self.source {
            Some(source) => {
                if text_eq(source, candidate) {
                    self
                } else {
                    CachedValidators { source: None, etag: None, last_modified: None }
                }
            },
            None => CachedValidators { source: None, etag: None, last_modified: None },
        }
    }
}

// ---------------------------------------------------------------------------------------------
// Routing
// ---------------------------------------------------------------------------------------------

/// Why an upstream gave no response.
#[derive(Debug, Clone, Copy, PartialEq, Eq, Structural)]
pub enum UpstreamFailure {
    Http,
    DeadlineExceeded,
    Credential,
    Url,
    InvalidResponse,
    ResponseTooLarge,
    BlockedDestination,
}

/// Whether an answer sends the request on to the next candidate: a missing page, too many requests, a
/// server error, or a failed transfer.
pub open spec fn falls_back(result: Result<u16, UpstreamFailure>) -> bool {
    match result {
        Ok(status) => status == 404 || status == 429 || 500 <= status <= 599,
        Err(failure) => failure is Http || failure is DeadlineExceeded,
    }
}

/// Whether an answer sends the request on to the next candidate.
pub fn fallback_result(result: Result<u16, UpstreamFailure>) -> (r: bool)
    ensures
        r == falls_back(result),
{
    match result {
        Ok(status) => status == 404 || status == 429 || (500 <= status && status <= 599),
        Err(failure) => matches!(failure, UpstreamFailure::Http | UpstreamFailure::DeadlineExceeded),
    }
}

/// Whether `r` says if an answer shows its upstream to be healthy.
pub open spec fn is_health_verdict(result: Result<u16, UpstreamFailure>, r: bool) -> bool {
    r == (result matches Ok(status) && (status == 200 || status == 304 || status == 404))
}

/// Whether an answer shows its upstream to be healthy.
pub fn is_healthy(result: Result<u16, UpstreamFailure>) -> (r: bool)
    ensures
        is_health_verdict(result, r),
{
    match result {
        Ok(status) => status == 200 || status == 304 || status == 404,
        Err(_) => false,
    }
}

/// What a router does with an answer.
#[derive(Debug, Clone, Copy, PartialEq, Eq, Structural)]
pub enum RouteStep {
    /// Ask the next candidate.
    Next,
    /// Give the answer back, as the current candidate's.
    Answer,
}

/// The candidates of a routed request, of which there is at least one, and the one that is asked.
pub struct NonEmptyCandidates {
    current: usize,
    count: usize,
}

impl NonEmptyCandidates {
    pub closed spec fn at(self) -> nat {
        self.current as nat
    }

    pub closed spec fn total(self) -> nat {
        self.count as nat
    }

    #[verifier::type_invariant]
    closed spec fn in_range(self) -> bool {
        self.current < self.count
    }

    /// The first of `count` candidates is asked.
    pub fn new(count: usize) -> (r: Self)
        requires
            count > 0,
        ensures
            r.at() == 0,
            r.total() == count,
    {
        NonEmptyCandidates { current: 0, count }
    }

    /// The position of the candidate that is asked.
    pub fn current(&self) -> (r: usize)
        ensures
            r == self.at(),
            r < self.total(),
    {
        proof {
            use_type_invariant(self);
        }
        self.current
    }

    /// Move on to the next candidate, if there is one.
    pub fn advance(&mut self) -> (r: bool)
        ensures
            r == (old(self).at() + 1 < old(self).total()),
            final(self).total() == old(self).total(),
            final(self).at() == (if r {
                old(self).at() + 1
            } else {
                old(self).at()
            }),
    {
        proof {
            use_type_invariant(&*self);
        }
        if self.count - self.current > 1 {
            self.current = self.current + 1;
            true
        } else {
            false
        }
    }

    /// What the current candidate's answer leads to: the next candidate as long as the answer falls back
    /// and there is one, and otherwise the answer itself.
    pub fn settle(&mut self, result: Result<u16, UpstreamFailure>) -> (r: RouteStep)
        ensures
            final(self).total() == old(self).total(),
            falls_back(result) && old(self).at() + 1 < old(self).total() ==> r == RouteStep::Next && final(self).at()
                == old(self).at() + 1,
            !(falls_back(result) && old(self).at() + 1 < old(self).total()) ==> r == RouteStep::Answer
                && final(self).at() == old(self).at(),
    {
        if fallback_result(result) && self.advance() {
            RouteStep::Next
        } else {
            RouteStep::Answer
        }
    }
}

/// The candidate whose answer a routed request gives back: the first, from `i` on, that does not fall
/// back, or the last of all.
pub open spec fn answering(results: Seq<Result<u16, UpstreamFailure>>, i: int) -> int
    decreases results.len() - i,
{
    if falls_back(results[i]) && i + 1 < results.len() {
        answering(results, i + 1)
    } else {
        i
    }
}

/// A routed request is answered by a candidate whose answer does not fall back, as long as there is one.
pub proof fn a_good_answer_is_found(results: Seq<Result<u16, UpstreamFailure>>, i: int, good: int)
    requires
        0 <= i <= good < results.len(),
        !falls_back(results[good]),
    ensures
        i <= answering(results, i) <= good,
        !falls_back(results[answering(results, i)]),
    decreases good - i,
{
    if falls_back(results[i]) {
        a_good_answer_is_found(results, i + 1, good);
    }
}

/// Whether `r` is the number of attempts behind one more, where there is one.
pub open spec fn is_next_attempt(attempt: u32, passing: bool, max_retries: u32, r: Option<u32>) -> bool {
    r == (if passing && attempt < max_retries {
        Some((attempt + 1) as u32)
    } else {
        None
    })
}

/// Whether a failed transfer is tried again: the failure may pass, and attempts are left. Gives the number
/// of attempts made then.
pub fn next_attempt(attempt: u32, passing: bool, max_retries: u32) -> (r: Option<u32>)
    ensures
        is_next_attempt(attempt, passing, max_retries, r),
{
    if passing && attempt < max_retries {
        Some(attempt + 1)
    } else {
        None
    }
}

// ---------------------------------------------------------------------------------------------
// Bodies and headers
// ---------------------------------------------------------------------------------------------

/// The ceiling for a buffered page. Past it the upstream is broken or hostile, not serving a real page.
pub const MAX_SIMPLE_PAGE_BYTES: usize = 268_435_456;

/// The body would exceed its limit.
#[derive(Debug, Clone, Copy, PartialEq, Eq, Structural)]
pub struct ResponseTooLarge {
    pub limit: usize,
}

/// Whether taking one more chunk of a body takes it from `was` to `now`, and `r` says so.
pub open spec fn is_capped_read(was: Seq<u8>, chunk: Seq<u8>, limit: usize, now: Seq<u8>, r: Result<(), ResponseTooLarge>) -> bool {
    &&& now.len() <= limit
    &&& (if was.len() + chunk.len() > limit {
        r == Err::<(), ResponseTooLarge>(ResponseTooLarge { limit }) && now == was
    } else {
        r is Ok && now == was + chunk
    })
}

/// Take one more chunk of a body. The read fails the instant a chunk would carry the running total past
/// `limit`, before that chunk is buffered.
pub fn read_capped(body: &mut Vec<u8>, chunk: &[u8], limit: usize) -> (r: Result<(), ResponseTooLarge>)
    requires
        old(body)@.len() <= limit,
    ensures
        is_capped_read(old(body)@, chunk@, limit, final(body)@, r),
{
    if chunk.len() > limit - body.len() {
        return Err(ResponseTooLarge { limit });
    }
    push_bytes(body, chunk);
    Ok(())
}

/// The media type of a `Content-Type` value, without its parameters.
pub open spec fn media_type(content_type: Seq<char>) -> Seq<char> {
    ascii_lower_text(
        trimmed(
            match cut_first(content_type, ';') {
                Some((media_type, _)) => media_type,
                None => content_type,
            },
        ),
    )
}

/// Whether a page of that media type can be read.
pub open spec fn simple_media_type(media_type: Seq<char>) -> bool {
    media_type == "application/vnd.pypi.simple.v1+json"@ || media_type == "application/vnd.pypi.simple.v1+html"@
        || media_type == "text/html"@
}

/// Why a page's media type is refused: it names none, or one that cannot be read.
pub open spec fn content_type_refusal(url: Seq<char>, content_type: Option<Seq<char>>) -> Option<Seq<char>> {
    match content_type {
        None => Some("missing Simple API Content-Type from "@ + url),
        Some(content_type) => if simple_media_type(media_type(content_type)) {
            None
        } else {
            Some("unsupported Simple API Content-Type "@ + quoted_text(content_type) + " from "@ + url)
        },
    }
}

/// Refuse a page that names no media type or one that cannot be read, and say why.
pub fn validate_simple_content_type(url: &str, content_type: Option<&str>) -> (r: Result<(), String>)
    ensures
        match content_type_refusal(url@, opt_str(content_type)) {
            Some(message) => r matches Err(reason) && reason@ == message,
            None => r is Ok,
        },
{
    let content_type = match content_type {
        Some(content_type) => content_type,
        None => {
            let mut reason = "missing Simple API Content-Type from ".to_owned();
            reason.append(url);
            return Err(reason);
        },
    };
    let bare = match split_once(content_type, ';') {
        Some((media_type, _)) => media_type,
        None => content_type,
    };
    let lower = to_ascii_lowercase(trim(bare));
    let media = lower.as_str();
    if text_eq(media, "application/vnd.pypi.simple.v1+json") || text_eq(media, "application/vnd.pypi.simple.v1+html")
        || text_eq(media, "text/html") {
        return Ok(());
    }
    let mut reason = "unsupported Simple API Content-Type ".to_owned();
    let text = quoted(content_type);
    reason.append(text.as_str());
    reason.append(" from ");
    reason.append(url);
    Err(reason)
}

/// The headers of a response that the cache reads, those that are no text being nothing.
#[derive(Debug)]
pub struct ResponseHeaders {
    pub status: u16,
    pub url: String,
    pub content_type: Option<String>,
    pub etag: Option<String>,
    pub last_modified: Option<String>,
    pub retry_after: Option<String>,
    pub content_length: Option<String>,
    pub last_serial: Option<String>,
    pub cache_control: Vec<Option<String>>,
}

/// The headers of a page fetch.
#[derive(Debug)]
pub struct SimpleHead {
    pub status: u16,
    /// The configured source that answered a routed request.
    pub source: Option<String>,
    /// The final URL fetched, the base for resolving relative links.
    pub url: String,
    pub content_type: Option<String>,
    pub etag: Option<String>,
    pub last_modified: Option<String>,
    pub retry_after: Option<String>,
    pub content_length: Option<u64>,
    pub last_serial: Option<u64>,
    /// The freshness lifetime granted; zero when the response requires immediate revalidation.
    pub max_age: Option<i64>,
}

/// The number of an optional header.
pub open spec fn header_number(value: Option<String>) -> Option<u64> {
    match value {
        Some(text) => u64_of(text@),
        None => None,
    }
}

fn parse_header(value: &Option<String>) -> (r: Option<u64>)
    ensures
        r == header_number(*value),
{
    match value {
        Some(text) => parse_u64(text.as_str()),
        None => None,
    }
}

/// Whether `r` is what the headers of a page fetch say.
pub open spec fn is_simple_head(headers: ResponseHeaders, r: Result<SimpleHead, String>) -> bool {
    let refusal = content_type_refusal(headers.url@, opt_text(headers.content_type));
    if headers.status == 200 && refusal is Some {
        r matches Err(reason) && reason@ == refusal->0
    } else {
        r matches Ok(head) && head.status == headers.status && head.source is None && head.url
            == headers.url && head.content_type == headers.content_type && head.etag == headers.etag
            && head.last_modified == headers.last_modified && head.retry_after == headers.retry_after
            && head.content_length == header_number(headers.content_length) && head.last_serial
            == header_number(headers.last_serial) && head.max_age == (if headers.cache_control@.len() == 0 {
            None
        } else {
            no_directives().headers_met(
                headers.cache_control@,
                headers.cache_control@.len() as int,
            ).policy().fresh_secs
        })
    }
}

/// Read the headers of a page fetch. A page that came must name a media type that can be read.
pub fn simple_head(headers: ResponseHeaders) -> (r: Result<SimpleHead, String>)
    ensures
        is_simple_head(headers, r),
{
    if headers.status == 200 {
        let content_type: Option<&str> = match &headers.content_type {
            Some(text) => Some(text.as_str()),
            None => None,
        };
        match validate_simple_content_type(headers.url.as_str(), content_type) {
            Ok(_) => {},
            Err(reason) => {
                return Err(reason);
            },
        }
    }
    let content_length: Option<u64> = parse_header(&headers.content_length);
    let last_serial: Option<u64> = parse_header(&headers.last_serial);
    let policy = response_cache_policy(&headers.cache_control);
    Ok(
        SimpleHead {
            status: headers.status,
            source: None,
            url: headers.url,
            content_type: headers.content_type,
            etag: headers.etag,
            last_modified: headers.last_modified,
            retry_after: headers.retry_after,
            content_length,
            last_serial,
            max_age: policy.fresh_secs,
        },
    )
}

impl SimpleHead {
    /// The answer, attributed to the source that gave it.
    pub fn attribute_source(self, source: &str) -> (r: Self)
        ensures
            opt_text(r.source) == Some(source@),
            r == (SimpleHead { source: r.source, ..self }),
    {
        let mut head = self;
        head.source = Some(source.to_owned());
        head
    }
}

/// The URL of a project's page below an index's base URL.
pub fn simple_project_url(base: &str, project: &str) -> (r: Option<String>)
    ensures
        opt_text(r) == url_joined(base@, project@ + "/"@),
{
    let mut reference = project.to_owned();
    reference.append("/");
    join_url(base, reference.as_str())
}

} // verus!
