//! What is promised of upstreams: which members answer, which candidate is asked, how long an answer stays fresh, and
//! which serials are believed.
use vstd::prelude::*;

use crate::policy::FallbackMode;
use crate::serial::{
    first_entry_error, is_composed, is_serial_verdict, one_domain, ordered_page, page_error, ChangelogEntry,
    SerialStamp, UpstreamSerialError,
};
use crate::simple_client::{
    answering, content_type_refusal, delta_added, delta_of, seconds_of, unescaped, falls_back, is_cache_policy, is_capped_read, is_health_verdict,
    is_next_attempt, is_simple_head, is_validators_for, CachedValidators, DeltaSeconds, Directives,
    ResponseCachePolicy, ResponseHeaders, ResponseTooLarge, SimpleHead, UpstreamFailure,
};
use crate::source_policy::{collides, reaches, selected, Member, SourceSelection};
use crate::text::{
    ascii_lower_text, cut_first, decimal, decimal_spells, decimal_value, first_index, is_digit, trimmed,
};

verus! {

// ---------------------------------------------------------------------------------------------
// Members of a virtual repository
// ---------------------------------------------------------------------------------------------

/// A member is consulted exactly where it reaches no cached index, or neither the mode nor a denial forbids upstream
/// content.
pub proof fn members_are_consulted_unless_forbidden(selection: SourceSelection, reaches_cached: Seq<bool>, position: usize)
    ensures
        selection.consults(reaches_cached, position) <==> !(position < reaches_cached.len()
            && reaches_cached[position as int]) || (selection.fallback() != FallbackMode::NoFallback && selection.denial() is None),
{
}

/// The consulted members are those of the order that may be, and no others.
pub proof fn consulted_members_are_of_the_order(
    selection: SourceSelection,
    order: Seq<usize>,
    reaches_cached: Seq<bool>,
    position: usize,
)
    ensures
        selection.consulted(order, reaches_cached).contains(position) <==> order.contains(position) && selection.consults(
            reaches_cached,
            position,
        ),
        selection.fallback() != FallbackMode::NoFallback && selection.denial() is None ==> selection.consulted(
            order,
            reaches_cached,
        ) == order,
{
    let keep = |p: usize| selection.consults(reaches_cached, p);
    filtered_members_are(order, keep, position);
    if selection.fallback() != FallbackMode::NoFallback && selection.denial() is None {
        everything_passes(order, keep);
    }
}

proof fn filtered_members_are<T>(s: Seq<T>, keep: spec_fn(T) -> bool, x: T)
    ensures
        s.filter(keep).contains(x) <==> s.contains(x) && keep(x),
    decreases s.len(),
{
    reveal(Seq::filter);
    if s.len() > 0 {
        let fewer = s.drop_last();
        filtered_members_are(fewer, keep, x);
        let sub = fewer.filter(keep);
        let all = s.filter(keep);
        if fewer.contains(x) {
            let i = choose|i: int| 0 <= i < fewer.len() && fewer[i] == x;
            assert(s[i] == x);
        }
        if s.contains(x) {
            let i = choose|i: int| 0 <= i < s.len() && s[i] == x;
            if i < s.len() - 1 {
                assert(fewer[i] == x);
            }
        }
        if keep(s.last()) {
            assert(all =~= sub.push(s.last()));
            if sub.contains(x) {
                let i = choose|i: int| 0 <= i < sub.len() && sub[i] == x;
                assert(all[i] == x);
            }
            if x == s.last() {
                assert(all[sub.len() as int] == x);
            }
            if all.contains(x) {
                let i = choose|i: int| 0 <= i < all.len() && all[i] == x;
                if i < sub.len() {
                    assert(sub[i] == x);
                } else {
                    assert(s[s.len() - 1] == x);
                }
            }
        }
    }
}

proof fn everything_passes<T>(s: Seq<T>, keep: spec_fn(T) -> bool)
    requires
        forall|x: T| #[trigger] keep(x),
    ensures
        s.filter(keep) == s,
    decreases s.len(),
{
    reveal(Seq::filter);
    if s.len() > 0 {
        everything_passes(s.drop_last(), keep);
        assert(keep(s.last()));
        assert(s =~= s.drop_last().push(s.last()));
    } else {
        assert(s.filter(keep) =~= s);
    }
}

/// Plain fallback merges every member. Every other mode merges those that produced files, and `private-first` leaves out
/// the cached ones among them exactly where one that is not cached produced files.
pub proof fn merged_views_take_the_right_members<T>(
    mode: FallbackMode,
    members: Seq<Member<T>>,
    reaches_cached: Seq<bool>,
    member: Member<T>,
)
    ensures
        mode == FallbackMode::Fallback ==> selected(mode, members, reaches_cached) == members,
        ({
            let own = exists|j: int|
                0 <= j < members.len() && (#[trigger] members[j]).has_files && !reaches(reaches_cached, members[j].position);
            let cached = exists|j: int|
                0 <= j < members.len() && (#[trigger] members[j]).has_files && reaches(reaches_cached, members[j].position);
            &&& mode == FallbackMode::NoFallback ==> (selected(mode, members, reaches_cached).contains(member)
                <==> members.contains(member) && member.has_files)
            &&& mode == FallbackMode::PrivateFirst ==> (selected(mode, members, reaches_cached).contains(member)
                <==> members.contains(member) && member.has_files && (own ==> !reaches(reaches_cached, member.position)))
            &&& collides(mode, members, reaches_cached) <==> mode == FallbackMode::PrivateFirst && own && cached
        }),
{
    let keep = |m: Member<T>| m.has_files;
    let with = crate::source_policy::with_files(members);
    let apart = |m: Member<T>| !reaches(reaches_cached, m.position);
    filtered_members_are(members, keep, member);
    filtered_members_are(with, apart, member);
    assert forall|j: int| 0 <= j < with.len() implies members.contains(#[trigger] with[j]) && with[j].has_files by {
        filtered_members_are(members, keep, with[j]);
        assert(with.contains(with[j]));
    }
    assert forall|j: int| 0 <= j < members.len() && (#[trigger] members[j]).has_files implies with.contains(members[j]) by {
        filtered_members_are(members, keep, members[j]);
        assert(members.contains(members[j]));
    }
    let own = exists|j: int|
        0 <= j < members.len() && (#[trigger] members[j]).has_files && !reaches(reaches_cached, members[j].position);
    let cached = exists|j: int|
        0 <= j < members.len() && (#[trigger] members[j]).has_files && reaches(reaches_cached, members[j].position);
    if own {
        let j = choose|j: int|
            0 <= j < members.len() && (#[trigger] members[j]).has_files && !reaches(reaches_cached, members[j].position);
        assert(with.contains(members[j]));
        let k = choose|k: int| 0 <= k < with.len() && with[k] == members[j];
        assert(!reaches(reaches_cached, with[k].position));
    }
    if cached {
        let j = choose|j: int|
            0 <= j < members.len() && (#[trigger] members[j]).has_files && reaches(reaches_cached, members[j].position);
        assert(with.contains(members[j]));
        let k = choose|k: int| 0 <= k < with.len() && with[k] == members[j];
        assert(reaches(reaches_cached, with[k].position));
    }
    if crate::source_policy::some_own(with, reaches_cached) {
        let k = choose|k: int| 0 <= k < with.len() && !reaches(reaches_cached, (#[trigger] with[k]).position);
        assert(members.contains(with[k]));
        let j = choose|j: int| 0 <= j < members.len() && members[j] == with[k];
        assert(members[j].has_files);
        assert(own);
    }
    if crate::source_policy::some_cached(with, reaches_cached) {
        let k = choose|k: int| 0 <= k < with.len() && reaches(reaches_cached, (#[trigger] with[k]).position);
        assert(members.contains(with[k]));
        let j = choose|j: int| 0 <= j < members.len() && members[j] == with[k];
        assert(members[j].has_files);
        assert(cached);
    }
}

// ---------------------------------------------------------------------------------------------
// Candidates
// ---------------------------------------------------------------------------------------------

/// The next candidate is asked exactly where a page is missing, the upstream is overloaded or broken, or the transfer
/// failed or took too long.
pub proof fn broken_answers_fall_back(status: u16, failure: UpstreamFailure)
    ensures
        falls_back(Ok::<u16, UpstreamFailure>(status)) <==> status == 404 || status == 429 || 500 <= status < 600,
        falls_back(Err::<u16, UpstreamFailure>(failure)) <==> failure == UpstreamFailure::Http || failure
            == UpstreamFailure::DeadlineExceeded,
{
}

/// An upstream is healthy exactly where it answers with a page, with no change, or with no such page.
pub proof fn healthy_upstreams_answer(result: Result<u16, UpstreamFailure>, r: bool)
    requires
        is_health_verdict(result, r),
    ensures
        result is Err ==> !r,
        result matches Ok(status) ==> (r <==> status == 200 || status == 304 || status == 404),
{
}

/// The candidate that answers is the first whose answer does not fall back; where every one does, it is the last.
pub proof fn the_first_good_candidate_answers(results: Seq<Result<u16, UpstreamFailure>>, i: int)
    requires
        0 <= i < results.len(),
    ensures
        i <= answering(results, i) < results.len(),
        forall|j: int| i <= j < answering(results, i) ==> falls_back(#[trigger] results[j]),
        falls_back(results[answering(results, i)]) ==> answering(results, i) == results.len() - 1,
    decreases results.len() - i,
{
    if falls_back(results[i]) && i + 1 < results.len() {
        the_first_good_candidate_answers(results, i + 1);
    }
}

/// A transfer is tried again exactly where its failure may pass and attempts are left.
pub proof fn attempts_are_counted(attempt: u32, passing: bool, max_retries: u32, r: Option<u32>)
    requires
        is_next_attempt(attempt, passing, max_retries, r),
    ensures
        r is Some <==> passing && attempt < max_retries,
        r matches Some(next) ==> next == attempt + 1,
{
}

/// Only the candidate that gave the stored answer is asked whether it still stands.
pub proof fn validators_go_to_their_source(validators: CachedValidators<'_>, candidate: Seq<char>, r: CachedValidators<'_>)
    requires
        is_validators_for(validators, candidate, r),
    ensures
        crate::text::opt_str(validators.source) == Some(candidate) ==> r.etag == validators.etag && r.last_modified
            == validators.last_modified,
        crate::text::opt_str(validators.source) != Some(candidate) ==> r.etag is None && r.last_modified is None,
{
}

/// A body is taken chunk by chunk as long as it keeps its limit; the chunk that would break it is refused whole.
pub proof fn bodies_keep_their_limit(
    was: Seq<u8>,
    chunk: Seq<u8>,
    limit: usize,
    now: Seq<u8>,
    r: Result<(), ResponseTooLarge>,
)
    requires
        is_capped_read(was, chunk, limit, now, r),
    ensures
        now.len() <= limit,
        r is Ok <==> was.len() + chunk.len() <= limit,
        r is Ok ==> now == was + chunk,
        r is Err ==> now == was,
{
}

/// A page can be read exactly where it is of one of the three media types of the Simple API, whatever parameters it
/// has and however it is spelled.
pub proof fn readable_pages_name_their_type(url: Seq<char>, content_type: Option<Seq<char>>)
    ensures
        content_type is None ==> content_type_refusal(url, content_type) is Some,
        content_type matches Some(value) ==> {
            let bare = ascii_lower_text(
                trimmed(
                    match cut_first(value, ';') {
                        Some((head, _)) => head,
                        None => value,
                    },
                ),
            );
            content_type_refusal(url, content_type) is None <==> bare == "application/vnd.pypi.simple.v1+json"@ || bare
                == "application/vnd.pypi.simple.v1+html"@ || bare == "text/html"@
        },
{
}

/// The headers of a page that came are read where its media type can be; of any other answer they are read as they are.
pub proof fn heads_carry_the_headers(headers: ResponseHeaders, r: Result<SimpleHead, String>)
    requires
        is_simple_head(headers, r),
    ensures
        headers.status != 200 ==> r is Ok,
        headers.status == 200 ==> (r is Ok <==> content_type_refusal(
            headers.url@,
            crate::text::opt_text(headers.content_type),
        ) is None),
        r matches Ok(head) ==> head.status == headers.status && head.url@ == headers.url@ && head.etag == headers.etag
            && head.last_modified == headers.last_modified && head.content_type == headers.content_type
            && head.retry_after == headers.retry_after && head.source is None,
        r matches Ok(head) ==> (headers.cache_control@.len() == 0 ==> head.max_age is None),
{
}

// ---------------------------------------------------------------------------------------------
// Freshness
// ---------------------------------------------------------------------------------------------

/// An answer without a cache header may be stored, and grants nothing.
pub proof fn silence_grants_nothing(values: Seq<Option<String>>, r: ResponseCachePolicy)
    requires
        is_cache_policy(values, r),
    ensures
        values.len() == 0 ==> r.storable && r.fresh_secs is None && r.must_revalidate is None,
        values.len() > 0 ==> r.must_revalidate is Some,
{
}

/// What directives come to: nothing is fresh that must be validated first or whose lifetime is spoiled; otherwise the
/// lifetime for shared caches stands before the general one. An answer is stored unless a directive forbids it.
pub proof fn directives_come_to_a_policy(d: Directives)
    ensures
        d.policy().storable == d.storable,
        d.policy().must_revalidate == Some(d.validate_before_reuse || d.revalidate_when_stale),
        d.validate_before_reuse || d.invalid || d.max_age is Invalid || d.s_maxage is Invalid ==> d.policy().fresh_secs
            == Some(0i64),
        !(d.validate_before_reuse || d.invalid || d.max_age is Invalid || d.s_maxage is Invalid) ==> match d.s_maxage {
            DeltaSeconds::Value(shared) => d.policy().fresh_secs == Some(shared),
            _ => match d.max_age {
                DeltaSeconds::Value(general) => d.policy().fresh_secs == Some(general),
                _ => d.policy().fresh_secs is None,
            },
        },
{
}

/// Each directive does what it is for, however it is spelled: `no-store` forbids storing and reuse, `private` storing,
/// `no-cache` reuse without validation, and the two revalidation directives a stale reuse. No other bare one does
/// anything but spoil a lifetime.
pub proof fn directives_do_what_they_are_for(d: Directives, directive: Seq<char>)
    requires
        trimmed(directive) == directive,
        !directive.contains('='),
    ensures
        ascii_lower_text(directive) == ascii_lower_text("no-store"@) ==> !d.met(directive).storable && d.met(
            directive,
        ).validate_before_reuse,
        ascii_lower_text(directive) == ascii_lower_text("private"@) ==> !d.met(directive).storable,
        ascii_lower_text(directive) == ascii_lower_text("no-cache"@) ==> d.met(directive).validate_before_reuse,
        ascii_lower_text(directive) == ascii_lower_text("must-revalidate"@) ==> d.met(directive).revalidate_when_stale,
        ascii_lower_text(directive) == ascii_lower_text("proxy-revalidate"@) ==> d.met(directive).revalidate_when_stale,
        d.storable && !d.met(directive).storable ==> ascii_lower_text(directive) == ascii_lower_text("no-store"@)
            || ascii_lower_text(directive) == ascii_lower_text("private"@),
        !d.validate_before_reuse && d.met(directive).validate_before_reuse ==> ascii_lower_text(directive)
            == ascii_lower_text("no-store"@) || ascii_lower_text(directive) == ascii_lower_text("no-cache"@),
        d.met(directive).invalid == d.invalid,
{
    crate::text::first_index_bounds(directive, '=');
    let i = first_index(directive, '=');
    if i < directive.len() {
        assert(directive.contains(directive[i]));
    }
    lower_names_differ();
}

/// The names of the directives differ however they are spelled.
proof fn lower_names_differ()
    ensures
        ascii_lower_text("no-store"@) != ascii_lower_text("no-cache"@),
        ascii_lower_text("no-store"@) != ascii_lower_text("must-revalidate"@),
        ascii_lower_text("no-store"@) != ascii_lower_text("proxy-revalidate"@),
        ascii_lower_text("private"@) != ascii_lower_text("no-cache"@),
        ascii_lower_text("private"@) != ascii_lower_text("must-revalidate"@),
        ascii_lower_text("private"@) != ascii_lower_text("proxy-revalidate"@),
        ascii_lower_text("private"@) != ascii_lower_text("no-store"@),
        ascii_lower_text("no-cache"@) != ascii_lower_text("must-revalidate"@),
        ascii_lower_text("no-cache"@) != ascii_lower_text("proxy-revalidate"@),
        ascii_lower_text("max-age"@) != ascii_lower_text("no-cache"@),
        ascii_lower_text("max-age"@) != ascii_lower_text("no-store"@),
        ascii_lower_text("max-age"@) != ascii_lower_text("private"@),
        ascii_lower_text("max-age"@) != ascii_lower_text("must-revalidate"@),
        ascii_lower_text("max-age"@) != ascii_lower_text("proxy-revalidate"@),
        ascii_lower_text("max-age"@) != ascii_lower_text("s-maxage"@),
        ascii_lower_text("s-maxage"@) != ascii_lower_text("no-cache"@),
        ascii_lower_text("s-maxage"@) != ascii_lower_text("no-store"@),
        ascii_lower_text("s-maxage"@) != ascii_lower_text("private"@),
        ascii_lower_text("s-maxage"@) != ascii_lower_text("must-revalidate"@),
        ascii_lower_text("s-maxage"@) != ascii_lower_text("proxy-revalidate"@),
{
    reveal_strlit("no-store");
    reveal_strlit("no-cache");
    reveal_strlit("private");
    reveal_strlit("must-revalidate");
    reveal_strlit("proxy-revalidate");
    reveal_strlit("max-age");
    reveal_strlit("s-maxage");
    assert(ascii_lower_text("no-store"@)[3] != ascii_lower_text("no-cache"@)[3]);
    assert(ascii_lower_text("no-store"@).len() == 8);
    assert(ascii_lower_text("no-cache"@).len() == 8);
    assert(ascii_lower_text("private"@).len() == 7);
    assert(ascii_lower_text("must-revalidate"@).len() == 15);
    assert(ascii_lower_text("proxy-revalidate"@).len() == 16);
    assert(ascii_lower_text("max-age"@).len() == 7);
    assert(ascii_lower_text("s-maxage"@).len() == 8);
    assert(ascii_lower_text("max-age"@)[0] != ascii_lower_text("private"@)[0]);
    assert(ascii_lower_text("s-maxage"@)[0] != ascii_lower_text("no-cache"@)[0]);
    assert(ascii_lower_text("s-maxage"@)[0] != ascii_lower_text("no-store"@)[0]);
}

/// A number of seconds is read as it is spelled, bare or in quotes, and one beyond 64 signed bits as the largest.
pub proof fn lifetimes_read_their_digits(n: nat)
    ensures
        delta_of(decimal(n)) == Some(
            if n > i64::MAX {
                i64::MAX
            } else {
                n as i64
            },
        ),
{
    decimal_spells(n);
    let s = decimal(n);
    assert(crate::text::is_digit(s[0]));
}

/// A header value without a quote is read piece by piece between its commas.
pub proof fn directives_are_read_between_commas(d: Directives, v: Seq<char>, i: int, start: int)
    requires
        0 <= start <= i <= v.len(),
        !v.contains('"'),
    ensures
        ({
            let rest = v.skip(i);
            let at = first_index(rest, ',');
            d.scanned(v, i, start, false, false) == (if at < rest.len() {
                d.met(v.subrange(start, i + at)).scanned(v, i + at + 1, i + at + 1, false, false)
            } else {
                d.met(v.skip(start))
            })
        }),
    decreases v.len() - i,
{
    let rest = v.skip(i);
    crate::text::first_index_bounds(rest, ',');
    if i < v.len() {
        assert(v.contains(v[i]));
        assert(rest[0] == v[i]);
        if v[i] != ',' {
            directives_are_read_between_commas(d, v, i + 1, start);
            assert(rest.skip(1) =~= v.skip(i + 1));
        }
    }
}

// ---------------------------------------------------------------------------------------------
// Serials
// ---------------------------------------------------------------------------------------------

/// A response may replace a cached page exactly where the cache requires no serial or the response's is no lower. Its
/// serial is then the response's own.
pub proof fn serials_never_go_back(required: Option<u64>, received: Option<u64>, r: Result<Option<u64>, UpstreamSerialError>)
    requires
        is_serial_verdict(required, received, r),
    ensures
        r is Ok <==> required is None || (received is Some && received->0 >= required->0),
        r matches Ok(serial) ==> serial == received,
        r matches Err(UpstreamSerialError::Missing { required: needed }) ==> received is None && required == Some(needed),
        r matches Err(UpstreamSerialError::Regressed { required: needed, received: got }) ==> received == Some(got)
            && required == Some(needed) && got < needed,
{
}

/// Layers have a common watermark exactly where each has a stamp and all are of one domain; it is then no higher than
/// any layer's, and one layer's own.
pub proof fn watermarks_hold_of_every_layer(stamps: Seq<Option<SerialStamp>>, r: Option<SerialStamp>)
    requires
        is_composed(stamps, r),
    ensures
        r is Some <==> stamps.len() > 0 && forall|i: int|
            0 <= i < stamps.len() ==> (#[trigger] stamps[i]) is Some && stamps[i]->0.domain@ == stamps[0]->0.domain@,
        r matches Some(stamp) ==> stamp.domain@ == stamps[0]->0.domain@ && (forall|i: int|
            0 <= i < stamps.len() ==> stamp.serial <= (#[trigger] stamps[i])->0.serial) && (exists|i: int|
            0 <= i < stamps.len() && stamp.serial == (#[trigger] stamps[i])->0.serial),
{
    if stamps.len() > 0 {
        crate::serial::composed_watermark_is_reached_by_all(stamps, stamps.len() as int);
    }
    if one_domain(stamps) {
        assert forall|i: int| 0 <= i < stamps.len() implies (#[trigger] stamps[i]) is Some && stamps[i]->0.domain@
            == stamps[0]->0.domain@ by {
            assert(crate::serial::shares_domain(stamps, i));
        }
    } else if stamps.len() > 0 && stamps[0] is Some {
        let i = choose|i: int| 0 <= i < stamps.len() && !#[trigger] crate::serial::shares_domain(stamps, i);
        assert(!(stamps[i] is Some && stamps[i]->0.domain@ == stamps[0]->0.domain@));
    } else if stamps.len() > 0 {
        assert(!(stamps[0] is Some));
    }
}

/// Entries make a page exactly where they are no more than the limit, each behind the cursor and no newer than the
/// snapshot, and each newer than the one before it.
pub proof fn pages_are_ordered_and_within_the_snapshot(after: i64, current: u64, entries: Seq<ChangelogEntry>, limit: usize)
    ensures
        page_error(after, current, entries, limit) is None <==> entries.len() <= limit && ordered_page(
            after,
            current,
            entries,
        ),
{
    let n = entries.len() as int;
    if first_entry_error(after, current, entries, n) is None {
        crate::serial::valid_entries_are_ordered(after, current, entries, n);
        assert(entries.take(n) =~= entries);
    }
    if ordered_page(after, current, entries) {
        ordered_entries_have_no_error(after, current, entries, n);
    }
}

proof fn ordered_entries_have_no_error(after: i64, current: u64, entries: Seq<ChangelogEntry>, n: int)
    requires
        0 <= n <= entries.len(),
        ordered_page(after, current, entries),
    ensures
        first_entry_error(after, current, entries, n) is None,
    decreases n,
{
    if n > 0 {
        ordered_entries_have_no_error(after, current, entries, n - 1);
        assert(after < entries[n - 1].serial <= current);
        if n > 1 {
            assert(entries[n - 2].serial < entries[n - 1].serial);
        }
    }
}

/// A lifetime directive counts once: a second one, one without a readable value, or one set apart from its equals sign
/// leaves no lifetime. A quoted value is worth what the same value is worth bare.
pub proof fn lifetimes_count_once(delta: DeltaSeconds, value: Option<Seq<char>>, valid_separator: bool, n: nat)
    ensures
        !(delta is Absent) || !valid_separator || value is None ==> delta_added(delta, value, valid_separator) is Invalid,
        value matches Some(v) ==> (delta_of(v) is None ==> delta_added(delta, value, valid_separator) is Invalid),
        n <= i64::MAX ==> delta_added(DeltaSeconds::Absent, Some(decimal(n)), true) == DeltaSeconds::Value(n as i64),
        n > i64::MAX ==> delta_added(DeltaSeconds::Absent, Some(decimal(n)), true) == DeltaSeconds::Value(i64::MAX),
        seconds_of(Seq::empty()) is None,
        value matches Some(v) ==> (seconds_of(v) matches Some(s) ==> s >= 0),
{
    lifetimes_read_their_digits(n);
    if value is Some && seconds_of(value->0) is Some {
        spelled_numbers_are_not_negative(value->0);
    }
}

proof fn spelled_numbers_are_not_negative(digits: Seq<char>)
    requires
        forall|i: int| 0 <= i < digits.len() ==> is_digit(#[trigger] digits[i]),
    ensures
        decimal_value(digits) >= 0,
    decreases digits.len(),
{
    if digits.len() > 0 {
        assert forall|i: int| 0 <= i < digits.drop_last().len() implies is_digit(#[trigger] digits.drop_last()[i]) by {
            assert(digits.drop_last()[i] == digits[i]);
        }
        spelled_numbers_are_not_negative(digits.drop_last());
    }
}

/// A quoted text stands for itself where nothing in it is escaped. An escaped character stands for itself, and a
/// backslash at the end escapes nothing.
pub proof fn quoted_texts_are_unescaped(s: Seq<char>, c: char)
    ensures
        !s.contains('\\') ==> unescaped(s) == Some(s),
        unescaped(seq!['\\', c] + s) == (match unescaped(s) {
            Some(rest) => Some(seq![c] + rest),
            None => None,
        }),
        unescaped(seq!['\\']) is None,
    decreases s.len(),
{
    let led = seq!['\\', c] + s;
    assert(led.skip(2) =~= s);
    if s.len() > 0 && !s.contains('\\') {
        let rest = s.skip(1);
        assert forall|k: int| 0 <= k < rest.len() implies rest[k] != '\\' by {
            assert(rest[k] == s[k + 1]);
        }
        quoted_texts_are_unescaped(rest, c);
        assert(s[0] != '\\');
        assert(seq![s[0]] + rest =~= s);
    } else if s.len() == 0 {
        assert(s =~= Seq::empty());
    }
}

} // verus!
