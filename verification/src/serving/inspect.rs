//! Looking into an archive: which member a request names, and how what was found is answered.
use vstd::prelude::*;

use crate::digest::{is_digest, valid_digest};
use crate::outside::{
    form_pairs, form_pairs_of, json_string, json_string_text, quoted, quoted_text, utf8_error, utf8_error_text, utf8_text,
};
use crate::serving::blob::{DownloadRefusal, Barrier};
use crate::serving::response::{cache_error_response, error_reply, file_context, CacheContext, CacheError};
use crate::serving::reply::{
    missing, not_found, plain, reply, Reply, ReplyText, BAD_REQUEST, INTERNAL_SERVER_ERROR, NOT_FOUND, OK,
    PAYLOAD_TOO_LARGE, RANGE_NOT_SATISFIABLE, UNPROCESSABLE_ENTITY, UNSUPPORTED_MEDIA_TYPE,
};
use crate::simple::json::{comma_joined, comma_joined_push};
use crate::text::{bytes_clone, cut_first, decimal, decimal_text, opt_str, opt_text, parse_u64, split_once, text_eq, texts, u64_of};

verus! {

/// How much of a member one request may read.
pub struct ChunkLimits {
    pub default_chunk: u64,
    pub max_chunk: u64,
}

/// What a query asks of an archive.
pub struct ArchiveQuery {
    pub member: Option<String>,
    pub containers: Vec<String>,
    pub offset: u64,
    pub limit: u64,
}

/// A query, its text seen as characters.
pub struct ArchiveQueryText {
    pub member: Option<Seq<char>>,
    pub containers: Seq<Seq<char>>,
    pub offset: u64,
    pub limit: u64,
}

impl ArchiveQuery {
    pub open spec fn view(self) -> ArchiveQueryText {
        ArchiveQueryText {
            member: opt_text(self.member),
            containers: texts(self.containers@),
            offset: self.offset,
            limit: self.limit,
        }
    }
}

/// The query once one more pair is read: the last member, offset and limit count, and the containers add
/// up. An offset or a limit that is no number, or a limit out of bounds, is refused.
pub open spec fn pair_read(so_far: ArchiveQueryText, pair: (Seq<char>, Seq<char>), limits: ChunkLimits) -> Result<
    ArchiveQueryText,
    ReplyText,
> {
    let (key, value) = pair;
    if key == "member"@ {
        Ok(ArchiveQueryText { member: Some(value), ..so_far })
    } else if key == "container"@ {
        Ok(ArchiveQueryText { containers: so_far.containers.push(value), ..so_far })
    } else if key == "offset"@ {
        match u64_of(value) {
            Some(offset) => Ok(ArchiveQueryText { offset, ..so_far }),
            None => Err(plain(BAD_REQUEST, "offset must be a non-negative integer"@)),
        }
    } else if key == "limit"@ {
        match u64_of(value) {
            Some(limit) => if 1 <= limit <= limits.max_chunk {
                Ok(ArchiveQueryText { limit, ..so_far })
            } else {
                Err(
                    plain(
                        BAD_REQUEST,
                        "limit must be between 1 and "@ + decimal(limits.max_chunk as nat) + " bytes"@,
                    ),
                )
            },
            None => Err(plain(BAD_REQUEST, "limit must be an integer between 1 and 1048576"@)),
        }
    } else {
        Ok(so_far)
    }
}

/// A query that says nothing.
pub open spec fn silent_query(limits: ChunkLimits) -> ArchiveQueryText {
    ArchiveQueryText { member: None, containers: Seq::empty(), offset: 0, limit: limits.default_chunk }
}

/// The query that the first `n` pairs make.
pub open spec fn query_read(pairs: Seq<(Seq<char>, Seq<char>)>, n: int, limits: ChunkLimits) -> Result<
    ArchiveQueryText,
    ReplyText,
>
    decreases n,
{
    if n <= 0 {
        Ok(silent_query(limits))
    } else {
        match query_read(pairs, n - 1, limits) {
            Ok(so_far) => pair_read(so_far, pairs[n - 1], limits),
            Err(answer) => Err(answer),
        }
    }
}

proof fn refusal_stays(pairs: Seq<(Seq<char>, Seq<char>)>, m: int, n: int, limits: ChunkLimits)
    requires
        0 <= m <= n,
        query_read(pairs, m, limits) is Err,
    ensures
        query_read(pairs, n, limits) == query_read(pairs, m, limits),
    decreases n,
{
    if m < n {
        refusal_stays(pairs, m, n - 1, limits);
    }
}

/// Pairs of texts.
pub open spec fn pair_texts(pairs: Seq<(String, String)>) -> Seq<(Seq<char>, Seq<char>)> {
    pairs.map_values(|p: (String, String)| (p.0@, p.1@))
}

fn read_pair(so_far: ArchiveQuery, key: &str, value: &str, limits: &ChunkLimits) -> (r: Result<ArchiveQuery, Reply>)
    ensures
        match pair_read(so_far@, (key@, value@), *limits) {
            Ok(query) => r matches Ok(q) && q@ == query,
            Err(answer) => r matches Err(a) && a@ == answer,
        },
{
    let mut query = so_far;
    if text_eq(key, "member") {
        query.member = Some(value.to_owned());
    } else if text_eq(key, "container") {
        query.containers.push(value.to_owned());
        assert(texts(query.containers@) =~= texts(so_far.containers@).push(value@));
    } else if text_eq(key, "offset") {
        match parse_u64(value) {
            Some(offset) => {
                query.offset = offset;
            },
            None => {
                return Err(reply(BAD_REQUEST, "offset must be a non-negative integer"));
            },
        }
    } else if text_eq(key, "limit") {
        match parse_u64(value) {
            Some(limit) => {
                if !(1 <= limit && limit <= limits.max_chunk) {
                    let mut body = "limit must be between 1 and ".to_owned();
                    let most = decimal_text(limits.max_chunk);
                    body.append(most.as_str());
                    body.append(" bytes");
                    return Err(reply(BAD_REQUEST, body.as_str()));
                }
                query.limit = limit;
            },
            None => {
                return Err(reply(BAD_REQUEST, "limit must be an integer between 1 and 1048576"));
            },
        }
    }
    Ok(query)
}

/// Read the pairs of a query.
pub fn archive_query_of(pairs: &Vec<(String, String)>, limits: &ChunkLimits) -> (r: Result<ArchiveQuery, Reply>)
    ensures
        match query_read(pair_texts(pairs@), pairs@.len() as int, *limits) {
            Ok(query) => r matches Ok(q) && q@ == query,
            Err(answer) => r matches Err(a) && a@ == answer,
        },
{
    let ghost all = pair_texts(pairs@);
    let mut query = ArchiveQuery { member: None, containers: Vec::new(), offset: 0, limit: limits.default_chunk };
    assert(texts(query.containers@) =~= Seq::<Seq<char>>::empty());
    let mut i: usize = 0;
    while i < pairs.len()
        invariant
            i <= pairs@.len(),
            all == pair_texts(pairs@),
            query_read(all, i as int, *limits) == Ok::<ArchiveQueryText, ReplyText>(query@),
        decreases pairs.len() - i,
    {
        assert(all[i as int] == (pairs@[i as int].0@, pairs@[i as int].1@));
        match read_pair(query, pairs[i].0.as_str(), pairs[i].1.as_str(), limits) {
            Ok(next) => {
                query = next;
            },
            Err(answer) => {
                proof {
                    assert(query_read(all, i + 1, *limits) == Err::<ArchiveQueryText, ReplyText>(answer@));
                    refusal_stays(all, i + 1, pairs@.len() as int, *limits);
                }
                return Err(answer);
            },
        }
        i = i + 1;
    }
    Ok(query)
}

/// Read the query of an inspection.
pub fn archive_query(query: Option<&str>, limits: &ChunkLimits) -> (r: Result<ArchiveQuery, Reply>)
    ensures
        match query {
            None => r matches Ok(q) && q@ == silent_query(*limits),
            Some(query) => match query_read(form_pairs_of(query@), form_pairs_of(query@).len() as int, *limits) {
                Ok(read) => r matches Ok(q) && q@ == read,
                Err(answer) => r matches Err(a) && a@ == answer,
            },
        },
{
    match query {
        None => {
            let query = ArchiveQuery {
                member: None,
                containers: Vec::new(),
                offset: 0,
                limit: limits.default_chunk,
            };
            assert(texts(query.containers@) =~= Seq::<Seq<char>>::empty());
            Ok(query)
        },
        Some(query) => {
            let pairs = form_pairs(query);
            assert(pair_texts(pairs@) == form_pairs_of(query@));
            archive_query_of(&pairs, limits)
        },
    }
}

/// Which member an inspection names, before its parts are decoded.
pub enum InspectTarget<'a> {
    Answer(Reply),
    /// The archive's own listing.
    Listing { sha256: &'a str, raw_filename: &'a str },
    /// A member that the query names.
    Named { sha256: &'a str, raw_filename: &'a str },
    /// A member that the path names; it is still to be decoded.
    InPath { sha256: &'a str, raw_filename: &'a str, raw_member: &'a str },
}

/// Whether `r` is what an inspection's path names beside a query.
pub open spec fn is_target(target: Seq<char>, query: ArchiveQuery, invalid_digest: Seq<char>, r: InspectTarget<'_>) -> bool {
    match cut_first(target, '/') {
        None => r matches InspectTarget::Answer(answer) && answer@ == missing(),
        Some((digest, rest)) => if !is_digest(digest) {
            r matches InspectTarget::Answer(answer) && answer@ == plain(BAD_REQUEST, invalid_digest)
        } else if query.member is Some {
            r matches InspectTarget::Named { sha256, raw_filename } && sha256@ == digest && raw_filename@ == rest
        } else if query.containers@.len() == 0 && cut_first(rest, '/') is Some {
            r matches InspectTarget::InPath { sha256, raw_filename, raw_member } && sha256@ == digest && Some(
                (raw_filename@, raw_member@),
            ) == cut_first(rest, '/')
        } else {
            r matches InspectTarget::Listing { sha256, raw_filename } && sha256@ == digest && raw_filename@ == rest
        },
    }
}

/// Read an inspection's path. A member in the query leaves the whole rest of the path to the filename; so
/// does a container, since the path names no member inside it. `invalid_digest` is what a caller is told of
/// a digest that is none.
pub fn inspect_target<'a>(target: &'a str, query: &ArchiveQuery, invalid_digest: &str) -> (r: InspectTarget<'a>)
    ensures
        is_target(target@, *query, invalid_digest@, r),
{
    let (sha256, rest) = match split_once(target, '/') {
        Some(parts) => parts,
        None => {
            return InspectTarget::Answer(not_found());
        },
    };
    if !valid_digest(sha256) {
        return InspectTarget::Answer(reply(BAD_REQUEST, invalid_digest));
    }
    if query.member.is_some() {
        return InspectTarget::Named { sha256, raw_filename: rest };
    }
    if query.containers.len() == 0 {
        match split_once(rest, '/') {
            Some((raw_filename, raw_member)) => {
                return InspectTarget::InPath { sha256, raw_filename, raw_member };
            },
            None => {},
        }
    }
    InspectTarget::Listing { sha256, raw_filename: rest }
}

/// Whether `r` is what an inspection names, or why it names nothing.
pub open spec fn is_address(
    target: Seq<char>,
    query: Result<ArchiveQuery, Reply>,
    invalid_digest: Seq<char>,
    r: Result<(InspectTarget<'_>, ArchiveQuery), Reply>,
) -> bool {
    match cut_first(target, '/') {
        None => r matches Err(answer) && answer@ == missing(),
        Some((digest, _)) => if !is_digest(digest) {
            r matches Err(answer) && answer@ == plain(BAD_REQUEST, invalid_digest)
        } else {
            match query {
                Err(answer) => r matches Err(a) && a == answer,
                Ok(query) => r matches Ok((named, q)) && q == query && !(named is Answer) && is_target(
                    target,
                    query,
                    invalid_digest,
                    named,
                ),
            }
        },
    }
}

/// Read an inspection: a path that names no archive, or no digest, is answered before the query is looked
/// into; `query` is the reading of the query.
pub fn inspect_address<'a>(target: &'a str, query: Result<ArchiveQuery, Reply>, invalid_digest: &str) -> (r: Result<
    (InspectTarget<'a>, ArchiveQuery),
    Reply,
>)
    ensures
        is_address(target@, query, invalid_digest@, r),
{
    let (sha256, _) = match split_once(target, '/') {
        Some(parts) => parts,
        None => {
            return Err(not_found());
        },
    };
    if !valid_digest(sha256) {
        return Err(reply(BAD_REQUEST, invalid_digest));
    }
    match query {
        Err(answer) => Err(answer),
        Ok(query) => {
            let named = inspect_target(target, &query, invalid_digest);
            Ok((named, query))
        },
    }
}

/// What happened last on the way into an archive.
pub enum InspectEvent<'a> {
    /// The path and the query were read.
    Addressed(InspectTarget<'a>),
    /// The parts of the path were decoded, or why one of them is unsafe. A member in the path is told first.
    Decoded { member: Result<(), String>, filename: Result<(), String> },
    /// The barrier before the archive's bytes was judged.
    Judged(Barrier),
    /// The archive was fetched.
    Fetched(Result<(), CacheError>),
}

/// What to do next on the way into an archive.
pub enum InspectAction {
    Answer(Reply),
    Refuse(DownloadRefusal),
    /// Decode the parts of the path.
    Decode,
    /// Judge the barrier before the archive's bytes.
    Judge,
    Fetch,
    /// Read the member, or list the archive where there is none.
    Read,
}

/// Whether `r` is the step behind `event` on the way into an archive.
pub open spec fn is_inspect_step(
    event: InspectEvent<'_>,
    route: Seq<char>,
    digest: Seq<char>,
    filename: Seq<char>,
    action: Seq<char>,
    r: InspectAction,
) -> bool {
    let context = file_context("file download"@, route, digest, filename);
    match event {
        InspectEvent::Addressed(InspectTarget::Answer(answer)) => r == InspectAction::Answer(answer),
        InspectEvent::Addressed(_) => r is Decode,
        InspectEvent::Decoded { member: Err(message), .. } => r matches InspectAction::Answer(answer) && answer@
            == plain(BAD_REQUEST, message@),
        InspectEvent::Decoded { member: Ok(_), filename: Err(message) } => r matches InspectAction::Answer(
            answer,
        ) && answer@ == plain(BAD_REQUEST, message@),
        InspectEvent::Decoded { member: Ok(_), filename: Ok(_) } => r is Judge,
        InspectEvent::Judged(Barrier::Open) => r is Fetch,
        InspectEvent::Judged(Barrier::Refused(refusal)) => r == InspectAction::Refuse(refusal),
        InspectEvent::Judged(Barrier::Failed(error)) => r matches InspectAction::Answer(answer) && answer@
            == error_reply(error, context, action),
        InspectEvent::Fetched(Ok(_)) => r is Read,
        InspectEvent::Fetched(Err(error)) => r matches InspectAction::Answer(answer) && answer@ == error_reply(
            error,
            context,
            action,
        ),
    }
}

/// Look into an archive, step by step: the same barrier stands before it as before a download, so what a project
/// withholds cannot be had by asking for an archive's members instead of its bytes.
pub fn inspect_route(
    event: InspectEvent<'_>,
    route: &str,
    digest: &str,
    filename: &str,
    action: &str,
) -> (r: InspectAction)
    ensures
        is_inspect_step(event, route@, digest@, filename@, action@, r),
{
    match event {
        InspectEvent::Addressed(InspectTarget::Answer(answer)) => InspectAction::Answer(answer),
        InspectEvent::Addressed(_) => InspectAction::Decode,
        InspectEvent::Decoded { member: Err(message), .. } => InspectAction::Answer(
            reply(BAD_REQUEST, message.as_str()),
        ),
        InspectEvent::Decoded { member: Ok(_), filename: Err(message) } => InspectAction::Answer(
            reply(BAD_REQUEST, message.as_str()),
        ),
        InspectEvent::Decoded { member: Ok(_), filename: Ok(_) } => InspectAction::Judge,
        InspectEvent::Judged(Barrier::Open) => InspectAction::Fetch,
        InspectEvent::Judged(Barrier::Refused(refusal)) => InspectAction::Refuse(refusal),
        InspectEvent::Judged(Barrier::Failed(error)) => InspectAction::Answer(
            cache_error_response(&error, CacheContext::file(route, digest, filename), action),
        ),
        InspectEvent::Fetched(Ok(_)) => InspectAction::Read,
        InspectEvent::Fetched(Err(error)) => InspectAction::Answer(
            cache_error_response(&error, CacheContext::file(route, digest, filename), action),
        ),
    }
}

/// Why an archive cannot be inspected.
#[derive(Debug, Clone, Copy, PartialEq, Eq, Structural)]
pub enum ArchiveErrorKind {
    Unsupported,
    UnsupportedNestedArchive,
    BinaryMember,
    MemberNotFound,
    InvalidRange,
    UnsafeMember,
    TruncatedMember,
    Invalid,
    Read,
    NestingTooDeep,
    InspectionLimitExceeded,
    NestedArchiveTooLarge,
    TooManyEntries,
}

/// The status of an archive error.
pub open spec fn archive_status(kind: ArchiveErrorKind) -> u16 {
    match kind {
        ArchiveErrorKind::Unsupported
        | ArchiveErrorKind::UnsupportedNestedArchive
        | ArchiveErrorKind::BinaryMember => UNSUPPORTED_MEDIA_TYPE,
        ArchiveErrorKind::MemberNotFound => NOT_FOUND,
        ArchiveErrorKind::InvalidRange => RANGE_NOT_SATISFIABLE,
        ArchiveErrorKind::UnsafeMember
        | ArchiveErrorKind::TruncatedMember
        | ArchiveErrorKind::Invalid
        | ArchiveErrorKind::Read => UNPROCESSABLE_ENTITY,
        ArchiveErrorKind::NestingTooDeep => BAD_REQUEST,
        ArchiveErrorKind::InspectionLimitExceeded
        | ArchiveErrorKind::NestedArchiveTooLarge
        | ArchiveErrorKind::TooManyEntries => PAYLOAD_TOO_LARGE,
    }
}

/// What an inspection is about.
pub open spec fn target_named(filename: Seq<char>, member: Option<Seq<char>>) -> Seq<char> {
    match member {
        Some(member) => "member "@ + quoted_text(member) + " in archive "@ + quoted_text(filename),
        None => "archive "@ + quoted_text(filename),
    }
}

fn archive_target(filename: &str, member: Option<&str>) -> (r: String)
    ensures
        r@ == target_named(filename@, opt_str(member)),
{
    let archive = quoted(filename);
    match member {
        Some(member) => {
            let mut out = "member ".to_owned();
            let name = quoted(member);
            out.append(name.as_str());
            out.append(" in archive ");
            out.append(archive.as_str());
            out
        },
        None => {
            let mut out = "archive ".to_owned();
            out.append(archive.as_str());
            out
        },
    }
}

/// Answer an archive that cannot be inspected. `message` says why.
pub fn archive_error(kind: ArchiveErrorKind, message: &str, filename: &str, member: Option<&str>) -> (r: Reply)
    ensures
        r@ == plain(archive_status(kind), target_named(filename@, opt_str(member)) + ": "@ + message@),
{
    let status: u16 = match kind {
        ArchiveErrorKind::Unsupported
        | ArchiveErrorKind::UnsupportedNestedArchive
        | ArchiveErrorKind::BinaryMember => UNSUPPORTED_MEDIA_TYPE,
        ArchiveErrorKind::MemberNotFound => NOT_FOUND,
        ArchiveErrorKind::InvalidRange => RANGE_NOT_SATISFIABLE,
        ArchiveErrorKind::UnsafeMember
        | ArchiveErrorKind::TruncatedMember
        | ArchiveErrorKind::Invalid
        | ArchiveErrorKind::Read => UNPROCESSABLE_ENTITY,
        ArchiveErrorKind::NestingTooDeep => BAD_REQUEST,
        ArchiveErrorKind::InspectionLimitExceeded
        | ArchiveErrorKind::NestedArchiveTooLarge
        | ArchiveErrorKind::TooManyEntries => PAYLOAD_TOO_LARGE,
    };
    let mut body = archive_target(filename, member);
    body.append(": ");
    body.append(message);
    reply(status, body.as_str())
}

/// Answer an inspection whose worker failed, rather than drop the connection.
pub fn inspection_failed(message: &str, filename: &str, member: Option<&str>) -> (r: Reply)
    ensures
        r@ == plain(
            INTERNAL_SERVER_ERROR,
            target_named(filename@, opt_str(member)) + ": inspection failed: "@ + message@,
        ),
{
    let mut body = archive_target(filename, member);
    body.append(": inspection failed: ");
    body.append(message);
    reply(INTERNAL_SERVER_ERROR, body.as_str())
}

/// Where a chunk of a member stands.
pub struct MemberChunk {
    pub size: u64,
    pub offset: u64,
    pub next_offset: Option<u64>,
}

/// The headers of a chunk; the body is its bytes.
pub open spec fn chunk_reply(chunk: MemberChunk) -> ReplyText {
    let answer = plain(OK, Seq::empty()).with("content-type"@, "text/plain; charset=utf-8"@).with(
        "x-peryx-member-size"@,
        decimal(chunk.size as nat),
    ).with("x-peryx-member-offset"@, decimal(chunk.offset as nat));
    match chunk.next_offset {
        Some(next) => answer.with("x-peryx-next-offset"@, decimal(next as nat)),
        None => answer,
    }
}

/// Answer with a chunk of a member.
pub fn archive_member(chunk: &MemberChunk) -> (r: Reply)
    ensures
        r@ == chunk_reply(*chunk),
{
    proof {
        reveal_strlit("");
        assert(""@ =~= Seq::<char>::empty());
    }
    let answer = reply(OK, "").with_header("content-type", "text/plain; charset=utf-8").with_number(
        "x-peryx-member-size",
        chunk.size,
    ).with_number("x-peryx-member-offset", chunk.offset);
    match chunk.next_offset {
        Some(next) => answer.with_number("x-peryx-next-offset", next),
        None => answer,
    }
}

/// A listing as an object: the archive's filename, and its members, each already written as JSON.
pub open spec fn listing_json(filename: Seq<char>, members: Seq<Seq<char>>) -> Seq<char> {
    "{\"filename\":"@ + json_string(filename) + ",\"members\":["@ + comma_joined(members) + "]}"@
}

/// Answer with the listing of an archive. `members` are its members, each written as JSON.
pub fn archive_listing(filename: &str, members: &Vec<String>) -> (r: Reply)
    ensures
        r@ == plain(OK, listing_json(filename@, texts(members@))).with("content-type"@, "application/json"@),
{
    let ghost all = texts(members@);
    let mut list = String::new();
    let mut i: usize = 0;
    assert(all.take(0) =~= Seq::<Seq<char>>::empty());
    while i < members.len()
        invariant
            i <= members@.len(),
            all == texts(members@),
            all.len() == members@.len(),
            list@ == comma_joined(all.take(i as int)),
        decreases members.len() - i,
    {
        let item = members[i].as_str();
        proof {
            assert(all[i as int] == item@);
            comma_joined_push(all.take(i as int), item@);
            assert(all.take(i as int).push(item@) =~= all.take(i + 1));
        }
        if i > 0 {
            list.append(",");
            list.append(item);
        } else {
            list = item.to_owned();
        }
        i = i + 1;
    }
    assert(all.take(i as int) =~= all);
    let mut body = "{\"filename\":".to_owned();
    let name = json_string_text(filename);
    body.append(name.as_str());
    body.append(",\"members\":[");
    body.append(list.as_str());
    body.append("]}");
    reply(OK, body.as_str()).with_header("content-type", "application/json")
}

/// The text of a member's bytes, which a preview shows only where they are UTF-8.
pub fn member_text(member: &str, bytes: Vec<u8>) -> (r: Result<String, String>)
    ensures
        match r {
            Ok(text) => vstd::utf8::valid_utf8(bytes@) && text@ == vstd::utf8::decode_utf8(bytes@),
            Err(message) => !vstd::utf8::valid_utf8(bytes@) && message@ == "archive member "@ + quoted_text(member@)
                + " is not UTF-8: "@ + utf8_error(bytes@),
        },
{
    let kept = bytes_clone(bytes.as_slice());
    match utf8_text(bytes) {
        Some(text) => Ok(text),
        None => {
            let name = quoted(member);
            let error = utf8_error_text(kept.as_slice());
            let mut message = "archive member ".to_owned();
            message.append(name.as_str());
            message.append(" is not UTF-8: ");
            message.append(error.as_str());
            Err(message)
        },
    }
}

/// What a listing that broke off is told as.
pub fn archive_listing_task_error(error: &str) -> (r: String)
    ensures
        r@ == "archive listing task failed: "@ + error@,
{
    let mut message = "archive listing task failed: ".to_owned();
    message.append(error);
    message
}

/// What a read of a member that broke off is told as.
pub fn archive_member_task_error(error: &str) -> (r: String)
    ensures
        r@ == "archive member task failed: "@ + error@,
{
    let mut message = "archive member task failed: ".to_owned();
    message.append(error);
    message
}

} // verus!
