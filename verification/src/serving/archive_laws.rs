//! What looking into an archive promises, and what the browse routes answer.
use vstd::prelude::*;

use crate::digest::is_digest;
use crate::outside::json_string;
use crate::serving::access::Denial;
use crate::serving::blob::Barrier;
use crate::serving::dispatch::{dispatched, refused_read};
use crate::serving::inspect::{
    archive_status, chunk_reply, is_address, is_inspect_step, is_target, listing_json, pair_read, query_read, silent_query,
    ArchiveErrorKind, ArchiveQuery, ArchiveQueryText, ChunkLimits, InspectAction, InspectEvent, InspectTarget, MemberChunk,
};
use crate::serving::reply::{Reply, ReplyText};
use crate::serving::web::{
    browse_reply, escaped, is_browse_route, is_browsed, option_text, options, BrowseOutcome, BrowseRoute, OfferedIndex,
};
use crate::text::{cut_first, decimal, first_index_of_joined, holds_text, joined_texts_hold, u64_of};

verus! {

/// A pair sets what it names and nothing else. A container is added to those before it; an offset or a limit that is no
/// number is refused, and so is a limit out of bounds.
pub proof fn pairs_ask_for_what_they_name(
    so_far: ArchiveQueryText,
    key: Seq<char>,
    value: Seq<char>,
    limits: ChunkLimits,
)
    ensures
        ({
            let r = pair_read(so_far, (key, value), limits);
            &&& key == "member"@ ==> (r matches Ok(q) && q.member == Some(value))
            &&& r matches Ok(q) ==> (key != "member"@ ==> q.member == so_far.member)
            &&& r matches Ok(q) ==> (key != "container"@ ==> q.containers == so_far.containers)
            &&& r matches Ok(q) ==> (key != "offset"@ ==> q.offset == so_far.offset)
            &&& r matches Ok(q) ==> (key != "limit"@ ==> q.limit == so_far.limit)
            &&& r is Err ==> key == "offset"@ || key == "limit"@
            &&& r matches Err(answer) ==> answer.status == 400
            &&& key != "member"@ && key == "container"@ ==> (r matches Ok(q) && q.containers == so_far.containers.push(
                value,
            ))
            &&& key != "member"@ && key != "container"@ && key == "offset"@ ==> (r is Ok <==> u64_of(value) is Some)
            &&& key != "member"@ && key != "container"@ && key == "offset"@ ==> (r matches Ok(q) ==> Some(q.offset) == u64_of(
                value,
            ))
            &&& key != "member"@ && key != "container"@ && key != "offset"@ && key == "limit"@ ==> (r is Ok <==> (u64_of(
                value,
            ) matches Some(limit) && 1 <= limit <= limits.max_chunk))
            &&& key != "member"@ && key != "container"@ && key != "offset"@ && key == "limit"@ ==> (r matches Ok(q) ==> Some(
                q.limit,
            ) == u64_of(value))
        }),
{
}

/// However a query is put, no more than the largest chunk is read at once.
pub proof fn chunks_are_bounded(pairs: Seq<(Seq<char>, Seq<char>)>, n: int, limits: ChunkLimits)
    requires
        1 <= limits.default_chunk <= limits.max_chunk,
        0 <= n <= pairs.len(),
    ensures
        query_read(pairs, n, limits) matches Ok(q) ==> 1 <= q.limit <= limits.max_chunk,
        query_read(pairs, n, limits) matches Ok(q) ==> q.containers.len() <= n,
        query_read(pairs, 0, limits) == Ok::<ArchiveQueryText, ReplyText>(silent_query(limits)),
        silent_query(limits).member is None && silent_query(limits).offset == 0 && silent_query(limits).containers.len()
            == 0 && silent_query(limits).limit == limits.default_chunk,
    decreases n,
{
    if n > 0 {
        chunks_are_bounded(pairs, n - 1, limits);
    }
}

/// A path names an archive by its digest, and a member by what stands behind the filename, unless the query names a
/// member or a container; then all behind the digest is the filename.
pub proof fn paths_name_archives_and_members(
    digest: Seq<char>,
    rest: Seq<char>,
    query: ArchiveQuery,
    invalid_digest: Seq<char>,
    r: InspectTarget<'_>,
)
    requires
        !digest.contains('/'),
        is_target(digest + seq!['/'] + rest, query, invalid_digest, r),
    ensures
        r is Answer <==> !is_digest(digest),
        r matches InspectTarget::Answer(answer) ==> answer.status == 400,
        r is Named <==> is_digest(digest) && query.member is Some,
        r is InPath <==> is_digest(digest) && query.member is None && query.containers@.len() == 0 && cut_first(rest, '/')
            is Some,
        r matches InspectTarget::Named { sha256, raw_filename } ==> sha256@ == digest && raw_filename@ == rest,
        r matches InspectTarget::Listing { sha256, raw_filename } ==> sha256@ == digest && raw_filename@ == rest,
        r matches InspectTarget::InPath { sha256, raw_filename, raw_member } ==> sha256@ == digest && cut_first(rest, '/')
            == Some((raw_filename@, raw_member@)),
{
    first_index_of_joined(digest, '/', rest);
}

/// An address is refused exactly where its path names no archive, its digest is none, or its query is refused.
pub proof fn addresses_are_read(
    target: Seq<char>,
    query: Result<ArchiveQuery, Reply>,
    invalid_digest: Seq<char>,
    r: Result<(InspectTarget<'_>, ArchiveQuery), Reply>,
)
    requires
        is_address(target, query, invalid_digest, r),
    ensures
        r is Ok <==> (cut_first(target, '/') matches Some((digest, _)) && is_digest(digest)) && query is Ok,
        cut_first(target, '/') is None ==> (r matches Err(answer) && answer.status == 404),
        cut_first(target, '/') matches Some((digest, _)) ==> (!is_digest(digest) ==> (r matches Err(answer)
            && answer.status == 400)),
        r matches Ok((named, q)) ==> Ok::<ArchiveQuery, Reply>(q) == query && !(named is Answer),
{
}

/// An archive is fetched only behind an open barrier, and read only once it was fetched; a refusal is passed on.
pub proof fn archives_are_read_behind_the_barrier(
    event: InspectEvent<'_>,
    route: Seq<char>,
    digest: Seq<char>,
    filename: Seq<char>,
    action: Seq<char>,
    r: InspectAction,
)
    requires
        is_inspect_step(event, route, digest, filename, action, r),
    ensures
        r is Fetch <==> (event matches InspectEvent::Judged(Barrier::Open)),
        r is Read <==> (event matches InspectEvent::Fetched(Ok(_))),
        r is Judge <==> (event matches InspectEvent::Decoded { member: Ok(_), filename: Ok(_) }),
        r is Decode <==> (event matches InspectEvent::Addressed(named) && !(named is Answer)),
        r is Refuse <==> (event matches InspectEvent::Judged(Barrier::Refused(_))),
        event matches InspectEvent::Judged(Barrier::Refused(refusal)) ==> r == InspectAction::Refuse(refusal),
        (event matches InspectEvent::Decoded { member: Err(_), .. }) ==> (r matches InspectAction::Answer(answer)
            && answer.status == 400),
        (event matches InspectEvent::Decoded { filename: Err(_), .. }) ==> (r matches InspectAction::Answer(answer)
            && answer.status == 400),
        (event matches InspectEvent::Judged(Barrier::Failed(_))) ==> (r matches InspectAction::Answer(answer)
            && answer.status >= 400),
        (event matches InspectEvent::Fetched(Err(_))) ==> (r matches InspectAction::Answer(answer) && answer.status >= 400),
{
}

/// Each failure to look into an archive has its status.
pub proof fn archive_failures_have_their_status(kind: ArchiveErrorKind)
    ensures
        archive_status(kind) == 415 <==> kind is Unsupported || kind is UnsupportedNestedArchive || kind is BinaryMember,
        archive_status(kind) == 404 <==> kind is MemberNotFound,
        archive_status(kind) == 416 <==> kind is InvalidRange,
        archive_status(kind) == 422 <==> kind is UnsafeMember || kind is TruncatedMember || kind is Invalid || kind is Read,
        archive_status(kind) == 400 <==> kind is NestingTooDeep,
        archive_status(kind) == 413 <==> kind is InspectionLimitExceeded || kind is NestedArchiveTooLarge || kind
            is TooManyEntries,
{
}

/// A chunk says how large its member is, where it stands and where the next one does, if there is one.
pub proof fn chunks_say_where_they_stand(chunk: MemberChunk)
    ensures
        ({
            let answer = chunk_reply(chunk);
            &&& answer.status == 200
            &&& answer.headers[0] == ("content-type"@, "text/plain; charset=utf-8"@)
            &&& answer.headers[1] == ("x-peryx-member-size"@, decimal(chunk.size as nat))
            &&& answer.headers[2] == ("x-peryx-member-offset"@, decimal(chunk.offset as nat))
            &&& answer.headers.len() == (if chunk.next_offset is Some { 4int } else { 3int })
            &&& chunk.next_offset matches Some(next) ==> answer.headers[3] == ("x-peryx-next-offset"@, decimal(next as nat))
        }),
{
}

/// A listing names its archive.
pub proof fn listings_name_their_archive(filename: Seq<char>, members: Seq<Seq<char>>)
    ensures
        holds_text(listing_json(filename, members), json_string(filename)),
        holds_text(listing_json(filename, members), crate::simple::json::comma_joined(members)),
{
    let head = "{\"filename\":"@;
    let name = json_string(filename);
    let middle = ",\"members\":["@;
    let list = crate::simple::json::comma_joined(members);
    let tail = "]}"@;
    assert(listing_json(filename, members) =~= head + name + (middle + list + tail));
    joined_texts_hold(head, name, middle + list + tail);
    assert(listing_json(filename, members) =~= (head + name + middle) + list + tail);
    joined_texts_hold(head + name + middle, list, tail);
}

// ---------------------------------------------------------------------------------------------
// Browse routes
// ---------------------------------------------------------------------------------------------

/// The upload page is read and not otherwise asked for; every other path is browsed.
pub proof fn the_upload_page_is_only_read(path: Seq<char>, is_get: bool, r: BrowseRoute)
    requires
        is_browse_route(path, is_get, r),
    ensures
        r is UploadPage <==> path == "/upload"@ && is_get,
        r is Browse <==> path != "/upload"@,
        r matches BrowseRoute::Answer(answer) ==> answer.status == 405,
{
}

/// The browsed index is the first of this ecosystem at the route.
pub proof fn the_first_index_is_browsed(indexes: Seq<OfferedIndex>, route: Seq<char>, r: Option<usize>, i: int)
    requires
        is_browsed(indexes, route, r),
        0 <= i < indexes.len(),
        indexes[i].of_ecosystem,
        indexes[i].route@ == route,
    ensures
        r matches Some(p) && p <= i && indexes[p as int].of_ecosystem && indexes[p as int].route@ == route,
{
}

/// The page offers an index exactly where it is of this ecosystem and takes uploads.
pub proof fn the_page_offers_what_takes_uploads(indexes: Seq<OfferedIndex>, n: int)
    requires
        0 < n <= indexes.len(),
    ensures
        options(indexes, n) == options(indexes, n - 1) + (if indexes[n - 1].of_ecosystem && indexes[n - 1].uploads {
            option_text(indexes[n - 1])
        } else {
            Seq::empty()
        }),
        options(indexes, 0).len() == 0,
        holds_text(option_text(indexes[n - 1]), escaped(indexes[n - 1].name@)),
{
    let index = indexes[n - 1];
    let head = "<option value=\"/"@ + escaped(index.route@) + "/\">"@;
    let tail = " ("@ + escaped(index.route@) + ")</option>"@;
    assert(option_text(index) =~= head + escaped(index.name@) + tail);
    joined_texts_hold(head, escaped(index.name@), tail);
}

/// A page is given as it is and never kept; what is not there is not found, and what may not be read is refused.
pub proof fn browses_are_answered(outcome: BrowseOutcome)
    ensures
        ({
            let answer = browse_reply(outcome);
            &&& outcome matches BrowseOutcome::Page(body) ==> answer.status == 200 && answer.body == body@
                && answer.headers == seq![("content-type"@, "application/json"@), ("cache-control"@, "no-store"@)]
            &&& outcome is Missing ==> answer.status == 404
            &&& outcome matches BrowseOutcome::Denied(denial) ==> answer.status == (if denial is Unauthenticated {
                401u16
            } else {
                403u16
            })
            &&& outcome matches BrowseOutcome::Refused { content_type, body } ==> answer.status == 403 && answer.body
                == body@
            &&& outcome matches BrowseOutcome::Internal(message) ==> answer.status == 500 && answer.body == message@
        }),
{
}

/// A read that is granted and not held back is answered as it is; one that is not granted is refused, whoever asks.
pub proof fn reads_are_answered_where_granted(
    denial: Option<Denial>,
    answer: ReplyText,
    held: bool,
    authenticated: bool,
    ttl_secs: u64,
)
    ensures
        ({
            let r = dispatched(denial, answer, held, authenticated, ttl_secs);
            &&& denial is None && !held ==> r.status == answer.status && r.body == answer.body
            &&& denial is None && held ==> r.status == 404
            &&& denial == Some(Denial::Forbidden) ==> r.status == 403
            &&& denial == Some(Denial::Unauthenticated) ==> r.status == 401
        }),
        refused_read(Denial::Forbidden).status == 403,
        refused_read(Denial::Unauthenticated).status == 401,
{
}

} // verus!
