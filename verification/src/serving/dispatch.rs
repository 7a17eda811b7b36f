//! The last steps of every `GET`: who may read, what a replica holds back, and how long an answer is kept.
use vstd::prelude::*;

use crate::serving::access::{read_denial_response, Denial};
use crate::serving::reply::{challenge, missing, not_found, plain, Reply, ReplyText, FORBIDDEN};
use crate::serving::route::{revocation_cache_policy, revocation_policy};

verus! {

/// What a refused read is told.
pub open spec fn refused_read(denial: Denial) -> ReplyText {
    if denial is Forbidden {
        plain(FORBIDDEN, "credential does not grant this read"@)
    } else {
        challenge()
    }
}

/// What a `GET` is answered: a read that is not granted is refused, a page that a replica may not show yet is
/// not found, and every answer carries the cache policy that revocations need.
pub open spec fn dispatched(
    denial: Option<Denial>,
    answer: ReplyText,
    held: bool,
    authenticated: bool,
    ttl_secs: u64,
) -> ReplyText {
    let base = match denial {
        Some(denial) => refused_read(denial),
        None => if held {
            missing()
        } else {
            answer
        },
    };
    base.replacing(
        "cache-control"@,
        revocation_policy(base.status, base.header("cache-control"@), authenticated, ttl_secs),
    )
}

/// Finish a `GET`. `held` says whether a replica holds the page back.
pub fn pypi_dispatch_get(
    denial: Option<Denial>,
    answer: Reply,
    held: bool,
    authenticated: bool,
    ttl_secs: u64,
) -> (r: Reply)
    ensures
        r@ == dispatched(denial, answer@, held, authenticated, ttl_secs),
{
    let base = match denial {
        Some(denial) => read_denial_response(denial),
        None => {
            if held {
                not_found()
            } else {
                answer
            }
        },
    };
    let policy = revocation_cache_policy(base.status, base.header("cache-control"), authenticated, ttl_secs);
    base.replacing("cache-control", policy.as_str())
}

/// A refused read is answered the same whether or not the resource exists, whatever it holds.
pub proof fn refused_reads_tell_nothing(
    denial: Denial,
    one: ReplyText,
    other: ReplyText,
    held: bool,
    authenticated: bool,
    ttl_secs: u64,
)
    ensures
        dispatched(Some(denial), one, held, authenticated, ttl_secs) == dispatched(
            Some(denial),
            other,
            !held,
            authenticated,
            ttl_secs,
        ),
{
}

} // verus!
