//! Serials: the watermarks of upstream responses, and validated changelog pages.
use vstd::prelude::*;

use crate::text::{decimal, decimal_text, signed_decimal, signed_decimal_text, text_eq};

verus! {

/// A serial and the ordered journal domain that assigned it.
#[derive(Debug)]
pub struct SerialStamp {
    pub domain: String,
    pub serial: u64,
}

/// Why an upstream response cannot satisfy a required serial watermark.
#[derive(Debug, Clone, Copy, PartialEq, Eq, Structural)]
pub enum UpstreamSerialError {
    Missing { required: u64 },
    Regressed { required: u64, received: u64 },
}

impl UpstreamSerialError {
    /// What an operator is told.
    pub fn message(&self) -> (r: String)
        ensures
            r@ == match *self {
                UpstreamSerialError::Missing { required } =>
                    "upstream response omitted the serial watermark; required at least "@ + decimal(required as nat),
                UpstreamSerialError::Regressed { required, received } => "upstream serial "@ + decimal(
                    received as nat,
                ) + " precedes required serial "@ + decimal(required as nat),
            },
    {
        match self {
            UpstreamSerialError::Missing { required } => {
                let mut out = "upstream response omitted the serial watermark; required at least ".to_owned();
                let number = decimal_text(*required);
                out.append(number.as_str());
                out
            },
            UpstreamSerialError::Regressed { required, received } => {
                let mut out = "upstream serial ".to_owned();
                let got = decimal_text(*received);
                out.append(got.as_str());
                out.append(" precedes required serial ");
                let wanted = decimal_text(*required);
                out.append(wanted.as_str());
                out
            },
        }
    }
}

/// Whether `r` is the verdict on a response serial where the cache requires one.
pub open spec fn is_serial_verdict(required: Option<u64>, received: Option<u64>, r: Result<Option<u64>, UpstreamSerialError>) -> bool {
    r == (match (required, received) {
        (Some(required), None) => Err(UpstreamSerialError::Missing { required }),
        (Some(required), Some(received)) => if received < required {
            Err(UpstreamSerialError::Regressed { required, received })
        } else {
            Ok(Some(received))
        },
        (None, received) => Ok(received),
    })
}

/// Require an upstream response to preserve or advance a cached serial watermark.
///
/// An unversioned cache accepts any response. Once the cache records a serial, a missing or lower
/// response serial may come from a stale CDN object and must not replace the cached page.
pub fn validate_upstream_serial(required: Option<u64>, received: Option<u64>) -> (r: Result<
    Option<u64>,
    UpstreamSerialError,
>)
    ensures
        is_serial_verdict(required, received, r),
{
    match (required, received) {
        (Some(required), None) => Err(UpstreamSerialError::Missing { required }),
        (Some(required), Some(received)) => {
            if received < required {
                Err(UpstreamSerialError::Regressed { required, received })
            } else {
                Ok(Some(received))
            }
        },
        (None, received) => Ok(received),
    }
}

/// The smallest serial of the first `n` stamps.
pub open spec fn lowest_serial(stamps: Seq<Option<SerialStamp>>, n: int) -> u64
    decreases n,
{
    if n <= 1 {
        (stamps[0]->0).serial
    } else {
        let low = lowest_serial(stamps, n - 1);
        if (stamps[n - 1]->0).serial < low {
            (stamps[n - 1]->0).serial
        } else {
            low
        }
    }
}

/// Whether there is a stamp at `i`, of the first stamp's domain.
pub open spec fn shares_domain(stamps: Seq<Option<SerialStamp>>, i: int) -> bool {
    stamps[i] is Some && (stamps[i]->0).domain@ == (stamps[0]->0).domain@
}

/// Whether there are stamps and all are there and of one domain.
pub open spec fn one_domain(stamps: Seq<Option<SerialStamp>>) -> bool {
    &&& stamps.len() > 0
    &&& stamps[0] is Some
    &&& forall|i: int| 0 <= i < stamps.len() ==> #[trigger] shares_domain(stamps, i)
}

/// Whether `r` is the watermark of every layer together.
pub open spec fn is_composed(stamps: Seq<Option<SerialStamp>>, r: Option<SerialStamp>) -> bool {
    match r {
        Some(stamp) => one_domain(stamps) && stamp.domain@ == (stamps[0]->0).domain@ && stamp.serial
            == lowest_serial(stamps, stamps.len() as int),
        None => !one_domain(stamps),
    }
}

/// Compose serial watermarks for every layer that contributed to one response: the lowest watermark of a
/// shared domain. Clients can treat that value as the newest serial present in every contributing layer.
/// Missing stamps, mixed domains, and an empty response have no safe serial.
pub fn compose_serial_watermarks(stamps: &Vec<Option<SerialStamp>>) -> (r: Option<SerialStamp>)
    ensures
        is_composed(stamps@, r),
{
    if stamps.len() == 0 {
        return None;
    }
    let first = match &stamps[0] {
        Some(first) => first,
        None => {
            return None;
        },
    };
    let mut serial: u64 = first.serial;
    let mut i: usize = 1;
    assert(shares_domain(stamps@, 0));
    while i < stamps.len()
        invariant
            1 <= i <= stamps@.len(),
            stamps@[0] == Some(*first),
            serial == lowest_serial(stamps@, i as int),
            forall|j: int| 0 <= j < i ==> #[trigger] shares_domain(stamps@, j),
        decreases stamps.len() - i,
    {
        match &stamps[i] {
            None => {
                assert(!shares_domain(stamps@, i as int));
                return None;
            },
            Some(stamp) => {
                if !text_eq(stamp.domain.as_str(), first.domain.as_str()) {
                    assert(!shares_domain(stamps@, i as int));
                    return None;
                }
                assert(shares_domain(stamps@, i as int));
                if stamp.serial < serial {
                    serial = stamp.serial;
                }
            },
        }
        i = i + 1;
    }
    Some(SerialStamp { domain: first.domain.clone(), serial })
}

/// A composed watermark is reached by every layer, and is one layer's own.
pub proof fn composed_watermark_is_reached_by_all(stamps: Seq<Option<SerialStamp>>, n: int)
    requires
        1 <= n <= stamps.len(),
    ensures
        forall|i: int| 0 <= i < n ==> lowest_serial(stamps, n) <= (#[trigger] stamps[i]->0).serial,
        exists|i: int| 0 <= i < n && lowest_serial(stamps, n) == (#[trigger] stamps[i]->0).serial,
    decreases n,
{
    if n > 1 {
        composed_watermark_is_reached_by_all(stamps, n - 1);
        let low = lowest_serial(stamps, n - 1);
        if (stamps[n - 1]->0).serial < low {
            assert(lowest_serial(stamps, n) == (stamps[n - 1]->0).serial);
        } else {
            let i = choose|i: int| 0 <= i < n - 1 && low == (#[trigger] stamps[i]->0).serial;
            assert(lowest_serial(stamps, n) == (stamps[i]->0).serial);
        }
    } else {
        assert(lowest_serial(stamps, n) == (stamps[0]->0).serial);
    }
}

// ---------------------------------------------------------------------------------------------
// Changelog pages
// ---------------------------------------------------------------------------------------------

/// One entry of the changelog.
#[derive(Debug)]
pub struct ChangelogEntry {
    pub project: String,
    pub version: Option<String>,
    pub timestamp: i64,
    pub action: String,
    pub serial: u64,
}

/// Why a changelog page cannot represent one ordered snapshot.
#[derive(Debug, Clone, Copy, PartialEq, Eq, Structural)]
pub enum ChangelogPageError {
    TooLarge { actual: usize, limit: usize },
    AtOrBeforeCursor { after: i64, serial: u64 },
    NotIncreasing { previous: u64, serial: u64 },
    BeyondSnapshot { current: u64, serial: u64 },
}

impl ChangelogPageError {
    /// What a client is told.
    pub fn message(&self) -> (r: String)
        ensures
            r@ == match *self {
                ChangelogPageError::TooLarge { actual, limit } => "changelog page has "@ + decimal(actual as nat)
                    + " entries; limit is "@ + decimal(limit as nat),
                ChangelogPageError::AtOrBeforeCursor { after, serial } => "changelog serial "@ + decimal(
                    serial as nat,
                ) + " is not after cursor "@ + signed_decimal(after as int),
                ChangelogPageError::NotIncreasing { previous, serial } => "changelog serial "@ + decimal(
                    serial as nat,
                ) + " does not follow "@ + decimal(previous as nat),
                ChangelogPageError::BeyondSnapshot { current, serial } => "changelog serial "@ + decimal(
                    serial as nat,
                ) + " exceeds snapshot "@ + decimal(current as nat),
            },
    {
        match self {
            ChangelogPageError::TooLarge { actual, limit } => {
                let mut out = "changelog page has ".to_owned();
                let n = decimal_text(*actual as u64);
                out.append(n.as_str());
                out.append(" entries; limit is ");
                let m = decimal_text(*limit as u64);
                out.append(m.as_str());
                out
            },
            ChangelogPageError::AtOrBeforeCursor { after, serial } => {
                let mut out = "changelog serial ".to_owned();
                let n = decimal_text(*serial);
                out.append(n.as_str());
                out.append(" is not after cursor ");
                let m = signed_decimal_text(*after);
                out.append(m.as_str());
                out
            },
            ChangelogPageError::NotIncreasing { previous, serial } => {
                let mut out = "changelog serial ".to_owned();
                let n = decimal_text(*serial);
                out.append(n.as_str());
                out.append(" does not follow ");
                let m = decimal_text(*previous);
                out.append(m.as_str());
                out
            },
            ChangelogPageError::BeyondSnapshot { current, serial } => {
                let mut out = "changelog serial ".to_owned();
                let n = decimal_text(*serial);
                out.append(n.as_str());
                out.append(" exceeds snapshot ");
                let m = decimal_text(*current);
                out.append(m.as_str());
                out
            },
        }
    }
}

/// What is wrong with the entry at `i`: it is newer than the snapshot, at or before the cursor, or does
/// not follow the entry before it, in that order. A negative cursor precedes every serial.
pub open spec fn entry_error(after: i64, current: u64, entries: Seq<ChangelogEntry>, i: int) -> Option<
    ChangelogPageError,
> {
    let serial = entries[i].serial;
    if serial > current {
        Some(ChangelogPageError::BeyondSnapshot { current, serial })
    } else if after >= 0 && serial <= after {
        Some(ChangelogPageError::AtOrBeforeCursor { after, serial })
    } else if i > 0 && serial <= entries[i - 1].serial {
        Some(ChangelogPageError::NotIncreasing { previous: entries[i - 1].serial, serial })
    } else {
        None
    }
}

/// The error of the first of the first `n` entries that has one.
pub open spec fn first_entry_error(after: i64, current: u64, entries: Seq<ChangelogEntry>, n: int) -> Option<
    ChangelogPageError,
>
    decreases n,
{
    if n <= 0 {
        None
    } else {
        match first_entry_error(after, current, entries, n - 1) {
            Some(error) => Some(error),
            None => entry_error(after, current, entries, n - 1),
        }
    }
}

/// Why the entries make no page.
pub open spec fn page_error(after: i64, current: u64, entries: Seq<ChangelogEntry>, limit: usize) -> Option<
    ChangelogPageError,
> {
    if entries.len() > limit {
        Some(ChangelogPageError::TooLarge { actual: entries.len() as usize, limit })
    } else {
        first_entry_error(after, current, entries, entries.len() as int)
    }
}

/// Whether the entries are strictly ordered, behind the cursor, and no newer than the snapshot.
pub open spec fn ordered_page(after: i64, current: u64, entries: Seq<ChangelogEntry>) -> bool {
    &&& forall|i: int| 0 <= i < entries.len() ==> after < (#[trigger] entries[i]).serial <= current
    &&& forall|i: int, j: int|
        0 <= i < j < entries.len() ==> (#[trigger] entries[i]).serial < (#[trigger] entries[j]).serial
}

/// Entries without an error are an ordered page.
pub proof fn valid_entries_are_ordered(after: i64, current: u64, entries: Seq<ChangelogEntry>, n: int)
    requires
        0 <= n <= entries.len(),
        first_entry_error(after, current, entries, n) is None,
    ensures
        ordered_page(after, current, entries.take(n)),
    decreases n,
{
    if n > 0 {
        valid_entries_are_ordered(after, current, entries, n - 1);
        let fewer = entries.take(n - 1);
        let all = entries.take(n);
        assert(entry_error(after, current, entries, n - 1) is None);
        assert forall|i: int| 0 <= i < all.len() implies after < (#[trigger] all[i]).serial <= current by {
            if i < n - 1 {
                assert(fewer[i] == all[i]);
            }
        }
        assert forall|i: int, j: int| 0 <= i < j < all.len() implies (#[trigger] all[i]).serial < (
        #[trigger] all[j]).serial by {
            assert(fewer[i] == all[i]);
            if j < n - 1 {
                assert(fewer[j] == all[j]);
            } else if i < n - 2 {
                assert(fewer[n - 2] == all[n - 2]);
                assert(fewer[i].serial < fewer[n - 2].serial);
            }
        }
    }
}

/// A validated snapshot page of the changelog.
pub struct ChangelogPage {
    after: i64,
    current_serial: u64,
    entries: Vec<ChangelogEntry>,
}

impl ChangelogPage {
    pub closed spec fn cursor(self) -> i64 {
        self.after
    }

    pub closed spec fn snapshot(self) -> u64 {
        self.current_serial
    }

    pub closed spec fn list(self) -> Seq<ChangelogEntry> {
        self.entries@
    }

    #[verifier::type_invariant]
    closed spec fn is_ordered(self) -> bool {
        ordered_page(self.after, self.current_serial, self.entries@)
    }

    /// Validate entries read after `after` from the snapshot at `current_serial`. A page holds at most
    /// `limit` entries.
    pub fn new(after: i64, current_serial: u64, entries: Vec<ChangelogEntry>, limit: usize) -> (r: Result<
        Self,
        ChangelogPageError,
    >)
        ensures
            match r {
                Ok(page) => page_error(after, current_serial, entries@, limit) is None && page.cursor() == after
                    && page.snapshot() == current_serial && page.list() == entries@,
                Err(error) => page_error(after, current_serial, entries@, limit) == Some(error),
            },
    {
        if entries.len() > limit {
            return Err(ChangelogPageError::TooLarge { actual: entries.len(), limit });
        }
        let mut i: usize = 0;
        while i < entries.len()
            invariant
                i <= entries@.len(),
                entries@.len() <= limit,
                first_entry_error(after, current_serial, entries@, i as int) is None,
            decreases entries.len() - i,
        {
            let serial: u64 = entries[i].serial;
            let mut found: Option<ChangelogPageError> = None;
            if serial > current_serial {
                found = Some(ChangelogPageError::BeyondSnapshot { current: current_serial, serial });
            } else if after >= 0 && serial <= after as u64 {
                found = Some(ChangelogPageError::AtOrBeforeCursor { after, serial });
            } else if i > 0 && serial <= entries[i - 1].serial {
                found = Some(ChangelogPageError::NotIncreasing { previous: entries[i - 1].serial, serial });
            }
            assert(found == entry_error(after, current_serial, entries@, i as int));
            match found {
                Some(error) => {
                    proof {
                        first_error_stays(after, current_serial, entries@, i + 1, entries@.len() as int);
                    }
                    return Err(error);
                },
                None => {},
            }
            i = i + 1;
        }
        proof {
            valid_entries_are_ordered(after, current_serial, entries@, entries@.len() as int);
            assert(entries@.take(entries@.len() as int) =~= entries@);
        }
        Ok(ChangelogPage { after, current_serial, entries })
    }

    /// The serial of the snapshot.
    pub fn current_serial(&self) -> (r: u64)
        ensures
            r == self.snapshot(),
    {
        self.current_serial
    }

    /// The entries. They are strictly ordered, behind the cursor, and no newer than the snapshot.
    pub fn entries(&self) -> (r: &[ChangelogEntry])
        ensures
            r@ == self.list(),
            ordered_page(self.cursor(), self.snapshot(), r@),
    {
        proof {
            use_type_invariant(self);
        }
        self.entries.as_slice()
    }

    /// The next exclusive cursor: the last returned entry, or the greater of the request cursor and
    /// snapshot serial for an empty page. It never falls behind the cursor of the page, nor behind an
    /// entry of it.
    pub fn resume_serial(&self) -> (r: u64)
        ensures
            self.list().len() > 0 ==> r == self.list().last().serial,
            self.list().len() == 0 ==> r == (if self.cursor() > self.snapshot() {
                self.cursor() as u64
            } else {
                self.snapshot()
            }),
            r >= self.cursor(),
            forall|i: int| 0 <= i < self.list().len() ==> (#[trigger] self.list()[i]).serial <= r,
    {
        proof {
            use_type_invariant(self);
        }
        let n: usize = self.entries.len();
        if n > 0 {
            self.entries[n - 1].serial
        } else if self.after >= 0 && self.after as u64 > self.current_serial {
            self.after as u64
        } else {
            self.current_serial
        }
    }
}

proof fn first_error_stays(after: i64, current: u64, entries: Seq<ChangelogEntry>, n: int, m: int)
    requires
        0 <= n <= m,
        first_entry_error(after, current, entries, n) is Some,
    ensures
        first_entry_error(after, current, entries, m) == first_entry_error(after, current, entries, n),
    decreases m,
{
    if n < m {
        first_error_stays(after, current, entries, n, m - 1);
    }
}

} // verus!
