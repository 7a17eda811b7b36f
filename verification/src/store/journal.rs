//! The append-only journal: the entries that mutations write, and the changelog pages read from it.
use vstd::prelude::*;
use vstd::utf8::encode_utf8;

use super::summary::{json_opt_string, opt_string_json};
use crate::outside::{json_fields, json_object_fields, json_string, json_string_text};
use crate::serial::{page_error, ChangelogEntry, ChangelogPage, ChangelogPageError};
use crate::text::{
    bytes_clone, opt_as_str, opt_str, opt_text, signed_decimal, signed_decimal_text, text_eq, texts,
};

verus! {

/// One recorded mutation: `serial` orders entries; the rest names what changed.
///
/// The journal is shared, so an entry names its vocabulary with a tag and a reader takes only the records
/// that carry it.
#[derive(Debug)]
pub struct JournalEntry {
    pub serial: u64,
    pub submitted_at_unix: i64,
    pub action: String,
    pub project: String,
    pub version: Option<String>,
    pub filename: Option<String>,
    pub python: Option<String>,
}

/// The member that marks a record of this vocabulary.
pub const PYPI_OP_TAG: &'static str = "pypi-op";

/// What a journal entry is written as. The serial is a placeholder: the store allocates the real one.
pub open spec fn json_journal(
    action: Seq<char>,
    project: Seq<char>,
    version: Option<Seq<char>>,
    filename: Option<Seq<char>>,
    python: Option<Seq<char>>,
    submitted_at_unix: i64,
) -> Seq<char> {
    "{\"pypi-op\":\"journal-entry\",\"serial\":0,\"submitted_at_unix\":"@ + signed_decimal(submitted_at_unix as int)
        + ",\"action\":"@ + json_string(action) + ",\"project\":"@ + json_string(project) + ",\"version\":"@
        + json_opt_string(version) + ",\"filename\":"@ + json_opt_string(filename) + ",\"python\":"@ + json_opt_string(
        python,
    ) + "}"@
}

/// Write a journal entry.
pub fn journal_bytes(
    action: &str,
    project: &str,
    version: Option<&str>,
    filename: Option<&str>,
    python: Option<&str>,
    submitted_at_unix: i64,
) -> (r: Vec<u8>)
    ensures
        r@ == encode_utf8(
            json_journal(
                action@,
                project@,
                opt_str(version),
                opt_str(filename),
                opt_str(python),
                submitted_at_unix,
            ),
        ),
{
    let mut out = "{\"pypi-op\":\"journal-entry\",\"serial\":0,\"submitted_at_unix\":".to_owned();
    let submitted = signed_decimal_text(submitted_at_unix);
    out.append(submitted.as_str());
    out.append(",\"action\":");
    let action = json_string_text(action);
    out.append(action.as_str());
    out.append(",\"project\":");
    let project = json_string_text(project);
    out.append(project.as_str());
    out.append(",\"version\":");
    let version = opt_string_json(version);
    out.append(version.as_str());
    out.append(",\"filename\":");
    let filename = opt_string_json(filename);
    out.append(filename.as_str());
    out.append(",\"python\":");
    let python = opt_string_json(python);
    out.append(python.as_str());
    out.append("}");
    bytes_clone(out.as_str().as_bytes())
}

/// What a journal record turned out to be.
pub enum DecodedRecord {
    /// Another vocabulary on the shared journal wrote it.
    Foreign,
    /// An entry of this vocabulary.
    Entry(JournalEntry),
    /// It claims this vocabulary, or none, and does not describe an entry.
    Damaged,
}

/// Whether `r` is what a journal record with these fields turned out to be.
pub open spec fn is_decoded(fields: Option<Vec<String>>, parsed: Option<JournalEntry>, r: DecodedRecord) -> bool {
    r == (match fields {
        None => DecodedRecord::Damaged,
        Some(fields) => if !texts(fields@).contains(PYPI_OP_TAG@) {
            DecodedRecord::Foreign
        } else {
            match parsed {
                Some(entry) => DecodedRecord::Entry(entry),
                None => DecodedRecord::Damaged,
            }
        },
    })
}

/// Whether `r` is what the journal record `payload` turned out to be.
pub open spec fn is_decoded_raw(payload: Seq<u8>, parsed: Option<JournalEntry>, r: DecodedRecord) -> bool {
    r == (match json_fields(payload) {
        None => DecodedRecord::Damaged,
        Some(fields) => if !fields.contains(PYPI_OP_TAG@) {
            DecodedRecord::Foreign
        } else {
            match parsed {
                Some(entry) => DecodedRecord::Entry(entry),
                None => DecodedRecord::Damaged,
            }
        },
    })
}

impl JournalEntry {
    /// Judge a journal record: `fields` are the names of its fields, when it is an object at all; `parsed` is
    /// the entry it describes, when it describes one. The tag decides, and not whether an entry is described:
    /// passing over a foreign record is correct, while passing over one that claims this vocabulary and cannot
    /// be read would drop a mutation that a mirror needs.
    pub fn decode(fields: &Option<Vec<String>>, parsed: Option<JournalEntry>) -> (r: DecodedRecord)
        ensures
            is_decoded(*fields, parsed, r),
    {
        let list = match fields {
            Some(list) => list,
            None => {
                return DecodedRecord::Damaged;
            },
        };
        let ghost names = texts(list@);
        let mut i: usize = 0;
        while i < list.len()
            invariant
                i <= list@.len(),
                *fields == Some(*list),
                names == texts(list@),
                names.len() == list@.len(),
                forall|j: int| 0 <= j < i ==> names[j] != PYPI_OP_TAG@,
            decreases list.len() - i,
        {
            assert(names[i as int] == list@[i as int]@);
            if text_eq(list[i].as_str(), PYPI_OP_TAG) {
                assert(names.contains(PYPI_OP_TAG@));
                return match parsed {
                    Some(entry) => DecodedRecord::Entry(entry),
                    None => DecodedRecord::Damaged,
                };
            }
            i = i + 1;
        }
        DecodedRecord::Foreign
    }

    /// Judge the journal record `payload`: `parsed` is the entry it describes, when it describes one.
    pub fn decode_raw(payload: &[u8], parsed: Option<JournalEntry>) -> (r: DecodedRecord)
        ensures
            is_decoded_raw(payload@, parsed, r),
    {
        let fields = json_object_fields(payload);
        JournalEntry::decode(&fields, parsed)
    }
}

/// One record of the journal: the serial that the store gave it, and what it holds.
pub struct JournalRecord {
    pub serial: u64,
    pub decoded: DecodedRecord,
}

/// Decoded journal entries and the head serial from one storage snapshot.
#[derive(Debug)]
pub struct JournalSnapshot {
    pub current_serial: u64,
    pub entries: Vec<JournalEntry>,
}

/// A damaged record was met. Passing over a foreign record is correct, while passing over a record of
/// this vocabulary that cannot be read would drop a mutation a mirror needs and never mention it.
#[derive(Debug, Clone, Copy, PartialEq, Eq, Structural)]
pub struct DamagedRecord;

/// The positions of the entries among the first `n` records, and at most `limit` of them. Nothing when a
/// damaged record is met before the limit is.
pub open spec fn taken(records: Seq<JournalRecord>, limit: usize, n: int) -> Option<Seq<int>>
    decreases n,
{
    if n <= 0 {
        Some(Seq::empty())
    } else {
        match taken(records, limit, n - 1) {
            None => None,
            Some(positions) => if positions.len() >= limit {
                Some(positions)
            } else {
                match records[n - 1].decoded {
                    DecodedRecord::Foreign => Some(positions),
                    DecodedRecord::Entry(_) => Some(positions.push(n - 1)),
                    DecodedRecord::Damaged => None,
                }
            },
        }
    }
}

/// Whether `entry` is the entry of `record`, under the serial that the store gave it.
pub open spec fn stamped(record: JournalRecord, entry: JournalEntry) -> bool {
    match record.decoded {
        DecodedRecord::Entry(e) => {
            &&& entry.serial == record.serial
            &&& entry.submitted_at_unix == e.submitted_at_unix
            &&& entry.action@ == e.action@
            &&& entry.project@ == e.project@
            &&& opt_text(entry.version) == opt_text(e.version)
            &&& opt_text(entry.filename) == opt_text(e.filename)
            &&& opt_text(entry.python) == opt_text(e.python)
        },
        _ => false,
    }
}

/// Whether `r` is what is taken from the records behind a cursor.
pub open spec fn is_snapshot(
    records: Seq<JournalRecord>,
    current_serial: u64,
    limit: usize,
    r: Result<JournalSnapshot, DamagedRecord>,
) -> bool {
    match taken(records, limit, records.len() as int) {
        None => r is Err,
        Some(positions) => r matches Ok(snapshot) && snapshot.current_serial == current_serial
            && snapshot.entries@.len() == positions.len() && forall|i: int|
            0 <= i < positions.len() ==> stamped(records[positions[i]], #[trigger] snapshot.entries@[i]),
    }
}

/// Take at most `limit` entries from the records behind a cursor, with the head serial from the same
/// snapshot.
///
/// `limit` bounds the entries returned rather than the records examined, so the walk runs past the
/// records other vocabularies wrote instead of spending a page on them. A window that bounded records
/// could hold nothing but foreign entries, and a client, which resumes from the highest serial a page
/// returned, would ask for that same window forever.
pub fn read_journal_entries(records: &Vec<JournalRecord>, current_serial: u64, limit: usize) -> (r: Result<
    JournalSnapshot,
    DamagedRecord,
>)
    ensures
        is_snapshot(records@, current_serial, limit, r),
{
    let mut entries: Vec<JournalEntry> = Vec::new();
    let mut i: usize = 0;
    while i < records.len()
        invariant
            i <= records@.len(),
            taken(records@, limit, i as int) is Some,
            entries@.len() == taken(records@, limit, i as int)->0.len(),
            forall|j: int|
                0 <= j < entries@.len() ==> stamped(
                    records@[taken(records@, limit, i as int)->0[j]],
                    #[trigger] entries@[j],
                ),
        decreases records.len() - i,
    {
        if entries.len() < limit {
            let record = &records[i];
            match &record.decoded {
                DecodedRecord::Foreign => {},
                DecodedRecord::Entry(entry) => {
                    let copy = JournalEntry {
                        serial: record.serial,
                        submitted_at_unix: entry.submitted_at_unix,
                        action: entry.action.clone(),
                        project: entry.project.clone(),
                        version: crate::text::opt_clone(&entry.version),
                        filename: crate::text::opt_clone(&entry.filename),
                        python: crate::text::opt_clone(&entry.python),
                    };
                    entries.push(copy);
                },
                DecodedRecord::Damaged => {
                    proof {
                        damage_stays(records@, limit, i + 1, records@.len() as int);
                    }
                    return Err(DamagedRecord);
                },
            }
        }
        i = i + 1;
    }
    Ok(JournalSnapshot { current_serial, entries })
}

proof fn damage_stays(records: Seq<JournalRecord>, limit: usize, n: int, m: int)
    requires
        0 <= n <= m,
        taken(records, limit, n) is None,
    ensures
        taken(records, limit, m) is None,
    decreases m,
{
    if n < m {
        damage_stays(records, limit, n, m - 1);
    }
}

/// A read with room for an entry takes the first entry behind its cursor, however many foreign records
/// stand before it: a client that resumes from the highest serial of a page always moves on.
pub proof fn foreign_records_do_not_fill_a_page(records: Seq<JournalRecord>, limit: usize, n: int, i: int)
    requires
        limit > 0,
        0 <= i < n <= records.len(),
        records[i].decoded is Entry,
        forall|j: int| 0 <= j < i ==> (#[trigger] records[j]).decoded is Foreign,
        taken(records, limit, n) is Some,
    ensures
        taken(records, limit, n)->0.len() > 0,
        taken(records, limit, n)->0[0] == i,
    decreases n,
{
    if n - 1 > i {
        if taken(records, limit, n - 1) is None {
            damage_stays(records, limit, n - 1, n);
        }
        foreign_records_do_not_fill_a_page(records, limit, n - 1, i);
    } else {
        only_foreign(records, limit, i);
    }
}

proof fn only_foreign(records: Seq<JournalRecord>, limit: usize, n: int)
    requires
        0 <= n <= records.len(),
        forall|j: int| 0 <= j < n ==> (#[trigger] records[j]).decoded is Foreign,
    ensures
        taken(records, limit, n) == Some(Seq::<int>::empty()),
    decreases n,
{
    if n > 0 {
        only_foreign(records, limit, n - 1);
    }
}

/// The action that a changelog names.
pub open spec fn changelog_action(action: Seq<char>, filename: Option<Seq<char>>) -> Seq<char> {
    let verb = if action == "add-file"@ || action == "promote"@ {
        "add file"@
    } else if action == "delete-file"@ {
        "remove file"@
    } else {
        action
    };
    match filename {
        Some(filename) => verb + " "@ + filename,
        None => verb,
    }
}

/// The action that a changelog names.
pub fn warehouse_action(action: &str, filename: Option<&str>) -> (r: String)
    ensures
        r@ == changelog_action(action@, opt_str(filename)),
{
    let verb = if text_eq(action, "add-file") || text_eq(action, "promote") {
        "add file"
    } else if text_eq(action, "delete-file") {
        "remove file"
    } else {
        action
    };
    let mut out = verb.to_owned();
    match filename {
        Some(filename) => {
            out.append(" ");
            out.append(filename);
        },
        None => {},
    }
    out
}

/// Whether `listed` is the changelog entry of `entry`.
pub open spec fn changelog_entry(entry: JournalEntry, listed: ChangelogEntry) -> bool {
    &&& listed.project == entry.project
    &&& listed.version == entry.version
    &&& listed.timestamp == entry.submitted_at_unix
    &&& listed.action@ == changelog_action(entry.action@, opt_text(entry.filename))
    &&& listed.serial == entry.serial
}

/// The cursor from which a changelog request reads: a negative one reads from the start.
pub open spec fn cursor_behind(after: i64) -> u64 {
    if after >= 0 {
        after as u64
    } else {
        0
    }
}

/// The cursor from which a changelog request reads: a negative one reads from the start.
pub fn journal_cursor(after: i64) -> (r: u64)
    ensures
        r == cursor_behind(after),
{
    if after >= 0 {
        after as u64
    } else {
        0
    }
}

/// Whether `r` is the changelog page of a snapshot.
pub open spec fn is_changelog(
    after: i64,
    snapshot: JournalSnapshot,
    limit: usize,
    r: Result<ChangelogPage, ChangelogPageError>,
) -> bool {
    exists|list: Seq<ChangelogEntry>|
        #![trigger list.len()]
        {
            &&& list.len() == snapshot.entries@.len()
            &&& forall|i: int| 0 <= i < list.len() ==> changelog_entry(snapshot.entries@[i], #[trigger] list[i])
            &&& match r {
                Ok(page) => page_error(after, snapshot.current_serial, list, limit) is None && page.cursor()
                    == after && page.snapshot() == snapshot.current_serial && page.list() == list,
                Err(error) => page_error(after, snapshot.current_serial, list, limit) == Some(error),
            }
        }
}

/// Turn a snapshot read behind `after` into a changelog page.
pub fn read_changelog_page(after: i64, snapshot: JournalSnapshot, limit: usize) -> (r: Result<
    ChangelogPage,
    ChangelogPageError,
>)
    ensures
        is_changelog(after, snapshot, limit, r),
{
    let ghost all = snapshot.entries@;
    let current: u64 = snapshot.current_serial;
    let mut entries: Vec<ChangelogEntry> = Vec::new();
    for entry in it: snapshot.entries
        invariant
            it.seq() == all,
            entries@.len() == it.index(),
            forall|i: int| 0 <= i < it.index() ==> changelog_entry(all[i], #[trigger] entries@[i]),
    {
        let action = warehouse_action(entry.action.as_str(), opt_as_str(&entry.filename));
        entries.push(
            ChangelogEntry {
                project: entry.project,
                version: entry.version,
                timestamp: entry.submitted_at_unix,
                action,
                serial: entry.serial,
            },
        );
    }
    let ghost list = entries@;
    assert(list.len() == all.len());
    ChangelogPage::new(after, current, entries, limit)
}

} // verus!
