//! The reversible per-file override an operator records over a file served from a read-only layer.
use vstd::prelude::*;

use crate::outside::{json_fields, json_object_fields};
use crate::simple::file::{Yanked, YankedText};
use crate::simple::json::{json_bool, json_bool_text, json_yanked, yanked_json};
use crate::store::values::{MetaError, MetaErrorText};
use crate::text::{opt_str, opt_text, text_eq, texts};

verus! {

/// An administrative hide and a yank are independent facts about the same upstream file.
///
/// Each gets its own field in one record. A delete moves only `hidden` and a restore moves it back,
/// which leaves a yank an installer already honoured in place across the round trip; a yank moves only
/// `yanked`, which leaves a hidden file hidden.
pub struct FileOverride {
    /// Whether an administrative delete withdrew the file from every served page.
    pub hidden: bool,
    /// The yank state the operator imposed. [`Yanked::No`] means that the upstream file's own yank state
    /// is served unchanged.
    pub yanked: Yanked,
}

/// An override, its text seen as characters.
pub struct OverrideText {
    pub hidden: bool,
    pub yanked: YankedText,
}

/// What a stored record decodes to.
pub enum DecodedOverride {
    /// An override.
    Record(FileOverride),
    /// An override that carries a field which is not known here, as a newer build writes it.
    Newer(String),
    /// Nothing that can be read.
    Damaged,
}

/// What a stored record decodes to, its text seen as characters.
pub enum DecodedText {
    Record(OverrideText),
    Newer(Seq<char>),
    Damaged,
}

impl DecodedOverride {
    pub open spec fn view(self) -> DecodedText {
        match self {
            DecodedOverride::Record(record) => DecodedText::Record(record@),
            DecodedOverride::Newer(field) => DecodedText::Newer(field@),
            DecodedOverride::Damaged => DecodedText::Damaged,
        }
    }
}

impl DecodedText {
    /// The override that the record at `key` holds. A newer record and a damaged one call for opposite
    /// actions, to upgrade or to repair the row, so they are not one error.
    pub open spec fn read(self, key: Seq<char>) -> Result<OverrideText, MetaErrorText> {
        match self {
            DecodedText::Record(record) => Ok(record),
            DecodedText::Newer(field) => Err(MetaErrorText::Schema { key, field }),
            DecodedText::Damaged => Err(MetaErrorText::Malformed { key }),
        }
    }
}

/// What a record decodes to where one was decoded.
pub open spec fn opt_decoded(decoded: Option<&DecodedOverride>) -> DecodedText {
    match decoded {
        Some(decoded) => decoded@,
        None => DecodedText::Damaged,
    }
}

/// What the record of `name` decodes to.
pub open spec fn decoded_at(decoded: Map<Seq<char>, DecodedOverride>, name: Seq<char>) -> DecodedText {
    if decoded.contains_key(name) {
        decoded[name]@
    } else {
        DecodedText::Damaged
    }
}

/// The override that the record at `key` holds.
pub fn read_override(key: &str, decoded: Option<&DecodedOverride>) -> (r: Result<FileOverride, MetaError>)
    ensures
        match opt_decoded(decoded).read(key@) {
            Ok(record) => r matches Ok(found) && found@ == record,
            Err(error) => r matches Err(e) && e@ == error,
        },
{
    match decoded {
        Some(DecodedOverride::Record(record)) => Ok(
            FileOverride { hidden: record.hidden, yanked: record.yanked.copied() },
        ),
        Some(DecodedOverride::Newer(field)) => Err(
            MetaError::DriverRecordSchema { key: key.to_owned(), unknown: field.clone() },
        ),
        Some(DecodedOverride::Damaged) | None => Err(MetaError::DriverRecordMalformed { key: key.to_owned() }),
    }
}

/// Whether a field of a record is one that an override is written with.
pub open spec fn known_field(field: Seq<char>) -> bool {
    field == "hidden"@ || field == "yanked"@
}

/// The first field that a record carries and an override is not written with.
pub open spec fn first_unknown(fields: Seq<Seq<char>>) -> Option<Seq<char>>
    decreases fields.len(),
{
    if fields.len() == 0 {
        None
    } else if !known_field(fields[0]) {
        Some(fields[0])
    } else {
        first_unknown(fields.skip(1))
    }
}

fn unknown_field(fields: &Vec<String>) -> (r: Option<String>)
    ensures
        opt_text(r) == first_unknown(texts(fields@)),
{
    let ghost all = texts(fields@);
    let mut i: usize = 0;
    assert(all.skip(0) =~= all);
    while i < fields.len()
        invariant
            i <= fields@.len(),
            all == texts(fields@),
            all.len() == fields@.len(),
            first_unknown(all) == first_unknown(all.skip(i as int)),
        decreases fields.len() - i,
    {
        let field = fields[i].as_str();
        assert(all.skip(i as int)[0] == field@);
        assert(all.skip(i as int).skip(1) =~= all.skip(i + 1));
        if !text_eq(field, "hidden") && !text_eq(field, "yanked") {
            return Some(field.to_owned());
        }
        i = i + 1;
    }
    None
}

/// Whether `r` is what a stored record with these fields turned out to be.
pub open spec fn is_judged(parsed: Option<FileOverride>, fields: Option<Vec<String>>, r: DecodedOverride) -> bool {
    r@ == (match parsed {
        Some(record) => DecodedText::Record(record@),
        None => match fields {
            Some(fields) => match first_unknown(texts(fields@)) {
                Some(field) => DecodedText::Newer(field),
                None => DecodedText::Damaged,
            },
            None => DecodedText::Damaged,
        },
    })
}

impl FileOverride {
    /// Judge a stored record: `parsed` is the override it describes, when it describes one; `fields` are the
    /// names of its fields, in order, when it is an object at all.
    pub fn decode(parsed: Option<FileOverride>, fields: &Option<Vec<String>>) -> (r: DecodedOverride)
        ensures
            is_judged(parsed, *fields, r),
    {
        match parsed {
            Some(record) => DecodedOverride::Record(record),
            None => match fields {
                Some(fields) => match unknown_field(fields) {
                    Some(field) => DecodedOverride::Newer(field),
                    None => DecodedOverride::Damaged,
                },
                None => DecodedOverride::Damaged,
            },
        }
    }
}

/// Whether `r` is what the stored record `raw` turned out to be.
pub open spec fn is_judged_raw(parsed: Option<FileOverride>, raw: Seq<u8>, r: DecodedOverride) -> bool {
    r@ == (match parsed {
        Some(record) => DecodedText::Record(record@),
        None => match json_fields(raw) {
            Some(fields) => match first_unknown(fields) {
                Some(field) => DecodedText::Newer(field),
                None => DecodedText::Damaged,
            },
            None => DecodedText::Damaged,
        },
    })
}

impl FileOverride {
    /// Judge the stored record `raw`: `parsed` is the override it describes, when it describes one.
    pub fn decode_raw(parsed: Option<FileOverride>, raw: &[u8]) -> (r: DecodedOverride)
        ensures
            is_judged_raw(parsed, raw@, r),
    {
        let fields = json_object_fields(raw);
        FileOverride::decode(parsed, &fields)
    }
}

impl Default for FileOverride {
    fn default() -> (r: Self)
        ensures
            !r.hidden,
            r.yanked == Yanked::No,
    {
        FileOverride { hidden: false, yanked: Yanked::No }
    }
}

impl FileOverride {
    pub open spec fn view(self) -> OverrideText {
        OverrideText { hidden: self.hidden, yanked: self.yanked@ }
    }

    /// Whether the record imposes nothing, in which case the key is removed rather than stored.
    pub fn is_empty(&self) -> (r: bool)
        ensures
            r == (!self.hidden && self.yanked is No),
    {
        !self.hidden && matches!(self.yanked, Yanked::No)
    }

    /// The stored form of the record.
    pub fn encode(&self) -> (r: String)
        ensures
            r@ == json_override(self@),
    {
        let mut out = "{\"hidden\":".to_owned();
        out.append(json_bool_text(self.hidden));
        out.append(",\"yanked\":");
        let yanked = yanked_json(&self.yanked);
        out.append(yanked.as_str());
        out.append("}");
        out
    }
}

/// An override as a JSON object.
pub open spec fn json_override(record: OverrideText) -> Seq<char> {
    "{\"hidden\":"@ + json_bool(record.hidden) + ",\"yanked\":"@ + json_yanked(record.yanked) + "}"@
}

/// The single-field change a delete, restore, yank, or unyank applies to a file's override record.
pub enum OverrideMutation<'a> {
    Hidden(bool),
    Yanked(&'a Yanked),
}

/// A change, its text seen as characters.
pub enum MutationText {
    Hidden(bool),
    Yanked(YankedText),
}

impl MutationText {
    /// The record the change leaves. It moves one field and carries the other across.
    pub open spec fn applied(self, record: OverrideText) -> OverrideText {
        match self {
            MutationText::Hidden(hidden) => OverrideText { hidden, ..record },
            MutationText::Yanked(yanked) => OverrideText { yanked, ..record },
        }
    }

    /// The action a replica replays: nothing when the record already holds the value.
    pub open spec fn action(self, record: OverrideText) -> Option<Seq<char>> {
        if self.applied(record) == record {
            None
        } else {
            match self {
                MutationText::Hidden(true) => Some("hide"@),
                MutationText::Hidden(false) => Some("restore"@),
                MutationText::Yanked(YankedText::No) => Some("unyank"@),
                MutationText::Yanked(_) => Some("yank"@),
            }
        }
    }
}

impl<'a> OverrideMutation<'a> {
    pub open spec fn view(self) -> MutationText {
        match self {
            OverrideMutation::Hidden(hidden) => MutationText::Hidden(hidden),
            OverrideMutation::Yanked(yanked) => MutationText::Yanked(yanked@),
        }
    }

    /// Apply the change to `record`, returning the journal action a replica replays when the record
    /// actually moved and nothing when it already held the requested value.
    pub fn apply(&self, record: &mut FileOverride) -> (r: Option<&'static str>)
        ensures
            final(record)@ == self@.applied(old(record)@),
            opt_str(r) == self@.action(old(record)@),
    {
        match self {
            OverrideMutation::Hidden(hidden) => {
                if record.hidden == *hidden {
                    return None;
                }
                record.hidden = *hidden;
                Some(if *hidden {
                    "hide"
                } else {
                    "restore"
                })
            },
            OverrideMutation::Yanked(yanked) => {
                if record.yanked.same(yanked) {
                    return None;
                }
                record.yanked = yanked.copied();
                Some(if matches!(yanked, Yanked::No) {
                    "unyank"
                } else {
                    "yank"
                })
            },
        }
    }
}

/// A delete and the restore that follows it leave the yank state as it was, and the record as it was
/// when the file was not hidden before.
pub proof fn restore_undoes_delete(record: OverrideText)
    ensures
        MutationText::Hidden(false).applied(MutationText::Hidden(true).applied(record)).yanked == record.yanked,
        !record.hidden ==> MutationText::Hidden(false).applied(MutationText::Hidden(true).applied(record)) == record,
{
}

/// A yank leaves a hidden file hidden, and a hide leaves a yanked file yanked.
pub proof fn hide_and_yank_are_independent(record: OverrideText, yanked: YankedText, hidden: bool)
    ensures
        MutationText::Yanked(yanked).applied(record).hidden == record.hidden,
        MutationText::Hidden(hidden).applied(record).yanked == record.yanked,
        MutationText::Yanked(yanked).applied(MutationText::Hidden(hidden).applied(record))
            == MutationText::Hidden(hidden).applied(MutationText::Yanked(yanked).applied(record)),
{
}

/// Recording a value twice moves the record at most once: the second time there is no action.
pub proof fn repeated_change_has_no_action(change: MutationText, record: OverrideText)
    ensures
        change.action(change.applied(record)) is None,
        change.applied(change.applied(record)) == change.applied(record),
{
}

} // verus!
