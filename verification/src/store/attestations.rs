//! The provenance objects that a project's page advertises, registered and replaced as one.
use vstd::prelude::*;
use vstd::utf8::encode_utf8;

use super::keys::{
    key3, key4, live_key, live_prefix, project_attestation_live_key, project_attestation_live_prefix,
    upstream_attestation_key, upstream_attestation_prefix, UPSTREAM_ATTESTATION_PREFIX,
};
use super::record::{
    attestation_json, json_attestation, remote_attestation, AttestationText, UpstreamAttestation,
};
use super::txn::{entry_keys, keys_under, rows_under, DriverTxn, RowScope, TxnState};
use super::values::{MetaError, MetaErrorText};
use crate::collections::{listed, listed_is, TextMap};
use crate::outside::{json_string, json_string_text, json_text, json_text_of};
use crate::text::{opt_as_str, opt_clone, opt_str, opt_text};

verus! {

/// A file's digest, its name, and the URL of its provenance.
pub type Advertised = (String, String, String);

/// An advertisement, its text seen as characters.
pub open spec fn advertised_text(a: Advertised) -> (Seq<char>, Seq<char>, Seq<char>) {
    (a.0@, a.1@, a.2@)
}

/// The advertisements, seen as text.
pub open spec fn advertised_texts(list: Seq<Advertised>) -> Seq<(Seq<char>, Seq<char>, Seq<char>)> {
    list.map_values(|a: Advertised| advertised_text(a))
}

/// What the first `n` advertisements register, by the key of the registration. The last one of a key
/// stands.
pub open spec fn desired(
    index: Seq<char>,
    project: Seq<char>,
    list: Seq<(Seq<char>, Seq<char>, Seq<char>)>,
    n: int,
) -> Map<Seq<char>, (Seq<char>, Seq<char>, Seq<char>)>
    decreases n,
{
    if n <= 0 {
        Map::empty()
    } else {
        desired(index, project, list, n - 1).insert(
            live_key(index, project, list[n - 1].0, list[n - 1].1),
            list[n - 1],
        )
    }
}

/// The values of a map of advertisements, seen as text.
pub open spec fn advertised_values(map: Map<Seq<char>, Advertised>) -> Map<Seq<char>, (
    Seq<char>,
    Seq<char>,
    Seq<char>,
)> {
    map.map_values(|a: Advertised| advertised_text(a))
}

/// Decoded provenance objects, seen as text.
pub open spec fn attestation_values(map: Map<Seq<char>, UpstreamAttestation>) -> Map<Seq<char>, AttestationText> {
    map.map_values(|a: UpstreamAttestation| a@)
}

impl TxnState {
    /// Of the first `n` registrations, those that are no longer desired are gone, each with the object it
    /// names.
    pub open spec fn unregistered(
        self,
        keys: Seq<Seq<char>>,
        rows: Map<Seq<char>, Seq<u8>>,
        keep: Set<Seq<char>>,
        n: int,
    ) -> Result<TxnState, MetaErrorText>
        decreases n,
    {
        if n <= 0 {
            Ok(self)
        } else {
            match self.unregistered(keys, rows, keep, n - 1) {
                Err(error) => Err(error),
                Ok(s) => if keep.contains(keys[n - 1]) {
                    Ok(s)
                } else {
                    match json_text(rows[keys[n - 1]]) {
                        None => Err(MetaErrorText::Malformed { key: keys[n - 1] }),
                        Some(main) => Ok(
                            s.erased(RowScope::Replicated, main).erased(RowScope::Replicated, keys[n - 1]),
                        ),
                    }
                },
            }
        }
    }

    /// The first `n` desired registrations are there, in the order of their keys. A stored object of the same
    /// source stays as it is; one that cannot be read is not written over. `known` is what the stored objects
    /// decode to; with the state comes what is known then.
    pub open spec fn registered_all(
        self,
        index: Seq<char>,
        project: Seq<char>,
        upstream: Option<Seq<char>>,
        wanted: Map<Seq<char>, (Seq<char>, Seq<char>, Seq<char>)>,
        known: Map<Seq<char>, AttestationText>,
        n: int,
    ) -> Result<(TxnState, Map<Seq<char>, AttestationText>), MetaErrorText>
        decreases n,
    {
        if n <= 0 {
            Ok((self, known))
        } else {
            match self.registered_all(index, project, upstream, wanted, known, n - 1) {
                Err(error) => Err(error),
                Ok((s, known)) => {
                    let owner = listed(wanted.dom())[n - 1];
                    let (digest, filename, url) = wanted[owner];
                    let main = key4(UPSTREAM_ATTESTATION_PREFIX@, index, digest, filename, project);
                    let record = remote_attestation(url, index, project, upstream);
                    let pointer = encode_utf8(json_string(main));
                    if s.rows.contains_key(main) && !known.contains_key(main) {
                        Err(MetaErrorText::Malformed { key: main })
                    } else if s.rows.contains_key(main) && known[main].same_source(record) {
                        Ok((s.wrote(RowScope::Local, owner, pointer), known))
                    } else {
                        Ok(
                            (
                                s.wrote(RowScope::Local, main, encode_utf8(json_attestation(record))).wrote(
                                    RowScope::Local,
                                    owner,
                                    pointer,
                                ),
                                known.insert(main, record),
                            ),
                        )
                    }
                },
            }
        }
    }

    /// A project's provenance registrations are replaced: those the page no longer advertises go, and
    /// those it advertises are there.
    pub open spec fn attestations_replaced(
        self,
        index: Seq<char>,
        project: Seq<char>,
        upstream: Option<Seq<char>>,
        list: Seq<(Seq<char>, Seq<char>, Seq<char>)>,
        stored: Map<Seq<char>, AttestationText>,
    ) -> Result<TxnState, MetaErrorText> {
        let wanted = desired(index, project, list, list.len() as int);
        let keys = keys_under(self.rows, live_prefix(index, project));
        match self.unregistered(keys, self.rows, wanted.dom(), keys.len() as int) {
            Err(error) => Err(error),
            Ok(s) => match s.registered_all(
                index,
                project,
                upstream,
                wanted,
                stored,
                listed(wanted.dom()).len() as int,
            ) {
                Err(error) => Err(error),
                Ok((t, _)) => Ok(t),
            },
        }
    }
}

fn desired_map(index: &str, project: &str, attestations: &Vec<Advertised>) -> (r: TextMap<Advertised>)
    ensures
        advertised_values(r@) == desired(
            index@,
            project@,
            advertised_texts(attestations@),
            attestations@.len() as int,
        ),
{
    let ghost list = advertised_texts(attestations@);
    let mut map: TextMap<Advertised> = TextMap::new();
    assert(advertised_values(map@) =~= Map::empty());
    let mut i: usize = 0;
    while i < attestations.len()
        invariant
            i <= attestations@.len(),
            list == advertised_texts(attestations@),
            advertised_values(map@) == desired(index@, project@, list, i as int),
        decreases attestations.len() - i,
    {
        let entry = &attestations[i];
        let key = project_attestation_live_key(index, project, entry.0.as_str(), entry.1.as_str());
        let copy = (entry.0.clone(), entry.1.clone(), entry.2.clone());
        let ghost was = map@;
        let ghost key_text = key@;
        map.insert(key, copy);
        assert(advertised_values(map@) =~= advertised_values(was).insert(key_text, advertised_text(copy)));
        assert(advertised_text(copy) == list[i as int]);
        i = i + 1;
    }
    map
}

fn unregister(txn: &mut DriverTxn, prefix: &str, keep: &TextMap<Advertised>) -> (r: Result<(), MetaError>)
    ensures
        ({
            let keys = keys_under(old(txn)@.rows, prefix@);
            match old(txn)@.unregistered(keys, old(txn)@.rows, keep@.dom(), keys.len() as int) {
                Err(error) => r matches Err(e) && e@ == error,
                Ok(state) => r is Ok && final(txn)@ == state,
            }
        }),
{
    let ghost start = txn@;
    let entries = txn.prefix(prefix);
    let ghost keys = keys_under(start.rows, prefix@);
    assert(entry_keys(entries@).len() == entries@.len());
    let mut i: usize = 0;
    while i < entries.len()
        invariant
            i <= entries@.len(),
            start == old(txn)@,
            keys == keys_under(old(txn)@.rows, prefix@),
            entries@.len() == keys.len(),
            entry_keys(entries@) == keys,
            rows_under(start.rows, prefix@, entries@),
            start.unregistered(keys, start.rows, keep@.dom(), i as int) == Ok::<TxnState, MetaErrorText>(txn@),
        decreases entries.len() - i,
    {
        assert(entry_keys(entries@)[i as int] == entries@[i as int].0@);
        let owner = entries[i].0.as_str();
        if !keep.contains_key(owner) {
            match json_text_of(entries[i].1.as_slice()) {
                None => {
                    proof {
                        unregistered_error_stays(
                            start,
                            keys,
                            start.rows,
                            keep@.dom(),
                            i + 1,
                            keys.len() as int,
                        );
                    }
                    return Err(MetaError::DriverRecordMalformed { key: owner.to_owned() });
                },
                Some(main) => {
                    let a: bool = txn.remove_row(RowScope::Replicated, main.as_str());
                    let b: bool = txn.remove_row(RowScope::Replicated, owner);
                },
            }
        }
        i = i + 1;
    }
    Ok(())
}

proof fn unregistered_error_stays(
    s: TxnState,
    keys: Seq<Seq<char>>,
    rows: Map<Seq<char>, Seq<u8>>,
    keep: Set<Seq<char>>,
    n: int,
    m: int,
)
    requires
        0 <= n <= m,
        s.unregistered(keys, rows, keep, n) is Err,
    ensures
        s.unregistered(keys, rows, keep, m) == s.unregistered(keys, rows, keep, n),
    decreases m,
{
    if n < m {
        unregistered_error_stays(s, keys, rows, keep, n, m - 1);
    }
}

proof fn registered_error_stays(
    s: TxnState,
    index: Seq<char>,
    project: Seq<char>,
    upstream: Option<Seq<char>>,
    wanted: Map<Seq<char>, (Seq<char>, Seq<char>, Seq<char>)>,
    known: Map<Seq<char>, AttestationText>,
    n: int,
    m: int,
)
    requires
        0 <= n <= m,
        s.registered_all(index, project, upstream, wanted, known, n) is Err,
    ensures
        s.registered_all(index, project, upstream, wanted, known, m) == s.registered_all(
            index,
            project,
            upstream,
            wanted,
            known,
            n,
        ),
    decreases m,
{
    if n < m {
        registered_error_stays(s, index, project, upstream, wanted, known, n, m - 1);
    }
}

fn register_all(
    txn: &mut DriverTxn,
    index: &str,
    project: &str,
    upstream: Option<&str>,
    wanted: &TextMap<Advertised>,
    stored: &TextMap<UpstreamAttestation>,
) -> (r: Result<(), MetaError>)
    ensures
        ({
            let map = advertised_values(wanted@);
            match old(txn)@.registered_all(
                index@,
                project@,
                opt_str(upstream),
                map,
                attestation_values(stored@),
                listed(map.dom()).len() as int,
            ) {
                Err(error) => r matches Err(e) && e@ == error,
                Ok((state, _)) => r is Ok && final(txn)@ == state,
            }
        }),
{
    let ghost start = txn@;
    let ghost map = advertised_values(wanted@);
    let ghost first = attestation_values(stored@);
    let n: usize = wanted.len();
    proof {
        listed_is(wanted.keys());
        assert(map.dom() =~= wanted@.dom());
    }
    let mut written: TextMap<UpstreamAttestation> = TextMap::new();
    let mut i: usize = 0;
    assert(first.union_prefer_right(attestation_values(written@)) =~= first);
    while i < n
        invariant
            i <= n,
            n == wanted.keys().len(),
            n == wanted.values().len(),
            map == advertised_values(wanted@),
            first == attestation_values(stored@),
            listed(map.dom()) == wanted.keys(),
            start == old(txn)@,
            start.registered_all(index@, project@, opt_str(upstream), map, first, i as int) == Ok::<
                (TxnState, Map<Seq<char>, AttestationText>),
                MetaErrorText,
            >((txn@, first.union_prefer_right(attestation_values(written@)))),
        decreases n - i,
    {
        let owner = wanted.key_at(i);
        let entry = wanted.value_at(i);
        assert(map[owner@] == advertised_text(*entry));
        let main = upstream_attestation_key(index, entry.0.as_str(), entry.1.as_str(), project);
        let record = UpstreamAttestation::remote(entry.2.as_str(), index, project, upstream);
        let ghost known = first.union_prefer_right(attestation_values(written@));
        let present: bool = txn.get(main.as_str()).is_some();
        let current: Option<&UpstreamAttestation> = match written.get(main.as_str()) {
            Some(current) => Some(current),
            None => stored.get(main.as_str()),
        };
        let unchanged: bool = present && match current {
            Some(current) => current.same_source(&record),
            None => {
                proof {
                    assert(!known.contains_key(main@));
                    registered_error_stays(
                        start,
                        index@,
                        project@,
                        opt_str(upstream),
                        map,
                        first,
                        i + 1,
                        n as int,
                    );
                }
                return Err(MetaError::DriverRecordMalformed { key: main });
            },
        };
        let pointer = json_string_text(main.as_str());
        if !unchanged {
            let text = attestation_json(&record);
            let fresh: bool = txn.write_row(RowScope::Local, main.as_str(), text.as_str().as_bytes());
            let ghost name = main@;
            let ghost was = attestation_values(written@);
            written.insert(main, record);
            proof {
                assert(attestation_values(written@) =~= was.insert(name, record@));
                assert(first.union_prefer_right(attestation_values(written@)) =~= known.insert(name, record@));
            }
        }
        let fresh: bool = txn.write_row(RowScope::Local, owner, pointer.as_str().as_bytes());
        i = i + 1;
    }
    Ok(())
}

/// Replace a project's provenance registrations with those its page advertises, as a step of a larger write that is
/// given up as a whole when the step fails. `stored` holds the decoded objects of the rows that are already there.
pub(crate) fn replace_registrations(
    txn: &mut DriverTxn,
    index: &str,
    project: &str,
    upstream: Option<&str>,
    attestations: &Vec<Advertised>,
    stored: &TextMap<UpstreamAttestation>,
) -> (r: Result<(), MetaError>)
    ensures
        match old(txn)@.attestations_replaced(
            index@,
            project@,
            opt_str(upstream),
            advertised_texts(attestations@),
            attestation_values(stored@),
        ) {
            Err(error) => r matches Err(e) && e@ == error,
            Ok(state) => r is Ok && final(txn)@ == state,
        },
{
    let wanted = desired_map(index, project, attestations);
    let ghost map = advertised_values(wanted@);
    assert(map.dom() =~= wanted@.dom());
    assert(advertised_texts(attestations@).len() == attestations@.len());
    let prefix = project_attestation_live_prefix(index, project);
    match unregister(txn, prefix.as_str(), &wanted) {
        Ok(_) => {},
        Err(error) => {
            return Err(error);
        },
    }
    register_all(txn, index, project, upstream, &wanted, stored)
}

/// Replace a project's provenance registrations with those its page advertises. `stored` holds the
/// decoded objects of the rows that are already there.
pub fn replace_project_upstream_attestations(
    txn: &mut DriverTxn,
    index: &str,
    project: &str,
    upstream: Option<&str>,
    attestations: &Vec<Advertised>,
    stored: &TextMap<UpstreamAttestation>,
) -> (r: Result<(), MetaError>)
    ensures
        match old(txn)@.attestations_replaced(
            index@,
            project@,
            opt_str(upstream),
            advertised_texts(attestations@),
            attestation_values(stored@),
        ) {
            Err(error) => r matches Err(e) && e@ == error && final(txn)@ == old(txn)@,
            Ok(state) => r is Ok && final(txn)@ == state,
        },
{
    let saved = txn.savepoint();
    match replace_registrations(txn, index, project, upstream, attestations, stored) {
        Ok(_) => Ok(()),
        Err(error) => {
            *txn = saved;
            Err(error)
        },
    }
}

/// Once a project's registrations have been replaced, a registration under its live prefix that the page
/// did not advertise is gone.
pub proof fn unadvertised_registrations_go(
    s: TxnState,
    keys: Seq<Seq<char>>,
    rows: Map<Seq<char>, Seq<u8>>,
    keep: Set<Seq<char>>,
    n: int,
    i: int,
)
    requires
        0 <= i < n <= keys.len(),
        !keep.contains(keys[i]),
        s.unregistered(keys, rows, keep, n) is Ok,
    ensures
        s.unregistered(keys, rows, keep, n)->Ok_0.row(keys[i]) is None,
    decreases n,
{
    if i < n - 1 {
        unadvertised_registrations_go(s, keys, rows, keep, n - 1, i);
    }
}

/// A staged registration: the file's digest and name, and the object.
pub struct StagedAttestation {
    pub digest: String,
    pub filename: String,
    pub record: UpstreamAttestation,
}

/// What a registration is staged as.
pub open spec fn json_staged(digest: Seq<char>, filename: Seq<char>, record: AttestationText) -> Seq<char> {
    "["@ + json_string(digest) + ","@ + json_string(filename) + ","@ + json_attestation(record) + "]"@
}

/// Stage a registration under `key`, until the generation it belongs to is published.
pub fn stage_upstream_attestation(
    txn: &mut DriverTxn,
    key: &str,
    artifact_sha256: &str,
    filename: &str,
    record: &UpstreamAttestation,
)
    ensures
        final(txn)@ == old(txn)@.wrote(
            RowScope::Local,
            key@,
            encode_utf8(json_staged(artifact_sha256@, filename@, record@)),
        ),
{
    let mut out = "[".to_owned();
    let digest = json_string_text(artifact_sha256);
    out.append(digest.as_str());
    out.append(",");
    let name = json_string_text(filename);
    out.append(name.as_str());
    out.append(",");
    let object = attestation_json(record);
    out.append(object.as_str());
    out.append("]");
    let fresh: bool = txn.write_row(RowScope::Local, key, out.as_str().as_bytes());
}

/// What the first `n` staged rows advertise, or the key of the first that cannot be read. `decoded` is what
/// the rows decode to, by key.
pub open spec fn staged_read(keys: Seq<Seq<char>>, decoded: Map<Seq<char>, StagedAttestation>, n: int) -> Result<
    Seq<(Seq<char>, Seq<char>, Seq<char>)>,
    Seq<char>,
>
    decreases n,
{
    if n <= 0 {
        Ok(Seq::empty())
    } else {
        match staged_read(keys, decoded, n - 1) {
            Err(key) => Err(key),
            Ok(list) => if decoded.contains_key(keys[n - 1]) {
                let staged = decoded[keys[n - 1]];
                Ok(list.push((staged.digest@, staged.filename@, staged.record.url@)))
            } else {
                Err(keys[n - 1])
            },
        }
    }
}

/// The upstream of staged rows: that of the last one.
pub open spec fn staged_upstream(keys: Seq<Seq<char>>, decoded: Map<Seq<char>, StagedAttestation>) -> Option<Seq<char>> {
    if keys.len() == 0 {
        None
    } else {
        opt_text(decoded[keys.last()].record.upstream)
    }
}

proof fn staged_error_stays(keys: Seq<Seq<char>>, decoded: Map<Seq<char>, StagedAttestation>, n: int, m: int)
    requires
        0 <= n <= m,
        staged_read(keys, decoded, n) is Err,
    ensures
        staged_read(keys, decoded, m) == staged_read(keys, decoded, n),
    decreases m,
{
    if n < m {
        staged_error_stays(keys, decoded, n, m - 1);
    }
}

fn read_staged(entries: &Vec<(String, Vec<u8>)>, decoded: &TextMap<StagedAttestation>) -> (r: Result<
    (Option<String>, Vec<Advertised>),
    MetaError,
>)
    ensures
        ({
            let keys = entry_keys(entries@);
            match staged_read(keys, decoded@, keys.len() as int) {
                Err(key) => r matches Err(e) && e@ == (MetaErrorText::Malformed { key }),
                Ok(list) => r matches Ok((upstream, found)) && advertised_texts(found@) == list && opt_text(upstream)
                    == staged_upstream(keys, decoded@),
            }
        }),
{
    let ghost keys = entry_keys(entries@);
    let mut upstream: Option<String> = None;
    let mut list: Vec<Advertised> = Vec::new();
    let mut i: usize = 0;
    assert(advertised_texts(list@) =~= Seq::<(Seq<char>, Seq<char>, Seq<char>)>::empty());
    while i < entries.len()
        invariant
            i <= entries@.len(),
            keys == entry_keys(entries@),
            keys.len() == entries@.len(),
            staged_read(keys, decoded@, i as int) == Ok::<Seq<(Seq<char>, Seq<char>, Seq<char>)>, Seq<char>>(
                advertised_texts(list@),
            ),
            opt_text(upstream) == (if i == 0 {
                None
            } else {
                opt_text(decoded@[keys[i - 1]].record.upstream)
            }),
        decreases entries.len() - i,
    {
        let key = entries[i].0.as_str();
        assert(keys[i as int] == key@);
        match decoded.get(key) {
            None => {
                proof {
                    staged_error_stays(keys, decoded@, i + 1, keys.len() as int);
                }
                return Err(MetaError::DriverRecordMalformed { key: key.to_owned() });
            },
            Some(staged) => {
                let entry: Advertised = (staged.digest.clone(), staged.filename.clone(), staged.record.url.clone());
                let ghost fewer = advertised_texts(list@);
                upstream = opt_clone(&staged.record.upstream);
                list.push(entry);
                assert(advertised_texts(list@) =~= fewer.push(advertised_text(entry)));
            },
        }
        i = i + 1;
    }
    Ok((upstream, list))
}

/// Whether publishing staged registrations takes the store from `was` to `now`.
pub open spec fn are_staged_published(
    was: TxnState,
    index: Seq<char>,
    project: Seq<char>,
    prefix: Seq<char>,
    decoded: Map<Seq<char>, StagedAttestation>,
    stored: Map<Seq<char>, AttestationText>,
    now: TxnState,
    r: Result<(), MetaError>,
) -> bool {
    let keys = keys_under(was.rows, prefix);
    match staged_read(keys, decoded, keys.len() as int) {
        Err(key) => r matches Err(e) && e@ == (MetaErrorText::Malformed { key }) && now == was,
        Ok(list) => match was.attestations_replaced(
            index,
            project,
            staged_upstream(keys, decoded),
            list,
            stored,
        ) {
            Err(error) => r matches Err(e) && e@ == error && now == was,
            Ok(state) => r is Ok && now == state.erased_all(
                RowScope::Replicated,
                keys,
                keys.len() as int,
            ),
        },
    }
}

/// Publish the registrations that a sync staged under `prefix`, and drop the staged rows. `decoded` is what
/// those rows decode to, by key; `stored` what the objects that are already there decode to.
pub fn publish_staged_upstream_attestations(
    txn: &mut DriverTxn,
    index: &str,
    project: &str,
    prefix: &str,
    decoded: &TextMap<StagedAttestation>,
    stored: &TextMap<UpstreamAttestation>,
) -> (r: Result<(), MetaError>)
    ensures
        are_staged_published(
            old(txn)@,
            index@,
            project@,
            prefix@,
            decoded@,
            attestation_values(stored@),
            final(txn)@,
            r,
        ),
{
    let entries = txn.prefix(prefix);
    let ghost keys = keys_under(txn@.rows, prefix@);
    assert(entry_keys(entries@) == keys);
    assert(entry_keys(entries@).len() == entries@.len());
    let (upstream, list) = match read_staged(&entries, decoded) {
        Ok(read) => read,
        Err(error) => {
            return Err(error);
        },
    };
    match replace_project_upstream_attestations(txn, index, project, opt_as_str(&upstream), &list, stored) {
        Ok(_) => {},
        Err(error) => {
            return Err(error);
        },
    }
    let ghost replaced = txn@;
    let mut k: usize = 0;
    while k < entries.len()
        invariant
            k <= entries@.len(),
            keys == entry_keys(entries@),
            keys.len() == entries@.len(),
            txn@ == replaced.erased_all(RowScope::Replicated, keys, k as int),
        decreases entries.len() - k,
    {
        assert(keys[k as int] == entries@[k as int].0@);
        let there: bool = txn.remove_row(RowScope::Replicated, entries[k].0.as_str());
        k = k + 1;
    }
    Ok(())
}

/// The objects that the first `n` rows decode to, or the key of the first that cannot be read.
pub open spec fn objects_read(keys: Seq<Seq<char>>, decoded: Map<Seq<char>, AttestationText>, n: int) -> Result<
    Seq<AttestationText>,
    Seq<char>,
>
    decreases n,
{
    if n <= 0 {
        Ok(Seq::empty())
    } else {
        match objects_read(keys, decoded, n - 1) {
            Err(key) => Err(key),
            Ok(list) => if decoded.contains_key(keys[n - 1]) {
                Ok(list.push(decoded[keys[n - 1]]))
            } else {
                Err(keys[n - 1])
            },
        }
    }
}

proof fn object_error_stays(keys: Seq<Seq<char>>, decoded: Map<Seq<char>, AttestationText>, n: int, m: int)
    requires
        0 <= n <= m,
        objects_read(keys, decoded, n) is Err,
    ensures
        objects_read(keys, decoded, m) == objects_read(keys, decoded, n),
    decreases m,
{
    if n < m {
        object_error_stays(keys, decoded, n, m - 1);
    }
}

/// The objects, seen as text.
pub open spec fn object_texts(list: Seq<UpstreamAttestation>) -> Seq<AttestationText> {
    list.map_values(|a: UpstreamAttestation| a@)
}

/// The provenance objects of one file, in the order of the projects that advertise them. `decoded` is what
/// their rows decode to, by key.
pub fn list_upstream_attestations(
    txn: &DriverTxn,
    index: &str,
    artifact_sha256: &str,
    filename: &str,
    decoded: &TextMap<UpstreamAttestation>,
) -> (r: Result<Vec<UpstreamAttestation>, MetaError>)
    ensures
        ({
            let prefix = key3(UPSTREAM_ATTESTATION_PREFIX@, index@, artifact_sha256@, filename@) + "/"@;
            let keys = keys_under(txn@.rows, prefix);
            match objects_read(keys, attestation_values(decoded@), keys.len() as int) {
                Err(key) => r matches Err(e) && e@ == (MetaErrorText::Malformed { key }),
                Ok(list) => r matches Ok(found) && object_texts(found@) == list,
            }
        }),
{
    let prefix = upstream_attestation_prefix(index, artifact_sha256, filename);
    let entries = txn.prefix(prefix.as_str());
    let ghost keys = keys_under(txn@.rows, prefix@);
    let ghost known = attestation_values(decoded@);
    assert(entry_keys(entries@) == keys);
    assert(entry_keys(entries@).len() == entries@.len());
    let mut out: Vec<UpstreamAttestation> = Vec::new();
    let mut i: usize = 0;
    assert(object_texts(out@) =~= Seq::<AttestationText>::empty());
    while i < entries.len()
        invariant
            i <= entries@.len(),
            keys == entry_keys(entries@),
            keys.len() == entries@.len(),
            prefix@ == key3(UPSTREAM_ATTESTATION_PREFIX@, index@, artifact_sha256@, filename@) + "/"@,
            keys == keys_under(txn@.rows, prefix@),
            known == attestation_values(decoded@),
            objects_read(keys, known, i as int) == Ok::<Seq<AttestationText>, Seq<char>>(object_texts(out@)),
        decreases entries.len() - i,
    {
        let key = entries[i].0.as_str();
        assert(keys[i as int] == key@);
        match decoded.get(key) {
            None => {
                proof {
                    object_error_stays(keys, known, i + 1, keys.len() as int);
                }
                return Err(MetaError::DriverRecordMalformed { key: key.to_owned() });
            },
            Some(object) => {
                let ghost fewer = object_texts(out@);
                let copy = object.copied();
                out.push(copy);
                assert(object_texts(out@) =~= fewer.push(object@));
            },
        }
        i = i + 1;
    }
    Ok(out)
}

/// Record the state of one provenance object, and register it with its project.
pub fn put_upstream_attestation(
    txn: &mut DriverTxn,
    index: &str,
    artifact_sha256: &str,
    filename: &str,
    record: &UpstreamAttestation,
)
    ensures
        ({
            let main = key4(UPSTREAM_ATTESTATION_PREFIX@, index@, artifact_sha256@, filename@, record.project@);
            final(txn)@ == old(txn)@.wrote(RowScope::Local, main, encode_utf8(json_attestation(record@))).wrote(
                RowScope::Local,
                live_key(index@, record.project@, artifact_sha256@, filename@),
                encode_utf8(json_string(main)),
            )
        }),
{
    let main = upstream_attestation_key(index, artifact_sha256, filename, record.project.as_str());
    let owner = project_attestation_live_key(index, record.project.as_str(), artifact_sha256, filename);
    let text = attestation_json(record);
    let a: bool = txn.write_row(RowScope::Local, main.as_str(), text.as_str().as_bytes());
    let pointer = json_string_text(main.as_str());
    let b: bool = txn.write_row(RowScope::Local, owner.as_str(), pointer.as_str().as_bytes());
}

/// Whether replacing the state of a provenance object takes the store from `was` to `now`.
pub open spec fn is_exchanged(
    was: TxnState,
    index: Seq<char>,
    artifact_sha256: Seq<char>,
    filename: Seq<char>,
    current: Option<UpstreamAttestation>,
    expected: UpstreamAttestation,
    replacement: UpstreamAttestation,
    now: TxnState,
    r: Result<bool, MetaError>,
) -> bool {
    let main = key4(UPSTREAM_ATTESTATION_PREFIX@, index, artifact_sha256, filename, expected.project@);
    if !expected@.same_source(replacement@) {
        r matches Err(e) && e@ == MetaErrorText::Precondition(
            "attestation cache replacement changed its source identity"@,
        ) && now == was
    } else if was.row(main) is Some && current is None {
        r matches Err(e) && e@ == (MetaErrorText::Malformed { key: main }) && now == was
    } else if was.row(main) is Some && current->0@ == expected@ {
        r matches Ok(true) && now == was.wrote(
            RowScope::Local,
            main,
            encode_utf8(json_attestation(replacement@)),
        )
    } else {
        r matches Ok(false) && now == was
    }
}

/// Replace the state of a provenance object only when it has not changed since it was read. `current` is
/// what the row that is there decodes to. A replacement that changes the source is refused.
pub fn compare_exchange_upstream_attestation(
    txn: &mut DriverTxn,
    index: &str,
    artifact_sha256: &str,
    filename: &str,
    current: &Option<UpstreamAttestation>,
    expected: &UpstreamAttestation,
    replacement: &UpstreamAttestation,
) -> (r: Result<bool, MetaError>)
    ensures
        is_exchanged(
            old(txn)@,
            index@,
            artifact_sha256@,
            filename@,
            *current,
            *expected,
            *replacement,
            final(txn)@,
            r,
        ),
{
    if !expected.same_source(replacement) {
        return Err(
            MetaError::DriverPrecondition("attestation cache replacement changed its source identity".to_owned()),
        );
    }
    let main = upstream_attestation_key(index, artifact_sha256, filename, expected.project.as_str());
    if txn.get(main.as_str()).is_none() {
        return Ok(false);
    }
    match current {
        Some(current) => {
            if !current.same(expected) {
                return Ok(false);
            }
        },
        None => {
            return Err(MetaError::DriverRecordMalformed { key: main });
        },
    }
    let text = attestation_json(replacement);
    let fresh: bool = txn.write_row(RowScope::Local, main.as_str(), text.as_str().as_bytes());
    Ok(true)
}

} // verus!
