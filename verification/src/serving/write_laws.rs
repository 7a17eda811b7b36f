//! What is promised of a write on its way: what an intent becomes, whose credential it is made with, what a repeated
//! upload is told, and what is known of a file before it is published.
use vstd::prelude::*;

use crate::serving::access::{is_read_denial, is_upload_form, Denial, UploadForm};
use crate::serving::finalize::{
    is_described, is_first_found, is_first_granted, FinalizeDescriptor, StagedIntent, OUTCOME_RETENTION_SECS,
};
use crate::serving::reply::ReplyText;
use crate::serving::upload::is_store_event;
use crate::store::keys::{key3, key4, PROVENANCE_PREFIX, UPLOAD_PREFIX};
use crate::store::txn::{opt_bytes, TxnState};
use crate::store::uploads::{is_published_state, PublishedFile, PublishedState};
use crate::store::values::{MetaError, VersionedProvenanceReference};
use crate::text::{opt_text, without_leading, without_trailing};

verus! {

/// An intent becomes the file that was staged: its project, its content and its size are the intent's own, its record
/// goes unchanged, and its outcome is kept for a day.
pub proof fn intents_become_their_file(
    key: Seq<char>,
    intent: StagedIntent,
    filename: Seq<char>,
    index_name: Seq<char>,
    record: Vec<u8>,
    version: Option<Seq<char>>,
    now: i64,
    r: FinalizeDescriptor,
)
    requires
        is_described(key, intent, filename, index_name, record, version, now, r),
        now <= i64::MAX - OUTCOME_RETENTION_SECS,
    ensures
        r.authority@ == intent.authority@ && r.normalized@ == intent.authority@ && r.display@ == intent.authority@,
        r.artifact_sha256@ == intent.digest@ && r.artifact_size == intent.size,
        r.index_name@ == index_name && r.filename@ == filename && r.record@ == record@,
        version matches Some(v) ==> r.version@ == v,
        version is None ==> r.version@.len() == 0,
        r.submitted_at_unix == intent.updated_at_unix,
        r.expiry_unix matches Some(until) && until - now == 24 * 60 * 60,
        key.is_prefix_of(r.operation@) && r.operation@.len() == key.len() + 1 + intent.digest@.len(),
        intent.digest@.is_suffix_of(r.operation@),
{
    let whole = key + seq![':'] + intent.digest@;
    assert(whole.take(key.len() as int) =~= key);
    assert(whole.subrange(key.len() as int + 1, whole.len() as int) =~= intent.digest@);
}

/// Two intents whose keys or contents differ, of equally long keys, are different operations.
pub proof fn operations_are_told_apart(
    key: Seq<char>,
    other: Seq<char>,
    intent: StagedIntent,
    second: StagedIntent,
    filename: Seq<char>,
    index_name: Seq<char>,
    record: Vec<u8>,
    version: Option<Seq<char>>,
    now: i64,
    r: FinalizeDescriptor,
    s: FinalizeDescriptor,
)
    requires
        is_described(key, intent, filename, index_name, record, version, now, r),
        is_described(other, second, filename, index_name, record, version, now, s),
        key.len() == other.len(),
        r.operation@ == s.operation@,
    ensures
        key == other && intent.digest@ == second.digest@,
{
    let a = key + seq![':'] + intent.digest@;
    let b = other + seq![':'] + second.digest@;
    assert(a.take(key.len() as int) =~= key);
    assert(b.take(other.len() as int) =~= other);
    assert(a.skip(key.len() as int + 1) =~= intent.digest@);
    assert(b.skip(other.len() as int + 1) =~= second.digest@);
}

/// What was found anywhere is found, at the first place that holds it.
pub proof fn the_first_place_is_found(found: Seq<Option<Vec<u8>>>, r: Option<usize>, i: int)
    requires
        is_first_found(found, r),
    ensures
        0 <= i < found.len() && found[i] is Some ==> (r matches Some(at) && at <= i && found[at as int] is Some),
        r matches Some(at) ==> at < found.len() && found[at as int] is Some,
{
}

/// A write that any credential is granted is made with the first of those, and one that none is granted with none.
pub proof fn the_first_granted_credential_writes(granted: Seq<bool>, r: Option<usize>, i: int)
    requires
        is_first_granted(granted, r),
    ensures
        0 <= i < granted.len() && granted[i] ==> (r matches Some(at) && at <= i && granted[at as int]),
        r matches Some(at) ==> at < granted.len() && granted[at as int],
{
}

/// A credential that does not grant a read is refused for good. Anyone else is asked for a credential.
pub proof fn denied_reads_are_refused_or_challenged(denial: Denial, r: ReplyText)
    requires
        is_read_denial(denial, r),
    ensures
        denial is Forbidden ==> r.status == 403 && r.headers.len() == 0,
        !(denial is Forbidden) ==> r.status == 401 && r.headers.contains(
            ("www-authenticate"@, "Basic realm=\"peryx\""@),
        ),
{
    if !(denial is Forbidden) {
        assert(r.headers.last() == ("www-authenticate"@, "Basic realm=\"peryx\""@));
    }
}

/// An index has an upload form exactly where uploads are enabled, and the form posts to the index itself.
pub proof fn forms_post_to_their_index(route: Seq<char>, enabled: bool, r: Option<UploadForm>)
    requires
        is_upload_form(route, enabled, r),
    ensures
        r is Some <==> enabled,
        r matches Some(form) ==> form.endpoint@.len() >= 2 && form.endpoint@[0] == '/' && form.endpoint@.last() == '/',
        r matches Some(form) ==> (route.len() > 0 && route[0] != '/' && route.last() != '/' ==> form.endpoint@.subrange(
            1,
            form.endpoint@.len() - 1,
        ) == route),
        r matches Some(form) ==> form.form_field@ == "content"@ && form.authorization_username@ == "__token__"@,
        r matches Some(form) ==> form.token_label@ == "Upload token"@ && form.file_label@ == "Distribution"@
            && form.accept@ == ".whl,.tar.gz"@,
{
    reveal_strlit("/");
    reveal_with_fuel(without_leading, 2);
    reveal_with_fuel(without_trailing, 2);
    if r is Some && route.len() > 0 && route[0] != '/' && route.last() != '/' {
        let form = r->0;
        assert(form.endpoint@.subrange(1, form.endpoint@.len() - 1) =~= route);
    }
}

/// A new upload is told of as a success, without a reason. One that was stored before is told of as nothing done, and
/// why.
pub proof fn repeated_uploads_are_told_of(fresh: bool, outcome: Seq<char>, reason: Option<Seq<char>>)
    requires
        is_store_event(fresh, outcome, reason),
    ensures
        outcome == "success"@ <==> fresh,
        outcome == "noop"@ <==> !fresh,
        reason is Some <==> !fresh,
        reason matches Some(why) ==> why == "same content already stored"@,
{
    reveal_strlit("success");
    reveal_strlit("noop");
    assert("success"@.len() != "noop"@.len());
}

/// Of a published file the record is the one stored for its name, and no provenance is known where none was stored.
pub proof fn published_files_are_known_by_their_rows(
    s: TxnState,
    file: PublishedFile<'_>,
    decoded: Option<VersionedProvenanceReference>,
    r: Result<PublishedState, MetaError>,
)
    requires
        is_published_state(s, file, decoded, r),
    ensures
        r matches Ok(state) ==> opt_bytes(state.record) == s.row(
            key3(UPLOAD_PREFIX@, file.index@, file.normalized@, file.filename@),
        ),
        s.row(
            key4(PROVENANCE_PREFIX@, file.index@, file.normalized@, file.artifact_sha256@, file.filename@),
        ) is None ==> (r matches Ok(state) && state.provenance is None),
        r matches Ok(state) ==> (s.row(
            key4(PROVENANCE_PREFIX@, file.index@, file.normalized@, file.artifact_sha256@, file.filename@),
        ) is Some <==> opt_text(state.provenance) is Some),
{
}

} // verus!
