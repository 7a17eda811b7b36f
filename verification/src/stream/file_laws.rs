//! What a rewritten page promises of its files, its versions and the bytes around them.
use vstd::prelude::*;
use vstd::utf8::encode_utf8;

use super::context::{hidden_names, imposed_yanks};
use super::transformer::{first_repeat, may_have_sibling, sibling_url, ContextText, HeaderState, PageState};
use super::types::{TransformErrorText, UpstreamFacts};
use crate::collections::listed;
use crate::distribution::opt_distribution;
use crate::outside::{json_string, json_strings, specifiers_contain, url_joined, url_of};
use crate::policy::{opt_denial, PolicyAction, RemoteMetadataMode, REMOTE_METADATA_SETTING};
use crate::policy_engine::{file_facts, listed_set, remote_metadata_named};
use crate::simple::file::{secure_text, FileText, MetadataText, ProvenanceText, Yanked, YankedText};
use crate::simple::json::{json_file, json_map, json_metadata, json_yanked};
use crate::simple::SimpleErrorText;
use crate::store::overrides::FileOverride;
use crate::text::{decimal, first_index, holds_text, joined_texts_hold};

verus! {

// ---------------------------------------------------------------------------------------------
// Upstream files
// ---------------------------------------------------------------------------------------------

/// A file that is served keeps what an installer chooses by: its name, its digests, the Python versions it asks for, its
/// size and its upload time. It is yanked as an operator said where one did, and as it came otherwise.
pub proof fn served_files_keep_what_installers_read(s: PageState, ctx: ContextText, file: FileText, up: UpstreamFacts)
    ensures
        s.rewritten(ctx, file, up) matches Ok(outcome) ==> (outcome.written matches Some(written) ==> {
            &&& written.filename == file.filename
            &&& written.hashes == file.hashes
            &&& written.requires_python == file.requires_python
            &&& written.size == file.size
            &&& written.upload_time == file.upload_time
            &&& ctx.yanked.contains_key(file.filename) ==> written.yanked == ctx.yanked[file.filename]
            &&& !ctx.yanked.contains_key(file.filename) ==> written.yanked == file.yanked
        }),
{
}

/// A file is served exactly where the page's project is not quarantined, no local file or operator hides its name, and
/// policy has nothing against it. The page is refused exactly where it lists too many files, or where it owes the
/// file's size and does not say it.
pub proof fn files_are_served_unless_something_hides_them(
    s: PageState,
    ctx: ContextText,
    file: FileText,
    up: UpstreamFacts,
)
    ensures
        s.rewritten(ctx, file, up) is Err <==> s.tally.files_seen >= 500_000 || (s.header.promised && file.size is None),
        s.tally.files_seen >= 500_000 ==> (s.rewritten(ctx, file, up) matches Err(error) && error is TooLarge),
        s.tally.files_seen < 500_000 && s.header.promised && file.size is None ==> (s.rewritten(ctx, file, up) matches Err(
            error,
        ) && error == TransformErrorText::Simple(SimpleErrorText::MissingFileSize(file.filename))),
        s.rewritten(ctx, file, up) matches Ok(outcome) ==> (outcome.written is Some <==> s.header.project_status != Some(
            "quarantined"@,
        ) && !ctx.skip.contains(file.filename) && ctx.policy.verdict(
            opt_denial(up.facts.refusal),
            PolicyAction::Serve,
            file_facts(ctx.project, file, opt_distribution(up.facts.parsed)),
        ) is None),
        s.rewritten(ctx, file, up) matches Ok(outcome) ==> (outcome.registration is Some <==> outcome.written is Some
            && file.hashes.contains_key("sha256"@) && !up.already_local),
{
}

/// A file with a digest is written at this registry's address; one without keeps its own, made absolute against the
/// page's. A file that already has an address of this registry keeps it.
pub proof fn files_are_addressed_by_their_digest(s: PageState, ctx: ContextText, file: FileText, up: UpstreamFacts)
    ensures
        s.rewritten(ctx, file, up) matches Ok(outcome) ==> (outcome.written matches Some(written) ==> {
            let hashed = file.hashes.contains_key("sha256"@);
            &&& hashed && !up.already_local ==> written.url == up.local_url@
            &&& hashed && up.already_local ==> written.url == file.url
            &&& !hashed && ctx.base is None ==> written.url == file.url
            &&& !hashed && url_of(file.url) is Some ==> written.url == file.url
            &&& !hashed && ctx.base is Some && url_of(file.url) is None ==> written.url == (match url_joined(
                ctx.base->0,
                file.url,
            ) {
                Some(url) => url,
                None => file.url,
            })
            &&& hashed ==> written.gpg_sig is None
            &&& !hashed ==> written.gpg_sig == file.gpg_sig
        }),
{
}

/// A file that is re-addressed is registered with what fetches it: the absolute address it came with, its digest, its
/// size, and the secure address of its provenance.
pub proof fn registrations_fetch_the_file(s: PageState, ctx: ContextText, file: FileText, up: UpstreamFacts)
    ensures
        s.rewritten(ctx, file, up) matches Ok(outcome) ==> (outcome.registration matches Some(registration) ==> {
            &&& registration.filename == file.filename
            &&& registration.sha256 == file.hashes["sha256"@]
            &&& registration.size == file.size
            &&& url_of(file.url) is Some || ctx.base is None ==> registration.url == file.url
            &&& url_of(file.url) is None && ctx.base is Some ==> registration.url == (match url_joined(
                ctx.base->0,
                file.url,
            ) {
                Some(url) => url,
                None => file.url,
            })
            &&& registration.provenance is Some <==> (file.provenance matches ProvenanceText::Url(url) && secure_text(
                url,
            ))
            &&& registration.provenance matches Some(url) ==> file.provenance == ProvenanceText::Url(url)
        }),
{
}

/// The metadata sibling that is registered is the file's own: its digest is the one that the file advertises, and only
/// a wheel or a gzipped source distribution has one.
pub proof fn registered_siblings_are_verified(s: PageState, ctx: ContextText, file: FileText, up: UpstreamFacts)
    ensures
        s.rewritten(ctx, file, up) matches Ok(outcome) ==> (outcome.registration matches Some(registration) ==> {
            let advertised = if file.core_metadata is Absent {
                file.dist_info_metadata
            } else {
                file.core_metadata
            };
            &&& registration.metadata is Some <==> (advertised matches MetadataText::Hashes(hashes)
                && hashes.contains_key("sha256"@)) && may_have_sibling(file.filename)
            &&& registration.metadata matches Some((url, digest)) ==> advertised->Hashes_0["sha256"@] == digest && url
                == sibling_url(registration.url)
        }),
{
}

/// A served file advertises metadata exactly where its digest can be verified or is known here: as it came where the
/// sibling is verified, and otherwise under the known digest of the artifact.
pub proof fn advertised_metadata_is_verified(s: PageState, ctx: ContextText, file: FileText, up: UpstreamFacts)
    requires
        !up.already_local,
    ensures
        s.rewritten(ctx, file, up) matches Ok(outcome) ==> (outcome.written matches Some(written) ==> {
            let advertised = if file.core_metadata is Absent {
                file.dist_info_metadata
            } else {
                file.core_metadata
            };
            let verified = (advertised matches MetadataText::Hashes(hashes) && hashes.contains_key("sha256"@))
                && may_have_sibling(file.filename);
            let hashed = file.hashes.contains_key("sha256"@);
            &&& !hashed ==> written.core_metadata is Absent && written.dist_info_metadata is Absent
            &&& hashed && verified ==> written.core_metadata == file.core_metadata && written.dist_info_metadata
                == file.dist_info_metadata
            &&& hashed && !verified && ctx.known_metadata.contains_key(file.hashes["sha256"@]) ==> (
            written.core_metadata matches MetadataText::Hashes(hashes) && hashes == Map::<
                Seq<char>,
                Seq<char>,
            >::empty().insert("sha256"@, ctx.known_metadata[file.hashes["sha256"@]])) && written.dist_info_metadata
                == written.core_metadata
            &&& hashed && !verified && !ctx.known_metadata.contains_key(file.hashes["sha256"@])
                ==> written.core_metadata is Absent && written.dist_info_metadata is Absent
        }),
{
}

/// A sibling's address is the file's with the suffix behind its path, ahead of a query or a fragment.
pub proof fn siblings_stand_beside_their_file(path: Seq<char>, rest: Seq<char>)
    requires
        !path.contains('?'),
        !path.contains('#'),
        rest.len() > 0 ==> rest[0] == '?' || rest[0] == '#',
    ensures
        sibling_url(path + rest) == path + ".metadata"@ + rest,
{
    let url = path + rest;
    assert forall|j: int| 0 <= j < path.len() implies url[j] != '?' && url[j] != '#' by {
        assert(path.contains(path[j]));
    }
    crate::text::first_index_bounds(url, '?');
    crate::text::first_index_bounds(url, '#');
    let query = first_index(url, '?');
    let fragment = first_index(url, '#');
    if rest.len() == 0 {
        assert(query == url.len() && fragment == url.len());
    } else {
        assert(url[path.len() as int] == rest[0]);
        assert(query >= path.len() && fragment >= path.len());
    }
    let cut = if query < fragment {
        query
    } else {
        fragment
    };
    assert(cut == path.len());
    assert(url.take(cut) =~= path);
    assert(url.skip(cut) =~= rest);
}

/// A provenance that names a secure address stays with the file, at this registry's address where attestations are not
/// served directly; one that names another is dropped.
pub proof fn provenance_follows_its_file(s: PageState, ctx: ContextText, file: FileText, up: UpstreamFacts)
    requires
        file.hashes.contains_key("sha256"@),
        !up.already_local,
    ensures
        s.rewritten(ctx, file, up) matches Ok(outcome) ==> (outcome.written matches Some(written) ==> {
            let direct = remote_metadata_named(ctx.policy.setting(REMOTE_METADATA_SETTING@)) == RemoteMetadataMode::Direct;
            match file.provenance {
                ProvenanceText::Url(url) => if !secure_text(url) {
                    written.provenance is Absent
                } else if direct {
                    written.provenance == file.provenance
                } else {
                    written.provenance == ProvenanceText::Url(up.local_provenance_url@)
                },
                _ => written.provenance == file.provenance,
            }
        }),
{
}

/// Each upstream file counts as seen, and only a written one as written: behind it stands a comma where another file
/// was written before it, and the file's object.
pub proof fn files_are_written_in_turn(s: PageState, ctx: ContextText, file: FileText, up: UpstreamFacts)
    ensures
        s.rewritten(ctx, file, up) matches Ok(outcome) ==> {
            let behind = s.file_accepted(up, outcome);
            &&& behind.tally.files_seen == s.tally.files_seen + 1
            &&& behind.tally.emitted_in_array <==> s.tally.emitted_in_array || outcome.written is Some
            &&& behind.lex.mode is Files && behind.lex.pending is None && behind.lex.captured.len() == 0
            &&& behind.header == s.header
            &&& outcome.registration is None ==> behind.tally.registrations == s.tally.registrations
            &&& outcome.registration matches Some(registration) ==> behind.tally.registrations
                == s.tally.registrations.push(registration)
            &&& outcome.written is None ==> s.file_bytes(outcome).len() == 0 && behind.tally.served == s.tally.served
            &&& outcome.written matches Some(written) ==> s.file_bytes(outcome) == (if s.tally.emitted_in_array {
                seq![0x2Cu8] + encode_utf8(json_file(written))
            } else {
                encode_utf8(json_file(written))
            })
            &&& outcome.written is Some && !s.header.versions_seen && up.facts.parsed is Some
                ==> behind.tally.served == s.tally.served.insert(up.facts.parsed->0.version@)
        },
{
    let outcome = s.rewritten(ctx, file, up)->Ok_0;
    if s.rewritten(ctx, file, up) is Ok && outcome.written is Some {
        let bytes = encode_utf8(json_file(outcome.written->0));
        assert(Seq::<u8>::empty() + bytes =~= bytes);
    }
}

// ---------------------------------------------------------------------------------------------
// Local files
// ---------------------------------------------------------------------------------------------

/// A local file is listed exactly where no operator hides its name and policy has nothing against it. It is listed as
/// it was published, but for the yank that an operator imposed.
pub proof fn local_files_are_listed(ctx: ContextText, n: int, i: int)
    requires
        0 <= i < n <= ctx.local_files.len(),
        !ctx.hidden.contains(ctx.local_files[i].file.filename@),
        ctx.policy.verdict(
            opt_denial(ctx.local_files[i].facts.refusal),
            PolicyAction::Serve,
            file_facts(ctx.project, ctx.local_files[i].file@, opt_distribution(ctx.local_files[i].facts.parsed)),
        ) is None,
    ensures
        ({
            let file = ctx.local_files[i].file@;
            let shown = FileText {
                yanked: if ctx.yanked.contains_key(file.filename) {
                    ctx.yanked[file.filename]
                } else {
                    file.yanked
                },
                ..file
            };
            ctx.local_json(n).contains(json_file(shown))
        }),
    decreases n,
{
    let file = ctx.local_files[i].file@;
    let shown = FileText {
        yanked: if ctx.yanked.contains_key(file.filename) {
            ctx.yanked[file.filename]
        } else {
            file.yanked
        },
        ..file
    };
    let all = ctx.local_json(n);
    let fewer = ctx.local_json(n - 1);
    if i == n - 1 {
        assert(all.last() == json_file(shown));
        assert(all[all.len() - 1] == json_file(shown));
    } else {
        local_files_are_listed(ctx, n - 1, i);
        let j = choose|j: int| 0 <= j < fewer.len() && fewer[j] == json_file(shown);
        assert(all[j] == json_file(shown));
    }
}

/// No other local file is listed: each listed one is a local file that is neither hidden nor denied.
pub proof fn listed_local_files_are_shown(ctx: ContextText, n: int, j: int)
    requires
        0 <= n <= ctx.local_files.len(),
        0 <= j < ctx.local_json(n).len(),
    ensures
        exists|i: int| #![trigger ctx.local_files[i]]
            0 <= i < n && !ctx.hidden.contains(ctx.local_files[i].file.filename@) && ctx.policy.verdict(
                opt_denial(ctx.local_files[i].facts.refusal),
                PolicyAction::Serve,
                file_facts(ctx.project, ctx.local_files[i].file@, opt_distribution(ctx.local_files[i].facts.parsed)),
            ) is None && ctx.local_json(n)[j] == json_file(ctx.with_yank(ctx.local_files[i].file@)),
        ctx.local_json(n).len() <= n,
    decreases n,
{
    if n > 0 {
        let fewer = ctx.local_json(n - 1);
        if j < fewer.len() {
            listed_local_files_are_shown(ctx, n - 1, j);
        } else {
            local_count(ctx, n - 1);
            assert(ctx.serves_local(n - 1));
            let shown = ctx.local_files[n - 1];
            assert(ctx.local_json(n)[j] == json_file(ctx.with_yank(shown.file@)));
        }
        local_count(ctx, n);
    }
}

proof fn local_count(ctx: ContextText, n: int)
    requires
        0 <= n,
    ensures
        ctx.local_json(n).len() <= n,
    decreases n,
{
    if n > 0 {
        local_count(ctx, n - 1);
    }
}

/// The file array opens with the local files, unless the project is quarantined; the upstream ones follow behind a
/// comma where there is any local one.
pub proof fn local_files_stand_first(s: PageState, ctx: ContextText)
    ensures
        s.header.project_status == Some("quarantined"@) ==> s.local_items(ctx).len() == 0,
        s.header.project_status != Some("quarantined"@) ==> s.local_items(ctx) == ctx.local_json(
            ctx.local_files.len() as int,
        ),
        s.local_tally(ctx).emitted_in_array <==> s.local_items(ctx).len() > 0,
        s.local_tally(ctx).registrations == s.tally.registrations,
        s.local_tally(ctx).files_seen == s.tally.files_seen,
{
}

// ---------------------------------------------------------------------------------------------
// The bytes around the elements
// ---------------------------------------------------------------------------------------------

/// Outside the captured elements every byte is copied, but that the local files stand behind the bracket that opens the
/// file array, and a status that the page owes ahead of the brace that closes it.
pub proof fn other_bytes_are_copied(s: PageState, ctx: ContextText, byte: u8)
    requires
        s.lex.mode is Passthrough,
    ensures
        s.lex.active || (byte != 0x7B && byte != 0x5B && byte != 0x7D) ==> s.byte(ctx, byte).1 == seq![byte],
        s.byte(ctx, byte).0.tally.consumed == s.tally.consumed + 1,
        s.byte(ctx, byte).0.tally.registrations == s.tally.registrations,
        s.byte(ctx, byte).0.header.promised == s.header.promised,
        s.byte(ctx, byte).0.header.project_status == s.header.project_status,
        !s.lex.active && s.lex.depth != 1 ==> s.byte(ctx, byte).1 == seq![byte],
        !s.lex.active && byte == 0x7D && s.lex.depth == 1 ==> s.byte(ctx, byte).1 == s.header.seeded_status() + seq![byte],
{
    reveal(PageState::byte);
    reveal(PageState::copied_byte);
    assert(Seq::<u8>::empty() + seq![byte] =~= seq![byte]);
}

/// Nothing of a captured element is copied but the bracket that closes the file array.
pub proof fn captured_bytes_are_not_copied(s: PageState, ctx: ContextText, byte: u8)
    requires
        !(s.lex.mode is Passthrough),
    ensures
        s.byte(ctx, byte).1.len() > 0 ==> s.lex.mode is Files && byte == 0x5D && !s.lex.active && s.lex.depth == 2
            && s.byte(ctx, byte).1 == seq![byte],
        s.lex.mode is Files && byte == 0x5D && !s.lex.active && s.lex.depth == 2 ==> s.byte(ctx, byte).1 == seq![byte],
        s.byte(ctx, byte).0.header == s.header,
        s.byte(ctx, byte).0.tally.registrations == s.tally.registrations,
{
    reveal(PageState::byte);
}

/// At the top of the document the members with a meaning are captured, each where its value is of the kind it should
/// be: `meta` and `project-status` as objects, `files` and `versions` as arrays. Every other value is copied.
pub proof fn members_with_a_meaning_are_captured(s: PageState, ctx: ContextText, byte: u8)
    requires
        s.lex.mode is Passthrough,
        !s.lex.active,
        s.lex.depth == 1,
        byte == 0x7B || byte == 0x5B,
    ensures
        ({
            let (t, out) = s.byte(ctx, byte);
            &&& byte == 0x7B && s.names.key == encode_utf8("meta"@) ==> t.lex.mode is Meta && out.len() == 0
            &&& byte == 0x7B && s.names.key == encode_utf8("project-status"@) && s.names.key != encode_utf8("meta"@)
                ==> t.lex.mode is ProjectStatus && out.len() == 0
            &&& byte == 0x5B && s.names.key == encode_utf8("files"@) ==> t.lex.mode is Files && out.len() > 0 && out[0]
                == 0x5B
            &&& byte == 0x5B && s.names.key == encode_utf8("versions"@) && s.names.key != encode_utf8("files"@)
                ==> t.lex.mode is Versions && out.len() == 0
            &&& byte == 0x7B && s.names.key != encode_utf8("meta"@) && s.names.key != encode_utf8("project-status"@)
                ==> t.lex.mode is Passthrough && out == seq![byte]
            &&& byte == 0x5B && s.names.key != encode_utf8("files"@) && s.names.key != encode_utf8("versions"@)
                ==> t.lex.mode is Passthrough && out == seq![byte]
        }),
{
    reveal(PageState::byte);
    reveal(PageState::copied_byte);
}

// ---------------------------------------------------------------------------------------------
// Versions
// ---------------------------------------------------------------------------------------------

/// A version list is refused exactly where it is no list of strings or says one twice; otherwise it is replaced by the
/// versions that the page lists.
pub proof fn version_lists_are_distinct(s: PageState, ctx: ContextText)
    ensures
        json_strings(s.lex.captured) is None ==> (s.versions_closed(ctx) matches Err(error) && error is Parse),
        json_strings(s.lex.captured) matches Some(declared) ==> {
            &&& s.versions_closed(ctx) is Ok <==> declared.no_duplicates()
            &&& s.versions_closed(ctx) matches Ok((t, out)) ==> t.header.versions_seen && t.lex.mode is Passthrough
                && t.tally == s.tally && out == encode_utf8(
                crate::simple::json::json_list(s.versions_listed(ctx, declared)),
            )
        },
{
    reveal(PageState::versions_closed);
    if json_strings(s.lex.captured) is Some {
        repeats_are_found(json_strings(s.lex.captured)->0);
    }
}

/// A list has a first repeated item exactly where it says one twice.
pub proof fn repeats_are_found(items: Seq<Seq<char>>)
    ensures
        first_repeat(items) is None <==> items.no_duplicates(),
    decreases items.len(),
{
    if items.len() > 0 {
        let fewer = items.drop_last();
        repeats_are_found(fewer);
        if items.no_duplicates() {
            assert(fewer.no_duplicates());
            if fewer.contains(items.last()) {
                let i = choose|i: int| 0 <= i < fewer.len() && fewer[i] == items.last();
                assert(items[i] == items[items.len() - 1]);
            }
        }
        if first_repeat(items) is None {
            assert forall|i: int, j: int| 0 <= i < items.len() && 0 <= j < items.len() && i != j implies items[i]
                != items[j] by {
                if i < fewer.len() && j < fewer.len() {
                    assert(fewer[i] != fewer[j]);
                } else if i < fewer.len() {
                    assert(fewer.contains(fewer[i]));
                } else {
                    assert(fewer.contains(fewer[j]));
                }
            }
        }
    }
}

/// The page lists a version exactly where a served file has it, or the upstream or a local release declares it and
/// policy admits it.
pub proof fn pages_list_served_and_admitted_versions(
    s: PageState,
    ctx: ContextText,
    declared: Seq<Seq<char>>,
    version: Seq<char>,
)
    requires
        s.tally.served.finite(),
        listed_set(ctx.policy.allowed_versions(), declared, ctx.local_versions, listed(s.tally.served)).finite(),
    ensures
        s.versions_listed(ctx, declared).contains(version) <==> s.tally.served.contains(version) || ((
        declared.contains(version) || ctx.local_versions.contains(version)) && (ctx.policy.allowed_versions() matches
            Some(allowed) ==> specifiers_contain(allowed, version) == Some(true))),
        s.versions_listed(ctx, declared).no_duplicates(),
{
    let served = s.tally.served;
    let all = listed_set(ctx.policy.allowed_versions(), declared, ctx.local_versions, listed(served));
    crate::store::txn::finite_sets_are_listed(served);
    crate::store::txn::finite_sets_are_listed(all);
    crate::collections::ascending_distinct(listed(all));
    assert(listed(served).to_set().contains(version) == listed(served).contains(version));
    assert(listed(all).to_set().contains(version) == listed(all).contains(version));
}

// ---------------------------------------------------------------------------------------------
// The page as a whole
// ---------------------------------------------------------------------------------------------

/// A page is accepted exactly where it is one whole document, nothing follows it, it is well formed, and it carries the
/// version list that its API version owes.
pub proof fn finished_pages_are_whole(s: PageState)
    ensures
        s.finished() is None <==> {
            &&& s.lex.depth == 0 && !s.lex.active && s.lex.mode is Passthrough
            &&& !s.tally.trailing
            &&& s.tally.grammar.accepts()
            &&& s.header.promised ==> s.header.versions_seen
        },
        s.lex.depth != 0 ==> s.finished() == Some(TransformErrorText::Truncated),
{
}

/// A status that was resolved beforehand is written once, and only where the page carries none of its own.
pub proof fn owed_statuses_are_written_once(header: HeaderState)
    ensures
        header.owes_status() <==> !(header.status is Emitted) && (header.project_status is Some
            || header.project_status_reason is Some),
        !header.owes_status() ==> header.seeded_status().len() == 0,
        !header.status_settled().owes_status(),
        header.quarantined() <==> header.project_status == Some("quarantined"@),
{
}

// ---------------------------------------------------------------------------------------------
// The object of a file
// ---------------------------------------------------------------------------------------------

/// The object of a file says everything that the file says: each member under its name, and each optional one where
/// the file has it.
pub proof fn file_objects_say_what_the_file_says(file: FileText)
    ensures
        ({
            let text = json_file(file);
            &&& "{\"filename\":"@.is_prefix_of(text)
            &&& holds_text(text, json_string(file.filename))
            &&& holds_text(text, ",\"url\":"@ + json_string(file.url))
            &&& holds_text(text, ",\"hashes\":"@ + json_map(file.hashes))
            &&& file.requires_python matches Some(python) ==> holds_text(
                text,
                ",\"requires-python\":"@ + json_string(python),
            )
            &&& file.size matches Some(size) ==> holds_text(text, ",\"size\":"@ + decimal(size as nat))
            &&& file.upload_time matches Some(time) ==> holds_text(text, ",\"upload-time\":"@ + json_string(time))
            &&& holds_text(text, ",\"yanked\":"@ + json_yanked(file.yanked))
            &&& holds_text(text, ",\"core-metadata\":"@ + json_metadata(file.advertised()))
            &&& !(file.advertised() is Absent) ==> holds_text(
                text,
                ",\"dist-info-metadata\":"@ + json_metadata(file.advertised()),
            )
            &&& file.provenance matches ProvenanceText::Url(url) ==> holds_text(
                text,
                ",\"provenance\":"@ + json_string(url),
            )
            &&& file.provenance is Null ==> holds_text(text, ",\"provenance\":null"@)
        }),
{
    let p0 = "{\"filename\":"@;
    let name = json_string(file.filename);
    let url = ",\"url\":"@ + json_string(file.url);
    let hashes = ",\"hashes\":"@ + json_map(file.hashes);
    let python = crate::simple::json::json_optional(",\"requires-python\":"@, file.requires_python);
    let size = match file.size {
        Some(size) => ",\"size\":"@ + decimal(size as nat),
        None => Seq::empty(),
    };
    let time = crate::simple::json::json_optional(",\"upload-time\":"@, file.upload_time);
    let yanked = ",\"yanked\":"@ + json_yanked(file.yanked);
    let metadata = ",\"core-metadata\":"@ + json_metadata(file.advertised());
    let older = crate::simple::json::json_older_metadata(file.advertised());
    let sig = match file.gpg_sig {
        Some(signed) => ",\"gpg-sig\":"@ + crate::simple::json::json_bool(signed),
        None => Seq::empty(),
    };
    let provenance = crate::simple::json::json_provenance(file.provenance);
    let text = json_file(file);
    let h1 = p0 + name;
    joins_associate(h1, ",\"url\":"@, json_string(file.url));
    let h2 = h1 + url;
    joins_associate(h2, ",\"hashes\":"@, json_map(file.hashes));
    let h3 = h2 + hashes;
    let h4 = h3 + python;
    let h5 = h4 + size;
    let h6 = h5 + time;
    joins_associate(h6, ",\"yanked\":"@, json_yanked(file.yanked));
    let h7 = h6 + yanked;
    joins_associate(h7, ",\"core-metadata\":"@, json_metadata(file.advertised()));
    let h8 = h7 + metadata;
    let h9 = h8 + older;
    let h10 = h9 + sig;
    let h11 = h10 + provenance;
    assert(text == h11 + "}"@);
    let t10 = "}"@;
    part_is_held(text, h10, provenance, t10);
    let t9 = provenance + t10;
    joins_associate(h10, provenance, t10);
    let t8 = sig + t9;
    joins_associate(h9, sig, t9);
    part_is_held(text, h8, older, t8);
    let t7 = older + t8;
    joins_associate(h8, older, t8);
    part_is_held(text, h7, metadata, t7);
    let t6 = metadata + t7;
    joins_associate(h7, metadata, t7);
    part_is_held(text, h6, yanked, t6);
    let t5 = yanked + t6;
    joins_associate(h6, yanked, t6);
    part_is_held(text, h5, time, t5);
    let t4 = time + t5;
    joins_associate(h5, time, t5);
    part_is_held(text, h4, size, t4);
    let t3 = size + t4;
    joins_associate(h4, size, t4);
    part_is_held(text, h3, python, t3);
    let t2 = python + t3;
    joins_associate(h3, python, t3);
    part_is_held(text, h2, hashes, t2);
    let t1 = hashes + t2;
    joins_associate(h2, hashes, t2);
    part_is_held(text, h1, url, t1);
    let t0 = url + t1;
    joins_associate(h1, url, t1);
    part_is_held(text, p0, name, t0);
    joins_associate(p0, name, t0);
    assert((p0 + (name + t0)).subrange(0, p0.len() as int) =~= p0);
}

proof fn joins_associate(a: Seq<char>, b: Seq<char>, c: Seq<char>)
    ensures
        a + b + c == a + (b + c),
{
    assert(a + b + c =~= a + (b + c));
}

proof fn part_is_held(text: Seq<char>, head: Seq<char>, part: Seq<char>, tail: Seq<char>)
    requires
        text == head + part + tail,
    ensures
        holds_text(text, part),
{
    joined_texts_hold(head, part, tail);
}

/// A yank state is told apart: no yank is `false`, a yank `true`, and a yank with a reason the reason itself.
pub proof fn yanks_are_told_apart(yanked: YankedText)
    ensures
        json_yanked(yanked) == "false"@ <==> yanked is No,
        yanked is Yes ==> json_yanked(yanked) == "true"@,
        yanked matches YankedText::Reason(reason) ==> json_yanked(yanked) == json_string(reason),
{
    reveal_strlit("false");
    reveal_strlit("true");
    assert("false"@.len() != "true"@.len());
    if yanked is Reason {
        reveal(crate::outside::json_string);
        reveal_strlit("\"");
        assert(json_yanked(yanked)[0] == '"');
    }
}

/// A name is hidden exactly where an operator hid it, and has a yank of its own exactly where an operator yanked it, with
/// the operator's reason.
pub proof fn operators_hide_and_yank_by_name(overrides: Map<Seq<char>, FileOverride>, name: Seq<char>)
    ensures
        !overrides.contains_key(name) ==> !hidden_names(overrides).contains(name) && !imposed_yanks(
            overrides,
        ).contains_key(name),
        overrides.contains_key(name) ==> (hidden_names(overrides).contains(name) <==> overrides[name].hidden),
        overrides.contains_key(name) && overrides[name].yanked is No ==> !imposed_yanks(overrides).contains_key(name),
        overrides.contains_key(name) ==> (overrides[name].yanked matches Yanked::Reason(why) ==> imposed_yanks(
            overrides,
        ).contains_key(name) && imposed_yanks(overrides)[name] == YankedText::Reason(why@)),
        overrides.contains_key(name) && overrides[name].yanked is Yes ==> imposed_yanks(overrides).contains_key(name)
            && imposed_yanks(overrides)[name] is Yes,
{
}

} // verus!
