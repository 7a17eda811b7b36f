//! What holds of a page transformation as a whole.
use vstd::prelude::*;

use super::grammar::{is_object_document, validator_accepts_exactly_object_documents};
use super::transformer::{pushed, ContextText, Element, PageState, Rewritten, StatusState};
use super::types::{TransformErrorText, UpstreamFacts};
use super::validator::{grammar_start, Grammar};
use crate::simple::file::{FileText, ProvenanceText};

verus! {

/// Where the chunks of a page are cut does not matter, in the middle of a token or elsewhere: pushing
/// `a` and then `b` leads to the same state, and writes the same bytes, as pushing both at once.
pub proof fn chunk_boundaries_do_not_matter(s: PageState, ctx: ContextText, a: Seq<u8>, b: Seq<u8>)
    requires
        pushed(s, ctx, a).result == Ok::<Option<Element>, TransformErrorText>(None),
    ensures
        ({
            let first = pushed(s, ctx, a);
            let second = pushed(first.state, ctx, b);
            let whole = pushed(s, ctx, a + b);
            &&& whole.state == second.state
            &&& whole.out == first.out + second.out
            &&& whole.used == first.used + second.used
            &&& whole.result == second.result
        }),
    decreases a.len(),
{
    if a.len() == 0 {
        assert(a + b =~= b);
        assert(pushed(s, ctx, a).out + pushed(s, ctx, b).out =~= pushed(s, ctx, b).out);
    } else {
        assert((a + b)[0] == a[0]);
        assert((a + b).skip(1) =~= a.skip(1) + b);
        let (t, out) = s.byte(ctx, a[0]);
        if t.lex.pending is None {
            chunk_boundaries_do_not_matter(t, ctx, a.skip(1), b);
            let first = pushed(t, ctx, a.skip(1));
            let second = pushed(first.state, ctx, b);
            assert(out + (first.out + second.out) =~= (out + first.out) + second.out);
        } else {
            let (u, more) = t.versions_closed(ctx)->Ok_0;
            chunk_boundaries_do_not_matter(u, ctx, a.skip(1), b);
            let first = pushed(u, ctx, a.skip(1));
            let second = pushed(first.state, ctx, b);
            assert((out + more) + (first.out + second.out) =~= ((out + more) + first.out) + second.out);
        }
    }
}

/// A push that stops at an element has not looked at the bytes behind it: they may be pushed later, or be
/// others.
pub proof fn bytes_behind_an_element_do_not_matter(s: PageState, ctx: ContextText, a: Seq<u8>, b: Seq<u8>)
    requires
        !(pushed(s, ctx, a).result == Ok::<Option<Element>, TransformErrorText>(None)),
    ensures
        pushed(s, ctx, a + b) == pushed(s, ctx, a),
    decreases a.len(),
{
    if a.len() > 0 {
        assert((a + b)[0] == a[0]);
        assert((a + b).skip(1) =~= a.skip(1) + b);
        let (t, out) = s.byte(ctx, a[0]);
        if t.lex.pending is None {
            bytes_behind_an_element_do_not_matter(t, ctx, a.skip(1), b);
        } else if t.lex.pending == Some(Element::Versions) {
            if t.versions_closed(ctx) is Ok {
                bytes_behind_an_element_do_not_matter(t.versions_closed(ctx)->Ok_0.0, ctx, a.skip(1), b);
            }
        }
    }
}

/// A quarantined project's page lists no file, local or upstream, and registers none.
pub proof fn quarantined_pages_list_no_file(s: PageState, ctx: ContextText, file: FileText, up: UpstreamFacts)
    requires
        s.header.quarantined(),
    ensures
        s.local_items(ctx).len() == 0,
        s.rewritten(ctx, file, up) matches Ok(outcome) ==> outcome.written is None && outcome.registration is None,
{
}

/// A name in `skip`, so each hidden or locally shadowed one, is never written for an upstream file.
pub proof fn skipped_files_are_not_written(s: PageState, ctx: ContextText, file: FileText, up: UpstreamFacts)
    requires
        ctx.skip.contains(file.filename),
    ensures
        s.rewritten(ctx, file, up) matches Ok(outcome) ==> outcome.written is None && outcome.registration is None,
{
}

/// A hidden name is never written for a local file.
pub proof fn hidden_local_files_are_not_written(ctx: ContextText, i: int)
    requires
        0 <= i < ctx.local_files.len(),
        ctx.hidden.contains(ctx.local_files[i].file.filename@),
    ensures
        !ctx.serves_local(i),
{
}

/// A content-addressed file is written at this registry's URL and never with a signature marker, and one
/// that is written elsewhere than it came from is registered under the digest it came with.
pub proof fn content_addressed_files_are_readdressed(
    s: PageState,
    ctx: ContextText,
    file: FileText,
    up: UpstreamFacts,
)
    requires
        file.sha256() is Some,
    ensures
        s.rewritten(ctx, file, up) matches Ok(outcome) ==> (outcome.written matches Some(written) ==> {
            &&& written.gpg_sig is None
            &&& written.filename == file.filename
            &&& written.hashes == file.hashes
            &&& !up.already_local ==> written.url == up.local_url@ && outcome.registration is Some
                && outcome.registration->0.sha256 == file.sha256()->0 && outcome.registration->0.filename
                == file.filename
        }),
{
}

/// No insecure provenance URL leaves the transformation: what is registered for a file is a secure URL,
/// and what is written is that URL or one of this registry's.
pub proof fn provenance_is_secure(s: PageState, ctx: ContextText, file: FileText, up: UpstreamFacts)
    ensures
        s.rewritten(ctx, file, up) matches Ok(outcome) ==> {
            &&& outcome.registration matches Some(registration) ==> (registration.provenance matches Some(url) ==> (
            file.provenance.secure_url() == Some(url)))
            &&& outcome.written matches Some(written) ==> match written.provenance {
                ProvenanceText::Url(url) => file.provenance.secure_url() == Some(url) || url
                    == up.local_provenance_url@,
                _ => true,
            }
        },
{
}

/// Each byte of a page is read by the grammar, whatever the page does with it.
proof fn a_byte_advances_the_grammar(s: PageState, ctx: ContextText, byte: u8)
    ensures
        s.byte(ctx, byte).0.tally.grammar == s.tally.grammar.after(byte),
{
    reveal(PageState::byte);
    reveal(PageState::copied_byte);
}

proof fn first_then_rest(g: Grammar, a: Seq<u8>)
    requires
        a.len() > 0,
    ensures
        g.after_all(a) == g.after(a[0]).after_all(a.skip(1)),
    decreases a.len(),
{
    if a.len() == 1 {
        assert(a.drop_last() =~= Seq::<u8>::empty());
        assert(a.skip(1) =~= Seq::<u8>::empty());
        assert(g.after_all(a.drop_last()) == g);
    } else {
        first_then_rest(g, a.drop_last());
        assert(a.drop_last()[0] == a[0]);
        assert(a.drop_last().skip(1) =~= a.skip(1).drop_last());
        assert(a.skip(1).last() == a.last());
    }
}

/// The grammar has read exactly the bytes that pushes used: none is passed over, and none is read twice. A
/// push that stops for nothing has used its whole chunk.
pub proof fn pushing_reads_what_it_uses(s: PageState, ctx: ContextText, a: Seq<u8>)
    ensures
        ({
            let push = pushed(s, ctx, a);
            &&& push.used <= a.len()
            &&& push.state.tally.grammar == s.tally.grammar.after_all(a.take(push.used as int))
            &&& push.result == Ok::<Option<Element>, TransformErrorText>(None) ==> push.used == a.len()
        }),
    decreases a.len(),
{
    let push = pushed(s, ctx, a);
    if a.len() == 0 {
        assert(a.take(0) =~= Seq::<u8>::empty());
    } else {
        a_byte_advances_the_grammar(s, ctx, a[0]);
        let (t, _) = s.byte(ctx, a[0]);
        let used = a.take(push.used as int);
        if t.lex.pending is None {
            pushing_reads_what_it_uses(t, ctx, a.skip(1));
            assert(used.skip(1) =~= a.skip(1).take(push.used - 1));
            first_then_rest(s.tally.grammar, used);
        } else if t.lex.pending == Some(Element::Versions) && t.versions_closed(ctx) is Ok {
            let u = t.versions_closed(ctx)->Ok_0.0;
            reveal(PageState::versions_closed);
            pushing_reads_what_it_uses(u, ctx, a.skip(1));
            assert(used.skip(1) =~= a.skip(1).take(push.used - 1));
            first_then_rest(s.tally.grammar, used);
        } else {
            assert(used =~= seq![a[0]]);
            first_then_rest(s.tally.grammar, used);
            assert(used.skip(1) =~= Seq::<u8>::empty());
        }
    }
}

/// A page that finishes is a whole JSON document whose root is an object: nothing truncated, malformed or
/// followed by anything else is ever taken for a page. `bytes` are all the bytes that were pushed.
pub proof fn finished_pages_are_object_documents(s: PageState, bytes: Seq<u8>)
    requires
        s.tally.grammar == grammar_start().after_all(bytes),
        s.finished() is None,
    ensures
        is_object_document(bytes),
{
    validator_accepts_exactly_object_documents(bytes);
}

proof fn a_byte_keeps_the_status(s: PageState, ctx: ContextText, byte: u8)
    ensures
        ({
            let (t, _) = s.byte(ctx, byte);
            &&& t.header.project_status == s.header.project_status
            &&& t.header.project_status_reason == s.header.project_status_reason
            &&& t.header.meta_seen == s.header.meta_seen
            &&& t.header.status == s.header.status || t.header.status == StatusState::Emitted
            &&& s.header.known() ==> t.header.known() && t.header.files_precede_headers
                == s.header.files_precede_headers
        }),
{
    reveal(PageState::byte);
    reveal(PageState::copied_byte);
}

/// A page whose status was seeded keeps it to its end, whatever bytes are pushed: the status and its reason
/// stay as they were seeded, the headers stay known, and no file precedes them any more.
pub proof fn seeded_status_stays(s: PageState, ctx: ContextText, chunk: Seq<u8>)
    requires
        s.header.known(),
    ensures
        ({
            let t = pushed(s, ctx, chunk).state;
            &&& t.header.known()
            &&& t.header.project_status == s.header.project_status
            &&& t.header.project_status_reason == s.header.project_status_reason
            &&& t.header.quarantined() == s.header.quarantined()
            &&& t.header.files_precede_headers == s.header.files_precede_headers
        }),
    decreases chunk.len(),
{
    if chunk.len() > 0 {
        a_byte_keeps_the_status(s, ctx, chunk[0]);
        let (t, _) = s.byte(ctx, chunk[0]);
        if t.lex.pending is None {
            seeded_status_stays(t, ctx, chunk.skip(1));
        } else if t.lex.pending == Some(Element::Versions) && t.versions_closed(ctx) is Ok {
            reveal(PageState::versions_closed);
            seeded_status_stays(t.versions_closed(ctx)->Ok_0.0, ctx, chunk.skip(1));
        }
    }
}

/// An upstream file leaves the status of its page as it is.
pub proof fn files_keep_the_status(s: PageState, up: UpstreamFacts, outcome: Rewritten)
    ensures
        s.file_accepted(up, outcome).header == s.header,
{
}

/// A page whose bytes are a whole JSON document with an object at its root, none of whose elements was refused, and
/// which carries the version list that it owes, finishes. `bytes` are all the bytes that were pushed.
pub proof fn object_documents_finish(s: PageState, bytes: Seq<u8>)
    requires
        s.reachable(),
        s.lex.pending is None,
        s.tally.grammar == grammar_start().after_all(bytes),
        is_object_document(bytes),
        s.header.promised ==> s.header.versions_seen,
    ensures
        s.finished() is None,
{
    validator_accepts_exactly_object_documents(bytes);
    reveal(PageState::in_step);
}

} // verus!
