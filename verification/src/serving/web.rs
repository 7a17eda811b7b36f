//! The browse routes' own replies, and the page a browser uploads from.
use vstd::prelude::*;

use crate::outside::{quoted, quoted_text};
use crate::serving::access::Denial;
use crate::serving::reply::{
    challenge, plain, reply, unauthorized, Reply, ReplyText, FORBIDDEN, INTERNAL_SERVER_ERROR, NOT_FOUND, OK,
};
use crate::serving::upload::METHOD_NOT_ALLOWED;
use crate::text::{replace, replaced, text_eq};

verus! {

// ---------------------------------------------------------------------------------------------
// The upload page
// ---------------------------------------------------------------------------------------------

/// An index as the upload page may offer it.
pub struct OfferedIndex {
    pub route: String,
    pub name: String,
    /// Whether it is one of this ecosystem's.
    pub of_ecosystem: bool,
    /// Whether it takes uploads.
    pub uploads: bool,
}

/// A text that stands in a page as it is.
pub open spec fn escaped(value: Seq<char>) -> Seq<char> {
    replaced(
        replaced(
            replaced(replaced(replaced(value, seq!['&'], "&amp;"@), seq!['<'], "&lt;"@), seq!['>'], "&gt;"@),
            seq!['"'],
            "&quot;"@,
        ),
        seq!['\''],
        "&#39;"@,
    )
}

/// Escape a text for a page.
pub fn escape(value: &str) -> (r: String)
    ensures
        r@ == escaped(value@),
{
    proof {
        reveal_strlit("&");
        reveal_strlit("<");
        reveal_strlit(">");
        reveal_strlit("\"");
        reveal_strlit("'");
        assert("&"@ =~= seq!['&']);
        assert("<"@ =~= seq!['<']);
        assert(">"@ =~= seq!['>']);
        assert("\""@ =~= seq!['"']);
        assert("'"@ =~= seq!['\'']);
    }
    let s = replace(value, "&", "&amp;");
    let s = replace(s.as_str(), "<", "&lt;");
    let s = replace(s.as_str(), ">", "&gt;");
    let s = replace(s.as_str(), "\"", "&quot;");
    replace(s.as_str(), "'", "&#39;")
}

proof fn replacing_removes(s: Seq<char>, c: char, to: Seq<char>)
    requires
        !to.contains(c),
    ensures
        !replaced(s, seq![c], to).contains(c),
    decreases s.len(),
{
    let from = seq![c];
    let r = replaced(s, from, to);
    if s.len() > 0 {
        let (front, rest) = if from.is_prefix_of(s) {
            (to, s.skip(1))
        } else {
            (seq![s[0]], s.drop_first())
        };
        replacing_removes(rest, c, to);
        assert(s.skip(1) =~= s.drop_first());
        if !from.is_prefix_of(s) {
            assert(s[0] != c) by {
                if s[0] == c {
                    assert(from =~= s.subrange(0, 1));
                }
            }
        }
        assert(r == front + replaced(rest, from, to));
        if r.contains(c) {
            let i = choose|i: int| 0 <= i < r.len() && r[i] == c;
            if i < front.len() {
                assert(front[i] == c);
                assert(front.contains(c));
            } else {
                assert(replaced(rest, from, to)[i - front.len()] == c);
            }
        }
    }
}

proof fn replacing_adds_nothing(s: Seq<char>, c: char, to: Seq<char>, d: char)
    requires
        !to.contains(d),
        !s.contains(d),
    ensures
        !replaced(s, seq![c], to).contains(d),
    decreases s.len(),
{
    let from = seq![c];
    let r = replaced(s, from, to);
    if s.len() > 0 {
        let rest = s.drop_first();
        assert(s.skip(1) =~= rest);
        let front = if from.is_prefix_of(s) {
            to
        } else {
            seq![s[0]]
        };
        assert(s.contains(s[0]));
        assert(!rest.contains(d)) by {
            if rest.contains(d) {
                let i = choose|i: int| 0 <= i < rest.len() && rest[i] == d;
                assert(s[i + 1] == d);
            }
        }
        replacing_adds_nothing(rest, c, to, d);
        assert(r == front + replaced(rest, from, to));
        if r.contains(d) {
            let i = choose|i: int| 0 <= i < r.len() && r[i] == d;
            if i < front.len() {
                assert(front[i] == d);
                assert(front.contains(d));
            } else {
                assert(replaced(rest, from, to)[i - front.len()] == d);
            }
        }
    }
}

/// An escaped text ends no element, opens none, and leaves no attribute it stands in.
pub proof fn escaped_text_is_no_markup(value: Seq<char>)
    ensures
        !escaped(value).contains('<'),
        !escaped(value).contains('>'),
        !escaped(value).contains('"'),
        !escaped(value).contains('\''),
{
    reveal_strlit("&amp;");
    reveal_strlit("&lt;");
    reveal_strlit("&gt;");
    reveal_strlit("&quot;");
    reveal_strlit("&#39;");
    assert("&lt;"@ =~= seq!['&', 'l', 't', ';']);
    assert("&gt;"@ =~= seq!['&', 'g', 't', ';']);
    assert("&quot;"@ =~= seq!['&', 'q', 'u', 'o', 't', ';']);
    assert("&#39;"@ =~= seq!['&', '#', '3', '9', ';']);
    let a = replaced(value, seq!['&'], "&amp;"@);
    let b = replaced(a, seq!['<'], "&lt;"@);
    let c = replaced(b, seq!['>'], "&gt;"@);
    let d = replaced(c, seq!['"'], "&quot;"@);
    replacing_removes(a, '<', "&lt;"@);
    replacing_removes(b, '>', "&gt;"@);
    replacing_adds_nothing(b, '>', "&gt;"@, '<');
    replacing_removes(c, '"', "&quot;"@);
    replacing_adds_nothing(c, '"', "&quot;"@, '<');
    replacing_adds_nothing(c, '"', "&quot;"@, '>');
    replacing_removes(d, '\'', "&#39;"@);
    replacing_adds_nothing(d, '\'', "&#39;"@, '<');
    replacing_adds_nothing(d, '\'', "&#39;"@, '>');
    replacing_adds_nothing(d, '\'', "&#39;"@, '"');
}

/// The choice of an index.
pub open spec fn option_text(index: OfferedIndex) -> Seq<char> {
    "<option value=\"/"@ + escaped(index.route@) + "/\">"@ + escaped(index.name@) + " ("@ + escaped(index.route@)
        + ")</option>"@
}

/// The choices of the first `n` indexes that take uploads.
pub open spec fn options(indexes: Seq<OfferedIndex>, n: int) -> Seq<char>
    decreases n,
{
    if n <= 0 {
        Seq::empty()
    } else {
        let before = options(indexes, n - 1);
        if indexes[n - 1].of_ecosystem && indexes[n - 1].uploads {
            before + option_text(indexes[n - 1])
        } else {
            before
        }
    }
}

fn option_of(index: &OfferedIndex) -> (r: String)
    ensures
        r@ == option_text(*index),
{
    let route = escape(index.route.as_str());
    let name = escape(index.name.as_str());
    let mut out = "<option value=\"/".to_owned();
    out.append(route.as_str());
    out.append("/\">");
    out.append(name.as_str());
    out.append(" (");
    out.append(route.as_str());
    out.append(")</option>");
    out
}

/// The page a browser uploads from, with a choice for each index that takes uploads.
pub fn upload_page(indexes: &Vec<OfferedIndex>) -> (r: Reply)
    ensures
        r@ == plain(OK, HEAD@ + options(indexes@, indexes@.len() as int) + TAIL@).with(
            "content-type"@,
            "text/html; charset=utf-8"@,
        ).with("cache-control"@, "no-store"@),
{
    let mut html = HEAD.to_owned();
    let mut i: usize = 0;
    assert(html@ =~= HEAD@ + options(indexes@, 0));
    while i < indexes.len()
        invariant
            i <= indexes@.len(),
            html@ == HEAD@ + options(indexes@, i as int),
        decreases indexes.len() - i,
    {
        let index = &indexes[i];
        if index.of_ecosystem && index.uploads {
            let ghost so_far = html@;
            let choice = option_of(index);
            html.append(choice.as_str());
            assert(html@ =~= HEAD@ + (options(indexes@, i as int) + option_text(*index)));
        }
        i = i + 1;
    }
    html.append(TAIL);
    reply(OK, html.as_str()).with_header("content-type", "text/html; charset=utf-8").with_header(
        "cache-control",
        "no-store",
    )
}

// ---------------------------------------------------------------------------------------------
// Browse replies
// ---------------------------------------------------------------------------------------------

/// What a request to a browse path is for.
pub enum BrowseRoute {
    Answer(Reply),
    UploadPage,
    Browse,
}

/// Whether `r` is what a request to a browse path is for.
pub open spec fn is_browse_route(path: Seq<char>, is_get: bool, r: BrowseRoute) -> bool {
    if path == "/upload"@ {
        if is_get {
            r is UploadPage
        } else {
            r matches BrowseRoute::Answer(answer) && answer@ == plain(METHOD_NOT_ALLOWED, Seq::empty())
        }
    } else {
        r is Browse
    }
}

/// Whether a request is for the upload page, which is only read.
pub fn browse_route(path: &str, is_get: bool) -> (r: BrowseRoute)
    ensures
        is_browse_route(path@, is_get, r),
{
    if text_eq(path, "/upload") {
        if is_get {
            return BrowseRoute::UploadPage;
        }
        return BrowseRoute::Answer(bare(METHOD_NOT_ALLOWED));
    }
    BrowseRoute::Browse
}

fn bare(status: u16) -> (r: Reply)
    ensures
        r@ == plain(status, Seq::empty()),
{
    proof {
        reveal_strlit("");
        assert(""@ =~= Seq::<char>::empty());
    }
    reply(status, "")
}

/// Whether `r` is the position of the first index of this ecosystem at a route.
pub open spec fn is_browsed(indexes: Seq<OfferedIndex>, route: Seq<char>, r: Option<usize>) -> bool {
    match r {
        Some(p) => p < indexes.len() && indexes[p as int].route@ == route && indexes[p as int].of_ecosystem
            && forall|i: int|
            0 <= i < p ==> !((#[trigger] indexes[i]).route@ == route && indexes[i].of_ecosystem),
        None => forall|i: int|
            0 <= i < indexes.len() ==> !((#[trigger] indexes[i]).route@ == route && indexes[i].of_ecosystem),
    }
}

/// The position of the first index of this ecosystem at a route.
pub fn browsed_index(indexes: &Vec<OfferedIndex>, route: &str) -> (r: Option<usize>)
    ensures
        is_browsed(indexes@, route@, r),
{
    let mut i: usize = 0;
    while i < indexes.len()
        invariant
            i <= indexes@.len(),
            forall|j: int|
                0 <= j < i ==> !((#[trigger] indexes@[j]).route@ == route@ && indexes@[j].of_ecosystem),
        decreases indexes.len() - i,
    {
        if text_eq(indexes[i].route.as_str(), route) && indexes[i].of_ecosystem {
            return Some(i);
        }
        i = i + 1;
    }
    None
}

/// What a browse came to.
pub enum BrowseOutcome {
    /// A page, whose JSON form is the body.
    Page(String),
    Missing,
    Denied(Denial),
    Refused { content_type: String, body: String },
    Internal(String),
}

/// What a browse is answered. A page is never kept by a cache.
pub open spec fn browse_reply(outcome: BrowseOutcome) -> ReplyText {
    match outcome {
        BrowseOutcome::Page(body) => plain(OK, body@).with("content-type"@, "application/json"@).with(
            "cache-control"@,
            "no-store"@,
        ),
        BrowseOutcome::Missing => plain(NOT_FOUND, Seq::empty()),
        BrowseOutcome::Denied(Denial::Unauthenticated) => challenge(),
        BrowseOutcome::Denied(_) => plain(FORBIDDEN, Seq::empty()),
        BrowseOutcome::Refused { content_type, body } => plain(FORBIDDEN, body@).with("content-type"@, content_type@),
        BrowseOutcome::Internal(message) => plain(INTERNAL_SERVER_ERROR, message@),
    }
}

/// Answer a browse.
pub fn browse_response(outcome: &BrowseOutcome) -> (r: Reply)
    ensures
        r@ == browse_reply(*outcome),
{
    match outcome {
        BrowseOutcome::Page(body) => reply(OK, body.as_str()).with_header(
            "content-type",
            "application/json",
        ).with_header("cache-control", "no-store"),
        BrowseOutcome::Missing => bare(NOT_FOUND),
        BrowseOutcome::Denied(Denial::Unauthenticated) => unauthorized(),
        BrowseOutcome::Denied(_) => bare(FORBIDDEN),
        BrowseOutcome::Refused { content_type, body } => reply(FORBIDDEN, body.as_str()).with_header(
            "content-type",
            content_type.as_str(),
        ),
        BrowseOutcome::Internal(message) => reply(INTERNAL_SERVER_ERROR, message.as_str()),
    }
}

/// What failing to resolve a browsed project is told as.
pub fn detail_failure(route: &str, project: &str, message: &str) -> (r: String)
    ensures
        r@ == "project detail on index "@ + quoted_text(route@) + " for project "@ + quoted_text(project@) + ": "@
            + message@,
{
    let mut out = "project detail on index ".to_owned();
    let at = quoted(route);
    out.append(at.as_str());
    out.append(" for project ");
    let name = quoted(project);
    out.append(name.as_str());
    out.append(": ");
    out.append(message);
    out
}

/// What failing to fetch a browsed project's metadata is told as.
pub fn metadata_fetch_failure(route: &str, filename: &str, digest: &str, message: &str) -> (r: String)
    ensures
        r@ == "metadata fetch on index "@ + quoted_text(route@) + " for file "@ + quoted_text(filename@)
            + " with digest "@ + digest@ + ": "@ + message@,
{
    let mut out = "metadata fetch on index ".to_owned();
    let at = quoted(route);
    out.append(at.as_str());
    out.append(" for file ");
    let name = quoted(filename);
    out.append(name.as_str());
    out.append(" with digest ");
    out.append(digest);
    out.append(": ");
    out.append(message);
    out
}

/// What failing to parse a browsed project's metadata is told as.
pub fn metadata_parse_failure(route: &str, filename: &str, message: &str) -> (r: String)
    ensures
        r@ == "metadata parse on index "@ + quoted_text(route@) + " for file "@ + quoted_text(filename@) + ": "@
            + message@,
{
    let mut out = "metadata parse on index ".to_owned();
    let at = quoted(route);
    out.append(at.as_str());
    out.append(" for file ");
    let name = quoted(filename);
    out.append(name.as_str());
    out.append(": ");
    out.append(message);
    out
}

/// What stands before the choices on the upload page.
pub const HEAD: &'static str = r#"<!doctype html><html lang="en"><head><meta charset="utf-8"><meta name="viewport" content="width=device-width,initial-scale=1"><title>PyPI upload</title><style>body{font:16px/1.5 sans-serif;max-width:48rem;margin:4rem auto;padding:0 1rem}form{display:grid;gap:1rem}label{display:grid;gap:.35rem}button{width:max-content}progress{width:100%}</style></head><body><main><h1>PyPI upload</h1><p>Choose one wheel or source distribution. The repository size limit applies.</p><form id="upload"><label>Repository<select id="repository" required>"#;

/// What stands behind them.
pub const TAIL: &'static str = r#"</select></label><label>Upload token<input id="token" type="password" autocomplete="off" required></label><label>Distribution<input id="artifact" type="file" name="content" accept=".whl,.tar.gz" required></label><div><button id="submit" type="submit">Upload</button> <button id="cancel" type="button" disabled>Cancel</button></div><progress id="progress" value="0" max="100"></progress><output id="outcome"></output></form></main><script>'use strict';const form=document.querySelector('#upload'),repository=document.querySelector('#repository'),token=document.querySelector('#token'),artifact=document.querySelector('#artifact'),submit=document.querySelector('#submit'),cancel=document.querySelector('#cancel'),progress=document.querySelector('#progress'),outcome=document.querySelector('#outcome');let request=null;const finish=()=>{request=null;submit.disabled=false;cancel.disabled=true};form.addEventListener('submit',event=>{event.preventDefault();const file=artifact.files[0],name=(file?.name||'').toLowerCase();if(!file||(!name.endsWith('.whl')&&!name.endsWith('.tar.gz'))){outcome.value='Choose one wheel or .tar.gz source distribution.';return}request=new XMLHttpRequest();request.open('POST',repository.value,true);request.setRequestHeader('authorization','Basic '+btoa('__token__:'+token.value));request.setRequestHeader('x-peryx-csrf',location.origin);request.upload.onprogress=event=>{if(event.lengthComputable)progress.value=Math.min(100,event.loaded/event.total*100)};request.onloadend=()=>{const body=(request.responseText||'').trim().slice(0,512),success=request.status>=200&&request.status<300;outcome.value=success?file.name+': uploaded':request.status>=500?file.name+': server could not store the upload':body||file.name+': upload failed ('+request.status+')';progress.value=request.status<400?100:0;finish()};request.onerror=()=>{outcome.value=file.name+': connection failed';progress.value=0;finish()};submit.disabled=true;cancel.disabled=false;outcome.value=file.name+': uploading';progress.value=0;const data=new FormData();data.append('content',file,file.name);request.send(data)});cancel.addEventListener('click',()=>{if(request){request.abort();outcome.value='Upload cancelled.';progress.value=0;finish()}});</script></body></html>"#;

} // verus!
