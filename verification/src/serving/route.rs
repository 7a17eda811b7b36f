//! Reading the path of a `GET` within an index, and answering the pages it names.
use vstd::prelude::*;

use crate::search::scope::IndexKind;
use crate::serving::negotiate::Format;
use crate::serving::reply::{plain, reply, Reply, ReplyText, BAD_REQUEST, MOVED_PERMANENTLY, NOT_ACCEPTABLE, NOT_FOUND};
use crate::serving::response::{
    cache_error_response, detail_error, detail_reply, detail_response, error_reply, html_page, json_page,
    legacy_bytes_response, legacy_json_response, legacy_page, legacy_reply, page_of, project_context, CacheContext,
    CacheError, CacheErrorKind, DetailPage, MIME_HTML, MIME_JSON,
};
use crate::text::{
    contains_char, cut_first, cut_prefix, cut_suffix, opt_as_str, opt_str, opt_text, pieces, split, split_once,
    starts_with, strip_prefix, strip_suffix, text_eq, texts, trim_trailing, without_trailing,
};

verus! {

/// What a path segment decodes to.
pub enum Segment {
    /// It does not decode; the text says why.
    Undecodable(String),
    /// It decodes to something that no path may hold; the text says why.
    Unsafe(String),
    Good(Name),
}

/// A decoded segment.
pub struct Name {
    pub text: String,
    pub normalized: String,
    /// Whether it is a name that a project may have.
    pub is_project_name: bool,
}

// ---------------------------------------------------------------------------------------------
// Simple API paths
// ---------------------------------------------------------------------------------------------

/// The raw segment of a Simple API project path, and whether a slash ends the path.
pub open spec fn simple_path(rest: Seq<char>) -> Option<(Seq<char>, bool)> {
    match cut_prefix(rest, "simple/"@) {
        None => None,
        Some(project) => {
            let (segment, slash) = match cut_suffix(project, "/"@) {
                Some(segment) => (segment, true),
                None => (project, false),
            };
            if segment.len() == 0 || segment.contains('/') {
                None
            } else {
                Some((segment, slash))
            }
        },
    }
}

/// The raw segment of a Simple API project path, and whether a slash ends the path.
pub fn simple_segment<'a>(rest: &'a str) -> (r: Option<(&'a str, bool)>)
    ensures
        match r {
            Some((segment, slash)) => simple_path(rest@) == Some((segment@, slash)),
            None => simple_path(rest@) is None,
        },
{
    let project = match strip_prefix(rest, "simple/") {
        Some(project) => project,
        None => {
            return None;
        },
    };
    let (segment, slash) = match strip_suffix(project, "/") {
        Some(segment) => (segment, true),
        None => (project, false),
    };
    if segment.unicode_len() == 0 || contains_char(segment, '/') {
        None
    } else {
        Some((segment, slash))
    }
}

/// A project that a Simple API path names.
pub struct SimpleProject {
    pub normalized: String,
    pub trailing_slash: bool,
}

/// Whether `r` is what a Simple API project path names.
pub open spec fn is_simple_project(rest: Seq<char>, segment: Segment, r: Result<Option<SimpleProject>, Reply>) -> bool {
    match simple_path(rest) {
        None => r matches Ok(None),
        Some((_, slash)) => match segment {
            Segment::Undecodable(message) | Segment::Unsafe(message) => r matches Err(answer) && answer@ == plain(
                BAD_REQUEST,
                message@,
            ),
            Segment::Good(name) => if name.is_project_name {
                r matches Ok(Some(project)) && project.normalized@ == name.normalized@ && project.trailing_slash
                    == slash
            } else {
                r matches Ok(None)
            },
        },
    }
}

/// Read a Simple API project path, of which `segment` is the decoded part. A segment that no project may
/// be named names none.
pub fn simple_project(rest: &str, segment: &Segment) -> (r: Result<Option<SimpleProject>, Reply>)
    ensures
        is_simple_project(rest@, *segment, r),
{
    let slash: bool = match simple_segment(rest) {
        Some((_, slash)) => slash,
        None => {
            return Ok(None);
        },
    };
    match segment {
        Segment::Undecodable(message) => Err(reply(BAD_REQUEST, message.as_str())),
        Segment::Unsafe(message) => Err(reply(BAD_REQUEST, message.as_str())),
        Segment::Good(name) => {
            if !name.is_project_name {
                return Ok(None);
            }
            Ok(Some(SimpleProject { normalized: name.normalized.clone(), trailing_slash: slash }))
        },
    }
}

// ---------------------------------------------------------------------------------------------
// Legacy JSON paths
// ---------------------------------------------------------------------------------------------

/// Whether another route owns the path.
pub open spec fn owned_elsewhere(rest: Seq<char>) -> bool {
    cut_prefix(rest, "simple/"@) is Some || cut_prefix(rest, "files/"@) is Some || cut_prefix(rest, "inspect/"@) is Some
}

/// The raw project and version of a legacy JSON path. The Simple API and the file and inspect routes own
/// their namespaces, so a project named `json` is not claimed here as the legacy view of `simple`.
pub open spec fn legacy_path(rest: Seq<char>) -> Option<(Seq<char>, Option<Seq<char>>)> {
    if owned_elsewhere(rest) {
        None
    } else {
        match cut_suffix(without_trailing(rest, '/'), "/json"@) {
            None => None,
            Some(spec_part) => match cut_first(spec_part, '/') {
                None => Some((spec_part, None)),
                Some((project, version)) => Some((project, Some(version))),
            },
        }
    }
}

/// The raw project and version of a legacy JSON path.
pub fn legacy_segments<'a>(rest: &'a str) -> (r: Option<(&'a str, Option<&'a str>)>)
    ensures
        match r {
            Some((project, version)) => legacy_path(rest@) == Some((project@, opt_str(version))),
            None => legacy_path(rest@) is None,
        },
{
    if starts_with(rest, "simple/") || starts_with(rest, "files/") || starts_with(rest, "inspect/") {
        return None;
    }
    let trimmed = trim_trailing(rest, '/');
    match strip_suffix(trimmed, "/json") {
        None => None,
        Some(target) => match split_once(target, '/') {
            None => Some((target, None)),
            Some((project, version)) => Some((project, Some(version))),
        },
    }
}

/// What a legacy JSON path asks for.
pub struct LegacyJsonTarget {
    pub project: String,
    pub version: Option<String>,
}

/// Why a legacy path is refused: a segment that does not decode first, then one that is unsafe, the
/// project's before the version's.
pub open spec fn legacy_refusal(project: Segment, version: Option<Segment>) -> Option<Seq<char>> {
    match project {
        Segment::Undecodable(message) => Some(message@),
        _ => match version {
            Some(Segment::Undecodable(message)) => Some(message@),
            _ => match project {
                Segment::Unsafe(message) => Some(message@),
                _ => match version {
                    Some(Segment::Unsafe(message)) => Some(message@),
                    _ => None,
                },
            },
        },
    }
}

/// Whether `r` is what a legacy JSON path asks for.
pub open spec fn is_legacy_target(
    rest: Seq<char>,
    project: Segment,
    version: Option<Segment>,
    r: Result<Option<LegacyJsonTarget>, Reply>,
) -> bool {
    match legacy_path(rest) {
        None => r matches Ok(None),
        Some(_) => match legacy_refusal(project, version) {
            Some(message) => r matches Err(answer) && answer@ == plain(BAD_REQUEST, message),
            None => r matches Ok(Some(target)) && target.project@ == (project->Good_0).normalized@ && opt_text(
                target.version,
            ) == (match version {
                Some(version) => Some((version->Good_0).text@),
                None => None,
            }),
        },
    }
}

/// Read a legacy JSON path, of which `project` and `version` are the decoded parts.
pub fn legacy_json_target(rest: &str, project: &Segment, version: &Option<Segment>) -> (r: Result<
    Option<LegacyJsonTarget>,
    Reply,
>)
    requires
        legacy_path(rest@) is Some ==> (version is Some) == ((legacy_path(rest@)->0).1 is Some),
    ensures
        is_legacy_target(rest@, *project, *version, r),
{
    if legacy_segments(rest).is_none() {
        return Ok(None);
    }
    match project {
        Segment::Undecodable(message) => {
            return Err(reply(BAD_REQUEST, message.as_str()));
        },
        _ => {},
    }
    match version {
        Some(Segment::Undecodable(message)) => {
            return Err(reply(BAD_REQUEST, message.as_str()));
        },
        _ => {},
    }
    let name = match project {
        Segment::Unsafe(message) | Segment::Undecodable(message) => {
            return Err(reply(BAD_REQUEST, message.as_str()));
        },
        Segment::Good(name) => name,
    };
    match version {
        None => Ok(Some(LegacyJsonTarget { project: name.normalized.clone(), version: None })),
        Some(Segment::Unsafe(message)) | Some(Segment::Undecodable(message)) => Err(
            reply(BAD_REQUEST, message.as_str()),
        ),
        Some(Segment::Good(version)) => Ok(
            Some(LegacyJsonTarget { project: name.normalized.clone(), version: Some(version.text.clone()) }),
        ),
    }
}

// ---------------------------------------------------------------------------------------------
// Which project, which route
// ---------------------------------------------------------------------------------------------

/// The raw filename of a file or inspect path.
pub open spec fn addressed_file(rest: Seq<char>) -> Option<Seq<char>> {
    let target = match cut_prefix(rest, "files/"@) {
        Some(target) => Some(target),
        None => cut_prefix(rest, "inspect/"@),
    };
    match target {
        Some(target) => if pieces(target, '/').len() > 1 {
            Some(pieces(target, '/')[1])
        } else {
            None
        },
        None => None,
    }
}

/// The raw filename of a file or inspect path.
pub fn addressed_filename(rest: &str) -> (r: Option<String>)
    ensures
        opt_text(r) == addressed_file(rest@),
{
    let target = match strip_prefix(rest, "files/") {
        Some(target) => target,
        None => match strip_prefix(rest, "inspect/") {
            Some(target) => target,
            None => {
                return None;
            },
        },
    };
    let parts = split(target, '/');
    assert(texts(parts@) == pieces(target@, '/'));
    assert(parts@.len() == pieces(target@, '/').len());
    if parts.len() > 1 {
        assert(texts(parts@)[1] == parts@[1]@);
        Some(parts[1].clone())
    } else {
        None
    }
}

/// Whether `r` is the project that a `GET` addresses.
pub open spec fn is_requested(
    legacy: Result<Option<LegacyJsonTarget>, Reply>,
    simple: Result<Option<SimpleProject>, Reply>,
    file_project: Option<String>,
    r: Option<String>,
) -> bool {
    opt_text(r) == (match legacy {
        Ok(Some(target)) => Some(target.project@),
        _ => match simple {
            Ok(Some(project)) => Some(project.normalized@),
            _ => opt_text(file_project),
        },
    })
}

/// The project a `GET` addresses, so a token scoped to some of an index's projects reaches those and no
/// others: the one its path names, or the one that `file_project` says the addressed file belongs to. A
/// path that cannot be read as a project addresses none.
pub fn requested_project(
    legacy: &Result<Option<LegacyJsonTarget>, Reply>,
    simple: &Result<Option<SimpleProject>, Reply>,
    file_project: &Option<String>,
) -> (r: Option<String>)
    ensures
        is_requested(*legacy, *simple, *file_project, r),
{
    match legacy {
        Ok(Some(target)) => {
            return Some(target.project.clone());
        },
        _ => {},
    }
    match simple {
        Ok(Some(project)) => {
            return Some(project.normalized.clone());
        },
        _ => {},
    }
    crate::text::opt_clone(file_project)
}

/// What a `GET` within an index asks for.
pub enum GetRoute {
    Refused(Reply),
    LegacyJson(LegacyJsonTarget),
    /// The project list, without its slash.
    ListRedirect,
    List,
    Project(SimpleProject),
    File(String),
    Inspect(String),
    NotFound,
}

/// Whether `r` is what a `GET` within an index asks for.
pub open spec fn is_route(
    rest: Seq<char>,
    legacy: Result<Option<LegacyJsonTarget>, Reply>,
    simple: Result<Option<SimpleProject>, Reply>,
    r: GetRoute,
) -> bool {
    match legacy {
        Err(answer) => r == GetRoute::Refused(answer),
        Ok(Some(target)) => r == GetRoute::LegacyJson(target),
        Ok(None) => if rest == "simple"@ {
            r == GetRoute::ListRedirect
        } else if rest == "simple/"@ {
            r == GetRoute::List
        } else {
            match simple {
                Err(answer) => r == GetRoute::Refused(answer),
                Ok(Some(project)) => r == GetRoute::Project(project),
                Ok(None) => match cut_prefix(rest, "files/"@) {
                    Some(file) => r matches GetRoute::File(target) && target@ == file,
                    None => match cut_prefix(rest, "inspect/"@) {
                        Some(file) => r matches GetRoute::Inspect(target) && target@ == file,
                        None => r == GetRoute::NotFound,
                    },
                },
            }
        },
    }
}

/// Route a `GET` within an index, of which `legacy` and `simple` are the readings of its path.
pub fn get_route(
    rest: &str,
    legacy: Result<Option<LegacyJsonTarget>, Reply>,
    simple: Result<Option<SimpleProject>, Reply>,
) -> (r: GetRoute)
    ensures
        is_route(rest@, legacy, simple, r),
{
    match legacy {
        Err(answer) => {
            return GetRoute::Refused(answer);
        },
        Ok(Some(target)) => {
            return GetRoute::LegacyJson(target);
        },
        Ok(None) => {},
    }
    if text_eq(rest, "simple") {
        return GetRoute::ListRedirect;
    }
    if text_eq(rest, "simple/") {
        return GetRoute::List;
    }
    match simple {
        Err(answer) => {
            return GetRoute::Refused(answer);
        },
        Ok(Some(project)) => {
            return GetRoute::Project(project);
        },
        Ok(None) => {},
    }
    match strip_prefix(rest, "files/") {
        Some(file) => {
            return GetRoute::File(file.to_owned());
        },
        None => {},
    }
    match strip_prefix(rest, "inspect/") {
        Some(target) => GetRoute::Inspect(target.to_owned()),
        None => GetRoute::NotFound,
    }
}

/// A Simple API address without its slash is redirected to the one with it. `rest` is the end of the
/// request's path, so what stands before it is the index's own prefix. The query is carried across.
pub fn simple_slash_redirect(path: &str, query: Option<&str>, rest: &str, canonical_tail: &str) -> (r: Reply)
    requires
        cut_suffix(path@, rest@) is Some,
    ensures
        r@ == redirect(
            cut_suffix(path@, rest@)->0 + canonical_tail@ + (match query {
                Some(query) => "?"@ + query@,
                None => Seq::empty(),
            }),
        ),
{
    let prefix = match strip_suffix(path, rest) {
        Some(prefix) => prefix,
        None => "",
    };
    let mut location = prefix.to_owned();
    location.append(canonical_tail);
    let ghost so_far = location@;
    match query {
        Some(query) => {
            location.append("?");
            location.append(query);
            assert(location@ =~= so_far + ("?"@ + query@));
        },
        None => {
            assert(location@ =~= so_far + Seq::<char>::empty());
        },
    }
    proof {
        reveal_strlit("");
        assert(""@ =~= Seq::<char>::empty());
    }
    reply(MOVED_PERMANENTLY, "").with_header("location", location.as_str())
}

/// A permanent redirect.
pub open spec fn redirect(location: Seq<char>) -> ReplyText {
    plain(MOVED_PERMANENTLY, Seq::empty()).with("location"@, location)
}

/// What a client that accepts no representation is answered.
pub open spec fn unacceptable() -> ReplyText {
    plain(NOT_ACCEPTABLE, "no acceptable Simple API representation"@).with("vary"@, "Accept"@)
}

/// Answer a client that accepts no representation.
pub fn simple_not_acceptable_response() -> (r: Reply)
    ensures
        r@ == unacceptable(),
{
    reply(NOT_ACCEPTABLE, "no acceptable Simple API representation").with_header("vary", "Accept")
}

// ---------------------------------------------------------------------------------------------
// A project page, step by step
// ---------------------------------------------------------------------------------------------

/// What to do next for a project page.
pub enum PageStep {
    Answer(Reply),
    /// Answer with these headers and the page that the last step produced as the body.
    ServePage(Reply),
    /// Redirect to the project's canonical address, whose end the text is.
    Redirect(String),
    /// Stream the JSON page from the cache.
    Stream,
    /// Look for a rendered HTML page.
    ReadRendered,
    /// Resolve the page from its records.
    Resolve,
    /// Answer with a page just rendered, and keep the rendering while it stays fresh when `keep` says so.
    Rendered { answer: Reply, keep: bool },
}

/// How a project page is started.
pub open spec fn opened(project: SimpleProject, format: Option<Format>, step: PageStep) -> bool {
    if !project.trailing_slash {
        step matches PageStep::Redirect(tail) && tail@ == "simple/"@ + project.normalized@ + "/"@
    } else {
        match format {
            None => step matches PageStep::Answer(answer) && answer@ == unacceptable(),
            Some(Format::Json) => step == PageStep::Stream,
            Some(Format::Html) => step == PageStep::ReadRendered,
        }
    }
}

/// Start on a project page: its canonical address ends in a slash, and its format is negotiated.
pub fn open_page(project: &SimpleProject, format: Option<Format>) -> (r: PageStep)
    ensures
        opened(*project, format, r),
{
    if !project.trailing_slash {
        let mut tail = "simple/".to_owned();
        tail.append(project.normalized.as_str());
        tail.append("/");
        return PageStep::Redirect(tail);
    }
    match format {
        None => PageStep::Answer(simple_not_acceptable_response()),
        Some(Format::Json) => PageStep::Stream,
        Some(Format::Html) => PageStep::ReadRendered,
    }
}

/// What streaming a page came to.
pub enum PageOutcome {
    /// The page, whole or as a stream, at a serial.
    Page(Option<u64>),
    NotFound,
    /// The page cannot be streamed.
    Fallback,
    Failed(CacheError),
}

/// How a page goes on from streaming.
pub open spec fn after_stream(
    outcome: PageOutcome,
    index: Seq<char>,
    project: Seq<char>,
    action: Seq<char>,
    step: PageStep,
) -> bool {
    match outcome {
        PageOutcome::Page(last_serial) => step matches PageStep::ServePage(answer) && answer@ == page_of(
            MIME_JSON@,
            Seq::empty(),
            last_serial,
        ),
        PageOutcome::NotFound => step matches PageStep::Answer(answer) && answer@ == plain(
            NOT_FOUND,
            "project not found"@,
        ),
        PageOutcome::Fallback => step == PageStep::Resolve,
        PageOutcome::Failed(error) => if error.kind is Simple {
            step matches PageStep::Answer(answer) && answer@ == detail_error(error, index, project, action)
        } else {
            step == PageStep::Resolve
        },
    }
}

/// Go on from streaming a page: a page is served as it comes, an upstream page out of form is reported,
/// and any other failure falls back to resolving the page.
pub fn streamed_page(outcome: PageOutcome, index: &str, project: &str, action: &str) -> (r: PageStep)
    ensures
        after_stream(outcome, index@, project@, action@, r),
{
    match outcome {
        PageOutcome::Page(last_serial) => {
            proof {
                reveal_strlit("");
                assert(""@ =~= Seq::<char>::empty());
            }
            PageStep::ServePage(json_page("", last_serial))
        },
        PageOutcome::NotFound => PageStep::Answer(reply(NOT_FOUND, "project not found")),
        PageOutcome::Fallback => PageStep::Resolve,
        PageOutcome::Failed(error) => {
            if matches!(error.kind, CacheErrorKind::Simple) {
                return PageStep::Answer(detail_response(&Err(error), index, project, action));
            }
            PageStep::Resolve
        },
    }
}

/// A rendered page that the cache held.
pub struct RenderedPage {
    pub body: String,
    pub last_serial: Option<u64>,
}

/// How a page goes on from looking for a rendering.
pub open spec fn after_lookup(
    found: Result<Option<RenderedPage>, CacheError>,
    index: Seq<char>,
    project: Seq<char>,
    action: Seq<char>,
    step: PageStep,
) -> bool {
    match found {
        Ok(Some(page)) => step matches PageStep::Answer(answer) && answer@ == page_of(
            MIME_HTML@,
            page.body@,
            page.last_serial,
        ),
        Ok(None) => step == PageStep::Resolve,
        Err(error) => step matches PageStep::Answer(answer) && answer@ == error_reply(
            error,
            project_context("project detail"@, index, project),
            action,
        ),
    }
}

/// Go on from looking for a rendered HTML page.
pub fn rendered_page(
    found: &Result<Option<RenderedPage>, CacheError>,
    index: &str,
    project: &str,
    action: &str,
) -> (r: PageStep)
    ensures
        after_lookup(*found, index@, project@, action@, r),
{
    match found {
        Ok(Some(page)) => PageStep::Answer(html_page(page.body.as_str(), page.last_serial)),
        Ok(None) => PageStep::Resolve,
        Err(error) => PageStep::Answer(cache_error_response(error, CacheContext::project(index, project), action)),
    }
}

/// How a page goes on from being resolved.
pub open spec fn after_resolve(
    resolved: Result<Option<DetailPage>, CacheError>,
    html: Option<Seq<char>>,
    index: Seq<char>,
    project: Seq<char>,
    action: Seq<char>,
    step: PageStep,
) -> bool {
    match (resolved, html) {
        (Ok(Some(page)), Some(html)) => step matches PageStep::Rendered { answer, keep } && answer@ == page_of(
            MIME_HTML@,
            html,
            page.last_serial,
        ) && keep == !page.revoked_files_removed,
        _ => step matches PageStep::Answer(answer) && answer@ == detail_reply(
            resolved,
            index,
            project,
            action,
        ),
    }
}

/// Go on from resolving a page. `html` is its rendering in HTML when that was asked for. A page from which
/// revoked files were taken is not kept: the revocation may be lifted.
pub fn resolved_page(
    resolved: &Result<Option<DetailPage>, CacheError>,
    html: Option<&str>,
    index: &str,
    project: &str,
    action: &str,
) -> (r: PageStep)
    ensures
        after_resolve(*resolved, opt_str(html), index@, project@, action@, r),
{
    match (resolved, html) {
        (Ok(Some(page)), Some(html)) => PageStep::Rendered {
            answer: html_page(html, page.last_serial),
            keep: !page.revoked_files_removed,
        },
        _ => PageStep::Answer(detail_response(resolved, index, project, action)),
    }
}

/// The variant under which a legacy JSON document is kept: `base`, or `base/version`.
pub fn legacy_variant(base: &str, version: &Option<String>) -> (r: String)
    ensures
        r@ == (match *version {
            Some(version) => base@ + "/"@ + version@,
            None => base@,
        }),
{
    let mut out = base.to_owned();
    match version {
        Some(version) => {
            out.append("/");
            out.append(version.as_str());
        },
        None => {},
    }
    out
}

/// How a legacy JSON document goes on from looking for a rendering.
pub open spec fn after_legacy_lookup(
    found: Result<Option<RenderedPage>, CacheError>,
    index: Seq<char>,
    project: Seq<char>,
    action: Seq<char>,
    r: PageStep,
) -> bool {
    match found {
        Ok(Some(page)) => r matches PageStep::Answer(answer) && answer@ == legacy_page(
            page.body@,
            page.last_serial,
        ),
        Ok(None) => r == PageStep::Resolve,
        Err(error) => r matches PageStep::Answer(answer) && answer@ == error_reply(
            error,
            project_context("project detail"@, index, project),
            action,
        ),
    }
}

/// Go on from looking for a rendered legacy JSON document.
pub fn rendered_legacy(
    found: &Result<Option<RenderedPage>, CacheError>,
    index: &str,
    project: &str,
    action: &str,
) -> (r: PageStep)
    ensures
        after_legacy_lookup(*found, index@, project@, action@, r),
{
    match found {
        Ok(Some(page)) => PageStep::Answer(legacy_bytes_response(page.body.as_str(), page.last_serial)),
        Ok(None) => PageStep::Resolve,
        Err(error) => PageStep::Answer(cache_error_response(error, CacheContext::project(index, project), action)),
    }
}

/// How a legacy JSON document goes on from being resolved.
pub open spec fn after_legacy_resolve(
    resolved: Result<Option<DetailPage>, CacheError>,
    body: Option<Seq<char>>,
    index: Seq<char>,
    target: LegacyJsonTarget,
    action: Seq<char>,
    r: PageStep,
) -> bool {
    match (resolved, body) {
        (Ok(Some(page)), Some(body)) => r matches PageStep::Rendered { answer, keep } && answer@ == legacy_page(
            body,
            page.last_serial,
        ) && keep == !page.revoked_files_removed,
        _ => r matches PageStep::Answer(answer) && answer@ == legacy_reply(
            resolved,
            index,
            target.project@,
            opt_text(target.version),
            action,
        ),
    }
}

/// Go on from resolving a page for a legacy JSON request. `body` is the document, when the resolved page
/// has the release asked for.
pub fn resolved_legacy(
    resolved: &Result<Option<DetailPage>, CacheError>,
    body: Option<&str>,
    index: &str,
    target: &LegacyJsonTarget,
    action: &str,
) -> (r: PageStep)
    ensures
        after_legacy_resolve(*resolved, opt_str(body), index@, *target, action@, r),
{
    match (resolved, body) {
        (Ok(Some(page)), Some(body)) => PageStep::Rendered {
            answer: legacy_bytes_response(body, page.last_serial),
            keep: !page.revoked_files_removed,
        },
        _ => PageStep::Answer(
            legacy_json_response(resolved, index, target.project.as_str(), opt_as_str(&target.version), action),
        ),
    }
}

/// What happened last on the way to a page.
pub enum GetEvent {
    /// The path was read, and this is what it asks for; `format` is what the request accepts.
    Routed(GetRoute, Option<Format>),
    Streamed(PageOutcome),
    /// A rendering was looked for.
    LookedUp(Result<Option<RenderedPage>, CacheError>),
    /// The page was resolved, and rendered in HTML when that was asked for.
    Resolved(Result<Option<DetailPage>, CacheError>, Option<String>),
}

/// What to do next for a `GET`.
pub enum GetAction {
    Page(PageStep),
    LegacyJson(LegacyJsonTarget),
    /// Redirect to the project list's canonical address.
    ListRedirect,
    /// Serve the project list in a format.
    List(Format),
    File(String),
    Inspect(String),
}

/// Whether `r` is the step behind `event` on the way to what a `GET` asks for.
pub open spec fn is_get_step(event: GetEvent, index: Seq<char>, project: Seq<char>, action: Seq<char>, r: GetAction) -> bool {
    match event {
        GetEvent::Routed(GetRoute::Refused(answer), _) => r == GetAction::Page(PageStep::Answer(answer)),
        GetEvent::Routed(GetRoute::LegacyJson(target), _) => r == GetAction::LegacyJson(target),
        GetEvent::Routed(GetRoute::ListRedirect, _) => r is ListRedirect,
        GetEvent::Routed(GetRoute::List, Some(format)) => r == GetAction::List(format),
        GetEvent::Routed(GetRoute::List, None) => r matches GetAction::Page(PageStep::Answer(answer)) && answer@
            == unacceptable(),
        GetEvent::Routed(GetRoute::Project(found), format) => r matches GetAction::Page(step) && opened(
            found,
            format,
            step,
        ),
        GetEvent::Routed(GetRoute::File(file), _) => r == GetAction::File(file),
        GetEvent::Routed(GetRoute::Inspect(target), _) => r == GetAction::Inspect(target),
        GetEvent::Routed(GetRoute::NotFound, _) => r matches GetAction::Page(PageStep::Answer(answer)) && answer@
            == crate::serving::reply::missing(),
        GetEvent::Streamed(outcome) => r matches GetAction::Page(step) && after_stream(
            outcome,
            index,
            project,
            action,
            step,
        ),
        GetEvent::LookedUp(found) => r matches GetAction::Page(step) && after_lookup(
            found,
            index,
            project,
            action,
            step,
        ),
        GetEvent::Resolved(resolved, html) => r matches GetAction::Page(step) && after_resolve(
            resolved,
            opt_text(html),
            index,
            project,
            action,
            step,
        ),
    }
}

/// Answer a `GET` within an index, step by step. `project` is the project asked for, once that is known.
pub fn pypi_get(event: GetEvent, index: &str, project: &str, action: &str) -> (r: GetAction)
    ensures
        is_get_step(event, index@, project@, action@, r),
{
    match event {
        GetEvent::Routed(route, format) => match route {
            GetRoute::Refused(answer) => GetAction::Page(PageStep::Answer(answer)),
            GetRoute::LegacyJson(target) => GetAction::LegacyJson(target),
            GetRoute::ListRedirect => GetAction::ListRedirect,
            GetRoute::List => match format {
                Some(format) => GetAction::List(format),
                None => GetAction::Page(PageStep::Answer(simple_not_acceptable_response())),
            },
            GetRoute::Project(found) => GetAction::Page(open_page(&found, format)),
            GetRoute::File(file) => GetAction::File(file),
            GetRoute::Inspect(target) => GetAction::Inspect(target),
            GetRoute::NotFound => GetAction::Page(PageStep::Answer(crate::serving::reply::not_found())),
        },
        GetEvent::Streamed(outcome) => GetAction::Page(streamed_page(outcome, index, project, action)),
        GetEvent::LookedUp(found) => GetAction::Page(rendered_page(&found, index, project, action)),
        GetEvent::Resolved(resolved, html) => GetAction::Page(
            resolved_page(&resolved, opt_as_str(&html), index, project, action),
        ),
    }
}

/// What happened last on the way to a legacy JSON document.
pub enum LegacyEvent {
    /// A rendering was looked for.
    LookedUp(Result<Option<RenderedPage>, CacheError>),
    /// The page was resolved, and rendered when it has the release asked for.
    Resolved(Result<Option<DetailPage>, CacheError>, Option<String>),
}

/// Whether `r` is the step behind `event` on the way to a legacy JSON document.
pub open spec fn is_legacy_step(event: LegacyEvent, index: Seq<char>, target: LegacyJsonTarget, action: Seq<char>, r: PageStep) -> bool {
    match event {
        LegacyEvent::LookedUp(Ok(Some(page))) => r matches PageStep::Answer(answer) && answer@ == legacy_page(
            page.body@,
            page.last_serial,
        ),
        LegacyEvent::LookedUp(Ok(None)) => r is Resolve,
        LegacyEvent::LookedUp(Err(error)) => r matches PageStep::Answer(answer) && answer@ == error_reply(
            error,
            project_context("project detail"@, index, target.project@),
            action,
        ),
        LegacyEvent::Resolved(Ok(Some(page)), Some(body)) => r matches PageStep::Rendered { answer, keep }
            && answer@ == legacy_page(body@, page.last_serial) && keep == !page.revoked_files_removed,
        LegacyEvent::Resolved(resolved, _) => r matches PageStep::Answer(answer) && answer@ == legacy_reply(
            resolved,
            index,
            target.project@,
            opt_text(target.version),
            action,
        ),
    }
}

/// Answer a legacy JSON request, step by step: a kept rendering first, then the resolved page.
pub fn legacy_json_route(event: LegacyEvent, index: &str, target: &LegacyJsonTarget, action: &str) -> (r: PageStep)
    ensures
        is_legacy_step(event, index@, *target, action@, r),
{
    match event {
        LegacyEvent::LookedUp(found) => rendered_legacy(&found, index, target.project.as_str(), action),
        LegacyEvent::Resolved(resolved, body) => resolved_legacy(
            &resolved,
            opt_as_str(&body),
            index,
            target,
            action,
        ),
    }
}

// ---------------------------------------------------------------------------------------------
// Replicas and cache policy
// ---------------------------------------------------------------------------------------------

/// Whether a replica would, by serving content at `last_serial`, expose metadata past the readable
/// frontier.
///
/// A hosted index's serial is one the frontier governs. A cached index reports its upstream's, which it
/// does not. A virtual index carries none of its own but may surface a hosted member's content, so it is
/// held until the whole store is readable; a store serial that cannot be read counts as past the frontier.
pub open spec fn held(
    read_only: bool,
    frontier: u64,
    kind: IndexKind,
    layers_hosted: bool,
    current_serial: Option<u64>,
    last_serial: Option<u64>,
) -> bool {
    read_only && match kind {
        IndexKind::Hosted => last_serial is Some && last_serial->0 > frontier,
        IndexKind::Cached => false,
        IndexKind::Virtual { .. } => layers_hosted && (current_serial is None || current_serial->0 > frontier),
    }
}

/// Whether a replica holds a read. An unreadable frontier reads as zero, so a replica fails closed.
pub fn holds_below_readable_frontier(
    read_only: bool,
    frontier: Option<u64>,
    kind: &IndexKind,
    layers_hosted: bool,
    current_serial: Option<u64>,
    last_serial: Option<u64>,
) -> (r: bool)
    ensures
        r == held(
            read_only,
            match frontier {
                Some(serial) => serial,
                None => 0,
            },
            *kind,
            layers_hosted,
            current_serial,
            last_serial,
        ),
{
    if !read_only {
        return false;
    }
    let frontier: u64 = match frontier {
        Some(serial) => serial,
        None => 0,
    };
    match kind {
        IndexKind::Hosted => match last_serial {
            Some(serial) => serial > frontier,
            None => false,
        },
        IndexKind::Cached => false,
        IndexKind::Virtual { .. } => layers_hosted && match current_serial {
            Some(serial) => serial > frontier,
            None => true,
        },
    }
}

/// The primary is never read-only, so it holds no read.
pub proof fn the_primary_holds_nothing(
    frontier: u64,
    kind: IndexKind,
    layers_hosted: bool,
    current_serial: Option<u64>,
    last_serial: Option<u64>,
)
    ensures
        !held(false, frontier, kind, layers_hosted, current_serial, last_serial),
{
}

/// The cache policy of a reply under digest revocations: a document that its origin may change is always
/// revalidated, any other success is kept for a short while, and nothing else is kept.
pub open spec fn revocation_policy(
    status: u16,
    cache_control: Option<Seq<char>>,
    authenticated: bool,
    ttl_secs: u64,
) -> Seq<char> {
    if cache_control == Some("no-cache"@) {
        if authenticated {
            "private, no-cache"@
        } else {
            "public, no-cache"@
        }
    } else if 200 <= status < 300 || status == 304 {
        (if authenticated {
            "private"@
        } else {
            "public"@
        }) + ", max-age="@ + crate::text::decimal(ttl_secs as nat) + ", must-revalidate, no-transform"@
    } else {
        "no-store"@
    }
}

/// The cache policy of a reply under digest revocations. A `304` keeps the policy of the `200` it
/// validated, so that a cache does not drop the artifact it just revalidated.
pub fn revocation_cache_policy(status: u16, cache_control: Option<&str>, authenticated: bool, ttl_secs: u64) -> (r:
    String)
    ensures
        r@ == revocation_policy(status, opt_str(cache_control), authenticated, ttl_secs),
{
    let revalidated: bool = match cache_control {
        Some(value) => text_eq(value, "no-cache"),
        None => false,
    };
    if revalidated {
        return if authenticated {
            "private, no-cache".to_owned()
        } else {
            "public, no-cache".to_owned()
        };
    }
    if (200 <= status && status < 300) || status == 304 {
        let mut out = if authenticated {
            "private".to_owned()
        } else {
            "public".to_owned()
        };
        out.append(", max-age=");
        let secs = crate::text::decimal_text(ttl_secs);
        out.append(secs.as_str());
        out.append(", must-revalidate, no-transform");
        out
    } else {
        "no-store".to_owned()
    }
}

} // verus!
