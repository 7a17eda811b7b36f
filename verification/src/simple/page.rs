//! The pages of the Simple API: one project's detail, and the list of all projects.
use vstd::prelude::*;

use super::file::{absolute, absolutize, File, FileText};
use super::meta::{
    status_of_marker, validate_project_status, version_served, IncomingMeta, IncomingProjectStatus, Meta,
};
use super::{SimpleError, SimpleErrorText};
use crate::text::{opt_text, texts};

verus! {

/// A project detail parsed from an upstream response.
pub struct ParsedDetail {
    pub meta: Meta,
    pub name: String,
    pub versions: Vec<String>,
    pub files: Vec<File>,
}

/// The header fields a streamed detail carries alongside its files.
pub struct StreamedDetail {
    pub meta: Meta,
    pub name: String,
    pub versions: Vec<String>,
}

/// A project's detail response.
pub struct ProjectDetail {
    pub meta: Meta,
    pub name: String,
    pub versions: Vec<String>,
    pub files: Vec<File>,
}

/// One entry in the root project list.
pub struct ProjectListEntry {
    pub name: String,
}

/// The root project list.
pub struct ProjectList {
    pub meta: Meta,
    pub projects: Vec<ProjectListEntry>,
}

/// A detail page as an upstream sent it, its fields decoded.
pub struct IncomingDetail {
    pub meta: IncomingMeta,
    pub project_status: Option<IncomingProjectStatus>,
    pub name: String,
    pub versions: Vec<String>,
    pub files: Vec<File>,
}

/// The status marker a decoded detail page carries: its own status object wins over `meta`.
pub open spec fn incoming_status(meta: IncomingMeta, object: Option<IncomingProjectStatus>) -> Option<String> {
    match object {
        Some(object) => object.status,
        None => meta.project_status,
    }
}

/// The status reason a decoded detail page carries.
pub open spec fn incoming_reason(meta: IncomingMeta, object: Option<IncomingProjectStatus>) -> Option<String> {
    match object {
        Some(object) => object.reason,
        None => meta.project_status_reason,
    }
}

/// Why a page with these header fields is refused: its API version first, then its status marker.
pub open spec fn incoming_refusal(
    meta: IncomingMeta,
    object: Option<IncomingProjectStatus>,
) -> Option<SimpleErrorText> {
    match version_served(opt_text(meta.api_version)) {
        Err(refusal) => Some(refusal),
        Ok(_) => match incoming_status(meta, object) {
            Some(marker) if status_of_marker(marker@) is None => Some(
                SimpleErrorText::InvalidProjectStatus(marker@),
            ),
            _ => None,
        },
    }
}

/// Whether `served` is the metadata of a page with these header fields.
pub open spec fn served_meta(meta: IncomingMeta, object: Option<IncomingProjectStatus>, served: Meta) -> bool {
    &&& version_served(opt_text(meta.api_version)) == Ok::<Seq<char>, SimpleErrorText>(served.api_version@)
    &&& served.project_status == incoming_status(meta, object)
    &&& served.project_status_reason == incoming_reason(meta, object)
}

/// Whether a decoded project detail comes to `r`.
pub open spec fn detail_parsed(detail: IncomingDetail, r: Result<ParsedDetail, SimpleError>) -> bool {
    match r {
        Ok(parsed) => incoming_refusal(detail.meta, detail.project_status) is None && served_meta(
            detail.meta,
            detail.project_status,
            parsed.meta,
        ) && parsed.name == detail.name && parsed.versions == detail.versions && parsed.files == detail.files,
        Err(error) => incoming_refusal(detail.meta, detail.project_status) == Some(error@),
    }
}

/// Accept a decoded project detail, or say why the Simple API version or status it advertises is
/// refused.
pub fn parse_detail(detail: IncomingDetail) -> (r: Result<ParsedDetail, SimpleError>)
    ensures
        detail_parsed(detail, r),
{
    match detail.meta.into_detail_meta(detail.project_status) {
        Ok(meta) => Ok(ParsedDetail { meta, name: detail.name, versions: detail.versions, files: detail.files }),
        Err(error) => Err(error),
    }
}

/// A file as it leaves the decoder of a streamed page: its URL resolved against the page's, and its
/// provenance marker kept only where it names a secure URL.
pub open spec fn received(base: Seq<char>, file: FileText) -> FileText {
    FileText { url: absolute(base, file.url), provenance: file.provenance.retained(), ..file }
}

/// Prepare one decoded file of a streamed page for the sink.
pub fn receive_file(base: &str, file: File) -> (r: File)
    ensures
        r@ == received(base@, file@),
{
    let mut file = file;
    absolutize(base, &mut file.url);
    file.provenance.retain_secure_url();
    file
}

/// A receiver for files decoded during a streaming detail parse.
///
/// The parser hands each file over as soon as it is read, so the sink can apply policy and flush
/// bounded batches to storage without the whole document ever living in memory at once.
pub trait DetailSink: Sized {
    /// The sink's own failure, which rejects the document.
    type Error;

    /// Take one file, or abort the parse.
    fn file(&mut self, file: File) -> Result<(), Self::Error>;
}

/// The header fields of a streamed page, as far as they have been decoded.
pub struct StreamedHeader {
    pub meta: Option<IncomingMeta>,
    pub project_status: Option<IncomingProjectStatus>,
    pub name: Option<String>,
    pub versions: Vec<String>,
    /// Whether the file array has been read.
    pub files: bool,
}

/// Why a streamed page cannot be served.
#[derive(Debug)]
pub enum StreamedError {
    /// The member of that name is missing.
    MissingField(&'static str),
    /// The page's header fields are refused.
    Simple(SimpleError),
}

/// The first member a streamed page owes and lacks. The file array is asked for first, then `meta`, then
/// `name`.
pub open spec fn missing_member(header: StreamedHeader) -> Option<Seq<char>> {
    if !header.files {
        Some("files"@)
    } else if header.meta is None {
        Some("meta"@)
    } else if header.name is None {
        Some("name"@)
    } else {
        None
    }
}

/// Whether a streamed page with that header comes to `r`.
pub open spec fn streamed_finished(header: StreamedHeader, r: Result<StreamedDetail, StreamedError>) -> bool {
    match missing_member(header) {
        Some(name) => r matches Err(StreamedError::MissingField(field)) && field@ == name,
        None => match incoming_refusal(header.meta->0, header.project_status) {
            Some(refusal) => r matches Err(StreamedError::Simple(error)) && error@ == refusal,
            None => r matches Ok(detail) && served_meta(header.meta->0, header.project_status, detail.meta) && Some(
                detail.name,
            ) == header.name && detail.versions == header.versions,
        },
    }
}

/// Close a streamed page: every member it owes must have come, and its header fields must be served.
pub fn finish_streamed(header: StreamedHeader) -> (r: Result<StreamedDetail, StreamedError>)
    ensures
        streamed_finished(header, r),
{
    if !header.files {
        return Err(StreamedError::MissingField("files"));
    }
    let meta = match header.meta {
        Some(meta) => meta,
        None => {
            return Err(StreamedError::MissingField("meta"));
        },
    };
    let name = match header.name {
        Some(name) => name,
        None => {
            return Err(StreamedError::MissingField("name"));
        },
    };
    match meta.into_detail_meta(header.project_status) {
        Ok(meta) => Ok(StreamedDetail { meta, name, versions: header.versions }),
        Err(error) => Err(StreamedError::Simple(error)),
    }
}

// ---------------------------------------------------------------------------------------------
// A streamed page, step by step
// ---------------------------------------------------------------------------------------------

/// What was read last of a streamed page.
pub enum StreamEvent {
    Meta(IncomingMeta),
    ProjectStatus(IncomingProjectStatus),
    Name(String),
    Versions(Vec<String>),
    /// The file array has opened.
    FilesOpened,
    /// One file of the array was decoded.
    FileDecoded(File),
    /// The sink took the file it was handed, or said why the page is to be given up.
    Taken(Result<(), String>),
    /// The file array has closed.
    FilesClosed,
    /// A member that has no meaning here was passed over.
    Other,
    /// The page has ended.
    Ended,
}

/// What to do next with a streamed page.
pub enum StreamAction {
    /// Read the next member.
    NextMember,
    /// Decode the next file of the array.
    NextFile,
    /// Hand the file to the sink.
    Hand(File),
    /// Give the page up.
    Fail(String),
    Done(Result<StreamedDetail, StreamedError>),
}

/// The header of a streamed page before anything is read.
pub open spec fn blank_header(header: StreamedHeader) -> bool {
    header.meta is None && header.project_status is None && header.name is None && header.versions@.len() == 0
        && !header.files
}

/// Whether `action` is the step behind `event`, which takes the header of the page from `was` to `now`. A member
/// that comes again replaces the one before it.
pub open spec fn is_stream_step(
    base: Seq<char>,
    was: StreamedHeader,
    event: StreamEvent,
    now: StreamedHeader,
    action: StreamAction,
) -> bool {
    match event {
        StreamEvent::Meta(meta) => action is NextMember && now == (StreamedHeader { meta: Some(meta), ..was }),
        StreamEvent::ProjectStatus(status) => action is NextMember && now == (StreamedHeader {
            project_status: Some(status),
            ..was
        }),
        StreamEvent::Name(name) => action is NextMember && now == (StreamedHeader { name: Some(name), ..was }),
        StreamEvent::Versions(versions) => action is NextMember && now == (StreamedHeader { versions, ..was }),
        StreamEvent::FilesOpened => action is NextFile && now == was,
        StreamEvent::FileDecoded(file) => now == was && (action matches StreamAction::Hand(handed) && handed@ == received(
            base,
            file@,
        )),
        StreamEvent::Taken(Ok(_)) => action is NextFile && now == was,
        StreamEvent::Taken(Err(message)) => action == StreamAction::Fail(message) && now == was,
        StreamEvent::FilesClosed => action is NextMember && now == (StreamedHeader { files: true, ..was }),
        StreamEvent::Other => action is NextMember && now == was,
        StreamEvent::Ended => blank_header(now) && (action matches StreamAction::Done(r) && streamed_finished(was, r)),
    }
}

impl StreamedHeader {
    /// The header of a page before anything is read.
    pub fn new() -> (r: Self)
        ensures
            blank_header(r),
    {
        StreamedHeader { meta: None, project_status: None, name: None, versions: Vec::new(), files: false }
    }

    /// Parse a page step by step, each file going to the sink as soon as it is decoded.
    pub fn step(&mut self, base: &str, event: StreamEvent) -> (r: StreamAction)
        ensures
            is_stream_step(base@, *old(self), event, *final(self), r),
    {
        match event {
            StreamEvent::Meta(meta) => {
                self.meta = Some(meta);
                StreamAction::NextMember
            },
            StreamEvent::ProjectStatus(status) => {
                self.project_status = Some(status);
                StreamAction::NextMember
            },
            StreamEvent::Name(name) => {
                self.name = Some(name);
                StreamAction::NextMember
            },
            StreamEvent::Versions(versions) => {
                self.versions = versions;
                StreamAction::NextMember
            },
            StreamEvent::FilesOpened => StreamAction::NextFile,
            StreamEvent::FileDecoded(file) => StreamAction::Hand(receive_file(base, file)),
            StreamEvent::Taken(Ok(_)) => StreamAction::NextFile,
            StreamEvent::Taken(Err(message)) => StreamAction::Fail(message),
            StreamEvent::FilesClosed => {
                self.files = true;
                StreamAction::NextMember
            },
            StreamEvent::Other => StreamAction::NextMember,
            StreamEvent::Ended => {
                let mut header = StreamedHeader::new();
                core::mem::swap(self, &mut header);
                StreamAction::Done(finish_streamed(header))
            },
        }
    }
}

/// One step of a streamed page: its header before it, what was read, its header behind it, and what is done next.
pub struct StreamMoment {
    pub was: StreamedHeader,
    pub event: StreamEvent,
    pub now: StreamedHeader,
    pub action: StreamAction,
}

/// Whether `event` can follow on `action`.
pub open spec fn stream_goes_on(action: StreamAction, event: StreamEvent) -> bool {
    match action {
        StreamAction::NextMember => event is Meta || event is ProjectStatus || event is Name || event is Versions
            || event is FilesOpened || event is Other || event is Ended,
        StreamAction::NextFile => event is FileDecoded || event is FilesClosed,
        StreamAction::Hand(_) => event is Taken,
        StreamAction::Fail(_) => false,
        StreamAction::Done(_) => false,
    }
}

/// Whether `run` reads a page from its first member on, each event following on the action before it.
pub open spec fn is_stream_run(base: Seq<char>, run: Seq<StreamMoment>) -> bool {
    &&& run.len() > 0
    &&& blank_header(run[0].was)
    &&& stream_goes_on(StreamAction::NextMember, run[0].event)
    &&& forall|i: int|
        0 <= i < run.len() ==> #[trigger] is_stream_step(base, run[i].was, run[i].event, run[i].now, run[i].action)
    &&& forall|i: int|
        0 < i < run.len() ==> (#[trigger] run[i]).was == run[i - 1].now && stream_goes_on(
            run[i - 1].action,
            run[i].event,
        )
}

/// The files that the first `n` steps decoded, in order.
pub open spec fn decoded_files(run: Seq<StreamMoment>, n: int) -> Seq<FileText>
    decreases n,
{
    if n <= 0 {
        Seq::empty()
    } else {
        match run[n - 1].event {
            StreamEvent::FileDecoded(file) => decoded_files(run, n - 1).push(file@),
            _ => decoded_files(run, n - 1),
        }
    }
}

/// The files that the sink took in the first `n` steps, in order.
pub open spec fn taken_files(run: Seq<StreamMoment>, n: int) -> Seq<FileText>
    decreases n,
{
    if n <= 1 {
        Seq::empty()
    } else {
        match (run[n - 2].action, run[n - 1].event) {
            (StreamAction::Hand(file), StreamEvent::Taken(Ok(_))) => taken_files(run, n - 1).push(file@),
            _ => taken_files(run, n - 1),
        }
    }
}

/// The files of a page as they leave the decoder.
pub open spec fn all_received(base: Seq<char>, files: Seq<FileText>) -> Seq<FileText> {
    files.map_values(|file: FileText| received(base, file))
}

proof fn files_taken_so_far(base: Seq<char>, run: Seq<StreamMoment>, n: int)
    requires
        is_stream_run(base, run),
        0 <= n <= run.len(),
    ensures
        n > 0 && run[n - 1].action is Hand ==> all_received(base, decoded_files(run, n)) == taken_files(run, n).push(
            (run[n - 1].action->Hand_0)@,
        ),
        !(n > 0 && (run[n - 1].action is Hand || run[n - 1].action is Fail)) ==> all_received(
            base,
            decoded_files(run, n),
        ) == taken_files(run, n),
    decreases n,
{
    if n > 0 {
        files_taken_so_far(base, run, n - 1);
        assert(is_stream_step(base, run[n - 1].was, run[n - 1].event, run[n - 1].now, run[n - 1].action));
        if n > 1 {
            assert(stream_goes_on(run[n - 2].action, run[n - 1].event));
            assert(is_stream_step(base, run[n - 2].was, run[n - 2].event, run[n - 2].now, run[n - 2].action));
        }
        match run[n - 1].event {
            StreamEvent::FileDecoded(file) => {
                assert(all_received(base, decoded_files(run, n)) =~= all_received(
                    base,
                    decoded_files(run, n - 1),
                ).push(received(base, file@)));
            },
            _ => {},
        }
    } else {
        assert(all_received(base, decoded_files(run, n)) =~= taken_files(run, n));
    }
}

/// The header of a streamed page, all of whose members have come, that decodes to `detail`.
pub open spec fn streamed_header(detail: IncomingDetail) -> StreamedHeader {
    StreamedHeader {
        meta: Some(detail.meta),
        project_status: detail.project_status,
        name: Some(detail.name),
        versions: detail.versions,
        files: true,
    }
}

/// The files of a decoded page, seen as text.
pub open spec fn file_texts(files: Seq<File>) -> Seq<FileText> {
    files.map_values(|file: File| file@)
}

/// Streaming a page and decoding it whole come to the same. Where the members that were read are those of `detail`,
/// one is refused exactly where the other is, for the same reason; where neither is refused, both have the same
/// metadata, name and versions. The sink has taken every file of the page, each once and in the order of the page,
/// changed only as a streamed file is.
pub proof fn streaming_agrees_with_parsing(
    base: Seq<char>,
    detail: IncomingDetail,
    whole: Result<ParsedDetail, SimpleError>,
    run: Seq<StreamMoment>,
)
    requires
        detail_parsed(detail, whole),
        is_stream_run(base, run),
        run.last().event is Ended,
        run.last().was == streamed_header(detail),
        decoded_files(run, run.len() as int) == file_texts(detail.files@),
    ensures
        taken_files(run, run.len() as int) == all_received(base, file_texts(detail.files@)),
        run.last().action matches StreamAction::Done(streamed) && match (whole, streamed) {
            (Ok(parsed), Ok(header)) => parsed.meta.api_version@ == header.meta.api_version@
                && parsed.meta.project_status == header.meta.project_status && parsed.meta.project_status_reason
                == header.meta.project_status_reason && parsed.name == header.name && parsed.versions
                == header.versions && parsed.files == detail.files,
            (Err(error), Err(StreamedError::Simple(other))) => error@ == other@,
            _ => false,
        },
{
    let n = run.len() as int;
    assert(is_stream_step(base, run[n - 1].was, run[n - 1].event, run[n - 1].now, run[n - 1].action));
    files_taken_so_far(base, run, n);
}

/// A file leaves the decoder of a streamed page as it was decoded, but for its URL and its provenance marker.
pub proof fn streamed_files_keep_their_fields(base: Seq<char>, file: FileText)
    ensures
        received(base, file) == (FileText {
            url: received(base, file).url,
            provenance: received(base, file).provenance,
            ..file
        }),
{
}

/// Accept a decoded status object: its marker must be a standard one when it is there.
pub fn parse_project_status(status: IncomingProjectStatus) -> (r: Result<(Option<String>, Option<String>), SimpleError>)
    ensures
        match r {
            Ok((marker, reason)) => marker == status.status && reason == status.reason && (marker is Some
                ==> status_of_marker(marker->0@) is Some),
            Err(error) => status.status is Some && status_of_marker(status.status->0@) is None && error@
                == SimpleErrorText::InvalidProjectStatus(status.status->0@),
        },
{
    match &status.status {
        Some(marker) => match validate_project_status(marker.as_str()) {
            Ok(_) => {},
            Err(error) => {
                return Err(error);
            },
        },
        None => {},
    }
    Ok((status.status, status.reason))
}

/// Accept a decoded root project list.
pub fn parse_index(meta: IncomingMeta, names: Vec<String>) -> (r: Result<ProjectList, SimpleError>)
    ensures
        match r {
            Ok(list) => incoming_refusal(meta, None) is None && served_meta(meta, None, list.meta)
                && list.projects@.map_values(|e: ProjectListEntry| e.name@) == texts(names@),
            Err(error) => incoming_refusal(meta, None) == Some(error@),
        },
{
    let meta = match meta.into_meta() {
        Ok(meta) => meta,
        Err(error) => {
            return Err(error);
        },
    };
    let mut projects: Vec<ProjectListEntry> = Vec::new();
    let mut i: usize = 0;
    while i < names.len()
        invariant
            i <= names@.len(),
            projects@.len() == i,
            forall|j: int| 0 <= j < i ==> (#[trigger] projects@[j]).name@ == names@[j]@,
        decreases names.len() - i,
    {
        projects.push(ProjectListEntry { name: names[i].clone() });
        i = i + 1;
    }
    assert(projects@.map_values(|e: ProjectListEntry| e.name@) =~= texts(names@));
    Ok(ProjectList { meta, projects })
}

} // verus!
