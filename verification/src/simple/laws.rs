//! What pages promise: the version they advertise, the status they carry, and that a streamed page is served whole.
use vstd::prelude::*;

use crate::outside::{UrlHostText, UrlText};
use crate::simple::file::{loopback, secure, FileText};
use crate::simple::meta::{
    is_served_meta, is_status_object, status_of_marker, version_served, IncomingMeta, IncomingProjectStatus, Meta,
    ProjectStatus, ProjectStatusObject,
};
use crate::simple::page::{
    blank_header, incoming_reason, incoming_refusal, incoming_status, is_stream_step, missing_member, received, served_meta,
    stream_goes_on, streamed_finished, StreamAction, StreamEvent, StreamedDetail, StreamedError, StreamedHeader,
};
use crate::simple::{SimpleError, SimpleErrorText};
use crate::text::{cut_first, decimal, decimal_reads_back, first_index_of_joined, opt_str, opt_text, u64_of};

verus! {

/// A page of the first major version is served: with all it promises from the second minor version on, and with the
/// least before. One of another major version is refused, and one that says nothing promises the least.
pub proof fn pages_of_the_first_major_version_are_served(major: u64, minor: u64)
    ensures
        version_served(None) == Ok::<Seq<char>, SimpleErrorText>("1.0"@),
        major == 1 && minor >= 1 ==> version_served(Some(decimal(major as nat) + seq!['.'] + decimal(minor as nat))) == Ok::<
            Seq<char>,
            SimpleErrorText,
        >("1.4"@),
        major == 1 && minor == 0 ==> version_served(Some(decimal(major as nat) + seq!['.'] + decimal(minor as nat))) == Ok::<
            Seq<char>,
            SimpleErrorText,
        >("1.0"@),
        major != 1 ==> version_served(Some(decimal(major as nat) + seq!['.'] + decimal(minor as nat))) == Err::<
            Seq<char>,
            SimpleErrorText,
        >(SimpleErrorText::UnsupportedApiVersion(decimal(major as nat) + seq!['.'] + decimal(minor as nat))),
{
    decimal_reads_back(major);
    decimal_reads_back(minor);
    crate::text::decimal_spells(major as nat);
    assert(!decimal(major as nat).contains('.')) by {
        if decimal(major as nat).contains('.') {
            let i = choose|i: int| 0 <= i < decimal(major as nat).len() && decimal(major as nat)[i] == '.';
            assert(crate::text::is_digit(decimal(major as nat)[i]));
        }
    }
    first_index_of_joined(decimal(major as nat), '.', decimal(minor as nat));
}

/// A version that is not two numbers is told as invalid.
pub proof fn versions_are_two_numbers(text: Seq<char>)
    ensures
        cut_first(text, '.') is None ==> version_served(Some(text)) == Err::<Seq<char>, SimpleErrorText>(
            SimpleErrorText::InvalidApiVersion(text),
        ),
        version_served(Some(text)) is Ok ==> (cut_first(text, '.') matches Some((major, minor)) && u64_of(major) == Some(1u64)
            && u64_of(minor) is Some),
{
}

/// Each marker names its status, and no other text names any.
pub proof fn markers_name_their_status(text: Seq<char>)
    ensures
        status_of_marker(text) == Some(ProjectStatus::Active) <==> text == "active"@,
        status_of_marker(text) == Some(ProjectStatus::Archived) ==> text == "archived"@,
        status_of_marker(text) == Some(ProjectStatus::Quarantined) ==> text == "quarantined"@,
        status_of_marker(text) == Some(ProjectStatus::Deprecated) ==> text == "deprecated"@,
        status_of_marker(text) is None <==> text != "active"@ && text != "archived"@ && text != "quarantined"@ && text
            != "deprecated"@,
{
}

/// Metadata is served where its version is and its status is a known one, with both as they were.
pub proof fn metadata_is_served_as_it_was(
    api_version: Option<Seq<char>>,
    project_status: Option<String>,
    project_status_reason: Option<String>,
    r: Result<Meta, SimpleError>,
)
    requires
        is_served_meta(api_version, project_status, project_status_reason, r),
    ensures
        r is Ok <==> version_served(api_version) is Ok && (project_status matches Some(marker) ==> status_of_marker(marker@)
            is Some),
        r matches Ok(meta) ==> meta.project_status == project_status && meta.project_status_reason == project_status_reason
            && version_served(api_version) == Ok::<Seq<char>, SimpleErrorText>(meta.api_version@),
        r matches Ok(meta) ==> (project_status is None ==> meta.status_named() is Active),
        r matches Ok(meta) ==> (project_status matches Some(marker) ==> Some(meta.status_named()) == status_of_marker(
            marker@,
        )),
{
}

/// A page carries a status object exactly where it has a marker or a reason.
pub proof fn status_objects_carry_marker_and_reason(meta: Meta, r: Option<ProjectStatusObject<'_>>)
    requires
        is_status_object(meta, r),
    ensures
        r is Some <==> meta.project_status is Some || meta.project_status_reason is Some,
        r matches Some(object) ==> opt_str(object.status) == opt_text(meta.project_status) && opt_str(object.reason)
            == opt_text(meta.project_status_reason),
{
}

/// A page's own status object wins over the one in its metadata, marker and reason alike.
pub proof fn the_pages_own_status_wins(meta: IncomingMeta, object: IncomingProjectStatus)
    ensures
        incoming_status(meta, Some(object)) == object.status,
        incoming_reason(meta, Some(object)) == object.reason,
        incoming_status(meta, None) == meta.project_status,
        incoming_reason(meta, None) == meta.project_status_reason,
        incoming_refusal(meta, Some(object)) is None <==> version_served(opt_text(meta.api_version)) is Ok && (object.status
            matches Some(marker) ==> status_of_marker(marker@) is Some),
{
}

/// A file of a streamed page is the same file, at its full address.
pub proof fn received_files_are_the_same(base: Seq<char>, file: FileText)
    ensures
        ({
            let r = received(base, file);
            &&& r.filename == file.filename && r.hashes == file.hashes && r.size == file.size && r.yanked == file.yanked
            &&& r.requires_python == file.requires_python && r.upload_time == file.upload_time
            &&& r.core_metadata == file.core_metadata && r.dist_info_metadata == file.dist_info_metadata
        }),
{
}

/// A streamed page is served exactly where its files, its metadata and its name came and its metadata can be served;
/// otherwise the first that is missing is named.
pub proof fn streamed_pages_need_every_member(header: StreamedHeader, r: Result<StreamedDetail, StreamedError>)
    requires
        streamed_finished(header, r),
    ensures
        r is Ok <==> header.files && header.name is Some && header.meta is Some && incoming_refusal(
            header.meta->0,
            header.project_status,
        ) is None,
        !header.files ==> (r matches Err(StreamedError::MissingField(field)) && field@ == "files"@),
        header.files && header.meta is None ==> (r matches Err(StreamedError::MissingField(field)) && field@ == "meta"@),
        header.files && header.meta is Some && header.name is None ==> (r matches Err(StreamedError::MissingField(field))
            && field@ == "name"@),
        r matches Ok(detail) ==> Some(detail.name) == header.name && detail.versions == header.versions && served_meta(
            header.meta->0,
            header.project_status,
            detail.meta,
        ),
        missing_member(header) is None <==> header.files && header.meta is Some && header.name is Some,
{
}

/// Each member is kept as it came, and keeps none of the others back. A decoded file is handed over before the next is
/// read, and a sink that refuses one ends the page.
pub proof fn members_are_kept_as_they_come(
    base: Seq<char>,
    was: StreamedHeader,
    event: StreamEvent,
    now: StreamedHeader,
    action: StreamAction,
)
    requires
        is_stream_step(base, was, event, now, action),
        !(event is Ended),
    ensures
        now.name == (match event {
            StreamEvent::Name(name) => Some(name),
            _ => was.name,
        }),
        now.meta == (match event {
            StreamEvent::Meta(meta) => Some(meta),
            _ => was.meta,
        }),
        now.project_status == (match event {
            StreamEvent::ProjectStatus(status) => Some(status),
            _ => was.project_status,
        }),
        now.versions == (match event {
            StreamEvent::Versions(versions) => versions,
            _ => was.versions,
        }),
        now.files <==> was.files || event is FilesClosed,
        event matches StreamEvent::FileDecoded(file) ==> (action matches StreamAction::Hand(handed) && handed@ == received(
            base,
            file@,
        )),
        action is Fail <==> (event matches StreamEvent::Taken(Err(_))),
        !(action is Done),
{
}

/// A file is handed over only once it is decoded, and nothing follows on a page that was given up or is done.
pub proof fn nothing_follows_on_a_finished_page(action: StreamAction, event: StreamEvent)
    ensures
        stream_goes_on(action, event) ==> !(action is Fail) && !(action is Done),
        stream_goes_on(action, event) && event is Taken ==> action is Hand,
        stream_goes_on(action, event) && action is Hand ==> event is Taken,
        stream_goes_on(action, event) && event is FileDecoded ==> action is NextFile,
        stream_goes_on(action, event) && event is Ended ==> action is NextMember,
{
}

/// A page before its first member has none.
pub proof fn pages_begin_blank(header: StreamedHeader)
    ensures
        blank_header(header) ==> missing_member(header) == Some("files"@) && header.versions@.len() == 0 && header.name
            is None,
{
}

/// An origin is secure over HTTPS, and over HTTP on this machine alone. It has a host and carries no credential.
pub proof fn origins_are_secure(url: UrlText)
    ensures
        secure(url) ==> url.scheme == "https"@ || url.scheme == "http"@,
        secure(url) && url.scheme == "http"@ ==> loopback(url.host),
        url.host is None || url.username.len() > 0 || url.password is Some ==> !secure(url),
        url.scheme == "https"@ && url.host is Some && url.username.len() == 0 && url.password is None ==> secure(url),
        url.scheme == "http"@ && loopback(url.host) && url.username.len() == 0 && url.password is None ==> secure(url),
        url.host matches Some(UrlHostText::Ipv4(first, _, _, _)) ==> (loopback(url.host) <==> first == 127),
        url.host matches Some(UrlHostText::Ipv6(address)) ==> (loopback(url.host) <==> address == 1),
{
    reveal_strlit("https");
    reveal_strlit("http");
    assert("https"@.len() != "http"@.len());
}

} // verus!
