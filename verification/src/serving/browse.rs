//! The browse view of projects, files and archives.
use vstd::prelude::*;

use crate::outside::{
    compile_regex, form_pairs, form_pairs_of, form_text, form_text_of, lowercase_text, quoted, quoted_text, regex_error,
    regex_is_match, regex_match, regex_pattern, unicode_lower,
};
use crate::serving::inspect::pair_texts;
use crate::serving::page_model::{
    action_texts, badge_texts, cell_texts, copy_actions, link_texts, property_texts, row_texts, section_texts,
    titled_page, ActionText, BadgeText, BrowseBadge, BrowseCell, BrowseLink, BrowsePage, BrowseProperty, BrowseRow,
    BrowseSection, CellText, LinkText, PageText, PropertyText, RowText, SectionText,
};
use crate::serving::project_view::{
    ArtifactSource, AttestationView, ByteAvailability, FileView, LifecycleView, MetadataBlock, MetadataView,
    ProjectView, ProvenanceSource, ProvenanceView, RenderedDescription, SubjectMatch,
};
use crate::text::{
    contains_str, cut_first, decimal, decimal_text, holds, join, joined, opt_clone, opt_str, opt_text, parse_u64,
    split_once, text_eq, texts, u64_of,
};

verus! {

// ---------------------------------------------------------------------------------------------
// Queries
// ---------------------------------------------------------------------------------------------

/// What a browse request asks for.
pub struct BrowseQuery {
    pub index: String,
    pub project: Option<String>,
    pub version: Option<String>,
    pub filename: Option<String>,
    pub filename_match: Option<String>,
    pub sha256: Option<String>,
    pub file: Option<String>,
    pub containers: Vec<String>,
    pub member: Option<String>,
    pub offset: u64,
}

/// A query, its text seen as characters.
pub struct BrowseQueryText {
    pub index: Seq<char>,
    pub project: Option<Seq<char>>,
    pub version: Option<Seq<char>>,
    pub filename: Option<Seq<char>>,
    pub filename_match: Option<Seq<char>>,
    pub sha256: Option<Seq<char>>,
    pub file: Option<Seq<char>>,
    pub containers: Seq<Seq<char>>,
    pub member: Option<Seq<char>>,
    pub offset: u64,
}

/// A query that says nothing.
pub open spec fn silent_browse() -> BrowseQueryText {
    BrowseQueryText {
        index: Seq::empty(),
        project: None,
        version: None,
        filename: None,
        filename_match: None,
        sha256: None,
        file: None,
        containers: Seq::empty(),
        member: None,
        offset: 0,
    }
}

/// The query once one more pair is read. An empty value says nothing, but of the index.
pub open spec fn browse_pair_read(q: BrowseQueryText, pair: (Seq<char>, Seq<char>)) -> Result<
    BrowseQueryText,
    Seq<char>,
> {
    let (key, value) = pair;
    if key == "index"@ {
        Ok(BrowseQueryText { index: value, ..q })
    } else if value.len() == 0 {
        Ok(q)
    } else if key == "project"@ {
        Ok(BrowseQueryText { project: Some(value), ..q })
    } else if key == "version"@ {
        Ok(BrowseQueryText { version: Some(value), ..q })
    } else if key == "filename"@ {
        Ok(BrowseQueryText { filename: Some(value), ..q })
    } else if key == "filename_match"@ {
        Ok(BrowseQueryText { filename_match: Some(value), ..q })
    } else if key == "sha256"@ {
        Ok(BrowseQueryText { sha256: Some(value), ..q })
    } else if key == "file"@ {
        Ok(BrowseQueryText { file: Some(value), ..q })
    } else if key == "container"@ {
        Ok(BrowseQueryText { containers: q.containers.push(value), ..q })
    } else if key == "member"@ {
        Ok(BrowseQueryText { member: Some(value), ..q })
    } else if key == "offset"@ {
        match u64_of(value) {
            Some(offset) => Ok(BrowseQueryText { offset, ..q }),
            None => Err("invalid archive offset "@ + quoted_text(value)),
        }
    } else {
        Ok(q)
    }
}

/// The query that the first `n` pairs make.
pub open spec fn browse_read(pairs: Seq<(Seq<char>, Seq<char>)>, n: int) -> Result<BrowseQueryText, Seq<char>>
    decreases n,
{
    if n <= 0 {
        Ok(silent_browse())
    } else {
        match browse_read(pairs, n - 1) {
            Ok(q) => browse_pair_read(q, pairs[n - 1]),
            Err(message) => Err(message),
        }
    }
}

/// The query that pairs make: one without an index is refused.
pub open spec fn browse_query_of(pairs: Seq<(Seq<char>, Seq<char>)>) -> Result<BrowseQueryText, Seq<char>> {
    match browse_read(pairs, pairs.len() as int) {
        Ok(q) => if q.index.len() == 0 {
            Err("missing index"@)
        } else {
            Ok(q)
        },
        Err(message) => Err(message),
    }
}

proof fn browse_refusal_stays(pairs: Seq<(Seq<char>, Seq<char>)>, m: int, n: int)
    requires
        0 <= m <= n,
        browse_read(pairs, m) is Err,
    ensures
        browse_read(pairs, n) == browse_read(pairs, m),
    decreases n,
{
    if m < n {
        browse_refusal_stays(pairs, m, n - 1);
    }
}

/// What an archive query addresses.
pub open spec fn archive_of(q: BrowseQueryText) -> Result<Option<(Seq<char>, Seq<char>)>, Seq<char>> {
    match (q.sha256, q.file) {
        (Some(digest), Some(filename)) => Ok(Some((digest, filename))),
        (None, Some(address)) => match cut_first(address, '/') {
            Some((digest, filename)) => Ok(Some((digest, filename))),
            None => Err("archive query requires sha256"@),
        },
        (Some(_), None) => Err("archive query requires file"@),
        (None, None) => if q.member is Some || q.containers.len() > 0 {
            Err("archive query requires file and sha256"@)
        } else {
            Ok(None)
        },
    }
}

impl BrowseQuery {
    pub open spec fn view(self) -> BrowseQueryText {
        BrowseQueryText {
            index: self.index@,
            project: opt_text(self.project),
            version: opt_text(self.version),
            filename: opt_text(self.filename),
            filename_match: opt_text(self.filename_match),
            sha256: opt_text(self.sha256),
            file: opt_text(self.file),
            containers: texts(self.containers@),
            member: opt_text(self.member),
            offset: self.offset,
        }
    }

    fn read_pair(self, key: &str, value: &str) -> (r: Result<BrowseQuery, String>)
        ensures
            match browse_pair_read(self@, (key@, value@)) {
                Ok(q) => r matches Ok(query) && query@ == q,
                Err(message) => r matches Err(m) && m@ == message,
            },
    {
        let mut query = self;
        if text_eq(key, "index") {
            query.index = value.to_owned();
            return Ok(query);
        }
        if value.unicode_len() == 0 {
            return Ok(query);
        }
        if text_eq(key, "project") {
            query.project = Some(value.to_owned());
        } else if text_eq(key, "version") {
            query.version = Some(value.to_owned());
        } else if text_eq(key, "filename") {
            query.filename = Some(value.to_owned());
        } else if text_eq(key, "filename_match") {
            query.filename_match = Some(value.to_owned());
        } else if text_eq(key, "sha256") {
            query.sha256 = Some(value.to_owned());
        } else if text_eq(key, "file") {
            query.file = Some(value.to_owned());
        } else if text_eq(key, "container") {
            query.containers.push(value.to_owned());
            assert(texts(query.containers@) =~= texts(self.containers@).push(value@));
        } else if text_eq(key, "member") {
            query.member = Some(value.to_owned());
        } else if text_eq(key, "offset") {
            match parse_u64(value) {
                Some(offset) => {
                    query.offset = offset;
                },
                None => {
                    let mut message = "invalid archive offset ".to_owned();
                    let shown = quoted(value);
                    message.append(shown.as_str());
                    return Err(message);
                },
            }
        }
        Ok(query)
    }

    /// Read the pairs of a query.
    pub fn of_pairs(pairs: &Vec<(String, String)>) -> (r: Result<BrowseQuery, String>)
        ensures
            match browse_query_of(pair_texts(pairs@)) {
                Ok(q) => r matches Ok(query) && query@ == q,
                Err(message) => r matches Err(m) && m@ == message,
            },
    {
        let ghost all = pair_texts(pairs@);
        let mut query = BrowseQuery {
            index: String::new(),
            project: None,
            version: None,
            filename: None,
            filename_match: None,
            sha256: None,
            file: None,
            containers: Vec::new(),
            member: None,
            offset: 0,
        };
        assert(texts(query.containers@) =~= Seq::<Seq<char>>::empty());
        assert(query@ == silent_browse());
        let mut i: usize = 0;
        while i < pairs.len()
            invariant
                i <= pairs@.len(),
                all == pair_texts(pairs@),
                browse_read(all, i as int) == Ok::<BrowseQueryText, Seq<char>>(query@),
            decreases pairs.len() - i,
        {
            assert(all[i as int] == (pairs@[i as int].0@, pairs@[i as int].1@));
            match query.read_pair(pairs[i].0.as_str(), pairs[i].1.as_str()) {
                Ok(next) => {
                    query = next;
                },
                Err(message) => {
                    proof {
                        assert(browse_read(all, i + 1) == Err::<BrowseQueryText, Seq<char>>(message@));
                        browse_refusal_stays(all, i + 1, pairs@.len() as int);
                    }
                    return Err(message);
                },
            }
            i = i + 1;
        }
        if query.index.as_str().unicode_len() == 0 {
            return Err("missing index".to_owned());
        }
        Ok(query)
    }

    /// Read a query.
    pub fn parse(raw: &str) -> (r: Result<BrowseQuery, String>)
        ensures
            match browse_query_of(form_pairs_of(raw@)) {
                Ok(q) => r matches Ok(query) && query@ == q,
                Err(message) => r matches Err(m) && m@ == message,
            },
    {
        let pairs = form_pairs(raw);
        assert(pair_texts(pairs@) == form_pairs_of(raw@));
        BrowseQuery::of_pairs(&pairs)
    }

    /// What an archive query addresses: a digest and a filename, given apart or as one address.
    pub fn archive(&self) -> (r: Result<Option<(String, String)>, String>)
        ensures
            match archive_of(self@) {
                Ok(Some((digest, filename))) => r matches Ok(Some((d, f))) && d@ == digest && f@ == filename,
                Ok(None) => r matches Ok(None),
                Err(message) => r matches Err(m) && m@ == message,
            },
    {
        match (&self.sha256, &self.file) {
            (Some(digest), Some(filename)) => Ok(Some((digest.clone(), filename.clone()))),
            (None, Some(address)) => match split_once(address.as_str(), '/') {
                Some((digest, filename)) => Ok(Some((digest.to_owned(), filename.to_owned()))),
                None => Err("archive query requires sha256".to_owned()),
            },
            (Some(_), None) => Err("archive query requires file".to_owned()),
            (None, None) => {
                if self.member.is_some() || self.containers.len() > 0 {
                    Err("archive query requires file and sha256".to_owned())
                } else {
                    Ok(None)
                }
            },
        }
    }
}

// ---------------------------------------------------------------------------------------------
// Addresses
// ---------------------------------------------------------------------------------------------

/// The address of a browse page.
pub open spec fn browse_address(pairs: Seq<(Seq<char>, Seq<char>)>) -> Seq<char> {
    "/browse?"@ + form_text_of(pairs)
}

/// The pairs that name an index, and a project of it.
pub open spec fn place_pairs(route: Seq<char>, project: Option<Seq<char>>) -> Seq<(Seq<char>, Seq<char>)> {
    match project {
        Some(project) => seq![("index"@, route), ("project"@, project)],
        None => seq![("index"@, route)],
    }
}

fn pair(key: &str, value: &str) -> (r: (String, String))
    ensures
        r.0@ == key@,
        r.1@ == value@,
{
    (key.to_owned(), value.to_owned())
}

fn push_pair(pairs: &mut Vec<(String, String)>, key: &str, value: &str)
    ensures
        pair_texts(final(pairs)@) == pair_texts(old(pairs)@).push((key@, value@)),
{
    let ghost before = pairs@;
    pairs.push(pair(key, value));
    assert(pair_texts(pairs@) =~= pair_texts(before).push((key@, value@)));
}

fn place(route: &str, project: Option<&str>) -> (r: Vec<(String, String)>)
    ensures
        pair_texts(r@) == place_pairs(route@, opt_str(project)),
{
    let mut pairs: Vec<(String, String)> = Vec::new();
    assert(pair_texts(pairs@) =~= Seq::<(Seq<char>, Seq<char>)>::empty());
    push_pair(&mut pairs, "index", route);
    match project {
        Some(project) => {
            push_pair(&mut pairs, "project", project);
        },
        None => {},
    }
    assert(pair_texts(pairs@) =~= place_pairs(route@, opt_str(project)));
    pairs
}

fn address(pairs: &Vec<(String, String)>) -> (r: String)
    ensures
        r@ == browse_address(pair_texts(pairs@)),
        form_pairs_of(form_text_of(pair_texts(pairs@))) == pair_texts(pairs@),
{
    let query = form_text(pairs);
    let mut out = "/browse?".to_owned();
    out.append(query.as_str());
    out
}

/// The pairs that name a file.
pub open spec fn file_pairs(digest: Seq<char>, filename: Seq<char>) -> Seq<(Seq<char>, Seq<char>)> {
    seq![("sha256"@, digest), ("file"@, filename)]
}

/// The address of an index, a project, or a release.
pub fn browse_url(route: &str, project: Option<&str>, version: Option<&str>) -> (r: String)
    ensures
        r@ == browse_address(
            place_pairs(route@, opt_str(project)) + (match version {
                Some(version) => seq![("version"@, version@)],
                None => Seq::empty(),
            }),
        ),
{
    let mut pairs = place(route, project);
    let ghost base = pair_texts(pairs@);
    match version {
        Some(version) => {
            push_pair(&mut pairs, "version", version);
            assert(pair_texts(pairs@) =~= base + seq![("version"@, version@)]);
        },
        None => {
            assert(base =~= base + Seq::<(Seq<char>, Seq<char>)>::empty());
        },
    }
    address(&pairs)
}

/// The pairs that name the containers on the way into an archive.
pub open spec fn container_pairs(containers: Seq<Seq<char>>) -> Seq<(Seq<char>, Seq<char>)> {
    containers.map_values(|c: Seq<char>| ("container"@, c))
}

/// The pairs of an archive's address: the file, the containers on the way, what is selected there, and
/// where to go on reading it.
pub open spec fn archive_pairs(
    route: Seq<char>,
    project: Seq<char>,
    digest: Seq<char>,
    filename: Seq<char>,
    containers: Seq<Seq<char>>,
    selected: Option<(Seq<char>, bool)>,
    offset: Option<u64>,
) -> Seq<(Seq<char>, Seq<char>)> {
    place_pairs(route, Some(project)) + file_pairs(digest, filename) + container_pairs(containers) + (match selected {
        Some((path, true)) => seq![("container"@, path)],
        Some((path, false)) => seq![("member"@, path)],
        None => Seq::empty(),
    }) + (match offset {
        Some(offset) => seq![("offset"@, decimal(offset as nat))],
        None => Seq::empty(),
    })
}

/// What an archive's address selects.
pub open spec fn selection_of(selected: Option<(&str, bool)>) -> Option<(Seq<char>, bool)> {
    match selected {
        Some((path, container)) => Some((path@, container)),
        None => None,
    }
}

/// The address of an archive, of something in it, or of a place in a member.
pub fn archive_url(
    route: &str,
    containers: &Vec<String>,
    depth: usize,
    project: &str,
    digest: &str,
    filename: &str,
    selected: Option<(&str, bool)>,
    offset: Option<u64>,
) -> (r: String)
    requires
        depth <= containers@.len(),
    ensures
        ({
            let pairs = archive_pairs(
                route@,
                project@,
                digest@,
                filename@,
                texts(containers@).take(depth as int),
                selection_of(selected),
                offset,
            );
            r@ == browse_address(pairs) && form_pairs_of(form_text_of(pairs)) == pairs
        }),
{
    let mut pairs = place(route, Some(project));
    let ghost first = pair_texts(pairs@);
    push_pair(&mut pairs, "sha256", digest);
    push_pair(&mut pairs, "file", filename);
    let ghost base = pair_texts(pairs@);
    assert(base =~= first + file_pairs(digest@, filename@));
    let ghost all = texts(containers@);
    let mut i: usize = 0;
    assert(base =~= base + container_pairs(all.take(0)));
    while i < depth
        invariant
            i <= depth,
            depth <= containers@.len(),
            all == texts(containers@),
            pair_texts(pairs@) == base + container_pairs(all.take(i as int)),
        decreases depth - i,
    {
        push_pair(&mut pairs, "container", containers[i].as_str());
        assert(container_pairs(all.take(i + 1)) =~= container_pairs(all.take(i as int)).push(
            ("container"@, containers@[i as int]@),
        ));
        i = i + 1;
        assert(pair_texts(pairs@) =~= base + container_pairs(all.take(i as int)));
    }
    let ghost inside = pair_texts(pairs@);
    match selected {
        Some((path, container)) => {
            if container {
                push_pair(&mut pairs, "container", path);
                assert(pair_texts(pairs@) =~= inside + seq![("container"@, path@)]);
            } else {
                push_pair(&mut pairs, "member", path);
                assert(pair_texts(pairs@) =~= inside + seq![("member"@, path@)]);
            }
        },
        None => {
            assert(inside =~= inside + Seq::<(Seq<char>, Seq<char>)>::empty());
        },
    }
    let ghost chosen = pair_texts(pairs@);
    match offset {
        Some(offset) => {
            let number = decimal_text(offset);
            push_pair(&mut pairs, "offset", number.as_str());
            assert(pair_texts(pairs@) =~= chosen + seq![("offset"@, decimal(offset as nat))]);
        },
        None => {
            assert(chosen =~= chosen + Seq::<(Seq<char>, Seq<char>)>::empty());
        },
    }
    address(&pairs)
}

proof fn keys_differ()
    ensures
        "project"@ != "index"@,
        "sha256"@ != "index"@ && "sha256"@ != "project"@ && "sha256"@ != "version"@ && "sha256"@ != "filename"@
            && "sha256"@ != "filename_match"@,
        "file"@ != "index"@ && "file"@ != "project"@ && "file"@ != "version"@ && "file"@ != "filename"@ && "file"@
            != "filename_match"@ && "file"@ != "sha256"@,
        "container"@ != "index"@ && "container"@ != "project"@ && "container"@ != "version"@ && "container"@
            != "filename"@ && "container"@ != "filename_match"@ && "container"@ != "sha256"@ && "container"@ != "file"@,
        "member"@ != "index"@ && "member"@ != "project"@ && "member"@ != "version"@ && "member"@ != "filename"@
            && "member"@ != "filename_match"@ && "member"@ != "sha256"@ && "member"@ != "file"@ && "member"@
            != "container"@,
        "offset"@ != "index"@ && "offset"@ != "project"@ && "offset"@ != "version"@ && "offset"@ != "filename"@
            && "offset"@ != "filename_match"@ && "offset"@ != "sha256"@ && "offset"@ != "file"@ && "offset"@
            != "container"@ && "offset"@ != "member"@,
{
    reveal_strlit("index");
    reveal_strlit("project");
    reveal_strlit("version");
    reveal_strlit("filename");
    reveal_strlit("filename_match");
    reveal_strlit("sha256");
    reveal_strlit("file");
    reveal_strlit("container");
    reveal_strlit("member");
    reveal_strlit("offset");
    assert("index"@.len() == 5 && "project"@.len() == 7 && "version"@.len() == 7 && "filename"@.len() == 8);
    assert("filename_match"@.len() == 14 && "sha256"@.len() == 6 && "file"@.len() == 4 && "container"@.len() == 9);
    assert("member"@.len() == 6 && "offset"@.len() == 6);
    assert("member"@[0] == 'm' && "sha256"@[0] == 's' && "offset"@[0] == 'o');
}

proof fn prefix_reads_alike(a: Seq<(Seq<char>, Seq<char>)>, b: Seq<(Seq<char>, Seq<char>)>, n: int)
    requires
        0 <= n <= a.len(),
    ensures
        browse_read(a + b, n) == browse_read(a, n),
    decreases n,
{
    if n > 0 {
        prefix_reads_alike(a, b, n - 1);
        assert((a + b)[n - 1] == a[n - 1]);
    }
}

/// What pairs read once one more follows.
proof fn one_more_pair(a: Seq<(Seq<char>, Seq<char>)>, pair: (Seq<char>, Seq<char>), q: BrowseQueryText)
    requires
        browse_read(a, a.len() as int) == Ok::<BrowseQueryText, Seq<char>>(q),
    ensures
        browse_read(a.push(pair), a.len() as int + 1) == browse_pair_read(q, pair),
{
    prefix_reads_alike(a, seq![pair], a.len() as int);
    assert(a + seq![pair] =~= a.push(pair));
}

proof fn containers_read(
    a: Seq<(Seq<char>, Seq<char>)>,
    q: BrowseQueryText,
    containers: Seq<Seq<char>>,
    n: int,
)
    requires
        browse_read(a, a.len() as int) == Ok::<BrowseQueryText, Seq<char>>(q),
        q.containers.len() == 0,
        0 <= n <= containers.len(),
        forall|i: int| 0 <= i < containers.len() ==> (#[trigger] containers[i]).len() > 0,
    ensures
        ({
            let pairs = a + container_pairs(containers.take(n));
            browse_read(pairs, pairs.len() as int) == Ok::<BrowseQueryText, Seq<char>>(
                BrowseQueryText { containers: containers.take(n), ..q },
            )
        }),
    decreases n,
{
    if n == 0 {
        assert(a + container_pairs(containers.take(0)) =~= a);
        assert(containers.take(0) =~= q.containers);
    } else {
        containers_read(a, q, containers, n - 1);
        keys_differ();
        let so_far = a + container_pairs(containers.take(n - 1));
        let pair = ("container"@, containers[n - 1]);
        one_more_pair(so_far, pair, BrowseQueryText { containers: containers.take(n - 1), ..q });
        assert(a + container_pairs(containers.take(n)) =~= so_far.push(pair));
        assert(containers.take(n) =~= containers.take(n - 1).push(containers[n - 1]));
    }
}

/// A link into an archive reads back as the archive, the containers on the way, and what it selects, whatever
/// characters these hold, as long as none of them is empty.
pub proof fn archive_links_read_back(
    route: Seq<char>,
    project: Seq<char>,
    digest: Seq<char>,
    filename: Seq<char>,
    containers: Seq<Seq<char>>,
    selected: Option<(Seq<char>, bool)>,
    offset: Option<u64>,
)
    requires
        route.len() > 0,
        project.len() > 0,
        digest.len() > 0,
        filename.len() > 0,
        forall|i: int| 0 <= i < containers.len() ==> (#[trigger] containers[i]).len() > 0,
        selected is Some ==> (selected->0).0.len() > 0,
    ensures
        browse_query_of(archive_pairs(route, project, digest, filename, containers, selected, offset)) == Ok::<
            BrowseQueryText,
            Seq<char>,
        >(
            BrowseQueryText {
                index: route,
                project: Some(project),
                sha256: Some(digest),
                file: Some(filename),
                containers: match selected {
                    Some((path, true)) => containers.push(path),
                    _ => containers,
                },
                member: match selected {
                    Some((path, false)) => Some(path),
                    _ => None,
                },
                offset: match offset {
                    Some(offset) => offset,
                    None => 0,
                },
                ..silent_browse()
            },
        ),
{
    keys_differ();
    let p0 = Seq::<(Seq<char>, Seq<char>)>::empty();
    let q0 = silent_browse();
    let p1 = p0.push(("index"@, route));
    one_more_pair(p0, ("index"@, route), q0);
    let q1 = BrowseQueryText { index: route, ..q0 };
    let p2 = p1.push(("project"@, project));
    one_more_pair(p1, ("project"@, project), q1);
    let q2 = BrowseQueryText { project: Some(project), ..q1 };
    let p3 = p2.push(("sha256"@, digest));
    one_more_pair(p2, ("sha256"@, digest), q2);
    let q3 = BrowseQueryText { sha256: Some(digest), ..q2 };
    let p4 = p3.push(("file"@, filename));
    one_more_pair(p3, ("file"@, filename), q3);
    let q4 = BrowseQueryText { file: Some(filename), ..q3 };
    assert(place_pairs(route, Some(project)) + file_pairs(digest, filename) =~= p4);
    let n = containers.len() as int;
    containers_read(p4, q4, containers, n);
    assert(containers.take(n) =~= containers);
    let p5 = p4 + container_pairs(containers);
    let q5 = BrowseQueryText { containers, ..q4 };
    let chosen = match selected {
        Some((path, true)) => seq![("container"@, path)],
        Some((path, false)) => seq![("member"@, path)],
        None => Seq::empty(),
    };
    let p6 = p5 + chosen;
    let q6 = match selected {
        Some((path, true)) => BrowseQueryText { containers: containers.push(path), ..q5 },
        Some((path, false)) => BrowseQueryText { member: Some(path), ..q5 },
        None => q5,
    };
    match selected {
        Some((path, container)) => {
            let pair = if container {
                ("container"@, path)
            } else {
                ("member"@, path)
            };
            one_more_pair(p5, pair, q5);
            assert(p6 =~= p5.push(pair));
        },
        None => {
            assert(p6 =~= p5);
        },
    }
    assert(browse_read(p6, p6.len() as int) == Ok::<BrowseQueryText, Seq<char>>(q6));
    let pairs = archive_pairs(route, project, digest, filename, containers, selected, offset);
    match offset {
        Some(offset) => {
            let pair = ("offset"@, decimal(offset as nat));
            crate::text::decimal_reads_back(offset);
            one_more_pair(p6, pair, q6);
            assert(pairs =~= p6.push(pair));
        },
        None => {
            assert(pairs =~= p6);
        },
    }
}

// ---------------------------------------------------------------------------------------------
// Badges
// ---------------------------------------------------------------------------------------------

/// The badge of a release or a file that is not plainly active.
pub open spec fn lifecycle_badge(lifecycle: Option<LifecycleView>) -> Seq<BadgeText> {
    match lifecycle {
        Some(lifecycle) => seq![
            BadgeText {
                label: lifecycle.label@,
                class: "lifecycle-"@ + lifecycle.label@,
                hint: if lifecycle.reasons@.len() > 0 {
                    Some(joined(texts(lifecycle.reasons@), "; "@))
                } else {
                    None
                },
            },
        ],
        None => Seq::empty(),
    }
}

fn lifecycle_badges(lifecycle: &Option<LifecycleView>) -> (r: Vec<BrowseBadge>)
    ensures
        badge_texts(r@) == lifecycle_badge(*lifecycle),
{
    let mut out: Vec<BrowseBadge> = Vec::new();
    match lifecycle {
        Some(lifecycle) => {
            let mut class = "lifecycle-".to_owned();
            class.append(lifecycle.label.as_str());
            let hint: Option<String> = if lifecycle.reasons.len() > 0 {
                Some(join(&lifecycle.reasons, "; "))
            } else {
                None
            };
            out.push(BrowseBadge { label: lifecycle.label.clone(), class, hint });
        },
        None => {},
    }
    assert(badge_texts(out@) =~= lifecycle_badge(*lifecycle));
    out
}

/// How an attestation's subject compares with the file.
pub open spec fn subject_text(subject: SubjectMatch) -> Seq<char> {
    match subject {
        SubjectMatch::Matched => "matched"@,
        SubjectMatch::Mismatched => "mismatched"@,
        SubjectMatch::Unknown => "unknown"@,
    }
}

/// What the hint says of one attestation.
pub open spec fn attestation_text(attestation: AttestationView) -> Seq<char> {
    match attestation.predicate_type {
        Some(predicate) => predicate@ + ": "@ + subject_text(attestation.subject),
        None => subject_text(attestation.subject),
    }
}

/// What the hint says of a file's attestations.
pub open spec fn attestation_hint_of(attestations: Seq<AttestationView>) -> Option<Seq<char>> {
    if attestations.len() > 0 {
        Some(joined(attestations.map_values(|a: AttestationView| attestation_text(a)), "; "@))
    } else {
        None
    }
}

fn attestation_hint(attestations: &Vec<AttestationView>) -> (r: Option<String>)
    ensures
        opt_text(r) == attestation_hint_of(attestations@),
{
    if attestations.len() == 0 {
        return None;
    }
    let ghost all = attestations@.map_values(|a: AttestationView| attestation_text(a));
    let mut parts: Vec<String> = Vec::new();
    let mut i: usize = 0;
    while i < attestations.len()
        invariant
            i <= attestations@.len(),
            parts@.len() == i,
            forall|j: int| 0 <= j < i ==> (#[trigger] parts@[j])@ == attestation_text(attestations@[j]),
        decreases attestations.len() - i,
    {
        let subject: &str = match attestations[i].subject {
            SubjectMatch::Matched => "matched",
            SubjectMatch::Mismatched => "mismatched",
            SubjectMatch::Unknown => "unknown",
        };
        let text: String = match &attestations[i].predicate_type {
            Some(predicate) => {
                let mut out = predicate.clone();
                out.append(": ");
                out.append(subject);
                out
            },
            None => subject.to_owned(),
        };
        parts.push(text);
        i = i + 1;
    }
    assert(texts(parts@) =~= all);
    Some(join(&parts, "; "))
}

/// The badge of a file's provenance.
pub open spec fn provenance_badge(provenance: Option<ProvenanceView>) -> Seq<BadgeText> {
    match provenance {
        Some(provenance) => seq![
            BadgeText {
                label: match provenance.source {
                    ProvenanceSource::Hosted => "hosted provenance"@,
                    ProvenanceSource::Mirrored => "upstream provenance"@,
                },
                class: if provenance.malformed {
                    "provenance-malformed"@
                } else {
                    "provenance-valid"@
                },
                hint: attestation_hint_of(provenance.attestations@),
            },
        ],
        None => Seq::empty(),
    }
}

fn push_provenance_badges(badges: &mut Vec<BrowseBadge>, provenance: &Option<ProvenanceView>)
    ensures
        badge_texts(final(badges)@) == badge_texts(old(badges)@) + provenance_badge(*provenance),
{
    let ghost before = badges@;
    match provenance {
        Some(provenance) => {
            let label: &str = match provenance.source {
                ProvenanceSource::Hosted => "hosted provenance",
                ProvenanceSource::Mirrored => "upstream provenance",
            };
            let class: &str = if provenance.malformed {
                "provenance-malformed"
            } else {
                "provenance-valid"
            };
            badges.push(
                BrowseBadge {
                    label: label.to_owned(),
                    class: class.to_owned(),
                    hint: attestation_hint(&provenance.attestations),
                },
            );
        },
        None => {},
    }
    assert(badge_texts(badges@) =~= badge_texts(before) + provenance_badge(*provenance));
}

// ---------------------------------------------------------------------------------------------
// Sections
// ---------------------------------------------------------------------------------------------

/// The section of one block of metadata.
pub open spec fn block_section(block: MetadataBlock) -> SectionText {
    match block {
        MetadataBlock::KeyValue { label, value } => SectionText::Properties {
            heading: label@,
            properties: seq![PropertyText { label: label@, value: value@, href: None }],
        },
        MetadataBlock::Chips { label, values } => SectionText::Properties {
            heading: label@,
            properties: texts(values@).map_values(
                |value: Seq<char>| PropertyText { label: label@, value, href: None },
            ),
        },
        MetadataBlock::Links { label, links } => SectionText::Links {
            heading: label@,
            links: links@.map_values(|l: (String, String)| LinkText { label: l.0@, href: l.1@ }),
            empty: Seq::empty(),
        },
        MetadataBlock::Groups { label, groups } => SectionText::Properties {
            heading: label@,
            properties: groups@.map_values(
                |g: (String, Vec<String>)| PropertyText { label: g.0@, value: joined(texts(g.1@), ", "@), href: None },
            ),
        },
    }
}

fn section_of_block(block: &MetadataBlock) -> (r: BrowseSection)
    ensures
        r@ == block_section(*block),
{
    match block {
        MetadataBlock::KeyValue { label, value } => {
            let mut properties: Vec<BrowseProperty> = Vec::new();
            properties.push(BrowseProperty { label: label.clone(), value: value.clone(), href: None });
            assert(property_texts(properties@) =~= seq![
                PropertyText { label: label@, value: value@, href: None },
            ]);
            BrowseSection::Properties { heading: label.clone(), properties }
        },
        MetadataBlock::Chips { label, values } => {
            let mut properties: Vec<BrowseProperty> = Vec::new();
            let mut i: usize = 0;
            while i < values.len()
                invariant
                    i <= values@.len(),
                    properties@.len() == i,
                    forall|j: int|
                        0 <= j < i ==> (#[trigger] properties@[j])@ == (PropertyText {
                            label: label@,
                            value: values@[j]@,
                            href: None,
                        }),
                decreases values.len() - i,
            {
                properties.push(BrowseProperty { label: label.clone(), value: values[i].clone(), href: None });
                i = i + 1;
            }
            assert(property_texts(properties@) =~= texts(values@).map_values(
                |value: Seq<char>| PropertyText { label: label@, value, href: None },
            ));
            BrowseSection::Properties { heading: label.clone(), properties }
        },
        MetadataBlock::Links { label, links } => {
            let mut out: Vec<BrowseLink> = Vec::new();
            let mut i: usize = 0;
            while i < links.len()
                invariant
                    i <= links@.len(),
                    out@.len() == i,
                    forall|j: int|
                        0 <= j < i ==> (#[trigger] out@[j])@ == (LinkText { label: links@[j].0@, href: links@[j].1@ }),
                decreases links.len() - i,
            {
                out.push(BrowseLink { label: links[i].0.clone(), href: links[i].1.clone() });
                i = i + 1;
            }
            assert(link_texts(out@) =~= links@.map_values(
                |l: (String, String)| LinkText { label: l.0@, href: l.1@ },
            ));
            BrowseSection::Links { heading: label.clone(), links: out, empty: String::new() }
        },
        MetadataBlock::Groups { label, groups } => {
            let mut properties: Vec<BrowseProperty> = Vec::new();
            let mut i: usize = 0;
            while i < groups.len()
                invariant
                    i <= groups@.len(),
                    properties@.len() == i,
                    forall|j: int|
                        0 <= j < i ==> (#[trigger] properties@[j])@ == (PropertyText {
                            label: groups@[j].0@,
                            value: joined(texts(groups@[j].1@), ", "@),
                            href: None,
                        }),
                decreases groups.len() - i,
            {
                let value = join(&groups[i].1, ", ");
                properties.push(BrowseProperty { label: groups[i].0.clone(), value, href: None });
                i = i + 1;
            }
            assert(property_texts(properties@) =~= groups@.map_values(
                |g: (String, Vec<String>)| PropertyText { label: g.0@, value: joined(texts(g.1@), ", "@), href: None },
            ));
            BrowseSection::Properties { heading: label.clone(), properties }
        },
    }
}

/// The section of a description.
pub open spec fn description_section(description: Option<RenderedDescription>) -> Seq<SectionText> {
    match description {
        Some(description) => seq![
            SectionText::Markup {
                heading: "Description"@,
                html: description.html@,
                notice: opt_text(description.notice),
            },
        ],
        None => Seq::empty(),
    }
}

/// The sections of a project's metadata: its description first, then each block.
pub open spec fn metadata_section_list(description: Option<RenderedDescription>, blocks: Seq<MetadataBlock>) -> Seq<
    SectionText,
> {
    description_section(description) + blocks.map_values(|b: MetadataBlock| block_section(b))
}

/// The sections of a project's metadata.
pub fn metadata_sections(description: &Option<RenderedDescription>, blocks: &Vec<MetadataBlock>) -> (r: Vec<
    BrowseSection,
>)
    ensures
        section_texts(r@) == metadata_section_list(*description, blocks@),
{
    let mut sections: Vec<BrowseSection> = Vec::new();
    match description {
        Some(description) => {
            sections.push(
                BrowseSection::Markup {
                    heading: "Description".to_owned(),
                    html: description.html.clone(),
                    notice: opt_clone(&description.notice),
                },
            );
        },
        None => {},
    }
    let ghost head = section_texts(sections@);
    let ghost first = description_section(*description);
    assert(head =~= first);
    let ghost want = blocks@.map_values(|b: MetadataBlock| block_section(b));
    let mut i: usize = 0;
    assert(head =~= first + want.take(0));
    while i < blocks.len()
        invariant
            i <= blocks@.len(),
            want == blocks@.map_values(|b: MetadataBlock| block_section(b)),
            section_texts(sections@) == first + want.take(i as int),
        decreases blocks.len() - i,
    {
        let ghost before = section_texts(sections@);
        let section = section_of_block(&blocks[i]);
        let ghost view = section@;
        sections.push(section);
        assert(section_texts(sections@) =~= before.push(view));
        assert(want.take(i + 1) =~= want.take(i as int).push(want[i as int]));
        i = i + 1;
        assert(section_texts(sections@) =~= first + want.take(i as int));
    }
    assert(want.take(i as int) =~= want);
    sections
}

/// A plain cell.
pub open spec fn plain_cell(text: Seq<char>) -> CellText {
    CellText { text, href: None, code: false }
}

/// The row of a release.
pub open spec fn release_row(route: Seq<char>, project: ProjectView, i: int) -> RowText {
    let release = project.versions@[i];
    RowText {
        cells: seq![
            CellText {
                text: release.version@,
                href: Some(
                    browse_address(
                        place_pairs(route, Some(project.name@)) + seq![("version"@, release.version@)],
                    ),
                ),
                code: true,
            },
            plain_cell(
                match release.lifecycle {
                    Some(lifecycle) => lifecycle.label@,
                    None => "active"@,
                },
            ),
        ],
        badges: lifecycle_badge(release.lifecycle),
        actions: action_texts(release.actions@),
    }
}

/// The section of a project's releases.
pub open spec fn releases(route: Seq<char>, project: ProjectView) -> SectionText {
    SectionText::Table {
        heading: "Releases"@,
        columns: seq!["Version"@, "Status"@],
        rows: Seq::new(project.versions@.len(), |i: int| release_row(route, project, i)),
        empty: "No releases are listed."@,
    }
}

fn cell(text: &str, href: Option<String>, code: bool) -> (r: BrowseCell)
    ensures
        r@ == (CellText { text: text@, href: opt_text(href), code }),
{
    BrowseCell { text: text.to_owned(), href, code }
}

/// The section of a project's releases.
pub fn release_section(route: &str, project: &ProjectView) -> (r: BrowseSection)
    ensures
        r@ == releases(route@, *project),
{
    let mut rows: Vec<BrowseRow> = Vec::new();
    let mut i: usize = 0;
    while i < project.versions.len()
        invariant
            i <= project.versions@.len(),
            rows@.len() == i,
            forall|j: int| 0 <= j < i ==> (#[trigger] rows@[j])@ == release_row(route@, *project, j),
        decreases project.versions.len() - i,
    {
        let release = &project.versions[i];
        let href = browse_url(route, Some(project.name.as_str()), Some(release.version.as_str()));
        let status: &str = match &release.lifecycle {
            Some(lifecycle) => lifecycle.label.as_str(),
            None => "active",
        };
        let mut cells: Vec<BrowseCell> = Vec::new();
        cells.push(cell(release.version.as_str(), Some(href), true));
        cells.push(cell(status, None, false));
        let row = BrowseRow {
            cells,
            badges: lifecycle_badges(&release.lifecycle),
            actions: copy_actions(&release.actions),
        };
        assert(cell_texts(row.cells@) =~= release_row(route@, *project, i as int).cells);
        rows.push(row);
        i = i + 1;
    }
    assert(row_texts(rows@) =~= Seq::new(
        project.versions@.len(),
        |i: int| release_row(route@, *project, i),
    ));
    let mut columns: Vec<String> = Vec::new();
    columns.push("Version".to_owned());
    columns.push("Status".to_owned());
    assert(texts(columns@) =~= seq!["Version"@, "Status"@]);
    BrowseSection::Table {
        heading: "Releases".to_owned(),
        columns,
        rows,
        empty: "No releases are listed.".to_owned(),
    }
}

/// What the sources and availabilities of files are called.
pub struct PlacementLabels {
    pub hosted: String,
    pub proxy: String,
    pub generated: String,
    pub local: String,
    pub remote_only: String,
    pub unavailable: String,
}

impl PlacementLabels {
    pub open spec fn source_text(self, source: ArtifactSource) -> Seq<char> {
        match source {
            ArtifactSource::Hosted => self.hosted@,
            ArtifactSource::Proxy => self.proxy@,
            ArtifactSource::Generated => self.generated@,
        }
    }

    pub open spec fn availability_text(self, availability: ByteAvailability) -> Seq<char> {
        match availability {
            ByteAvailability::Local => self.local@,
            ByteAvailability::RemoteOnly => self.remote_only@,
            ByteAvailability::Unavailable => self.unavailable@,
        }
    }
}

/// A text that may be absent.
pub open spec fn or_blank(text: Option<Seq<char>>) -> Seq<char> {
    match text {
        Some(text) => text,
        None => Seq::empty(),
    }
}

/// The row of a file.
pub open spec fn file_row_of(route: Seq<char>, project: Seq<char>, file: FileView, labels: PlacementLabels) -> RowText {
    RowText {
        cells: seq![
            CellText {
                text: file.filename@,
                href: if file.browsable {
                    Some(
                        browse_address(
                            archive_pairs(route, project, file.sha256@, file.filename@, Seq::empty(), None, None),
                        ),
                    )
                } else {
                    None
                },
                code: true,
            },
            CellText { text: or_blank(opt_text(file.release)), href: None, code: true },
            plain_cell(
                match file.size {
                    Some(size) => decimal(size as nat),
                    None => Seq::empty(),
                },
            ),
            plain_cell(or_blank(opt_text(file.upload_time))),
            CellText {
                text: labels.source_text(file.placement.source),
                href: opt_text(file.upstream),
                code: false,
            },
            plain_cell(labels.availability_text(file.placement.availability)),
        ],
        badges: lifecycle_badge(file.lifecycle) + provenance_badge(file.provenance_detail),
        actions: Seq::empty(),
    }
}

fn blank_or(text: &Option<String>) -> (r: String)
    ensures
        r@ == or_blank(opt_text(*text)),
{
    match text {
        Some(text) => text.clone(),
        None => String::new(),
    }
}

fn file_row(route: &str, project: &str, file: &FileView, labels: &PlacementLabels) -> (r: BrowseRow)
    ensures
        r@ == file_row_of(route@, project@, *file, *labels),
{
    let containers: Vec<String> = Vec::new();
    assert(texts(containers@).take(0) =~= Seq::<Seq<char>>::empty());
    let href: Option<String> = if file.browsable {
        Some(
            archive_url(
                route,
                &containers,
                0,
                project,
                file.sha256.as_str(),
                file.filename.as_str(),
                None,
                None,
            ),
        )
    } else {
        None
    };
    let size: String = match file.size {
        Some(size) => decimal_text(size),
        None => String::new(),
    };
    let source: &str = match file.placement.source {
        ArtifactSource::Hosted => labels.hosted.as_str(),
        ArtifactSource::Proxy => labels.proxy.as_str(),
        ArtifactSource::Generated => labels.generated.as_str(),
    };
    let availability: &str = match file.placement.availability {
        ByteAvailability::Local => labels.local.as_str(),
        ByteAvailability::RemoteOnly => labels.remote_only.as_str(),
        ByteAvailability::Unavailable => labels.unavailable.as_str(),
    };
    let release = blank_or(&file.release);
    let uploaded = blank_or(&file.upload_time);
    let mut cells: Vec<BrowseCell> = Vec::new();
    cells.push(cell(file.filename.as_str(), href, true));
    cells.push(cell(release.as_str(), None, true));
    cells.push(cell(size.as_str(), None, false));
    cells.push(cell(uploaded.as_str(), None, false));
    cells.push(cell(source, opt_clone(&file.upstream), false));
    cells.push(cell(availability, None, false));
    let mut badges = lifecycle_badges(&file.lifecycle);
    push_provenance_badges(&mut badges, &file.provenance_detail);
    let row = BrowseRow { cells, badges, actions: Vec::new() };
    proof {
        assert(cell_texts(row.cells@) =~= file_row_of(route@, project@, *file, *labels).cells);
        assert(action_texts(row.actions@) =~= Seq::<ActionText>::empty());
    }
    row
}

/// Whether a file's name is asked for: by an expression, or by a piece of it, letter case aside.
pub open spec fn filename_asked(
    filename: Seq<char>,
    pattern: Option<Seq<char>>,
    expression: Option<Seq<char>>,
) -> bool {
    match expression {
        Some(expression) => regex_match(expression, filename),
        None => match pattern {
            Some(pattern) => holds(unicode_lower(filename), unicode_lower(pattern)),
            None => true,
        },
    }
}

/// The expression a compiled one stands for.
pub open spec fn opt_expression(regex: Option<regex::Regex>) -> Option<Seq<char>> {
    match regex {
        Some(regex) => Some(regex_pattern(regex)),
        None => None,
    }
}

fn filename_matches(filename: &str, pattern: &Option<String>, regex: &Option<regex::Regex>) -> (r: bool)
    ensures
        r == filename_asked(filename@, opt_text(*pattern), opt_expression(*regex)),
{
    match regex {
        Some(regex) => regex_is_match(regex, filename),
        None => match pattern {
            Some(pattern) => {
                let name = lowercase_text(filename);
                let piece = lowercase_text(pattern.as_str());
                contains_str(name.as_str(), piece.as_str())
            },
            None => true,
        },
    }
}

/// Whether a query asks for a file: for its release, and for its name.
pub open spec fn asks_for(q: BrowseQueryText, file: FileView, expression: Option<Seq<char>>) -> bool {
    (q.version is None || opt_text(file.release) == q.version) && filename_asked(
        file.filename@,
        q.filename,
        expression,
    )
}

/// The rows of the first `n` files that a query asks for.
pub open spec fn file_rows(
    q: BrowseQueryText,
    project: ProjectView,
    expression: Option<Seq<char>>,
    labels: PlacementLabels,
    n: int,
) -> Seq<RowText>
    decreases n,
{
    if n <= 0 {
        Seq::empty()
    } else {
        let before = file_rows(q, project, expression, labels, n - 1);
        if asks_for(q, project.files@[n - 1], expression) {
            before.push(file_row_of(q.index, project.name@, project.files@[n - 1], labels))
        } else {
            before
        }
    }
}

/// The columns of the files' table.
pub open spec fn file_columns() -> Seq<Seq<char>> {
    seq!["File"@, "Version"@, "Size"@, "Uploaded"@, "Source"@, "Availability"@]
}

/// The section of the files that a query asks for.
pub open spec fn files_asked(
    q: BrowseQueryText,
    project: ProjectView,
    expression: Option<Seq<char>>,
    labels: PlacementLabels,
) -> SectionText {
    SectionText::Table {
        heading: "Files"@,
        columns: file_columns(),
        rows: file_rows(q, project, expression, labels, project.files@.len() as int),
        empty: "No files match this query."@,
    }
}

fn same_version(version: &Option<String>, release: &Option<String>) -> (r: bool)
    ensures
        r == (opt_text(*version) is None || opt_text(*release) == opt_text(*version)),
{
    match version {
        None => true,
        Some(version) => match release {
            Some(release) => text_eq(release.as_str(), version.as_str()),
            None => false,
        },
    }
}

fn file_section(
    query: &BrowseQuery,
    project: &ProjectView,
    regex: &Option<regex::Regex>,
    labels: &PlacementLabels,
) -> (r: BrowseSection)
    ensures
        r@ == files_asked(query@, *project, opt_expression(*regex), *labels),
{
    let ghost expression = opt_expression(*regex);
    let mut rows: Vec<BrowseRow> = Vec::new();
    let mut i: usize = 0;
    assert(row_texts(rows@) =~= Seq::<RowText>::empty());
    while i < project.files.len()
        invariant
            i <= project.files@.len(),
            expression == opt_expression(*regex),
            row_texts(rows@) == file_rows(query@, *project, expression, *labels, i as int),
        decreases project.files.len() - i,
    {
        let file = &project.files[i];
        if same_version(&query.version, &file.release) && filename_matches(
            file.filename.as_str(),
            &query.filename,
            regex,
        ) {
            let ghost before = rows@;
            let row = file_row(query.index.as_str(), project.name.as_str(), file, labels);
            let ghost view = row@;
            rows.push(row);
            assert(row_texts(rows@) =~= row_texts(before).push(view));
        }
        i = i + 1;
    }
    let mut columns: Vec<String> = Vec::new();
    columns.push("File".to_owned());
    columns.push("Version".to_owned());
    columns.push("Size".to_owned());
    columns.push("Uploaded".to_owned());
    columns.push("Source".to_owned());
    columns.push("Availability".to_owned());
    assert(texts(columns@) =~= file_columns());
    BrowseSection::Table {
        heading: "Files".to_owned(),
        columns,
        rows,
        empty: "No files match this query.".to_owned(),
    }
}

// ---------------------------------------------------------------------------------------------
// Pages
// ---------------------------------------------------------------------------------------------

/// The page of an index's projects.
pub open spec fn list_page(route: Seq<char>, names: Seq<Seq<char>>) -> PageText {
    titled_page(
        Seq::empty(),
        route,
        SectionText::Links {
            heading: "Projects"@,
            links: names.map_values(
                |name: Seq<char>|
                    LinkText { label: name, href: browse_address(place_pairs(route, Some(name)) + Seq::empty()) },
            ),
            empty: "No projects observed on this index yet."@,
        },
    )
}

/// The page of an index's projects.
pub fn project_list_page(route: &str, names: &Vec<String>) -> (r: BrowsePage)
    ensures
        r@ == list_page(route@, texts(names@)),
{
    let mut links: Vec<BrowseLink> = Vec::new();
    let mut i: usize = 0;
    while i < names.len()
        invariant
            i <= names@.len(),
            links@.len() == i,
            forall|j: int|
                0 <= j < i ==> (#[trigger] links@[j])@ == (LinkText {
                    label: names@[j]@,
                    href: browse_address(place_pairs(route@, Some(names@[j]@)) + Seq::empty()),
                }),
        decreases names.len() - i,
    {
        let href = browse_url(route, Some(names[i].as_str()), None);
        links.push(BrowseLink { label: names[i].clone(), href });
        i = i + 1;
    }
    assert(link_texts(links@) =~= texts(names@).map_values(
        |name: Seq<char>|
            LinkText { label: name, href: browse_address(place_pairs(route@, Some(name)) + Seq::empty()) },
    ));
    let breadcrumbs: Vec<BrowseLink> = Vec::new();
    assert(link_texts(breadcrumbs@) =~= Seq::<LinkText>::empty());
    BrowsePage::titled(
        breadcrumbs,
        route.to_owned(),
        BrowseSection::Links {
            heading: "Projects".to_owned(),
            links,
            empty: "No projects observed on this index yet.".to_owned(),
        },
    )
}

/// The expression that a query asks by.
pub open spec fn expression_asked(q: BrowseQueryText) -> Option<Seq<char>> {
    if q.filename is Some && q.filename_match == Some("regex"@) {
        q.filename
    } else {
        None
    }
}

/// The badge of a project that is not plainly active.
pub open spec fn status_badge(project: ProjectView) -> Seq<BadgeText> {
    match project.status {
        Some(status) => seq![
            BadgeText {
                label: status.marker@,
                class: "status-"@ + status.marker@,
                hint: opt_text(status.reason),
            },
        ],
        None => Seq::empty(),
    }
}

/// The page of a project.
pub open spec fn project_page_of(
    q: BrowseQueryText,
    project: ProjectView,
    metadata: MetadataView,
    labels: PlacementLabels,
) -> PageText {
    PageText {
        breadcrumbs: seq![
            LinkText { label: q.index, href: browse_address(place_pairs(q.index, None) + Seq::empty()) },
        ],
        title: project.name@,
        subtitle: opt_text(metadata.version),
        summary: opt_text(metadata.summary),
        command: opt_text(project.client_command),
        badges: status_badge(project),
        sections: metadata_section_list(metadata.description, metadata.blocks@).push(
            releases(q.index, project),
        ).push(files_asked(q, project, expression_asked(q), labels)),
        actions: action_texts(project.actions@),
    }
}

/// The page of a project, its files narrowed to those the query asks for. An expression that does not
/// compile is refused.
pub fn project_browse_page(
    query: &BrowseQuery,
    project: &ProjectView,
    metadata: &MetadataView,
    labels: &PlacementLabels,
) -> (r: Result<BrowsePage, String>)
    ensures
        match expression_asked(query@) {
            Some(expression) if regex_error(expression) is Some => r matches Err(message) && message@
                == "invalid regex: "@ + regex_error(expression)->0,
            _ => r matches Ok(page) && page@ == project_page_of(query@, *project, *metadata, *labels),
        },
{
    let by_expression: bool = match &query.filename_match {
        Some(how) => text_eq(how.as_str(), "regex"),
        None => false,
    };
    let regex: Option<regex::Regex> = match &query.filename {
        Some(pattern) => {
            if by_expression {
                match compile_regex(pattern.as_str()) {
                    Ok(regex) => Some(regex),
                    Err(error) => {
                        let mut message = "invalid regex: ".to_owned();
                        message.append(error.as_str());
                        return Err(message);
                    },
                }
            } else {
                None
            }
        },
        None => None,
    };
    assert(opt_expression(regex) == expression_asked(query@));
    let mut sections = metadata_sections(&metadata.description, &metadata.blocks);
    let ghost first = section_texts(sections@);
    let release_table = release_section(query.index.as_str(), project);
    let ghost second = release_table@;
    sections.push(release_table);
    assert(section_texts(sections@) =~= first.push(second));
    let file_table = file_section(query, project, &regex, labels);
    let ghost third = file_table@;
    sections.push(file_table);
    assert(section_texts(sections@) =~= first.push(second).push(third));
    let mut breadcrumbs: Vec<BrowseLink> = Vec::new();
    breadcrumbs.push(
        BrowseLink { label: query.index.clone(), href: browse_url(query.index.as_str(), None, None) },
    );
    let mut badges: Vec<BrowseBadge> = Vec::new();
    match &project.status {
        Some(status) => {
            let mut class = "status-".to_owned();
            class.append(status.marker.as_str());
            badges.push(BrowseBadge { label: status.marker.clone(), class, hint: opt_clone(&status.reason) });
        },
        None => {},
    }
    let page = BrowsePage {
        breadcrumbs,
        title: project.name.clone(),
        subtitle: opt_clone(&metadata.version),
        summary: opt_clone(&metadata.summary),
        command: opt_clone(&project.client_command),
        badges,
        sections,
        actions: copy_actions(&project.actions),
    };
    proof {
        let want = project_page_of(query@, *project, *metadata, *labels);
        assert(link_texts(page.breadcrumbs@) =~= want.breadcrumbs);
        assert(badge_texts(page.badges@) =~= want.badges);
        assert(section_texts(page.sections@) =~= want.sections);
    }
    Ok(page)
}

// ---------------------------------------------------------------------------------------------
// Archives
// ---------------------------------------------------------------------------------------------

/// Where an archive is.
pub struct ArchivePlace {
    pub project: String,
    pub digest: String,
    pub filename: String,
}

/// The way to a container: the index, the project, the file, and each container on the way.
pub open spec fn breadcrumbs_of(route: Seq<char>, place: ArchivePlace, containers: Seq<Seq<char>>) -> Seq<LinkText> {
    seq![
        LinkText { label: route, href: browse_address(place_pairs(route, None) + Seq::empty()) },
        LinkText {
            label: place.project@,
            href: browse_address(place_pairs(route, Some(place.project@)) + Seq::empty()),
        },
        LinkText {
            label: place.filename@,
            href: browse_address(
                archive_pairs(
                    route,
                    place.project@,
                    place.digest@,
                    place.filename@,
                    Seq::empty(),
                    None,
                    None,
                ),
            ),
        },
    ] + Seq::new(
        containers.len(),
        |i: int|
            LinkText {
                label: containers[i],
                href: browse_address(
                    archive_pairs(
                        route,
                        place.project@,
                        place.digest@,
                        place.filename@,
                        containers.take(i + 1),
                        None,
                        None,
                    ),
                ),
            },
    )
}

fn archive_breadcrumbs(route: &str, place: &ArchivePlace, containers: &Vec<String>) -> (r: Vec<BrowseLink>)
    ensures
        link_texts(r@) == breadcrumbs_of(route@, *place, texts(containers@)),
{
    let ghost all = texts(containers@);
    let ghost want = breadcrumbs_of(route@, *place, all);
    assert(all.take(0) =~= Seq::<Seq<char>>::empty());
    let mut links: Vec<BrowseLink> = Vec::new();
    links.push(BrowseLink { label: route.to_owned(), href: browse_url(route, None, None) });
    links.push(
        BrowseLink {
            label: place.project.clone(),
            href: browse_url(route, Some(place.project.as_str()), None),
        },
    );
    links.push(
        BrowseLink {
            label: place.filename.clone(),
            href: archive_url(
                route,
                containers,
                0,
                place.project.as_str(),
                place.digest.as_str(),
                place.filename.as_str(),
                None,
                None,
            ),
        },
    );
    let mut i: usize = 0;
    while i < containers.len()
        invariant
            i <= containers@.len(),
            all == texts(containers@),
            want == breadcrumbs_of(route@, *place, all),
            links@.len() == i + 3,
            forall|j: int| 0 <= j < i + 3 ==> (#[trigger] links@[j])@ == want[j],
        decreases containers.len() - i,
    {
        let href = archive_url(
            route,
            containers,
            i + 1,
            place.project.as_str(),
            place.digest.as_str(),
            place.filename.as_str(),
            None,
            None,
        );
        let link = BrowseLink { label: containers[i].clone(), href };
        assert(link@ == want[i + 3]);
        links.push(link);
        i = i + 1;
    }
    assert(link_texts(links@) =~= want);
    links
}

/// A member of an archive.
pub struct ArchiveMember {
    pub path: String,
    pub size: u64,
    pub kind: String,
    pub previewable: bool,
}

/// The row of a member: a nested archive leads inside, a text leads to its content.
pub open spec fn member_row(q: BrowseQueryText, place: ArchivePlace, member: ArchiveMember) -> RowText {
    let selected = if member.kind@ == "archive"@ {
        Some((member.path@, true))
    } else if member.previewable {
        Some((member.path@, false))
    } else {
        None
    };
    RowText {
        cells: seq![
            CellText {
                text: member.path@,
                href: match selected {
                    Some(_) => Some(
                        browse_address(
                            archive_pairs(
                                q.index,
                                place.project@,
                                place.digest@,
                                place.filename@,
                                q.containers,
                                selected,
                                None,
                            ),
                        ),
                    ),
                    None => None,
                },
                code: true,
            },
            plain_cell(decimal(member.size as nat)),
            plain_cell(member.kind@),
        ],
        badges: Seq::empty(),
        actions: Seq::empty(),
    }
}

fn row_of_member(query: &BrowseQuery, place: &ArchivePlace, member: &ArchiveMember) -> (r: BrowseRow)
    ensures
        r@ == member_row(query@, *place, *member),
{
    let depth: usize = query.containers.len();
    assert(texts(query.containers@).take(depth as int) =~= texts(query.containers@));
    let nested: bool = text_eq(member.kind.as_str(), "archive");
    let href: Option<String> = if nested || member.previewable {
        Some(
            archive_url(
                query.index.as_str(),
                &query.containers,
                depth,
                place.project.as_str(),
                place.digest.as_str(),
                place.filename.as_str(),
                Some((member.path.as_str(), nested)),
                None,
            ),
        )
    } else {
        None
    };
    let size = decimal_text(member.size);
    let mut cells: Vec<BrowseCell> = Vec::new();
    cells.push(cell(member.path.as_str(), href, true));
    cells.push(cell(size.as_str(), None, false));
    cells.push(cell(member.kind.as_str(), None, false));
    let row = BrowseRow { cells, badges: Vec::new(), actions: Vec::new() };
    proof {
        assert(cell_texts(row.cells@) =~= member_row(query@, *place, *member).cells);
        assert(badge_texts(row.badges@) =~= Seq::<BadgeText>::empty());
        assert(action_texts(row.actions@) =~= Seq::<ActionText>::empty());
    }
    row
}

/// The page of an archive's members.
pub open spec fn listing_page(q: BrowseQueryText, place: ArchivePlace, members: Seq<ArchiveMember>) -> PageText {
    titled_page(
        breadcrumbs_of(q.index, place, q.containers),
        if q.containers.len() > 0 {
            q.containers.last()
        } else {
            place.filename@
        },
        SectionText::Table {
            heading: "Archive members"@,
            columns: seq!["Path"@, "Size"@, "Kind"@],
            rows: members.map_values(|m: ArchiveMember| member_row(q, place, m)),
            empty: "The archive has no members."@,
        },
    )
}

/// The page of an archive's members.
pub fn archive_listing_page(query: &BrowseQuery, place: &ArchivePlace, members: &Vec<ArchiveMember>) -> (r: BrowsePage)
    ensures
        r@ == listing_page(query@, *place, members@),
{
    let mut rows: Vec<BrowseRow> = Vec::new();
    let mut i: usize = 0;
    while i < members.len()
        invariant
            i <= members@.len(),
            rows@.len() == i,
            forall|j: int| 0 <= j < i ==> (#[trigger] rows@[j])@ == member_row(query@, *place, members@[j]),
        decreases members.len() - i,
    {
        rows.push(row_of_member(query, place, &members[i]));
        i = i + 1;
    }
    assert(row_texts(rows@) =~= members@.map_values(|m: ArchiveMember| member_row(query@, *place, m)));
    let mut columns: Vec<String> = Vec::new();
    columns.push("Path".to_owned());
    columns.push("Size".to_owned());
    columns.push("Kind".to_owned());
    assert(texts(columns@) =~= seq!["Path"@, "Size"@, "Kind"@]);
    let depth: usize = query.containers.len();
    let title: String = if depth > 0 {
        query.containers[depth - 1].clone()
    } else {
        place.filename.clone()
    };
    BrowsePage::titled(
        archive_breadcrumbs(query.index.as_str(), place, &query.containers),
        title,
        BrowseSection::Table {
            heading: "Archive members".to_owned(),
            columns,
            rows,
            empty: "The archive has no members.".to_owned(),
        },
    )
}

/// A piece of a member's text.
pub struct MemberText {
    pub text: String,
    pub size: u64,
    pub offset: u64,
    pub next_offset: Option<u64>,
}

/// The page of a member.
pub open spec fn member_page(q: BrowseQueryText, place: ArchivePlace, member: Seq<char>, chunk: MemberText) -> PageText {
    titled_page(
        breadcrumbs_of(q.index, place, q.containers),
        member,
        SectionText::Content {
            heading: "Member"@,
            text: chunk.text@,
            size: Some(chunk.size),
            offset: chunk.offset,
            next: match chunk.next_offset {
                Some(next) => Some(
                    LinkText {
                        label: "Next chunk"@,
                        href: browse_address(
                            archive_pairs(
                                q.index,
                                place.project@,
                                place.digest@,
                                place.filename@,
                                q.containers,
                                Some((member, false)),
                                Some(next),
                            ),
                        ),
                    },
                ),
                None => None,
            },
        },
    )
}

/// The page of a member: a piece of its text, and the way to the next.
pub fn archive_member_page(query: &BrowseQuery, place: &ArchivePlace, member: &str, chunk: &MemberText) -> (r:
    BrowsePage)
    ensures
        r@ == member_page(query@, *place, member@, *chunk),
{
    let depth: usize = query.containers.len();
    assert(texts(query.containers@).take(depth as int) =~= texts(query.containers@));
    let next: Option<BrowseLink> = match chunk.next_offset {
        Some(offset) => Some(
            BrowseLink {
                label: "Next chunk".to_owned(),
                href: archive_url(
                    query.index.as_str(),
                    &query.containers,
                    depth,
                    place.project.as_str(),
                    place.digest.as_str(),
                    place.filename.as_str(),
                    Some((member, false)),
                    Some(offset),
                ),
            },
        ),
        None => None,
    };
    BrowsePage::titled(
        archive_breadcrumbs(query.index.as_str(), place, &query.containers),
        member.to_owned(),
        BrowseSection::Content {
            heading: "Member".to_owned(),
            text: chunk.text.clone(),
            size: Some(chunk.size),
            offset: chunk.offset,
            next,
        },
    )
}

} // verus!
