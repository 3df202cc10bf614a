//! Documentation for the rok workspace: the overview a crate's `//!` lines
//! give, the Markdown page of each crate and the index of all of them, and
//! which file a request to the documentation server is answered with.
//!
//! Reading manifests and sources, writing pages and serving requests are
//! the tool's part.
use crate::filters::{runs, runs_of, RunKind};
use crate::text::{
    chars_of, contains_spec, contains_str, join_chars, join_spec, join_strings, lines_of, lines_spec,
    owned, push_str, starts_with_chars, starts_with_spec, starts_with_str, string_of, views, vviews,
};
use vstd::prelude::*;

verus! {

/// What a crate's manifest says of it.  A version or description given as
/// anything but a string (such as `version.workspace = true`) is `None`.
#[derive(Debug, Clone)]
pub struct PackageMeta {
    pub name: String,
    pub version: Option<String>,
    pub description: Option<String>,
    pub keywords: Vec<String>,
}

pub open spec fn or_text(o: Option<String>, d: Seq<char>) -> Seq<char> {
    match o {
        Some(s) => s@,
        None => d,
    }
}

impl PackageMeta {
    /// The version, or `workspace` when the crate takes the workspace's.
    pub fn version_str(&self) -> (r: &str)
        ensures
            r@ == or_text(self.version, "workspace"@),
    {
        match &self.version {
            Some(v) => v.as_str(),
            None => "workspace",
        }
    }

    /// The description, empty when there is none.
    pub fn description_str(&self) -> (r: &str)
        ensures
            r@ == or_text(self.description, Seq::empty()),
    {
        match &self.description {
            Some(d) => d.as_str(),
            None => {
                proof {
                    reveal_strlit("");
                }
                ""
            },
        }
    }
}

// ---------------------------------------------------------------------------
// the overview of a crate
// ---------------------------------------------------------------------------

/// `s` without any number of leading copies of `p` (`trim_start_matches`).
pub open spec fn strip_all(s: Seq<char>, p: Seq<char>) -> Seq<char>
    decreases s.len(),
{
    if p.len() > 0 && s.len() >= p.len() && starts_with_spec(s, p) {
        strip_all(s.skip(p.len() as int), p)
    } else {
        s
    }
}

/// The leading lines that start with `//!`.
pub open spec fn doc_lines(lines: Seq<Seq<char>>) -> Seq<Seq<char>>
    decreases lines.len(),
{
    if lines.len() > 0 && starts_with_spec(lines[0], "//!"@) {
        seq![strip_all(strip_all(lines[0], "//!"@), " "@)] + doc_lines(lines.skip(1))
    } else {
        Seq::empty()
    }
}

/// The module documentation of a source file: its leading `//!` lines,
/// without the markers and the spaces after them, joined by line feeds.
pub open spec fn doc_of(content: Seq<char>) -> Seq<char> {
    join_spec(doc_lines(lines_spec(content)), "\n"@)
}

fn strip_all_chars(v: &[char], p: &[char]) -> (r: Vec<char>)
    ensures
        r@ == strip_all(v@, p@),
{
    let mut i: usize = 0;
    assert(v@.skip(0) =~= v@);
    while p.len() > 0 && v.len() - i >= p.len() && crate::text::occurs_at_exec(v, p, i)
        invariant
            i <= v@.len(),
            strip_all(v@, p@) == strip_all(v@.skip(i as int), p@),
        decreases v.len() - i,
    {
        let ghost rest = v@.skip(i as int);
        assert(starts_with_spec(rest, p@)) by {
            assert(forall|k: int| 0 <= k < p@.len() ==> rest[k] == v@[i + k]);
            assert(rest.take(p@.len() as int) =~= v@.subrange(i as int, i + p@.len()));
        }
        assert(rest.skip(p@.len() as int) =~= v@.skip(i + p@.len()));
        i = i + p.len();
    }
    let ghost rest = v@.skip(i as int);
    if p.len() > 0 && v.len() - i >= p.len() {
        assert(!starts_with_spec(rest, p@)) by {
            if starts_with_spec(rest, p@) {
                assert(rest.take(p@.len() as int) =~= v@.subrange(i as int, i + p@.len()));
            }
        }
    }
    let mut r: Vec<char> = Vec::new();
    let mut k = i;
    while k < v.len()
        invariant
            i <= k <= v@.len(),
            r@ == v@.subrange(i as int, k as int),
        decreases v.len() - k,
    {
        r.push(v[k]);
        assert(v@.subrange(i as int, k + 1) =~= v@.subrange(i as int, k as int).push(v@[k as int]));
        k = k + 1;
    }
    assert(r@ =~= rest);
    r
}

/// The module documentation of a source file (its leading `//!` lines).
pub fn crate_doc_of(content: &str) -> (r: String)
    ensures
        r@ == doc_of(content@),
{
    let cs = chars_of(content);
    let lines = lines_of(cs.as_slice());
    let marker = chars_of("//!");
    let space = chars_of(" ");
    let mut out: Vec<Vec<char>> = Vec::new();
    let ghost ls = vviews(lines@);
    let mut i: usize = 0;
    assert(ls.skip(0) =~= ls);
    while i < lines.len() && starts_with_chars(lines[i].as_slice(), marker.as_slice())
        invariant
            i <= lines@.len(),
            ls == vviews(lines@),
            ls == lines_spec(content@),
            marker@ == "//!"@,
            space@ == " "@,
            vviews(out@) + doc_lines(ls.skip(i as int)) == doc_lines(ls),
        decreases lines.len() - i,
    {
        let a = strip_all_chars(lines[i].as_slice(), marker.as_slice());
        let b = strip_all_chars(a.as_slice(), space.as_slice());
        let ghost before = vviews(out@);
        let ghost rest = ls.skip(i as int);
        assert(rest[0] == ls[i as int]);
        assert(ls[i as int] == lines@[i as int]@);
        assert(rest.skip(1) =~= ls.skip(i + 1));
        out.push(b);
        assert(vviews(out@) =~= before.push(b@));
        assert(doc_lines(rest) == seq![b@] + doc_lines(ls.skip(i + 1)));
        assert(vviews(out@) + doc_lines(ls.skip(i + 1)) =~= before + doc_lines(rest));
        i = i + 1;
    }
    proof {
        let rest = ls.skip(i as int);
        if i < lines@.len() {
            assert(rest[0] == lines@[i as int]@);
        }
        assert(doc_lines(rest) == Seq::<Seq<char>>::empty());
        assert(vviews(out@) + doc_lines(rest) =~= vviews(out@));
    }
    join_chars(out.as_slice(), "\n")
}

/// The overview of a crate: the documentation of the first of its sources
/// (`src/lib.rs`, then `src/main.rs`; `None` for one that could not be
/// read) that has any, else nothing.
pub open spec fn first_doc(sources: Seq<Option<String>>) -> Seq<char>
    decreases sources.len(),
{
    if sources.len() == 0 {
        Seq::empty()
    } else {
        match sources[0] {
            Some(c) if doc_of(c@).len() > 0 => doc_of(c@),
            _ => first_doc(sources.skip(1)),
        }
    }
}

/// The overview of a crate from the contents of its candidate sources.
pub fn read_crate_doc(sources: &[Option<String>]) -> (r: String)
    ensures
        r@ == first_doc(sources@),
{
    let mut i: usize = 0;
    assert(sources@.skip(0) =~= sources@);
    while i < sources.len()
        invariant
            i <= sources@.len(),
            first_doc(sources@) == first_doc(sources@.skip(i as int)),
        decreases sources.len() - i,
    {
        let ghost rest = sources@.skip(i as int);
        assert(rest[0] == sources@[i as int]);
        assert(rest.skip(1) =~= sources@.skip(i + 1));
        match &sources[i] {
            Some(c) => {
                let d = crate_doc_of(c.as_str());
                if d.unicode_len() > 0 {
                    return d;
                }
            },
            None => {},
        }
        i = i + 1;
    }
    String::new()
}

// ---------------------------------------------------------------------------
// pages
// ---------------------------------------------------------------------------

/// Each keyword in backticks.
pub open spec fn ticked(ks: Seq<Seq<char>>) -> Seq<Seq<char>> {
    ks.map_values(|k: Seq<char>| "`"@ + k + "`"@)
}

/// The Markdown page of a crate.
pub open spec fn crate_page(pkg: PackageMeta, doc: Seq<char>) -> Seq<char> {
    let desc = or_text(pkg.description, Seq::empty());
    let head = "# "@ + pkg.name@ + "\n\n"@;
    let with_desc = if desc.len() > 0 { head + "> "@ + desc + "\n\n"@ } else { head };
    let with_version = with_desc + "**Version**: `"@ + or_text(pkg.version, "workspace"@) + "`\n\n"@;
    let with_keywords = if pkg.keywords@.len() > 0 {
        with_version + "**Keywords**: "@ + join_spec(ticked(views(pkg.keywords@)), ", "@) + "\n\n"@
    } else {
        with_version
    };
    let with_install = with_keywords + "## Installation\n\n"@ + "```bash\ncargo add "@ + pkg.name@ + "\n```\n\n"@;
    if doc.len() > 0 {
        with_install + "## Overview\n\n"@ + doc + "\n"@
    } else {
        with_install
    }
}

/// Renders the Markdown page of a crate: name, description, version,
/// keywords, how to add it, and its overview.
pub fn render_crate_doc(pkg: &PackageMeta, doc: &str) -> (r: String)
    ensures
        r@ == crate_page(*pkg, doc@),
{
    let mut out = owned("# ");
    push_str(&mut out, pkg.name.as_str());
    push_str(&mut out, "\n\n");
    let desc = pkg.description_str();
    if desc.unicode_len() > 0 {
        push_str(&mut out, "> ");
        push_str(&mut out, desc);
        push_str(&mut out, "\n\n");
    }
    push_str(&mut out, "**Version**: `");
    push_str(&mut out, pkg.version_str());
    push_str(&mut out, "`\n\n");
    if pkg.keywords.len() > 0 {
        let mut ticks: Vec<String> = Vec::new();
        let mut i: usize = 0;
        while i < pkg.keywords.len()
            invariant
                i <= pkg.keywords@.len(),
                views(ticks@) == ticked(views(pkg.keywords@)).take(i as int),
            decreases pkg.keywords.len() - i,
        {
            let mut t = owned("`");
            push_str(&mut t, pkg.keywords[i].as_str());
            push_str(&mut t, "`");
            let ghost before = views(ticks@);
            ticks.push(t);
            assert(views(ticks@) =~= before.push(t@));
            assert(ticked(views(pkg.keywords@)).take(i + 1) =~= ticked(views(pkg.keywords@)).take(i as int).push(t@));
            i = i + 1;
        }
        assert(ticked(views(pkg.keywords@)).take(pkg.keywords@.len() as int) =~= ticked(views(pkg.keywords@)));
        push_str(&mut out, "**Keywords**: ");
        let kw = join_strings(ticks.as_slice(), ", ");
        push_str(&mut out, kw.as_str());
        push_str(&mut out, "\n\n");
    }
    push_str(&mut out, "## Installation\n\n");
    push_str(&mut out, "```bash\ncargo add ");
    push_str(&mut out, pkg.name.as_str());
    push_str(&mut out, "\n```\n\n");
    if doc.unicode_len() > 0 {
        push_str(&mut out, "## Overview\n\n");
        push_str(&mut out, doc);
        push_str(&mut out, "\n");
    }
    out
}

/// The index row of a crate; the workspace's version, when it states one,
/// is shown for every crate.
pub open spec fn index_row(pkg: PackageMeta, workspace_version: Option<String>) -> Seq<char> {
    let version = match workspace_version {
        Some(v) => v@,
        None => or_text(pkg.version, "workspace"@),
    };
    "| [`"@ + pkg.name@ + "`]("@ + pkg.name@ + ".md) | "@ + or_text(pkg.description, Seq::empty()) + " | `"@
        + version + "` |\n"@
}

/// The rows of the members whose manifests could be read, in order.
pub open spec fn index_rows(members: Seq<Option<PackageMeta>>, workspace_version: Option<String>) -> Seq<char>
    decreases members.len(),
{
    if members.len() == 0 {
        Seq::empty()
    } else {
        index_rows(members.drop_last(), workspace_version) + match members.last() {
            Some(p) => index_row(p, workspace_version),
            None => Seq::empty(),
        }
    }
}

/// The index page of the workspace.
pub open spec fn index_page(members: Seq<Option<PackageMeta>>, workspace_version: Option<String>) -> Seq<char> {
    "# rok Ecosystem — Crate Index\n\n"@ + "| Crate | Description | Version |\n"@ + "|-------|-------------|--------|\n"@
        + index_rows(members, workspace_version)
}

/// Renders the index of the workspace's crates: one table row per member
/// whose manifest was read (`None` for one that was not).
pub fn render_index(members: &[Option<PackageMeta>], workspace_version: &Option<String>) -> (r: String)
    ensures
        r@ == index_page(members@, *workspace_version),
{
    let mut out = owned("# rok Ecosystem — Crate Index\n\n");
    push_str(&mut out, "| Crate | Description | Version |\n");
    push_str(&mut out, "|-------|-------------|--------|\n");
    let ghost head = out@;
    let mut i: usize = 0;
    while i < members.len()
        invariant
            i <= members@.len(),
            head == "# rok Ecosystem — Crate Index\n\n"@ + "| Crate | Description | Version |\n"@
                + "|-------|-------------|--------|\n"@,
            out@ == head + index_rows(members@.take(i as int), *workspace_version),
        decreases members.len() - i,
    {
        assert(members@.take(i + 1).drop_last() =~= members@.take(i as int));
        assert(members@.take(i + 1).last() == members@[i as int]);
        match &members[i] {
            Some(pkg) => {
                push_str(&mut out, "| [`");
                push_str(&mut out, pkg.name.as_str());
                push_str(&mut out, "`](");
                push_str(&mut out, pkg.name.as_str());
                push_str(&mut out, ".md) | ");
                push_str(&mut out, pkg.description_str());
                push_str(&mut out, " | `");
                match workspace_version {
                    Some(v) => push_str(&mut out, v.as_str()),
                    None => push_str(&mut out, pkg.version_str()),
                }
                push_str(&mut out, "` |\n");
            },
            None => {},
        }
        i = i + 1;
    }
    assert(members@.take(members@.len() as int) =~= members@);
    out
}

// ---------------------------------------------------------------------------
// serving
// ---------------------------------------------------------------------------

/// What a request path to the documentation server is answered with.
#[derive(Debug, Clone, PartialEq, Eq)]
pub enum DocsTarget {
    /// The path tries to leave the directory.
    Forbidden,
    /// The file to send, relative to the served directory.
    File(String),
}

/// The file a request path names (`None`: refused): the path without its
/// leading slashes, `index.md` for the root; any `..` in it is refused.
pub open spec fn docs_target(uri_path: Seq<char>) -> Option<Seq<char>> {
    let rel = strip_all(uri_path, "/"@);
    let rel2 = if rel.len() == 0 { "index.md"@ } else { rel };
    if contains_spec(rel2, ".."@) {
        None
    } else {
        Some(rel2)
    }
}

pub open spec fn target_view(t: DocsTarget) -> Option<Seq<char>> {
    match t {
        DocsTarget::Forbidden => None,
        DocsTarget::File(s) => Some(s@),
    }
}

/// The server never answers with a path that contains `..`.
pub proof fn lemma_docs_target_inside(uri_path: Seq<char>)
    ensures
        docs_target(uri_path) matches Some(rel) ==> !contains_spec(rel, ".."@),
{
}

/// Which file a request path asks for.
pub fn resolve_docs_path(uri_path: &str) -> (r: DocsTarget)
    ensures
        target_view(r) == docs_target(uri_path@),
{
    let cs = chars_of(uri_path);
    let slash = chars_of("/");
    let rel = strip_all_chars(cs.as_slice(), slash.as_slice());
    let rel2 = if rel.len() == 0 { owned("index.md") } else { string_of(rel.as_slice()) };
    if contains_str(rel2.as_str(), "..") {
        DocsTarget::Forbidden
    } else {
        DocsTarget::File(rel2)
    }
}

/// How the built-in documentation server answers a request line.
#[derive(Debug, Clone, PartialEq, Eq)]
pub enum DocsRoute {
    /// `index.html`.
    Index,
    /// `api.html`.
    Api,
    /// The file at this path under the documentation directory, if it is one.
    Path(String),
    /// Not found.
    NotFound,
}

pub open spec fn route_view(r: DocsRoute) -> (int, Seq<char>) {
    match r {
        DocsRoute::Index => (0, Seq::empty()),
        DocsRoute::Api => (1, Seq::empty()),
        DocsRoute::Path(p) => (2, p@),
        DocsRoute::NotFound => (3, Seq::empty()),
    }
}

/// The second whitespace-separated word of a request (its path), `/` when
/// there is none.
pub open spec fn request_path(request: Seq<char>) -> Seq<char> {
    let words = runs(request, RunKind::NonSpace);
    if words.len() > 1 {
        words[1]
    } else {
        "/"@
    }
}

/// The route of a request: the index for `GET /` and `GET /index.html`,
/// the API page for anything mentioning `GET /api`, a file for any other
/// `GET /`, and nothing else.
pub open spec fn docs_route(request: Seq<char>) -> (int, Seq<char>) {
    if starts_with_spec(request, "GET / "@) || starts_with_spec(request, "GET /index.html"@) {
        (0, Seq::empty())
    } else if contains_spec(request, "GET /api"@) {
        (1, Seq::empty())
    } else if starts_with_spec(request, "GET /"@) {
        (2, strip_all(request_path(request), "/"@))
    } else {
        (3, Seq::empty())
    }
}

/// Routes a request to the documentation server.
pub fn route_request(request: &str) -> (r: DocsRoute)
    ensures
        route_view(r) == docs_route(request@),
{
    if starts_with_str(request, "GET / ") || starts_with_str(request, "GET /index.html") {
        DocsRoute::Index
    } else if contains_str(request, "GET /api") {
        DocsRoute::Api
    } else if starts_with_str(request, "GET /") {
        let cs = chars_of(request);
        let words = runs_of(cs.as_slice(), RunKind::NonSpace);
        let slash = chars_of("/");
        let path = if words.len() > 1 {
            assert(vviews(words@)[1] == words@[1]@);
            strip_all_chars(words[1].as_slice(), slash.as_slice())
        } else {
            strip_all_chars(slash.as_slice(), slash.as_slice())
        };
        DocsRoute::Path(string_of(path.as_slice()))
    } else {
        DocsRoute::NotFound
    }
}

/// The content type a file is served with, by its extension.
pub open spec fn content_type(ext: Option<Seq<char>>) -> Seq<char> {
    match ext {
        Some(e) => if e == "css"@ {
            "text/css"@
        } else if e == "js"@ {
            "application/javascript"@
        } else if e == "json"@ {
            "application/json"@
        } else if e == "html"@ || e == "md"@ {
            "text/html"@
        } else {
            "text/plain"@
        },
        None => "text/plain"@,
    }
}

/// The content type for a file extension (`None`: the file has none).
pub fn content_type_for(ext: Option<&str>) -> (r: &'static str)
    ensures
        r@ == content_type(
            match ext {
                Some(e) => Some(e@),
                None => None,
            },
        ),
{
    match ext {
        Some(e) => if crate::text::same_text(e, "css") {
            "text/css"
        } else if crate::text::same_text(e, "js") {
            "application/javascript"
        } else if crate::text::same_text(e, "json") {
            "application/json"
        } else if crate::text::same_text(e, "html") || crate::text::same_text(e, "md") {
            "text/html"
        } else {
            "text/plain"
        },
        None => "text/plain",
    }
}

} // verus!
