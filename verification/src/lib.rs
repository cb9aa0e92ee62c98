//! Resolve where a named dependency of a cargo workspace lives — a local
//! member directory or a page on the public registry — and render that
//! location as a path or a URL under caller-chosen display options.

use vstd::prelude::*;

verus! {

// ---------------------------------------------------------------------------
// Results of the outside path and URL computations, by name.
// ---------------------------------------------------------------------------

/// The relative path leading from `base` to `path`, as `pathdiff` computes
/// it from the two paths' components; `None` when no such path exists.
pub uninterp spec fn diff_of(path: Seq<char>, base: Seq<char>) -> Option<Seq<char>>;

/// The `file://` URL for the directory `path`, as the `url` crate renders
/// it; `None` when the path cannot be expressed as such a URL.
pub uninterp spec fn dir_url_of(path: Seq<char>) -> Option<Seq<char>>;

/// The URL obtained by resolving the reference `rel` against the URL
/// `base`, as the `url` crate parses it; `None` when parsing fails.
pub uninterp spec fn joined_url(base: Seq<char>, rel: Seq<char>) -> Option<Seq<char>>;

/// The page for a crate on the well-known public registry sits at this
/// base URL, with the crate's name as the final path segment.
pub open spec fn registry_base() -> Seq<char> {
    "https://crates.io/crates/"@
}

/// A character that URL path parsing carries through unchanged; package
/// names are built of these.
pub open spec fn is_plain_char(c: char) -> bool {
    ('a' <= c && c <= 'z') || ('A' <= c && c <= 'Z') || ('0' <= c && c <= '9') || c == '-'
        || c == '_'
}

/// A name made only of ASCII letters, digits, `-` and `_`: it forms no
/// scheme, no separator and no dot segment, and needs no escaping.
pub open spec fn is_plain_name(s: Seq<char>) -> bool {
    forall|i: int| 0 <= i < s.len() ==> is_plain_char(#[trigger] s[i])
}

/// Relies on `pathdiff::diff_paths`: the result is a pure function of the
/// two paths' components; when the paths are equal the component walk
/// consumes both sides pairwise and leaves the empty path.
#[verifier::external_body]
fn diff_paths(path: &str, base: &str) -> (r: Option<String>)
    ensures
        r is Some <==> diff_of(path@, base@) is Some,
        r matches Some(s) ==> diff_of(path@, base@) == Some(s@),
        r is None ==> path@ != base@,
        r matches Some(s) ==> (path@ == base@ ==> s@.len() == 0),
{
    pathdiff::diff_paths(path, base).map(|p| p.display().to_string())
}

/// Relies on `url::Url::from_directory_path`: the result is a function of
/// the path alone, and the conversion is refused exactly when the crate
/// rejects the path (it is not absolute).
#[verifier::external_body]
fn directory_url(path: &str) -> (r: Option<String>)
    ensures
        r is Some <==> dir_url_of(path@) is Some,
        r matches Some(s) ==> dir_url_of(path@) == Some(s@),
{
    url::Url::from_directory_path(path).ok().map(String::from)
}

/// Relies on `url::Url::parse` and `url::Url::join`: the registry base is
/// a well-formed URL ending in `/`, and resolving a reference made only of
/// ASCII letters, digits, `-` and `_` against such a base appends the
/// reference to the base unchanged (those characters are not
/// percent-encoded and form no scheme, separator or dot segment).
#[verifier::external_body]
fn join_url(base: &str, rel: &str) -> (r: Option<String>)
    ensures
        r is Some <==> joined_url(base@, rel@) is Some,
        r matches Some(s) ==> joined_url(base@, rel@) == Some(s@),
        r is None ==> !(base@ == registry_base() && is_plain_name(rel@)),
        r matches Some(s) ==> (base@ == registry_base() && is_plain_name(rel@) ==> s@ == base@
            + rel@),
{
    url::Url::parse(base).and_then(|b| b.join(rel)).ok().map(String::from)
}

// ---------------------------------------------------------------------------
// Locations and errors.
// ---------------------------------------------------------------------------

/// Where a dependency's source lives: a directory on this machine, or a
/// page on the well-known public registry.
#[derive(Debug, Clone, PartialEq, Eq)]
pub enum Location {
    /// An absolute directory path to the dependency's manifest directory.
    Local(String),
    /// The URL of the dependency's page on the public registry.
    Remote(String),
}

/// The mathematical value of a `Location`: the same two cases over
/// character sequences.
pub enum LocationView {
    Local(Seq<char>),
    Remote(Seq<char>),
}

impl View for Location {
    type V = LocationView;

    open spec fn view(&self) -> LocationView {
        match self {
            Location::Local(p) => LocationView::Local(p@),
            Location::Remote(u) => LocationView::Remote(u@),
        }
    }
}

/// Everything that can go wrong while resolving or rendering a location.
#[derive(Debug, Clone, PartialEq, Eq)]
pub enum Error {
    /// The workspace's dependency graph could not be loaded.
    Metadata,
    /// The name matches no workspace member and no package.
    NotFound(String),
    /// A remote location was asked for in plain path form.
    RemoteButNotUrl,
    /// No relative path leads from the current directory to the location.
    ComputeRelative,
    /// The current directory could not be read.
    Io,
    /// The local path could not be expressed as a directory URL.
    DirectoryUrl(String),
    /// The matched package records no source at all.
    NoSource,
    /// The matched package comes from a registry this tool does not know.
    UnknownRegistry(String),
    /// The crate name could not be joined onto the registry URL.
    Url,
}

/// The mathematical value of an `Error`: the same cases, with the carried
/// strings as character sequences.
pub enum ErrorView {
    Metadata,
    NotFound(Seq<char>),
    RemoteButNotUrl,
    ComputeRelative,
    Io,
    DirectoryUrl(Seq<char>),
    NoSource,
    UnknownRegistry(Seq<char>),
    Url,
}

impl View for Error {
    type V = ErrorView;

    open spec fn view(&self) -> ErrorView {
        match self {
            Error::Metadata => ErrorView::Metadata,
            Error::NotFound(n) => ErrorView::NotFound(n@),
            Error::RemoteButNotUrl => ErrorView::RemoteButNotUrl,
            Error::ComputeRelative => ErrorView::ComputeRelative,
            Error::Io => ErrorView::Io,
            Error::DirectoryUrl(p) => ErrorView::DirectoryUrl(p@),
            Error::NoSource => ErrorView::NoSource,
            Error::UnknownRegistry(n) => ErrorView::UnknownRegistry(n@),
            Error::Url => ErrorView::Url,
        }
    }
}

/// The mathematical value of a rendering result.
pub open spec fn render_view(r: Result<String, Error>) -> Result<Seq<char>, ErrorView> {
    match r {
        Ok(s) => Ok(s@),
        Err(e) => Err(e@),
    }
}

/// The mathematical value of an optional current-directory argument.
pub open spec fn cwd_view(cwd: Option<&str>) -> Option<Seq<char>> {
    match cwd {
        Some(c) => Some(c@),
        None => None,
    }
}

// ---------------------------------------------------------------------------
// Rendering.
// ---------------------------------------------------------------------------

/// What rendering a location returns, as a function of the location, the
/// two display options and the current directory: the full decision table
/// over (variant, as_url), with `relative` read only in the plain local
/// case.
pub open spec fn show_spec(
    loc: LocationView,
    relative: bool,
    as_url: bool,
    cwd: Option<Seq<char>>,
) -> Result<Seq<char>, ErrorView> {
    match loc {
        LocationView::Local(p) => {
            if as_url {
                match dir_url_of(p) {
                    Some(u) => Ok(u),
                    None => Err(ErrorView::DirectoryUrl(p)),
                }
            } else if relative {
                match cwd {
                    None => Err(ErrorView::Io),
                    Some(c) => match diff_of(p, c) {
                        None => Err(ErrorView::ComputeRelative),
                        Some(d) => Ok(if d.len() == 0 { "."@ } else { d }),
                    },
                }
            } else {
                Ok(p)
            }
        },
        LocationView::Remote(u) => if as_url {
            Ok(u)
        } else {
            Err(ErrorView::RemoteButNotUrl)
        },
    }
}

/// What the forced rendering returns: the plain rendering, except that a
/// failure that is exactly `RemoteButNotUrl` is retried once in URL form
/// when `force` is set; every other outcome stands.
pub open spec fn show_forced_spec(
    loc: LocationView,
    relative: bool,
    as_url: bool,
    force: bool,
    cwd: Option<Seq<char>>,
) -> Result<Seq<char>, ErrorView> {
    let first = show_spec(loc, relative, as_url, cwd);
    if force && first == Err::<Seq<char>, ErrorView>(ErrorView::RemoteButNotUrl) {
        show_spec(loc, relative, true, cwd)
    } else {
        first
    }
}

impl Location {
    /// Render the location under the given display options. `cwd` is the
    /// current directory, when the caller could read it; it is consulted
    /// only for the relative plain-path form of a local location.
    pub fn show(&self, relative: bool, as_url: bool, cwd: Option<&str>) -> (r: Result<
        String,
        Error,
    >)
        ensures
            render_view(r) == show_spec(self@, relative, as_url, cwd_view(cwd)),
            self@ matches LocationView::Local(p) && !as_url && relative && cwd_view(cwd) == Some(
                p,
            ) ==> (r matches Ok(s) && s@ == "."@),
    {
        match self {
            Location::Local(p) => {
                if as_url {
                    match directory_url(p.as_str()) {
                        Some(u) => Ok(u),
                        None => Err(Error::DirectoryUrl(p.clone())),
                    }
                } else if relative {
                    match cwd {
                        None => Err(Error::Io),
                        Some(c) => match diff_paths(p.as_str(), c) {
                            None => Err(Error::ComputeRelative),
                            Some(d) => if d.as_str().is_empty() {
                                Ok(".".to_owned())
                            } else {
                                Ok(d)
                            },
                        },
                    }
                } else {
                    Ok(p.clone())
                }
            },
            Location::Remote(u) => if as_url {
                Ok(u.clone())
            } else {
                Err(Error::RemoteButNotUrl)
            },
        }
    }

    /// Render the location, and when `force` is set and the rendering
    /// failed only because the location is remote and no URL was asked
    /// for, render once more in URL form. Any other failure stands.
    pub fn show_forced(
        &self,
        relative: bool,
        as_url: bool,
        force: bool,
        cwd: Option<&str>,
    ) -> (r: Result<String, Error>)
        ensures
            render_view(r) == show_forced_spec(self@, relative, as_url, force, cwd_view(cwd)),
    {
        match self.show(relative, as_url, cwd) {
            Ok(s) => Ok(s),
            Err(e) => match e {
                Error::RemoteButNotUrl => if force {
                    self.show(relative, true, cwd)
                } else {
                    Err(Error::RemoteButNotUrl)
                },
                _ => Err(e),
            },
        }
    }
}

/// Rendering is a function of the location and the options alone: two
/// renderings of one location under equal options agree exactly, in the
/// string returned and in the error alike.
pub proof fn lemma_show_idempotent(
    a: LocationView,
    b: LocationView,
    relative: bool,
    as_url: bool,
    cwd: Option<Seq<char>>,
)
    requires
        a == b,
    ensures
        show_spec(a, relative, as_url, cwd) == show_spec(b, relative, as_url, cwd),
{
}

/// A remote location never renders as a plain path: without the URL
/// option the rendering fails with `RemoteButNotUrl`, whatever `relative`
/// is.
pub proof fn lemma_remote_never_path(u: Seq<char>, relative: bool, cwd: Option<Seq<char>>)
    ensures
        show_spec(LocationView::Remote(u), relative, false, cwd) == Err::<
            Seq<char>,
            ErrorView,
        >(ErrorView::RemoteButNotUrl),
{
}

/// With the URL option a remote location always renders as exactly its
/// URL text, whatever `relative` is.
pub proof fn lemma_remote_as_url(u: Seq<char>, relative: bool, cwd: Option<Seq<char>>)
    ensures
        show_spec(LocationView::Remote(u), relative, true, cwd) == Ok::<
            Seq<char>,
            ErrorView,
        >(u),
{
}

/// The force fallback on a remote location: forcing the plain rendering
/// yields exactly what the URL rendering yields, and not forcing it
/// leaves the `RemoteButNotUrl` failure.
pub proof fn lemma_force_fallback(u: Seq<char>, relative: bool, cwd: Option<Seq<char>>)
    ensures
        show_forced_spec(LocationView::Remote(u), relative, false, true, cwd) == show_spec(
            LocationView::Remote(u),
            relative,
            true,
            cwd,
        ),
        show_forced_spec(LocationView::Remote(u), relative, false, false, cwd) == Err::<
            Seq<char>,
            ErrorView,
        >(ErrorView::RemoteButNotUrl),
{
}

// ---------------------------------------------------------------------------
// The dependency graph, as the metadata provider reports it.
// ---------------------------------------------------------------------------

/// A workspace member: a package whose manifest belongs to the current
/// build's own package set.
#[derive(Debug, Clone, PartialEq, Eq)]
pub struct Member {
    /// The package's canonical name.
    pub name: String,
    /// The member's manifest directory, resolved to an absolute canonical
    /// path; `None` when that resolution failed.
    pub manifest_dir: Option<String>,
}

/// What a package's source descriptor identifies, as far as this tool
/// reads it.
#[derive(Debug, Clone, Copy, PartialEq, Eq)]
pub enum SourceKind {
    /// The well-known public registry.
    CratesIo,
    /// Some other registry or origin.
    Other,
}

/// A package anywhere in the build: a workspace member or a transitive
/// dependency.
#[derive(Debug, Clone, PartialEq, Eq)]
pub struct Package {
    /// The package's canonical name.
    pub name: String,
    /// Where the package was fetched from; `None` when the provider
    /// recorded no provenance.
    pub source: Option<SourceKind>,
}

/// The dependency graph of one workspace: its members, and every package
/// resolved for the build.
#[derive(Debug, Clone, PartialEq, Eq)]
pub struct Graph {
    pub members: Vec<Member>,
    pub packages: Vec<Package>,
}

/// The directory a found member resolves to: its canonical manifest
/// directory, or the root sentinel when canonicalization failed — member
/// resolution never fails on that account.
pub open spec fn member_dir_or_root(m: Member) -> Seq<char> {
    match m.manifest_dir {
        Some(d) => d@,
        None => "/"@,
    }
}

/// The first member of the given name, if any.
pub open spec fn lookup_member(ms: Seq<Member>, name: Seq<char>) -> Option<Member>
    decreases ms.len(),
{
    if ms.len() == 0 {
        None
    } else if ms[0].name@ == name {
        Some(ms[0])
    } else {
        lookup_member(ms.skip(1), name)
    }
}

/// The first package of the given name, if any.
pub open spec fn lookup_package(ps: Seq<Package>, name: Seq<char>) -> Option<Package>
    decreases ps.len(),
{
    if ps.len() == 0 {
        None
    } else if ps[0].name@ == name {
        Some(ps[0])
    } else {
        lookup_package(ps.skip(1), name)
    }
}

/// The mathematical value of a resolution result.
pub open spec fn locate_view(r: Result<Location, Error>) -> Result<LocationView, ErrorView> {
    match r {
        Ok(l) => Ok(l@),
        Err(e) => Err(e@),
    }
}

/// What resolving a name against a graph returns: the member set is
/// searched first and a hit there wins outright; only then the full
/// package set decides, by its recorded source.
pub open spec fn where_is_spec(
    members: Seq<Member>,
    packages: Seq<Package>,
    name: Seq<char>,
) -> Result<LocationView, ErrorView> {
    match lookup_member(members, name) {
        Some(m) => Ok(LocationView::Local(member_dir_or_root(m))),
        None => match lookup_package(packages, name) {
            Some(p) => match p.source {
                None => Err(ErrorView::NoSource),
                Some(SourceKind::CratesIo) => match joined_url(registry_base(), name) {
                    Some(u) => Ok(LocationView::Remote(u)),
                    None => Err(ErrorView::Url),
                },
                Some(SourceKind::Other) => Err(ErrorView::UnknownRegistry(name)),
            },
            None => Err(ErrorView::NotFound(name)),
        },
    }
}

/// Determine where the dependency named `crate_name` is located in the
/// given dependency graph.
pub fn where_is(crate_name: &str, graph: &Graph) -> (r: Result<Location, Error>)
    ensures
        locate_view(r) == where_is_spec(graph.members@, graph.packages@, crate_name@),
        lookup_member(graph.members@, crate_name@) is None && (lookup_package(
            graph.packages@,
            crate_name@,
        ) matches Some(p) && p.source == Some(SourceKind::CratesIo)) && is_plain_name(crate_name@)
            ==> (r matches Ok(l) && l@ == LocationView::Remote(registry_base() + crate_name@)),
{
    let target: String = crate_name.to_owned();

    // first, attempt to locate the requested crate among the workspace members
    let member_count: usize = graph.members.len();
    let mut i: usize = 0;
    proof {
        assert(graph.members@.skip(0) =~= graph.members@);
    }
    while i < member_count
        invariant
            i <= member_count,
            member_count == graph.members@.len(),
            target@ == crate_name@,
            lookup_member(graph.members@, crate_name@) == lookup_member(
                graph.members@.skip(i as int),
                crate_name@,
            ),
        decreases member_count - i,
    {
        if graph.members[i].name == target {
            let dir: String = match &graph.members[i].manifest_dir {
                Some(d) => d.clone(),
                None => "/".to_owned(),
            };
            return Ok(Location::Local(dir));
        }
        proof {
            assert(graph.members@.skip(i as int).skip(1) =~= graph.members@.skip(i as int + 1));
        }
        i = i + 1;
    }
    proof {
        assert(graph.members@.skip(member_count as int) =~= Seq::<Member>::empty());
    }

    // if it is no member, it still might be a dependency
    let package_count: usize = graph.packages.len();
    let mut j: usize = 0;
    proof {
        assert(graph.packages@.skip(0) =~= graph.packages@);
    }
    while j < package_count
        invariant
            j <= package_count,
            package_count == graph.packages@.len(),
            target@ == crate_name@,
            lookup_member(graph.members@, crate_name@) is None,
            lookup_package(graph.packages@, crate_name@) == lookup_package(
                graph.packages@.skip(j as int),
                crate_name@,
            ),
        decreases package_count - j,
    {
        if graph.packages[j].name == target {
            return match &graph.packages[j].source {
                None => Err(Error::NoSource),
                Some(SourceKind::CratesIo) => match join_url(
                    "https://crates.io/crates/",
                    crate_name,
                ) {
                    Some(u) => Ok(Location::Remote(u)),
                    None => Err(Error::Url),
                },
                Some(SourceKind::Other) => Err(Error::UnknownRegistry(target)),
            };
        }
        proof {
            assert(graph.packages@.skip(j as int).skip(1) =~= graph.packages@.skip(j as int + 1));
        }
        j = j + 1;
    }
    proof {
        assert(graph.packages@.skip(package_count as int) =~= Seq::<Package>::empty());
    }

    Err(Error::NotFound(target))
}

// ---------------------------------------------------------------------------
// Laws of resolution.
// ---------------------------------------------------------------------------

proof fn lemma_lookup_member_found(ms: Seq<Member>, name: Seq<char>)
    requires
        exists|k: int| 0 <= k < ms.len() && ms[k].name@ == name,
    ensures
        lookup_member(ms, name) matches Some(f) && f.name@ == name && ms.contains(f),
    decreases ms.len(),
{
    if ms[0].name@ == name {
        assert(ms.contains(ms[0]));
    } else {
        let k = choose|k: int| 0 <= k < ms.len() && ms[k].name@ == name;
        assert(ms.skip(1)[k - 1] == ms[k]);
        lemma_lookup_member_found(ms.skip(1), name);
        let f = lookup_member(ms.skip(1), name)->0;
        let k2 = choose|k2: int| 0 <= k2 < ms.skip(1).len() && ms.skip(1)[k2] == f;
        assert(ms[k2 + 1] == f);
        assert(ms.contains(f));
    }
}

proof fn lemma_lookup_member_absent(ms: Seq<Member>, name: Seq<char>)
    requires
        forall|k: int| 0 <= k < ms.len() ==> ms[k].name@ != name,
    ensures
        lookup_member(ms, name) is None,
    decreases ms.len(),
{
    if ms.len() == 0 {
    } else {
        assert forall|k: int| 0 <= k < ms.skip(1).len() implies ms.skip(1)[k].name@ != name by {
            assert(ms.skip(1)[k] == ms[k + 1]);
        }
        lemma_lookup_member_absent(ms.skip(1), name);
    }
}

proof fn lemma_lookup_package_found(ps: Seq<Package>, name: Seq<char>)
    requires
        exists|k: int| 0 <= k < ps.len() && ps[k].name@ == name,
    ensures
        lookup_package(ps, name) matches Some(f) && f.name@ == name && ps.contains(f),
    decreases ps.len(),
{
    if ps[0].name@ == name {
        assert(ps.contains(ps[0]));
    } else {
        let k = choose|k: int| 0 <= k < ps.len() && ps[k].name@ == name;
        assert(ps.skip(1)[k - 1] == ps[k]);
        lemma_lookup_package_found(ps.skip(1), name);
        let f = lookup_package(ps.skip(1), name)->0;
        let k2 = choose|k2: int| 0 <= k2 < ps.skip(1).len() && ps.skip(1)[k2] == f;
        assert(ps[k2 + 1] == f);
        assert(ps.contains(f));
    }
}

proof fn lemma_lookup_package_absent(ps: Seq<Package>, name: Seq<char>)
    requires
        forall|k: int| 0 <= k < ps.len() ==> ps[k].name@ != name,
    ensures
        lookup_package(ps, name) is None,
    decreases ps.len(),
{
    if ps.len() == 0 {
    } else {
        assert forall|k: int| 0 <= k < ps.skip(1).len() implies ps.skip(1)[k].name@ != name by {
            assert(ps.skip(1)[k] == ps[k + 1]);
        }
        lemma_lookup_package_absent(ps.skip(1), name);
    }
}

/// Workspace truth wins: a member resolves to its own directory (or the
/// root sentinel), whatever the full package set says under the same
/// name. The premise that no second member shares the name matches real
/// workspaces, where member names are unique; among members that do share
/// one, the first listed wins instead.
pub proof fn lemma_member_resolves_local(members: Seq<Member>, packages: Seq<Package>, m: Member)
    requires
        members.contains(m),
        forall|k: int| 0 <= k < members.len() && members[k].name@ == m.name@ ==> members[k] == m,
    ensures
        where_is_spec(members, packages, m.name@) == Ok::<LocationView, ErrorView>(
            LocationView::Local(member_dir_or_root(m)),
        ),
{
    let k = choose|k: int| 0 <= k < members.len() && members[k] == m;
    assert(members[k].name@ == m.name@);
    lemma_lookup_member_found(members, m.name@);
    let f = lookup_member(members, m.name@)->0;
    let k2 = choose|k2: int| 0 <= k2 < members.len() && members[k2] == f;
    assert(members[k2] == m);
}

/// A package that no member shadows and whose recorded source is the
/// well-known registry resolves to the registry page joined under its
/// name — never to a path, and never to another package's page.
/// `where_is` itself states the page's exact text: the registry base with
/// the name appended. The premise that no second package shares the name
/// matches real graphs, where resolved package names are unique; among
/// packages that do share one, the first listed decides instead.
pub proof fn lemma_registry_package_resolves_remote(
    members: Seq<Member>,
    packages: Seq<Package>,
    p: Package,
)
    requires
        forall|k: int| 0 <= k < members.len() ==> members[k].name@ != p.name@,
        packages.contains(p),
        forall|k: int| 0 <= k < packages.len() && packages[k].name@ == p.name@ ==> packages[k]
            == p,
        p.source == Some(SourceKind::CratesIo),
    ensures
        where_is_spec(members, packages, p.name@) == (match joined_url(registry_base(), p.name@) {
            Some(u) => Ok::<LocationView, ErrorView>(LocationView::Remote(u)),
            None => Err::<LocationView, ErrorView>(ErrorView::Url),
        }),
{
    lemma_lookup_member_absent(members, p.name@);
    let k = choose|k: int| 0 <= k < packages.len() && packages[k] == p;
    assert(packages[k].name@ == p.name@);
    lemma_lookup_package_found(packages, p.name@);
    let f = lookup_package(packages, p.name@)->0;
    let k2 = choose|k2: int| 0 <= k2 < packages.len() && packages[k2] == f;
    assert(packages[k2] == p);
}

/// A package that no member shadows and whose source is recorded but not
/// recognized never resolves: the resolution fails with
/// `UnknownRegistry` carrying the requested name. The premise on name
/// sharing is as in the registry law.
pub proof fn lemma_unknown_registry_fails(
    members: Seq<Member>,
    packages: Seq<Package>,
    p: Package,
)
    requires
        forall|k: int| 0 <= k < members.len() ==> members[k].name@ != p.name@,
        packages.contains(p),
        forall|k: int| 0 <= k < packages.len() && packages[k].name@ == p.name@ ==> packages[k]
            == p,
        p.source == Some(SourceKind::Other),
    ensures
        where_is_spec(members, packages, p.name@) == Err::<LocationView, ErrorView>(
            ErrorView::UnknownRegistry(p.name@),
        ),
{
    lemma_lookup_member_absent(members, p.name@);
    let k = choose|k: int| 0 <= k < packages.len() && packages[k] == p;
    assert(packages[k].name@ == p.name@);
    lemma_lookup_package_found(packages, p.name@);
    let f = lookup_package(packages, p.name@)->0;
    let k2 = choose|k2: int| 0 <= k2 < packages.len() && packages[k2] == f;
    assert(packages[k2] == p);
}

/// A name that neither the member set nor the package set carries
/// resolves to `NotFound` with exactly that name.
pub proof fn lemma_absent_not_found(
    members: Seq<Member>,
    packages: Seq<Package>,
    name: Seq<char>,
)
    requires
        forall|k: int| 0 <= k < members.len() ==> members[k].name@ != name,
        forall|k: int| 0 <= k < packages.len() ==> packages[k].name@ != name,
    ensures
        where_is_spec(members, packages, name) == Err::<LocationView, ErrorView>(
            ErrorView::NotFound(name),
        ),
{
    lemma_lookup_member_absent(members, name);
    lemma_lookup_package_absent(packages, name);
}

} // verus!
