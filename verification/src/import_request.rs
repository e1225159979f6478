//! The explicit file selection of an assistant import request, checked
//! before any file is opened: between one and a hundred absolute paths,
//! none climbing to a parent directory, no project file, no path twice.
use vstd::prelude::*;
use crate::apps::{eq_ignore_case, same_ignoring_case};
use crate::text::views;

verus! {

/// At most this many files per request.
pub const MAX_FILES: usize = 100;

/// Whether `std::path::Path::is_absolute` holds of `path`, on the platform
/// the crate is built for.
pub uninterp spec fn absolute_path(path: Seq<char>) -> bool;

/// One component of a path, as `std::path::Component` has it (a Windows
/// prefix and a normal component by their lossy text).
#[derive(Debug)]
pub enum PathPart {
    Prefix(String),
    RootDir,
    CurDir,
    ParentDir,
    Normal(String),
}

/// Plain-value model of a [`PathPart`].
pub enum PartView {
    Prefix(Seq<char>),
    RootDir,
    CurDir,
    ParentDir,
    Normal(Seq<char>),
}

impl View for PathPart {
    type V = PartView;

    open spec fn view(&self) -> PartView {
        match self {
            PathPart::Prefix(p) => PartView::Prefix(p@),
            PathPart::RootDir => PartView::RootDir,
            PathPart::CurDir => PartView::CurDir,
            PathPart::ParentDir => PartView::ParentDir,
            PathPart::Normal(n) => PartView::Normal(n@),
        }
    }
}

/// The views of path components.
pub open spec fn part_views(parts: Seq<PathPart>) -> Seq<PartView> {
    parts.map_values(|p: PathPart| p@)
}

/// The components that `std::path::Path::components` yields for `path`, in
/// order, on the platform the crate is built for.
pub uninterp spec fn components_of(path: Seq<char>) -> Seq<PartView>;

/// One of the path's components is `..`.
pub open spec fn climbs_to_parent(path: Seq<char>) -> bool {
    exists|i: int| 0 <= i < components_of(path).len() && #[trigger] components_of(path)[i] is ParentDir
}

/// Whether `std::path::Path`'s `==` holds of `a` and `b` (it compares them
/// component by component).
pub uninterp spec fn same_path(a: Seq<char>, b: Seq<char>) -> bool;

/// `std::path::Path::extension` of `path` as lossy text: the part of the
/// file name after its last dot, if any.
pub uninterp spec fn extension_of(path: Seq<char>) -> Option<Seq<char>>;

/// `std::path::Path::is_absolute`: the contract only names its result.
#[verifier::external_body]
fn path_is_absolute(path: &str) -> (r: bool)
    ensures
        r == absolute_path(path@),
{
    std::path::Path::new(path).is_absolute()
}

/// `std::path::Path::components`, each component handed out as a
/// [`PathPart`]: the contract names the sequence.
#[verifier::external_body]
fn path_components(path: &str) -> (r: Vec<PathPart>)
    ensures
        part_views(r@) == components_of(path@),
{
    let mut parts = Vec::new();
    for c in std::path::Path::new(path).components() {
        parts.push(match c {
            std::path::Component::Prefix(p) => PathPart::Prefix(p.as_os_str().to_string_lossy().into_owned()),
            std::path::Component::RootDir => PathPart::RootDir,
            std::path::Component::CurDir => PathPart::CurDir,
            std::path::Component::ParentDir => PathPart::ParentDir,
            std::path::Component::Normal(n) => PathPart::Normal(n.to_string_lossy().into_owned()),
        });
    }
    parts
}

/// Whether one of the path's components is `..`.
pub fn climbs(path: &str) -> (r: bool)
    ensures
        r == climbs_to_parent(path@),
{
    let parts = path_components(path);
    let ghost pv = part_views(parts@);
    let n = parts.len();
    let mut i: usize = 0;
    while i < n
        invariant
            n == parts@.len(),
            pv == part_views(parts@),
            pv == components_of(path@),
            i <= n,
            forall|k: int| 0 <= k < i ==> !(#[trigger] pv[k] is ParentDir),
        decreases n - i,
    {
        if let PathPart::ParentDir = &parts[i] {
            assert(pv[i as int] is ParentDir);
            return true;
        }
        assert(!(pv[i as int] is ParentDir));
        i = i + 1;
    }
    false
}

/// `==` on `std::path::Path`: the contract only names its result.
#[verifier::external_body]
fn paths_equal(a: &str, b: &str) -> (r: bool)
    ensures
        r == same_path(a@, b@),
{
    std::path::Path::new(a) == std::path::Path::new(b)
}

/// `std::path::Path::extension`, as lossy text: the contract only names its
/// result.
#[verifier::external_body]
fn path_extension(path: &str) -> (r: Option<String>)
    ensures
        match r {
            Some(e) => extension_of(path@) == Some(e@),
            None => extension_of(path@) is None,
        },
{
    std::path::Path::new(path).extension().map(|e| e.to_string_lossy().into_owned())
}

/// A project file, recognised by its `.rxs` extension (any ASCII case).
pub open spec fn project_path(path: Seq<char>) -> bool {
    match extension_of(path) {
        Some(e) => same_ignoring_case(e, "rxs"@),
        None => false,
    }
}

/// Whether `path` names a project file.
pub fn is_project(path: &str) -> (r: bool)
    ensures
        r == project_path(path@),
{
    match path_extension(path) {
        Some(e) => eq_ignore_case(e.as_str(), "rxs"),
        None => false,
    }
}

pub open spec fn count_refusal() -> Seq<char> {
    "Choose between 1 and 100 spectrum files."@
}

pub open spec fn path_refusal() -> Seq<char> {
    "Use absolute file paths without '..'; download remote files first."@
}

pub open spec fn project_refusal() -> Seq<char> {
    "Use Open project for .rxs files; Assistant import adds spectra."@
}

pub open spec fn repeat_refusal() -> Seq<char> {
    "Each import path must appear only once."@
}

/// Why one path cannot be imported, if it cannot.
pub open spec fn refusal(path: Seq<char>) -> Option<Seq<char>> {
    if !absolute_path(path) || climbs_to_parent(path) {
        Some(path_refusal())
    } else if project_path(path) {
        Some(project_refusal())
    } else {
        None
    }
}

/// The refusal of the first refused path from index `i` on.
pub open spec fn first_refusal(paths: Seq<Seq<char>>, i: int) -> Option<Seq<char>>
    decreases paths.len() - i,
{
    if i < 0 || i >= paths.len() {
        None
    } else {
        match refusal(paths[i]) {
            Some(m) => Some(m),
            None => first_refusal(paths, i + 1),
        }
    }
}

/// Two entries name the same path.
pub open spec fn has_repeat(paths: Seq<Seq<char>>) -> bool {
    exists|i: int, j: int| 0 <= i < j < paths.len() && same_path(#[trigger] paths[i], #[trigger] paths[j])
}

/// Why a selection of paths is refused, checked in this order: the count,
/// each path in turn, then repeats; `None` when it is accepted.
pub open spec fn request_error(paths: Seq<Seq<char>>) -> Option<Seq<char>> {
    if paths.len() == 0 || paths.len() > MAX_FILES {
        Some(count_refusal())
    } else {
        match first_refusal(paths, 0) {
            Some(m) => Some(m),
            None => if has_repeat(paths) {
                Some(repeat_refusal())
            } else {
                None
            },
        }
    }
}

/// No refusal from `i` on means every path from `i` on is acceptable.
proof fn lemma_no_refusal(paths: Seq<Seq<char>>, i: int)
    requires
        0 <= i,
        first_refusal(paths, i) is None,
    ensures
        forall|k: int| i <= k < paths.len() ==> refusal(#[trigger] paths[k]) is None,
    decreases paths.len() - i,
{
    if i < paths.len() {
        lemma_no_refusal(paths, i + 1);
    }
}

/// An accepted selection never opens a project and never leaves the named
/// files: it holds one to a hundred paths, each absolute, none with a `..`
/// component, none a `.rxs` project, and no path twice.
pub proof fn law_accepted_selection_is_explicit(paths: Seq<Seq<char>>)
    requires
        request_error(paths) is None,
    ensures
        1 <= paths.len() <= MAX_FILES,
        forall|k: int|
            0 <= k < paths.len() ==> absolute_path(#[trigger] paths[k]) && !climbs_to_parent(paths[k])
                && !project_path(paths[k]),
        !has_repeat(paths),
{
    lemma_no_refusal(paths, 0);
}

/// Every acceptable path from `i` on means no refusal from `i` on.
proof fn lemma_all_acceptable(paths: Seq<Seq<char>>, i: int)
    requires
        0 <= i,
        forall|k: int| i <= k < paths.len() ==> refusal(#[trigger] paths[k]) is None,
    ensures
        first_refusal(paths, i) is None,
    decreases paths.len() - i,
{
    if i < paths.len() {
        lemma_all_acceptable(paths, i + 1);
    }
}

/// A path is refused for leaving the named file (relative, or climbing
/// with `..`) before anything else, and a project file otherwise; every
/// other path is acceptable. A selection of one to a hundred acceptable
/// paths, none repeated, is accepted; a wrong count is refused first.
pub proof fn law_selection_refusals(paths: Seq<Seq<char>>, path: Seq<char>)
    ensures
        (!absolute_path(path) || climbs_to_parent(path)) ==> refusal(path) == Some(path_refusal()),
        (absolute_path(path) && !climbs_to_parent(path) && project_path(path)) ==> refusal(path) == Some(
            project_refusal(),
        ),
        (absolute_path(path) && !climbs_to_parent(path) && !project_path(path)) ==> refusal(path) is None,
        (paths.len() == 0 || paths.len() > MAX_FILES) ==> request_error(paths) == Some(count_refusal()),
        (1 <= paths.len() <= MAX_FILES && (forall|k: int|
            0 <= k < paths.len() ==> absolute_path(#[trigger] paths[k]) && !climbs_to_parent(paths[k])
                && !project_path(paths[k])) && !has_repeat(paths)) ==> request_error(paths) is None,
        (1 <= paths.len() <= MAX_FILES && (forall|k: int|
            0 <= k < paths.len() ==> absolute_path(#[trigger] paths[k]) && !climbs_to_parent(paths[k])
                && !project_path(paths[k])) && has_repeat(paths)) ==> request_error(paths) == Some(
            repeat_refusal(),
        ),
{
    if forall|k: int|
        0 <= k < paths.len() ==> absolute_path(#[trigger] paths[k]) && !climbs_to_parent(paths[k])
            && !project_path(paths[k]) {
        lemma_all_acceptable(paths, 0);
    }
}

/// The files an assistant asks to import, as it named them.
pub struct ImportRequest {
    pub paths: Vec<String>,
}

impl ImportRequest {
    /// Accept the explicit file selection (the `paths` argument, as parsed)
    /// without opening any file, or say why not.
    pub fn from_args(paths: Vec<String>) -> (r: Result<ImportRequest, String>)
        ensures
            match r {
                Ok(x) => request_error(views(paths@)) is None && x.paths@ == paths@,
                Err(e) => request_error(views(paths@)) == Some(e@),
            },
    {
        let ghost ps = views(paths@);
        let n = paths.len();
        if n == 0 || n > MAX_FILES {
            return Err(String::from_str("Choose between 1 and 100 spectrum files."));
        }
        let mut i: usize = 0;
        while i < n
            invariant
                n == paths@.len(),
                ps == views(paths@),
                0 < n <= MAX_FILES,
                i <= n,
                first_refusal(ps, 0) == first_refusal(ps, i as int),
            decreases n - i,
        {
            let p = paths[i].as_str();
            assert(ps[i as int] == p@);
            if !path_is_absolute(p) || climbs(p) {
                return Err(
                    String::from_str("Use absolute file paths without '..'; download remote files first."),
                );
            }
            if is_project(p) {
                return Err(
                    String::from_str("Use Open project for .rxs files; Assistant import adds spectra."),
                );
            }
            i = i + 1;
        }
        let mut a: usize = 0;
        while a < n
            invariant
                n == paths@.len(),
                ps == views(paths@),
                0 < n <= MAX_FILES,
                first_refusal(ps, 0) is None,
                a <= n,
                forall|x: int, y: int| 0 <= x < a && x < y < n ==> !same_path(#[trigger] ps[x], #[trigger] ps[y]),
            decreases n - a,
        {
            let mut b: usize = a + 1;
            while b < n
                invariant
                    n == paths@.len(),
                    ps == views(paths@),
                    0 < n <= MAX_FILES,
                    first_refusal(ps, 0) is None,
                    a < n,
                    a + 1 <= b <= n,
                    forall|x: int, y: int| 0 <= x < a && x < y < n ==> !same_path(#[trigger] ps[x], #[trigger] ps[y]),
                    forall|y: int| a < y < b ==> !same_path(ps[a as int], #[trigger] ps[y]),
                decreases n - b,
            {
                if paths_equal(paths[a].as_str(), paths[b].as_str()) {
                    assert(same_path(ps[a as int], ps[b as int]));
                    return Err(String::from_str("Each import path must appear only once."));
                }
                b = b + 1;
            }
            a = a + 1;
        }
        Ok(ImportRequest { paths })
    }
}

} // verus!
