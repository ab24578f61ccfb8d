//! File-system paths as text, and the `std::path` operations on them.
//!
//! What these operations return depends on the platform's separators and
//! prefixes (`\` and drive letters on Windows, `/` elsewhere). On the platform
//! the library is built for, each is a function of its arguments alone: its
//! result is named below, and the contracts add only the facts that hold on
//! every platform.

use vstd::prelude::*;

verus! {

/// A single name with no separator ('/' or '\') and no ':' (so no drive
/// prefix on Windows): one component of a path on every platform.
pub open spec fn plain_name(s: Seq<char>) -> bool {
    &&& s.len() > 0
    &&& forall|i: int| 0 <= i < s.len() ==> s[i] != '/' && s[i] != '\\' && s[i] != ':'
}

/// A plain name that is neither "." nor "..": a normal component.
pub open spec fn normal_name(s: Seq<char>) -> bool {
    plain_name(s) && s != "."@ && s != ".."@
}

/// An optional text by its characters.
pub open spec fn opt_text(o: Option<String>) -> Option<Seq<char>> {
    match o {
        Some(s) => Some(s@),
        None => None,
    }
}

/// The kind of a path component (`std::path::Component`'s variants).
#[derive(Clone, Copy, Debug, PartialEq, Eq, Structural)]
pub enum PartKind {
    Prefix,
    Root,
    Current,
    Parent,
    Name,
}

/// A list of components by their kinds and texts.
pub open spec fn part_views(v: Seq<(PartKind, String)>) -> Seq<(PartKind, Seq<char>)> {
    v.map_values(|c: (PartKind, String)| (c.0, c.1@))
}

/// What `Path::components` gives for the path `p`: each component's kind
/// and text.
pub uninterp spec fn components_of(p: Seq<char>) -> Seq<(PartKind, Seq<char>)>;

/// What `Path::parent` gives for the path `p`, as text.
pub uninterp spec fn parent_of(p: Seq<char>) -> Option<Seq<char>>;

/// What `Path::file_name` gives for the path `p`, as text.
pub uninterp spec fn file_name_of(p: Seq<char>) -> Option<Seq<char>>;

/// What `Path::join` gives for `name` joined to `dir`, as text.
pub uninterp spec fn joined(dir: Seq<char>, name: Seq<char>) -> Seq<char>;

/// What `Path`'s `==` gives for the paths `a` and `b`, which compares their
/// components.
pub uninterp spec fn paths_equal(a: Seq<char>, b: Seq<char>) -> bool;

/// Calls `Path::parent`: the path without its final component.
/// Claimed: the result is the named `parent_of`; the empty path has no parent
/// and a parent, being the path less a component, is shorter than the path;
/// a relative path of one component has the empty parent, and `d/n` for two
/// normal names has the parent `d` (as its documentation shows).
#[verifier::external_body]
pub(crate) fn path_parent(p: &str) -> (r: Option<String>)
    ensures
        opt_text(r) == parent_of(p@),
        p@.len() == 0 ==> r is None,
        r matches Some(q) ==> q@.len() < p@.len(),
        plain_name(p@) ==> opt_text(r) == Some(Seq::<char>::empty()),
        forall|d: Seq<char>, n: Seq<char>|
            normal_name(d) && normal_name(n) && p@ == d + "/"@ + n ==> opt_text(r) == Some(d),
{
    std::path::Path::new(p).parent().map(|q| q.to_string_lossy().into_owned())
}

/// Calls `Path::file_name`: the final component of a path, if it is a name.
/// Claimed: the result is the named `file_name_of`; the empty path has none,
/// a normal name is its own file name, and a file name is a non-empty
/// component with no '/' in it.
#[verifier::external_body]
pub(crate) fn path_file_name(p: &str) -> (r: Option<String>)
    ensures
        opt_text(r) == file_name_of(p@),
        p@.len() == 0 ==> r is None,
        normal_name(p@) ==> opt_text(r) == Some(p@),
        r matches Some(n) ==> n@.len() > 0 && !n@.contains('/'),
{
    std::path::Path::new(p).file_name().map(|n| n.to_string_lossy().into_owned())
}

/// Calls `Path::join`: `name` appended to `dir` after a separator.
/// Claimed: the result is the named `joined`, and a normal name, being
/// relative, is appended: the result ends with it. The separator and the
/// handling of other names depend on the platform and are left unsaid.
#[verifier::external_body]
pub(crate) fn path_join(dir: &str, name: &str) -> (r: String)
    ensures
        r@ == joined(dir@, name@),
        normal_name(name@) ==> r@.len() >= name@.len() && r@.subrange(
            r@.len() - name@.len(),
            r@.len() as int,
        ) == name@,
{
    std::path::Path::new(dir).join(name).to_string_lossy().into_owned()
}

/// Calls `Path::components`: the path's prefix, root, and names, with "."
/// and repeated separators dropped as its documentation describes.
/// Claimed: the result is the named `components_of`; the empty path has
/// none.
#[verifier::external_body]
pub(crate) fn path_components(p: &str) -> (r: Vec<(PartKind, String)>)
    ensures
        part_views(r@) == components_of(p@),
        p@.len() == 0 ==> r@.len() == 0,
{
    std::path::Path::new(p).components().map(|c| {
        let kind = match c {
            std::path::Component::Prefix(_) => PartKind::Prefix,
            std::path::Component::RootDir => PartKind::Root,
            std::path::Component::CurDir => PartKind::Current,
            std::path::Component::ParentDir => PartKind::Parent,
            std::path::Component::Normal(_) => PartKind::Name,
        };
        (kind, c.as_os_str().to_string_lossy().into_owned())
    }).collect()
}

/// Compares two paths with `Path`'s `==`, which compares their components.
/// Claimed: the result is the named `paths_equal`, and a path equals itself
/// (the same text gives `true`); which other texts name the same path
/// depends on the platform and is left unsaid.
#[verifier::external_body]
pub(crate) fn same_path(a: &str, b: &str) -> (r: bool)
    ensures
        r == paths_equal(a@, b@),
        a@ == b@ ==> r,
{
    std::path::Path::new(a) == std::path::Path::new(b)
}

} // verus!
