//! What the standard library says of paths, for paths that are text.
//!
//! `/` separates names in a path; a system may have further separators, and
//! drives. What is stated here holds whichever they are, and fixes the answer
//! for the paths that are read alike everywhere: there a path is a list of
//! names, from the root or not, and repeated or trailing separators, and `.`
//! anywhere but at the beginning, do not count.

use vstd::prelude::*;
use vstd::string::*;
use crate::text::{has_prefix, has_suffix, opt_text, parts_of, Text};

verus! {

/// May the character separate the parts of a path, on some system?
pub open spec fn may_separate(c: char) -> bool {
    c == '/' || c == '\\' || c == ':'
}

/// Is the path a bare name, on every system?
pub open spec fn is_bare_name(path: Text) -> bool {
    path.len() > 0 && forall|i: int| 0 <= i < path.len() ==> !may_separate(#[trigger] path[i])
}

/// Does the path end in a name, rather than in a root or a drive, on every
/// system?
pub open spec fn ends_in_name(path: Text) -> bool {
    &&& path.len() > 0
    &&& path.last() != '/' && path.last() != '.'
    &&& !has_prefix(path, "//"@)
    &&& forall|i: int| 0 <= i < path.len() ==> #[trigger] path[i] != '\\' && path[i] != ':'
}

/// Is `/` all that can separate the parts of the path, on every system?
pub open spec fn is_slashed(path: Text) -> bool {
    &&& !has_prefix(path, "//"@)
    &&& forall|i: int| 0 <= i < path.len() ==> #[trigger] path[i] != '\\' && path[i] != ':'
}

/// What a path in which only `/` separates is read as.
pub struct PathModel {
    /// It begins at the root.
    pub rooted: bool,
    /// Its first part is a `.`.
    pub dotted: bool,
    pub names: Seq<Text>,
}

/// What the path is read as, if only `/` separates in it.
pub open spec fn path_of(path: Text) -> PathModel {
    let parts = parts_of(path, '/');
    PathModel {
        rooted: path.len() > 0 && path[0] == '/',
        dotted: parts[0] == "."@,
        names: parts.filter(|name: Text| name.len() > 0 && name != "."@),
    }
}

/// The path without its last name.
pub open spec fn parent_path(m: PathModel) -> PathModel {
    PathModel { names: m.names.drop_last(), ..m }
}

/// Does the `/` at `i` part the path into its parent and its last name? The
/// parent may not end in a further `/`, nor in a name `.` that is not the
/// whole of it: these do not count as part of it.
pub open spec fn parts_at(path: Text, i: int) -> bool {
    &&& ends_in_name(path)
    &&& 0 <= i < path.len() && path[i] == '/'
    &&& forall|k: int| i < k < path.len() ==> #[trigger] path[k] != '/'
    &&& i > 0 ==> path[i - 1] != '/'
    &&& i > 1 ==> !(path[i - 2] == '/' && path[i - 1] == '.')
}

/// What comes before the `/` at `i`; the root, if nothing does.
pub open spec fn before_slash(path: Text, i: int) -> Text {
    if i == 0 {
        path.take(1)
    } else {
        path.take(i)
    }
}

/// May `parent` be the parent of the path? If only `/` separates in the path,
/// it is the path without its last name.
pub open spec fn may_be_parent(path: Text, parent: Option<Text>) -> bool {
    let m = path_of(path);
    match parent {
        Some(dir) => {
            &&& path != "/"@
            &&& dir.len() < path.len()
            &&& has_prefix(path, dir)
            &&& dir.len() == 0 || may_separate(dir.last()) || may_separate(path[dir.len() as int])
            &&& is_bare_name(path) ==> dir.len() == 0
            &&& forall|i: int| #[trigger] parts_at(path, i) ==> dir == before_slash(path, i)
            &&& is_slashed(path) && m.names.len() > 0 ==> path_of(dir) == parent_path(m)
            &&& is_slashed(path) && m.names.len() == 0 ==> m.dotted && dir.len() == 0
        },
        None => {
            &&& !is_bare_name(path) && !ends_in_name(path)
            &&& is_slashed(path) ==> m.names.len() == 0 && !m.dotted
        },
    }
}

/// May `name` be the name of the file at the path? If only `/` separates in
/// the path, it is its last name, unless that is `..`.
pub open spec fn may_be_file_name(path: Text, name: Option<Text>) -> bool {
    let m = path_of(path);
    match name {
        Some(n) => {
            &&& path != "/"@ && path != ".."@
            &&& 0 < n.len() <= path.len()
            &&& is_bare_name(path) ==> n == path
            &&& forall|i: int| #[trigger] parts_at(path, i) ==> n == path.skip(i + 1)
            &&& is_slashed(path) && m.names.len() > 0 ==> n == m.names.last() && n != ".."@
            &&& is_slashed(path) && m.names.len() == 0 ==> m.dotted
        },
        None => {
            &&& !ends_in_name(path)
            &&& is_bare_name(path) ==> path == "."@ || path == ".."@
            &&& is_slashed(path) && m.names.len() > 0 ==> m.names.last() == ".."@
        },
    }
}

/// May `same` be whether the paths are the same? They are if their texts are;
/// where only `/` separates, they are if they are read as the same.
pub open spec fn may_be_same(a: Text, b: Text, same: bool) -> bool {
    &&& a == b ==> same
    &&& is_slashed(a) && is_slashed(b) ==> same == (path_of(a) == path_of(b))
}

/// Calls the standard library's `Path::parent`: the path without its final
/// component; empty for a bare name; nothing for an empty path, or one that
/// ends in a root or a drive. `/` separates components; repeated and trailing
/// ones, and `.` but at the beginning, are normalised away. Where characters
/// stand in the path that separate on some systems only, which of its
/// beginnings is the parent is left unsaid.
#[verifier::external_body]
pub(crate) fn parent_of(path: &str) -> (r: Option<String>)
    ensures
        may_be_parent(path@, opt_text(r)),
{
    match std::path::Path::new(path).parent() {
        Some(dir) => Some(dir.to_string_lossy().into_owned()),
        None => None,
    }
}

/// Calls the standard library's `Path::file_name`: the final component of the
/// path, if it is a name; nothing for a root, and for a path that ends in
/// `..`. It is left unsaid where characters stand in the path that separate
/// on some systems only, and for a `.` alone.
#[verifier::external_body]
pub(crate) fn file_name_of(path: &str) -> (r: Option<String>)
    ensures
        may_be_file_name(path@, opt_text(r)),
{
    match std::path::Path::new(path).file_name() {
        Some(name) => Some(name.to_string_lossy().into_owned()),
        None => None,
    }
}

/// Calls the standard library's comparison of `Path`s, which goes by their
/// components, and so by the names where only `/` separates. Whether other
/// texts that differ stand for the same path is left unsaid.
#[verifier::external_body]
pub(crate) fn same_path(a: &str, b: &str) -> (r: bool)
    ensures
        may_be_same(a@, b@, r),
{
    std::path::Path::new(a) == std::path::Path::new(b)
}

/// Only `/` separates in the beginning of a path in which only it does.
pub proof fn lemma_slashed_prefix(path: Text, dir: Text)
    requires
        is_slashed(path),
        has_prefix(path, dir),
    ensures
        is_slashed(dir),
{
    reveal_strlit("//");
    assert forall|i: int| 0 <= i < dir.len() implies #[trigger] dir[i] != '\\' && dir[i] != ':' by {
        assert(path.subrange(0, dir.len() as int)[i] == path[i]);
    }
    if has_prefix(dir, "//"@) {
        assert(path.subrange(0, 2) =~= dir.subrange(0, 2)) by {
            assert(path.subrange(0, dir.len() as int)[0] == path[0]);
            assert(path.subrange(0, dir.len() as int)[1] == path[1]);
        }
    }
}

/// The parent and the name at the `/` that parts a path make up the path, and
/// there is but one such `/`.
pub proof fn law_parent_and_name_make_up_the_path(path: Text, i: int, j: int)
    requires
        parts_at(path, i),
        parts_at(path, j),
    ensures
        i == j,
        i > 0 ==> before_slash(path, i) + "/"@ + path.skip(i + 1) == path,
        i == 0 ==> before_slash(path, i) + path.skip(i + 1) == path,
        has_suffix(path, path.skip(i + 1)),
{
    reveal_strlit("/");
}

} // verus!
