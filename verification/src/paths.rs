//! Paths of files and folders, as text.
use vstd::prelude::*;

use crate::text::ends;

verus! {

/// Whether `sep` can stand between a folder and a name in it.
pub open spec fn separates(sep: Seq<char>, dir: Seq<char>) -> bool {
    if dir.len() == 0 {
        sep.len() == 0
    } else if dir.last() != '/' && dir.last() != '\\' && dir.last() != ':' {
        sep == seq!['/'] || sep == seq!['\\']
    } else {
        sep.len() == 0 || sep == seq!['/'] || sep == seq!['\\']
    }
}

/// Whether a path is in the notation of Windows that begins with two backslashes, a
/// question mark and a backslash. A system that joins a name to such a path also tidies
/// the path.
pub open spec fn verbatim(path: Seq<char>) -> bool {
    path.len() >= 4 && path[0] == '\\' && path[1] == '\\' && path[2] == '?' && path[3] == '\\'
}

/// Whether `path` is what is called `name` in the folder `dir`: the folder, a separator
/// where one is needed, and the name. Of a folder in verbatim notation, which is tidied,
/// only the name is said to stand at the end.
pub open spec fn is_in(path: Seq<char>, dir: Seq<char>, name: Seq<char>) -> bool {
    &&& ends(path, name)
    &&& verbatim(dir) || exists|sep: Seq<char>| #[trigger]
        separates(sep, dir) && path == dir + sep + name
}

/// Whether a name stands for a folder itself, or for the one above it.
pub open spec fn is_dots(name: Seq<char>) -> bool {
    name.len() <= 2 && forall|i: int| 0 <= i < name.len() ==> #[trigger] name[i] == '.'
}

/// Whether a name is no path: it has no separators, no drive before it, and is not one or
/// two dots.
pub open spec fn plain_name(name: Seq<char>) -> bool {
    &&& !is_dots(name)
    &&& forall|i: int|
        0 <= i < name.len() ==> (#[trigger] name[i]) != '/' && name[i] != '\\' && name[i] != ':'
}

/// Calls `std::path::Path::join` with a plain name: the folder, a separator where
/// one is needed, and the name. Which separator it is depends on the system. From a folder
/// in verbatim notation it takes out one and two dots that stand for folders, in a way of
/// which nothing more is said than that the name, which is neither, stands at the end.
#[verifier::external_body]
pub(crate) fn join(dir: &str, name: &str) -> (r: String)
    requires
        plain_name(name@),
    ensures
        is_in(r@, dir@, name@),
{
    std::path::Path::new(dir).join(name).to_string_lossy().into_owned()
}

/// Calls `dirs::data_dir`. What it returns depends on the user's account, so
/// nothing is said of it.
#[verifier::external_body]
fn data_dir() -> (r: Option<String>) {
    dirs::data_dir().map(|p| p.to_string_lossy().into_owned())
}

/// Calls `dirs::picture_dir`. What it returns depends on the user's account, so
/// nothing is said of it.
#[verifier::external_body]
pub(crate) fn picture_dir() -> (r: Option<String>) {
    dirs::picture_dir().map(|p| p.to_string_lossy().into_owned())
}

/// Calls `dirs::video_dir`. What it returns depends on the user's account, so
/// nothing is said of it.
#[verifier::external_body]
pub(crate) fn video_dir() -> (r: Option<String>) {
    dirs::video_dir().map(|p| p.to_string_lossy().into_owned())
}

/// A folder, or the current one where there is none.
pub open spec fn dir_or_here(dir: Option<String>) -> Seq<char> {
    match dir {
        Some(d) => d@,
        None => "."@,
    }
}

/// Whether `dir` is the program's own folder, in some folder for data.
pub open spec fn is_app_dir(dir: Seq<char>) -> bool {
    exists|data: Option<String>| is_in(dir, #[trigger] dir_or_here(data), "Open Screen"@)
}

/// Whether `path` is what is called `name` in the folder `sub` of the folder `dir`.
pub open spec fn is_below(path: Seq<char>, dir: Seq<char>, sub: Seq<char>, name: Seq<char>) -> bool {
    exists|mid: Seq<char>| #[trigger] is_in(mid, dir, sub) && is_in(path, mid, name)
}

/// The program's own folder in the folder for data.
pub fn app_dir_in(data: Option<String>) -> (r: String)
    ensures
        is_in(r@, dir_or_here(data), "Open Screen"@),
{
    proof {
        reveal_strlit("Open Screen");
    }
    match data {
        Some(d) => join(d.as_str(), "Open Screen"),
        None => join(".", "Open Screen"),
    }
}

/// The program's own folder for data.
pub fn app_dir() -> (r: String)
    ensures
        is_app_dir(r@),
{
    let data = data_dir();
    let ghost d = data;
    let r = app_dir_in(data);
    assert(is_in(r@, dir_or_here(d), "Open Screen"@));
    r
}

} // verus!
