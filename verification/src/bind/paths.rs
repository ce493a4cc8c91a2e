use vstd::prelude::*;

verus! {

// Paths are held as their text. What the path operations below return is
// given by camino (and, for relative paths, pathdiff), following the path
// rules of the target the crate is built for; each result is named here and
// depends on the operation's arguments alone.

/// The text of `path` with `part` pushed onto it (`Utf8PathBuf::push`).
pub uninterp spec fn pushed_path(path: Seq<char>, part: Seq<char>) -> Seq<char>;

/// The text of `path` with its last component taken off (`Utf8PathBuf::pop`).
pub uninterp spec fn popped_path(path: Seq<char>) -> Seq<char>;

/// The last component of `path`, if it is a name (`Utf8Path::file_name`).
pub uninterp spec fn path_file_name(path: Seq<char>) -> Option<Seq<char>>;

/// The texts of the components of `path`, in order (`Utf8Path::components`).
pub uninterp spec fn path_components(path: Seq<char>) -> Seq<Seq<char>>;

/// The text of `path` relative to `base`, where there is one
/// (`pathdiff::diff_utf8_paths`).
pub uninterp spec fn relative_path(path: Seq<char>, base: Seq<char>) -> Option<Seq<char>>;

/// The text of `path` rebuilt from its components (`Utf8Path::components`
/// collected into a `Utf8PathBuf`). camino holds two paths equal when their
/// components are equal, and such paths have the same rebuilt text.
pub uninterp spec fn normal_path(path: Seq<char>) -> Seq<char>;

/// Calls `camino::Utf8Path::components` on `path` and collects the
/// components into a `camino::Utf8PathBuf`, whose text it gives.
#[verifier::external_body]
pub(crate) fn normalize_path(path: &str) -> (r: String)
    ensures
        r@ == normal_path(path@),
{
    camino::Utf8Path::new(path).components().collect::<camino::Utf8PathBuf>().into_string()
}

/// Calls `camino::Utf8PathBuf::push` on the path `path` holds, with `part`.
#[verifier::external_body]
pub(crate) fn push_path(path: &mut String, part: &str)
    ensures
        final(path)@ == pushed_path(old(path)@, part@),
{
    let mut p = camino::Utf8PathBuf::from(std::mem::take(path));
    p.push(part);
    *path = p.into_string();
}

/// Calls `camino::Utf8PathBuf::pop` on the path `path` holds.
#[verifier::external_body]
pub(crate) fn pop_path(path: &mut String)
    ensures
        final(path)@ == popped_path(old(path)@),
{
    let mut p = camino::Utf8PathBuf::from(std::mem::take(path));
    p.pop();
    *path = p.into_string();
}

/// Calls `camino::Utf8Path::file_name` on `path`.
#[verifier::external_body]
pub(crate) fn file_name(path: &str) -> (r: Option<String>)
    ensures
        match r {
            Some(n) => path_file_name(path@) == Some(n@),
            None => path_file_name(path@) is None,
        },
{
    camino::Utf8Path::new(path).file_name().map(|n| n.to_string())
}

/// Calls `camino::Utf8Path::components` on `path`, and gives the text of
/// each component.
#[verifier::external_body]
pub(crate) fn components(path: &str) -> (r: Vec<String>)
    ensures
        r@.map_values(|c: String| c@) == path_components(path@),
{
    camino::Utf8Path::new(path).components().map(|c| c.as_str().to_string()).collect()
}

/// Calls `pathdiff::diff_utf8_paths` with `path` and `base`.
#[verifier::external_body]
pub(crate) fn diff_paths(path: &str, base: &str) -> (r: Option<String>)
    ensures
        match r {
            Some(d) => relative_path(path@, base@) == Some(d@),
            None => relative_path(path@, base@) is None,
        },
{
    pathdiff::diff_utf8_paths(path, base).map(|d| d.into_string())
}

} // verus!
