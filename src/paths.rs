//! Paths as the library handles them: plain strings, taken apart and put
//! together by `std::path`, whose results the proofs refer to by name.

use crate::models::view_of_option;
use std::path::{Path, PathBuf};
use vstd::prelude::*;

verus! {

/// The extension given to the raw sibling of a processed photo.
pub const RAW_EXTENSION: &'static str = "RAF";

/// The folder, inside a photo folder, that holds the saved culling state.
pub const STATE_DIR_NAME: &'static str = ".blitz";

/// The file, inside the state folder, that holds the saved ratings.
pub const STATE_FILE_NAME: &'static str = "storage.ron";

/// The last component of `path`, as `Path::file_name` reads it.
pub uninterp spec fn file_name_of(path: Seq<char>) -> Option<Seq<char>>;

/// `base` extended with `part`, as `PathBuf::push` builds it.
pub uninterp spec fn path_joined(base: Seq<char>, part: Seq<char>) -> Seq<char>;

/// `path` with its extension set to `ext`, as `PathBuf::set_extension`
/// builds it; `None` where it refuses.
pub uninterp spec fn extension_set(path: Seq<char>, ext: Seq<char>) -> Option<Seq<char>>;

/// The parent of `path`, as `Path::parent` reads it.
pub uninterp spec fn parent_of(path: Seq<char>) -> Option<Seq<char>>;

/// `k` is the position of the last '.' of `name`.
pub open spec fn is_last_dot(name: Seq<char>, k: int) -> bool {
    &&& 0 <= k < name.len()
    &&& name[k] == '.'
    &&& forall|j: int| k < j < name.len() ==> name[j] != '.'
}

/// The extension of a file name: what follows its last '.'; none where the
/// name holds no '.' but a leading one.
pub open spec fn extension_of_name(name: Seq<char>) -> Option<Seq<char>> {
    if exists|k: int| 0 < k && is_last_dot(name, k) {
        let k = choose|k: int| 0 < k && is_last_dot(name, k);
        Some(name.subrange(k + 1, name.len() as int))
    } else {
        None
    }
}

/// The extension of a path: that of its file name, if it has one.
pub open spec fn extension_of(path: Seq<char>) -> Option<Seq<char>> {
    match file_name_of(path) {
        Some(name) => extension_of_name(name),
        None => None,
    }
}

/// The raw sibling that a processed photo's path points to.
pub open spec fn raw_variant_of(path: Seq<char>) -> Option<Seq<char>> {
    extension_set(path, RAW_EXTENSION@)
}

/// Relies on `Path::file_name`: the final component of the path, none when
/// the path ends in "..".
#[verifier::external_body]
pub(crate) fn file_name(path: &str) -> (r: Option<String>)
    ensures
        view_of_option(r) == file_name_of(path@),
{
    match Path::new(path).file_name() {
        Some(name) => Some(name.to_string_lossy().into_owned()),
        None => None,
    }
}

/// Relies on `Path::extension`: as documented, none where there is no file
/// name, or no '.' in it but a leading one; else what follows the last '.'.
#[verifier::external_body]
pub(crate) fn extension(path: &str) -> (r: Option<String>)
    ensures
        view_of_option(r) == extension_of(path@),
{
    match Path::new(path).extension() {
        Some(ext) => Some(ext.to_string_lossy().into_owned()),
        None => None,
    }
}

/// Relies on `PathBuf::set_extension`: it returns false and leaves the path
/// alone when the path has no file name, else sets the extension to `ext`;
/// it panics on an extension that holds a separator.
#[verifier::external_body]
pub(crate) fn set_extension(path: &str, ext: &str) -> (r: Option<String>)
    requires
        !ext@.contains('/'),
        !ext@.contains('\\'),
    ensures
        view_of_option(r) == extension_set(path@, ext@),
        r is None <==> file_name_of(path@) is None,
        r is Some && ext@.len() > 0 && !ext@.contains('.') ==> extension_of(r->0@) == Some(ext@),
{
    let mut buf = PathBuf::from(path);
    if buf.set_extension(ext) {
        Some(buf.to_string_lossy().into_owned())
    } else {
        None
    }
}

/// Relies on `PathBuf::push`: `base` extended with `part`.
#[verifier::external_body]
pub(crate) fn push(base: &str, part: &str) -> (r: String)
    ensures
        r@ == path_joined(base@, part@),
{
    let mut buf = PathBuf::from(base);
    buf.push(part);
    buf.to_string_lossy().into_owned()
}

/// Relies on `Path::parent`: the path without its final component, none for
/// a root or an empty path.
#[verifier::external_body]
pub(crate) fn parent(path: &str) -> (r: Option<String>)
    ensures
        view_of_option(r) == parent_of(path@),
{
    match Path::new(path).parent() {
        Some(p) => Some(p.to_string_lossy().into_owned()),
        None => None,
    }
}

/// The path of the raw sibling of a processed photo: the same path with
/// the raw extension. `None` only where the path has no file name.
pub fn get_raw_variant(processed_path: &str) -> (r: Option<String>)
    ensures
        view_of_option(r) == raw_variant_of(processed_path@),
        r is None <==> file_name_of(processed_path@) is None,
        r matches Some(p) ==> extension_of(p@) == Some(RAW_EXTENSION@),
{
    proof {
        reveal_strlit("RAF");
        assert(!RAW_EXTENSION@.contains('.')) by {
            assert(RAW_EXTENSION@[0] != '.' && RAW_EXTENSION@[1] != '.' && RAW_EXTENSION@[2] != '.');
        }
    }
    set_extension(processed_path, RAW_EXTENSION)
}

/// The default folder for rejected photos: "chaffe" inside `root_dir`.
pub fn get_chaffe_dir(root_dir: &str) -> (r: String)
    ensures
        r@ == path_joined(root_dir@, "chaffe"@),
{
    push(root_dir, "chaffe")
}

/// The default folder for kept photos: "wheat" inside `root_dir`.
pub fn get_wheat_dir(root_dir: &str) -> (r: String)
    ensures
        r@ == path_joined(root_dir@, "wheat"@),
{
    push(root_dir, "wheat")
}

/// The hidden folder that holds a photo folder's saved culling state.
pub fn state_dir(photo_dir: &str) -> (r: String)
    ensures
        r@ == path_joined(photo_dir@, STATE_DIR_NAME@),
{
    push(photo_dir, STATE_DIR_NAME)
}

/// The file that holds a photo folder's saved ratings.
pub fn state_file(photo_dir: &str) -> (r: String)
    ensures
        r@ == path_joined(path_joined(photo_dir@, STATE_DIR_NAME@), STATE_FILE_NAME@),
{
    let dir = push(photo_dir, STATE_DIR_NAME);
    push(dir.as_str(), STATE_FILE_NAME)
}

/// The folder that holds the file at `path`; `path` itself where it has no
/// parent.
pub fn file_location(path: &str) -> (r: String)
    ensures
        parent_of(path@) is Some ==> r@ == parent_of(path@)->0,
        parent_of(path@) is None ==> r@ == path@,
{
    match parent(path) {
        Some(p) => p,
        None => path.to_owned(),
    }
}

} // verus!
