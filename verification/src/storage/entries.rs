//! `~/.SwitchHosts/entries/<id>.hosts`: where a node's content lives.
//!
//! Every local/remote node owns one file under `entries/`, named by the
//! node's id; moves and renames of the node never rename the file.
//! Content is UTF-8 with LF line endings. Paths are held as strings with
//! `/` between components.

use vstd::prelude::*;
use crate::text::{chars_of, concat, contains_char, contains_seq, contains_str, string_of};
use vstd::string::{StrSliceExecFns, StringSliceAdditionalSpecFns};
use super::error::StorageError;

verus! {

broadcast use vstd::string::group_string_axioms;

/// An id that names a file directly under `entries/`: not empty, and free
/// of `/`, `\`, NUL and `..`, so that it cannot climb out of the directory.
pub open spec fn valid_entry_id(id: Seq<char>) -> bool {
    &&& id.len() > 0
    &&& !id.contains('/')
    &&& !id.contains('\\')
    &&& !id.contains('\0')
    &&& !contains_seq(id, ".."@)
}

/// The text that the `Debug` impl of `str` writes for `s` (quoted, with
/// escapes).
pub uninterp spec fn spec_debug_str(s: Seq<char>) -> Seq<char>;

/// Formats `s` with `{:?}` (the `Debug` impl of `str`). Trusted to give the
/// text named by `spec_debug_str`, which depends on `s` alone.
#[verifier::external_body]
fn debug_quoted(s: &str) -> (r: String)
    ensures
        r@ == spec_debug_str(s@),
{
    format!("{s:?}")
}

/// `dir` joined with the relative file name `name`.
pub open spec fn join_path(dir: Seq<char>, name: Seq<char>) -> Seq<char> {
    if dir.len() == 0 {
        name
    } else if dir.last() == '/' {
        dir + name
    } else {
        dir + seq!['/'] + name
    }
}

/// The file of the node `id` in `entries_dir`.
pub open spec fn entry_path_spec(entries_dir: Seq<char>, id: Seq<char>) -> Seq<char> {
    join_path(entries_dir, id + ".hosts"@)
}

/// The error for an id that `valid_entry_id` refuses.
pub open spec fn is_illegal_id_error(e: StorageError, id: Seq<char>) -> bool {
    e matches StorageError::InvalidConfigValue { key, reason } && key@ == "entry_id"@ && reason@
        == "illegal entry id: "@ + spec_debug_str(id)
}

fn validate_id(id: &str) -> (r: Result<(), StorageError>)
    ensures
        r is Ok <==> valid_entry_id(id@),
        r matches Err(e) ==> is_illegal_id_error(e, id@),
{
    if id.is_empty() || contains_char(id, '/') || contains_char(id, '\\') || contains_char(id, '\0')
        || contains_str(id, "..") {
        return Err(
            StorageError::InvalidConfigValue {
                key: string_of("entry_id"),
                reason: concat("illegal entry id: ", debug_quoted(id).as_str()),
            },
        );
    }
    Ok(())
}

fn join(dir: &str, name: &str) -> (r: String)
    ensures
        r@ == join_path(dir@, name@),
{
    let d = chars_of(dir);
    if d.len() == 0 {
        string_of(name)
    } else if d[d.len() - 1] == '/' {
        concat(dir, name)
    } else {
        let with_sep = concat(dir, "/");
        proof {
            reveal_strlit("/");
        }
        concat(with_sep.as_str(), name)
    }
}

/// Resolve the path for a node's content file. `id` is expected to be a
/// UUID or similar opaque identifier; it is checked to be a simple name
/// before it is joined to the directory.
pub fn entry_path(entries_dir: &str, id: &str) -> (r: Result<String, StorageError>)
    ensures
        r is Ok <==> valid_entry_id(id@),
        r matches Ok(p) ==> p@ == entry_path_spec(entries_dir@, id@),
        r matches Err(e) ==> is_illegal_id_error(e, id@),
{
    validate_id(id)?;
    let name = concat(id, ".hosts");
    Ok(join(entries_dir, name.as_str()))
}

/// What writing a node's content amounts to: the file to replace, and the
/// UTF-8 bytes to put in it. The caller writes them atomically.
pub fn write_entry(entries_dir: &str, id: &str, content: &str) -> (r: Result<
    (String, Vec<u8>),
    StorageError,
>)
    ensures
        r is Ok <==> valid_entry_id(id@),
        r matches Ok((p, b)) ==> p@ == entry_path_spec(entries_dir@, id@) && b@
            == content.spec_bytes(),
        r matches Err(e) ==> is_illegal_id_error(e, id@),
{
    let path = entry_path(entries_dir, id)?;
    Ok((path, content.as_bytes_vec()))
}

} // verus!
