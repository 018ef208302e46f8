//! The text of a failure log entry.
//!
//! The log itself is a file that the caller appends to. What is decided here
//! is what one entry says: one line, ended by a newline, that names the file
//! and the error.

use vstd::prelude::*;
use vstd::string::*;

verus! {

/// What `{:?}` prints for a string slice: the text between double quotes, with
/// quotes, backslashes, control characters and the like escaped.
pub uninterp spec fn debug_text(text: Seq<char>) -> Seq<char>;

/// Formats `text` with the `Debug` impl of `str`, through `format!("{:?}", ..)`.
/// The result is only named, not described: the contract claims that it
/// depends on the characters of `text` alone.
#[verifier::external_body]
fn debug_string(text: &str) -> (quoted: String)
    ensures
        quoted@ == debug_text(text@),
{
    format!("{:?}", text)
}

/// One entry made of a path as it is to be shown and an error description.
pub open spec fn composed_entry(shown_path: Seq<char>, error: Seq<char>) -> Seq<char> {
    "Failed to upload: "@ + shown_path + ", due to error: "@ + error + "\n"@
}

/// The entry for the file at `path`: the path is shown as `{:?}` prints it.
pub open spec fn entry_text(path: Seq<char>, error: Seq<char>) -> Seq<char> {
    composed_entry(debug_text(path), error)
}

/// Puts an entry together from a path that is already in the form in which it
/// is to be shown.
pub fn compose_entry(shown_path: &str, error: &str) -> (line: String)
    ensures
        line@ == composed_entry(shown_path@, error@),
{
    let mut line = String::from_str("Failed to upload: ");
    line.append(shown_path);
    line.append(", due to error: ");
    line.append(error);
    line.append("\n");
    line
}

/// The log entry for a failed upload of the file at `path`.
pub fn failure_entry(path: &str, error: &str) -> (line: String)
    ensures
        line@ == entry_text(path@, error@),
{
    let quoted = debug_string(path);
    compose_entry(quoted.as_str(), error)
}

/// Every entry ends with a newline, whatever the path and the error are.
pub proof fn lemma_entry_ends_with_newline(shown_path: Seq<char>, error: Seq<char>)
    ensures
        composed_entry(shown_path, error).len() > 0,
        composed_entry(shown_path, error).last() == '\n',
{
    reveal_strlit("\n");
}

} // verus!
