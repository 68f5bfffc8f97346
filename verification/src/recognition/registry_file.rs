//! How the registry file is read. The file holds one JSON object per line
//! (JSON Lines); older files hold a single snapshot object on their first
//! line. Which lines carry a record is decided here; turning a line's JSON
//! into a record is left to the caller.

use vstd::prelude::*;

use crate::text::{trim, trimmed};

verus! {

/// Whether a line, once trimmed, opens a JSON object (starts with `{`).
pub open spec fn opens_object(line: Seq<char>) -> bool {
    let t = trimmed(line);
    t.len() > 0 && t[0] == '{'
}

/// The registry file's first line decides its format: unless it opens a
/// JSON object, the file holds no records. Returns the trimmed line when it
/// does (it is then either the first record or a snapshot).
pub fn first_object_line(line: &str) -> (r: Option<String>)
    ensures
        opens_object(line@) ==> (r matches Some(t) && t@ == trimmed(line@)),
        !opens_object(line@) ==> r is None,
{
    let t = trim(line);
    if !t.is_empty() && t.get_char(0) == '{' {
        Some(String::from_str(t))
    } else {
        None
    }
}

/// A following line of a JSON Lines registry file: its trimmed text, or
/// `None` for a blank line, which is skipped.
pub fn record_line(line: &str) -> (r: Option<String>)
    ensures
        trimmed(line@).len() > 0 ==> (r matches Some(t) && t@ == trimmed(line@)),
        trimmed(line@).len() == 0 ==> r is None,
{
    let t = trim(line);
    if t.is_empty() {
        None
    } else {
        Some(String::from_str(t))
    }
}

} // verus!
