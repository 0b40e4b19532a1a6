//! The pure part of focusing a desktop window: picking the window
//! identifier out of a window-search tool's output.  Running the tool and
//! activating the window stay outside.

use vstd::prelude::*;
use vstd::string::StrSliceExecFns;
use crate::text;

verus! {

/// The first window identifier in a search tool's output: the first
/// output line, trimmed, when the output is non-empty and that line
/// holds anything.
pub open spec fn spec_first_window_id(s: Seq<char>) -> Option<Seq<char>> {
    if s.len() == 0 {
        None
    } else {
        let t = text::spec_trim(text::spec_first_line(s));
        if t.len() > 0 {
            Some(t)
        } else {
            None
        }
    }
}

/// Picks the first window identifier out of the tool's output, as
/// `spec_first_window_id` describes.
pub fn first_window_id(stdout: &str) -> (r: Option<String>)
    ensures
        (match r {
            Some(id) => spec_first_window_id(stdout@) == Some(id@),
            None => spec_first_window_id(stdout@) is None,
        }),
{
    if stdout.unicode_len() == 0 {
        return None;
    }
    let line = text::first_line(stdout);
    let id = text::trim_str(line.as_str());
    if id.as_str().unicode_len() > 0 {
        Some(id)
    } else {
        None
    }
}

} // verus!
