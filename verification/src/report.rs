//! What is said of a file once its task is over.

use vstd::prelude::*;
use vstd::string::StringExecFns;

verus! {

/// The line that reports what was applied to the file `name`. Where
/// nothing was applied, nothing is said.
pub open spec fn summary(metadata_applied: bool, overlay_applied: bool, name: Seq<char>) -> Option<
    Seq<char>,
> {
    if metadata_applied && overlay_applied {
        Some("Added EXIF data and overlay to "@ + name)
    } else if metadata_applied {
        Some("Added EXIF data to "@ + name)
    } else if overlay_applied {
        Some("Added overlay to "@ + name)
    } else {
        None
    }
}

/// The line that reports what was applied to the file `name`.
pub fn summary_line(metadata_applied: bool, overlay_applied: bool, name: &str) -> (r: Option<String>)
    ensures
        match r {
            Some(line) => summary(metadata_applied, overlay_applied, name@) == Some(line@),
            None => summary(metadata_applied, overlay_applied, name@) is None,
        },
{
    if metadata_applied && overlay_applied {
        Some(String::from_str("Added EXIF data and overlay to ").concat(name))
    } else if metadata_applied {
        Some(String::from_str("Added EXIF data to ").concat(name))
    } else if overlay_applied {
        Some(String::from_str("Added overlay to ").concat(name))
    } else {
        None
    }
}

} // verus!
