//! Where the media files of an export are looked for.

use crate::commands::texts;
use vstd::prelude::*;
use vstd::string::StringExecFns;

verus! {

/// The patterns that find the media files: the images and the videos at
/// any depth below the directories whose names begin with `prefix`.
pub open spec fn patterns_of(prefix: Seq<char>) -> Seq<Seq<char>> {
    seq![prefix + "*/**/*.jpg"@, prefix + "*/**/*.mp4"@]
}

/// The patterns that find the media files of an export.
pub fn discovery_patterns(prefix: &str) -> (r: Vec<String>)
    ensures
        texts(r@) == patterns_of(prefix@),
{
    let mut patterns: Vec<String> = Vec::new();
    patterns.push(String::from_str(prefix).concat("*/**/*.jpg"));
    patterns.push(String::from_str(prefix).concat("*/**/*.mp4"));
    patterns
}

} // verus!
