//! Suggests where a photograph was taken: a location-history index answers
//! queries for the recorded fix nearest a capture timestamp, or for a fix
//! interpolated between the two recorded neighbours, with a blended
//! confidence radius. Around the core sit the helpers the surrounding
//! application leans on: the legacy history model, the suggestion-accuracy
//! text, query-parameter reading, session state, and path checks.

pub mod arith;
pub mod civil;
pub mod golo;
pub mod json;
pub mod kml;
pub mod orientation;
pub mod service;
pub mod suggestion_accuracy;
pub mod text;
pub mod uri;

use vstd::prelude::*;

use crate::text::{ends_with, has_suffix};

verus! {

/// Whether a path carries one of the four extensions accepted for a
/// photograph: its name ends in the extension, and a file name stands
/// before the dot.
pub open spec fn spec_has_jpeg_extension(s: Seq<char>) -> bool {
    ||| dotted_suffix(s, ".jpg"@)
    ||| dotted_suffix(s, ".jpeg"@)
    ||| dotted_suffix(s, ".JPG"@)
    ||| dotted_suffix(s, ".JPEG"@)
}

/// Whether the path ends in the given dotted suffix with a non-empty file
/// name before it: a name that is nothing but the extension does not
/// count, nor does one in a parent directory.
pub open spec fn dotted_suffix(s: Seq<char>, suffix: Seq<char>) -> bool {
    &&& s.len() > suffix.len()
    &&& ends_with(s, suffix)
    &&& s[s.len() - suffix.len() - 1] != '/'
}

/// True iff the path names a JPEG file by extension: exactly `jpg` or
/// `jpeg`, lower or upper case, after a dot that follows a non-empty file
/// name. Whether anything actually exists at the path is the caller's
/// concern.
pub fn has_jpeg_extension(path: &str) -> (r: bool)
    ensures
        r == spec_has_jpeg_extension(path@),
{
    dotted_suffix_check(path, ".jpg") || dotted_suffix_check(path, ".jpeg")
        || dotted_suffix_check(path, ".JPG") || dotted_suffix_check(path, ".JPEG")
}

/// Whether the path ends in the dotted suffix with a file name before it.
fn dotted_suffix_check(path: &str, suffix: &str) -> (r: bool)
    ensures
        r == dotted_suffix(path@, suffix@),
{
    let n = path.unicode_len();
    let m = suffix.unicode_len();
    if n <= m {
        return false;
    }
    if !has_suffix(path, suffix) {
        return false;
    }
    let before = path.get_char(n - m - 1);
    before != '/'
}

} // verus!
