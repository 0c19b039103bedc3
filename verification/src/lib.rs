//! Verified core of an RSS announcement reader: feed parsing, filtering,
//! pagination, text normalization and rendering.

pub mod chars;
pub mod datefmt;
pub mod display;
pub mod num;
pub mod filter;
pub mod item;
pub mod json;
pub mod rss;
pub mod text;
pub mod words;

use vstd::prelude::*;

verus! {

/// How many of the filtered announcements are actually shown: the display
/// limit caps the filtered count.
pub fn display_count(filtered: usize, limit: usize) -> (n: usize)
    ensures
        n == if filtered <= limit { filtered as int } else { limit as int },
{
    if filtered < limit {
        filtered
    } else {
        limit
    }
}

} // verus!
