//! The bar span of a section that starts at a given bar.
use vstd::prelude::*;

verus! {

/// The last bar of a section of `num_bars` bars starting at bar `start`.
pub open spec fn span_end(start: u32, num_bars: u32) -> int {
    start + num_bars - 1
}

/// The last bar of a section of `num_bars` bars that starts at `start`,
/// where it has a start.
pub fn section_end(start: Option<u32>, num_bars: u32) -> (end: Option<u32>)
    requires
        match start {
            Some(s) => 1 <= s + num_bars <= u32::MAX,
            None => true,
        },
    ensures
        end == match start {
            Some(s) => Some(span_end(s, num_bars) as u32),
            None => None::<u32>,
        },
{
    match start {
        Some(s) => Some(s + num_bars - 1),
        None => None,
    }
}

} // verus!
