//! The order in which a link's formats are listed, as a three-way comparison.
use vstd::prelude::*;
use std::cmp::Ordering;
use crate::preview::{format_precedes, precedes, PreviewFormat};

verus! {

/// `compare_preview_formats`: `Less` when `left` is listed first (higher
/// rank, then higher resolution, then the label in text order), `Greater`
/// when `right` is, `Equal` otherwise.
pub fn compare_preview_formats(left: &PreviewFormat, right: &PreviewFormat) -> (r: Ordering)
    ensures
        r == (if precedes(left@, right@) {
            Ordering::Less
        } else if precedes(right@, left@) {
            Ordering::Greater
        } else {
            Ordering::Equal
        }),
{
    if format_precedes(left, right) {
        Ordering::Less
    } else if format_precedes(right, left) {
        Ordering::Greater
    } else {
        Ordering::Equal
    }
}

} // verus!
