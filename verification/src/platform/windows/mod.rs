//! Windows and monitors with bounds in pixels, as a configuration sees them.

use vstd::prelude::*;
use crate::platform::win::Rect;

pub mod monitor;
pub mod window;

verus! {

/// The magnitude of `v`.
pub open spec fn magnitude(v: int) -> int {
    if v < 0 {
        -v
    } else {
        v
    }
}

/// Returns the top left point from the given rectangle.
pub fn get_position(rect: Rect) -> (position: (i32, i32))
    ensures
        position == (rect.left, rect.top),
{
    (rect.left, rect.top)
}

/// Returns the (width, height) from the given rectangle: the distances
/// between its edges, whichever way round they lie.
pub fn get_dimensions(rect: Rect) -> (dimensions: (i32, i32))
    requires
        magnitude(rect.right - rect.left) <= i32::MAX,
        magnitude(rect.bottom - rect.top) <= i32::MAX,
    ensures
        dimensions.0 == magnitude(rect.right - rect.left),
        dimensions.1 == magnitude(rect.bottom - rect.top),
{
    let width = rect.right as i64 - rect.left as i64;
    let height = rect.bottom as i64 - rect.top as i64;
    (
        (if width < 0 {
            -width
        } else {
            width
        }) as i32,
        (if height < 0 {
            -height
        } else {
            height
        }) as i32,
    )
}

} // verus!
