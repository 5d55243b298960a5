//! Lines on the cell grid, drawn by bracket-lib's Bresenham iterator.
use vstd::prelude::*;

verus! {

/// The cells that bracket-lib's `Bresenham` line iterator yields from
/// `(x1, y1)` towards `(x2, y2)`, in order.
pub uninterp spec fn bresenham_line(x1: i32, y1: i32, x2: i32, y2: i32) -> Seq<(i32, i32)>;

/// A coordinate small enough for the line iterator's arithmetic (differences
/// and negations) to stay within `i32`.
pub open spec fn line_coordinate(c: i32) -> bool {
    -0x1000_0000 <= c <= 0x1000_0000
}

/// Collects bracket-lib's `Bresenham::new(start, end)` iterator into cells.
/// As its documentation says, the line includes its start and not its end: a
/// line between two different cells begins at the start, and no line holds
/// its end cell. Which other cells it holds is named, not written out.
#[verifier::external_body]
pub(crate) fn bresenham_points(x1: i32, y1: i32, x2: i32, y2: i32) -> (r: Vec<(i32, i32)>)
    requires
        line_coordinate(x1),
        line_coordinate(y1),
        line_coordinate(x2),
        line_coordinate(y2),
    ensures
        r@ == bresenham_line(x1, y1, x2, y2),
        (x1, y1) != (x2, y2) ==> r@.len() > 0 && r@[0] == (x1, y1),
        !r@.contains((x2, y2)),
{
    bracket_lib::geometry::Bresenham::new(
        bracket_lib::geometry::Point { x: x1, y: y1 },
        bracket_lib::geometry::Point { x: x2, y: y2 },
    ).map(|p| (p.x, p.y)).collect()
}

} // verus!
