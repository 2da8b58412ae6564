use vstd::prelude::*;
use crate::quadrant::Quadrant;
use crate::rectangle::Rectangle;
use crate::vector2::Vector2;

verus! {

/// Which quadrant of `boundary` the point `p` falls in, or `None` when
/// `p` lies outside the (closed) extent of `boundary`.
///
/// The tie-break on the midlines is fixed and total: a point exactly on
/// the vertical center line goes east (`NE`/`SE`), a point exactly on
/// the horizontal center line goes south (`SW`/`SE`).
pub open spec fn quadrant_of(boundary: Rectangle, p: Vector2) -> Option<Quadrant> {
    if !boundary.contains(p) {
        None
    } else if p.x < boundary.center_x() {
        if p.y < boundary.center_y() {
            Some(Quadrant::NW)
        } else {
            Some(Quadrant::SW)
        }
    } else {
        if p.y < boundary.center_y() {
            Some(Quadrant::NE)
        } else {
            Some(Quadrant::SE)
        }
    }
}

/// The sub-rectangle of `boundary` that a quadrant tag names. The west
/// halves take `width / 2` (rounded down) and the east halves the rest,
/// so the four results always tile the parent exactly; north and south
/// divide the height the same way.
pub open spec fn subregion(boundary: Rectangle, q: Quadrant) -> Rectangle {
    let half_w = (boundary.width / 2) as u64;
    let rest_w = (boundary.width - half_w) as u64;
    let half_h = (boundary.height / 2) as u64;
    let rest_h = (boundary.height - half_h) as u64;
    let cx = (boundary.position.x + half_w) as i64;
    let cy = (boundary.position.y + half_h) as i64;
    match q {
        Quadrant::NW => Rectangle {
            position: boundary.position,
            width: half_w,
            height: half_h,
        },
        Quadrant::NE => Rectangle {
            position: Vector2 { x: cx, y: boundary.position.y },
            width: rest_w,
            height: half_h,
        },
        Quadrant::SW => Rectangle {
            position: Vector2 { x: boundary.position.x, y: cy },
            width: half_w,
            height: rest_h,
        },
        Quadrant::SE => Rectangle {
            position: Vector2 { x: cx, y: cy },
            width: rest_w,
            height: rest_h,
        },
    }
}

/// Routing is consistent with subdivision: a point within a well-formed
/// rectangle is assigned a quadrant, and the sub-rectangle of that
/// quadrant is itself well-formed and holds the point. Together with
/// the fixed tie-break this says that the four sub-rectangles tile the
/// parent: every point of the parent lands in exactly the quadrant that
/// `quadrant_of` picks for it.
pub proof fn lemma_quadrant_tiles(boundary: Rectangle, p: Vector2)
    requires
        boundary.wf(),
        boundary.contains(p),
    ensures
        quadrant_of(boundary, p) is Some,
        subregion(boundary, quadrant_of(boundary, p)->Some_0).wf(),
        subregion(boundary, quadrant_of(boundary, p)->Some_0).contains(p),
{
    assert(boundary.width / 2 <= boundary.width as int - 1);
    assert(boundary.height / 2 <= boundary.height as int - 1);
}

/// Any point of a sub-rectangle lies within the parent rectangle.
pub proof fn lemma_subregion_within(boundary: Rectangle, q: Quadrant, p: Vector2)
    requires
        boundary.wf(),
        subregion(boundary, q).contains(p),
    ensures
        boundary.contains(p),
{
}

/// The tie-break rule, by itself: a point exactly on the vertical
/// midline is always assigned to an eastern quadrant, and a point
/// exactly on the horizontal midline to a southern one.
pub proof fn lemma_midline_tie_break(boundary: Rectangle, p: Vector2)
    requires
        boundary.wf(),
        boundary.contains(p),
    ensures
        p.x == boundary.center_x() ==> (quadrant_of(boundary, p) == Some(Quadrant::NE)
            || quadrant_of(boundary, p) == Some(Quadrant::SE)),
        p.y == boundary.center_y() ==> (quadrant_of(boundary, p) == Some(Quadrant::SW)
            || quadrant_of(boundary, p) == Some(Quadrant::SE)),
{
}

/// Which quadrant of `boundary` holds `position`; `None` when the point
/// lies outside the closed extent of `boundary`.
pub fn find_quadrant(boundary: &Rectangle, position: &Vector2) -> (r: Option<Quadrant>)
    requires
        boundary.wf(),
    ensures
        r == quadrant_of(*boundary, *position),
{
    let center_x = boundary.position.x + (boundary.width / 2) as i64;
    let center_y = boundary.position.y + (boundary.height / 2) as i64;
    let inside = position.x >= boundary.position.x
        && position.x <= boundary.position.x + boundary.width as i64
        && position.y >= boundary.position.y
        && position.y <= boundary.position.y + boundary.height as i64;
    if !inside {
        None
    } else if position.x < center_x {
        if position.y < center_y {
            Some(Quadrant::NW)
        } else {
            Some(Quadrant::SW)
        }
    } else {
        if position.y < center_y {
            Some(Quadrant::NE)
        } else {
            Some(Quadrant::SE)
        }
    }
}

/// The sub-rectangle of `rectangle` that `quadrant` names.
pub fn quadrant_to_rectangle(rectangle: &Rectangle, quadrant: &Quadrant) -> (r: Rectangle)
    requires
        rectangle.wf(),
    ensures
        r == subregion(*rectangle, *quadrant),
{
    let half_width = rectangle.width / 2;
    let rest_width = rectangle.width - half_width;
    let half_height = rectangle.height / 2;
    let rest_height = rectangle.height - half_height;
    let center_x = rectangle.position.x + half_width as i64;
    let center_y = rectangle.position.y + half_height as i64;

    match quadrant {
        Quadrant::NW => Rectangle {
            position: rectangle.position,
            width: half_width,
            height: half_height,
        },
        Quadrant::NE => Rectangle {
            position: Vector2 { x: center_x, y: rectangle.position.y },
            width: rest_width,
            height: half_height,
        },
        Quadrant::SW => Rectangle {
            position: Vector2 { x: rectangle.position.x, y: center_y },
            width: half_width,
            height: rest_height,
        },
        Quadrant::SE => Rectangle {
            position: Vector2 { x: center_x, y: center_y },
            width: rest_width,
            height: rest_height,
        },
    }
}

} // verus!
