//! The polyline a fan-curve preview draws, on the preview's fixed axes.

use vstd::prelude::*;

verus! {

/// Left edge of the preview's fixed temperature axis, in °C.
pub const TEMP_MIN_C: u8 = 20;

/// Right edge of the preview's fixed temperature axis, in °C.
pub const TEMP_MAX_C: u8 = 60;

/// The drawn vertices for a curve: flat from the left edge at the first
/// point's duty, the curve's own points, then flat to the right edge at the
/// last point's duty. Empty for an empty curve.
pub open spec fn spec_polyline(points: Seq<(u8, u8)>) -> Seq<(u8, u8)> {
    if points.len() == 0 {
        Seq::empty()
    } else {
        seq![(TEMP_MIN_C, points[0].1)] + points + seq![(TEMP_MAX_C, points.last().1)]
    }
}

/// The full drawn polyline as (temp °C, duty %) pairs: flat from the left
/// edge to the curve's first point (the firmware does not ramp below it),
/// then the curve's own points, then flat from the last point to the right
/// edge. Empty when `points` is empty.
pub fn polyline_vertices(points: &[(u8, u8)]) -> (r: Vec<(u8, u8)>)
    ensures
        r@ == spec_polyline(points@),
{
    if points.len() == 0 {
        return Vec::new();
    }
    let first_duty = points[0].1;
    let last_duty = points[points.len() - 1].1;
    let mut verts: Vec<(u8, u8)> = Vec::new();
    verts.push((TEMP_MIN_C, first_duty));
    for i in 0..points.len()
        invariant
            verts@ == seq![(TEMP_MIN_C, first_duty)] + points@.take(i as int),
    {
        verts.push(points[i]);
        assert(points@.take(i + 1) =~= points@.take(i as int).push(points@[i as int]));
        assert(verts@ =~= seq![(TEMP_MIN_C, first_duty)] + points@.take(i + 1));
    }
    assert(points@.take(points@.len() as int) =~= points@);
    verts.push((TEMP_MAX_C, last_duty));
    assert(verts@ =~= spec_polyline(points@));
    verts
}

/// A non-empty curve's polyline starts at the left edge and ends at the
/// right edge, holds flat there at the first and last duties, and passes
/// through every curve point in order.
pub proof fn lemma_polyline_shape(points: Seq<(u8, u8)>)
    requires
        points.len() > 0,
    ensures
        spec_polyline(points).len() == points.len() + 2,
        spec_polyline(points)[0] == (TEMP_MIN_C, points[0].1),
        spec_polyline(points).last() == (TEMP_MAX_C, points.last().1),
        forall|i: int| 0 <= i < points.len() ==> spec_polyline(points)[i + 1] == points[i],
{
}

} // verus!
