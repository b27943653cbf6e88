//! Paths: the polyline through a sequence of points.

use vstd::prelude::*;

verus! {

/// A point of the canvas, as a pair of pixel coordinates: across, then down.
pub type Coord = (i32, i32);

/// One step of a path.
#[derive(Debug, Clone, Copy, PartialEq, Eq)]
pub enum PathVerb {
    /// Start a contour at the point.
    MoveTo(Coord),
    /// Draw a straight segment from the current point to the point.
    LineTo(Coord),
}

impl PathVerb {
    /// The point that the step goes to.
    pub open spec fn point(self) -> Coord {
        match self {
            PathVerb::MoveTo(p) => p,
            PathVerb::LineTo(p) => p,
        }
    }
}

/// The polyline through the points: a move to the first and a line to each of
/// the others, in the order given. No points give the empty path.
pub open spec fn polyline(points: Seq<Coord>) -> Seq<PathVerb> {
    Seq::new(
        points.len(),
        |i: int|
            if i == 0 {
                PathVerb::MoveTo(points[i])
            } else {
                PathVerb::LineTo(points[i])
            },
    )
}

/// A polyline goes through its points once each, in the order given: reading
/// the points back off the steps gives the input, neither reordered nor with
/// any point dropped or doubled.
pub proof fn lemma_polyline_visits_points_in_order(points: Seq<Coord>)
    ensures
        polyline(points).len() == points.len(),
        polyline(points).map_values(|v: PathVerb| v.point()) == points,
        forall|i: int| 0 <= i < points.len() ==> (#[trigger] polyline(points)[i]).point() == points[i],
        forall|i: int| 0 < i < points.len() ==> #[trigger] polyline(points)[i] is LineTo,
        points.len() > 0 ==> polyline(points)[0] is MoveTo,
{
    assert(polyline(points).map_values(|v: PathVerb| v.point()) =~= points);
}

/// Builds the polyline through the points.
pub fn build_path(points: &[Coord]) -> (verbs: Vec<PathVerb>)
    ensures
        verbs@ == polyline(points@),
{
    let mut verbs: Vec<PathVerb> = Vec::new();
    if points.len() > 0 {
        verbs.push(PathVerb::MoveTo(points[0]));
        let mut i: usize = 1;
        while i < points.len()
            invariant
                1 <= i <= points.len(),
                verbs@ == polyline(points@.take(i as int)),
            decreases points.len() - i,
        {
            verbs.push(PathVerb::LineTo(points[i]));
            i += 1;
            proof {
                assert(verbs@ =~= polyline(points@.take(i as int)));
            }
        }
        proof {
            assert(points@.take(i as int) =~= points@);
        }
    }
    proof {
        assert(verbs@ =~= polyline(points@));
    }
    verbs
}

} // verus!
