//! Maps an elevation profile onto a canvas: one pixel across for every three
//! metres travelled, one pixel up for every metre of elevation, and a stroke
//! between each two consecutive samples. Canvas points are held in fractions
//! of a pixel fine enough that the mapping is exact: no two samples that
//! differ in distance or elevation land on the same coordinate.

use vstd::prelude::*;
use crate::profile::Sample;

verus! {

/// Height of the canvas in pixels.
pub const CANVAS_HEIGHT_PX: u64 = 1000;

/// Millimetres of distance per horizontal pixel.
pub const MM_PER_PIXEL: u64 = 3000;

/// Fractions of a pixel in one pixel across: one per millimetre of distance.
pub const X_UNITS_PER_PIXEL: u64 = 3000;

/// Fractions of a pixel in one pixel down: one per millimetre of elevation.
pub const Y_UNITS_PER_PIXEL: i64 = 1000;

/// A point on the canvas; `x` in 1/3000 pixel, `y` in 1/1000 pixel, growing
/// downwards.
#[derive(Clone, Copy, Debug, PartialEq, Eq, Structural)]
pub struct CanvasPoint {
    pub x: u64,
    pub y: i64,
}

/// A straight line to stroke.
#[derive(Clone, Copy, Debug, PartialEq, Eq, Structural)]
pub struct Stroke {
    pub from: CanvasPoint,
    pub to: CanvasPoint,
}

/// What to draw: the canvas size in whole pixels and the strokes on it.
pub struct Drawing {
    pub width_px: u64,
    pub height_px: u64,
    pub strokes: Vec<Stroke>,
}

/// Where a sample lands on the canvas: `x = distance / 3 m` pixels and
/// `y = 1000 - elevation in metres` pixels, both exact in their units.
pub open spec fn canvas_point(s: Sample) -> CanvasPoint {
    CanvasPoint {
        x: s.distance_mm,
        y: (CANVAS_HEIGHT_PX * Y_UNITS_PER_PIXEL - s.elevation_mm) as i64,
    }
}

/// Where a sample lands on the canvas.
pub fn to_canvas(s: Sample) -> (r: CanvasPoint)
    ensures
        r == canvas_point(s),
        r.x == s.distance_mm,
        r.y == 1_000_000 - s.elevation_mm,
{
    CanvasPoint {
        x: s.distance_mm,
        y: CANVAS_HEIGHT_PX as i64 * Y_UNITS_PER_PIXEL - s.elevation_mm as i64,
    }
}

/// A higher sample draws higher, and a farther one no farther left.
pub proof fn lemma_canvas_order(a: Sample, b: Sample)
    ensures
        a.elevation_mm > b.elevation_mm ==> canvas_point(a).y < canvas_point(b).y,
        a.elevation_mm == b.elevation_mm ==> canvas_point(a).y == canvas_point(b).y,
        a.distance_mm <= b.distance_mm ==> canvas_point(a).x <= canvas_point(b).x,
{
}

/// The drawing of a profile over a track of `distance_mm` millimetres.
pub fn plan_drawing(profile: &Vec<Sample>, distance_mm: u64) -> (r: Drawing)
    ensures
        r.width_px == distance_mm / MM_PER_PIXEL,
        r.height_px == CANVAS_HEIGHT_PX,
        profile@.len() == 0 ==> r.strokes@.len() == 0,
        profile@.len() > 0 ==> r.strokes@.len() == profile@.len() - 1,
        forall|i: int|
            0 <= i < r.strokes@.len() ==> r.strokes@[i] == (Stroke {
                from: canvas_point(profile@[i]),
                to: canvas_point(profile@[i + 1]),
            }),
{
    let mut strokes: Vec<Stroke> = Vec::new();
    let n = profile.len();
    if n > 0 {
        let mut i: usize = 1;
        while i < n
            invariant
                n == profile@.len(),
                1 <= i <= n,
                strokes@.len() == i - 1,
                forall|j: int|
                    0 <= j < strokes@.len() ==> strokes@[j] == (Stroke {
                        from: canvas_point(profile@[j]),
                        to: canvas_point(profile@[j + 1]),
                    }),
            decreases n - i,
        {
            let from = to_canvas(profile[i - 1]);
            let to = to_canvas(profile[i]);
            strokes.push(Stroke { from, to });
            i = i + 1;
        }
    }
    Drawing { width_px: distance_mm / MM_PER_PIXEL, height_px: CANVAS_HEIGHT_PX, strokes }
}

} // verus!
