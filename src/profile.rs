//! Elevation profiles and the climb statistics read off them.

use vstd::prelude::*;

verus! {

/// One point of an elevation profile: the distance travelled so far and the
/// elevation there, both in millimetres.
#[derive(Clone, Copy, Debug, PartialEq, Eq, Structural)]
pub struct Sample {
    pub distance_mm: u64,
    pub elevation_mm: i32,
}

/// Signed elevation change from `a` to `b`.
pub open spec fn rise(a: Sample, b: Sample) -> int {
    b.elevation_mm - a.elevation_mm
}

/// Sum of the positive elevation changes between consecutive samples.
pub open spec fn climb_up(p: Seq<Sample>) -> nat
    decreases p.len(),
{
    if p.len() < 2 {
        0
    } else {
        let r = rise(p[p.len() - 2], p[p.len() - 1]);
        climb_up(p.drop_last()) + if r > 0 { r as nat } else { 0 }
    }
}

/// Sum of the magnitudes of the negative elevation changes between
/// consecutive samples.
pub open spec fn climb_down(p: Seq<Sample>) -> nat
    decreases p.len(),
{
    if p.len() < 2 {
        0
    } else {
        let r = rise(p[p.len() - 2], p[p.len() - 1]);
        climb_down(p.drop_last()) + if r < 0 { (-r) as nat } else { 0 }
    }
}

/// Uphill and downhill totals of a profile, in millimetres: the sums of the
/// positive and of the negative elevation changes between consecutive samples.
pub fn climb(profile: &Vec<Sample>) -> (r: (u128, u128))
    ensures
        r.0 == climb_up(profile@),
        r.1 == climb_down(profile@),
{
    let n = profile.len();
    if n < 2 {
        return (0, 0);
    }
    let mut up: u128 = 0;
    let mut down: u128 = 0;
    let mut i: usize = 1;
    while i < n
        invariant
            n == profile@.len(),
            1 <= i <= n,
            up == climb_up(profile@.subrange(0, i as int)),
            down == climb_down(profile@.subrange(0, i as int)),
            up + down <= i * 0x1_0000_0000,
        decreases n - i,
    {
        let prev = profile[i - 1];
        let cur = profile[i];
        assert(profile@.subrange(0, i + 1).drop_last() =~= profile@.subrange(0, i as int));
        if cur.elevation_mm >= prev.elevation_mm {
            let d = (cur.elevation_mm as i64 - prev.elevation_mm as i64) as u128;
            up = up + d;
        } else {
            let d = (prev.elevation_mm as i64 - cur.elevation_mm as i64) as u128;
            down = down + d;
        }
        i = i + 1;
    }
    assert(profile@.subrange(0, n as int) =~= profile@);
    (up, down)
}

/// A copy of a profile, sample for sample.
pub(crate) fn copy_profile(profile: &Vec<Sample>) -> (r: Vec<Sample>)
    ensures
        r@ == profile@,
{
    let mut r: Vec<Sample> = Vec::new();
    let mut i: usize = 0;
    while i < profile.len()
        invariant
            i <= profile@.len(),
            r@ == profile@.subrange(0, i as int),
        decreases profile@.len() - i,
    {
        r.push(profile[i]);
        i = i + 1;
    }
    assert(r@ =~= profile@);
    r
}

/// Over any non-empty profile the uphill total minus the downhill total is
/// the net elevation change from the first sample to the last; both totals
/// are never negative.
pub proof fn lemma_climb_net_change(p: Seq<Sample>)
    requires
        p.len() >= 1,
    ensures
        climb_up(p) >= 0,
        climb_down(p) >= 0,
        climb_up(p) - climb_down(p) == p[p.len() - 1].elevation_mm - p[0].elevation_mm,
    decreases p.len(),
{
    if p.len() >= 2 {
        lemma_climb_net_change(p.drop_last());
    }
}

} // verus!
