//! The stream of kept waypoints over all segments, and the fold that turns it
//! into distance, climb totals and the raw elevation profile.

use vstd::prelude::*;
use crate::profile::Sample;
use crate::track::{elevation_delta, keep_candidate, keeps, Thresholds, Waypoint};

verus! {

/// A waypoint that survived the filter, with the distance in millimetres from
/// the waypoint kept before it in the same segment (zero where it opens a
/// segment).
#[derive(Clone, Copy, Debug, PartialEq, Eq, Structural)]
pub struct KeptPoint {
    pub point: Waypoint,
    pub leg_mm: u64,
    pub opens_segment: bool,
}

/// The filter run over a whole track, segment after segment. The last kept
/// waypoint is the one each new candidate is measured against.
pub struct TrackFilter {
    pub thresholds: Thresholds,
    pub kept: Vec<KeptPoint>,
}

impl TrackFilter {
    /// A filter that has seen no waypoint yet.
    pub fn new(thresholds: Thresholds) -> (r: TrackFilter)
        ensures
            r.thresholds == thresholds,
            r.kept@ == Seq::<KeptPoint>::empty(),
    {
        TrackFilter { thresholds, kept: Vec::new() }
    }

    /// Starts a segment: its first waypoint is kept without a test.
    pub fn begin_segment(&mut self, first: Waypoint)
        ensures
            final(self).thresholds == old(self).thresholds,
            final(self).kept@ == old(self).kept@.push(
                KeptPoint { point: first, leg_mm: 0, opens_segment: true },
            ),
    {
        self.kept.push(KeptPoint { point: first, leg_mm: 0, opens_segment: true });
    }

    /// The last kept waypoint, against which the next candidate is measured.
    pub fn previous(&self) -> (r: Waypoint)
        requires
            self.kept@.len() > 0,
        ensures
            r == self.kept@.last().point,
    {
        self.kept[self.kept.len() - 1].point
    }

    /// Offers the next waypoint of the current segment, with its distance in
    /// millimetres from `previous()`. Returns whether it was kept.
    pub fn offer(&mut self, candidate: Waypoint, distance_mm: u64) -> (r: bool)
        requires
            old(self).kept@.len() > 0,
        ensures
            r == keeps(old(self).thresholds, old(self).kept@.last().point, candidate, distance_mm as int),
            final(self).thresholds == old(self).thresholds,
            final(self).kept@ == (if r {
                old(self).kept@.push(
                    KeptPoint { point: candidate, leg_mm: distance_mm, opens_segment: false },
                )
            } else {
                old(self).kept@
            }),
    {
        let prev = self.previous();
        let keep = keep_candidate(&self.thresholds, &prev, &candidate, distance_mm);
        if keep {
            self.kept.push(KeptPoint { point: candidate, leg_mm: distance_mm, opens_segment: false });
        }
        keep
    }

    /// The kept stream.
    pub fn into_kept(self) -> (r: Vec<KeptPoint>)
        ensures
            r@ == self.kept@,
    {
        self.kept
    }
}

/// Sum of the legs of a kept stream, in millimetres.
pub open spec fn total_distance(k: Seq<KeptPoint>) -> nat
    decreases k.len(),
{
    if k.len() == 0 {
        0
    } else {
        total_distance(k.drop_last()) + k.last().leg_mm as nat
    }
}

/// Elevation change into the kept waypoint `i` from the one before it, where
/// both lie in one segment and carry an elevation.
pub open spec fn step_rise(k: Seq<KeptPoint>, i: int) -> Option<int> {
    if i <= 0 || k[i].opens_segment {
        None
    } else {
        elevation_delta(k[i - 1].point, k[i].point)
    }
}

pub open spec fn uphill(k: Seq<KeptPoint>) -> nat
    decreases k.len(),
{
    if k.len() == 0 {
        0
    } else {
        uphill(k.drop_last()) + match step_rise(k, k.len() - 1) {
            Some(d) => if d > 0 { d as nat } else { 0 },
            None => 0,
        }
    }
}

pub open spec fn downhill(k: Seq<KeptPoint>) -> nat
    decreases k.len(),
{
    if k.len() == 0 {
        0
    } else {
        downhill(k.drop_last()) + match step_rise(k, k.len() - 1) {
            Some(d) => if d < 0 { (-d) as nat } else { 0 },
            None => 0,
        }
    }
}

/// The raw elevation profile: a sample at the distance so far for every kept
/// waypoint that carries an elevation.
pub open spec fn raw_profile(k: Seq<KeptPoint>) -> Seq<Sample>
    decreases k.len(),
{
    if k.len() == 0 {
        Seq::empty()
    } else {
        raw_profile(k.drop_last()) + match k.last().point.elevation_mm {
            Some(e) => seq![Sample { distance_mm: total_distance(k) as u64, elevation_mm: e }],
            None => Seq::empty(),
        }
    }
}

/// Totals of a kept stream: distance, uphill and downhill in millimetres, and
/// the raw elevation profile.
pub struct Totals {
    pub distance_mm: u64,
    pub uphill_mm: u128,
    pub downhill_mm: u128,
    pub profile: Vec<Sample>,
}

pub(crate) proof fn lemma_total_distance_prefix(k: Seq<KeptPoint>, i: int, j: int)
    requires
        0 <= i <= j <= k.len(),
    ensures
        total_distance(k.subrange(0, i)) <= total_distance(k.subrange(0, j)),
    decreases j - i,
{
    if i < j {
        lemma_total_distance_prefix(k, i, j - 1);
        assert(k.subrange(0, j).drop_last() =~= k.subrange(0, j - 1));
    }
}

/// Folds a kept stream into its totals.
pub fn accumulate(kept: &Vec<KeptPoint>) -> (r: Totals)
    requires
        total_distance(kept@) <= u64::MAX,
    ensures
        r.distance_mm == total_distance(kept@),
        r.uphill_mm == uphill(kept@),
        r.downhill_mm == downhill(kept@),
        r.profile@ == raw_profile(kept@),
{
    let n = kept.len();
    let mut distance: u64 = 0;
    let mut up: u128 = 0;
    let mut down: u128 = 0;
    let mut profile: Vec<Sample> = Vec::new();
    let mut i: usize = 0;
    while i < n
        invariant
            n == kept@.len(),
            total_distance(kept@) <= u64::MAX,
            0 <= i <= n,
            distance == total_distance(kept@.subrange(0, i as int)),
            up == uphill(kept@.subrange(0, i as int)),
            down == downhill(kept@.subrange(0, i as int)),
            profile@ == raw_profile(kept@.subrange(0, i as int)),
            up + down <= i * 0x1_0000_0000,
        decreases n - i,
    {
        let ghost pre = kept@.subrange(0, i as int);
        let ghost next = kept@.subrange(0, i + 1);
        assert(next.drop_last() =~= pre);
        proof {
            lemma_total_distance_prefix(kept@, i + 1, n as int);
            assert(kept@.subrange(0, n as int) =~= kept@);
        }
        let cur = kept[i];
        distance = distance + cur.leg_mm;
        if i > 0 && !cur.opens_segment {
            let prev = kept[i - 1];
            assert(step_rise(next, i as int) == elevation_delta(prev.point, cur.point));
            match (prev.point.elevation_mm, cur.point.elevation_mm) {
                (Some(a), Some(b)) => {
                    if b >= a {
                        up = up + (b as i64 - a as i64) as u128;
                    } else {
                        down = down + (a as i64 - b as i64) as u128;
                    }
                },
                _ => {},
            }
        }
        match cur.point.elevation_mm {
            Some(e) => {
                profile.push(Sample { distance_mm: distance, elevation_mm: e });
            },
            None => {},
        }
        i = i + 1;
    }
    assert(kept@.subrange(0, n as int) =~= kept@);
    Totals { distance_mm: distance, uphill_mm: up, downhill_mm: down, profile }
}

/// The running distance never decreases from one profile sample to the next,
/// and no sample lies beyond the total distance.
pub proof fn lemma_profile_monotone(k: Seq<KeptPoint>)
    requires
        total_distance(k) <= u64::MAX,
    ensures
        forall|i: int, j: int|
            0 <= i <= j < raw_profile(k).len() ==> raw_profile(k)[i].distance_mm
                <= raw_profile(k)[j].distance_mm,
        forall|i: int|
            0 <= i < raw_profile(k).len() ==> raw_profile(k)[i].distance_mm <= total_distance(k),
    decreases k.len(),
{
    if k.len() > 0 {
        let k0 = k.drop_last();
        lemma_profile_monotone(k0);
        let p0 = raw_profile(k0);
        let p = raw_profile(k);
        assert(total_distance(k) == total_distance(k0) + k.last().leg_mm);
        match k.last().point.elevation_mm {
            Some(e) => {
                let s = Sample { distance_mm: total_distance(k) as u64, elevation_mm: e };
                assert(p == p0 + seq![s]);
                assert(p.len() == p0.len() + 1);
                assert forall|i: int| 0 <= i < p.len() implies p[i].distance_mm <= total_distance(
                    k,
                ) by {
                    if i < p0.len() {
                        assert(p[i] == p0[i]);
                    } else {
                        assert(p[i] == s);
                    }
                }
                assert forall|i: int, j: int|
                    0 <= i <= j < p.len() implies p[i].distance_mm <= p[j].distance_mm by {
                    if j < p0.len() {
                        assert(p[i] == p0[i]);
                        assert(p[j] == p0[j]);
                    } else {
                        assert(p[j] == s);
                        if i < p0.len() {
                            assert(p[i] == p0[i]);
                        }
                    }
                }
            },
            None => {
                assert(p =~= p0);
            },
        }
    }
}

/// Where no kept waypoint carries an elevation, the raw profile is empty and
/// both climb totals are zero; the distance still sums every leg.
pub proof fn lemma_no_elevation(k: Seq<KeptPoint>)
    requires
        forall|i: int| 0 <= i < k.len() ==> (#[trigger] k[i]).point.elevation_mm is None,
    ensures
        raw_profile(k).len() == 0,
        uphill(k) == 0,
        downhill(k) == 0,
    decreases k.len(),
{
    if k.len() > 0 {
        let k0 = k.drop_last();
        assert forall|i: int| 0 <= i < k0.len() implies (#[trigger] k0[i]).point.elevation_mm is None by {
            assert(k0[i] == k[i]);
        }
        lemma_no_elevation(k0);
        assert(k[k.len() - 1].point.elevation_mm is None);
    }
}

} // verus!
