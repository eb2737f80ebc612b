//! Waypoints and the noise filter that decides which of them are kept.
//!
//! The filter walks each segment and compares every candidate with the last
//! waypoint it kept. The geodesic distance between the two is measured by the
//! caller and handed in with the candidate.

use vstd::prelude::*;

verus! {

/// A UTC instant: seconds since the Unix epoch and nanoseconds within them.
#[derive(Clone, Copy, Debug, PartialEq, Eq, Structural)]
pub struct UtcTime {
    pub seconds: i64,
    pub nanos: u32,
}

/// A recorded GPS fix. Latitude and longitude are in units of 1e-7 degree,
/// the elevation in millimetres.
#[derive(Clone, Copy, Debug, PartialEq, Eq, Structural)]
pub struct Waypoint {
    pub lat_e7: i32,
    pub lon_e7: i32,
    pub elevation_mm: Option<i32>,
    pub time: Option<UtcTime>,
}

/// The filter's policy: a candidate is kept when it lies more than
/// `distance_mm` from the last kept waypoint, or when its elevation differs
/// from that waypoint's by more than `elevation_mm`.
#[derive(Clone, Copy, Debug, PartialEq, Eq, Structural)]
pub struct Thresholds {
    pub distance_mm: u64,
    pub elevation_mm: u64,
}

/// Why a configuration was rejected.
#[derive(Clone, Copy, Debug, PartialEq, Eq, Structural)]
pub enum ConfigError {
    NegativeDistanceThreshold,
    NegativeElevationThreshold,
}

/// Default thresholds: three metres of distance, three metres of elevation.
pub const DEFAULT_DISTANCE_THRESHOLD_MM: u64 = 3000;

pub const DEFAULT_ELEVATION_THRESHOLD_MM: u64 = 3000;

impl Thresholds {
    /// Thresholds from signed values; negative ones are rejected, the
    /// distance first.
    pub fn new(distance_mm: i64, elevation_mm: i64) -> (r: Result<Thresholds, ConfigError>)
        ensures
            distance_mm < 0 ==> r == Err::<Thresholds, ConfigError>(
                ConfigError::NegativeDistanceThreshold,
            ),
            distance_mm >= 0 && elevation_mm < 0 ==> r == Err::<Thresholds, ConfigError>(
                ConfigError::NegativeElevationThreshold,
            ),
            distance_mm >= 0 && elevation_mm >= 0 ==> r == Ok::<Thresholds, ConfigError>(
                (Thresholds { distance_mm: distance_mm as u64, elevation_mm: elevation_mm as u64 }),
            ),
    {
        if distance_mm < 0 {
            Err(ConfigError::NegativeDistanceThreshold)
        } else if elevation_mm < 0 {
            Err(ConfigError::NegativeElevationThreshold)
        } else {
            Ok(Thresholds { distance_mm: distance_mm as u64, elevation_mm: elevation_mm as u64 })
        }
    }

    /// The default policy.
    pub fn standard() -> (r: Thresholds)
        ensures
            r.distance_mm == DEFAULT_DISTANCE_THRESHOLD_MM,
            r.elevation_mm == DEFAULT_ELEVATION_THRESHOLD_MM,
    {
        Thresholds {
            distance_mm: DEFAULT_DISTANCE_THRESHOLD_MM,
            elevation_mm: DEFAULT_ELEVATION_THRESHOLD_MM,
        }
    }
}

/// Elevation change from `prev` to `cur`, where both carry an elevation.
pub open spec fn elevation_delta(prev: Waypoint, cur: Waypoint) -> Option<int> {
    match (prev.elevation_mm, cur.elevation_mm) {
        (Some(a), Some(b)) => Some(b - a),
        _ => None,
    }
}

/// Whether `cand`, at `distance` millimetres from the last kept waypoint
/// `prev`, is kept.
pub open spec fn keeps(th: Thresholds, prev: Waypoint, cand: Waypoint, distance: int) -> bool {
    distance > th.distance_mm || match elevation_delta(prev, cand) {
        Some(d) => d > th.elevation_mm || -d > th.elevation_mm,
        None => false,
    }
}

/// Decides whether `candidate` is kept, given its distance in millimetres
/// from the last kept waypoint `previous`.
pub fn keep_candidate(th: &Thresholds, previous: &Waypoint, candidate: &Waypoint, distance_mm: u64) -> (r: bool)
    ensures
        r == keeps(*th, *previous, *candidate, distance_mm as int),
{
    if distance_mm > th.distance_mm {
        return true;
    }
    match (previous.elevation_mm, candidate.elevation_mm) {
        (Some(a), Some(b)) => {
            let d = b as i64 - a as i64;
            if d >= 0 {
                d as u64 > th.elevation_mm
            } else {
                (-d) as u64 > th.elevation_mm
            }
        },
        _ => false,
    }
}

/// The waypoints of `rest` that the filter keeps after the kept waypoint
/// `prev`, with `dist` measuring the distance between two waypoints.
pub open spec fn filter_after(
    th: Thresholds,
    prev: Waypoint,
    rest: Seq<Waypoint>,
    dist: spec_fn(Waypoint, Waypoint) -> nat,
) -> Seq<Waypoint>
    decreases rest.len(),
{
    if rest.len() == 0 {
        rest
    } else if keeps(th, prev, rest[0], dist(prev, rest[0]) as int) {
        seq![rest[0]] + filter_after(th, rest[0], rest.drop_first(), dist)
    } else {
        filter_after(th, prev, rest.drop_first(), dist)
    }
}

/// The waypoints of one segment that the filter keeps: the first one always,
/// then each candidate that passes against the last one kept.
pub open spec fn filter_segment(
    th: Thresholds,
    s: Seq<Waypoint>,
    dist: spec_fn(Waypoint, Waypoint) -> nat,
) -> Seq<Waypoint> {
    if s.len() == 0 {
        s
    } else {
        seq![s[0]] + filter_after(th, s[0], s.drop_first(), dist)
    }
}

/// The waypoints kept after offering each waypoint of `rest` in turn, each
/// with its distance from the last one kept, starting from the kept waypoints
/// `kept`: one step is what `TrackFilter::offer` does.
pub open spec fn offer_all(
    th: Thresholds,
    kept: Seq<Waypoint>,
    rest: Seq<Waypoint>,
    dist: spec_fn(Waypoint, Waypoint) -> nat,
) -> Seq<Waypoint>
    decreases rest.len(),
{
    if rest.len() == 0 || kept.len() == 0 {
        kept
    } else {
        let c = rest[0];
        let next = if keeps(th, kept.last(), c, dist(kept.last(), c) as int) {
            kept.push(c)
        } else {
            kept
        };
        offer_all(th, next, rest.drop_first(), dist)
    }
}

proof fn lemma_offer_all_appends(
    th: Thresholds,
    kept: Seq<Waypoint>,
    rest: Seq<Waypoint>,
    dist: spec_fn(Waypoint, Waypoint) -> nat,
)
    requires
        kept.len() > 0,
    ensures
        offer_all(th, kept, rest, dist) == kept + filter_after(th, kept.last(), rest, dist),
    decreases rest.len(),
{
    if rest.len() == 0 {
        assert(kept + rest =~= kept);
    } else {
        let c = rest[0];
        let tail = rest.drop_first();
        if keeps(th, kept.last(), c, dist(kept.last(), c) as int) {
            lemma_offer_all_appends(th, kept.push(c), tail, dist);
            assert(kept.push(c) + filter_after(th, c, tail, dist) =~= kept + (seq![c]
                + filter_after(th, c, tail, dist)));
        } else {
            lemma_offer_all_appends(th, kept, tail, dist);
        }
    }
}

/// Beginning a segment with its first waypoint and offering the others in
/// turn, each with its distance from the last one kept, keeps exactly
/// `filter_segment` of that segment.
pub proof fn lemma_offers_filter_segment(
    th: Thresholds,
    s: Seq<Waypoint>,
    dist: spec_fn(Waypoint, Waypoint) -> nat,
)
    requires
        s.len() > 0,
    ensures
        offer_all(th, seq![s[0]], s.drop_first(), dist) == filter_segment(th, s, dist),
{
    lemma_offer_all_appends(th, seq![s[0]], s.drop_first(), dist);
}

proof fn lemma_filter_after_fixed(
    th: Thresholds,
    prev: Waypoint,
    rest: Seq<Waypoint>,
    dist: spec_fn(Waypoint, Waypoint) -> nat,
)
    ensures
        filter_after(th, prev, filter_after(th, prev, rest, dist), dist) == filter_after(
            th,
            prev,
            rest,
            dist,
        ),
    decreases rest.len(),
{
    if rest.len() > 0 {
        let tail = rest.drop_first();
        if keeps(th, prev, rest[0], dist(prev, rest[0]) as int) {
            let out = seq![rest[0]] + filter_after(th, rest[0], tail, dist);
            lemma_filter_after_fixed(th, rest[0], tail, dist);
            assert(out[0] == rest[0]);
            assert(out.drop_first() =~= filter_after(th, rest[0], tail, dist));
        } else {
            lemma_filter_after_fixed(th, prev, tail, dist);
        }
    }
}

/// Filtering is idempotent: the filter keeps every waypoint of its own
/// output, whatever distance function measures the segment.
pub proof fn lemma_filter_idempotent(
    th: Thresholds,
    s: Seq<Waypoint>,
    dist: spec_fn(Waypoint, Waypoint) -> nat,
)
    ensures
        filter_segment(th, filter_segment(th, s, dist), dist) == filter_segment(th, s, dist),
{
    if s.len() > 0 {
        let out = filter_segment(th, s, dist);
        lemma_filter_after_fixed(th, s[0], s.drop_first(), dist);
        assert(out[0] == s[0]);
        assert(out.drop_first() =~= filter_after(th, s[0], s.drop_first(), dist));
    }
}

} // verus!
