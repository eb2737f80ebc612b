//! The track summary: metadata merged by precedence, the start time and
//! location, the raw statistics and those of the simplified profile.

use vstd::prelude::*;
use vstd::string::*;
use crate::accumulate::{
    accumulate, lemma_total_distance_prefix, total_distance, downhill, raw_profile, uphill,
    KeptPoint,
};
use crate::profile::{climb, climb_down, climb_up, Sample};
use crate::simplify::{derived_epsilon, derived_tolerance, simplified, simplify};
use crate::track::UtcTime;

verus! {

/// Name and description as recorded at one level of a track file.
#[derive(Debug)]
pub struct Metadata {
    pub name: Option<String>,
    pub description: Option<String>,
}

/// How the simplification tolerance is chosen: a fixed area in square
/// millimetres, or derived from the track with the given base length in
/// millimetres.
#[derive(Clone, Copy, Debug, PartialEq, Eq, Structural)]
pub enum Tolerance {
    Fixed(u128),
    Derived(u32),
}

/// Why no summary could be made.
#[derive(Clone, Copy, Debug, PartialEq, Eq, Structural)]
pub enum TrackError {
    /// The track holds no waypoint at all.
    NoWaypoints,
    /// The total distance does not fit in 64 bits of millimetres.
    DistanceOverflow,
}

/// The summary of one track.
pub struct GpxInfo {
    pub name: Option<String>,
    pub description: Option<String>,
    pub datetime: Option<UtcTime>,
    pub location: Option<String>,
    pub distance_mm: u64,
    pub uphill_mm: u128,
    pub downhill_mm: u128,
    pub profile: Vec<Sample>,
    pub simplified_uphill_mm: u128,
    pub simplified_downhill_mm: u128,
}

/// The value that wins of a file-level and a track-level field: the
/// file-level one where present.
pub open spec fn preferred(file_level: Option<String>, track_level: Option<String>) -> Option<String> {
    if file_level is Some {
        file_level
    } else {
        track_level
    }
}

/// Merges one field of the file-level and the track-level metadata; the
/// file level wins.
pub fn merge_field(file_level: Option<String>, track_level: Option<String>) -> (r: Option<String>)
    ensures
        r == preferred(file_level, track_level),
{
    match file_level {
        Some(v) => Some(v),
        None => track_level,
    }
}

/// The timestamp of the first kept waypoint that has one.
pub open spec fn first_time(k: Seq<KeptPoint>) -> Option<UtcTime>
    decreases k.len(),
{
    if k.len() == 0 {
        None
    } else if k[0].point.time is Some {
        k[0].point.time
    } else {
        first_time(k.drop_first())
    }
}

proof fn lemma_first_time_skip(k: Seq<KeptPoint>, i: int)
    requires
        0 <= i <= k.len(),
        forall|j: int| 0 <= j < i ==> k[j].point.time is None,
    ensures
        first_time(k) == first_time(k.subrange(i, k.len() as int)),
    decreases i,
{
    if i == 0 {
        assert(k.subrange(0, k.len() as int) =~= k);
    } else {
        assert(k[0].point.time is None);
        let t = k.drop_first();
        assert forall|j: int| 0 <= j < i - 1 implies t[j].point.time is None by {
            assert(t[j] == k[j + 1]);
        }
        lemma_first_time_skip(t, i - 1);
        assert(t.subrange(i - 1, t.len() as int) =~= k.subrange(i, k.len() as int));
    }
}

/// The start time of a kept stream.
pub fn start_time(kept: &Vec<KeptPoint>) -> (r: Option<UtcTime>)
    ensures
        r == first_time(kept@),
{
    let mut i: usize = 0;
    while i < kept.len()
        invariant
            i <= kept@.len(),
            forall|j: int| 0 <= j < i ==> kept@[j].point.time is None,
        decreases kept@.len() - i,
    {
        if kept[i].point.time.is_some() {
            proof {
                lemma_first_time_skip(kept@, i as int);
            }
            return kept[i].point.time;
        }
        i = i + 1;
    }
    proof {
        lemma_first_time_skip(kept@, kept@.len() as int);
        assert(kept@.subrange(kept@.len() as int, kept@.len() as int).len() == 0);
    }
    None
}

/// A text with its double quote characters removed.
pub open spec fn unquoted(s: Seq<char>) -> Seq<char>
    decreases s.len(),
{
    if s.len() == 0 {
        s
    } else if s.last() == '"' {
        unquoted(s.drop_last())
    } else {
        unquoted(s.drop_last()).push(s.last())
    }
}

/// The location line: the unquoted parts that are not empty, joined by a
/// comma and a space.
pub open spec fn location_line(parts: Seq<Seq<char>>) -> Seq<char>
    decreases parts.len(),
{
    if parts.len() == 0 {
        Seq::empty()
    } else {
        let head = location_line(parts.drop_last());
        let u = unquoted(parts.last());
        if u.len() == 0 {
            head
        } else if head.len() == 0 {
            u
        } else {
            head + seq![',', ' '] + u
        }
    }
}

fn strip_quotes(s: &String) -> (r: String)
    ensures
        r@ == unquoted(s@),
{
    let n = s.as_str().unicode_len();
    let mut out = String::new();
    let mut i: usize = 0;
    while i < n
        invariant
            n == s@.len(),
            i <= n,
            out@ == unquoted(s@.subrange(0, i as int)),
        decreases n - i,
    {
        let c = s.as_str().get_char(i);
        assert(s@.subrange(0, i + 1).drop_last() =~= s@.subrange(0, i as int));
        if c != '"' {
            out.append(s.as_str().substring_char(i, i + 1));
            assert(s@.subrange(i as int, i + 1) =~= seq![c]);
        }
        i = i + 1;
    }
    assert(s@.subrange(0, n as int) =~= s@);
    out
}

/// Formats the fields of a place record (name, street, city, country, ...)
/// into one location line: quote characters are removed, fields left empty
/// are skipped, the rest are joined by ", ".
pub fn format_location(parts: &Vec<String>) -> (r: String)
    ensures
        r@ == location_line(parts@.map_values(|p: String| p@)),
{
    let ghost views = parts@.map_values(|p: String| p@);
    let mut out = String::new();
    let mut i: usize = 0;
    while i < parts.len()
        invariant
            i <= parts@.len(),
            views == parts@.map_values(|p: String| p@),
            out@ == location_line(views.subrange(0, i as int)),
        decreases parts@.len() - i,
    {
        let u = strip_quotes(&parts[i]);
        assert(views.subrange(0, i + 1).drop_last() =~= views.subrange(0, i as int));
        assert(views.subrange(0, i + 1).last() == parts@[i as int]@);
        if u.as_str().unicode_len() > 0 {
            if out.as_str().unicode_len() > 0 {
                let sep = String::from_str(", ");
                proof {
                    reveal_strlit(", ");
                }
                assert(sep@ =~= seq![',', ' ']);
                out.append(sep.as_str());
            }
            out.append(u.as_str());
        }
        i = i + 1;
    }
    assert(views.subrange(0, parts@.len() as int) =~= views);
    out
}

/// Total distance of a kept stream, or `None` where it does not fit in 64
/// bits.
pub fn checked_total_distance(kept: &Vec<KeptPoint>) -> (r: Option<u64>)
    ensures
        r == (if total_distance(kept@) <= u64::MAX {
            Some(total_distance(kept@) as u64)
        } else {
            None::<u64>
        }),
{
    let n = kept.len();
    let mut total: u64 = 0;
    let mut i: usize = 0;
    while i < n
        invariant
            n == kept@.len(),
            i <= n,
            total == total_distance(kept@.subrange(0, i as int)),
        decreases n - i,
    {
        assert(kept@.subrange(0, i + 1).drop_last() =~= kept@.subrange(0, i as int));
        match total.checked_add(kept[i].leg_mm) {
            Some(t) => {
                total = t;
            },
            None => {
                proof {
                    lemma_total_distance_prefix(kept@, i + 1, n as int);
                    assert(kept@.subrange(0, n as int) =~= kept@);
                }
                return None;
            },
        }
        i = i + 1;
    }
    assert(kept@.subrange(0, n as int) =~= kept@);
    Some(total)
}

/// The tolerance in square millimetres that `t` gives for a track with the
/// given raw uphill total and distance. A derived tolerance that is
/// undefined or does not fit is zero, which leaves the profile unsimplified.
pub open spec fn tolerance_value(t: Tolerance, uphill_mm: nat, distance_mm: nat) -> nat {
    match t {
        Tolerance::Fixed(e) => e as nat,
        Tolerance::Derived(base) => if distance_mm == 0 || base * base * uphill_mm > u128::MAX {
            0
        } else {
            derived_tolerance(base as nat, uphill_mm, distance_mm)
        },
    }
}

/// Resolves a tolerance policy for a track.
pub fn resolve_tolerance(t: Tolerance, uphill_mm: u128, distance_mm: u64) -> (r: u128)
    ensures
        r == tolerance_value(t, uphill_mm as nat, distance_mm as nat),
{
    match t {
        Tolerance::Fixed(e) => e,
        Tolerance::Derived(base) => match derived_epsilon(base, uphill_mm, distance_mm) {
            Some(e) => e,
            None => 0,
        },
    }
}

/// Assembles the summary of a track from its metadata, its kept waypoint
/// stream and the location found for it, and returns it with the
/// simplified elevation profile.
pub fn parse(
    file_level: Metadata,
    track_level: Metadata,
    kept: &Vec<KeptPoint>,
    location: Option<String>,
    tolerance: Tolerance,
) -> (r: Result<(GpxInfo, Vec<Sample>), TrackError>)
    ensures
        kept@.len() == 0 ==> r == Err::<(GpxInfo, Vec<Sample>), TrackError>(
            TrackError::NoWaypoints,
        ),
        kept@.len() > 0 && total_distance(kept@) > u64::MAX ==> r == Err::<
            (GpxInfo, Vec<Sample>),
            TrackError,
        >(TrackError::DistanceOverflow),
        kept@.len() > 0 && total_distance(kept@) <= u64::MAX ==> r is Ok,
        r matches Ok((info, simple)) ==> {
            let eps = tolerance_value(tolerance, uphill(kept@), total_distance(kept@));
            &&& info.name == preferred(file_level.name, track_level.name)
            &&& info.description == preferred(file_level.description, track_level.description)
            &&& info.datetime == first_time(kept@)
            &&& info.location == location
            &&& info.distance_mm == total_distance(kept@)
            &&& info.uphill_mm == uphill(kept@)
            &&& info.downhill_mm == downhill(kept@)
            &&& info.profile@ == raw_profile(kept@)
            &&& simple@ == simplified(raw_profile(kept@), eps)
            &&& info.simplified_uphill_mm == climb_up(simple@)
            &&& info.simplified_downhill_mm == climb_down(simple@)
        },
{
    if kept.len() == 0 {
        return Err(TrackError::NoWaypoints);
    }
    if checked_total_distance(kept).is_none() {
        return Err(TrackError::DistanceOverflow);
    }
    let totals = accumulate(kept);
    let eps = resolve_tolerance(tolerance, totals.uphill_mm, totals.distance_mm);
    let simple = simplify(&totals.profile, eps);
    let (s_up, s_down) = climb(&simple);
    let info = GpxInfo {
        name: merge_field(file_level.name, track_level.name),
        description: merge_field(file_level.description, track_level.description),
        datetime: start_time(kept),
        location,
        distance_mm: totals.distance_mm,
        uphill_mm: totals.uphill_mm,
        downhill_mm: totals.downhill_mm,
        profile: totals.profile,
        simplified_uphill_mm: s_up,
        simplified_downhill_mm: s_down,
    };
    Ok((info, simple))
}

} // verus!
