//! Area-based simplification of elevation profiles (Visvalingam-Whyatt).
//!
//! The profile is a curve with the travelled distance on one axis and the
//! elevation on the other. Repeatedly, the interior sample whose triangle with
//! its two neighbours has the least area is removed, until every remaining
//! triangle is larger than the tolerance. Among equal areas the leftmost
//! sample goes first. A profile whose distances never decrease stays so after
//! simplification, so the simplified curve cannot cross itself.

use vstd::prelude::*;
use crate::profile::Sample;

verus! {

/// Cross product of the vectors a->b and a->c.
pub open spec fn cross(a: Sample, b: Sample, c: Sample) -> int {
    (b.distance_mm - a.distance_mm) * (c.elevation_mm - a.elevation_mm) - (c.distance_mm
        - a.distance_mm) * (b.elevation_mm - a.elevation_mm)
}

/// Twice the area of the triangle a, b, c, in square millimetres.
pub open spec fn twice_area(a: Sample, b: Sample, c: Sample) -> nat {
    let x = cross(a, b, c);
    if x < 0 {
        (-x) as nat
    } else {
        x as nat
    }
}

/// Twice the area of the triangle that the interior sample `i` makes with its
/// two neighbours.
pub open spec fn area_at(p: Seq<Sample>, i: int) -> nat
    recommends
        1 <= i < p.len() - 1,
{
    twice_area(p[i - 1], p[i], p[i + 1])
}

/// The leftmost interior index below `end` whose triangle area is least.
pub open spec fn least_area_index(p: Seq<Sample>, end: int) -> int
    decreases end,
{
    if end <= 2 {
        1
    } else {
        let m = least_area_index(p, end - 1);
        if area_at(p, end - 1) < area_at(p, m) {
            end - 1
        } else {
            m
        }
    }
}

/// The profile simplified with tolerance `epsilon` (an area in square
/// millimetres). A tolerance of zero leaves the profile as it is.
pub open spec fn simplified(p: Seq<Sample>, epsilon: nat) -> Seq<Sample>
    decreases p.len(),
{
    if epsilon == 0 || p.len() < 3 {
        p
    } else {
        let i = least_area_index(p, p.len() - 1);
        if area_at(p, i) > 2 * epsilon {
            p
        } else if 1 <= i < p.len() - 1 {
            simplified(p.remove(i), epsilon)
        } else {
            p
        }
    }
}

proof fn lemma_least_area_index_range(p: Seq<Sample>, end: int)
    requires
        end >= 2,
    ensures
        1 <= least_area_index(p, end) < end,
    decreases end,
{
    if end > 2 {
        lemma_least_area_index_range(p, end - 1);
    }
}

proof fn lemma_mul_bound(a: int, b: int)
    requires
        -0x1_0000_0000_0000_0000 < a < 0x1_0000_0000_0000_0000,
        -0x1_0000_0000 < b < 0x1_0000_0000,
    ensures
        -0x1_0000_0000_0000_0000_0000_0000 < a * b < 0x1_0000_0000_0000_0000_0000_0000,
{
    assert(-0x1_0000_0000_0000_0000_0000_0000 < a * b < 0x1_0000_0000_0000_0000_0000_0000)
        by (nonlinear_arith)
        requires
            -0x1_0000_0000_0000_0000 < a < 0x1_0000_0000_0000_0000,
            -0x1_0000_0000 < b < 0x1_0000_0000,
    ;
}

/// Twice the area of the triangle a, b, c.
pub fn triangle_twice_area(a: Sample, b: Sample, c: Sample) -> (r: u128)
    ensures
        r == twice_area(a, b, c),
        r < 0x2_0000_0000_0000_0000_0000_0000,
{
    let dx1 = b.distance_mm as i128 - a.distance_mm as i128;
    let dy1 = b.elevation_mm as i128 - a.elevation_mm as i128;
    let dx2 = c.distance_mm as i128 - a.distance_mm as i128;
    let dy2 = c.elevation_mm as i128 - a.elevation_mm as i128;
    proof {
        lemma_mul_bound(dx1 as int, dy2 as int);
        lemma_mul_bound(dx2 as int, dy1 as int);
    }
    let x = dx1 * dy2 - dx2 * dy1;
    if x < 0 {
        (-x) as u128
    } else {
        x as u128
    }
}

fn least_area_exec(p: &Vec<Sample>) -> (r: usize)
    requires
        p@.len() >= 3,
    ensures
        r == least_area_index(p@, p@.len() - 1),
        1 <= r < p@.len() - 1,
{
    let n = p.len();
    let mut best: usize = 1;
    let mut best_area = triangle_twice_area(p[0], p[1], p[2]);
    let mut k: usize = 2;
    while k < n - 1
        invariant
            n == p@.len(),
            n >= 3,
            2 <= k <= n - 1,
            best == least_area_index(p@, k as int),
            1 <= best < k,
            best_area == area_at(p@, best as int),
        decreases n - k,
    {
        let a = triangle_twice_area(p[k - 1], p[k], p[k + 1]);
        if a < best_area {
            best = k;
            best_area = a;
        }
        k = k + 1;
    }
    best
}

/// Whether a twice-area exceeds twice the tolerance `epsilon`.
fn exceeds(twice: u128, epsilon: u128) -> (r: bool)
    ensures
        r == (twice > 2 * epsilon),
{
    if epsilon > 0x7fff_ffff_ffff_ffff_ffff_ffff_ffff_ffff {
        false
    } else {
        twice > 2 * epsilon
    }
}

/// Simplifies an elevation profile with tolerance `epsilon`, an area in
/// square millimetres: interior samples are removed, least triangle area
/// first, while that least area is at most `epsilon`.
pub fn simplify(profile: &Vec<Sample>, epsilon: u128) -> (r: Vec<Sample>)
    ensures
        r@ == simplified(profile@, epsilon as nat),
{
    let mut pts = crate::profile::copy_profile(profile);
    if epsilon == 0 {
        return pts;
    }
    loop
        invariant
            epsilon > 0,
            simplified(pts@, epsilon as nat) == simplified(profile@, epsilon as nat),
        ensures
            pts@ == simplified(profile@, epsilon as nat),
        decreases pts@.len(),
    {
        if pts.len() < 3 {
            break;
        }
        let i = least_area_exec(&pts);
        let a = triangle_twice_area(pts[i - 1], pts[i], pts[i + 1]);
        if exceeds(a, epsilon) {
            break;
        }
        pts.remove(i);
    }
    pts
}

/// Default base length of the derived tolerance: five metres.
pub const DEFAULT_EPSILON_BASE_MM: u32 = 5000;

/// The tolerance adapted to how hilly a track is:
/// `0.5 * base * (uphill / (distance / 2) * base)`, which is
/// `base * base * uphill / distance`, in square millimetres.
pub open spec fn derived_tolerance(base_mm: nat, uphill_mm: nat, distance_mm: nat) -> nat
    recommends
        distance_mm > 0,
{
    (base_mm * base_mm * uphill_mm / distance_mm) as nat
}

/// The tolerance derived from a track's uphill total and distance, rounded
/// down. `None` where it is undefined (a zero distance) or does not fit.
pub fn derived_epsilon(base_mm: u32, uphill_mm: u128, distance_mm: u64) -> (r: Option<u128>)
    ensures
        r == (if distance_mm == 0 || base_mm * base_mm * uphill_mm > u128::MAX {
            None::<u128>
        } else {
            Some(derived_tolerance(base_mm as nat, uphill_mm as nat, distance_mm as nat) as u128)
        }),
{
    if distance_mm == 0 {
        return None;
    }
    assert(base_mm * base_mm <= 0xffff_ffff * 0xffff_ffff) by (nonlinear_arith)
        requires
            base_mm <= 0xffff_ffff,
    ;
    let b2: u128 = base_mm as u128 * base_mm as u128;
    match b2.checked_mul(uphill_mm) {
        None => None,
        Some(num) => Some(num / distance_mm as u128),
    }
}

proof fn lemma_remove_keeps_ends(p: Seq<Sample>, i: int)
    requires
        1 <= i < p.len() - 1,
    ensures
        p.remove(i).len() == p.len() - 1,
        p.remove(i)[0] == p[0],
        p.remove(i)[p.len() - 2] == p[p.len() - 1],
{
}

/// Simplification never adds samples, and keeps the first and the last
/// sample of a non-empty profile.
pub proof fn lemma_simplify_keeps_ends(p: Seq<Sample>, epsilon: nat)
    ensures
        simplified(p, epsilon).len() <= p.len(),
        p.len() >= 1 ==> simplified(p, epsilon).len() >= 1,
        p.len() >= 1 ==> simplified(p, epsilon)[0] == p[0],
        p.len() >= 1 ==> simplified(p, epsilon)[simplified(p, epsilon).len() - 1] == p[p.len()
            - 1],
    decreases p.len(),
{
    if epsilon != 0 && p.len() >= 3 {
        let i = least_area_index(p, p.len() - 1);
        lemma_least_area_index_range(p, p.len() - 1);
        if area_at(p, i) <= 2 * epsilon {
            lemma_remove_keeps_ends(p, i);
            lemma_simplify_keeps_ends(p.remove(i), epsilon);
        }
    }
}

/// Whether the distances of a profile never decrease.
pub open spec fn distances_sorted(p: Seq<Sample>) -> bool {
    forall|i: int, j: int| 0 <= i <= j < p.len() ==> p[i].distance_mm <= p[j].distance_mm
}

/// Simplifying a profile whose distances never decrease gives one whose
/// distances never decrease either, so the simplified curve cannot cross
/// itself.
pub proof fn lemma_simplify_keeps_order(p: Seq<Sample>, epsilon: nat)
    requires
        distances_sorted(p),
    ensures
        distances_sorted(simplified(p, epsilon)),
    decreases p.len(),
{
    if epsilon != 0 && p.len() >= 3 {
        let i = least_area_index(p, p.len() - 1);
        lemma_least_area_index_range(p, p.len() - 1);
        if area_at(p, i) <= 2 * epsilon {
            let q = p.remove(i);
            assert forall|a: int, b: int| 0 <= a <= b < q.len() implies q[a].distance_mm
                <= q[b].distance_mm by {
                let a2 = if a < i { a } else { a + 1 };
                let b2 = if b < i { b } else { b + 1 };
                assert(q[a] == p[a2]);
                assert(q[b] == p[b2]);
            }
            lemma_simplify_keeps_order(q, epsilon);
        }
    }
}

/// `q` is made of samples of `p`, unchanged and in their order: `q[k]` is
/// `p[idx[k]]`, with `idx` strictly increasing.
pub open spec fn picks(p: Seq<Sample>, q: Seq<Sample>, idx: Seq<int>) -> bool {
    &&& idx.len() == q.len()
    &&& forall|k: int| 0 <= k < idx.len() ==> 0 <= #[trigger] idx[k] < p.len() && q[k] == p[idx[k]]
    &&& forall|k: int, l: int| 0 <= k < l < idx.len() ==> idx[k] < idx[l]
}

/// The simplified profile is a subsequence of the profile: every sample it
/// holds is one of the profile's, unchanged, and in the same order.
pub proof fn lemma_simplify_subsequence(p: Seq<Sample>, epsilon: nat)
    ensures
        exists|idx: Seq<int>| picks(p, simplified(p, epsilon), idx),
    decreases p.len(),
{
    if epsilon != 0 && p.len() >= 3 {
        let i = least_area_index(p, p.len() - 1);
        lemma_least_area_index_range(p, p.len() - 1);
        if area_at(p, i) <= 2 * epsilon {
            let q = p.remove(i);
            lemma_simplify_subsequence(q, epsilon);
            let r = simplified(q, epsilon);
            assert(r == simplified(p, epsilon));
            let idx = choose|idx: Seq<int>| picks(q, r, idx);
            let idx2 = idx.map_values(|j: int| if j < i { j } else { j + 1 });
            assert forall|k: int| 0 <= k < idx2.len() implies 0 <= #[trigger] idx2[k] < p.len()
                && r[k] == p[idx2[k]] by {
                assert(0 <= idx[k] < q.len());
                assert(r[k] == q[idx[k]]);
            }
            assert forall|k: int, l: int| 0 <= k < l < idx2.len() implies idx2[k] < idx2[l] by {
                assert(idx[k] < idx[l]);
            }
            assert(picks(p, r, idx2));
            return;
        }
    }
    let idx = Seq::new(p.len(), |k: int| k);
    assert(simplified(p, epsilon) == p);
    assert(picks(p, p, idx));
}

/// A larger tolerance never keeps more samples of the same profile.
pub proof fn lemma_simplify_monotone(p: Seq<Sample>, small: nat, large: nat)
    requires
        small <= large,
    ensures
        simplified(p, large).len() <= simplified(p, small).len(),
    decreases p.len(),
{
    lemma_simplify_keeps_ends(p, large);
    if small != 0 && p.len() >= 3 {
        let i = least_area_index(p, p.len() - 1);
        lemma_least_area_index_range(p, p.len() - 1);
        if area_at(p, i) <= 2 * small {
            lemma_simplify_monotone(p.remove(i), small, large);
        }
    }
}

} // verus!
