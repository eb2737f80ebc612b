use geo::prelude::GeodesicDistance;
use spurilo::{
    accumulate, climb, derived_epsilon, format_location, keep_candidate, parse, plan_drawing,
    resolve_tolerance, simplify, start_time, to_canvas, CanvasPoint, ConfigError, KeptPoint,
    Metadata, Sample, Thresholds, Tolerance, TrackError, TrackFilter, UtcTime, Waypoint,
    CANVAS_HEIGHT_PX, DEFAULT_EPSILON_BASE_MM, X_UNITS_PER_PIXEL, Y_UNITS_PER_PIXEL,
};

fn wp(lat: f64, lon: f64, elevation_m: Option<i32>) -> Waypoint {
    Waypoint {
        lat_e7: (lat * 1e7).round() as i32,
        lon_e7: (lon * 1e7).round() as i32,
        elevation_mm: elevation_m.map(|e| e * 1000),
        time: None,
    }
}

fn geodesic_mm(a: &Waypoint, b: &Waypoint) -> u64 {
    let pa = geo::Point::new(a.lon_e7 as f64 / 1e7, a.lat_e7 as f64 / 1e7);
    let pb = geo::Point::new(b.lon_e7 as f64 / 1e7, b.lat_e7 as f64 / 1e7);
    (pa.geodesic_distance(&pb) * 1000.0).round() as u64
}

fn filter_with_geo(th: Thresholds, segments: &[Vec<Waypoint>]) -> Vec<KeptPoint> {
    let mut f = TrackFilter::new(th);
    for seg in segments {
        let mut it = seg.iter();
        if let Some(first) = it.next() {
            f.begin_segment(*first);
            for cand in it {
                let d = geodesic_mm(&f.previous(), cand);
                f.offer(*cand, d);
            }
        }
    }
    f.into_kept()
}

/// Filters one segment with a distance measured along the latitude axis,
/// one unit of 1e-7 degree per millimetre.
fn filter_linear(th: Thresholds, seg: &[Waypoint]) -> Vec<Waypoint> {
    let mut f = TrackFilter::new(th);
    f.begin_segment(seg[0]);
    for cand in &seg[1..] {
        let d = (cand.lat_e7 as i64 - f.previous().lat_e7 as i64).unsigned_abs();
        f.offer(*cand, d);
    }
    f.into_kept().iter().map(|k| k.point).collect()
}

fn s(d: u64, e: i32) -> Sample {
    Sample { distance_mm: d, elevation_mm: e }
}

fn no_meta() -> Metadata {
    Metadata { name: None, description: None }
}

#[test]
fn negligible_move_collapses() {
    // The second waypoint is about 1.1 m from the first at equal elevation.
    let seg = vec![wp(0.0, 0.0, Some(100)), wp(0.0, 0.00001, Some(100)), wp(0.0, 0.01, Some(150))];
    let kept = filter_with_geo(Thresholds::standard(), &[seg.clone()]);
    assert_eq!(kept.len(), 2);
    assert_eq!(kept[0].point, seg[0]);
    assert_eq!(kept[1].point, seg[2]);
    let expected = geodesic_mm(&seg[0], &seg[2]);
    assert!(expected > 1_100_000 && expected < 1_120_000);
    let t = accumulate(&kept);
    assert_eq!(t.distance_mm, expected);
    assert_eq!(t.uphill_mm, 50_000);
    assert_eq!(t.downhill_mm, 0);
    assert_eq!(t.profile, vec![s(0, 100_000), s(expected, 150_000)]);
}

#[test]
fn flat_triangle_is_removed() {
    let p = vec![s(0, 0), s(10_000, 5_000), s(20_000, 0)];
    // the triangle's area is 50 square metres
    let r = simplify(&p, 50_000_001);
    assert_eq!(r, vec![s(0, 0), s(20_000, 0)]);
    assert_eq!(climb(&r), (0, 0));
    assert_eq!(simplify(&p, 50_000_000), vec![s(0, 0), s(20_000, 0)]);
    assert_eq!(simplify(&p, 49_999_999), p);
}

#[test]
fn tall_triangle_is_kept() {
    let p = vec![s(0, 0), s(10_000, 50_000), s(20_000, 0)];
    let r = simplify(&p, 10_000_000);
    assert_eq!(r, p);
    assert_eq!(climb(&r), (50_000, 50_000));
}

#[test]
fn zero_tolerance_keeps_everything() {
    let p = vec![s(0, 0), s(1, 0), s(2, 0), s(3, 0)];
    assert_eq!(simplify(&p, 0), p);
    assert_eq!(simplify(&p, 1), vec![s(0, 0), s(3, 0)]);
}

#[test]
fn track_without_elevation() {
    let seg = vec![wp(45.0, 6.0, None), wp(45.001, 6.0, None), wp(45.002, 6.0, None)];
    let kept = filter_with_geo(Thresholds::standard(), &[seg.clone()]);
    assert_eq!(kept.len(), 3);
    let (info, simple) =
        parse(no_meta(), no_meta(), &kept, None, Tolerance::Derived(DEFAULT_EPSILON_BASE_MM))
            .unwrap();
    assert!(info.profile.is_empty());
    assert!(simple.is_empty());
    assert_eq!(info.uphill_mm, 0);
    assert_eq!(info.downhill_mm, 0);
    assert_eq!(info.simplified_uphill_mm, 0);
    assert_eq!(info.simplified_downhill_mm, 0);
    let d = geodesic_mm(&seg[0], &seg[1]) + geodesic_mm(&seg[1], &seg[2]);
    assert_eq!(info.distance_mm, d);
    assert!(info.distance_mm > 200_000);
}

#[test]
fn missing_location_leaves_other_fields() {
    let seg = vec![wp(45.0, 6.0, Some(1000)), wp(45.001, 6.0, Some(1010)), wp(45.002, 6.0, Some(1005))];
    let kept = filter_with_geo(Thresholds::standard(), &[seg]);
    let meta = || Metadata { name: Some("Ride".to_string()), description: None };
    let (a, sa) = parse(meta(), no_meta(), &kept, None, Tolerance::Fixed(1)).unwrap();
    let (b, sb) =
        parse(meta(), no_meta(), &kept, Some("Here".to_string()), Tolerance::Fixed(1)).unwrap();
    assert_eq!(a.location, None);
    assert_eq!(b.location, Some("Here".to_string()));
    assert_eq!(a.name, b.name);
    assert_eq!(a.description, b.description);
    assert_eq!(a.datetime, b.datetime);
    assert_eq!(a.distance_mm, b.distance_mm);
    assert_eq!(a.uphill_mm, b.uphill_mm);
    assert_eq!(a.downhill_mm, b.downhill_mm);
    assert_eq!(a.profile, b.profile);
    assert_eq!(sa, sb);
    assert_eq!(a.uphill_mm, 10_000);
    assert_eq!(a.downhill_mm, 5_000);
}

#[test]
fn filtering_its_own_output_changes_nothing() {
    let th = Thresholds::new(100, 50).unwrap();
    let mut seg = Vec::new();
    let lats = [0, 30, 60, 150, 160, 170, 400, 401, 402, 700];
    let elevs = [0, 10, 70, 70, 0, 0, 0, 100, 120, 120];
    for i in 0..lats.len() {
        seg.push(Waypoint { lat_e7: lats[i], lon_e7: 0, elevation_mm: Some(elevs[i]), time: None });
    }
    let once = filter_linear(th, &seg);
    assert!(once.len() < seg.len());
    let twice = filter_linear(th, &once);
    assert_eq!(once, twice);
}

#[test]
fn profile_distance_never_decreases() {
    let a = vec![wp(45.0, 6.0, Some(100)), wp(45.0, 6.0001, None), wp(45.0, 6.001, Some(120))];
    let b = vec![wp(45.1, 6.0, Some(90)), wp(45.1, 6.002, Some(95)), wp(45.1, 6.003, Some(80))];
    let kept = filter_with_geo(Thresholds::standard(), &[a, b]);
    let t = accumulate(&kept);
    assert_eq!(t.profile.len(), 5);
    for w in t.profile.windows(2) {
        assert!(w[0].distance_mm <= w[1].distance_mm);
    }
    assert!(t.profile.last().unwrap().distance_mm <= t.distance_mm);
    // no climb is counted across the gap between the two segments
    // the waypoint without elevation breaks the first climb
    assert_eq!(t.uphill_mm, 5_000);
    assert_eq!(t.downhill_mm, 15_000);
}

#[test]
fn legs_restart_at_each_segment() {
    let p = |e: i32| Waypoint { lat_e7: 0, lon_e7: 0, elevation_mm: Some(e), time: None };
    let kept = vec![
        KeptPoint { point: p(0), leg_mm: 0, opens_segment: true },
        KeptPoint { point: p(500), leg_mm: 10, opens_segment: false },
        KeptPoint { point: p(9_000), leg_mm: 0, opens_segment: true },
        KeptPoint { point: p(8_000), leg_mm: 7, opens_segment: false },
    ];
    let t = accumulate(&kept);
    assert_eq!(t.distance_mm, 17);
    assert_eq!(t.uphill_mm, 500);
    assert_eq!(t.downhill_mm, 1_000);
    assert_eq!(t.profile, vec![s(0, 0), s(10, 500), s(10, 9_000), s(17, 8_000)]);
}

#[test]
fn climb_balances_to_net_change() {
    let p = vec![s(0, 120), s(5, 300), s(9, -40), s(20, 75), s(30, 75), s(31, 500)];
    let (up, down) = climb(&p);
    assert_eq!(up, 180 + 115 + 425);
    assert_eq!(down, 340);
    assert_eq!(up as i128 - down as i128, 500 - 120);
    assert_eq!(climb(&Vec::new()), (0, 0));
    assert_eq!(climb(&vec![s(4, 4)]), (0, 0));
}

fn wavy() -> Vec<Sample> {
    let ys = [0, 3_000, 1_000, 8_000, 7_500, 12_000, 2_000, 2_500, 0, 6_000];
    ys.iter().enumerate().map(|(i, y)| s(i as u64 * 10_000, *y)).collect()
}

#[test]
fn simplification_keeps_ends() {
    let p = wavy();
    for eps in [1u128, 1_000_000, 10_000_000, 50_000_000, 1_000_000_000_000] {
        let r = simplify(&p, eps);
        assert!(r.len() <= p.len());
        assert_eq!(r[0], p[0]);
        assert_eq!(r[r.len() - 1], p[p.len() - 1]);
    }
    assert_eq!(simplify(&p, 1_000_000_000_000), vec![p[0], p[9]]);
    assert_eq!(simplify(&Vec::new(), 5), Vec::<Sample>::new());
    assert_eq!(simplify(&vec![s(1, 1)], 5), vec![s(1, 1)]);
}

#[test]
fn larger_tolerance_keeps_fewer() {
    let p = wavy();
    let mut last = p.len();
    for eps in [0u128, 1_000_000, 5_000_000, 10_000_000, 20_000_000, 40_000_000, 80_000_000, 1 << 100] {
        let n = simplify(&p, eps).len();
        assert!(n <= last);
        last = n;
    }
    assert_eq!(last, 2);
}

#[test]
fn derived_tolerance_values() {
    assert_eq!(derived_epsilon(5_000, 100_000, 10_000_000), Some(250_000));
    assert_eq!(derived_epsilon(5_000, 7, 3), Some(58_333_333));
    assert_eq!(derived_epsilon(5_000, 100_000, 0), None);
    assert_eq!(derived_epsilon(u32::MAX, u128::MAX, 1), None);
    assert_eq!(resolve_tolerance(Tolerance::Fixed(42), 1, 1), 42);
    assert_eq!(resolve_tolerance(Tolerance::Derived(5_000), 100_000, 0), 0);
    assert_eq!(resolve_tolerance(Tolerance::Derived(5_000), 100_000, 10_000_000), 250_000);
}

#[test]
fn negative_thresholds_are_rejected() {
    assert_eq!(Thresholds::new(-1, 5), Err(ConfigError::NegativeDistanceThreshold));
    assert_eq!(Thresholds::new(-1, -5), Err(ConfigError::NegativeDistanceThreshold));
    assert_eq!(Thresholds::new(1, -5), Err(ConfigError::NegativeElevationThreshold));
    assert_eq!(Thresholds::new(0, 0), Ok(Thresholds { distance_mm: 0, elevation_mm: 0 }));
}

#[test]
fn descent_counts_as_elevation_change() {
    let th = Thresholds::standard();
    let a = wp(0.0, 0.0, Some(100));
    let down = wp(0.0, 0.0, Some(96));
    let small = wp(0.0, 0.0, Some(98));
    assert!(keep_candidate(&th, &a, &down, 0));
    assert!(!keep_candidate(&th, &a, &small, 0));
    assert!(!keep_candidate(&th, &a, &small, 3000));
    assert!(keep_candidate(&th, &a, &small, 3001));
    assert!(!keep_candidate(&th, &a, &wp(0.0, 0.0, None), 10));
}

#[test]
fn location_line_skips_empty_fields() {
    let parts = vec![
        "\"Tour Eiffel\"".to_string(),
        "\"\"".to_string(),
        "\"Paris\"".to_string(),
        "\"France\"".to_string(),
    ];
    assert_eq!(format_location(&parts), "Tour Eiffel, Paris, France");
    assert_eq!(format_location(&vec!["\"\"".to_string(), String::new()]), "");
    assert_eq!(format_location(&vec!["12".to_string(), "x\"y".to_string()]), "12, xy");
}

#[test]
fn start_time_is_first_present() {
    let mut a = wp(0.0, 0.0, None);
    let mut b = wp(0.0, 0.0, None);
    let c = wp(0.0, 0.0, None);
    a.time = None;
    b.time = Some(UtcTime { seconds: 1_600_000_000, nanos: 5 });
    let kept: Vec<KeptPoint> = [a, b, c]
        .iter()
        .map(|p| KeptPoint { point: *p, leg_mm: 0, opens_segment: false })
        .collect();
    assert_eq!(start_time(&kept), Some(UtcTime { seconds: 1_600_000_000, nanos: 5 }));
    assert_eq!(start_time(&kept[..1].to_vec()), None);
}

#[test]
fn file_level_metadata_wins() {
    let kept = vec![KeptPoint { point: wp(0.0, 0.0, Some(1)), leg_mm: 0, opens_segment: true }];
    let file = Metadata { name: Some("File".to_string()), description: None };
    let track = Metadata { name: Some("Track".to_string()), description: Some("Desc".to_string()) };
    let (info, _) = parse(file, track, &kept, None, Tolerance::Fixed(0)).unwrap();
    assert_eq!(info.name, Some("File".to_string()));
    assert_eq!(info.description, Some("Desc".to_string()));
}

#[test]
fn empty_track_is_an_error() {
    let r = parse(no_meta(), no_meta(), &Vec::new(), None, Tolerance::Fixed(0));
    assert!(matches!(r, Err(TrackError::NoWaypoints)));
    let kept = vec![
        KeptPoint { point: wp(0.0, 0.0, None), leg_mm: u64::MAX, opens_segment: true },
        KeptPoint { point: wp(0.0, 0.0, None), leg_mm: 1, opens_segment: false },
    ];
    let r = parse(no_meta(), no_meta(), &kept, None, Tolerance::Fixed(0));
    assert!(matches!(r, Err(TrackError::DistanceOverflow)));
}

#[test]
fn canvas_mapping() {
    assert_eq!(to_canvas(s(3_000, 1_500)), CanvasPoint { x: 3_000, y: 998_500 });
    assert_eq!(to_canvas(s(8_999, -1_500)), CanvasPoint { x: 8_999, y: 1_001_500 });
    // one metre travelled is a third of a pixel
    assert_eq!(to_canvas(s(1_000, 0)).x as f64 / X_UNITS_PER_PIXEL as f64, 1.0 / 3.0);
    // a higher sample draws higher
    assert!(to_canvas(s(0, 1_500)).y < to_canvas(s(0, 1_200)).y);
    let d = plan_drawing(&vec![s(0, 0), s(6_000, 2_000), s(9_000, 0)], 9_000);
    assert_eq!(d.width_px, 3);
    assert_eq!(d.height_px, CANVAS_HEIGHT_PX);
    assert_eq!(d.strokes.len(), 2);
    assert_eq!(d.strokes[0].from, CanvasPoint { x: 0, y: 1_000_000 });
    assert_eq!(d.strokes[0].to, CanvasPoint { x: 6_000, y: 998_000 });
    assert_eq!(d.strokes[1].from, CanvasPoint { x: 6_000, y: 998_000 });
    assert_eq!(d.strokes[1].to, CanvasPoint { x: 9_000, y: 1_000_000 });
    assert_eq!(d.strokes[1].to.y as f64 / Y_UNITS_PER_PIXEL as f64, 1000.0);
    assert!(plan_drawing(&Vec::new(), 0).strokes.is_empty());
}

#[test]
fn simplified_climb_differs_from_raw() {
    let p = |e: i32| Waypoint { lat_e7: 0, lon_e7: 0, elevation_mm: Some(e), time: None };
    let kept = vec![
        KeptPoint { point: p(0), leg_mm: 0, opens_segment: true },
        KeptPoint { point: p(1_000), leg_mm: 10_000, opens_segment: false },
        KeptPoint { point: p(0), leg_mm: 10_000, opens_segment: false },
    ];
    let (info, simple) = parse(no_meta(), no_meta(), &kept, None, Tolerance::Fixed(100_000_000)).unwrap();
    assert_eq!(info.uphill_mm, 1_000);
    assert_eq!(info.downhill_mm, 1_000);
    assert_eq!(simple, vec![s(0, 0), s(20_000, 0)]);
    assert_eq!(info.simplified_uphill_mm, 0);
    assert_eq!(info.simplified_downhill_mm, 0);
}
