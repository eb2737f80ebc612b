//! Trip statistics for recorded GPS tracks: noise filtering of waypoints,
//! distance and climb accumulation, elevation-profile simplification and the
//! assembly of a track summary.
//!
//! All quantities are integers: positions in units of 1e-7 degree, distances
//! and elevations in millimetres, areas in square millimetres.

mod accumulate;
mod profile;
mod render;
mod simplify;
mod summary;
mod track;

pub use accumulate::{accumulate, KeptPoint, Totals, TrackFilter};
pub use profile::{climb, Sample};
pub use render::{
    plan_drawing, to_canvas, CanvasPoint, Drawing, Stroke, CANVAS_HEIGHT_PX, MM_PER_PIXEL,
    X_UNITS_PER_PIXEL, Y_UNITS_PER_PIXEL,
};
pub use simplify::{derived_epsilon, simplify, triangle_twice_area, DEFAULT_EPSILON_BASE_MM};
pub use summary::{
    checked_total_distance, format_location, merge_field, parse, resolve_tolerance, start_time,
    GpxInfo, Metadata, Tolerance, TrackError,
};
pub use track::{
    keep_candidate, ConfigError, Thresholds, UtcTime, Waypoint, DEFAULT_DISTANCE_THRESHOLD_MM,
    DEFAULT_ELEVATION_THRESHOLD_MM,
};
