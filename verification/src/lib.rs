//! Core engine of a GPS track service: a geometry algebra over a recursive
//! geometry tree (point flattening, start/end extraction, bounding boxes),
//! a distance engine, a way segmenter that groups classified track points
//! into named road segments, and the builders that assemble the enriched
//! ride records.
//!
//! Coordinates are held in fixed-point: degrees scaled by 10^7, as `i64`;
//! distances are whole millimetres. The geodesic distance of a single
//! coordinate pair is floating-point work done by an outside collaborator,
//! so this crate never computes it: the distance engine enumerates the
//! consecutive pairs a shape's distance is made of, the caller computes
//! one geodesic per pair, and the engine folds the results back into
//! totals. Everything in this crate is verified.

pub mod distance;
pub mod geom;
pub mod import;
pub mod nominatim;
pub mod ride;
pub mod ride_geo;
pub mod ride_processing;
pub mod ways;
