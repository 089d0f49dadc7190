//! The distance engine: pair enumeration, result summing, and agreement
//! with the geodesic collaborator.

use expedition::distance::Distance;
use expedition::distance::PointPair;
use expedition::distance::sum_distances;
use expedition::geom::Feature;
use expedition::geom::FeatureCollection;
use expedition::geom::Geometry;
use expedition::geom::TrackPoint;
use expedition::geom::Value;

use geo::VincentyDistance;

fn p(x: i64, y: i64) -> TrackPoint {
    TrackPoint { x, y }
}

fn geom(value: Value) -> Geometry {
    Geometry { bbox: None, value }
}

/// The geodesic distance of one pair in millimetres, as the application
/// computes it: fixed-point degrees scaled by 10^7, Vincenty on the
/// ellipsoid, `None` where the iteration does not converge.
fn vincenty_mm(pair: &PointPair) -> Option<u64> {
    let a = geo_types::Point::new(pair.a.x as f64 / 1e7, pair.a.y as f64 / 1e7);
    let b = geo_types::Point::new(pair.b.x as f64 / 1e7, pair.b.y as f64 / 1e7);
    match a.vincenty_distance(&b) {
        Ok(meters) => Some((meters * 1000.0) as u64),
        Err(_) => None,
    }
}

fn distance_of(v: &Value) -> u128 {
    let pairs = v.distance_pairs();
    let ds: Vec<Option<u64>> = pairs.iter().map(vincenty_mm).collect();
    sum_distances(&ds)
}

#[test]
fn linestring_pairs_are_consecutive_couples() {
    let v = Value::LineString(vec![p(1, 1), p(2, 2), p(3, 3)]);
    let pairs = v.distance_pairs();
    assert_eq!(pairs.len(), 2);
    assert_eq!(pairs[0], PointPair { a: p(1, 1), b: p(2, 2) });
    assert_eq!(pairs[1], PointPair { a: p(2, 2), b: p(3, 3) });
}

#[test]
fn single_point_shapes_have_no_pairs() {
    assert_eq!(Value::Point(p(1, 1)).distance_pairs().len(), 0);
    assert_eq!(Value::LineString(vec![p(1, 1)]).distance_pairs().len(), 0);
    assert_eq!(Value::MultiPoint(vec![p(1, 1)]).distance_pairs().len(), 0);
}

#[test]
fn multipoint_distance_is_pairwise_like_a_line() {
    let pts = vec![p(0, 0), p(0, 10_000), p(0, 20_000)];
    let as_line = distance_of(&Value::LineString(pts.clone()));
    let as_multipoint = distance_of(&Value::MultiPoint(pts));
    assert!(as_line > 0);
    assert_eq!(as_multipoint, as_line);
}

#[test]
fn multilinestring_pairs_do_not_cross_sublines() {
    let v = Value::MultiLineString(vec![
        vec![p(1, 1), p(2, 2)],
        vec![p(9, 9), p(8, 8)],
    ]);
    let pairs = v.distance_pairs();
    // No pair joins (2,2) to (9,9): the sub-lines are not connected.
    assert_eq!(pairs.len(), 2);
    assert_eq!(pairs[0], PointPair { a: p(1, 1), b: p(2, 2) });
    assert_eq!(pairs[1], PointPair { a: p(9, 9), b: p(8, 8) });
}

#[test]
fn polygons_contribute_zero_distance() {
    let ring = vec![p(0, 0), p(0, 1000000), p(1000000, 0), p(0, 0)];
    let poly = Value::Polygon(vec![ring.clone()]);
    assert_eq!(poly.distance_pairs().len(), 0);
    assert_eq!(distance_of(&poly), 0);
    let mp = Value::MultiPolygon(vec![vec![ring]]);
    assert_eq!(distance_of(&mp), 0);
}

#[test]
fn sum_skips_failed_pairs() {
    let ds = vec![Some(5u64), None, Some(7u64), None];
    assert_eq!(sum_distances(&ds), 12);
    assert_eq!(sum_distances(&Vec::new()), 0);
}

#[test]
fn linestring_distance_matches_direct_geodesic_sum() {
    // One degree of longitude apart on the equator, in two steps.
    let v = Value::LineString(vec![p(0, 0), p(5_000_000, 0), p(10_000_000, 0)]);
    let total = distance_of(&v);
    let d1 = vincenty_mm(&PointPair { a: p(0, 0), b: p(5_000_000, 0) }).unwrap();
    let d2 = vincenty_mm(&PointPair { a: p(5_000_000, 0), b: p(10_000_000, 0) }).unwrap();
    assert!(total > 0);
    assert_eq!(total, d1 as u128 + d2 as u128);
    // Half a degree of longitude at the equator is roughly 55.7 km.
    assert!((total as i64 - 2 * d1 as i64).abs() <= 2);
    assert!(d1 > 55_000_000 && d1 < 56_000_000);
}

#[test]
fn collection_distance_sums_children() {
    let a = Value::LineString(vec![p(0, 0), p(0, 10_000)]);
    let b = Value::LineString(vec![p(0, 20_000), p(0, 40_000)]);
    let da = distance_of(&a);
    let db = distance_of(&b);
    let coll = Value::GeometryCollection(vec![
        geom(Value::LineString(vec![p(0, 0), p(0, 10_000)])),
        geom(Value::LineString(vec![p(0, 20_000), p(0, 40_000)])),
    ]);
    assert_eq!(distance_of(&coll), da + db);
}

#[test]
fn feature_collection_distance_sums_features() {
    let line = vec![p(0, 0), p(0, 100_000)];
    let f = |v: Value| Feature { bbox: None, geometry: Some(geom(v)), id: None, properties: None };
    let fc = FeatureCollection {
        bbox: None,
        features: vec![
            f(Value::LineString(line.clone())),
            Feature { bbox: None, geometry: None, id: None, properties: None },
            f(Value::LineString(line.clone())),
        ],
    };
    let single = distance_of(&Value::LineString(line));
    let pairs = fc.distance_pairs();
    let ds: Vec<Option<u64>> = pairs.iter().map(vincenty_mm).collect();
    assert_eq!(sum_distances(&ds), 2 * single);
}

#[test]
fn antipodal_pair_is_excluded_not_fatal() {
    // Near-antipodal points make Vincenty fail to converge; the pair is
    // dropped from the sum rather than failing the computation.
    let near = vincenty_mm(&PointPair { a: p(0, 0), b: p(1_799_999_990, 0) });
    assert_eq!(near, None);
    let v = Value::LineString(vec![p(0, 0), p(1_799_999_990, 0), p(1_799_999_990, 10_000)]);
    let last_leg = vincenty_mm(&PointPair {
        a: p(1_799_999_990, 0),
        b: p(1_799_999_990, 10_000),
    })
    .unwrap();
    assert_eq!(distance_of(&v), last_leg as u128);
}
