//! The geometry algebra on concrete shapes: start and end points, point
//! flattening, bounding boxes.

use expedition::geom::Feature;
use expedition::geom::FeatureCollection;
use expedition::geom::GeoJson;
use expedition::geom::Geometry;
use expedition::geom::TrackPoint;
use expedition::geom::Value;
use expedition::ride_geo::BoundingBox;
use expedition::ride_geo::EndPoint;
use expedition::ride_geo::Points;
use expedition::ride_geo::StartPoint;

fn p(x: i64, y: i64) -> TrackPoint {
    TrackPoint { x, y }
}

fn geom(value: Value) -> Geometry {
    Geometry { bbox: None, value }
}

#[test]
fn point_start_and_end_is_itself() {
    let v = Value::Point(p(10, 20));
    assert_eq!(v.start_point(), Some(p(10, 20)));
    assert_eq!(v.end_point(), Some(p(10, 20)));
    assert_eq!(v.points(), vec![p(10, 20)]);
}

#[test]
fn multipoint_first_and_last() {
    let v = Value::MultiPoint(vec![p(1, 1), p(2, 2), p(3, 3)]);
    assert_eq!(v.start_point(), Some(p(1, 1)));
    assert_eq!(v.end_point(), Some(p(3, 3)));
    let empty = Value::MultiPoint(vec![]);
    assert_eq!(empty.start_point(), None);
    assert_eq!(empty.end_point(), None);
}

#[test]
fn linestring_first_and_last_coordinate() {
    let v = Value::LineString(vec![p(0, 0), p(5, 5), p(9, 9)]);
    assert_eq!(v.start_point(), Some(p(0, 0)));
    assert_eq!(v.end_point(), Some(p(9, 9)));
}

#[test]
fn multilinestring_uses_first_and_last_subline() {
    let v = Value::MultiLineString(vec![
        vec![p(1, 1), p(2, 2)],
        vec![p(3, 3), p(4, 4)],
    ]);
    assert_eq!(v.start_point(), Some(p(1, 1)));
    assert_eq!(v.end_point(), Some(p(4, 4)));
    // An empty first sub-line yields no start point even when a later
    // sub-line has points.
    let v2 = Value::MultiLineString(vec![vec![], vec![p(3, 3)]]);
    assert_eq!(v2.start_point(), None);
    assert_eq!(v2.end_point(), Some(p(3, 3)));
}

#[test]
fn polygons_have_no_start_or_end_point() {
    let ring = vec![p(0, 0), p(0, 10), p(10, 10), p(0, 0)];
    let poly = Value::Polygon(vec![ring.clone()]);
    assert_eq!(poly.start_point(), None);
    assert_eq!(poly.end_point(), None);
    assert_eq!(poly.points(), Vec::<TrackPoint>::new());
    let mp = Value::MultiPolygon(vec![vec![ring]]);
    assert_eq!(mp.start_point(), None);
    assert_eq!(mp.end_point(), None);
    assert_eq!(mp.points(), Vec::<TrackPoint>::new());
}

#[test]
fn collection_delegates_to_first_and_last_child() {
    let v = Value::GeometryCollection(vec![
        geom(Value::LineString(vec![p(1, 1), p(2, 2)])),
        geom(Value::Point(p(7, 7))),
    ]);
    assert_eq!(v.start_point(), Some(p(1, 1)));
    assert_eq!(v.end_point(), Some(p(7, 7)));
    let empty = Value::GeometryCollection(vec![]);
    assert_eq!(empty.start_point(), None);
    assert_eq!(empty.end_point(), None);
}

#[test]
fn nested_collection_delegation_is_recursive() {
    let inner = Value::GeometryCollection(vec![geom(Value::LineString(vec![
        p(5, 5),
        p(6, 6),
    ]))]);
    let v = Value::GeometryCollection(vec![geom(inner), geom(Value::Point(p(9, 9)))]);
    assert_eq!(v.start_point(), Some(p(5, 5)));
    assert_eq!(v.end_point(), Some(p(9, 9)));
}

#[test]
fn points_flattens_depth_first_without_polygons() {
    let v = Value::GeometryCollection(vec![
        geom(Value::LineString(vec![p(1, 1), p(2, 2)])),
        geom(Value::Polygon(vec![vec![p(100, 100)]])),
        geom(Value::MultiLineString(vec![vec![p(3, 3)], vec![p(4, 4)]])),
    ]);
    assert_eq!(v.points(), vec![p(1, 1), p(2, 2), p(3, 3), p(4, 4)]);
}

#[test]
fn feature_collection_start_is_first_feature_end_is_last() {
    let fc = FeatureCollection {
        bbox: None,
        features: vec![
            Feature {
                bbox: None,
                geometry: Some(geom(Value::LineString(vec![p(1, 1), p(2, 2)]))),
                id: None,
                properties: None,
            },
            Feature {
                bbox: None,
                geometry: Some(geom(Value::LineString(vec![p(3, 3), p(4, 4)]))),
                id: None,
                properties: None,
            },
        ],
    };
    assert_eq!(fc.start_point(), Some(p(1, 1)));
    assert_eq!(fc.end_point(), Some(p(4, 4)));
    assert_eq!(fc.points(), vec![p(1, 1), p(2, 2), p(3, 3), p(4, 4)]);
    let gj = GeoJson::FeatureCollection(fc);
    assert_eq!(gj.start_point(), Some(p(1, 1)));
    assert_eq!(gj.end_point(), Some(p(4, 4)));
}

#[test]
fn feature_without_geometry_has_nothing() {
    let f = Feature { bbox: None, geometry: None, id: None, properties: None };
    assert_eq!(f.start_point(), None);
    assert_eq!(f.end_point(), None);
    assert_eq!(f.points(), Vec::<TrackPoint>::new());
}

#[test]
fn bounding_box_scans_every_coordinate() {
    let v = Value::LineString(vec![p(3, -5), p(-2, 8), p(7, 0)]);
    assert_eq!(v.bounding_box(), Some(vec![-2, -5, 7, 8]));
    let empty = Value::LineString(vec![]);
    assert_eq!(empty.bounding_box(), None);
}

#[test]
fn bounding_box_includes_polygon_rings() {
    let v = Value::GeometryCollection(vec![
        geom(Value::Point(p(0, 0))),
        geom(Value::Polygon(vec![vec![p(-10, 30), p(20, -40)]])),
    ]);
    assert_eq!(v.bounding_box(), Some(vec![-10, -40, 20, 30]));
}

#[test]
fn collection_bounding_box_contains_member_boxes() {
    let a = geom(Value::LineString(vec![p(0, 0), p(10, 10)]));
    let b = geom(Value::LineString(vec![p(-5, 3), p(2, 20)]));
    let ba = a.bounding_box().unwrap();
    let bb = b.bounding_box().unwrap();
    let both = Value::GeometryCollection(vec![a, b]);
    let bc = both.bounding_box().unwrap();
    // The combined box contains each member's box.
    for member in [&ba, &bb] {
        assert!(bc[0] <= member[0]);
        assert!(bc[1] <= member[1]);
        assert!(bc[2] >= member[2]);
        assert!(bc[3] >= member[3]);
    }
    assert_eq!(bc, vec![-5, 0, 10, 20]);
}
