//! The feature collection builder, track import, ride naming, and the
//! processing helpers for stored rides.

use expedition::distance::Distance;
use expedition::geom::Feature;
use expedition::geom::FeatureCollection;
use expedition::geom::FeatureProperties;
use expedition::geom::GeoJson;
use expedition::geom::Geometry;
use expedition::geom::TrackPoint;
use expedition::geom::Value;
use expedition::import::NameError;
use expedition::import::Track;
use expedition::import::ride_name;
use expedition::import::track_feature;
use expedition::import::tracks_feature_collection;
use expedition::ride::RideError;
use expedition::ride::create_ride;
use expedition::ride::feature_point;
use expedition::ride::prepare_ride;
use expedition::ride::QueryRide;
use expedition::ride_processing::MatrixError;
use expedition::ride_processing::aggregate_surface;
use expedition::ride_processing::matrix_durations;
use expedition::ride_processing::process_ride;
use expedition::ride_processing::ride_endpoints;
use expedition::nominatim::Address;

fn p(x: i64, y: i64) -> TrackPoint {
    TrackPoint { x, y }
}

fn geom(value: Value) -> Geometry {
    Geometry { bbox: None, value }
}

fn named_feature(name: &str, v: Value) -> Feature {
    Feature {
        bbox: None,
        geometry: Some(geom(v)),
        id: None,
        properties: Some(FeatureProperties { distance: 0, name: Some(String::from(name)) }),
    }
}

fn address() -> Address {
    Address {
        road: String::from("High Street"),
        tourism: None,
        amenity: None,
        suburb: None,
        hamlet: None,
        town: None,
        city: None,
        municipality: None,
        state: String::from("State"),
        iso3166_2_lvl4: String::from("XX-YY"),
        postcode: None,
        country: String::from("Country"),
        country_code: String::from("xx"),
    }
}

#[test]
fn feature_point_is_a_bare_labelled_point() {
    let f = feature_point(String::from("start"), &p(3, 4));
    assert_eq!(f.id, Some(String::from("start")));
    assert!(f.bbox.is_none());
    assert!(f.properties.is_none());
    match f.geometry {
        Some(g) => match g.value {
            Value::Point(pt) => assert_eq!(pt, p(3, 4)),
            _ => panic!("expected a point geometry"),
        },
        None => panic!("expected a geometry"),
    }
}

#[test]
fn prepare_ride_appends_start_and_end_and_keeps_distance() {
    let fc = FeatureCollection {
        bbox: None,
        features: vec![named_feature("ride", Value::LineString(vec![p(1, 1), p(2, 2), p(3, 3)]))],
    };
    let n_pairs = fc.distance_pairs().len();
    assert_eq!(n_pairs, 2);
    let ds = vec![Some(40u64), Some(60u64)];
    let draft = prepare_ride(String::from("morning loop"), fc, &ds).unwrap();
    assert_eq!(draft.name, "morning loop");
    assert_eq!(draft.total_distance, 100);
    assert_eq!(draft.features.features.len(), 3);
    assert_eq!(draft.features.features[1].id, Some(String::from("start")));
    assert_eq!(draft.features.features[2].id, Some(String::from("end")));
    // The synthetic features add no pairs: the distance is over the
    // pre-existing features only, and the route gains the two synthetic
    // points at its end.
    assert_eq!(draft.features.distance_pairs().len(), 2);
    assert_eq!(draft.route, vec![p(1, 1), p(2, 2), p(3, 3), p(1, 1), p(3, 3)]);
    let ride = create_ride(draft, Vec::new());
    assert!(ride.id.is_none());
    assert_eq!(ride.name, "morning loop");
    assert_eq!(ride.total_distance, 100);
    assert!(ride.ways.is_empty());
    match ride.geo_json {
        GeoJson::FeatureCollection(fc2) => assert_eq!(fc2.features.len(), 3),
        _ => panic!("expected a feature collection"),
    }
}

#[test]
fn prepare_ride_rejects_collections_without_endpoints() {
    let empty = FeatureCollection { bbox: None, features: vec![] };
    assert!(matches!(prepare_ride(String::new(), empty, &vec![]), Err(RideError::NoStartPoint)));

    let polygon_only = FeatureCollection {
        bbox: None,
        features: vec![named_feature("area", Value::Polygon(vec![vec![p(0, 0), p(1, 1)]]))],
    };
    assert!(matches!(
        prepare_ride(String::new(), polygon_only, &vec![]),
        Err(RideError::NoStartPoint)
    ));

    // A line first and a polygon last: a start exists, an end does not.
    let line_then_polygon = FeatureCollection {
        bbox: None,
        features: vec![
            named_feature("ride", Value::LineString(vec![p(0, 0), p(1, 1)])),
            named_feature("area", Value::Polygon(vec![vec![p(0, 0), p(1, 1)]])),
        ],
    };
    let ds = vec![Some(1u64)];
    assert!(matches!(
        prepare_ride(String::new(), line_then_polygon, &ds),
        Err(RideError::NoEndPoint)
    ));
}

#[test]
fn track_feature_drops_empty_tracks() {
    let empty = Track { name: Some(String::from("ghost")), lines: vec![vec![], vec![]] };
    assert!(track_feature(empty, &vec![]).is_none());
}

#[test]
fn track_feature_carries_geometry_bbox_and_distance() {
    let track = Track {
        name: Some(String::from("stage")),
        lines: vec![vec![p(3, -5), p(-2, 8)], vec![p(7, 0)]],
    };
    let ds = vec![Some(500u64)];
    let f = track_feature(track, &ds).unwrap();
    assert_eq!(f.bbox, Some(vec![-2, -5, 7, 8]));
    assert!(f.id.is_none());
    match &f.geometry {
        Some(g) => {
            assert_eq!(g.bbox, Some(vec![-2, -5, 7, 8]));
            match &g.value {
                Value::MultiLineString(lines) => assert_eq!(lines.len(), 2),
                _ => panic!("expected a multi line string"),
            }
        },
        None => panic!("expected a geometry"),
    }
    let props = f.properties.unwrap();
    assert_eq!(props.distance, 500);
    assert_eq!(props.name, Some(String::from("stage")));
}

#[test]
fn tracks_feature_collection_keeps_file_order_and_drops_empties() {
    let tracks = vec![
        Track { name: Some(String::from("one")), lines: vec![vec![p(0, 0), p(1, 1)]] },
        Track { name: Some(String::from("hollow")), lines: vec![] },
        Track { name: Some(String::from("two")), lines: vec![vec![p(2, 2), p(3, 3)]] },
    ];
    let ds = vec![vec![Some(10u64)], vec![], vec![Some(20u64)]];
    let fc = tracks_feature_collection(tracks, &ds);
    assert_eq!(fc.features.len(), 2);
    let names: Vec<Option<String>> =
        fc.features.iter().map(|f| f.properties.as_ref().unwrap().name.clone()).collect();
    assert_eq!(names, vec![Some(String::from("one")), Some(String::from("two"))]);
    assert_eq!(fc.features[0].properties.as_ref().unwrap().distance, 10);
    assert_eq!(fc.features[1].properties.as_ref().unwrap().distance, 20);
}

#[test]
fn ride_name_joins_feature_names() {
    let fc = FeatureCollection {
        bbox: None,
        features: vec![
            named_feature("out", Value::Point(p(0, 0))),
            named_feature("back", Value::Point(p(1, 1))),
        ],
    };
    assert_eq!(ride_name(&fc).unwrap(), "out / back");
    let single = FeatureCollection {
        bbox: None,
        features: vec![named_feature("solo", Value::Point(p(0, 0)))],
    };
    assert_eq!(ride_name(&single).unwrap(), "solo");
    let none = FeatureCollection { bbox: None, features: vec![] };
    assert_eq!(ride_name(&none).unwrap(), "");
}

#[test]
fn ride_name_requires_every_feature_named() {
    let fc = FeatureCollection {
        bbox: None,
        features: vec![
            named_feature("out", Value::Point(p(0, 0))),
            Feature { bbox: None, geometry: None, id: None, properties: None },
        ],
    };
    assert!(matches!(ride_name(&fc), Err(NameError::UnnamedFeature)));
}

fn query_ride(start: Option<TrackPoint>, end: Option<TrackPoint>) -> QueryRide {
    QueryRide {
        id: 11,
        name: String::from("stored"),
        total_distance: 4242,
        geo_json: None,
        ways: None,
        start_point: start,
        end_point: end,
    }
}

#[test]
fn ride_endpoints_reports_what_is_missing() {
    assert_eq!(ride_endpoints(&query_ride(Some(p(1, 1)), Some(p(2, 2)))).unwrap(), (p(1, 1), p(2, 2)));
    assert!(matches!(ride_endpoints(&query_ride(None, Some(p(2, 2)))), Err(RideError::NoStartPoint)));
    assert!(matches!(ride_endpoints(&query_ride(Some(p(1, 1)), None)), Err(RideError::NoEndPoint)));
}

#[test]
fn process_ride_assembles_the_record() {
    let ride = query_ride(Some(p(1, 1)), Some(p(2, 2)));
    let r = process_ride(ride, p(1, 1), p(2, 2), address(), address(), Some((120, 340)));
    assert_eq!(r.id, 11);
    assert_eq!(r.name, "stored");
    assert_eq!(r.total_distance, 4242);
    assert_eq!(r.start_point, p(1, 1));
    assert_eq!(r.end_point, p(2, 2));
    assert_eq!(r.time_from_origin_to_start, Some(120));
    assert_eq!(r.time_from_end_to_origin, Some(340));
    assert_eq!(r.start_address.road, "High Street");

    let without_origin =
        process_ride(query_ride(Some(p(1, 1)), Some(p(2, 2))), p(1, 1), p(2, 2), address(), address(), None);
    assert_eq!(without_origin.time_from_origin_to_start, None);
    assert_eq!(without_origin.time_from_end_to_origin, None);
}

#[test]
fn matrix_durations_reads_both_legs() {
    let rows = vec![vec![Some(100), Some(7)], vec![Some(8), Some(200)]];
    assert_eq!(matrix_durations(&rows).unwrap(), (100, 200));
}

#[test]
fn matrix_durations_reports_each_missing_piece() {
    assert!(matches!(matrix_durations(&vec![]), Err(MatrixError::NoRow0)));
    assert!(matches!(matrix_durations(&vec![vec![]]), Err(MatrixError::NoElement0)));
    assert!(matches!(matrix_durations(&vec![vec![None]]), Err(MatrixError::NoDuration0)));
    assert!(matches!(matrix_durations(&vec![vec![Some(1)]]), Err(MatrixError::NoRow1)));
    assert!(matches!(
        matrix_durations(&vec![vec![Some(1)], vec![Some(2)]]),
        Err(MatrixError::NoElement1)
    ));
    assert!(matches!(
        matrix_durations(&vec![vec![Some(1)], vec![Some(2), None]]),
        Err(MatrixError::NoDuration1)
    ));
}

#[test]
fn aggregate_surface_coarsens_tags() {
    assert_eq!(aggregate_surface("gravel"), "dirt");
    assert_eq!(aggregate_surface("unpaved"), "dirt");
    assert_eq!(aggregate_surface("dirt"), "dirt");
    assert_eq!(aggregate_surface("fine_gravel"), "dirt");
    assert_eq!(aggregate_surface("rock"), "dirt");
    assert_eq!(aggregate_surface("asphalt"), "tarmac");
    assert_eq!(aggregate_surface("paved"), "tarmac");
    assert_eq!(aggregate_surface("sand"), "sand");
    assert_eq!(aggregate_surface(""), "");
}
