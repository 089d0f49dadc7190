//! The way segmenter end to end: grouping, ordering, failure semantics,
//! and way distances.

use expedition::distance::Distance;
use expedition::distance::PointPair;
use expedition::distance::sum_distances;
use expedition::geom::TrackPoint;
use expedition::nominatim::Address;
use expedition::nominatim::ExtraTags;
use expedition::nominatim::NominatimPlace;
use expedition::ways::LookupError;
use expedition::ways::RideWay;
use expedition::ways::is_road_way;
use expedition::ways::ride_ways;
use expedition::ways::way_with_distance;
use expedition::ways::ways_with_distances;

use geo::VincentyDistance;

fn p(x: i64, y: i64) -> TrackPoint {
    TrackPoint { x, y }
}

fn address() -> Address {
    Address {
        road: String::from("High Street"),
        tourism: None,
        amenity: None,
        suburb: None,
        hamlet: None,
        town: None,
        city: Some(String::from("Springfield")),
        municipality: None,
        state: String::from("State"),
        iso3166_2_lvl4: String::from("XX-YY"),
        postcode: None,
        country: String::from("Country"),
        country_code: String::from("xx"),
    }
}

fn place(osm_type: &str, category: Option<&str>, name: Option<&str>, osm_id: u64) -> NominatimPlace {
    NominatimPlace {
        osm_type: String::from(osm_type),
        osm_id,
        display_name: String::from("somewhere"),
        category: category.map(String::from),
        name: name.map(String::from),
        address: address(),
        extratags: ExtraTags { surface: Some(String::from("asphalt")) },
    }
}

fn road(name: &str, osm_id: u64) -> Result<NominatimPlace, LookupError> {
    Ok(place("way", Some("highway"), Some(name), osm_id))
}

fn building() -> Result<NominatimPlace, LookupError> {
    Ok(place("way", Some("building"), Some("Town Hall"), 99))
}

fn vincenty_mm(pair: &PointPair) -> Option<u64> {
    let a = geo_types::Point::new(pair.a.x as f64 / 1e7, pair.a.y as f64 / 1e7);
    let b = geo_types::Point::new(pair.b.x as f64 / 1e7, pair.b.y as f64 / 1e7);
    match a.vincenty_distance(&b) {
        Ok(meters) => Some((meters * 1000.0) as u64),
        Err(_) => None,
    }
}

fn measure(ways: Vec<RideWay>) -> Vec<RideWay> {
    let ds: Vec<Vec<Option<u64>>> = ways
        .iter()
        .map(|w| w.distance_pairs().iter().map(vincenty_mm).collect())
        .collect();
    ways_with_distances(ways, &ds)
}

#[test]
fn classification_filter() {
    assert!(is_road_way(&place("way", Some("highway"), Some("A road"), 1)));
    assert!(!is_road_way(&place("node", Some("highway"), Some("A road"), 1)));
    assert!(!is_road_way(&place("way", Some("building"), Some("A house"), 1)));
    assert!(!is_road_way(&place("way", None, Some("A road"), 1)));
    assert!(!is_road_way(&place("way", Some("highway"), None, 1)));
}

#[test]
fn single_road_groups_all_points_in_order() {
    // A three-point track straight up a meridian, every point on Main St.
    let points = vec![p(0, 0), p(0, 10_000), p(0, 20_000)];
    let lookups = vec![road("Main St", 5), road("Main St", 6), road("Main St", 5)];
    let ways = ride_ways(&points, &lookups).unwrap();
    assert_eq!(ways.len(), 1);
    let way = &ways[0];
    assert_eq!(way.seq, 0);
    assert_eq!(way.osm_id, 5);
    assert_eq!(way.distance, 0);
    let seqs: Vec<usize> = way.points.iter().map(|wp| wp.seq).collect();
    assert_eq!(seqs, vec![0, 1, 2]);
    assert_eq!(way.points[1].point, p(0, 10_000));

    // Its measured distance is the two geodesic steps, summed exactly.
    let measured = measure(ways);
    let d1 = vincenty_mm(&PointPair { a: p(0, 0), b: p(0, 10_000) }).unwrap();
    let d2 = vincenty_mm(&PointPair { a: p(0, 10_000), b: p(0, 20_000) }).unwrap();
    assert_eq!(measured[0].distance, d1 as u128 + d2 as u128);
    assert!((measured[0].distance as i64 - 2 * d1 as i64).abs() <= 2);
}

#[test]
fn two_roads_give_two_ways_with_their_own_steps() {
    let points = vec![p(0, 0), p(0, 10_000), p(0, 500_000), p(0, 510_000)];
    let lookups = vec![road("A", 1), road("A", 1), road("B", 2), road("B", 2)];
    let ways = measure(ride_ways(&points, &lookups).unwrap());
    assert_eq!(ways.len(), 2);
    assert_eq!(ways[0].seq, 0);
    assert_eq!(ways[0].points.len(), 2);
    assert_eq!(ways[1].seq, 2);
    assert_eq!(ways[1].points.len(), 2);
    let step_a = vincenty_mm(&PointPair { a: p(0, 0), b: p(0, 10_000) }).unwrap();
    let step_b = vincenty_mm(&PointPair { a: p(0, 500_000), b: p(0, 510_000) }).unwrap();
    assert_eq!(ways[0].distance, step_a as u128);
    assert_eq!(ways[1].distance, step_b as u128);
}

#[test]
fn ways_are_ordered_by_first_contributing_point() {
    let points = vec![p(0, 0), p(0, 1), p(0, 2), p(0, 3)];
    let lookups = vec![road("B", 2), road("A", 1), road("B", 2), road("A", 1)];
    let ways = ride_ways(&points, &lookups).unwrap();
    assert_eq!(ways.len(), 2);
    // "B" was seen first (index 0), so it comes first; it gathers 0 and 2.
    assert_eq!(ways[0].seq, 0);
    assert_eq!(ways[0].osm_id, 2);
    let b_seqs: Vec<usize> = ways[0].points.iter().map(|wp| wp.seq).collect();
    assert_eq!(b_seqs, vec![0, 2]);
    assert_eq!(ways[1].seq, 1);
    let a_seqs: Vec<usize> = ways[1].points.iter().map(|wp| wp.seq).collect();
    assert_eq!(a_seqs, vec![1, 3]);
}

#[test]
fn grouping_is_by_name_not_place_identity() {
    // The same road often carries several place identities; the name is
    // the key, and the identity recorded is the first seen.
    let points = vec![p(0, 0), p(0, 1)];
    let lookups = vec![road("Ring Road", 41), road("Ring Road", 42)];
    let ways = ride_ways(&points, &lookups).unwrap();
    assert_eq!(ways.len(), 1);
    assert_eq!(ways[0].osm_id, 41);
    assert_eq!(ways[0].points.len(), 2);
}

#[test]
fn non_road_points_join_no_way() {
    let points = vec![p(0, 0), p(0, 1), p(0, 2)];
    let lookups = vec![road("A", 1), building(), road("A", 1)];
    let ways = ride_ways(&points, &lookups).unwrap();
    assert_eq!(ways.len(), 1);
    let seqs: Vec<usize> = ways[0].points.iter().map(|wp| wp.seq).collect();
    assert_eq!(seqs, vec![0, 2]);
}

#[test]
fn all_buildings_give_empty_way_list_without_error() {
    let points = vec![p(0, 0), p(0, 1), p(0, 2)];
    let lookups = vec![building(), building(), building()];
    let ways = ride_ways(&points, &lookups).unwrap();
    assert_eq!(ways.len(), 0);
}

#[test]
fn one_failed_lookup_fails_the_whole_segmentation() {
    let points = vec![p(0, 0), p(0, 1), p(0, 2), p(0, 3), p(0, 4)];
    let lookups = vec![
        road("A", 1),
        road("A", 1),
        Err(LookupError { message: String::from("connection reset") }),
        road("A", 1),
        road("A", 1),
    ];
    let r = ride_ways(&points, &lookups);
    match r {
        Ok(_) => panic!("segmentation must fail when any lookup fails"),
        Err(e) => assert_eq!(e.message, "connection reset"),
    }
}

#[test]
fn segmentation_is_idempotent_for_deterministic_lookups() {
    let points = vec![p(0, 0), p(0, 1), p(0, 2), p(0, 3)];
    let lookups = vec![road("B", 2), road("A", 1), building(), road("B", 2)];
    let first = ride_ways(&points, &lookups).unwrap();
    let second = ride_ways(&points, &lookups).unwrap();
    assert_eq!(first.len(), second.len());
    for (w1, w2) in first.iter().zip(second.iter()) {
        assert_eq!(w1.seq, w2.seq);
        assert_eq!(w1.osm_id, w2.osm_id);
        assert_eq!(w1.distance, w2.distance);
        assert_eq!(w1.points.len(), w2.points.len());
        for (a, b) in w1.points.iter().zip(w2.points.iter()) {
            assert_eq!(a, b);
        }
    }
}

#[test]
fn waypoint_indices_are_unique_and_increasing() {
    let points: Vec<TrackPoint> = (0..6).map(|i| p(0, i)).collect();
    let lookups = vec![
        road("A", 1),
        road("B", 2),
        road("A", 1),
        building(),
        road("C", 3),
        road("B", 2),
    ];
    let ways = ride_ways(&points, &lookups).unwrap();
    let mut seen = Vec::new();
    for way in &ways {
        let seqs: Vec<usize> = way.points.iter().map(|wp| wp.seq).collect();
        let mut sorted = seqs.clone();
        sorted.sort_unstable();
        sorted.dedup();
        assert_eq!(seqs, sorted, "within a way, indices strictly increase");
        for s in seqs {
            assert!(!seen.contains(&s), "index {s} appears in two ways");
            seen.push(s);
        }
    }
}

#[test]
fn way_with_distance_keeps_everything_else() {
    let points = vec![p(0, 0), p(0, 1)];
    let lookups = vec![road("A", 7), road("A", 7)];
    let ways = ride_ways(&points, &lookups).unwrap();
    let way = way_with_distance(
        RideWay {
            seq: ways[0].seq,
            osm_id: ways[0].osm_id,
            distance: ways[0].distance,
            points: ways[0].points.clone(),
        },
        &vec![Some(123u64)],
    );
    assert_eq!(way.seq, 0);
    assert_eq!(way.osm_id, 7);
    assert_eq!(way.distance, 123);
    assert_eq!(way.points.len(), 2);
    assert_eq!(sum_distances(&vec![Some(3u64), None]), 3);
}
