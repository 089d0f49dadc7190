//! The feature collection builder and the ride record.
//!
//! A ride is built in stages around the collaborators' work: `prepare_ride`
//! extracts the start and end point, injects the two synthetic point
//! features, fixes the total distance from the collaborator's geodesic
//! results and flattens the route; the way segmenter then classifies the
//! route; `create_ride` assembles the final record.

use vstd::prelude::*;

use crate::distance::PointPair;
use crate::distance::feature_pairs;
use crate::distance::features_pairs;
use crate::distance::lemma_features_pairs_push;
use crate::distance::sum_distances;
use crate::distance::sum_mm;
use crate::geom::Feature;
use crate::geom::FeatureCollection;
use crate::geom::GeoJson;
use crate::geom::Geometry;
use crate::geom::TrackPoint;
use crate::geom::Value;
use crate::geom::features_points;
use crate::geom::fc_end;
use crate::geom::fc_start;
use crate::ride_geo::EndPoint;
use crate::ride_geo::Points;
use crate::ride_geo::StartPoint;
use crate::ways::RideWay;

verus! {

/// The ride record as it is persisted: the enriched document, the total
/// distance in millimetres, and the measured ways.
pub struct Ride {
    pub id: Option<i64>,
    pub name: String,
    pub geo_json: GeoJson,
    pub total_distance: u128,
    pub ways: Vec<RideWay>,
}

/// A ride as it comes back from storage, start and end point extracted
/// from the stored document where present.
pub struct QueryRide {
    pub id: i64,
    pub name: String,
    pub total_distance: u128,
    pub geo_json: Option<GeoJson>,
    pub ways: Option<Vec<RideWay>>,
    pub start_point: Option<TrackPoint>,
    pub end_point: Option<TrackPoint>,
}

/// A stored ride enriched for display: the endpoints' addresses and,
/// when an origin was given, the travel times to the start and from the
/// end.
pub struct ProcessedRide {
    pub id: i64,
    pub name: String,
    pub total_distance: u128,
    pub geo_json: Option<GeoJson>,
    pub ways: Option<Vec<RideWay>>,
    pub start_point: TrackPoint,
    pub end_point: TrackPoint,
    pub start_address: crate::nominatim::Address,
    pub end_address: crate::nominatim::Address,
    pub time_from_origin_to_start: Option<i64>,
    pub time_from_end_to_origin: Option<i64>,
}

/// The geometry errors of the builder: a collection whose track has no
/// start or no end point (empty, or polygon-only) cannot be enriched.
#[derive(Clone, Copy, PartialEq, Eq, Structural, Debug)]
pub enum RideError {
    NoStartPoint,
    NoEndPoint,
}

/// A prepared ride, between start/end injection and way segmentation: the
/// enriched collection, its total distance, and the flattened route the
/// segmenter consumes.
pub struct RideDraft {
    pub name: String,
    pub features: FeatureCollection,
    pub total_distance: u128,
    pub route: Vec<TrackPoint>,
}

/// Whether `f` is a bare single-point feature labelled `id`.
pub open spec fn spec_point_feature(f: Feature, id: Seq<char>, p: TrackPoint) -> bool {
    &&& f.bbox is None
    &&& match f.id {
        Some(s) => s@ == id,
        None => false,
    }
    &&& f.properties is None
    &&& match f.geometry {
        Some(g) => g.bbox is None && g.value == Value::Point(p),
        None => false,
    }
}

/// Builds the bare single-point feature labelled `id`.
pub fn feature_point(id: String, point: &TrackPoint) -> (r: Feature)
    ensures
        spec_point_feature(r, id@, *point),
{
    Feature {
        bbox: None,
        geometry: Some(Geometry { bbox: None, value: Value::Point(*point) }),
        id: Some(id),
        properties: None,
    }
}

/// A single-point feature contributes no consecutive pairs: appending one
/// to a collection leaves the collection's distance pairs unchanged, so
/// the synthetic start and end features are never counted into the total
/// distance.
pub proof fn lemma_point_feature_adds_no_pairs(fs: Seq<Feature>, f: Feature, id: Seq<char>, p: TrackPoint)
    requires
        spec_point_feature(f, id, p),
    ensures
        features_pairs(fs.push(f)) == features_pairs(fs),
{
    lemma_features_pairs_push(fs, f);
    assert(feature_pairs(f) =~= Seq::<PointPair>::empty());
    assert(features_pairs(fs.push(f)) =~= features_pairs(fs));
}

/// First half of ride creation. Extracts the collection's start and end
/// point — failing when the track has none — appends the synthetic
/// features labelled "start" and "end", fixes the total distance from the
/// collaborator's geodesic results for the collection's consecutive pairs
/// (the synthetic points contribute no pairs, so nothing is
/// double-counted), and flattens the enriched route for segmentation.
pub fn prepare_ride(name: String, feature_collection: FeatureCollection, ds: &Vec<Option<u64>>) -> (r:
    Result<RideDraft, RideError>)
    requires
        ds@.len() == features_pairs(feature_collection.features@).len(),
    ensures
        match r {
            Ok(d) => {
                &&& fc_start(feature_collection) is Some
                &&& fc_end(feature_collection) is Some
                &&& d.name == name
                &&& d.features.bbox == feature_collection.bbox
                &&& d.features.features@.len() == feature_collection.features@.len() + 2
                &&& d.features.features@.take(feature_collection.features@.len() as int)
                    == feature_collection.features@
                &&& spec_point_feature(
                    d.features.features@[feature_collection.features@.len() as int],
                    "start"@,
                    fc_start(feature_collection)->Some_0,
                )
                &&& spec_point_feature(
                    d.features.features@[feature_collection.features@.len() as int + 1],
                    "end"@,
                    fc_end(feature_collection)->Some_0,
                )
                &&& features_pairs(d.features.features@) == features_pairs(
                    feature_collection.features@,
                )
                &&& d.total_distance as int == sum_mm(ds@)
                &&& d.route@ == features_points(d.features.features@)
            },
            Err(RideError::NoStartPoint) => fc_start(feature_collection) is None,
            Err(RideError::NoEndPoint) => {
                &&& fc_start(feature_collection) is Some
                &&& fc_end(feature_collection) is None
            },
        },
{
    let start_point = match feature_collection.start_point() {
        Some(p) => p,
        None => {
            return Err(RideError::NoStartPoint);
        },
    };
    let end_point = match feature_collection.end_point() {
        Some(p) => p,
        None => {
            return Err(RideError::NoEndPoint);
        },
    };
    let ghost orig = feature_collection.features@;
    let mut fc = feature_collection;
    let start_feature = feature_point(String::from_str("start"), &start_point);
    let end_feature = feature_point(String::from_str("end"), &end_point);
    proof {
        lemma_point_feature_adds_no_pairs(orig, start_feature, "start"@, start_point);
        lemma_point_feature_adds_no_pairs(
            orig.push(start_feature),
            end_feature,
            "end"@,
            end_point,
        );
    }
    fc.features.push(start_feature);
    fc.features.push(end_feature);
    proof {
        assert(fc.features@.take(orig.len() as int) =~= orig);
    }
    let total_distance = sum_distances(ds);
    let route = fc.points();
    Ok(RideDraft { name, features: fc, total_distance, route })
}

/// Final assembly of a ride record from the prepared draft and the
/// measured ways.
pub fn create_ride(draft: RideDraft, ways: Vec<RideWay>) -> (r: Ride)
    ensures
        r.id is None,
        r.name == draft.name,
        r.geo_json == GeoJson::FeatureCollection(draft.features),
        r.total_distance == draft.total_distance,
        r.ways == ways,
{
    Ride {
        id: None,
        name: draft.name,
        geo_json: GeoJson::FeatureCollection(draft.features),
        total_distance: draft.total_distance,
        ways,
    }
}

} // verus!
