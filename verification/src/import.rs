//! Importing parsed track files: each named track of a file becomes one
//! feature of a collection, carrying the track's multi-line geometry, its
//! bounding box and its distance; the ride is named by joining the
//! feature names.
//!
//! Parsing the track file itself is a collaborator's work; it hands this
//! module each track as a name and its lines of fixed-point coordinates,
//! together with the geodesic results for the track's consecutive pairs.

use vstd::prelude::*;
use vstd::string::StringExecFns;

use crate::distance::lines_pairs;
use crate::distance::sum_mm;
use crate::geom::Feature;
use crate::geom::FeatureCollection;
use crate::geom::FeatureProperties;
use crate::geom::Geometry;
use crate::geom::TrackPoint;
use crate::geom::Value;
use crate::geom::lines_points;
use crate::ride_geo::BoundingBox;
use crate::ride_geo::is_bbox;

verus! {

/// One track of a parsed track file: its name, if it has one, and its
/// lines of coordinates.
pub struct Track {
    pub name: Option<String>,
    pub lines: Vec<Vec<TrackPoint>>,
}

/// Copies a vector of plain integers.
fn copy_i64_vec(v: &Vec<i64>) -> (r: Vec<i64>)
    ensures
        r@ == v@,
{
    let mut out: Vec<i64> = Vec::new();
    let n = v.len();
    for i in 0..n
        invariant
            n == v@.len(),
            out@ =~= v@.take(i as int),
    {
        out.push(v[i]);
        assert(out@ =~= v@.take(i + 1));
    }
    assert(out@ =~= v@);
    out
}

/// Whether `f` is the feature built for track `t` whose geodesic results
/// were `ds`: a multi-line geometry with the track's lines, the bounding
/// box of its coordinates on both the feature and the geometry, and a
/// property bag holding the summed distance and the track's name.
pub open spec fn spec_track_feature(f: Feature, t: Track, ds: Seq<Option<u64>>) -> bool {
    &&& match f.geometry {
        Some(g) => {
            &&& g.value == Value::MultiLineString(t.lines)
            &&& match (g.bbox, f.bbox) {
                (Some(gb), Some(fb)) => gb@ == fb@,
                _ => false,
            }
        },
        None => false,
    }
    &&& match f.bbox {
        Some(bb) => is_bbox(lines_points(t.lines@), bb@),
        None => false,
    }
    &&& match f.properties {
        Some(p) => p.distance as int == sum_mm(ds) && p.name == t.name,
        None => false,
    }
    &&& f.id is None
}

/// Builds the feature for one track, or nothing for a track without
/// points: an empty track would ruin the collected bounding box.
pub fn track_feature(track: Track, ds: &Vec<Option<u64>>) -> (r: Option<Feature>)
    requires
        ds@.len() == lines_pairs(track.lines@).len(),
    ensures
        match r {
            Some(f) => lines_points(track.lines@).len() > 0 && spec_track_feature(
                f,
                track,
                ds@,
            ),
            None => lines_points(track.lines@).len() == 0,
        },
{
    let bb = match track.lines.bounding_box() {
        Some(bb) => bb,
        None => {
            return None;
        },
    };
    let distance = crate::distance::sum_distances(ds);
    let geom_bb = copy_i64_vec(&bb);
    Some(
        Feature {
            bbox: Some(bb),
            geometry: Some(
                Geometry { bbox: Some(geom_bb), value: Value::MultiLineString(track.lines) },
            ),
            id: None,
            properties: Some(FeatureProperties { distance, name: track.name }),
        },
    )
}

/// How a feature list corresponds to a track list and its per-track
/// geodesic results: tracks without points are dropped, every other track
/// contributes its feature, in order.
pub open spec fn tracks_features_match(
    ts: Seq<Track>,
    ds: Seq<Vec<Option<u64>>>,
    fs: Seq<Feature>,
) -> bool
    decreases ts.len(),
{
    if ts.len() == 0 {
        fs.len() == 0
    } else if lines_points(ts[0].lines@).len() == 0 {
        tracks_features_match(ts.drop_first(), ds.drop_first(), fs)
    } else {
        &&& fs.len() > 0
        &&& spec_track_feature(fs[0], ts[0], ds[0]@)
        &&& tracks_features_match(ts.drop_first(), ds.drop_first(), fs.drop_first())
    }
}

/// Extending a matched pair of lists by one empty track changes nothing.
proof fn lemma_match_push_empty(
    ts: Seq<Track>,
    ds: Seq<Vec<Option<u64>>>,
    fs: Seq<Feature>,
    t: Track,
    d: Vec<Option<u64>>,
)
    requires
        ts.len() == ds.len(),
        tracks_features_match(ts, ds, fs),
        lines_points(t.lines@).len() == 0,
    ensures
        tracks_features_match(ts.push(t), ds.push(d), fs),
    decreases ts.len(),
{
    if ts.len() == 0 {
        assert(ts.push(t).drop_first() =~= ts);
        assert(ds.push(d).drop_first() =~= ds);
    } else {
        assert(ts.push(t).drop_first() =~= ts.drop_first().push(t));
        assert(ds.push(d).drop_first() =~= ds.drop_first().push(d));
        if lines_points(ts[0].lines@).len() == 0 {
            lemma_match_push_empty(ts.drop_first(), ds.drop_first(), fs, t, d);
        } else {
            lemma_match_push_empty(ts.drop_first(), ds.drop_first(), fs.drop_first(), t, d);
        }
    }
}

/// Extending a matched pair of lists by one non-empty track appends its
/// feature.
proof fn lemma_match_push_feature(
    ts: Seq<Track>,
    ds: Seq<Vec<Option<u64>>>,
    fs: Seq<Feature>,
    t: Track,
    d: Vec<Option<u64>>,
    f: Feature,
)
    requires
        ts.len() == ds.len(),
        tracks_features_match(ts, ds, fs),
        lines_points(t.lines@).len() > 0,
        spec_track_feature(f, t, d@),
    ensures
        tracks_features_match(ts.push(t), ds.push(d), fs.push(f)),
    decreases ts.len(),
{
    if ts.len() == 0 {
        assert(ts.push(t).drop_first() =~= ts);
        assert(ds.push(d).drop_first() =~= ds);
        assert(fs.len() == 0);
        assert(fs.push(f).drop_first() =~= fs);
    } else {
        assert(ts.push(t).drop_first() =~= ts.drop_first().push(t));
        assert(ds.push(d).drop_first() =~= ds.drop_first().push(d));
        if lines_points(ts[0].lines@).len() == 0 {
            lemma_match_push_feature(ts.drop_first(), ds.drop_first(), fs, t, d, f);
        } else {
            assert(fs.push(f).drop_first() =~= fs.drop_first().push(f));
            lemma_match_push_feature(ts.drop_first(), ds.drop_first(), fs.drop_first(), t, d, f);
        }
    }
}

/// Builds the feature collection of a parsed track file: one feature per
/// track with points, in file order; `ds[k]` holds the geodesic results
/// for the consecutive pairs of track `k`.
#[verifier::loop_isolation(false)]
pub fn tracks_feature_collection(tracks: Vec<Track>, ds: &Vec<Vec<Option<u64>>>) -> (r:
    FeatureCollection)
    requires
        ds@.len() == tracks@.len(),
        forall|k: int|
            0 <= k < tracks@.len() ==> (#[trigger] ds@[k])@.len() == lines_pairs(
                tracks@[k].lines@,
            ).len(),
    ensures
        r.bbox is None,
        tracks_features_match(tracks@, ds@, r.features@),
{
    let ghost all = tracks@;
    let mut rest = tracks;
    let mut features: Vec<Feature> = Vec::new();
    let n = rest.len();
    for k in 0..n
        invariant
            rest@ =~= all.skip(k as int),
            tracks_features_match(all.take(k as int), ds@.take(k as int), features@),
    {
        let track = rest.remove(0);
        assert(track == all[k as int]);
        let ghost prev_features = features@;
        match track_feature(track, &ds[k]) {
            Some(f) => {
                features.push(f);
                proof {
                    lemma_match_push_feature(
                        all.take(k as int),
                        ds@.take(k as int),
                        prev_features,
                        all[k as int],
                        ds@[k as int],
                        f,
                    );
                }
            },
            None => {
                proof {
                    lemma_match_push_empty(
                        all.take(k as int),
                        ds@.take(k as int),
                        prev_features,
                        all[k as int],
                        ds@[k as int],
                    );
                }
            },
        }
        proof {
            assert(all.take(k + 1) =~= all.take(k as int).push(all[k as int]));
            assert(ds@.take(k + 1) =~= ds@.take(k as int).push(ds@[k as int]));
            assert(rest@ =~= all.skip(k + 1));
        }
    }
    proof {
        assert(all.take(n as int) =~= all);
        assert(ds@.take(n as int) =~= ds@);
    }
    FeatureCollection { bbox: None, features }
}

// ---------------------------------------------------------------------------
// Naming the ride.
// ---------------------------------------------------------------------------

/// The name a feature carries in its property bag.
pub open spec fn feature_name(f: Feature) -> Option<String> {
    match f.properties {
        Some(p) => p.name,
        None => None,
    }
}

/// The ride's name, as the specification sees it: every feature's name,
/// in order, joined with a separating slash.
pub open spec fn spec_ride_name(fs: Seq<Feature>) -> Seq<char>
    decreases fs.len(),
{
    if fs.len() == 0 {
        Seq::empty()
    } else if fs.len() == 1 {
        match feature_name(fs[0]) {
            Some(n) => n@,
            None => Seq::empty(),
        }
    } else {
        spec_ride_name(fs.drop_last()) + " / "@ + (match feature_name(fs.last()) {
            Some(n) => n@,
            None => Seq::empty(),
        })
    }
}

/// The naming error: an imported ride takes its name from its features,
/// so every feature must carry one.
#[derive(Clone, Copy, PartialEq, Eq, Structural, Debug)]
pub enum NameError {
    UnnamedFeature,
}

/// Names the ride after its features, joined with " / " in order; fails
/// exactly when some feature carries no name.
#[verifier::loop_isolation(false)]
pub fn ride_name(fc: &FeatureCollection) -> (r: Result<String, NameError>)
    ensures
        match r {
            Ok(s) => {
                &&& forall|i: int|
                    0 <= i < fc.features@.len() ==> feature_name(#[trigger] fc.features@[i])
                        is Some
                &&& s@ == spec_ride_name(fc.features@)
            },
            Err(NameError::UnnamedFeature) => exists|i: int|
                0 <= i < fc.features@.len() && feature_name(#[trigger] fc.features@[i]) is None,
        },
{
    let mut joined = String::new();
    let n = fc.features.len();
    for i in 0..n
        invariant
            joined@ == spec_ride_name(fc.features@.take(i as int)),
            forall|j: int|
                0 <= j < i ==> feature_name(#[trigger] fc.features@[j]) is Some,
    {
        let name = match &fc.features[i].properties {
            Some(p) => match &p.name {
                Some(nm) => nm,
                None => {
                    return Err(NameError::UnnamedFeature);
                },
            },
            None => {
                return Err(NameError::UnnamedFeature);
            },
        };
        if i > 0 {
            joined.append(" / ");
        }
        joined.append(name.as_str());
        proof {
            assert(fc.features@.take(i + 1).drop_last() =~= fc.features@.take(i as int));
            assert(fc.features@.take(i + 1).last() == fc.features@[i as int]);
            assert(joined@ =~= spec_ride_name(fc.features@.take(i + 1)));
        }
    }
    proof {
        assert(fc.features@.take(n as int) =~= fc.features@);
    }
    Ok(joined)
}

} // verus!
