//! The way segmenter: groups classified track points into named road
//! segments ("ways").
//!
//! The lookup itself is network work done by a collaborator; it hands the
//! segmenter one classification result per track point, indexed by the
//! point's position in the route. The segmenter fails fast on the first
//! lookup error. Otherwise it groups the points that classify as named
//! roads by the road's name (the same road can carry several place
//! identities, so the name, not the identifier, is the grouping key),
//! records for each way the sequence index of its first contributing point,
//! and returns the ways in route order: ascending by that first index.

use vstd::prelude::*;

use crate::distance::Distance;
use crate::distance::PointPair;
use crate::distance::seq_pairs;
use crate::distance::sum_distances;
use crate::distance::sum_mm;
use crate::geom::TrackPoint;
use crate::nominatim::NominatimPlace;

verus! {

/// One track point of a way: the point's index in the flattened route, and
/// the point itself.
#[derive(Clone, Copy, PartialEq, Eq, Structural, Debug)]
pub struct WayPoint {
    pub seq: usize,
    pub point: TrackPoint,
}

/// A contiguous grouping of track points attributed to one named road:
/// the sequence index of its first contributing point, the place identity
/// first seen for it, its distance in millimetres (zero until the geodesic
/// results are folded in), and its points in route order.
#[derive(Clone, Debug)]
pub struct RideWay {
    pub seq: u64,
    pub osm_id: u64,
    pub distance: u128,
    pub points: Vec<WayPoint>,
}

/// A failed lookup: the collaborator's description of what went wrong.
#[derive(Clone, Debug)]
pub struct LookupError {
    pub message: String,
}

/// Whether a classification marks its point as part of a named road: the
/// place must be a way, in the highway category, and carry a name.
pub open spec fn spec_is_road_way(p: NominatimPlace) -> bool {
    &&& p.osm_type@ == "way"@
    &&& match p.category {
        Some(c) => c@ == "highway"@,
        None => false,
    }
    &&& p.name is Some
}

/// Returns whether a classification marks its point as part of a named
/// road.
pub fn is_road_way(p: &NominatimPlace) -> (r: bool)
    ensures
        r == spec_is_road_way(*p),
{
    if !(p.osm_type == String::from_str("way")) {
        return false;
    }
    let cat_ok = match &p.category {
        Some(c) => *c == String::from_str("highway"),
        None => false,
    };
    cat_ok && p.name.is_some()
}

/// Whether one lookup outcome is accepted into a way.
pub open spec fn outcome_accepted(r: Result<NominatimPlace, LookupError>) -> bool {
    match r {
        Ok(p) => spec_is_road_way(p),
        Err(_) => false,
    }
}

/// The grouping key of an accepted outcome: the place's name.
pub open spec fn outcome_key(r: Result<NominatimPlace, LookupError>) -> Seq<char> {
    match r {
        Ok(p) => match p.name {
            Some(n) => n@,
            None => Seq::empty(),
        },
        Err(_) => Seq::empty(),
    }
}

/// The place identity of an accepted outcome.
pub open spec fn outcome_osm_id(r: Result<NominatimPlace, LookupError>) -> u64 {
    match r {
        Ok(p) => p.osm_id,
        Err(_) => 0,
    }
}

/// Whether some way of `ways` holds a point with sequence index `i`.
pub open spec fn ways_contain_seq(ways: Seq<RideWay>, i: int) -> bool {
    exists|k: int, j: int|
        0 <= k < ways.len() && 0 <= j < ways[k].points@.len() && (#[trigger] ways[k].points@[j]).seq
            == i
}

/// The grouping invariant of the segmenter, restricted to the first `m`
/// outcomes. With `m` equal to the number of outcomes this pins the way
/// list completely:
/// every way is non-empty, carries as ordering key the index of its first
/// point and zero distance, and holds exactly the accepted points of its
/// key, in ascending route order; the ways are ordered by their first
/// index and have pairwise distinct keys; and every accepted point is in a
/// way.
pub open spec fn ways_partial(
    points: Seq<TrackPoint>,
    rs: Seq<Result<NominatimPlace, LookupError>>,
    ways: Seq<RideWay>,
    m: int,
) -> bool {
    &&& forall|k: int| 0 <= k < ways.len() ==> (#[trigger] ways[k]).points@.len() >= 1
    &&& forall|k: int|
        0 <= k < ways.len() ==> (#[trigger] ways[k]).seq == ways[k].points@[0].seq as u64
    &&& forall|k: int| 0 <= k < ways.len() ==> (#[trigger] ways[k]).distance == 0
    &&& forall|k: int|
        0 <= k < ways.len() ==> (#[trigger] ways[k]).osm_id == outcome_osm_id(
            rs[ways[k].seq as int],
        )
    &&& forall|k: int, j: int|
        0 <= k < ways.len() && 0 <= j < ways[k].points@.len() ==> {
            &&& (#[trigger] ways[k].points@[j]).seq < m
            &&& outcome_accepted(rs[ways[k].points@[j].seq as int])
            &&& outcome_key(rs[ways[k].points@[j].seq as int]) == outcome_key(
                rs[ways[k].seq as int],
            )
            &&& ways[k].points@[j].point == points[ways[k].points@[j].seq as int]
        }
    &&& forall|k: int, j1: int, j2: int|
        #![trigger ways[k].points@[j1], ways[k].points@[j2]]
        0 <= k < ways.len() && 0 <= j1 < j2 < ways[k].points@.len() ==> ways[k].points@[j1].seq
            < ways[k].points@[j2].seq
    &&& forall|k1: int, k2: int|
        0 <= k1 < k2 < ways.len() ==> (#[trigger] ways[k1]).seq < (#[trigger] ways[k2]).seq
    &&& forall|k1: int, k2: int|
        0 <= k1 < k2 < ways.len() ==> outcome_key(rs[(#[trigger] ways[k1]).seq as int])
            != outcome_key(rs[(#[trigger] ways[k2]).seq as int])
    &&& forall|i: int|
        0 <= i < m && outcome_accepted(#[trigger] rs[i]) ==> ways_contain_seq(ways, i)
}

/// The full grouping contract of the segmenter.
pub open spec fn ways_ok(
    points: Seq<TrackPoint>,
    rs: Seq<Result<NominatimPlace, LookupError>>,
    ways: Seq<RideWay>,
) -> bool {
    ways_partial(points, rs, ways, rs.len() as int)
}

/// A step of the segmenter that ignores one outcome keeps the grouping
/// invariant.
proof fn lemma_ways_skip(
    points: Seq<TrackPoint>,
    rs: Seq<Result<NominatimPlace, LookupError>>,
    ways: Seq<RideWay>,
    i: int,
)
    requires
        ways_partial(points, rs, ways, i),
        !outcome_accepted(rs[i]),
    ensures
        ways_partial(points, rs, ways, i + 1),
{
}

/// A step of the segmenter that appends outcome `i` to the existing way
/// `f` of its key keeps the grouping invariant.
proof fn lemma_ways_append(
    points: Seq<TrackPoint>,
    rs: Seq<Result<NominatimPlace, LookupError>>,
    prev: Seq<RideWay>,
    ways: Seq<RideWay>,
    i: int,
    f: int,
    wp: WayPoint,
)
    requires
        ways_partial(points, rs, prev, i),
        0 <= i < rs.len(),
        outcome_accepted(rs[i]),
        0 <= f < prev.len(),
        outcome_key(rs[i]) == outcome_key(rs[prev[f].seq as int]),
        wp.seq as int == i,
        wp.point == points[i],
        ways.len() == prev.len(),
        forall|k: int| 0 <= k < prev.len() && k != f ==> ways[k] == prev[k],
        ways[f].points@ == prev[f].points@.push(wp),
        ways[f].seq == prev[f].seq,
        ways[f].osm_id == prev[f].osm_id,
        ways[f].distance == prev[f].distance,
    ensures
        ways_partial(points, rs, ways, i + 1),
{
    let old_len = prev[f].points@.len() as int;
    assert(forall|k: int| 0 <= k < ways.len() ==> (#[trigger] ways[k]).seq == prev[k].seq);
    assert forall|k: int| 0 <= k < ways.len() implies (#[trigger] ways[k]).points@.len() >= 1 by {
        if k != f {
            assert(ways[k] == prev[k]);
        }
    }
    assert forall|k: int|
        0 <= k < ways.len() implies (#[trigger] ways[k]).seq == ways[k].points@[0].seq as u64 by {
        if k == f {
            assert(prev[f].points@.len() >= 1);
            assert(ways[f].points@[0] == prev[f].points@[0]);
        } else {
            assert(ways[k] == prev[k]);
        }
    }
    assert forall|k: int, j: int|
        0 <= k < ways.len() && 0 <= j < ways[k].points@.len() implies {
            &&& (#[trigger] ways[k].points@[j]).seq < i + 1
            &&& outcome_accepted(rs[ways[k].points@[j].seq as int])
            &&& outcome_key(rs[ways[k].points@[j].seq as int]) == outcome_key(
                rs[ways[k].seq as int],
            )
            &&& ways[k].points@[j].point == points[ways[k].points@[j].seq as int]
        } by {
        if k == f {
            if j < old_len {
                assert(ways[f].points@[j] == prev[f].points@[j]);
                assert(prev[f].points@[j].seq < i);
            } else {
                assert(j == old_len);
                assert(ways[f].points@[j] == wp);
            }
        } else {
            assert(ways[k] == prev[k]);
            assert(prev[k].points@[j].seq < i);
        }
    }
    assert forall|k: int, j1: int, j2: int|
        0 <= k < ways.len() && 0 <= j1 < j2 < ways[k].points@.len() implies (#[trigger] ways[k].points@[j1]).seq
        < (#[trigger] ways[k].points@[j2]).seq by {
        if k == f {
            assert(ways[f].points@[j1] == prev[f].points@[j1]);
            if j2 < old_len {
                assert(ways[f].points@[j2] == prev[f].points@[j2]);
            } else {
                assert(ways[f].points@[j2] == wp);
                assert(prev[f].points@[j1].seq < i);
            }
        } else {
            assert(ways[k] == prev[k]);
        }
    }
    assert forall|idx: int|
        0 <= idx < i + 1 && outcome_accepted(#[trigger] rs[idx]) implies ways_contain_seq(
        ways,
        idx,
    ) by {
        if idx < i {
            let (k, j): (int, int) = choose|k: int, j: int|
                0 <= k < prev.len() && 0 <= j < prev[k].points@.len() && (
                #[trigger] prev[k].points@[j]).seq == idx;
            if k == f {
                assert(ways[f].points@[j] == prev[f].points@[j]);
            } else {
                assert(ways[k] == prev[k]);
            }
            assert(0 <= k < ways.len() && 0 <= j < ways[k].points@.len() && ways[k].points@[j].seq
                == idx);
        } else {
            assert(ways[f].points@[old_len] == wp);
            assert(0 <= f < ways.len() && 0 <= old_len < ways[f].points@.len()
                && ways[f].points@[old_len].seq == idx);
        }
    }
}

/// A step of the segmenter that opens a new way for outcome `i`, whose key
/// no existing way carries, keeps the grouping invariant.
proof fn lemma_ways_open(
    points: Seq<TrackPoint>,
    rs: Seq<Result<NominatimPlace, LookupError>>,
    prev: Seq<RideWay>,
    ways: Seq<RideWay>,
    i: int,
    w: RideWay,
)
    requires
        ways_partial(points, rs, prev, i),
        0 <= i < rs.len(),
        outcome_accepted(rs[i]),
        forall|k: int|
            0 <= k < prev.len() ==> outcome_key(rs[(#[trigger] prev[k]).seq as int])
                != outcome_key(rs[i]),
        w.seq as int == i,
        w.osm_id == outcome_osm_id(rs[i]),
        w.distance == 0,
        w.points@.len() == 1,
        w.points@[0].seq as int == i,
        w.points@[0].point == points[i],
        ways == prev.push(w),
    ensures
        ways_partial(points, rs, ways, i + 1),
{
    let nl = prev.len() as int;
    assert(ways[nl] == w);
    assert(forall|k: int| 0 <= k < nl ==> (#[trigger] ways[k]) == prev[k]);
    assert forall|k: int| 0 <= k < nl implies (#[trigger] prev[k]).seq < i by {
        assert(prev[k].points@[0].seq < i);
        assert(prev[k].seq == prev[k].points@[0].seq as u64);
    }
    assert forall|k: int, j: int|
        0 <= k < ways.len() && 0 <= j < ways[k].points@.len() implies {
            &&& (#[trigger] ways[k].points@[j]).seq < i + 1
            &&& outcome_accepted(rs[ways[k].points@[j].seq as int])
            &&& outcome_key(rs[ways[k].points@[j].seq as int]) == outcome_key(
                rs[ways[k].seq as int],
            )
            &&& ways[k].points@[j].point == points[ways[k].points@[j].seq as int]
        } by {
        if k < nl {
            assert(ways[k] == prev[k]);
            assert(prev[k].points@[j].seq < i);
        } else {
            assert(ways[k] == w);
            assert(j == 0);
        }
    }
    assert forall|idx: int|
        0 <= idx < i + 1 && outcome_accepted(#[trigger] rs[idx]) implies ways_contain_seq(
        ways,
        idx,
    ) by {
        if idx < i {
            let (k, j): (int, int) = choose|k: int, j: int|
                0 <= k < prev.len() && 0 <= j < prev[k].points@.len() && (
                #[trigger] prev[k].points@[j]).seq == idx;
            assert(ways[k] == prev[k]);
            assert(0 <= k < ways.len() && 0 <= j < ways[k].points@.len() && ways[k].points@[j].seq
                == idx);
        } else {
            assert(ways[nl].points@[0].seq == idx);
            assert(0 <= nl < ways.len() && 0 <= 0 < ways[nl].points@.len());
        }
    }
}

/// Compares two strings by their characters.
fn string_eq(a: &String, b: &String) -> (r: bool)
    ensures
        r == (a@ == b@),
{
    a.eq(b)
}

/// Groups the route's classified points into ways.
///
/// `lookups[i]` is the collaborator's classification of `points[i]`. If
/// any lookup failed, the whole segmentation fails with the first error in
/// route order and no way list is produced. Otherwise the returned list
/// satisfies `ways_ok`: one way per distinct road name among the accepted
/// points, in route order of first contribution, each listing its points
/// in route order, with distance still zero (`way_with_distance` folds the
/// geodesic results in afterwards).
#[verifier::loop_isolation(false)]
pub fn ride_ways(
    points: &Vec<TrackPoint>,
    lookups: &Vec<Result<NominatimPlace, LookupError>>,
) -> (r: Result<Vec<RideWay>, LookupError>)
    requires
        points@.len() == lookups@.len(),
    ensures
        match r {
            Ok(ways) => {
                &&& forall|i: int| 0 <= i < lookups@.len() ==> !((#[trigger] lookups@[i]) is Err)
                &&& ways_ok(points@, lookups@, ways@)
            },
            Err(e) => exists|i: int|
                {
                    &&& 0 <= i < lookups@.len()
                    &&& (#[trigger] lookups@[i]) is Err
                    &&& forall|j: int| 0 <= j < i ==> !((#[trigger] lookups@[j]) is Err)
                    &&& e.message@ == lookups@[i]->Err_0.message@
                },
        },
{
    let n = points.len();
    let mut ways: Vec<RideWay> = Vec::new();
    let mut names: Vec<String> = Vec::new();
    for i in 0..n
        invariant
            names@.len() == ways@.len(),
            forall|k: int|
                0 <= k < ways@.len() ==> (#[trigger] names@[k])@ == outcome_key(
                    lookups@[ways@[k].seq as int],
                ),
            forall|j: int| 0 <= j < i ==> !((#[trigger] lookups@[j]) is Err),
            ways_partial(points@, lookups@, ways@, i as int),
    {
        let place = match &lookups[i] {
            Ok(p) => p,
            Err(e) => {
                return Err(LookupError { message: e.message.clone() });
            },
        };
        assert(lookups@[i as int] == Ok::<NominatimPlace, LookupError>(*place));
        if is_road_way(place) {
            assert(outcome_accepted(lookups@[i as int]));
            let name = place.name.as_ref().unwrap();
            assert(name@ == outcome_key(lookups@[i as int]));
            let wp = WayPoint { seq: i, point: points[i] };
            let mut found: Option<usize> = None;
            let w_count = ways.len();
            for k in 0..w_count
                invariant
                    match found {
                        Some(f) => f < w_count && names@[f as int]@ == name@,
                        None => forall|k2: int| 0 <= k2 < k ==> (#[trigger] names@[k2])@ != name@,
                    },
            {
                if found.is_none() && string_eq(&names[k], name) {
                    found = Some(k);
                }
            }
            let ghost prev = ways@;
            match found {
                Some(f) => {
                    let mut way = ways.remove(f);
                    way.points.push(wp);
                    ways.insert(f, way);
                    proof {
                        assert(ways@.len() == prev.len());
                        assert(forall|k: int|
                            0 <= k < prev.len() && k != f ==> ways@[k] == prev[k]);
                        assert(ways@[f as int].points@ =~= prev[f as int].points@.push(wp));
                        assert(ways@[f as int].seq == prev[f as int].seq);
                        assert(ways@[f as int].osm_id == prev[f as int].osm_id);
                        assert(ways@[f as int].distance == prev[f as int].distance);
                        assert(outcome_key(lookups@[i as int]) == outcome_key(
                            lookups@[prev[f as int].seq as int],
                        ));
                        lemma_ways_append(
                            points@,
                            lookups@,
                            prev,
                            ways@,
                            i as int,
                            f as int,
                            wp,
                        );
                    }
                },
                None => {
                    let mut pts: Vec<WayPoint> = Vec::new();
                    pts.push(wp);
                    let w = RideWay { seq: i as u64, osm_id: place.osm_id, distance: 0, points: pts };
                    proof {
                        assert forall|k: int|
                            0 <= k < prev.len() implies outcome_key(
                            lookups@[(#[trigger] prev[k]).seq as int],
                        ) != outcome_key(lookups@[i as int]) by {
                            assert(names@[k]@ == outcome_key(lookups@[prev[k].seq as int]));
                            assert(names@[k]@ != name@);
                        }
                    }
                    ways.push(w);
                    names.push(name.clone());
                    proof {
                        lemma_ways_open(
                            points@,
                            lookups@,
                            prev,
                            ways@,
                            i as int,
                            ways@[prev.len() as int],
                        );
                    }
                },
            }
        } else {
            proof {
                lemma_ways_skip(points@, lookups@, ways@, i as int);
            }
        }
    }
    Ok(ways)
}

// ---------------------------------------------------------------------------
// Way distances.
// ---------------------------------------------------------------------------

/// The track points of a way, in its stored order.
pub open spec fn way_points(w: RideWay) -> Seq<TrackPoint> {
    w.points@.map_values(|wp: WayPoint| wp.point)
}

impl Distance for RideWay {
    open spec fn pairs_spec(&self) -> Seq<PointPair> {
        seq_pairs(way_points(*self))
    }

    fn distance_pairs(&self) -> (r: Vec<PointPair>) {
        let mut pts: Vec<TrackPoint> = Vec::new();
        let n = self.points.len();
        for j in 0..n
            invariant
                n == self.points@.len(),
                pts@ =~= way_points(*self).take(j as int),
        {
            pts.push(self.points[j].point);
            assert(pts@ =~= way_points(*self).take(j + 1));
        }
        assert(pts@ =~= way_points(*self));
        pts.distance_pairs()
    }
}

/// Folds the geodesic results for one way's consecutive pairs into the
/// way's distance. Everything else about the way is unchanged.
pub fn way_with_distance(w: RideWay, ds: &Vec<Option<u64>>) -> (r: RideWay)
    requires
        ds@.len() == seq_pairs(way_points(w)).len(),
    ensures
        r.seq == w.seq,
        r.osm_id == w.osm_id,
        r.points == w.points,
        r.distance as int == sum_mm(ds@),
{
    let total = sum_distances(ds);
    RideWay { seq: w.seq, osm_id: w.osm_id, distance: total, points: w.points }
}

/// Folds per-way geodesic results into every way of a list: `ds[k]` holds
/// one result per consecutive pair of `ways[k]`.
#[verifier::loop_isolation(false)]
pub fn ways_with_distances(ways: Vec<RideWay>, ds: &Vec<Vec<Option<u64>>>) -> (r: Vec<RideWay>)
    requires
        ds@.len() == ways@.len(),
        forall|k: int|
            0 <= k < ways@.len() ==> (#[trigger] ds@[k])@.len() == seq_pairs(
                way_points(ways@[k]),
            ).len(),
    ensures
        r@.len() == ways@.len(),
        forall|k: int|
            0 <= k < ways@.len() ==> {
                &&& (#[trigger] r@[k]).seq == ways@[k].seq
                &&& r@[k].osm_id == ways@[k].osm_id
                &&& r@[k].points == ways@[k].points
                &&& r@[k].distance as int == sum_mm(ds@[k]@)
            },
{
    let ghost all = ways@;
    let mut rest = ways;
    let mut out: Vec<RideWay> = Vec::new();
    let n = rest.len();
    for k in 0..n
        invariant
            rest@ =~= all.skip(k as int),
            out@.len() == k,
            forall|k2: int|
                0 <= k2 < k ==> {
                    &&& (#[trigger] out@[k2]).seq == all[k2].seq
                    &&& out@[k2].osm_id == all[k2].osm_id
                    &&& out@[k2].points == all[k2].points
                    &&& out@[k2].distance as int == sum_mm(ds@[k2]@)
                },
    {
        let w = rest.remove(0);
        assert(w == all[k as int]);
        let w2 = way_with_distance(w, &ds[k]);
        out.push(w2);
        assert(rest@ =~= all.skip(k + 1));
    }
    out
}

// ---------------------------------------------------------------------------
// Consequences of the grouping contract.
// ---------------------------------------------------------------------------

/// Every sequence index occurs at most once across the whole way list:
/// two distinct positions, in the same way or in different ways, never
/// hold the same index (and within one way the indices strictly increase,
/// which is part of `ways_ok` itself).
pub proof fn lemma_waypoint_indices_unique(
    points: Seq<TrackPoint>,
    rs: Seq<Result<NominatimPlace, LookupError>>,
    ways: Seq<RideWay>,
    k1: int,
    j1: int,
    k2: int,
    j2: int,
)
    requires
        ways_ok(points, rs, ways),
        0 <= k1 < ways.len(),
        0 <= j1 < ways[k1].points@.len(),
        0 <= k2 < ways.len(),
        0 <= j2 < ways[k2].points@.len(),
        k1 != k2 || j1 != j2,
    ensures
        ways[k1].points@[j1].seq != ways[k2].points@[j2].seq,
{
    if k1 == k2 {
        if j1 < j2 {
            assert(ways[k1].points@[j1].seq < ways[k1].points@[j2].seq);
        } else {
            assert(ways[k1].points@[j2].seq < ways[k1].points@[j1].seq);
        }
    } else if ways[k1].points@[j1].seq == ways[k2].points@[j2].seq {
        let s = ways[k1].points@[j1].seq as int;
        assert(outcome_key(rs[s]) == outcome_key(rs[ways[k1].seq as int]));
        assert(outcome_key(rs[s]) == outcome_key(rs[ways[k2].seq as int]));
        if k1 < k2 {
            assert(outcome_key(rs[ways[k1].seq as int]) != outcome_key(rs[ways[k2].seq as int]));
        } else {
            assert(outcome_key(rs[ways[k2].seq as int]) != outcome_key(rs[ways[k1].seq as int]));
        }
    }
}

/// A way's ordering key is the sequence index of the first accepted point
/// of its grouping key: every accepted index with the same key lies in
/// this very way, at or after the way's own index.
pub proof fn lemma_way_seq_is_first(
    points: Seq<TrackPoint>,
    rs: Seq<Result<NominatimPlace, LookupError>>,
    ways: Seq<RideWay>,
    k: int,
    i: int,
)
    requires
        ways_ok(points, rs, ways),
        0 <= k < ways.len(),
        0 <= i < rs.len(),
        outcome_accepted(rs[i]),
        outcome_key(rs[i]) == outcome_key(rs[ways[k].seq as int]),
    ensures
        ways[k].seq as int <= i,
        exists|j: int| 0 <= j < ways[k].points@.len() && (#[trigger] ways[k].points@[j]).seq == i,
{
    assert(ways_contain_seq(ways, i));
    let (k2, j2): (int, int) = choose|k2: int, j2: int|
        0 <= k2 < ways.len() && 0 <= j2 < ways[k2].points@.len() && (
        #[trigger] ways[k2].points@[j2]).seq == i;
    assert(outcome_key(rs[i]) == outcome_key(rs[ways[k2].seq as int]));
    if k2 != k {
        if k < k2 {
            assert(outcome_key(rs[ways[k].seq as int]) != outcome_key(rs[ways[k2].seq as int]));
        } else {
            assert(outcome_key(rs[ways[k2].seq as int]) != outcome_key(rs[ways[k].seq as int]));
        }
    }
    assert(k2 == k);
    assert(ways[k].points@.len() >= 1);
    if j2 > 0 {
        assert(ways[k].points@[0].seq < ways[k].points@[j2].seq);
    }
}

/// Whether some way of `ways` carries ordering key `s`.
pub open spec fn ways_have_seq(ways: Seq<RideWay>, s: u64) -> bool {
    exists|b: int| 0 <= b < ways.len() && (#[trigger] ways[b]).seq == s
}

/// Whether `wp` is among the points `ps`.
pub open spec fn points_have(ps: Seq<WayPoint>, wp: WayPoint) -> bool {
    exists|b: int| 0 <= b < ps.len() && (#[trigger] ps[b]) == wp
}

/// Two strictly ordered way lists whose ordering keys occur in each other
/// are aligned: equal lengths, and equal keys position by position.
#[verifier::rlimit(50)]
proof fn lemma_sorted_ways_align(w1: Seq<RideWay>, w2: Seq<RideWay>)
    requires
        forall|a: int, b: int| 0 <= a < b < w1.len() ==> (#[trigger] w1[a]).seq < (#[trigger] w1[b]).seq,
        forall|a: int, b: int| 0 <= a < b < w2.len() ==> (#[trigger] w2[a]).seq < (#[trigger] w2[b]).seq,
        forall|a: int| 0 <= a < w1.len() ==> ways_have_seq(w2, (#[trigger] w1[a]).seq),
        forall|b: int| 0 <= b < w2.len() ==> ways_have_seq(w1, (#[trigger] w2[b]).seq),
    ensures
        w1.len() == w2.len(),
        forall|a: int| 0 <= a < w1.len() ==> (#[trigger] w1[a]).seq == w2[a].seq,
    decreases w1.len(),
{
    if w1.len() == 0 {
        if w2.len() > 0 {
            assert(ways_have_seq(w1, w2[0].seq));
            let a = choose|a: int| 0 <= a < w1.len() && (#[trigger] w1[a]).seq == w2[0].seq;
            assert(false);
        }
    } else {
        assert(ways_have_seq(w2, w1[0].seq));
        let b0 = choose|b: int| 0 <= b < w2.len() && (#[trigger] w2[b]).seq == w1[0].seq;
        assert(ways_have_seq(w1, w2[0].seq));
        let a0 = choose|a: int| 0 <= a < w1.len() && (#[trigger] w1[a]).seq == w2[0].seq;
        if b0 > 0 {
            assert(w2[0].seq < w2[b0].seq);
        }
        if a0 > 0 {
            assert(w1[0].seq < w1[a0].seq);
        }
        assert(w1[0].seq == w2[0].seq);
        let t1 = w1.drop_first();
        let t2 = w2.drop_first();
        assert forall|a: int, b: int|
            0 <= a < b < t1.len() implies (#[trigger] t1[a]).seq < (#[trigger] t1[b]).seq by {
            assert(t1[a] == w1[a + 1]);
            assert(t1[b] == w1[b + 1]);
        }
        assert forall|a: int, b: int|
            0 <= a < b < t2.len() implies (#[trigger] t2[a]).seq < (#[trigger] t2[b]).seq by {
            assert(t2[a] == w2[a + 1]);
            assert(t2[b] == w2[b + 1]);
        }
        assert forall|a: int| 0 <= a < t1.len() implies ways_have_seq(t2, (#[trigger] t1[a]).seq) by {
            assert(t1[a] == w1[a + 1]);
            assert(ways_have_seq(w2, w1[a + 1].seq));
            let b = choose|b: int| 0 <= b < w2.len() && (#[trigger] w2[b]).seq == w1[a + 1].seq;
            assert(w1[0].seq < w1[a + 1].seq);
            assert(b != 0);
            assert(t2[b - 1] == w2[b]);
            assert(0 <= b - 1 < t2.len() && t2[b - 1].seq == t1[a].seq);
        }
        assert forall|b: int| 0 <= b < t2.len() implies ways_have_seq(t1, (#[trigger] t2[b]).seq) by {
            assert(t2[b] == w2[b + 1]);
            assert(ways_have_seq(w1, w2[b + 1].seq));
            let a = choose|a: int| 0 <= a < w1.len() && (#[trigger] w1[a]).seq == w2[b + 1].seq;
            assert(w2[0].seq < w2[b + 1].seq);
            assert(a != 0);
            assert(t1[a - 1] == w1[a]);
            assert(0 <= a - 1 < t1.len() && t1[a - 1].seq == t2[b].seq);
        }
        lemma_sorted_ways_align(t1, t2);
        assert forall|a: int| 0 <= a < w1.len() implies (#[trigger] w1[a]).seq == w2[a].seq by {
            if a > 0 {
                assert(t1[a - 1] == w1[a]);
                assert(t2[a - 1] == w2[a]);
                assert(t1[a - 1].seq == t2[a - 1].seq);
            }
        }
    }
}

/// Two strictly ordered point lists that contain each other's points are
/// equal.
#[verifier::rlimit(50)]
proof fn lemma_sorted_points_align(p1: Seq<WayPoint>, p2: Seq<WayPoint>)
    requires
        forall|a: int, b: int| 0 <= a < b < p1.len() ==> (#[trigger] p1[a]).seq < (#[trigger] p1[b]).seq,
        forall|a: int, b: int| 0 <= a < b < p2.len() ==> (#[trigger] p2[a]).seq < (#[trigger] p2[b]).seq,
        forall|a: int| 0 <= a < p1.len() ==> points_have(p2, #[trigger] p1[a]),
        forall|b: int| 0 <= b < p2.len() ==> points_have(p1, #[trigger] p2[b]),
    ensures
        p1 =~= p2,
    decreases p1.len(),
{
    if p1.len() == 0 {
        if p2.len() > 0 {
            assert(points_have(p1, p2[0]));
            let a = choose|a: int| 0 <= a < p1.len() && (#[trigger] p1[a]) == p2[0];
            assert(false);
        }
    } else {
        assert(points_have(p2, p1[0]));
        let b0 = choose|b: int| 0 <= b < p2.len() && (#[trigger] p2[b]) == p1[0];
        assert(points_have(p1, p2[0]));
        let a0 = choose|a: int| 0 <= a < p1.len() && (#[trigger] p1[a]) == p2[0];
        if b0 > 0 {
            assert(p2[0].seq < p2[b0].seq);
        }
        if a0 > 0 {
            assert(p1[0].seq < p1[a0].seq);
        }
        assert(p1[0] == p2[0]);
        let t1 = p1.drop_first();
        let t2 = p2.drop_first();
        assert forall|a: int, b: int|
            0 <= a < b < t1.len() implies (#[trigger] t1[a]).seq < (#[trigger] t1[b]).seq by {
            assert(t1[a] == p1[a + 1]);
            assert(t1[b] == p1[b + 1]);
        }
        assert forall|a: int, b: int|
            0 <= a < b < t2.len() implies (#[trigger] t2[a]).seq < (#[trigger] t2[b]).seq by {
            assert(t2[a] == p2[a + 1]);
            assert(t2[b] == p2[b + 1]);
        }
        assert forall|a: int| 0 <= a < t1.len() implies points_have(t2, #[trigger] t1[a]) by {
            assert(t1[a] == p1[a + 1]);
            assert(points_have(p2, p1[a + 1]));
            let b = choose|b: int| 0 <= b < p2.len() && (#[trigger] p2[b]) == p1[a + 1];
            assert(p1[0].seq < p1[a + 1].seq);
            assert(b != 0);
            assert(t2[b - 1] == p2[b]);
            assert(0 <= b - 1 < t2.len() && t2[b - 1] == t1[a]);
        }
        assert forall|b: int| 0 <= b < t2.len() implies points_have(t1, #[trigger] t2[b]) by {
            assert(t2[b] == p2[b + 1]);
            assert(points_have(p1, p2[b + 1]));
            let a = choose|a: int| 0 <= a < p1.len() && (#[trigger] p1[a]) == p2[b + 1];
            assert(p2[0].seq < p2[b + 1].seq);
            assert(a != 0);
            assert(t1[a - 1] == p1[a]);
            assert(0 <= a - 1 < t1.len() && t1[a - 1] == t2[b]);
        }
        lemma_sorted_points_align(t1, t2);
        assert(p1.len() == p2.len());
        assert forall|i: int| 0 <= i < p1.len() implies p1[i] == p2[i] by {
            if i > 0 {
                assert(p1[i] == t1[i - 1]);
                assert(p2[i] == t2[i - 1]);
                assert(t1[i - 1] == t2[i - 1]);
            }
        }
        assert(p1 =~= p2);
    }
}

/// Every ordering key of one contract-satisfying way list occurs in any
/// other: both lists assign each grouping key's first accepted index.
proof fn lemma_ways_cover_each_other(
    points: Seq<TrackPoint>,
    rs: Seq<Result<NominatimPlace, LookupError>>,
    w1: Seq<RideWay>,
    w2: Seq<RideWay>,
)
    requires
        ways_ok(points, rs, w1),
        ways_ok(points, rs, w2),
    ensures
        forall|a: int| 0 <= a < w1.len() ==> ways_have_seq(w2, (#[trigger] w1[a]).seq),
{
    assert forall|a: int| 0 <= a < w1.len() implies ways_have_seq(w2, (#[trigger] w1[a]).seq) by {
        let s = w1[a].seq as int;
        assert(w1[a].points@[0].seq == s);
        assert(outcome_accepted(rs[s]));
        assert(ways_contain_seq(w2, s));
        let (k2, j2): (int, int) = choose|k2: int, j2: int|
            0 <= k2 < w2.len() && 0 <= j2 < w2[k2].points@.len() && (
            #[trigger] w2[k2].points@[j2]).seq == s;
        assert(outcome_key(rs[s]) == outcome_key(rs[w2[k2].seq as int]));
        lemma_way_seq_is_first(points, rs, w2, k2, s);
        let s2 = w2[k2].seq as int;
        assert(w2[k2].points@[0].seq == s2);
        assert(outcome_accepted(rs[s2]));
        assert(outcome_key(rs[s2]) == outcome_key(rs[w1[a].seq as int]));
        lemma_way_seq_is_first(points, rs, w1, a, s2);
        assert(s == s2);
        assert(0 <= k2 < w2.len() && w2[k2].seq == w1[a].seq);
    }
}

/// Every point of a way of one contract-satisfying list occurs in the way
/// of the other list that carries the same grouping key.
proof fn lemma_same_key_points_subset(
    points: Seq<TrackPoint>,
    rs: Seq<Result<NominatimPlace, LookupError>>,
    wa: Seq<RideWay>,
    wb: Seq<RideWay>,
    ka: int,
    kb: int,
)
    requires
        ways_ok(points, rs, wa),
        ways_ok(points, rs, wb),
        0 <= ka < wa.len(),
        0 <= kb < wb.len(),
        outcome_key(rs[wa[ka].seq as int]) == outcome_key(rs[wb[kb].seq as int]),
    ensures
        forall|a: int|
            0 <= a < wa[ka].points@.len() ==> points_have(
                wb[kb].points@,
                #[trigger] wa[ka].points@[a],
            ),
{
    assert forall|a: int|
        0 <= a < wa[ka].points@.len() implies points_have(
        wb[kb].points@,
        #[trigger] wa[ka].points@[a],
    ) by {
        let s = wa[ka].points@[a].seq as int;
        assert(outcome_accepted(rs[s]));
        assert(outcome_key(rs[s]) == outcome_key(rs[wa[ka].seq as int]));
        assert(ways_contain_seq(wb, s));
        let (k2, j2): (int, int) = choose|k2: int, j2: int|
            0 <= k2 < wb.len() && 0 <= j2 < wb[k2].points@.len() && (
            #[trigger] wb[k2].points@[j2]).seq == s;
        assert(outcome_key(rs[s]) == outcome_key(rs[wb[k2].seq as int]));
        if k2 != kb {
            if kb < k2 {
                assert(outcome_key(rs[wb[kb].seq as int]) != outcome_key(rs[wb[k2].seq as int]));
            } else {
                assert(outcome_key(rs[wb[k2].seq as int]) != outcome_key(rs[wb[kb].seq as int]));
            }
        }
        assert(k2 == kb);
        assert(wa[ka].points@[a].point == points[s]);
        assert(wb[kb].points@[j2].point == points[s]);
        assert(wb[kb].points@[j2] == wa[ka].points@[a]);
    }
}

/// Segmentation is deterministic, so it is idempotent for a deterministic
/// lookup collaborator: any two way lists satisfying the grouping
/// contract for the same route and the same classifications are equal —
/// same length, and way for way the same ordering key, place identity,
/// distance and points. Running the segmenter twice on the same inputs
/// therefore yields the same ways.
pub proof fn lemma_segmentation_deterministic(
    points: Seq<TrackPoint>,
    rs: Seq<Result<NominatimPlace, LookupError>>,
    w1: Seq<RideWay>,
    w2: Seq<RideWay>,
)
    requires
        ways_ok(points, rs, w1),
        ways_ok(points, rs, w2),
    ensures
        w1.len() == w2.len(),
        forall|k: int|
            0 <= k < w1.len() ==> {
                &&& (#[trigger] w1[k]).seq == w2[k].seq
                &&& w1[k].osm_id == w2[k].osm_id
                &&& w1[k].distance == w2[k].distance
                &&& w1[k].points@ =~= w2[k].points@
            },
{
    lemma_ways_cover_each_other(points, rs, w1, w2);
    lemma_ways_cover_each_other(points, rs, w2, w1);
    lemma_sorted_ways_align(w1, w2);
    assert forall|k: int|
        0 <= k < w1.len() implies {
            &&& (#[trigger] w1[k]).seq == w2[k].seq
            &&& w1[k].osm_id == w2[k].osm_id
            &&& w1[k].distance == w2[k].distance
            &&& w1[k].points@ =~= w2[k].points@
        } by {
        assert(w1[k].seq == w2[k].seq);
        assert(w1[k].osm_id == outcome_osm_id(rs[w1[k].seq as int]));
        assert(w2[k].osm_id == outcome_osm_id(rs[w2[k].seq as int]));
        lemma_same_key_points_subset(points, rs, w1, w2, k, k);
        lemma_same_key_points_subset(points, rs, w2, w1, k, k);
        lemma_sorted_points_align(w1[k].points@, w2[k].points@);
    }
}

/// A route none of whose points classifies as a named road yields an
/// empty way list, without error.
pub proof fn lemma_no_roads_no_ways(
    points: Seq<TrackPoint>,
    rs: Seq<Result<NominatimPlace, LookupError>>,
    ways: Seq<RideWay>,
)
    requires
        ways_ok(points, rs, ways),
        forall|i: int| 0 <= i < rs.len() ==> !outcome_accepted(#[trigger] rs[i]),
    ensures
        ways.len() == 0,
{
    if ways.len() > 0 {
        assert(ways[0].points@.len() >= 1);
        let s = ways[0].points@[0].seq as int;
        assert(outcome_accepted(rs[s]));
    }
}

} // verus!
