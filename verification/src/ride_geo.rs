//! Polymorphic operations of the geometry algebra: point flattening and
//! start/end extraction, one trait per operation, implemented for every
//! document shape.

use vstd::prelude::*;

use crate::geom::Feature;
use crate::geom::FeatureCollection;
use crate::geom::GeoJson;
use crate::geom::Geometry;
use crate::geom::TrackPoint;
use crate::geom::Value;
use crate::geom::feature_end;
use crate::geom::feature_points;
use crate::geom::feature_start;
use crate::geom::fc_end;
use crate::geom::fc_start;
use crate::geom::features_points;
use crate::geom::geojson_points;
use crate::geom::lemma_features_points_push;
use crate::geom::push_value_points;
use crate::geom::value_end;
use crate::geom::value_points;
use crate::geom::value_start;

verus! {

/// The ordered, flattened sequence of all track points of a shape.
pub trait Points {
    /// The flattened points, as the specification sees them.
    spec fn points_spec(&self) -> Seq<TrackPoint>;

    /// Returns every track point of the shape, depth-first in list order.
    fn points(&self) -> (r: Vec<TrackPoint>)
        ensures
            r@ == self.points_spec(),
    ;
}

/// The first point of a shape in traversal order, if it has one.
pub trait StartPoint {
    /// The start point, as the specification sees it.
    spec fn start_spec(&self) -> Option<TrackPoint>;

    /// Returns the first point in traversal order.
    fn start_point(&self) -> (r: Option<TrackPoint>)
        ensures
            r == self.start_spec(),
    ;
}

/// The last point of a shape in traversal order, if it has one.
pub trait EndPoint {
    /// The end point, as the specification sees it.
    spec fn end_spec(&self) -> Option<TrackPoint>;

    /// Returns the last point in traversal order.
    fn end_point(&self) -> (r: Option<TrackPoint>)
        ensures
            r == self.end_spec(),
    ;
}

/// Returns the first point of a geometry value in traversal order.
fn value_start_point(v: &Value) -> (r: Option<TrackPoint>)
    ensures
        r == value_start(*v),
    decreases *v,
{
    match v {
        Value::Point(p) => Some(*p),
        Value::MultiPoint(ps) => if ps.len() == 0 {
            None
        } else {
            Some(ps[0])
        },
        Value::LineString(ps) => if ps.len() == 0 {
            None
        } else {
            Some(ps[0])
        },
        Value::MultiLineString(lines) => if lines.len() == 0 {
            None
        } else if lines[0].len() == 0 {
            None
        } else {
            Some(lines[0][0])
        },
        Value::Polygon(_) => None,
        Value::MultiPolygon(_) => None,
        Value::GeometryCollection(gs) => if gs.len() == 0 {
            None
        } else {
            proof {
                assert(decreases_to!(*v => v->GeometryCollection_0));
                assert(v->GeometryCollection_0 == *gs);
                assert(decreases_to!(*gs => gs@));
                assert(decreases_to!(gs@ => gs@[0]));
            }
            value_start_point(&gs[0].value)
        },
    }
}

/// Returns the last point of a geometry value in traversal order.
fn value_end_point(v: &Value) -> (r: Option<TrackPoint>)
    ensures
        r == value_end(*v),
    decreases *v,
{
    match v {
        Value::Point(p) => Some(*p),
        Value::MultiPoint(ps) => if ps.len() == 0 {
            None
        } else {
            Some(ps[ps.len() - 1])
        },
        Value::LineString(ps) => if ps.len() == 0 {
            None
        } else {
            Some(ps[ps.len() - 1])
        },
        Value::MultiLineString(lines) => if lines.len() == 0 {
            None
        } else {
            let last = &lines[lines.len() - 1];
            if last.len() == 0 {
                None
            } else {
                Some(last[last.len() - 1])
            }
        },
        Value::Polygon(_) => None,
        Value::MultiPolygon(_) => None,
        Value::GeometryCollection(gs) => if gs.len() == 0 {
            None
        } else {
            proof {
                assert(decreases_to!(*v => v->GeometryCollection_0));
                assert(v->GeometryCollection_0 == *gs);
                assert(decreases_to!(*gs => gs@));
                assert(decreases_to!(gs@ => gs@[gs@.len() - 1]));
            }
            value_end_point(&gs[gs.len() - 1].value)
        },
    }
}

impl Points for Value {
    open spec fn points_spec(&self) -> Seq<TrackPoint> {
        value_points(*self)
    }

    fn points(&self) -> (r: Vec<TrackPoint>) {
        let mut out: Vec<TrackPoint> = Vec::new();
        push_value_points(self, &mut out);
        out
    }
}

impl StartPoint for Value {
    open spec fn start_spec(&self) -> Option<TrackPoint> {
        value_start(*self)
    }

    fn start_point(&self) -> (r: Option<TrackPoint>) {
        value_start_point(self)
    }
}

impl EndPoint for Value {
    open spec fn end_spec(&self) -> Option<TrackPoint> {
        value_end(*self)
    }

    fn end_point(&self) -> (r: Option<TrackPoint>) {
        value_end_point(self)
    }
}

impl Points for Geometry {
    open spec fn points_spec(&self) -> Seq<TrackPoint> {
        value_points(self.value)
    }

    fn points(&self) -> (r: Vec<TrackPoint>) {
        self.value.points()
    }
}

impl StartPoint for Geometry {
    open spec fn start_spec(&self) -> Option<TrackPoint> {
        value_start(self.value)
    }

    fn start_point(&self) -> (r: Option<TrackPoint>) {
        self.value.start_point()
    }
}

impl EndPoint for Geometry {
    open spec fn end_spec(&self) -> Option<TrackPoint> {
        value_end(self.value)
    }

    fn end_point(&self) -> (r: Option<TrackPoint>) {
        self.value.end_point()
    }
}

impl Points for Feature {
    open spec fn points_spec(&self) -> Seq<TrackPoint> {
        feature_points(*self)
    }

    fn points(&self) -> (r: Vec<TrackPoint>) {
        match &self.geometry {
            Some(g) => g.points(),
            None => Vec::new(),
        }
    }
}

impl StartPoint for Feature {
    open spec fn start_spec(&self) -> Option<TrackPoint> {
        feature_start(*self)
    }

    fn start_point(&self) -> (r: Option<TrackPoint>) {
        match &self.geometry {
            Some(g) => g.start_point(),
            None => None,
        }
    }
}

impl EndPoint for Feature {
    open spec fn end_spec(&self) -> Option<TrackPoint> {
        feature_end(*self)
    }

    fn end_point(&self) -> (r: Option<TrackPoint>) {
        match &self.geometry {
            Some(g) => g.end_point(),
            None => None,
        }
    }
}

impl Points for FeatureCollection {
    open spec fn points_spec(&self) -> Seq<TrackPoint> {
        features_points(self.features@)
    }

    fn points(&self) -> (r: Vec<TrackPoint>) {
        let mut out: Vec<TrackPoint> = Vec::new();
        let n = self.features.len();
        for i in 0..n
            invariant
                n == self.features@.len(),
                out@ == features_points(self.features@.take(i as int)),
        {
            let mut part = self.features[i].points();
            out.append(&mut part);
            proof {
                lemma_features_points_push(
                    self.features@.take(i as int),
                    self.features@[i as int],
                );
                assert(self.features@.take(i + 1) =~= self.features@.take(i as int).push(
                    self.features@[i as int],
                ));
            }
        }
        proof {
            assert(self.features@.take(n as int) =~= self.features@);
        }
        out
    }
}

impl StartPoint for FeatureCollection {
    open spec fn start_spec(&self) -> Option<TrackPoint> {
        fc_start(*self)
    }

    fn start_point(&self) -> (r: Option<TrackPoint>) {
        if self.features.len() == 0 {
            None
        } else {
            self.features[0].start_point()
        }
    }
}

impl EndPoint for FeatureCollection {
    open spec fn end_spec(&self) -> Option<TrackPoint> {
        fc_end(*self)
    }

    fn end_point(&self) -> (r: Option<TrackPoint>) {
        if self.features.len() == 0 {
            None
        } else {
            self.features[self.features.len() - 1].end_point()
        }
    }
}

impl Points for GeoJson {
    open spec fn points_spec(&self) -> Seq<TrackPoint> {
        geojson_points(*self)
    }

    fn points(&self) -> (r: Vec<TrackPoint>) {
        match self {
            GeoJson::Geometry(g) => g.points(),
            GeoJson::Feature(f) => f.points(),
            GeoJson::FeatureCollection(fc) => fc.points(),
        }
    }
}

impl StartPoint for GeoJson {
    open spec fn start_spec(&self) -> Option<TrackPoint> {
        match *self {
            GeoJson::Geometry(g) => value_start(g.value),
            GeoJson::Feature(f) => feature_start(f),
            GeoJson::FeatureCollection(fc) => fc_start(fc),
        }
    }

    fn start_point(&self) -> (r: Option<TrackPoint>) {
        match self {
            GeoJson::Geometry(g) => g.start_point(),
            GeoJson::Feature(f) => f.start_point(),
            GeoJson::FeatureCollection(fc) => fc.start_point(),
        }
    }
}

impl EndPoint for GeoJson {
    open spec fn end_spec(&self) -> Option<TrackPoint> {
        match *self {
            GeoJson::Geometry(g) => value_end(g.value),
            GeoJson::Feature(f) => feature_end(f),
            GeoJson::FeatureCollection(fc) => fc_end(fc),
        }
    }

    fn end_point(&self) -> (r: Option<TrackPoint>) {
        match self {
            GeoJson::Geometry(g) => g.end_point(),
            GeoJson::Feature(f) => f.end_point(),
            GeoJson::FeatureCollection(fc) => fc.end_point(),
        }
    }
}

// ---------------------------------------------------------------------------
// Bounding boxes.
// ---------------------------------------------------------------------------

/// `r` is the bounding box of the coordinates `s`, in the four-element
/// form `[min x, min y, max x, max y]`: it bounds every coordinate, and
/// each of its sides is attained by some coordinate.
pub open spec fn is_bbox(s: Seq<TrackPoint>, r: Seq<i64>) -> bool {
    &&& r.len() == 4
    &&& forall|i: int|
        0 <= i < s.len() ==> r[0] <= #[trigger] s[i].x <= r[2] && r[1] <= s[i].y <= r[3]
    &&& exists|i: int| 0 <= i < s.len() && (#[trigger] s[i].x) == r[0]
    &&& exists|i: int| 0 <= i < s.len() && (#[trigger] s[i].y) == r[1]
    &&& exists|i: int| 0 <= i < s.len() && (#[trigger] s[i].x) == r[2]
    &&& exists|i: int| 0 <= i < s.len() && (#[trigger] s[i].y) == r[3]
}

/// Computes the bounding box of a coordinate vector in one scan, or `None`
/// where there are no coordinates.
#[verifier::loop_isolation(false)]
pub fn bbox_of_coords(coords: &Vec<TrackPoint>) -> (r: Option<Vec<i64>>)
    ensures
        match r {
            Some(bb) => is_bbox(coords@, bb@),
            None => coords@.len() == 0,
        },
{
    let n = coords.len();
    if n == 0 {
        return None;
    }
    let mut min_x: i64 = coords[0].x;
    let mut min_y: i64 = coords[0].y;
    let mut max_x: i64 = coords[0].x;
    let mut max_y: i64 = coords[0].y;
    for i in 1..n
        invariant
            forall|j: int|
                0 <= j < i ==> min_x <= #[trigger] coords@[j].x <= max_x && min_y <= coords@[j].y
                    <= max_y,
            exists|j: int| 0 <= j < i && (#[trigger] coords@[j].x) == min_x,
            exists|j: int| 0 <= j < i && (#[trigger] coords@[j].y) == min_y,
            exists|j: int| 0 <= j < i && (#[trigger] coords@[j].x) == max_x,
            exists|j: int| 0 <= j < i && (#[trigger] coords@[j].y) == max_y,
    {
        let p = coords[i];
        if p.x < min_x {
            min_x = p.x;
        }
        if p.y < min_y {
            min_y = p.y;
        }
        if p.x > max_x {
            max_x = p.x;
        }
        if p.y > max_y {
            max_y = p.y;
        }
    }
    let mut bb: Vec<i64> = Vec::new();
    bb.push(min_x);
    bb.push(min_y);
    bb.push(max_x);
    bb.push(max_y);
    Some(bb)
}

/// The bounding box of a shape: the minimal
/// axis-aligned rectangle `[min x, min y, max x, max y]` spanning every
/// coordinate of the shape, polygon rings included; `None` where the shape
/// has no coordinates.
pub trait BoundingBox {
    /// Every coordinate of the shape, as the specification sees it.
    spec fn coords_spec(&self) -> Seq<TrackPoint>;

    /// Returns the bounding box of the shape, computed in one scan.
    fn bounding_box(&self) -> (r: Option<Vec<i64>>)
        ensures
            match r {
                Some(bb) => is_bbox(self.coords_spec(), bb@),
                None => self.coords_spec().len() == 0,
            },
    ;
}

impl BoundingBox for Vec<TrackPoint> {
    open spec fn coords_spec(&self) -> Seq<TrackPoint> {
        self@
    }

    fn bounding_box(&self) -> (r: Option<Vec<i64>>) {
        bbox_of_coords(self)
    }
}

impl BoundingBox for Vec<Vec<TrackPoint>> {
    open spec fn coords_spec(&self) -> Seq<TrackPoint> {
        crate::geom::lines_points(self@)
    }

    fn bounding_box(&self) -> (r: Option<Vec<i64>>) {
        let mut coords: Vec<TrackPoint> = Vec::new();
        crate::geom::push_lines_points(self, &mut coords);
        bbox_of_coords(&coords)
    }
}

impl BoundingBox for Value {
    open spec fn coords_spec(&self) -> Seq<TrackPoint> {
        crate::geom::value_coords(*self)
    }

    fn bounding_box(&self) -> (r: Option<Vec<i64>>) {
        let mut coords: Vec<TrackPoint> = Vec::new();
        crate::geom::push_value_coords(self, &mut coords);
        bbox_of_coords(&coords)
    }
}

impl BoundingBox for Geometry {
    open spec fn coords_spec(&self) -> Seq<TrackPoint> {
        crate::geom::value_coords(self.value)
    }

    fn bounding_box(&self) -> (r: Option<Vec<i64>>) {
        self.value.bounding_box()
    }
}

/// Every bounding box of a larger coordinate set contains every bounding
/// box of a subset: combining two non-empty geometries into a collection
/// can only widen the box. `t` is a subset of `s` in the sense that each
/// of its coordinates occurs in `s`.
pub proof fn lemma_bbox_superset(s: Seq<TrackPoint>, t: Seq<TrackPoint>, r: Seq<i64>, rt: Seq<i64>)
    requires
        is_bbox(s, r),
        is_bbox(t, rt),
        forall|i: int| 0 <= i < t.len() ==> exists|j: int| 0 <= j < s.len() && #[trigger] t[i] == s[j],
    ensures
        r[0] <= rt[0],
        r[1] <= rt[1],
        rt[2] <= r[2],
        rt[3] <= r[3],
{
    let i0 = choose|i: int| 0 <= i < t.len() && (#[trigger] t[i].x) == rt[0];
    let i1 = choose|i: int| 0 <= i < t.len() && (#[trigger] t[i].y) == rt[1];
    let i2 = choose|i: int| 0 <= i < t.len() && (#[trigger] t[i].x) == rt[2];
    let i3 = choose|i: int| 0 <= i < t.len() && (#[trigger] t[i].y) == rt[3];
    let j0 = choose|j: int| 0 <= j < s.len() && t[i0] == s[j];
    let j1 = choose|j: int| 0 <= j < s.len() && t[i1] == s[j];
    let j2 = choose|j: int| 0 <= j < s.len() && t[i2] == s[j];
    let j3 = choose|j: int| 0 <= j < s.len() && t[i3] == s[j];
    assert(r[0] <= s[j0].x <= r[2]);
    assert(r[0] <= s[j1].x <= r[2]);
    assert(r[0] <= s[j2].x <= r[2]);
    assert(r[0] <= s[j3].x <= r[2]);
}

/// The bounding box of a collection of two geometries contains the
/// bounding box of each of them: the coordinates of either member are a
/// subset of the collection's.
pub proof fn lemma_collection_bbox_superset(
    gs: Vec<Geometry>,
    r: Seq<i64>,
    ra: Seq<i64>,
    rb: Seq<i64>,
)
    requires
        gs@.len() == 2,
        is_bbox(crate::geom::value_coords(Value::GeometryCollection(gs)), r),
        is_bbox(crate::geom::value_coords(gs@[0].value), ra),
        is_bbox(crate::geom::value_coords(gs@[1].value), rb),
    ensures
        r[0] <= ra[0] && r[1] <= ra[1] && ra[2] <= r[2] && ra[3] <= r[3],
        r[0] <= rb[0] && r[1] <= rb[1] && rb[2] <= r[2] && rb[3] <= r[3],
{
    let ca = crate::geom::value_coords(gs@[0].value);
    let cb = crate::geom::value_coords(gs@[1].value);
    let all = crate::geom::value_coords(Value::GeometryCollection(gs));
    assert(gs@.drop_first().drop_first() =~= Seq::<Geometry>::empty());
    assert(gs@.drop_first()[0] == gs@[1]);
    assert(crate::geom::geometries_coords(gs@.drop_first().drop_first())
        =~= Seq::<TrackPoint>::empty());
    assert(crate::geom::geometries_coords(gs@.drop_first()) =~= cb + Seq::<TrackPoint>::empty());
    assert(all =~= ca + cb);
    assert forall|i: int| 0 <= i < ca.len() implies exists|j: int|
        0 <= j < all.len() && #[trigger] ca[i] == all[j] by {
        assert(ca[i] == all[i]);
    }
    assert forall|i: int| 0 <= i < cb.len() implies exists|j: int|
        0 <= j < all.len() && #[trigger] cb[i] == all[j] by {
        assert(cb[i] == all[ca.len() + i]);
    }
    lemma_bbox_superset(all, ca, r, ra);
    lemma_bbox_superset(all, cb, r, rb);
}

} // verus!
