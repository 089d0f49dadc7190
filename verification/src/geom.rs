//! The geometry model: a tagged union of geometry kinds mirroring GeoJSON,
//! together with the spec-level point flattening and start/end extraction
//! that the geometry algebra, the distance engine and the way segmenter
//! are specified against.

use vstd::prelude::*;

verus! {

/// One coordinate of a track: `x` is the longitude and `y` the latitude,
/// both in degrees scaled by 10^7 (fixed-point).
#[derive(Clone, Copy, PartialEq, Eq, Structural, Debug)]
pub struct TrackPoint {
    pub x: i64,
    pub y: i64,
}

/// A geometry value: the closed set of geometry kinds. A
/// `GeometryCollection` holds further geometries, so the type is recursive.
pub enum Value {
    Point(TrackPoint),
    MultiPoint(Vec<TrackPoint>),
    LineString(Vec<TrackPoint>),
    MultiLineString(Vec<Vec<TrackPoint>>),
    Polygon(Vec<Vec<TrackPoint>>),
    MultiPolygon(Vec<Vec<Vec<TrackPoint>>>),
    GeometryCollection(Vec<Geometry>),
}

/// A geometry value together with an optional cached bounding box.
pub struct Geometry {
    pub bbox: Option<Vec<i64>>,
    pub value: Value,
}

/// Properties attached to a feature: the distance of its geometry in
/// millimetres, and an optional display name.
pub struct FeatureProperties {
    pub distance: u128,
    pub name: Option<String>,
}

/// A feature: an optional geometry with an optional bounding box, an
/// optional identifier and an optional property bag.
pub struct Feature {
    pub bbox: Option<Vec<i64>>,
    pub geometry: Option<Geometry>,
    pub id: Option<String>,
    pub properties: Option<FeatureProperties>,
}

/// An ordered collection of features.
pub struct FeatureCollection {
    pub bbox: Option<Vec<i64>>,
    pub features: Vec<Feature>,
}

/// Any of the three top-level document shapes.
pub enum GeoJson {
    Geometry(Geometry),
    Feature(Feature),
    FeatureCollection(FeatureCollection),
}

// ---------------------------------------------------------------------------
// Point flattening, in spec.
// ---------------------------------------------------------------------------

/// The points of a sequence of lines, flattened in list order.
pub open spec fn lines_points(lines: Seq<Vec<TrackPoint>>) -> Seq<TrackPoint>
    decreases lines.len(),
{
    if lines.len() == 0 {
        Seq::empty()
    } else {
        lines[0]@ + lines_points(lines.drop_first())
    }
}

/// The points of a geometry value, flattened depth-first in list order.
/// Polygons and multi-polygons contribute no points: only point- and
/// line-like kinds represent a traversable track.
pub open spec fn value_points(v: Value) -> Seq<TrackPoint>
    decreases v,
{
    match v {
        Value::Point(p) => seq![p],
        Value::MultiPoint(ps) => ps@,
        Value::LineString(ps) => ps@,
        Value::MultiLineString(lines) => lines_points(lines@),
        Value::Polygon(_) => Seq::empty(),
        Value::MultiPolygon(_) => Seq::empty(),
        Value::GeometryCollection(gs) => geometries_points(gs@),
    }
}

/// The points of a sequence of geometries, flattened in list order.
pub open spec fn geometries_points(gs: Seq<Geometry>) -> Seq<TrackPoint>
    decreases gs,
{
    if gs.len() == 0 {
        Seq::empty()
    } else {
        value_points(gs[0].value) + geometries_points(gs.drop_first())
    }
}

/// Every coordinate of a sequence of polygons, flattened in list order.
pub open spec fn polygons_coords(ps: Seq<Vec<Vec<TrackPoint>>>) -> Seq<TrackPoint>
    decreases ps.len(),
{
    if ps.len() == 0 {
        Seq::empty()
    } else {
        lines_points(ps[0]@) + polygons_coords(ps.drop_first())
    }
}

/// Every coordinate of a geometry value, flattened depth-first in list
/// order. Unlike `value_points`, polygon rings do contribute: a bounding
/// box spans all coordinates of a geometry.
pub open spec fn value_coords(v: Value) -> Seq<TrackPoint>
    decreases v,
{
    match v {
        Value::Point(p) => seq![p],
        Value::MultiPoint(ps) => ps@,
        Value::LineString(ps) => ps@,
        Value::MultiLineString(lines) => lines_points(lines@),
        Value::Polygon(rings) => lines_points(rings@),
        Value::MultiPolygon(ps) => polygons_coords(ps@),
        Value::GeometryCollection(gs) => geometries_coords(gs@),
    }
}

/// Every coordinate of a sequence of geometries, flattened in list order.
pub open spec fn geometries_coords(gs: Seq<Geometry>) -> Seq<TrackPoint>
    decreases gs,
{
    if gs.len() == 0 {
        Seq::empty()
    } else {
        value_coords(gs[0].value) + geometries_coords(gs.drop_first())
    }
}

/// The points of a feature: those of its geometry, if it has one.
pub open spec fn feature_points(f: Feature) -> Seq<TrackPoint> {
    match f.geometry {
        Some(g) => value_points(g.value),
        None => Seq::empty(),
    }
}

/// The points of a sequence of features, flattened in list order.
pub open spec fn features_points(fs: Seq<Feature>) -> Seq<TrackPoint>
    decreases fs.len(),
{
    if fs.len() == 0 {
        Seq::empty()
    } else {
        feature_points(fs[0]) + features_points(fs.drop_first())
    }
}

/// The points of any top-level document shape.
pub open spec fn geojson_points(gj: GeoJson) -> Seq<TrackPoint> {
    match gj {
        GeoJson::Geometry(g) => value_points(g.value),
        GeoJson::Feature(f) => feature_points(f),
        GeoJson::FeatureCollection(fc) => features_points(fc.features@),
    }
}

// ---------------------------------------------------------------------------
// Start and end points, in spec.
// ---------------------------------------------------------------------------

/// The first point of a geometry value in traversal order. A
/// multi-line-string starts at the first coordinate of its first sub-line
/// (none if the first sub-line is empty); a collection delegates to its
/// first child; polygons have no start point.
pub open spec fn value_start(v: Value) -> Option<TrackPoint>
    decreases v,
{
    match v {
        Value::Point(p) => Some(p),
        Value::MultiPoint(ps) => if ps@.len() == 0 {
            None
        } else {
            Some(ps@[0])
        },
        Value::LineString(ps) => if ps@.len() == 0 {
            None
        } else {
            Some(ps@[0])
        },
        Value::MultiLineString(lines) => if lines@.len() == 0 || lines@[0]@.len() == 0 {
            None
        } else {
            Some(lines@[0]@[0])
        },
        Value::Polygon(_) => None,
        Value::MultiPolygon(_) => None,
        Value::GeometryCollection(gs) => if gs@.len() == 0 {
            None
        } else {
            value_start(gs@[0].value)
        },
    }
}

/// The last point of a geometry value in traversal order, symmetric to
/// `value_start`.
pub open spec fn value_end(v: Value) -> Option<TrackPoint>
    decreases v,
{
    match v {
        Value::Point(p) => Some(p),
        Value::MultiPoint(ps) => if ps@.len() == 0 {
            None
        } else {
            Some(ps@.last())
        },
        Value::LineString(ps) => if ps@.len() == 0 {
            None
        } else {
            Some(ps@.last())
        },
        Value::MultiLineString(lines) => if lines@.len() == 0 || lines@.last()@.len() == 0 {
            None
        } else {
            Some(lines@.last()@.last())
        },
        Value::Polygon(_) => None,
        Value::MultiPolygon(_) => None,
        Value::GeometryCollection(gs) => if gs@.len() == 0 {
            None
        } else {
            value_end(gs@.last().value)
        },
    }
}

/// The start point of a feature: that of its geometry, if present.
pub open spec fn feature_start(f: Feature) -> Option<TrackPoint> {
    match f.geometry {
        Some(g) => value_start(g.value),
        None => None,
    }
}

/// The end point of a feature: that of its geometry, if present.
pub open spec fn feature_end(f: Feature) -> Option<TrackPoint> {
    match f.geometry {
        Some(g) => value_end(g.value),
        None => None,
    }
}

/// The start point of a collection: that of its first feature.
pub open spec fn fc_start(fc: FeatureCollection) -> Option<TrackPoint> {
    if fc.features@.len() == 0 {
        None
    } else {
        feature_start(fc.features@[0])
    }
}

/// The end point of a collection: that of its last feature.
pub open spec fn fc_end(fc: FeatureCollection) -> Option<TrackPoint> {
    if fc.features@.len() == 0 {
        None
    } else {
        feature_end(fc.features@.last())
    }
}

/// A collection delegates its start point to its first child and its end
/// point to its last child, recursively; an empty collection has neither.
/// In particular, when the first child has a defined start point the
/// collection's start point equals it, and likewise at the end.
pub proof fn lemma_collection_start_end(gs: Vec<Geometry>)
    ensures
        gs@.len() == 0 ==> value_start(Value::GeometryCollection(gs)) is None && value_end(
            Value::GeometryCollection(gs),
        ) is None,
        gs@.len() > 0 ==> value_start(Value::GeometryCollection(gs)) == value_start(gs@[0].value)
            && value_end(Value::GeometryCollection(gs)) == value_end(gs@.last().value),
{
}

// ---------------------------------------------------------------------------
// Lemmas about flattening.
// ---------------------------------------------------------------------------

/// Appending one more line extends the flattened points by that line.
pub proof fn lemma_lines_points_push(s: Seq<Vec<TrackPoint>>, l: Vec<TrackPoint>)
    ensures
        lines_points(s.push(l)) == lines_points(s) + l@,
    decreases s.len(),
{
    if s.len() == 0 {
        assert(s.push(l).drop_first() =~= s);
        assert(lines_points(s.push(l)) =~= lines_points(s) + l@);
    } else {
        assert(s.push(l).drop_first() =~= s.drop_first().push(l));
        lemma_lines_points_push(s.drop_first(), l);
        assert(lines_points(s.push(l)) =~= lines_points(s) + l@);
    }
}

/// Appending one more geometry extends the flattened points by its points.
pub proof fn lemma_geometries_points_push(s: Seq<Geometry>, g: Geometry)
    ensures
        geometries_points(s.push(g)) == geometries_points(s) + value_points(g.value),
    decreases s.len(),
{
    if s.len() == 0 {
        assert(s.push(g).drop_first() =~= s);
        assert(geometries_points(s.push(g)) =~= geometries_points(s) + value_points(g.value));
    } else {
        assert(s.push(g).drop_first() =~= s.drop_first().push(g));
        lemma_geometries_points_push(s.drop_first(), g);
        assert(geometries_points(s.push(g)) =~= geometries_points(s) + value_points(g.value));
    }
}

/// Appending one more feature extends the flattened points by its points.
pub proof fn lemma_features_points_push(s: Seq<Feature>, f: Feature)
    ensures
        features_points(s.push(f)) == features_points(s) + feature_points(f),
    decreases s.len(),
{
    if s.len() == 0 {
        assert(s.push(f).drop_first() =~= s);
        assert(features_points(s.push(f)) =~= features_points(s) + feature_points(f));
    } else {
        assert(s.push(f).drop_first() =~= s.drop_first().push(f));
        lemma_features_points_push(s.drop_first(), f);
        assert(features_points(s.push(f)) =~= features_points(s) + feature_points(f));
    }
}

// ---------------------------------------------------------------------------
// Executable flattening.
// ---------------------------------------------------------------------------

/// Appending one more polygon extends the flattened coordinates by that
/// polygon's ring coordinates.
pub proof fn lemma_polygons_coords_push(s: Seq<Vec<Vec<TrackPoint>>>, p: Vec<Vec<TrackPoint>>)
    ensures
        polygons_coords(s.push(p)) == polygons_coords(s) + lines_points(p@),
    decreases s.len(),
{
    if s.len() == 0 {
        assert(s.push(p).drop_first() =~= s);
        assert(polygons_coords(s.push(p)) =~= polygons_coords(s) + lines_points(p@));
    } else {
        assert(s.push(p).drop_first() =~= s.drop_first().push(p));
        lemma_polygons_coords_push(s.drop_first(), p);
        assert(polygons_coords(s.push(p)) =~= polygons_coords(s) + lines_points(p@));
    }
}

/// Appending one more geometry extends the flattened coordinates by its
/// coordinates.
pub proof fn lemma_geometries_coords_push(s: Seq<Geometry>, g: Geometry)
    ensures
        geometries_coords(s.push(g)) == geometries_coords(s) + value_coords(g.value),
    decreases s.len(),
{
    if s.len() == 0 {
        assert(s.push(g).drop_first() =~= s);
        assert(geometries_coords(s.push(g)) =~= geometries_coords(s) + value_coords(g.value));
    } else {
        assert(s.push(g).drop_first() =~= s.drop_first().push(g));
        lemma_geometries_coords_push(s.drop_first(), g);
        assert(geometries_coords(s.push(g)) =~= geometries_coords(s) + value_coords(g.value));
    }
}

/// Appends every point of `ps` to `out`.
fn push_plain_points(ps: &Vec<TrackPoint>, out: &mut Vec<TrackPoint>)
    ensures
        final(out)@ == old(out)@ + ps@,
{
    let n = ps.len();
    for i in 0..n
        invariant
            n == ps@.len(),
            out@ == old(out)@ + ps@.take(i as int),
    {
        out.push(ps[i]);
        assert(ps@.take(i + 1) =~= ps@.take(i as int).push(ps@[i as int]));
        assert(out@ =~= old(out)@ + ps@.take(i + 1));
    }
    assert(ps@.take(n as int) =~= ps@);
}

/// Appends the flattened points of a geometry value to `out`, depth-first
/// in list order.
#[verifier::loop_isolation(false)]
pub fn push_value_points(v: &Value, out: &mut Vec<TrackPoint>)
    ensures
        final(out)@ == old(out)@ + value_points(*v),
    decreases *v,
{
    match v {
        Value::Point(p) => {
            out.push(*p);
            assert(out@ =~= old(out)@ + value_points(*v));
        },
        Value::MultiPoint(ps) => {
            push_plain_points(ps, out);
        },
        Value::LineString(ps) => {
            push_plain_points(ps, out);
        },
        Value::MultiLineString(lines) => {
            let n = lines.len();
            for i in 0..n
                invariant
                    n == lines@.len(),
                    out@ == old(out)@ + lines_points(lines@.take(i as int)),
            {
                push_plain_points(&lines[i], out);
                proof {
                    lemma_lines_points_push(lines@.take(i as int), lines@[i as int]);
                    assert(lines@.take(i + 1) =~= lines@.take(i as int).push(lines@[i as int]));
                }
            }
            assert(lines@.take(n as int) =~= lines@);
        },
        Value::Polygon(_) => {
        },
        Value::MultiPolygon(_) => {
        },
        Value::GeometryCollection(gs) => {
            let n = gs.len();
            for i in 0..n
                invariant
                    n == gs@.len(),
                    out@ == old(out)@ + geometries_points(gs@.take(i as int)),
            {
                proof {
                    assert(decreases_to!(*v => v->GeometryCollection_0));
                    assert(v->GeometryCollection_0 == *gs);
                    assert(decreases_to!(*gs => gs@));
                    assert(decreases_to!(gs@ => gs@[i as int]));
                    assert(decreases_to!(gs@[i as int] => gs@[i as int].value));
                    assert(decreases_to!(*v => gs@[i as int].value));
                }
                push_value_points(&gs[i].value, out);
                proof {
                    lemma_geometries_points_push(gs@.take(i as int), gs@[i as int]);
                    assert(gs@.take(i + 1) =~= gs@.take(i as int).push(gs@[i as int]));
                }
            }
            assert(gs@.take(n as int) =~= gs@);
        },
    }
}

/// Appends the flattened points of a sequence of lines to `out`.
#[verifier::loop_isolation(false)]
pub fn push_lines_points(lines: &Vec<Vec<TrackPoint>>, out: &mut Vec<TrackPoint>)
    ensures
        final(out)@ == old(out)@ + lines_points(lines@),
{
    let n = lines.len();
    for i in 0..n
        invariant
            out@ == old(out)@ + lines_points(lines@.take(i as int)),
    {
        push_plain_points(&lines[i], out);
        proof {
            lemma_lines_points_push(lines@.take(i as int), lines@[i as int]);
            assert(lines@.take(i + 1) =~= lines@.take(i as int).push(lines@[i as int]));
        }
    }
    proof {
        assert(lines@.take(n as int) =~= lines@);
    }
}

/// Appends every coordinate of a geometry value to `out`, depth-first in
/// list order, polygon rings included.
#[verifier::loop_isolation(false)]
pub fn push_value_coords(v: &Value, out: &mut Vec<TrackPoint>)
    ensures
        final(out)@ == old(out)@ + value_coords(*v),
    decreases *v,
{
    match v {
        Value::Point(p) => {
            out.push(*p);
            assert(out@ =~= old(out)@ + value_coords(*v));
        },
        Value::MultiPoint(ps) => {
            push_plain_points(ps, out);
        },
        Value::LineString(ps) => {
            push_plain_points(ps, out);
        },
        Value::MultiLineString(lines) => {
            push_lines_points(lines, out);
        },
        Value::Polygon(rings) => {
            push_lines_points(rings, out);
        },
        Value::MultiPolygon(polys) => {
            let n = polys.len();
            for i in 0..n
                invariant
                    n == polys@.len(),
                    out@ == old(out)@ + polygons_coords(polys@.take(i as int)),
            {
                push_lines_points(&polys[i], out);
                proof {
                    lemma_polygons_coords_push(polys@.take(i as int), polys@[i as int]);
                    assert(polys@.take(i + 1) =~= polys@.take(i as int).push(polys@[i as int]));
                }
            }
            assert(polys@.take(n as int) =~= polys@);
        },
        Value::GeometryCollection(gs) => {
            let n = gs.len();
            for i in 0..n
                invariant
                    n == gs@.len(),
                    out@ == old(out)@ + geometries_coords(gs@.take(i as int)),
            {
                proof {
                    assert(decreases_to!(*v => v->GeometryCollection_0));
                    assert(v->GeometryCollection_0 == *gs);
                    assert(decreases_to!(*gs => gs@));
                    assert(decreases_to!(gs@ => gs@[i as int]));
                    assert(decreases_to!(gs@[i as int] => gs@[i as int].value));
                    assert(decreases_to!(*v => gs@[i as int].value));
                }
                push_value_coords(&gs[i].value, out);
                proof {
                    lemma_geometries_coords_push(gs@.take(i as int), gs@[i as int]);
                    assert(gs@.take(i + 1) =~= gs@.take(i as int).push(gs@[i as int]));
                }
            }
            assert(gs@.take(n as int) =~= gs@);
        },
    }
}

} // verus!
