//! The distance engine.
//!
//! The geodesic distance of a single coordinate pair is floating-point work
//! done by an outside collaborator, so it cannot be computed here. The
//! engine is therefore split in two verified halves: `distance_pairs`
//! enumerates, for any shape, the ordered consecutive point pairs whose
//! geodesic distances make up the shape's distance, and `sum_distances`
//! folds the collaborator's per-pair results into the total, counting a
//! pair whose geodesic computation did not converge as zero. The caller
//! computes one geodesic per pair in between.

use vstd::prelude::*;

use crate::geom::Feature;
use crate::geom::FeatureCollection;
use crate::geom::GeoJson;
use crate::geom::Geometry;
use crate::geom::TrackPoint;
use crate::geom::Value;

verus! {

/// One consecutive pair of track points, in traversal order.
#[derive(Clone, Copy, PartialEq, Eq, Structural, Debug)]
pub struct PointPair {
    pub a: TrackPoint,
    pub b: TrackPoint,
}

// ---------------------------------------------------------------------------
// The consecutive pairs of a shape, in spec.
// ---------------------------------------------------------------------------

/// The consecutive pairs of one point sequence: none for fewer than two
/// points, else one pair per adjacent couple.
pub open spec fn seq_pairs(s: Seq<TrackPoint>) -> Seq<PointPair>
    decreases s.len(),
{
    if s.len() < 2 {
        Seq::empty()
    } else {
        seq_pairs(s.drop_last()).push(PointPair { a: s[s.len() - 2], b: s[s.len() - 1] })
    }
}

/// The pairs of a sequence of lines: each line's own pairs; sub-lines are
/// not connected to each other.
pub open spec fn lines_pairs(lines: Seq<Vec<TrackPoint>>) -> Seq<PointPair>
    decreases lines.len(),
{
    if lines.len() == 0 {
        Seq::empty()
    } else {
        seq_pairs(lines[0]@) + lines_pairs(lines.drop_first())
    }
}

/// The pairs of a geometry value. A single point, a polygon and a
/// multi-polygon contribute none; collections concatenate their children's.
pub open spec fn value_pairs(v: Value) -> Seq<PointPair>
    decreases v,
{
    match v {
        Value::Point(_) => Seq::empty(),
        Value::MultiPoint(ps) => seq_pairs(ps@),
        Value::LineString(ps) => seq_pairs(ps@),
        Value::MultiLineString(lines) => lines_pairs(lines@),
        Value::Polygon(_) => Seq::empty(),
        Value::MultiPolygon(_) => Seq::empty(),
        Value::GeometryCollection(gs) => geometries_pairs(gs@),
    }
}

/// The pairs of a sequence of geometries, concatenated in list order.
pub open spec fn geometries_pairs(gs: Seq<Geometry>) -> Seq<PointPair>
    decreases gs,
{
    if gs.len() == 0 {
        Seq::empty()
    } else {
        value_pairs(gs[0].value) + geometries_pairs(gs.drop_first())
    }
}

/// The pairs of a feature: those of its geometry, if it has one.
pub open spec fn feature_pairs(f: Feature) -> Seq<PointPair> {
    match f.geometry {
        Some(g) => value_pairs(g.value),
        None => Seq::empty(),
    }
}

/// The pairs of a sequence of features, concatenated in list order.
pub open spec fn features_pairs(fs: Seq<Feature>) -> Seq<PointPair>
    decreases fs.len(),
{
    if fs.len() == 0 {
        Seq::empty()
    } else {
        feature_pairs(fs[0]) + features_pairs(fs.drop_first())
    }
}

/// The pairs of any top-level document shape.
pub open spec fn geojson_pairs(gj: GeoJson) -> Seq<PointPair> {
    match gj {
        GeoJson::Geometry(g) => value_pairs(g.value),
        GeoJson::Feature(f) => feature_pairs(f),
        GeoJson::FeatureCollection(fc) => features_pairs(fc.features@),
    }
}

// ---------------------------------------------------------------------------
// Summing per-pair geodesic results, in spec.
// ---------------------------------------------------------------------------

/// The contribution of one geodesic result: its value in millimetres, or
/// zero where the computation did not converge. The silent exclusion is
/// deliberate: availability of a total is favoured over precision.
pub open spec fn geodesic_value(d: Option<u64>) -> int {
    match d {
        Some(mm) => mm as int,
        None => 0,
    }
}

/// The sum of a sequence of geodesic results, in millimetres.
pub open spec fn sum_mm(ds: Seq<Option<u64>>) -> int
    decreases ds.len(),
{
    if ds.len() == 0 {
        0
    } else {
        sum_mm(ds.drop_last()) + geodesic_value(ds.last())
    }
}

/// A geodesic sum is non-negative and bounded by one `u64::MAX` per pair.
pub proof fn lemma_sum_mm_bounds(ds: Seq<Option<u64>>)
    ensures
        0 <= sum_mm(ds) <= ds.len() * (u64::MAX as int),
    decreases ds.len(),
{
    if ds.len() == 0 {
    } else {
        lemma_sum_mm_bounds(ds.drop_last());
        assert(ds.drop_last().len() * (u64::MAX as int) + (u64::MAX as int) == ds.len() * (
        u64::MAX as int)) by (nonlinear_arith)
            requires
                ds.drop_last().len() + 1 == ds.len(),
        ;
    }
}

/// Geodesic sums are additive: summing two result sequences one after the
/// other gives the sum of their totals.
pub proof fn lemma_sum_mm_concat(a: Seq<Option<u64>>, b: Seq<Option<u64>>)
    ensures
        sum_mm(a + b) == sum_mm(a) + sum_mm(b),
    decreases b.len(),
{
    if b.len() == 0 {
        assert(a + b =~= a);
    } else {
        assert((a + b).drop_last() =~= a + b.drop_last());
        assert((a + b).last() == b.last());
        lemma_sum_mm_concat(a, b.drop_last());
    }
}

// ---------------------------------------------------------------------------
// Laws of the pair enumeration.
// ---------------------------------------------------------------------------

/// The consecutive pairs of a point sequence, element by element: one pair
/// per adjacent couple, in order.
pub proof fn lemma_seq_pairs_index(s: Seq<TrackPoint>)
    ensures
        s.len() < 2 ==> seq_pairs(s).len() == 0,
        s.len() >= 2 ==> seq_pairs(s).len() == s.len() - 1,
        forall|i: int|
            0 <= i < seq_pairs(s).len() ==> (#[trigger] seq_pairs(s)[i]).a == s[i] && seq_pairs(
                s,
            )[i].b == s[i + 1],
    decreases s.len(),
{
    if s.len() < 2 {
    } else {
        lemma_seq_pairs_index(s.drop_last());
        assert forall|i: int|
            0 <= i < seq_pairs(s).len() implies (#[trigger] seq_pairs(s)[i]).a == s[i] && seq_pairs(
            s,
        )[i].b == s[i + 1] by {
            if i < s.len() - 2 {
                assert(seq_pairs(s)[i] == seq_pairs(s.drop_last())[i]);
                assert(s.drop_last()[i] == s[i]);
                assert(s.drop_last()[i + 1] == s[i + 1]);
            }
        }
    }
}

/// The distance of a line string is the geodesic pairwise sum over its
/// consecutive points: the line enumerates exactly one pair per adjacent
/// couple of its points, in order, and `sum_distances` folds the
/// collaborator's result for each of those pairs into the total, counting
/// a pair whose geodesic computation does not converge as zero.
pub proof fn lemma_linestring_distance(ps: Vec<TrackPoint>)
    requires
        ps@.len() >= 2,
    ensures
        value_pairs(Value::LineString(ps)).len() == ps@.len() - 1,
        forall|i: int|
            0 <= i < ps@.len() - 1 ==> (#[trigger] value_pairs(Value::LineString(ps))[i]).a
                == ps@[i] && value_pairs(Value::LineString(ps))[i].b == ps@[i + 1],
{
    lemma_seq_pairs_index(ps@);
}

/// Line lists enumerate their pairs list by list: a multi-line-string's
/// distance is the sum of its sub-lines' distances, the sub-lines never
/// being connected to each other (`lemma_sum_mm_concat` adds the
/// geodesic totals of the two halves).
pub proof fn lemma_lines_pairs_concat(a: Seq<Vec<TrackPoint>>, b: Seq<Vec<TrackPoint>>)
    ensures
        lines_pairs(a + b) == lines_pairs(a) + lines_pairs(b),
    decreases a.len(),
{
    if a.len() == 0 {
        assert(a + b =~= b);
        assert(lines_pairs(a + b) =~= lines_pairs(a) + lines_pairs(b));
    } else {
        assert((a + b).drop_first() =~= a.drop_first() + b);
        lemma_lines_pairs_concat(a.drop_first(), b);
        assert(lines_pairs(a + b) =~= lines_pairs(a) + lines_pairs(b));
    }
}

/// Polygons and multi-polygons are not traversable: they enumerate no
/// distance pairs — so their distance, the sum over no results, is zero —
/// and they have neither a start nor an end point.
pub proof fn lemma_polygon_not_traversable(v: Value)
    requires
        v is Polygon || v is MultiPolygon,
    ensures
        value_pairs(v) == Seq::<PointPair>::empty(),
        sum_mm(Seq::<Option<u64>>::empty()) == 0,
        crate::geom::value_start(v) is None,
        crate::geom::value_end(v) is None,
{
}

// ---------------------------------------------------------------------------
// Executable pair enumeration.
// ---------------------------------------------------------------------------

/// Appends the consecutive pairs of one point sequence to `out`.
#[verifier::loop_isolation(false)]
pub fn push_seq_pairs(ps: &Vec<TrackPoint>, out: &mut Vec<PointPair>)
    ensures
        final(out)@ == old(out)@ + seq_pairs(ps@),
{
    let n = ps.len();
    if n < 2 {
        assert(out@ =~= old(out)@ + seq_pairs(ps@));
        return ;
    }
    for i in 1..n
        invariant
            out@ == old(out)@ + seq_pairs(ps@.take(i as int)),
    {
        out.push(PointPair { a: ps[i - 1], b: ps[i] });
        proof {
            assert(ps@.take(i + 1).drop_last() =~= ps@.take(i as int));
            assert(out@ =~= old(out)@ + seq_pairs(ps@.take(i + 1)));
        }
    }
    proof {
        assert(ps@.take(n as int) =~= ps@);
    }
}

/// Appending one more line extends the pairs by that line's pairs.
pub proof fn lemma_lines_pairs_push(s: Seq<Vec<TrackPoint>>, l: Vec<TrackPoint>)
    ensures
        lines_pairs(s.push(l)) == lines_pairs(s) + seq_pairs(l@),
    decreases s.len(),
{
    if s.len() == 0 {
        assert(s.push(l).drop_first() =~= s);
        assert(lines_pairs(s.push(l)) =~= lines_pairs(s) + seq_pairs(l@));
    } else {
        assert(s.push(l).drop_first() =~= s.drop_first().push(l));
        lemma_lines_pairs_push(s.drop_first(), l);
        assert(lines_pairs(s.push(l)) =~= lines_pairs(s) + seq_pairs(l@));
    }
}

/// Appending one more geometry extends the pairs by its pairs.
pub proof fn lemma_geometries_pairs_push(s: Seq<Geometry>, g: Geometry)
    ensures
        geometries_pairs(s.push(g)) == geometries_pairs(s) + value_pairs(g.value),
    decreases s.len(),
{
    if s.len() == 0 {
        assert(s.push(g).drop_first() =~= s);
        assert(geometries_pairs(s.push(g)) =~= geometries_pairs(s) + value_pairs(g.value));
    } else {
        assert(s.push(g).drop_first() =~= s.drop_first().push(g));
        lemma_geometries_pairs_push(s.drop_first(), g);
        assert(geometries_pairs(s.push(g)) =~= geometries_pairs(s) + value_pairs(g.value));
    }
}

/// Appending one more feature extends the pairs by its pairs.
pub proof fn lemma_features_pairs_push(s: Seq<Feature>, f: Feature)
    ensures
        features_pairs(s.push(f)) == features_pairs(s) + feature_pairs(f),
    decreases s.len(),
{
    if s.len() == 0 {
        assert(s.push(f).drop_first() =~= s);
        assert(features_pairs(s.push(f)) =~= features_pairs(s) + feature_pairs(f));
    } else {
        assert(s.push(f).drop_first() =~= s.drop_first().push(f));
        lemma_features_pairs_push(s.drop_first(), f);
        assert(features_pairs(s.push(f)) =~= features_pairs(s) + feature_pairs(f));
    }
}

/// Appends the pairs of a geometry value to `out`, depth-first in list
/// order.
#[verifier::loop_isolation(false)]
pub fn push_value_pairs(v: &Value, out: &mut Vec<PointPair>)
    ensures
        final(out)@ == old(out)@ + value_pairs(*v),
    decreases *v,
{
    match v {
        Value::Point(_) => {
            assert(out@ =~= old(out)@ + value_pairs(*v));
        },
        Value::MultiPoint(ps) => {
            push_seq_pairs(ps, out);
        },
        Value::LineString(ps) => {
            push_seq_pairs(ps, out);
        },
        Value::MultiLineString(lines) => {
            let n = lines.len();
            for i in 0..n
                invariant
                    n == lines@.len(),
                    out@ == old(out)@ + lines_pairs(lines@.take(i as int)),
            {
                push_seq_pairs(&lines[i], out);
                proof {
                    lemma_lines_pairs_push(lines@.take(i as int), lines@[i as int]);
                    assert(lines@.take(i + 1) =~= lines@.take(i as int).push(lines@[i as int]));
                }
            }
            assert(lines@.take(n as int) =~= lines@);
        },
        Value::Polygon(_) => {
            assert(out@ =~= old(out)@ + value_pairs(*v));
        },
        Value::MultiPolygon(_) => {
            assert(out@ =~= old(out)@ + value_pairs(*v));
        },
        Value::GeometryCollection(gs) => {
            let n = gs.len();
            for i in 0..n
                invariant
                    n == gs@.len(),
                    out@ == old(out)@ + geometries_pairs(gs@.take(i as int)),
            {
                proof {
                    assert(decreases_to!(*v => v->GeometryCollection_0));
                    assert(v->GeometryCollection_0 == *gs);
                    assert(decreases_to!(*gs => gs@));
                    assert(decreases_to!(gs@ => gs@[i as int]));
                    assert(decreases_to!(gs@[i as int] => gs@[i as int].value));
                    assert(decreases_to!(*v => gs@[i as int].value));
                }
                push_value_pairs(&gs[i].value, out);
                proof {
                    lemma_geometries_pairs_push(gs@.take(i as int), gs@[i as int]);
                    assert(gs@.take(i + 1) =~= gs@.take(i as int).push(gs@[i as int]));
                }
            }
            assert(gs@.take(n as int) =~= gs@);
        },
    }
}

// ---------------------------------------------------------------------------
// The Distance trait: pair enumeration per shape.
// ---------------------------------------------------------------------------

/// The geodesic distance of a shape is the sum, over the consecutive point
/// pairs this trait enumerates, of each pair's geodesic distance, excluding
/// pairs the geodesic computation rejects (`sum_distances` does the
/// summing once the collaborator has supplied the per-pair results).
pub trait Distance {
    /// The consecutive pairs of the shape, as the specification sees them.
    spec fn pairs_spec(&self) -> Seq<PointPair>;

    /// Returns the consecutive pairs of the shape, in traversal order.
    fn distance_pairs(&self) -> (r: Vec<PointPair>)
        ensures
            r@ == self.pairs_spec(),
    ;
}

impl Distance for Vec<TrackPoint> {
    open spec fn pairs_spec(&self) -> Seq<PointPair> {
        seq_pairs(self@)
    }

    fn distance_pairs(&self) -> (r: Vec<PointPair>) {
        let mut out: Vec<PointPair> = Vec::new();
        push_seq_pairs(self, &mut out);
        out
    }
}

impl Distance for Vec<Vec<TrackPoint>> {
    open spec fn pairs_spec(&self) -> Seq<PointPair> {
        lines_pairs(self@)
    }

    fn distance_pairs(&self) -> (r: Vec<PointPair>) {
        let mut out: Vec<PointPair> = Vec::new();
        let n = self.len();
        for i in 0..n
            invariant
                n == self@.len(),
                out@ == lines_pairs(self@.take(i as int)),
        {
            push_seq_pairs(&self[i], &mut out);
            proof {
                lemma_lines_pairs_push(self@.take(i as int), self@[i as int]);
                assert(self@.take(i + 1) =~= self@.take(i as int).push(self@[i as int]));
            }
        }
        proof {
            assert(self@.take(n as int) =~= self@);
        }
        out
    }
}

impl Distance for Value {
    open spec fn pairs_spec(&self) -> Seq<PointPair> {
        value_pairs(*self)
    }

    fn distance_pairs(&self) -> (r: Vec<PointPair>) {
        let mut out: Vec<PointPair> = Vec::new();
        push_value_pairs(self, &mut out);
        out
    }
}

impl Distance for Geometry {
    open spec fn pairs_spec(&self) -> Seq<PointPair> {
        value_pairs(self.value)
    }

    fn distance_pairs(&self) -> (r: Vec<PointPair>) {
        self.value.distance_pairs()
    }
}

impl Distance for Feature {
    open spec fn pairs_spec(&self) -> Seq<PointPair> {
        feature_pairs(*self)
    }

    fn distance_pairs(&self) -> (r: Vec<PointPair>) {
        match &self.geometry {
            Some(g) => g.distance_pairs(),
            None => Vec::new(),
        }
    }
}

impl Distance for FeatureCollection {
    open spec fn pairs_spec(&self) -> Seq<PointPair> {
        features_pairs(self.features@)
    }

    fn distance_pairs(&self) -> (r: Vec<PointPair>) {
        let mut out: Vec<PointPair> = Vec::new();
        let n = self.features.len();
        for i in 0..n
            invariant
                n == self.features@.len(),
                out@ == features_pairs(self.features@.take(i as int)),
        {
            let mut part = match &self.features[i].geometry {
                Some(g) => g.distance_pairs(),
                None => Vec::new(),
            };
            out.append(&mut part);
            proof {
                lemma_features_pairs_push(self.features@.take(i as int), self.features@[i as int]);
                assert(self.features@.take(i + 1) =~= self.features@.take(i as int).push(
                    self.features@[i as int],
                ));
            }
        }
        proof {
            assert(self.features@.take(n as int) =~= self.features@);
        }
        out
    }
}

impl Distance for GeoJson {
    open spec fn pairs_spec(&self) -> Seq<PointPair> {
        geojson_pairs(*self)
    }

    fn distance_pairs(&self) -> (r: Vec<PointPair>) {
        match self {
            GeoJson::Geometry(g) => g.distance_pairs(),
            GeoJson::Feature(f) => f.distance_pairs(),
            GeoJson::FeatureCollection(fc) => fc.distance_pairs(),
        }
    }
}

// ---------------------------------------------------------------------------
// Executable summing.
// ---------------------------------------------------------------------------

/// Sums per-pair geodesic results into a total in millimetres. A pair whose
/// geodesic computation did not converge (`None`) contributes zero and is
/// silently excluded rather than failing the whole total.
#[verifier::loop_isolation(false)]
pub fn sum_distances(ds: &Vec<Option<u64>>) -> (r: u128)
    ensures
        r as int == sum_mm(ds@),
{
    let n = ds.len();
    let mut acc: u128 = 0;
    for i in 0..n
        invariant
            acc as int == sum_mm(ds@.take(i as int)),
            0 <= sum_mm(ds@.take(i as int)) <= i * (u64::MAX as int),
    {
        let d: u64 = match ds[i] {
            Some(mm) => mm,
            None => 0,
        };
        proof {
            assert(i * (u64::MAX as int) + (u64::MAX as int) <= (u128::MAX as int))
                by (nonlinear_arith)
                requires
                    0 <= i <= usize::MAX as int,
            ;
            assert(ds@.take(i + 1).drop_last() =~= ds@.take(i as int));
        }
        acc = acc + d as u128;
        proof {
            assert(acc as int == sum_mm(ds@.take(i + 1)));
            assert(i * (u64::MAX as int) + (u64::MAX as int) == (i + 1) * (u64::MAX as int))
                by (nonlinear_arith);
            assert(sum_mm(ds@.take(i + 1)) <= (i + 1) * (u64::MAX as int));
        }
    }
    proof {
        assert(ds@.take(n as int) =~= ds@);
    }
    acc
}

} // verus!
