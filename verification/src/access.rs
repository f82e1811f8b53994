//! Read access to the parts of a geometry, one level at a time: the
//! numbers of a position, the positions of a line, the rings of a polygon,
//! the members of a multi-geometry or a collection, and the number of
//! dimensions of the coordinates.
//!
//! The dimensions of a geometry are those of its first position; a
//! geometry without a first position, or whose first position has fewer
//! than two numbers, has none.
use crate::feature::{Feature, FeatureView};
use crate::geometry::{
    geometries_view, lemma_geometries_view, line_view, polygons_view, rings_view, Geometry,
    GeometryValue, GeometryView, LineView, PolygonsView, Position, PositionView, RingsView,
    ValueView,
};
use crate::json::JsonNumber;
use vstd::prelude::*;

verus! {

/// The dimensions of coordinates.
#[derive(Clone, Copy, Debug, PartialEq, Eq)]
pub enum Dimensions {
    /// Two numbers: easting and northing.
    Xy,
    /// Three numbers: easting, northing and altitude.
    Xyz,
    /// Easting, northing and a measure.
    Xym,
    /// Easting, northing, altitude and a measure.
    Xyzm,
    /// Another number of numbers.
    Unknown(usize),
}

/// The dimensions of a position of `len` numbers.
pub open spec fn dims_of_len(len: nat) -> Dimensions {
    if len == 2 {
        Dimensions::Xy
    } else if len == 3 {
        Dimensions::Xyz
    } else {
        Dimensions::Unknown(len as usize)
    }
}

/// The dimensions of a position, if it has at least two numbers.
pub open spec fn position_dims(p: PositionView) -> Option<Dimensions> {
    if p.len() >= 2 {
        Some(dims_of_len(p.len()))
    } else {
        None
    }
}

/// The dimensions of a list of positions: those of its first.
pub open spec fn line_dims(l: LineView) -> Option<Dimensions> {
    if l.len() > 0 {
        position_dims(l[0])
    } else {
        None
    }
}

/// The dimensions of a list of lists of positions.
pub open spec fn rings_dims(r: RingsView) -> Option<Dimensions> {
    if r.len() > 0 {
        line_dims(r[0])
    } else {
        None
    }
}

pub open spec fn polygons_dims(p: PolygonsView) -> Option<Dimensions> {
    if p.len() > 0 {
        rings_dims(p[0])
    } else {
        None
    }
}

/// The dimensions of a geometry value; those of a collection are its first
/// member's.
pub open spec fn value_dims(v: ValueView) -> Option<Dimensions>
    decreases v,
{
    match v {
        ValueView::Point(p) => position_dims(p),
        ValueView::MultiPoint(l) => line_dims(l),
        ValueView::LineString(l) => line_dims(l),
        ValueView::MultiLineString(r) => rings_dims(r),
        ValueView::Polygon(r) => rings_dims(r),
        ValueView::MultiPolygon(p) => polygons_dims(p),
        ValueView::GeometryCollection(gs) => if gs.len() > 0 {
            value_dims(gs[0].value)
        } else {
            None
        },
    }
}

/// The dimensions of a position of at least two numbers.
pub fn dims_of_position(p: &Position) -> (r: Dimensions)
    requires
        p@.len() >= 2,
    ensures
        Some(r) == position_dims(p@),
{
    let n = p.0.len();
    if n == 2 {
        Dimensions::Xy
    } else if n == 3 {
        Dimensions::Xyz
    } else {
        Dimensions::Unknown(n)
    }
}

/// A position, seen as a point.
pub struct PointType(pub Position);

impl PointType {
    /// Its dimensions; it needs at least two numbers.
    pub fn dim(&self) -> (r: Dimensions)
        requires
            self.0@.len() >= 2,
        ensures
            Some(r) == position_dims(self.0@),
    {
        dims_of_position(&self.0)
    }

    /// The easting.
    pub fn x(&self) -> (r: JsonNumber)
        requires
            self.0@.len() >= 1,
        ensures
            r == self.0@[0],
    {
        self.0.0[0]
    }

    /// The northing.
    pub fn y(&self) -> (r: JsonNumber)
        requires
            self.0@.len() >= 2,
        ensures
            r == self.0@[1],
    {
        self.0.0[1]
    }

    /// The number at `n`.
    pub fn nth_unchecked(&self, n: usize) -> (r: JsonNumber)
        requires
            n < self.0@.len(),
        ensures
            r == self.0@[n as int],
    {
        self.0.0[n]
    }

    /// Its coordinates: the point itself.
    pub fn coord(&self) -> (r: Option<&PointType>)
        ensures
            r == Some(self),
    {
        Some(self)
    }
}

/// A list of positions, seen as a line.
pub struct LineStringType(pub Vec<Position>);

impl LineStringType {
    pub fn num_coords(&self) -> (r: usize)
        ensures
            r == self.0@.len(),
    {
        self.0.len()
    }

    /// The position at `i`, which must exist.
    pub fn coord(&self, i: usize) -> (r: Option<&Position>)
        requires
            i < self.0@.len(),
        ensures
            r == Some(&self.0@[i as int]),
    {
        Some(&self.0[i])
    }

    pub fn coord_unchecked(&self, i: usize) -> (r: &Position)
        requires
            i < self.0@.len(),
        ensures
            *r == self.0@[i as int],
    {
        &self.0[i]
    }

    /// The dimensions of its first position.
    pub fn dim(&self) -> (r: Dimensions)
        requires
            line_dims(line_view(self.0@)) is Some,
        ensures
            Some(r) == line_dims(line_view(self.0@)),
    {
        dims_of_position(&self.0[0])
    }
}

/// A list of rings, seen as a polygon: the exterior ring first.
pub struct PolygonType(pub Vec<Vec<Position>>);

impl PolygonType {
    /// The exterior ring, if there is one.
    pub fn exterior(&self) -> (r: Option<&Vec<Position>>)
        ensures
            self.0@.len() == 0 ==> r is None,
            self.0@.len() > 0 ==> r == Some(&self.0@[0]),
    {
        if self.0.len() == 0 {
            None
        } else {
            Some(&self.0[0])
        }
    }

    /// The number of interior rings; there must be an exterior one.
    pub fn num_interiors(&self) -> (r: usize)
        requires
            self.0@.len() > 0,
        ensures
            r == self.0@.len() - 1,
    {
        self.0.len() - 1
    }

    /// The interior ring at `i`, if there is one.
    pub fn interior(&self, i: usize) -> (r: Option<&Vec<Position>>)
        requires
            i < usize::MAX,
        ensures
            i + 1 < self.0@.len() ==> r == Some(&self.0@[i + 1]),
            i + 1 >= self.0@.len() ==> r is None,
    {
        if i + 1 < self.0.len() {
            Some(&self.0[i + 1])
        } else {
            None
        }
    }

    pub fn interior_unchecked(&self, i: usize) -> (r: &Vec<Position>)
        requires
            i + 1 < self.0@.len(),
        ensures
            *r == self.0@[i + 1],
    {
        assert(self.0@.len() == self.0.len());
        &self.0[i + 1]
    }

    /// The dimensions of the first position of the exterior ring.
    pub fn dim(&self) -> (r: Dimensions)
        requires
            rings_dims(rings_view(self.0@)) is Some,
        ensures
            Some(r) == rings_dims(rings_view(self.0@)),
    {
        dims_of_position(&self.0[0][0])
    }
}

/// A list of positions, seen as points.
pub struct MultiPointType(pub Vec<Position>);

impl MultiPointType {
    pub fn num_points(&self) -> (r: usize)
        ensures
            r == self.0@.len(),
    {
        self.0.len()
    }

    /// The dimensions of the first point.
    pub fn dim(&self) -> (r: Dimensions)
        requires
            line_dims(line_view(self.0@)) is Some,
        ensures
            Some(r) == line_dims(line_view(self.0@)),
    {
        dims_of_position(&self.0[0])
    }

    /// The point at `i`, if there is one.
    pub fn point(&self, i: usize) -> (r: Option<&Position>)
        ensures
            i < self.0@.len() ==> r == Some(&self.0@[i as int]),
            i >= self.0@.len() ==> r is None,
    {
        if i < self.0.len() {
            Some(&self.0[i])
        } else {
            None
        }
    }

    pub fn point_unchecked(&self, i: usize) -> (r: &Position)
        requires
            i < self.0@.len(),
        ensures
            *r == self.0@[i as int],
    {
        &self.0[i]
    }
}

/// A list of lines.
pub struct MultiLineStringType(pub Vec<Vec<Position>>);

impl MultiLineStringType {
    pub fn num_line_strings(&self) -> (r: usize)
        ensures
            r == self.0@.len(),
    {
        self.0.len()
    }

    /// The dimensions of the first line.
    pub fn dim(&self) -> (r: Dimensions)
        requires
            rings_dims(rings_view(self.0@)) is Some,
        ensures
            Some(r) == rings_dims(rings_view(self.0@)),
    {
        dims_of_position(&self.0[0][0])
    }

    /// The line at `i`, if there is one.
    pub fn line_string(&self, i: usize) -> (r: Option<&Vec<Position>>)
        ensures
            i < self.0@.len() ==> r == Some(&self.0@[i as int]),
            i >= self.0@.len() ==> r is None,
    {
        if i < self.0.len() {
            Some(&self.0[i])
        } else {
            None
        }
    }

    pub fn line_string_unchecked(&self, i: usize) -> (r: &Vec<Position>)
        requires
            i < self.0@.len(),
        ensures
            *r == self.0@[i as int],
    {
        &self.0[i]
    }
}

/// A list of polygons.
pub struct MultiPolygonType(pub Vec<Vec<Vec<Position>>>);

impl MultiPolygonType {
    pub fn num_polygons(&self) -> (r: usize)
        ensures
            r == self.0@.len(),
    {
        self.0.len()
    }

    /// The dimensions of the first polygon.
    pub fn dim(&self) -> (r: Dimensions)
        requires
            polygons_dims(polygons_view(self.0@)) is Some,
        ensures
            Some(r) == polygons_dims(polygons_view(self.0@)),
    {
        dims_of_position(&self.0[0][0][0])
    }

    /// The polygon at `i`, if there is one.
    pub fn polygon(&self, i: usize) -> (r: Option<&Vec<Vec<Position>>>)
        ensures
            i < self.0@.len() ==> r == Some(&self.0@[i as int]),
            i >= self.0@.len() ==> r is None,
    {
        if i < self.0.len() {
            Some(&self.0[i])
        } else {
            None
        }
    }

    pub fn polygon_unchecked(&self, i: usize) -> (r: &Vec<Vec<Position>>)
        requires
            i < self.0@.len(),
        ensures
            *r == self.0@[i as int],
    {
        &self.0[i]
    }
}

/// A list of geometries.
pub struct GeometryCollectionType(pub Vec<Geometry>);

impl GeometryCollectionType {
    pub fn num_geometries(&self) -> (r: usize)
        ensures
            r == self.0@.len(),
    {
        self.0.len()
    }

    /// The dimensions of the first geometry.
    pub fn dim(&self) -> (r: Dimensions)
        requires
            self.0@.len() > 0,
            value_dims(self.0@[0]@.value) is Some,
        ensures
            Some(r) == value_dims(self.0@[0]@.value),
    {
        self.0[0].dim()
    }

    /// The geometry at `i`, if there is one.
    pub fn geometry(&self, i: usize) -> (r: Option<&Geometry>)
        ensures
            i < self.0@.len() ==> r == Some(&self.0@[i as int]),
            i >= self.0@.len() ==> r is None,
    {
        if i < self.0.len() {
            Some(&self.0[i])
        } else {
            None
        }
    }

    pub fn geometry_unchecked(&self, i: usize) -> (r: &Geometry)
        requires
            i < self.0@.len(),
        ensures
            *r == self.0@[i as int],
    {
        &self.0[i]
    }
}

impl GeometryValue {
    /// The dimensions of this value's first position.
    pub fn dim(&self) -> (r: Dimensions)
        requires
            value_dims(self@) is Some,
        ensures
            Some(r) == value_dims(self@),
        decreases self,
    {
        match self {
            GeometryValue::Point { coordinates } => dims_of_position(coordinates),
            GeometryValue::MultiPoint { coordinates } => dims_of_position(&coordinates[0]),
            GeometryValue::LineString { coordinates } => dims_of_position(&coordinates[0]),
            GeometryValue::MultiLineString { coordinates } => dims_of_position(&coordinates[0][0]),
            GeometryValue::Polygon { coordinates } => dims_of_position(&coordinates[0][0]),
            GeometryValue::MultiPolygon { coordinates } => dims_of_position(
                &coordinates[0][0][0],
            ),
            GeometryValue::GeometryCollection { geometries } => {
                proof {
                    lemma_geometries_view(geometries@);
                    assert(decreases_to!(*self => self->geometries));
                    assert(decreases_to!(self->geometries => geometries@));
                    assert(decreases_to!(geometries@ => geometries@[0]));
                    assert(decreases_to!(geometries@[0] => geometries@[0].value));
                }
                geometries[0].value.dim()
            },
        }
    }
}

impl Geometry {
    /// The dimensions of this geometry's first position.
    pub fn dim(&self) -> (r: Dimensions)
        requires
            value_dims(self@.value) is Some,
        ensures
            Some(r) == value_dims(self@.value),
    {
        self.value.dim()
    }
}

/// The dimensions of a feature: those of its geometry, if it has one.
pub open spec fn feature_dims(f: FeatureView) -> Option<Dimensions> {
    match f.geometry {
        Some(g) => value_dims(g.value),
        None => None,
    }
}

impl Feature {
    /// The dimensions of this feature's geometry, which must exist.
    pub fn dim(&self) -> (r: Dimensions)
        requires
            feature_dims(self@) is Some,
        ensures
            Some(r) == feature_dims(self@),
    {
        match &self.geometry {
            Some(g) => g.dim(),
            None => Dimensions::Xy,
        }
    }
}

/// The dimensions of a position follow from its number of numbers: two
/// are `Xy`, three `Xyz`, any other count `n` of at least two is
/// `Unknown(n)`, and fewer than two give none.
pub proof fn lemma_position_dims(p: PositionView)
    ensures
        p.len() < 2 <==> position_dims(p) is None,
        p.len() == 2 ==> position_dims(p) == Some(Dimensions::Xy),
        p.len() == 3 ==> position_dims(p) == Some(Dimensions::Xyz),
        p.len() > 3 ==> position_dims(p) == Some(Dimensions::Unknown(p.len() as usize)),
{
}

/// The dimensions of a geometry value are those of its first position: the
/// first position of a list, of the first list of a list of lists, of the
/// first polygon's first ring, or of a collection's first member. A value
/// with no first position has none.
pub proof fn lemma_value_dims_first_position(v: ValueView)
    ensures
        v matches ValueView::Point(p) ==> value_dims(v) == position_dims(p),
        v matches ValueView::MultiPoint(l) ==> value_dims(v) == (if l.len() > 0 {
            position_dims(l[0])
        } else {
            None
        }),
        v matches ValueView::LineString(l) ==> value_dims(v) == (if l.len() > 0 {
            position_dims(l[0])
        } else {
            None
        }),
        v matches ValueView::MultiLineString(r) ==> value_dims(v) == (if r.len() > 0 && r[0].len()
            > 0 {
            position_dims(r[0][0])
        } else {
            None
        }),
        v matches ValueView::Polygon(r) ==> value_dims(v) == (if r.len() > 0 && r[0].len() > 0 {
            position_dims(r[0][0])
        } else {
            None
        }),
        v matches ValueView::MultiPolygon(p) ==> value_dims(v) == (if p.len() > 0 && p[0].len()
            > 0 && p[0][0].len() > 0 {
            position_dims(p[0][0][0])
        } else {
            None
        }),
        v matches ValueView::GeometryCollection(gs) ==> value_dims(v) == (if gs.len() > 0 {
            value_dims(gs[0].value)
        } else {
            None
        }),
{
}

/// The dimensions of a feature are those of its geometry; a feature
/// without one has none.
pub proof fn lemma_feature_dims(f: FeatureView)
    ensures
        f.geometry matches Some(g) ==> feature_dims(f) == value_dims(g.value),
        f.geometry is None ==> feature_dims(f) is None,
{
}

} // verus!
