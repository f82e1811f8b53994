//! Geometry objects (RFC 7946 § 3.1).
use crate::json::{JsonNumber, JsonObject, Members};
use crate::number::{float_of, to_float};
use vstd::prelude::*;

verus! {

/// A bounding box (RFC 7946 § 5): the minima of all axes, then their maxima.
pub type Bbox = Vec<JsonNumber>;

/// A position (RFC 7946 § 3.1.1): easting, northing, and optionally altitude
/// and further elements.
#[derive(Clone, Debug, PartialEq)]
pub struct Position(pub Vec<JsonNumber>);

pub type PositionView = Seq<JsonNumber>;

pub type LineView = Seq<PositionView>;

pub type RingsView = Seq<LineView>;

pub type PolygonsView = Seq<RingsView>;

impl View for Position {
    type V = PositionView;

    open spec fn view(&self) -> PositionView {
        self.0@
    }
}

impl Position {
    pub fn from_values(values: Vec<JsonNumber>) -> (r: Position)
        ensures
            r@ == values@,
    {
        Position(values)
    }

    pub fn as_slice(&self) -> (r: &[JsonNumber])
        ensures
            r@ == self@,
    {
        self.0.as_slice()
    }

    pub fn len(&self) -> (r: usize)
        ensures
            r == self@.len(),
    {
        self.0.len()
    }

    pub fn is_empty(&self) -> (r: bool)
        ensures
            r == (self@.len() == 0),
    {
        self.0.len() == 0
    }

    /// The numbers, to change in place.
    pub fn as_slice_mut(&mut self) -> (r: &mut [JsonNumber])
        ensures
            r@ == old(self)@,
            final(r)@ == final(self)@,
    {
        self.0.as_mut_slice()
    }
}

/// Marks the types that can hold the numbers of a position: a growable
/// list of them. No type outside this crate can be marked.
pub trait Sealed {
}

impl Sealed for Vec<JsonNumber> {
}

/// Why the numbers of a position did not fit a buffer of a fixed size.
#[derive(Clone, Copy, Debug, PartialEq, Eq)]
pub enum PositionSizeFault {
    /// More numbers than the buffer holds; `additional` counts those after
    /// the first one that did not fit.
    TooMany { size: usize, additional: usize },
    /// Fewer numbers than the buffer holds; `got` counts them all.
    TooFew { size: usize, got: usize },
}

/// The numbers of a position read into a buffer of exactly `size` numbers:
/// `first`, then `rest`, each as a binary64 value. Refused when there are
/// more or fewer numbers than `size`.
pub fn from_seq(first: JsonNumber, rest: &[JsonNumber], size: usize) -> (r: Result<
    Vec<JsonNumber>,
    PositionSizeFault,
>)
    requires
        size > 0,
    ensures
        rest@.len() + 1 == size ==> (r matches Ok(v) && v@ == (seq![first] + rest@).map_values(
            |n: JsonNumber| float_of(n),
        )),
        rest@.len() + 1 > size ==> r == Err::<Vec<JsonNumber>, PositionSizeFault>(
            PositionSizeFault::TooMany { size, additional: (rest@.len() - size) as usize },
        ),
        rest@.len() + 1 < size ==> r == Err::<Vec<JsonNumber>, PositionSizeFault>(
            PositionSizeFault::TooFew { size, got: (rest@.len() + 1) as usize },
        ),
{
    if rest.len() >= size {
        return Err(PositionSizeFault::TooMany { size, additional: rest.len() - size });
    }
    if rest.len() + 1 < size {
        return Err(PositionSizeFault::TooFew { size, got: rest.len() + 1 });
    }
    let ghost all = seq![first] + rest@;
    let mut out: Vec<JsonNumber> = Vec::new();
    out.push(to_float(first));
    let mut i: usize = 0;
    while i < rest.len()
        invariant
            i <= rest@.len(),
            all == seq![first] + rest@,
            out@ == all.take(i + 1).map_values(|n: JsonNumber| float_of(n)),
        decreases rest@.len() - i,
    {
        out.push(to_float(rest[i]));
        proof {
            assert(all[i + 1] == rest@[i as int]);
            assert(all.take(i + 2) =~= all.take(i + 1).push(all[i + 1]));
            assert(all.take(i + 2).map_values(|n: JsonNumber| float_of(n)) =~= all.take(
                i + 1,
            ).map_values(|n: JsonNumber| float_of(n)).push(float_of(all[i + 1])));
        }
        i = i + 1;
    }
    proof {
        assert(all.take(all.len() as int) =~= all);
    }
    Ok(out)
}

pub open spec fn line_view(s: Seq<Position>) -> LineView {
    s.map_values(|p: Position| p@)
}

pub open spec fn rings_view(s: Seq<Vec<Position>>) -> RingsView {
    s.map_values(|l: Vec<Position>| line_view(l@))
}

pub open spec fn polygons_view(s: Seq<Vec<Vec<Position>>>) -> PolygonsView {
    s.map_values(|p: Vec<Vec<Position>>| rings_view(p@))
}

/// The kind of a geometry.
#[derive(Clone, Copy, Debug, PartialEq, Eq)]
pub enum GeometryType {
    Point,
    LineString,
    Polygon,
    MultiPoint,
    MultiLineString,
    MultiPolygon,
    GeometryCollection,
}

/// The coordinates, or member geometries, of a geometry.
#[derive(Debug, PartialEq)]
pub enum GeometryValue {
    /// [RFC 7946 § 3.1.2](https://tools.ietf.org/html/rfc7946#section-3.1.2)
    Point { coordinates: Position },
    /// [RFC 7946 § 3.1.3](https://tools.ietf.org/html/rfc7946#section-3.1.3)
    MultiPoint { coordinates: Vec<Position> },
    /// [RFC 7946 § 3.1.4](https://tools.ietf.org/html/rfc7946#section-3.1.4)
    LineString { coordinates: Vec<Position> },
    /// [RFC 7946 § 3.1.5](https://tools.ietf.org/html/rfc7946#section-3.1.5)
    MultiLineString { coordinates: Vec<Vec<Position>> },
    /// [RFC 7946 § 3.1.6](https://tools.ietf.org/html/rfc7946#section-3.1.6)
    Polygon { coordinates: Vec<Vec<Position>> },
    /// [RFC 7946 § 3.1.7](https://tools.ietf.org/html/rfc7946#section-3.1.7)
    MultiPolygon { coordinates: Vec<Vec<Vec<Position>>> },
    /// [RFC 7946 § 3.1.8](https://tools.ietf.org/html/rfc7946#section-3.1.8)
    GeometryCollection { geometries: Vec<Geometry> },
}

/// A geometry object (RFC 7946 § 3.1).
#[derive(Debug, PartialEq)]
pub struct Geometry {
    pub bbox: Option<Bbox>,
    pub value: GeometryValue,
    pub foreign_members: Option<JsonObject>,
}

/// The mathematical value of a [`GeometryValue`].
pub enum ValueView {
    Point(PositionView),
    MultiPoint(LineView),
    LineString(LineView),
    MultiLineString(RingsView),
    Polygon(RingsView),
    MultiPolygon(PolygonsView),
    GeometryCollection(Seq<GeometryView>),
}

/// The mathematical value of a [`Geometry`].
pub struct GeometryView {
    pub bbox: Option<Seq<JsonNumber>>,
    pub value: ValueView,
    pub foreign_members: Option<Members>,
}

pub open spec fn opt_bbox_view(b: Option<Bbox>) -> Option<Seq<JsonNumber>> {
    match b {
        Some(v) => Some(v@),
        None => None,
    }
}

pub open spec fn opt_object_view(o: Option<JsonObject>) -> Option<Members> {
    match o {
        Some(m) => Some(m@),
        None => None,
    }
}

pub open spec fn geometry_view(g: Geometry) -> GeometryView
    decreases g, 1int,
{
    GeometryView {
        bbox: opt_bbox_view(g.bbox),
        value: geometry_value_view(g.value),
        foreign_members: opt_object_view(g.foreign_members),
    }
}

pub open spec fn geometry_value_view(v: GeometryValue) -> ValueView
    decreases v, 0int,
{
    match v {
        GeometryValue::Point { coordinates } => ValueView::Point(coordinates@),
        GeometryValue::MultiPoint { coordinates } => ValueView::MultiPoint(line_view(coordinates@)),
        GeometryValue::LineString { coordinates } => ValueView::LineString(line_view(coordinates@)),
        GeometryValue::MultiLineString { coordinates } => ValueView::MultiLineString(
            rings_view(coordinates@),
        ),
        GeometryValue::Polygon { coordinates } => ValueView::Polygon(rings_view(coordinates@)),
        GeometryValue::MultiPolygon { coordinates } => ValueView::MultiPolygon(
            polygons_view(coordinates@),
        ),
        GeometryValue::GeometryCollection { geometries } => ValueView::GeometryCollection(
            geometries_view(geometries@),
        ),
    }
}

pub open spec fn geometries_view(s: Seq<Geometry>) -> Seq<GeometryView>
    decreases s, 2int,
{
    if s.len() == 0 {
        Seq::empty()
    } else {
        seq![geometry_view(s[0])] + geometries_view(s.subrange(1, s.len() as int))
    }
}

pub proof fn lemma_geometries_view(s: Seq<Geometry>)
    ensures
        geometries_view(s).len() == s.len(),
        forall|i: int| 0 <= i < s.len() ==> #[trigger] geometries_view(s)[i] == geometry_view(s[i]),
    decreases s.len(),
{
    if s.len() > 0 {
        lemma_geometries_view(s.subrange(1, s.len() as int));
        assert forall|i: int| 0 <= i < s.len() implies #[trigger] geometries_view(s)[i]
            == geometry_view(s[i]) by {
            if i > 0 {
                assert(s.subrange(1, s.len() as int)[i - 1] == s[i]);
            }
        }
    }
}

pub proof fn lemma_geometries_view_push(s: Seq<Geometry>, g: Geometry)
    ensures
        geometries_view(s.push(g)) == geometries_view(s).push(geometry_view(g)),
{
    lemma_geometries_view(s);
    lemma_geometries_view(s.push(g));
    assert(geometries_view(s.push(g)) =~= geometries_view(s).push(geometry_view(g)));
}

impl View for GeometryValue {
    type V = ValueView;

    open spec fn view(&self) -> ValueView {
        geometry_value_view(*self)
    }
}

impl View for Geometry {
    type V = GeometryView;

    open spec fn view(&self) -> GeometryView {
        geometry_view(*self)
    }
}

/// The kind of a geometry value.
pub open spec fn value_type(v: ValueView) -> GeometryType {
    match v {
        ValueView::Point(_) => GeometryType::Point,
        ValueView::MultiPoint(_) => GeometryType::MultiPoint,
        ValueView::LineString(_) => GeometryType::LineString,
        ValueView::MultiLineString(_) => GeometryType::MultiLineString,
        ValueView::Polygon(_) => GeometryType::Polygon,
        ValueView::MultiPolygon(_) => GeometryType::MultiPolygon,
        ValueView::GeometryCollection(_) => GeometryType::GeometryCollection,
    }
}

/// The `"type"` member that names a geometry kind in a document.
pub open spec fn geometry_type_name(t: GeometryType) -> Seq<char> {
    match t {
        GeometryType::Point => "Point"@,
        GeometryType::MultiPoint => "MultiPoint"@,
        GeometryType::LineString => "LineString"@,
        GeometryType::MultiLineString => "MultiLineString"@,
        GeometryType::Polygon => "Polygon"@,
        GeometryType::MultiPolygon => "MultiPolygon"@,
        GeometryType::GeometryCollection => "GeometryCollection"@,
    }
}

/// The geometry kind that a `"type"` text denotes.
pub open spec fn type_from_name(s: Seq<char>) -> Option<GeometryType> {
    if s == "Point"@ {
        Some(GeometryType::Point)
    } else if s == "MultiPoint"@ {
        Some(GeometryType::MultiPoint)
    } else if s == "LineString"@ {
        Some(GeometryType::LineString)
    } else if s == "MultiLineString"@ {
        Some(GeometryType::MultiLineString)
    } else if s == "Polygon"@ {
        Some(GeometryType::Polygon)
    } else if s == "MultiPolygon"@ {
        Some(GeometryType::MultiPolygon)
    } else if s == "GeometryCollection"@ {
        Some(GeometryType::GeometryCollection)
    } else {
        None
    }
}

impl GeometryType {
    /// The name of this kind in a document.
    pub fn name(&self) -> (r: &'static str)
        ensures
            r@ == geometry_type_name(*self),
    {
        proof {
            reveal_strlit("Point");
            reveal_strlit("MultiPoint");
            reveal_strlit("LineString");
            reveal_strlit("MultiLineString");
            reveal_strlit("Polygon");
            reveal_strlit("MultiPolygon");
            reveal_strlit("GeometryCollection");
        }
        match self {
            GeometryType::Point => "Point",
            GeometryType::MultiPoint => "MultiPoint",
            GeometryType::LineString => "LineString",
            GeometryType::MultiLineString => "MultiLineString",
            GeometryType::Polygon => "Polygon",
            GeometryType::MultiPolygon => "MultiPolygon",
            GeometryType::GeometryCollection => "GeometryCollection",
        }
    }

    /// The geometry kind that `name` denotes, if any.
    pub fn from_name(name: &str) -> (r: Option<GeometryType>)
        ensures
            r == type_from_name(name@),
    {
        if str_is(name, "Point") {
            Some(GeometryType::Point)
        } else if str_is(name, "MultiPoint") {
            Some(GeometryType::MultiPoint)
        } else if str_is(name, "LineString") {
            Some(GeometryType::LineString)
        } else if str_is(name, "MultiLineString") {
            Some(GeometryType::MultiLineString)
        } else if str_is(name, "Polygon") {
            Some(GeometryType::Polygon)
        } else if str_is(name, "MultiPolygon") {
            Some(GeometryType::MultiPolygon)
        } else if str_is(name, "GeometryCollection") {
            Some(GeometryType::GeometryCollection)
        } else {
            None
        }
    }
}

impl GeometryValue {
    /// The kind of this value.
    pub fn geometry_type(&self) -> (r: GeometryType)
        ensures
            r == value_type(self@),
    {
        match self {
            GeometryValue::Point { .. } => GeometryType::Point,
            GeometryValue::MultiPoint { .. } => GeometryType::MultiPoint,
            GeometryValue::LineString { .. } => GeometryType::LineString,
            GeometryValue::MultiLineString { .. } => GeometryType::MultiLineString,
            GeometryValue::Polygon { .. } => GeometryType::Polygon,
            GeometryValue::MultiPolygon { .. } => GeometryType::MultiPolygon,
            GeometryValue::GeometryCollection { .. } => GeometryType::GeometryCollection,
        }
    }

    /// The name of this value's kind in a document.
    pub fn name_of_type(&self) -> (r: &'static str)
        ensures
            r@ == geometry_type_name(value_type(self@)),
    {
        self.geometry_type().name()
    }

    pub fn new_point(value: Position) -> (r: GeometryValue)
        ensures
            r@ == ValueView::Point(value@),
    {
        GeometryValue::Point { coordinates: value }
    }

    pub fn new_line_string(value: Vec<Position>) -> (r: GeometryValue)
        ensures
            r@ == ValueView::LineString(line_view(value@)),
    {
        GeometryValue::LineString { coordinates: value }
    }

    pub fn new_multi_point(value: Vec<Position>) -> (r: GeometryValue)
        ensures
            r@ == ValueView::MultiPoint(line_view(value@)),
    {
        GeometryValue::MultiPoint { coordinates: value }
    }

    pub fn new_multi_line_string(value: Vec<Vec<Position>>) -> (r: GeometryValue)
        ensures
            r@ == ValueView::MultiLineString(rings_view(value@)),
    {
        GeometryValue::MultiLineString { coordinates: value }
    }

    pub fn new_polygon(value: Vec<Vec<Position>>) -> (r: GeometryValue)
        ensures
            r@ == ValueView::Polygon(rings_view(value@)),
    {
        GeometryValue::Polygon { coordinates: value }
    }

    pub fn new_multi_polygon(value: Vec<Vec<Vec<Position>>>) -> (r: GeometryValue)
        ensures
            r@ == ValueView::MultiPolygon(polygons_view(value@)),
    {
        GeometryValue::MultiPolygon { coordinates: value }
    }

    pub fn new_geometry_collection(value: Vec<Geometry>) -> (r: GeometryValue)
        ensures
            r@ == ValueView::GeometryCollection(geometries_view(value@)),
    {
        GeometryValue::GeometryCollection { geometries: value }
    }
}

impl Geometry {
    /// A geometry with the given value and neither bounding box nor foreign members.
    pub fn new(value: GeometryValue) -> (r: Geometry)
        ensures
            r@ == (GeometryView { bbox: None, value: value@, foreign_members: None }),
    {
        Geometry { bbox: None, value, foreign_members: None }
    }
}

/// Text equality of two `str`s.
pub fn str_is(a: &str, b: &str) -> (r: bool)
    ensures
        r == (a@ == b@),
{
    crate::json::str_eq(a, b)
}

} // verus!
