//! Reading GeoJSON objects out of JSON values.
//!
//! A member that the object's kind does not define is kept as a foreign
//! member (RFC 7946 § 6.1); an object without foreign members has `None`.
//! Members are read in a fixed order (`"type"` first), and the first one
//! that is wrong decides the error.
use crate::coordinates::{read_coordinates, spec_coordinates, spec_position, Coordinates, CoordinatesView};
use crate::errors::{DecodeError, Error, ErrorView};
use crate::feature::{Feature, FeatureView, Id, IdView};
use crate::feature_collection::{features_view, FeatureCollection, FeatureCollectionView};
use crate::geojson::{GeoJson, GeoJsonView};
use crate::geometry::{
    geometries_view, lemma_geometries_view, lemma_geometries_view_push, type_from_name, Bbox, Geometry, GeometryType,
    GeometryValue, GeometryView, Position, ValueView,
};
use crate::json::{
    entries_view, json_size, key_texts, lemma_entries_view, lemma_key_texts, lemma_lookup_smaller, lemma_seq_size,
    lemma_values_view, lookup, opt_value_view, other_members, seq_size, split_members,
    values_view, JsonNumber, JsonObject, JsonValue, JsonView, Members,
};
use vstd::prelude::*;

verus! {

/// No foreign members is `None`.
pub open spec fn normalize(m: Members) -> Option<Members> {
    if m.len() == 0 {
        None
    } else {
        Some(m)
    }
}

/// An absent member and a `null` one read alike.
pub open spec fn present(o: Option<JsonView>) -> bool {
    o matches Some(v) && !(v is Null)
}

/// An error by its view.
pub open spec fn err_view<T>(r: Result<T, Error>) -> Result<T, ErrorView> {
    match r {
        Ok(t) => Ok(t),
        Err(e) => Err(e@),
    }
}

/// What a geometry whose coordinates (or member geometries) do not fit its
/// type is refused with.
pub open spec fn mismatch_text() -> Seq<char> {
    "invalid geometry: mismatched type and coordinates"@
}

pub open spec fn malformed<T>(e: DecodeError) -> Result<T, ErrorView> {
    Err(ErrorView::MalformedJson(e))
}

/// The `"bbox"` member: absent or null, or an array of numbers.
pub open spec fn spec_bbox(o: Option<JsonView>) -> Result<Option<Seq<JsonNumber>>, ErrorView> {
    if !present(o) {
        Ok(None)
    } else {
        match spec_position(o->0) {
            Some(ns) => Ok(Some(ns)),
            None => malformed(DecodeError::InvalidBbox),
        }
    }
}

/// The `"coordinates"` member: absent or null, or coordinates.
pub open spec fn spec_opt_coordinates(o: Option<JsonView>) -> Result<Option<CoordinatesView>, ErrorView> {
    if !present(o) {
        Ok(None)
    } else {
        match spec_coordinates(o->0) {
            Ok(c) => Ok(Some(c)),
            Err(e) => malformed(e),
        }
    }
}

/// The `"type"` member of a Geometry object.
pub open spec fn spec_geometry_type(o: Option<JsonView>) -> Result<GeometryType, ErrorView> {
    match o {
        None => malformed(DecodeError::MissingType),
        Some(JsonView::String(s)) => match type_from_name(s) {
            Some(t) => Ok(t),
            None => malformed(DecodeError::UnknownType),
        },
        Some(_) => malformed(DecodeError::UnknownType),
    }
}

/// The value of a geometry of kind `t`, given what its `"coordinates"` and
/// `"geometries"` members read as. A point needs at least two numbers; an
/// empty array is an empty value of any kind but a point.
pub open spec fn spec_geometry_value(
    t: GeometryType,
    coords: Option<CoordinatesView>,
    geoms: Option<Seq<GeometryView>>,
) -> Result<ValueView, ErrorView> {
    match (t, coords, geoms) {
        (GeometryType::Point, Some(CoordinatesView::ZeroDimensional(p)), None) => if p.len() < 2 {
            Err(ErrorView::PositionTooShort(p.len() as usize))
        } else {
            Ok(ValueView::Point(p))
        },
        (GeometryType::Point, Some(CoordinatesView::OneDimensional(l)), None) if l.len() == 0 => Err(
            ErrorView::PositionTooShort(0),
        ),
        (GeometryType::LineString, Some(CoordinatesView::OneDimensional(l)), None) => Ok(
            ValueView::LineString(l),
        ),
        (GeometryType::Polygon, Some(CoordinatesView::TwoDimensional(r)), None) => Ok(
            ValueView::Polygon(r),
        ),
        (GeometryType::Polygon, Some(CoordinatesView::OneDimensional(l)), None) if l.len() == 0 => Ok(
            ValueView::Polygon(Seq::empty()),
        ),
        (GeometryType::MultiPoint, Some(CoordinatesView::OneDimensional(l)), None) => Ok(
            ValueView::MultiPoint(l),
        ),
        (GeometryType::MultiLineString, Some(CoordinatesView::TwoDimensional(r)), None) => Ok(
            ValueView::MultiLineString(r),
        ),
        (GeometryType::MultiLineString, Some(CoordinatesView::OneDimensional(l)), None) if l.len()
            == 0 => Ok(ValueView::MultiLineString(Seq::empty())),
        (GeometryType::MultiPolygon, Some(CoordinatesView::ThreeDimensional(p)), None) => Ok(
            ValueView::MultiPolygon(p),
        ),
        (GeometryType::MultiPolygon, Some(CoordinatesView::OneDimensional(l)), None) if l.len()
            == 0 => Ok(ValueView::MultiPolygon(Seq::empty())),
        (GeometryType::GeometryCollection, None, Some(gs)) => Ok(ValueView::GeometryCollection(gs)),
        _ => Err(ErrorView::GeometryUnknownType(mismatch_text())),
    }
}

/// The members that a Geometry object defines.
pub open spec fn geometry_keys() -> Seq<Seq<char>> {
    seq!["type"@, "coordinates"@, "geometries"@, "bbox"@]
}

/// The members that a Feature object defines.
pub open spec fn feature_keys() -> Seq<Seq<char>> {
    seq!["type"@, "bbox"@, "geometry"@, "id"@, "properties"@]
}

/// The members that a FeatureCollection object defines.
pub open spec fn feature_collection_keys() -> Seq<Seq<char>> {
    seq!["type"@, "bbox"@, "features"@]
}

/// The members that any GeoJSON object may define.
pub open spec fn geojson_keys() -> Seq<Seq<char>> {
    seq![
        "type"@,
        "bbox"@,
        "coordinates"@,
        "geometries"@,
        "features"@,
        "id"@,
        "geometry"@,
        "properties"@,
    ]
}

/// What a JSON value reads as when a Geometry object is expected.
pub open spec fn spec_decode_geometry(v: JsonView) -> Result<GeometryView, ErrorView>
    decreases json_size(v), 0int,
{
    match v {
        JsonView::Object(m) => match spec_geometry_type(lookup(m, "type"@)) {
            Err(e) => Err(e),
            Ok(t) => match spec_bbox(lookup(m, "bbox"@)) {
                Err(e) => Err(e),
                Ok(bbox) => match spec_opt_coordinates(lookup(m, "coordinates"@)) {
                    Err(e) => Err(e),
                    Ok(coords) => {
                        let g = lookup(m, "geometries"@);
                        let geoms: Result<Option<Seq<GeometryView>>, ErrorView> = if !present(g) {
                            Ok(None)
                        } else {
                            match g->0 {
                                JsonView::Array(a) => {
                                    proof {
                                        lemma_lookup_smaller(m, "geometries"@);
                                    }
                                    match spec_decode_geometries(a) {
                                        Ok(gs) => Ok(Some(gs)),
                                        Err(e) => Err(e),
                                    }
                                },
                                _ => malformed(DecodeError::InvalidGeometries),
                            }
                        };
                        match geoms {
                            Err(e) => Err(e),
                            Ok(geoms) => match spec_geometry_value(t, coords, geoms) {
                                Err(e) => Err(e),
                                Ok(value) => Ok(
                                    GeometryView {
                                        bbox,
                                        value,
                                        foreign_members: normalize(
                                            other_members(m, geometry_keys()),
                                        ),
                                    },
                                ),
                            },
                        }
                    },
                },
            },
        },
        _ => malformed(DecodeError::ExpectedGeometryObject),
    }
}

/// What the elements of a `"geometries"` array read as: each a geometry,
/// or the first error.
pub open spec fn spec_decode_geometries(a: Seq<JsonView>) -> Result<Seq<GeometryView>, ErrorView>
    decreases seq_size(a), 1int,
{
    if a.len() == 0 {
        Ok(Seq::empty())
    } else {
        proof {
            lemma_seq_size(a);
        }
        match spec_decode_geometry(a[0]) {
            Err(e) => Err(e),
            Ok(g) => match spec_decode_geometries(a.subrange(1, a.len() as int)) {
                Err(e) => Err(e),
                Ok(gs) => Ok(seq![g] + gs),
            },
        }
    }
}

pub open spec fn bbox_result_view(r: Result<Option<Bbox>, Error>) -> Result<
    Option<Seq<JsonNumber>>,
    ErrorView,
> {
    match r {
        Ok(Some(b)) => Ok(Some(b@)),
        Ok(None) => Ok(None),
        Err(e) => Err(e@),
    }
}

pub open spec fn opt_coordinates_view(c: Option<Coordinates>) -> Option<CoordinatesView> {
    match c {
        Some(c) => Some(c@),
        None => None,
    }
}

pub open spec fn opt_geometries_view(g: Option<Vec<Geometry>>) -> Option<Seq<GeometryView>> {
    match g {
        Some(g) => Some(geometries_view(g@)),
        None => None,
    }
}

pub open spec fn value_result_view(r: Result<GeometryValue, Error>) -> Result<ValueView, ErrorView> {
    match r {
        Ok(v) => Ok(v@),
        Err(e) => Err(e@),
    }
}

pub open spec fn geometry_result_view(r: Result<Geometry, Error>) -> Result<GeometryView, ErrorView> {
    match r {
        Ok(g) => Ok(g@),
        Err(e) => Err(e@),
    }
}

pub open spec fn geometries_result_view(r: Result<Vec<Geometry>, Error>) -> Result<
    Seq<GeometryView>,
    ErrorView,
> {
    match r {
        Ok(g) => Ok(geometries_view(g@)),
        Err(e) => Err(e@),
    }
}

/// Takes the last slot off a list of member values.
pub fn pop_slot(slots: &mut Vec<Option<JsonValue>>) -> (r: Option<JsonValue>)
    requires
        old(slots)@.len() > 0,
    ensures
        final(slots)@ == old(slots)@.drop_last(),
        r == old(slots)@.last(),
{
    match slots.pop() {
        Some(x) => x,
        None => None,
    }
}

/// The foreign members left over from an object: `None` when there are none.
pub fn foreign_from(rest: Vec<(String, JsonValue)>) -> (r: Option<JsonObject>)
    ensures
        crate::geometry::opt_object_view(r) == normalize(entries_view(rest@)),
{
    proof {
        lemma_entries_view(rest@);
    }
    if rest.len() == 0 {
        None
    } else {
        Some(JsonObject { entries: rest })
    }
}

/// Key names that differ in length or in their first character are distinct.
pub proof fn lemma_key_names_distinct(s: Seq<Seq<char>>)
    requires
        forall|i: int| 0 <= i < s.len() ==> #[trigger] s[i].len() > 0,
        forall|i: int, j: int|
            0 <= i < s.len() && 0 <= j < s.len() && i != j ==> #[trigger] s[i].len() != #[trigger] s[j].len()
                || s[i][0] != s[j][0],
    ensures
        s.no_duplicates(),
{
    assert forall|i: int, j: int| 0 <= i < s.len() && 0 <= j < s.len() && i != j implies s[i]
        != s[j] by {
        assert(s[i].len() != s[j].len() || s[i][0] != s[j][0]);
    }
}

fn geometry_key_names() -> (r: Vec<&'static str>)
    ensures
        key_texts(r@) == geometry_keys(),
        geometry_keys().no_duplicates(),
{
    proof {
        reveal_strlit("type");
        reveal_strlit("coordinates");
        reveal_strlit("geometries");
        reveal_strlit("bbox");
    }
    let r = vec!["type", "coordinates", "geometries", "bbox"];
    proof {
        assert(key_texts(r@) =~= geometry_keys());
        lemma_key_names_distinct(geometry_keys());
    }
    r
}

/// Reads a `"bbox"` member.
pub fn read_bbox(o: Option<JsonValue>) -> (r: Result<Option<Bbox>, Error>)
    ensures
        bbox_result_view(r) == spec_bbox(opt_value_view(o)),
{
    match o {
        None => Ok(None),
        Some(JsonValue::Null) => Ok(None),
        Some(v) => match crate::coordinates::read_position(&v) {
            Some(p) => Ok(Some(p.0)),
            None => Err(Error::MalformedJson(DecodeError::InvalidBbox)),
        },
    }
}

/// Reads a `"coordinates"` member.
pub fn read_opt_coordinates(o: Option<JsonValue>) -> (r: Result<Option<Coordinates>, Error>)
    ensures
        match r {
            Ok(c) => spec_opt_coordinates(opt_value_view(o)) == Ok::<
                Option<CoordinatesView>,
                ErrorView,
            >(opt_coordinates_view(c)),
            Err(e) => spec_opt_coordinates(opt_value_view(o)) == Err::<
                Option<CoordinatesView>,
                ErrorView,
            >(e@),
        },
{
    match o {
        None => Ok(None),
        Some(JsonValue::Null) => Ok(None),
        Some(v) => match read_coordinates(&v) {
            Ok(c) => Ok(Some(c)),
            Err(e) => Err(Error::MalformedJson(e)),
        },
    }
}

/// Reads the `"type"` member of a Geometry object.
pub fn read_geometry_type(o: Option<JsonValue>) -> (r: Result<GeometryType, Error>)
    ensures
        err_view(r) == spec_geometry_type(opt_value_view(o)),
{
    match o {
        None => Err(Error::MalformedJson(DecodeError::MissingType)),
        Some(JsonValue::String(s)) => match GeometryType::from_name(s.as_str()) {
            Some(t) => Ok(t),
            None => Err(Error::MalformedJson(DecodeError::UnknownType)),
        },
        Some(_) => Err(Error::MalformedJson(DecodeError::UnknownType)),
    }
}

/// The error for a geometry whose coordinates (or member geometries) do not
/// fit its type.
fn mismatch_error() -> (e: Error)
    ensures
        e@ == ErrorView::GeometryUnknownType(mismatch_text()),
{
    Error::GeometryUnknownType(String::from_str("invalid geometry: mismatched type and coordinates"))
}

/// The value of a geometry of kind `t` with the given coordinates or
/// member geometries.
pub fn geometry_value_from(
    t: GeometryType,
    coords: Option<Coordinates>,
    geoms: Option<Vec<Geometry>>,
) -> (r: Result<GeometryValue, Error>)
    ensures
        value_result_view(r) == spec_geometry_value(
            t,
            opt_coordinates_view(coords),
            opt_geometries_view(geoms),
        ),
{
    match (t, coords, geoms) {
        (GeometryType::Point, Some(Coordinates::ZeroDimensional(p)), None) => {
            if p.0.len() < 2 {
                Err(Error::PositionTooShort(p.0.len()))
            } else {
                Ok(GeometryValue::Point { coordinates: p })
            }
        },
        (GeometryType::Point, Some(Coordinates::OneDimensional(l)), None) => {
            if l.len() == 0 {
                Err(Error::PositionTooShort(0))
            } else {
                Err(mismatch_error())
            }
        },
        (GeometryType::LineString, Some(Coordinates::OneDimensional(l)), None) => Ok(
            GeometryValue::LineString { coordinates: l },
        ),
        (GeometryType::Polygon, Some(Coordinates::TwoDimensional(r)), None) => Ok(
            GeometryValue::Polygon { coordinates: r },
        ),
        (GeometryType::Polygon, Some(Coordinates::OneDimensional(l)), None) => {
            if l.len() == 0 {
                let empty: Vec<Vec<Position>> = Vec::new();
                proof {
                    assert(crate::geometry::rings_view(empty@) =~= Seq::empty());
                }
                Ok(GeometryValue::Polygon { coordinates: empty })
            } else {
                Err(mismatch_error())
            }
        },
        (GeometryType::MultiPoint, Some(Coordinates::OneDimensional(l)), None) => Ok(
            GeometryValue::MultiPoint { coordinates: l },
        ),
        (GeometryType::MultiLineString, Some(Coordinates::TwoDimensional(r)), None) => Ok(
            GeometryValue::MultiLineString { coordinates: r },
        ),
        (GeometryType::MultiLineString, Some(Coordinates::OneDimensional(l)), None) => {
            if l.len() == 0 {
                let empty: Vec<Vec<Position>> = Vec::new();
                proof {
                    assert(crate::geometry::rings_view(empty@) =~= Seq::empty());
                }
                Ok(GeometryValue::MultiLineString { coordinates: empty })
            } else {
                Err(mismatch_error())
            }
        },
        (GeometryType::MultiPolygon, Some(Coordinates::ThreeDimensional(p)), None) => Ok(
            GeometryValue::MultiPolygon { coordinates: p },
        ),
        (GeometryType::MultiPolygon, Some(Coordinates::OneDimensional(l)), None) => {
            if l.len() == 0 {
                let empty: Vec<Vec<Vec<Position>>> = Vec::new();
                proof {
                    assert(crate::geometry::polygons_view(empty@) =~= Seq::empty());
                }
                Ok(GeometryValue::MultiPolygon { coordinates: empty })
            } else {
                Err(mismatch_error())
            }
        },
        (GeometryType::GeometryCollection, None, Some(gs)) => Ok(
            GeometryValue::GeometryCollection { geometries: gs },
        ),
        _ => Err(mismatch_error()),
    }
}

impl Geometry {
    /// Reads a Geometry object: its `"type"`, `"bbox"`, `"coordinates"`
    /// and `"geometries"` members, the rest as foreign members.
    pub fn decode(v: JsonValue) -> (r: Result<Geometry, Error>)
        ensures
            geometry_result_view(r) == spec_decode_geometry(v@),
        decreases json_size(v@), 0int,
    {
        match v {
            JsonValue::Object(obj) => {
                let ghost m = obj@;
                let keys = geometry_key_names();
                let (mut slots, rest) = split_members(obj.entries, keys.as_slice());
                proof {
                    lemma_key_texts(keys@);
                    assert(key_texts(keys@)[0] == geometry_keys()[0]);
                    assert(key_texts(keys@)[1] == geometry_keys()[1]);
                    assert(key_texts(keys@)[2] == geometry_keys()[2]);
                    assert(key_texts(keys@)[3] == geometry_keys()[3]);
                    assert(keys@[0]@ == "type"@);
                    assert(keys@[1]@ == "coordinates"@);
                    assert(keys@[2]@ == "geometries"@);
                    assert(keys@[3]@ == "bbox"@);
                }
                let ghost all = slots@;
                let bbox_slot = pop_slot(&mut slots);
                let geometries_slot = pop_slot(&mut slots);
                let coordinates_slot = pop_slot(&mut slots);
                let type_slot = pop_slot(&mut slots);
                proof {
                    assert(bbox_slot == all[3]);
                    assert(geometries_slot == all[2]);
                    assert(coordinates_slot == all[1]);
                    assert(type_slot == all[0]);
                }
                let t = match read_geometry_type(type_slot) {
                    Ok(t) => t,
                    Err(e) => return Err(e),
                };
                let bbox = match read_bbox(bbox_slot) {
                    Ok(b) => b,
                    Err(e) => return Err(e),
                };
                let coords = match read_opt_coordinates(coordinates_slot) {
                    Ok(c) => c,
                    Err(e) => return Err(e),
                };
                let geoms: Option<Vec<Geometry>> = match geometries_slot {
                    None => None,
                    Some(JsonValue::Null) => None,
                    Some(JsonValue::Array(a)) => {
                        proof {
                            lemma_lookup_smaller(m, "geometries"@);
                        }
                        match Geometry::decode_all(a) {
                            Ok(gs) => Some(gs),
                            Err(e) => return Err(e),
                        }
                    },
                    Some(_) => return Err(Error::MalformedJson(DecodeError::InvalidGeometries)),
                };
                let value = match geometry_value_from(t, coords, geoms) {
                    Ok(value) => value,
                    Err(e) => return Err(e),
                };
                let foreign_members = foreign_from(rest);
                Ok(Geometry { bbox, value, foreign_members })
            },
            _ => Err(Error::MalformedJson(DecodeError::ExpectedGeometryObject)),
        }
    }

    /// Reads the elements of a `"geometries"` array, stopping at the first error.
    pub fn decode_all(a: Vec<JsonValue>) -> (r: Result<Vec<Geometry>, Error>)
        ensures
            geometries_result_view(r) == spec_decode_geometries(values_view(a@)),
        decreases seq_size(values_view(a@)), 1int,
    {
        let ghost s = values_view(a@);
        let ghost sa = a@;
        proof {
            lemma_values_view(a@);
            lemma_seq_size(s);
            assert(s.skip(0) =~= s);
            lemma_geometries_view(Seq::<Geometry>::empty());
        }
        let mut out: Vec<Geometry> = Vec::new();
        for x in it: a.into_iter()
            invariant
                it.seq() == sa,
                s == values_view(sa),
                s.len() == sa.len(),
                forall|j: int| 0 <= j < sa.len() ==> #[trigger] s[j] == sa[j]@,
                forall|j: int| 0 <= j < s.len() ==> json_size(#[trigger] s[j]) <= seq_size(s),
                spec_decode_geometries(s) == match spec_decode_geometries(s.skip(it.index() as int)) {
                    Ok(gs) => Ok(geometries_view(out@) + gs),
                    Err(e) => Err(e),
                },
        {
            let ghost i = it.index() as int;
            proof {
                assert(x@ == s[i]);
                assert(s.skip(i)[0] == s[i]);
                assert(s.skip(i).subrange(1, s.skip(i).len() as int) =~= s.skip(i + 1));
            }
            match Geometry::decode(x) {
                Ok(g) => {
                    proof {
                        lemma_geometries_view_push(out@, g);
                        assert(geometries_view(out@.push(g)) + spec_decode_geometries(s.skip(i + 1))->Ok_0
                            =~= geometries_view(out@) + (seq![g@] + spec_decode_geometries(s.skip(i + 1))->Ok_0));
                    }
                    out.push(g);
                },
                Err(e) => {
                    return Err(e);
                },
            }
        }
        proof {
            assert(s.skip(s.len() as int) =~= Seq::<JsonView>::empty());
            assert(geometries_view(out@) + Seq::<GeometryView>::empty() =~= geometries_view(out@));
        }
        Ok(out)
    }
}

} // verus!
