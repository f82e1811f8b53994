//! What the member-by-member reading of GeoJSON objects computes.
//!
//! This way of reading takes the members it needs out of the object one
//! after the other (the last member takes the place of one taken out), and
//! keeps what is left as foreign members. Every member it needs must be
//! there; a position needs at least two numbers.
use crate::coordinates::{all_numbers, numbers_of};
use crate::decode::normalize;
use crate::errors::ErrorView;
use crate::number::float_of;
use crate::feature::{FeatureView, IdView};
use crate::geometry::{GeometryView, LineView, PolygonsView, PositionView, RingsView, ValueView};
use crate::json::{
    json_size, lemma_lookup_smaller, lemma_member_remove_size, lemma_seq_size, lookup,
    member_remove, members_size, seq_size, JsonNumber, JsonView, Members,
};
use vstd::prelude::*;

verus! {

/// Each element read by `f`, or the first error.
pub open spec fn map_all<A>(a: Seq<JsonView>, f: spec_fn(JsonView) -> Result<A, ErrorView>) -> Result<
    Seq<A>,
    ErrorView,
>
    decreases a.len(),
{
    if a.len() == 0 {
        Ok(Seq::empty())
    } else {
        match f(a[0]) {
            Err(e) => Err(e),
            Ok(x) => match map_all(a.subrange(1, a.len() as int), f) {
                Err(e) => Err(e),
                Ok(xs) => Ok(seq![x] + xs),
            },
        }
    }
}

/// Reading `s` with `f` gives `done` followed by what reading from `i` on gives.
pub open spec fn map_all_from<A>(
    s: Seq<JsonView>,
    f: spec_fn(JsonView) -> Result<A, ErrorView>,
    i: int,
    done: Seq<A>,
) -> bool {
    map_all(s, f) == match map_all(s.skip(i), f) {
        Ok(xs) => Ok(done + xs),
        Err(e) => Err(e),
    }
}

pub proof fn lemma_map_all_start<A>(s: Seq<JsonView>, f: spec_fn(JsonView) -> Result<A, ErrorView>)
    ensures
        map_all_from(s, f, 0, Seq::empty()),
{
    assert(s.skip(0) =~= s);
    match map_all(s, f) {
        Ok(xs) => {
            assert(Seq::<A>::empty() + xs =~= xs);
        },
        Err(_) => {},
    }
}

pub proof fn lemma_map_all_step<A>(
    s: Seq<JsonView>,
    f: spec_fn(JsonView) -> Result<A, ErrorView>,
    i: int,
    done: Seq<A>,
)
    requires
        0 <= i < s.len(),
        map_all_from(s, f, i, done),
    ensures
        f(s[i]) matches Ok(x) ==> map_all_from(s, f, i + 1, done.push(x)),
        f(s[i]) matches Err(e) ==> map_all(s, f) == Err::<Seq<A>, ErrorView>(e),
{
    let t = s.skip(i);
    assert(t[0] == s[i]);
    assert(t.subrange(1, t.len() as int) =~= s.skip(i + 1));
    if let Ok(x) = f(s[i]) {
        match map_all(s.skip(i + 1), f) {
            Ok(xs) => {
                assert(done + (seq![x] + xs) =~= done.push(x) + xs);
            },
            Err(_) => {},
        }
    }
}

pub proof fn lemma_map_all_done<A>(
    s: Seq<JsonView>,
    f: spec_fn(JsonView) -> Result<A, ErrorView>,
    done: Seq<A>,
)
    requires
        map_all_from(s, f, s.len() as int, done),
    ensures
        map_all(s, f) == Ok::<Seq<A>, ErrorView>(done),
{
    assert(s.skip(s.len() as int) =~= Seq::<JsonView>::empty());
    assert(done + Seq::<A>::empty() =~= done);
}

/// The member keyed `k`, if any, and the members left once it is taken out.
pub open spec fn take(m: Members, k: Seq<char>) -> (Option<JsonView>, Members) {
    (lookup(m, k), member_remove(m, k))
}

/// The name of the kind of a JSON value.
pub open spec fn kind_name(v: JsonView) -> Seq<char> {
    match v {
        JsonView::Null => "Null"@,
        JsonView::Bool(_) => "Bool"@,
        JsonView::Number(_) => "Number"@,
        JsonView::String(_) => "String"@,
        JsonView::Array(_) => "Array"@,
        JsonView::Object(_) => "Object"@,
    }
}

pub open spec fn spec_expect_string(v: JsonView) -> Result<Seq<char>, ErrorView> {
    match v {
        JsonView::String(s) => Ok(s),
        _ => Err(ErrorView::ExpectedStringValue(v)),
    }
}

/// The number a value holds, as a binary64 value.
pub open spec fn spec_expect_float(v: JsonView) -> Result<JsonNumber, ErrorView> {
    match v {
        JsonView::Number(n) => Ok(float_of(n)),
        _ => Err(ErrorView::ExpectedFloatValue),
    }
}

/// Takes out the member `name`, which must be there.
pub open spec fn spec_expect_property(m: Members, name: Seq<char>) -> (Members, Result<
    JsonView,
    ErrorView,
>) {
    let (v, rest) = take(m, name);
    (
        rest,
        match v {
            Some(x) => Ok(x),
            None => Err(ErrorView::ExpectedProperty(name)),
        },
    )
}

/// Takes out the `"type"` member, which must be a string.
pub open spec fn spec_expect_type(m: Members) -> (Members, Result<Seq<char>, ErrorView>) {
    let (rest, r) = spec_expect_property(m, "type"@);
    (
        rest,
        match r {
            Ok(v) => spec_expect_string(v),
            Err(e) => Err(e),
        },
    )
}

/// A number of a bounding box, as a binary64 value.
pub open spec fn bbox_number(v: JsonView) -> Result<JsonNumber, ErrorView> {
    match v {
        JsonView::Number(n) => Ok(float_of(n)),
        _ => Err(ErrorView::BboxExpectedNumericValues(v)),
    }
}

/// Takes out the `"bbox"` member: absent, or an array of numbers.
pub open spec fn spec_get_bbox(m: Members) -> (Members, Result<Option<Seq<JsonNumber>>, ErrorView>) {
    let (v, rest) = take(m, "bbox"@);
    (
        rest,
        match v {
            None => Ok(None),
            Some(JsonView::Array(a)) => match map_all(a, read_bbox_number()) {
                Ok(ns) => Ok(Some(ns)),
                Err(e) => Err(e),
            },
            Some(x) => Err(ErrorView::BboxExpectedArray(x)),
        },
    )
}

/// A position: an array of at least two numbers.
pub open spec fn spec_json_to_position(v: JsonView) -> Result<PositionView, ErrorView> {
    match v {
        JsonView::Array(a) => if a.len() < 2 {
            Err(ErrorView::PositionTooShort(a.len() as usize))
        } else {
            map_all(a, read_float())
        },
        _ => Err(ErrorView::ExpectedArrayValue("None"@)),
    }
}

pub open spec fn spec_json_to_1d(v: JsonView) -> Result<LineView, ErrorView> {
    match v {
        JsonView::Array(a) => map_all(a, read_position()),
        _ => Err(ErrorView::ExpectedArrayValue("None"@)),
    }
}

pub open spec fn spec_json_to_2d(v: JsonView) -> Result<RingsView, ErrorView> {
    match v {
        JsonView::Array(a) => map_all(a, read_1d()),
        _ => Err(ErrorView::ExpectedArrayValue("None"@)),
    }
}

pub open spec fn spec_json_to_3d(v: JsonView) -> Result<PolygonsView, ErrorView> {
    match v {
        JsonView::Array(a) => map_all(a, read_2d()),
        _ => Err(ErrorView::ExpectedArrayValue("None"@)),
    }
}

/// Takes out the `"coordinates"` member and reads it with `f`.
pub open spec fn spec_get_coords<A>(m: Members, f: spec_fn(JsonView) -> Result<A, ErrorView>) -> (
    Members,
    Result<A, ErrorView>,
) {
    let (rest, c) = spec_expect_property(m, "coordinates"@);
    (
        rest,
        match c {
            Ok(v) => f(v),
            Err(e) => Err(e),
        },
    )
}

/// A value read as a Geometry object.
pub open spec fn spec_util_geometry_value(v: JsonView) -> Result<GeometryView, ErrorView>
    decreases json_size(v), 3int,
{
    match v {
        JsonView::Object(o) => spec_util_geometry(o),
        _ => Err(ErrorView::ExpectedObjectValue(v)),
    }
}

/// The elements of a `"geometries"` array, each read as a Geometry object.
pub open spec fn spec_util_geometries(a: Seq<JsonView>) -> Result<Seq<GeometryView>, ErrorView>
    decreases seq_size(a), 4int,
{
    if a.len() == 0 {
        Ok(Seq::empty())
    } else {
        proof {
            lemma_seq_size(a);
        }
        match spec_util_geometry_value(a[0]) {
            Err(e) => Err(e),
            Ok(g) => match spec_util_geometries(a.subrange(1, a.len() as int)) {
                Err(e) => Err(e),
                Ok(gs) => Ok(seq![g] + gs),
            },
        }
    }
}

pub open spec fn coords_value<A>(r: Result<A, ErrorView>, f: spec_fn(A) -> ValueView) -> Result<
    ValueView,
    ErrorView,
> {
    match r {
        Ok(x) => Ok(f(x)),
        Err(e) => Err(e),
    }
}

/// Takes out the `"type"` member and the members that the type needs, and
/// reads the geometry value.
pub open spec fn spec_get_value(m: Members) -> (Members, Result<ValueView, ErrorView>)
    decreases members_size(m), 1int,
{
    let (m1, t) = spec_expect_type(m);
    match t {
        Err(e) => (m1, Err(e)),
        Ok(name) => if name == "Point"@ {
            let (m2, c) = spec_get_coords(m1, read_position());
            (m2, coords_value(c, |p: PositionView| ValueView::Point(p)))
        } else if name == "MultiPoint"@ {
            let (m2, c) = spec_get_coords(m1, read_1d());
            (m2, coords_value(c, |l: LineView| ValueView::MultiPoint(l)))
        } else if name == "LineString"@ {
            let (m2, c) = spec_get_coords(m1, read_1d());
            (m2, coords_value(c, |l: LineView| ValueView::LineString(l)))
        } else if name == "MultiLineString"@ {
            let (m2, c) = spec_get_coords(m1, read_2d());
            (m2, coords_value(c, |r: RingsView| ValueView::MultiLineString(r)))
        } else if name == "Polygon"@ {
            let (m2, c) = spec_get_coords(m1, read_2d());
            (m2, coords_value(c, |r: RingsView| ValueView::Polygon(r)))
        } else if name == "MultiPolygon"@ {
            let (m2, c) = spec_get_coords(m1, read_3d());
            (m2, coords_value(c, |p: PolygonsView| ValueView::MultiPolygon(p)))
        } else if name == "GeometryCollection"@ {
            let (m2, g) = spec_expect_property(m1, "geometries"@);
            (
                m2,
                match g {
                    Err(e) => Err(e),
                    Ok(JsonView::Array(a)) => {
                        proof {
                            lemma_member_remove_size(m, "type"@);
                            lemma_lookup_smaller(m1, "geometries"@);
                        }
                        match spec_util_geometries(a) {
                            Ok(gs) => Ok(ValueView::GeometryCollection(gs)),
                            Err(e) => Err(e),
                        }
                    },
                    Ok(x) => Err(ErrorView::ExpectedArrayValue(kind_name(x))),
                },
            )
        } else {
            (m1, Err(ErrorView::GeometryUnknownType(name)))
        },
    }
}

/// An object read member by member as a Geometry object: its bounding
/// box, its value, and what is left as foreign members.
pub open spec fn spec_util_geometry(m: Members) -> Result<GeometryView, ErrorView>
    decreases members_size(m), 2int,
{
    let (m1, b) = spec_get_bbox(m);
    match b {
        Err(e) => Err(e),
        Ok(bbox) => {
            proof {
                lemma_member_remove_size(m, "bbox"@);
            }
            let (m2, v) = spec_get_value(m1);
            match v {
                Err(e) => Err(e),
                Ok(value) => Ok(GeometryView { bbox, value, foreign_members: normalize(m2) }),
            }
        },
    }
}

/// Takes out the `"geometry"` member of a Feature, which must be there:
/// null, or a Geometry object.
pub open spec fn spec_get_geometry(m: Members) -> (Members, Result<Option<GeometryView>, ErrorView>) {
    let (m1, g) = spec_expect_property(m, "geometry"@);
    (
        m1,
        match g {
            Err(e) => Err(e),
            Ok(JsonView::Object(x)) => match spec_util_geometry(x) {
                Ok(gv) => Ok(Some(gv)),
                Err(e) => Err(e),
            },
            Ok(JsonView::Null) => Ok(None),
            Ok(v) => Err(ErrorView::FeatureInvalidGeometryValue(v)),
        },
    )
}

/// Takes out the `"properties"` member: absent or null, or an object.
pub open spec fn spec_get_properties(m: Members) -> (Members, Result<Option<Members>, ErrorView>) {
    let (v, rest) = take(m, "properties"@);
    (
        rest,
        match v {
            Some(JsonView::Object(x)) => Ok(Some(x)),
            Some(JsonView::Null) => Ok(None),
            None => Ok(None),
            Some(x) => Err(ErrorView::PropertiesExpectedObjectOrNull(x)),
        },
    )
}

/// Takes out the `"id"` member: absent, a number or a string.
pub open spec fn spec_get_id(m: Members) -> (Members, Result<Option<IdView>, ErrorView>) {
    let (v, rest) = take(m, "id"@);
    (
        rest,
        match v {
            Some(JsonView::Number(n)) => Ok(Some(IdView::Number(n))),
            Some(JsonView::String(s)) => Ok(Some(IdView::String(s))),
            Some(x) => Err(ErrorView::FeatureInvalidIdentifierType(x)),
            None => Ok(None),
        },
    )
}

/// An object read member by member as a Feature object.
pub open spec fn spec_util_feature(m: Members) -> Result<FeatureView, ErrorView> {
    let (m1, t) = spec_expect_type(m);
    match t {
        Err(e) => Err(e),
        Ok(name) => if name == "Feature"@ {
            let (m2, g) = spec_get_geometry(m1);
            match g {
                Err(e) => Err(e),
                Ok(geometry) => {
                    let (m3, p) = spec_get_properties(m2);
                    match p {
                        Err(e) => Err(e),
                        Ok(properties) => {
                            let (m4, i) = spec_get_id(m3);
                            match i {
                                Err(e) => Err(e),
                                Ok(id) => {
                                    let (m5, b) = spec_get_bbox(m4);
                                    match b {
                                        Err(e) => Err(e),
                                        Ok(bbox) => Ok(
                                            FeatureView {
                                                bbox,
                                                geometry,
                                                id,
                                                properties,
                                                foreign_members: normalize(m5),
                                            },
                                        ),
                                    }
                                },
                            }
                        },
                    }
                },
            }
        } else {
            Err(ErrorView::NotAFeature(name))
        },
    }
}

pub open spec fn spec_util_feature_value(v: JsonView) -> Result<FeatureView, ErrorView> {
    match v {
        JsonView::Object(o) => spec_util_feature(o),
        _ => Err(ErrorView::ExpectedObjectValue(v)),
    }
}

/// Takes out the `"features"` member, which must be an array of Feature objects.
pub open spec fn spec_get_features(m: Members) -> (Members, Result<Seq<FeatureView>, ErrorView>) {
    let (m1, f) = spec_expect_property(m, "features"@);
    (
        m1,
        match f {
            Err(e) => Err(e),
            Ok(JsonView::Array(a)) => map_all(a, read_feature_value()),
            Ok(x) => Err(ErrorView::ExpectedArrayValue(kind_name(x))),
        },
    )
}

pub open spec fn read_float() -> spec_fn(JsonView) -> Result<JsonNumber, ErrorView> {
    |x: JsonView| spec_expect_float(x)
}

pub open spec fn read_bbox_number() -> spec_fn(JsonView) -> Result<JsonNumber, ErrorView> {
    |x: JsonView| bbox_number(x)
}

pub open spec fn read_position() -> spec_fn(JsonView) -> Result<PositionView, ErrorView> {
    |x: JsonView| spec_json_to_position(x)
}

pub open spec fn read_1d() -> spec_fn(JsonView) -> Result<LineView, ErrorView> {
    |x: JsonView| spec_json_to_1d(x)
}

pub open spec fn read_2d() -> spec_fn(JsonView) -> Result<RingsView, ErrorView> {
    |x: JsonView| spec_json_to_2d(x)
}

pub open spec fn read_3d() -> spec_fn(JsonView) -> Result<PolygonsView, ErrorView> {
    |x: JsonView| spec_json_to_3d(x)
}

pub open spec fn read_feature_value() -> spec_fn(JsonView) -> Result<FeatureView, ErrorView> {
    |x: JsonView| spec_util_feature_value(x)
}

} // verus!
