//! Reading GeoJSON objects member by member, taking each member out of the
//! object as it is read.
use crate::errors::{Error, ErrorView};
use crate::feature::{opt_geometry_view, opt_id_view, Feature, FeatureView, Id, IdView};
use crate::feature_collection::features_view;
use crate::geometry::{
    geometries_view, line_view, opt_bbox_view, opt_object_view, polygons_view, rings_view,
    str_is, Bbox, Geometry, GeometryValue, GeometryView, LineView, PolygonsView, Position,
    PositionView, RingsView, ValueView,
};
use crate::json::{
    json_size, lemma_lookup_smaller, lemma_member_remove_size, lemma_seq_size, lemma_values_view,
    members_size, seq_size, values_view, JsonNumber, JsonObject, JsonValue, JsonView, Members,
};
use crate::util_spec::{
    kind_name, lemma_map_all_done, lemma_map_all_start, lemma_map_all_step, map_all,
    map_all_from, read_1d, read_2d, read_3d, read_bbox_number, read_feature_value, read_float,
    read_position, spec_expect_float, spec_expect_property, spec_expect_string, spec_expect_type,
    spec_get_bbox, spec_get_coords, spec_get_features, spec_get_geometry, spec_get_id,
    spec_get_properties, spec_get_value, spec_json_to_1d, spec_json_to_2d, spec_json_to_3d,
    spec_json_to_position, spec_util_feature, spec_util_geometries, spec_util_geometry,
    spec_util_geometry_value, spec_util_feature_value,
};
use crate::decode::normalize;
use crate::number::to_float;
use vstd::prelude::*;

verus! {

/// A result, its value seen through `f` and its error through its view.
pub open spec fn err_or<T, V>(r: Result<T, Error>, f: spec_fn(T) -> V) -> Result<V, ErrorView> {
    match r {
        Ok(x) => Ok(f(x)),
        Err(e) => Err(e@),
    }
}

/// The string a value holds.
pub fn expect_string(value: JsonValue) -> (r: Result<String, Error>)
    ensures
        err_or(r, |s: String| s@) == spec_expect_string(value@),
{
    match value {
        JsonValue::String(s) => Ok(s),
        _ => Err(Error::ExpectedStringValue(value)),
    }
}

/// The number a value holds, as a binary64 value.
pub fn expect_float(value: &JsonValue) -> (r: Result<JsonNumber, Error>)
    ensures
        err_or(r, |n: JsonNumber| n) == spec_expect_float(value@),
{
    match value {
        JsonValue::Number(n) => Ok(to_float(*n)),
        _ => Err(Error::ExpectedFloatValue),
    }
}

/// The elements of an array value.
pub fn expect_array(value: &JsonValue) -> (r: Result<&Vec<JsonValue>, Error>)
    ensures
        r matches Ok(a) ==> *value == JsonValue::Array(*a),
        r matches Err(e) ==> !(value@ is Array) && e@ == ErrorView::ExpectedArrayValue("None"@),
        value@ is Array ==> r is Ok,
{
    match value {
        JsonValue::Array(a) => Ok(a),
        _ => Err(Error::ExpectedArrayValue("None".to_string())),
    }
}

/// Takes the member `name` out of the object; it must be there.
fn expect_property(obj: &mut JsonObject, name: &str) -> (r: Result<JsonValue, Error>)
    ensures
        final(obj)@ == spec_expect_property(old(obj)@, name@).0,
        err_or(r, |v: JsonValue| v@) == spec_expect_property(old(obj)@, name@).1,
{
    match obj.remove(name) {
        Some(v) => Ok(v),
        None => Err(Error::ExpectedProperty(name.to_string())),
    }
}

/// Takes the `"type"` member out of the object; it must be a string.
pub fn expect_type(value: &mut JsonObject) -> (r: Result<String, Error>)
    ensures
        final(value)@ == spec_expect_type(old(value)@).0,
        err_or(r, |s: String| s@) == spec_expect_type(old(value)@).1,
{
    let prop = match expect_property(value, "type") {
        Ok(p) => p,
        Err(e) => return Err(e),
    };
    expect_string(prop)
}

fn expect_owned_array(value: JsonValue) -> (r: Result<Vec<JsonValue>, Error>)
    ensures
        err_or(r, |v: Vec<JsonValue>| JsonView::Array(values_view(v@))) == match value@ {
            JsonView::Array(a) => Ok(JsonView::Array(a)),
            x => Err(ErrorView::ExpectedArrayValue(kind_name(x))),
        },
{
    match value {
        JsonValue::Array(v) => Ok(v),
        JsonValue::Null => Err(Error::ExpectedArrayValue("Null".to_string())),
        JsonValue::Bool(_) => Err(Error::ExpectedArrayValue("Bool".to_string())),
        JsonValue::Number(_) => Err(Error::ExpectedArrayValue("Number".to_string())),
        JsonValue::String(_) => Err(Error::ExpectedArrayValue("String".to_string())),
        JsonValue::Object(_) => Err(Error::ExpectedArrayValue("Object".to_string())),
    }
}

/// The members of an object value.
pub fn expect_owned_object(value: JsonValue) -> (r: Result<JsonObject, Error>)
    ensures
        err_or(r, |o: JsonObject| o@) == match value@ {
            JsonView::Object(m) => Ok(m),
            x => Err(ErrorView::ExpectedObjectValue(x)),
        },
{
    match value {
        JsonValue::Object(o) => Ok(o),
        _ => Err(Error::ExpectedObjectValue(value)),
    }
}

/// Takes the `"coordinates"` member out of the object; it must be there.
pub fn get_coords_value(object: &mut JsonObject) -> (r: Result<JsonValue, Error>)
    ensures
        final(object)@ == spec_expect_property(old(object)@, "coordinates"@).0,
        err_or(r, |v: JsonValue| v@) == spec_expect_property(old(object)@, "coordinates"@).1,
{
    expect_property(object, "coordinates")
}

/// Takes the `"bbox"` member out of the object: absent, or an array of numbers.
pub fn get_bbox(object: &mut JsonObject) -> (r: Result<Option<Bbox>, Error>)
    ensures
        final(object)@ == spec_get_bbox(old(object)@).0,
        err_or(r, |b: Option<Bbox>| opt_bbox_view(b)) == spec_get_bbox(old(object)@).1,
{
    let bbox_json = match object.remove("bbox") {
        Some(b) => b,
        None => return Ok(None),
    };
    let bbox_array = match bbox_json {
        JsonValue::Array(a) => a,
        _ => return Err(Error::BboxExpectedArray(bbox_json)),
    };
    let ghost s = values_view(bbox_array@);
    let ghost sa = bbox_array@;
    proof {
        lemma_values_view(bbox_array@);
        lemma_map_all_start(s, read_bbox_number());
    }
    let mut out: Vec<JsonNumber> = Vec::new();
    for x in it: bbox_array.into_iter()
        invariant
            it.seq() == sa,
            s == values_view(sa),
            s.len() == sa.len(),
            forall|j: int| 0 <= j < sa.len() ==> #[trigger] s[j] == sa[j]@,
            map_all_from(s, read_bbox_number(), it.index() as int, out@),
            object@ == spec_get_bbox(old(object)@).0,
            crate::json::lookup(old(object)@, "bbox"@) == Some(JsonView::Array(s)),
    {
        let ghost i = it.index() as int;
        proof {
            assert(x@ == s[i]);
            lemma_map_all_step(s, read_bbox_number(), i, out@);
        }
        match x {
            JsonValue::Number(n) => {
                out.push(to_float(n));
            },
            _ => {
                return Err(Error::BboxExpectedNumericValues(x));
            },
        }
    }
    proof {
        lemma_map_all_done(s, read_bbox_number(), out@);
    }
    Ok(Some(out))
}

/// What is left of the object: its foreign members, `None` when empty.
pub fn get_foreign_members(object: JsonObject) -> (r: Result<Option<JsonObject>, Error>)
    ensures
        r matches Ok(x) && opt_object_view(x) == normalize(object@),
{
    if object.is_empty() {
        Ok(None)
    } else {
        Ok(Some(object))
    }
}

/// Takes the `"properties"` member out of the object: absent or null, or an object.
pub fn get_properties(object: &mut JsonObject) -> (r: Result<Option<JsonObject>, Error>)
    ensures
        final(object)@ == spec_get_properties(old(object)@).0,
        err_or(r, |p: Option<JsonObject>| opt_object_view(p)) == spec_get_properties(
            old(object)@,
        ).1,
{
    match object.remove("properties") {
        Some(JsonValue::Object(x)) => Ok(Some(x)),
        Some(JsonValue::Null) => Ok(None),
        None => Ok(None),
        Some(v) => Err(Error::PropertiesExpectedObjectOrNull(v)),
    }
}

/// Reads a position: an array of at least two numbers.
fn json_to_position(json: &JsonValue) -> (r: Result<Position, Error>)
    ensures
        err_or(r, |p: Position| p@) == spec_json_to_position(json@),
{
    let coords_array = match expect_array(json) {
        Ok(a) => a,
        Err(e) => return Err(e),
    };
    if coords_array.len() < 2 {
        proof {
            lemma_values_view(coords_array@);
        }
        return Err(Error::PositionTooShort(coords_array.len()));
    }
    let ghost s = values_view(coords_array@);
    proof {
        lemma_values_view(coords_array@);
        lemma_map_all_start(s, read_float());
    }
    let mut coords: Vec<JsonNumber> = Vec::new();
    let mut i: usize = 0;
    while i < coords_array.len()
        invariant
            i <= coords_array@.len(),
            s == values_view(coords_array@),
            s.len() == coords_array@.len(),
            forall|j: int| 0 <= j < coords_array@.len() ==> #[trigger] s[j] == coords_array@[j]@,
            map_all_from(s, read_float(), i as int, coords@),
            json@ == JsonView::Array(s),
            s.len() >= 2,
        decreases coords_array.len() - i,
    {
        proof {
            lemma_map_all_step(s, read_float(), i as int, coords@);
        }
        match expect_float(&coords_array[i]) {
            Ok(n) => coords.push(n),
            Err(e) => return Err(e),
        }
        i = i + 1;
    }
    proof {
        lemma_map_all_done(s, read_float(), coords@);
    }
    Ok(Position(coords))
}

/// Reads an array of positions.
fn json_to_1d_positions(json: &JsonValue) -> (r: Result<Vec<Position>, Error>)
    ensures
        err_or(r, |l: Vec<Position>| line_view(l@)) == spec_json_to_1d(json@),
{
    let coords_array = match expect_array(json) {
        Ok(a) => a,
        Err(e) => return Err(e),
    };
    let ghost s = values_view(coords_array@);
    proof {
        lemma_values_view(coords_array@);
        lemma_map_all_start(s, read_position());
    }
    let mut coords: Vec<Position> = Vec::new();
    let mut i: usize = 0;
    while i < coords_array.len()
        invariant
            i <= coords_array@.len(),
            s == values_view(coords_array@),
            s.len() == coords_array@.len(),
            forall|j: int| 0 <= j < coords_array@.len() ==> #[trigger] s[j] == coords_array@[j]@,
            map_all_from(s, read_position(), i as int, line_view(coords@)),
            json@ == JsonView::Array(s),
        decreases coords_array.len() - i,
    {
        proof {
            lemma_map_all_step(s, read_position(), i as int, line_view(coords@));
        }
        match json_to_position(&coords_array[i]) {
            Ok(p) => {
                proof {
                    assert(line_view(coords@.push(p)) =~= line_view(coords@).push(p@));
                }
                coords.push(p);
            },
            Err(e) => return Err(e),
        }
        i = i + 1;
    }
    proof {
        lemma_map_all_done(s, read_position(), line_view(coords@));
    }
    Ok(coords)
}

/// Reads an array of arrays of positions.
fn json_to_2d_positions(json: &JsonValue) -> (r: Result<Vec<Vec<Position>>, Error>)
    ensures
        err_or(r, |l: Vec<Vec<Position>>| rings_view(l@)) == spec_json_to_2d(json@),
{
    let coords_array = match expect_array(json) {
        Ok(a) => a,
        Err(e) => return Err(e),
    };
    let ghost s = values_view(coords_array@);
    proof {
        lemma_values_view(coords_array@);
        lemma_map_all_start(s, read_1d());
    }
    let mut coords: Vec<Vec<Position>> = Vec::new();
    let mut i: usize = 0;
    while i < coords_array.len()
        invariant
            i <= coords_array@.len(),
            s == values_view(coords_array@),
            s.len() == coords_array@.len(),
            forall|j: int| 0 <= j < coords_array@.len() ==> #[trigger] s[j] == coords_array@[j]@,
            map_all_from(s, read_1d(), i as int, rings_view(coords@)),
            json@ == JsonView::Array(s),
        decreases coords_array.len() - i,
    {
        proof {
            lemma_map_all_step(s, read_1d(), i as int, rings_view(coords@));
        }
        match json_to_1d_positions(&coords_array[i]) {
            Ok(p) => {
                proof {
                    assert(rings_view(coords@.push(p)) =~= rings_view(coords@).push(line_view(p@)));
                }
                coords.push(p);
            },
            Err(e) => return Err(e),
        }
        i = i + 1;
    }
    proof {
        lemma_map_all_done(s, read_1d(), rings_view(coords@));
    }
    Ok(coords)
}

/// Reads an array of arrays of arrays of positions.
fn json_to_3d_positions(json: &JsonValue) -> (r: Result<Vec<Vec<Vec<Position>>>, Error>)
    ensures
        err_or(r, |l: Vec<Vec<Vec<Position>>>| polygons_view(l@)) == spec_json_to_3d(json@),
{
    let coords_array = match expect_array(json) {
        Ok(a) => a,
        Err(e) => return Err(e),
    };
    let ghost s = values_view(coords_array@);
    proof {
        lemma_values_view(coords_array@);
        lemma_map_all_start(s, read_2d());
    }
    let mut coords: Vec<Vec<Vec<Position>>> = Vec::new();
    let mut i: usize = 0;
    while i < coords_array.len()
        invariant
            i <= coords_array@.len(),
            s == values_view(coords_array@),
            s.len() == coords_array@.len(),
            forall|j: int| 0 <= j < coords_array@.len() ==> #[trigger] s[j] == coords_array@[j]@,
            map_all_from(s, read_2d(), i as int, polygons_view(coords@)),
            json@ == JsonView::Array(s),
        decreases coords_array.len() - i,
    {
        proof {
            lemma_map_all_step(s, read_2d(), i as int, polygons_view(coords@));
        }
        match json_to_2d_positions(&coords_array[i]) {
            Ok(p) => {
                proof {
                    assert(polygons_view(coords@.push(p)) =~= polygons_view(coords@).push(
                        rings_view(p@),
                    ));
                }
                coords.push(p);
            },
            Err(e) => return Err(e),
        }
        i = i + 1;
    }
    proof {
        lemma_map_all_done(s, read_2d(), polygons_view(coords@));
    }
    Ok(coords)
}

/// Takes out the `"coordinates"` member and reads it as one position.
pub fn get_coords_one_pos(object: &mut JsonObject) -> (r: Result<Position, Error>)
    ensures
        final(object)@ == spec_get_coords(old(object)@, read_position()).0,
        err_or(r, |p: Position| p@) == spec_get_coords(old(object)@, read_position()).1,
{
    let coords_json = match get_coords_value(object) {
        Ok(c) => c,
        Err(e) => return Err(e),
    };
    json_to_position(&coords_json)
}

/// Takes out the `"coordinates"` member and reads it as a list of positions.
pub fn get_coords_1d_pos(object: &mut JsonObject) -> (r: Result<Vec<Position>, Error>)
    ensures
        final(object)@ == spec_get_coords(old(object)@, read_1d()).0,
        err_or(r, |l: Vec<Position>| line_view(l@)) == spec_get_coords(old(object)@, read_1d()).1,
{
    let coords_json = match get_coords_value(object) {
        Ok(c) => c,
        Err(e) => return Err(e),
    };
    json_to_1d_positions(&coords_json)
}

/// Takes out the `"coordinates"` member and reads it as a list of lists of positions.
pub fn get_coords_2d_pos(object: &mut JsonObject) -> (r: Result<Vec<Vec<Position>>, Error>)
    ensures
        final(object)@ == spec_get_coords(old(object)@, read_2d()).0,
        err_or(r, |l: Vec<Vec<Position>>| rings_view(l@)) == spec_get_coords(
            old(object)@,
            read_2d(),
        ).1,
{
    let coords_json = match get_coords_value(object) {
        Ok(c) => c,
        Err(e) => return Err(e),
    };
    json_to_2d_positions(&coords_json)
}

/// Takes out the `"coordinates"` member and reads it as a list of lists of
/// lists of positions.
pub fn get_coords_3d_pos(object: &mut JsonObject) -> (r: Result<Vec<Vec<Vec<Position>>>, Error>)
    ensures
        final(object)@ == spec_get_coords(old(object)@, read_3d()).0,
        err_or(r, |l: Vec<Vec<Vec<Position>>>| polygons_view(l@)) == spec_get_coords(
            old(object)@,
            read_3d(),
        ).1,
{
    let coords_json = match get_coords_value(object) {
        Ok(c) => c,
        Err(e) => return Err(e),
    };
    json_to_3d_positions(&coords_json)
}

/// What reading the `"geometries"` member gives.
pub open spec fn spec_get_geometries(m: Members) -> Result<Seq<GeometryView>, ErrorView> {
    match spec_expect_property(m, "geometries"@).1 {
        Err(e) => Err(e),
        Ok(JsonView::Array(a)) => spec_util_geometries(a),
        Ok(x) => Err(ErrorView::ExpectedArrayValue(kind_name(x))),
    }
}

/// Takes out the `"geometries"` member and reads each element as a Geometry object.
pub fn get_geometries(object: &mut JsonObject) -> (r: Result<Vec<Geometry>, Error>)
    ensures
        final(object)@ == spec_expect_property(old(object)@, "geometries"@).0,
        err_or(r, |gs: Vec<Geometry>| geometries_view(gs@)) == spec_get_geometries(old(object)@),
    decreases members_size(old(object)@), 0int,
{
    let ghost m0 = object@;
    let geometries_json = match expect_property(object, "geometries") {
        Ok(g) => g,
        Err(e) => return Err(e),
    };
    proof {
        lemma_lookup_smaller(m0, "geometries"@);
    }
    let geometries_array = match expect_owned_array(geometries_json) {
        Ok(a) => a,
        Err(e) => return Err(e),
    };
    let ghost s = values_view(geometries_array@);
    let ghost sa = geometries_array@;
    proof {
        lemma_values_view(geometries_array@);
        lemma_seq_size(s);
        assert(s.skip(0) =~= s);
        crate::geometry::lemma_geometries_view(Seq::<Geometry>::empty());
    }
    let mut geometries: Vec<Geometry> = Vec::new();
    for json in it: geometries_array.into_iter()
        invariant
            it.seq() == sa,
            s == values_view(sa),
            s.len() == sa.len(),
            forall|j: int| 0 <= j < sa.len() ==> #[trigger] s[j] == sa[j]@,
            forall|j: int| 0 <= j < s.len() ==> json_size(#[trigger] s[j]) <= seq_size(s),
            1 + seq_size(s) < 1 + members_size(m0),
            m0 == old(object)@,
            object@ == spec_expect_property(old(object)@, "geometries"@).0,
            spec_expect_property(old(object)@, "geometries"@).1 == Ok::<JsonView, ErrorView>(JsonView::Array(s)),
            spec_util_geometries(s) == match spec_util_geometries(s.skip(it.index() as int)) {
                Ok(gs) => Ok(geometries_view(geometries@) + gs),
                Err(e) => Err(e),
            },
    {
        let ghost i = it.index() as int;
        proof {
            assert(json@ == s[i]);
            assert(s.skip(i)[0] == s[i]);
            assert(s.skip(i).subrange(1, s.skip(i).len() as int) =~= s.skip(i + 1));
        }
        let obj = match expect_owned_object(json) {
            Ok(o) => o,
            Err(e) => {
                proof {
                    assert(spec_util_geometry_value(s[i]) == Err::<GeometryView, ErrorView>(e@));
                }
                return Err(e);
            },
        };
        proof {
            assert(spec_util_geometry_value(s[i]) == spec_util_geometry(obj@));
        }
        let g = match Geometry::from_json_object(obj) {
            Ok(g) => g,
            Err(e) => return Err(e),
        };
        proof {
            crate::geometry::lemma_geometries_view_push(geometries@, g);
            assert(geometries_view(geometries@.push(g)) + spec_util_geometries(s.skip(i + 1))->Ok_0
                =~= geometries_view(geometries@) + (seq![g@] + spec_util_geometries(s.skip(i + 1))->Ok_0));
        }
        geometries.push(g);
    }
    proof {
        assert(s.skip(s.len() as int) =~= Seq::<JsonView>::empty());
        assert(geometries_view(geometries@) + Seq::<GeometryView>::empty() =~= geometries_view(
            geometries@,
        ));
    }
    Ok(geometries)
}

/// Takes the `"id"` member out of the object: absent, a number or a string.
pub fn get_id(object: &mut JsonObject) -> (r: Result<Option<Id>, Error>)
    ensures
        final(object)@ == spec_get_id(old(object)@).0,
        err_or(r, |i: Option<Id>| opt_id_view(i)) == spec_get_id(old(object)@).1,
{
    match object.remove("id") {
        Some(JsonValue::Number(x)) => Ok(Some(Id::Number(x))),
        Some(JsonValue::String(s)) => Ok(Some(Id::String(s))),
        Some(v) => Err(Error::FeatureInvalidIdentifierType(v)),
        None => Ok(None),
    }
}

/// Takes out the `"type"` member and the members its type needs, and reads
/// the geometry value.
pub fn get_value(object: &mut JsonObject) -> (r: Result<GeometryValue, Error>)
    ensures
        final(object)@ == spec_get_value(old(object)@).0,
        err_or(r, |v: GeometryValue| v@) == spec_get_value(old(object)@).1,
    decreases members_size(old(object)@), 1int,
{
    let ghost m0 = object@;
    let t = match expect_type(object) {
        Ok(t) => t,
        Err(e) => return Err(e),
    };
    proof {
        lemma_member_remove_size(m0, "type"@);
    }
    if str_is(t.as_str(), "Point") {
        match get_coords_one_pos(object) {
            Ok(c) => Ok(GeometryValue::Point { coordinates: c }),
            Err(e) => Err(e),
        }
    } else if str_is(t.as_str(), "MultiPoint") {
        match get_coords_1d_pos(object) {
            Ok(c) => Ok(GeometryValue::MultiPoint { coordinates: c }),
            Err(e) => Err(e),
        }
    } else if str_is(t.as_str(), "LineString") {
        match get_coords_1d_pos(object) {
            Ok(c) => Ok(GeometryValue::LineString { coordinates: c }),
            Err(e) => Err(e),
        }
    } else if str_is(t.as_str(), "MultiLineString") {
        match get_coords_2d_pos(object) {
            Ok(c) => Ok(GeometryValue::MultiLineString { coordinates: c }),
            Err(e) => Err(e),
        }
    } else if str_is(t.as_str(), "Polygon") {
        match get_coords_2d_pos(object) {
            Ok(c) => Ok(GeometryValue::Polygon { coordinates: c }),
            Err(e) => Err(e),
        }
    } else if str_is(t.as_str(), "MultiPolygon") {
        match get_coords_3d_pos(object) {
            Ok(c) => Ok(GeometryValue::MultiPolygon { coordinates: c }),
            Err(e) => Err(e),
        }
    } else if str_is(t.as_str(), "GeometryCollection") {
        match get_geometries(object) {
            Ok(g) => Ok(GeometryValue::GeometryCollection { geometries: g }),
            Err(e) => Err(e),
        }
    } else {
        Err(Error::GeometryUnknownType(t))
    }
}

/// Takes the `"geometry"` member out of a Feature object: it must be there,
/// null or a Geometry object.
pub fn get_geometry(object: &mut JsonObject) -> (r: Result<Option<Geometry>, Error>)
    ensures
        final(object)@ == spec_get_geometry(old(object)@).0,
        err_or(r, |g: Option<Geometry>| opt_geometry_view(g)) == spec_get_geometry(
            old(object)@,
        ).1,
{
    let geometry = match expect_property(object, "geometry") {
        Ok(g) => g,
        Err(e) => return Err(e),
    };
    match geometry {
        JsonValue::Object(x) => match Geometry::from_json_object(x) {
            Ok(g) => Ok(Some(g)),
            Err(e) => Err(e),
        },
        JsonValue::Null => Ok(None),
        _ => Err(Error::FeatureInvalidGeometryValue(geometry)),
    }
}

/// Takes out the `"features"` member and reads each element as a Feature object.
pub fn get_features(object: &mut JsonObject) -> (r: Result<Vec<Feature>, Error>)
    ensures
        final(object)@ == spec_get_features(old(object)@).0,
        err_or(r, |fs: Vec<Feature>| features_view(fs@)) == spec_get_features(old(object)@).1,
{
    let prop = match expect_property(object, "features") {
        Ok(p) => p,
        Err(e) => return Err(e),
    };
    let features_json = match expect_owned_array(prop) {
        Ok(a) => a,
        Err(e) => return Err(e),
    };
    let ghost s = values_view(features_json@);
    let ghost sa = features_json@;
    proof {
        lemma_values_view(features_json@);
        lemma_map_all_start(s, read_feature_value());
    }
    let mut features: Vec<Feature> = Vec::new();
    for feature in it: features_json.into_iter()
        invariant
            it.seq() == sa,
            s == values_view(sa),
            s.len() == sa.len(),
            forall|j: int| 0 <= j < sa.len() ==> #[trigger] s[j] == sa[j]@,
            map_all_from(s, read_feature_value(), it.index() as int, features_view(features@)),
            object@ == spec_get_features(old(object)@).0,
            spec_expect_property(old(object)@, "features"@).1 == Ok::<JsonView, ErrorView>(JsonView::Array(s)),
    {
        let ghost i = it.index() as int;
        proof {
            assert(feature@ == s[i]);
            lemma_map_all_step(s, read_feature_value(), i, features_view(features@));
        }
        let obj = match expect_owned_object(feature) {
            Ok(o) => o,
            Err(e) => return Err(e),
        };
        let f = match Feature::from_json_object(obj) {
            Ok(f) => f,
            Err(e) => return Err(e),
        };
        proof {
            assert(features_view(features@.push(f)) =~= features_view(features@).push(f@));
        }
        features.push(f);
    }
    proof {
        lemma_map_all_done(s, read_feature_value(), features_view(features@));
    }
    Ok(features)
}

impl Geometry {
    /// Reads a Geometry object member by member: its bounding box, its
    /// value, and what is left as foreign members.
    pub fn from_json_object(object: JsonObject) -> (r: Result<Geometry, Error>)
        ensures
            err_or(r, |g: Geometry| g@) == spec_util_geometry(object@),
        decreases members_size(object@), 2int,
    {
        let ghost m0 = object@;
        let mut object = object;
        let bbox = match get_bbox(&mut object) {
            Ok(b) => b,
            Err(e) => return Err(e),
        };
        proof {
            lemma_member_remove_size(m0, "bbox"@);
        }
        let value = match get_value(&mut object) {
            Ok(v) => v,
            Err(e) => return Err(e),
        };
        let foreign_members = match get_foreign_members(object) {
            Ok(f) => f,
            Err(e) => return Err(e),
        };
        Ok(Geometry { bbox, value, foreign_members })
    }

    /// Reads a JSON value that must be an object as a Geometry object.
    pub fn from_json_value(value: JsonValue) -> (r: Result<Geometry, Error>)
        ensures
            err_or(r, |g: Geometry| g@) == match value@ {
                JsonView::Object(m) => spec_util_geometry(m),
                x => Err(ErrorView::GeoJsonExpectedObject(x)),
            },
    {
        match value {
            JsonValue::Object(obj) => Geometry::from_json_object(obj),
            _ => Err(Error::GeoJsonExpectedObject(value)),
        }
    }
}

impl GeometryValue {
    /// Reads the `"type"` and coordinates of a Geometry object.
    pub fn from_json_object(object: JsonObject) -> (r: Result<GeometryValue, Error>)
        ensures
            err_or(r, |v: GeometryValue| v@) == spec_get_value(object@).1,
    {
        let mut object = object;
        get_value(&mut object)
    }

    /// Reads a JSON value that must be an object as a geometry value.
    pub fn from_json_value(value: JsonValue) -> (r: Result<GeometryValue, Error>)
        ensures
            err_or(r, |v: GeometryValue| v@) == match value@ {
                JsonView::Object(m) => spec_get_value(m).1,
                x => Err(ErrorView::GeoJsonExpectedObject(x)),
            },
    {
        match value {
            JsonValue::Object(obj) => GeometryValue::from_json_object(obj),
            _ => Err(Error::GeoJsonExpectedObject(value)),
        }
    }
}

impl Feature {
    /// Reads a Feature object member by member: `"type"` must be
    /// `"Feature"`; then its geometry (which must be there), properties,
    /// identifier and bounding box; what is left are foreign members.
    pub fn from_json_object(object: JsonObject) -> (r: Result<Feature, Error>)
        ensures
            err_or(r, |f: Feature| f@) == spec_util_feature(object@),
    {
        let mut object = object;
        let t = match expect_type(&mut object) {
            Ok(t) => t,
            Err(e) => return Err(e),
        };
        if str_is(t.as_str(), "Feature") {
            let geometry = match get_geometry(&mut object) {
                Ok(g) => g,
                Err(e) => return Err(e),
            };
            let properties = match get_properties(&mut object) {
                Ok(p) => p,
                Err(e) => return Err(e),
            };
            let id = match get_id(&mut object) {
                Ok(i) => i,
                Err(e) => return Err(e),
            };
            let bbox = match get_bbox(&mut object) {
                Ok(b) => b,
                Err(e) => return Err(e),
            };
            let foreign_members = match get_foreign_members(object) {
                Ok(f) => f,
                Err(e) => return Err(e),
            };
            Ok(Feature { bbox, geometry, id, properties, foreign_members })
        } else {
            Err(Error::NotAFeature(t))
        }
    }

    /// Reads a JSON value that must be an object as a Feature object.
    pub fn from_json_value(value: JsonValue) -> (r: Result<Feature, Error>)
        ensures
            err_or(r, |f: Feature| f@) == match value@ {
                JsonView::Object(m) => spec_util_feature(m),
                x => Err(ErrorView::GeoJsonExpectedObject(x)),
            },
    {
        match value {
            JsonValue::Object(obj) => Feature::from_json_object(obj),
            _ => Err(Error::GeoJsonExpectedObject(value)),
        }
    }
}

} // verus!
