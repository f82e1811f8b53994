//! GeoJSON objects read member by member from JSON objects.
use crate::decode::normalize;
use crate::errors::{Error, ErrorView, ObjectKind};
use crate::feature::Feature;
use crate::feature_collection::{features_view, FeatureCollection, FeatureCollectionView};
use crate::geojson::{kind_of, GeoJsonView};
use crate::geometry::{
    geometries_view, opt_bbox_view, str_is, Geometry, GeometryValue, GeometryView, ValueView,
};
use crate::json::{lookup, JsonObject, JsonValue, JsonView, Members};
use crate::util::{err_or, expect_type, get_bbox, get_features, get_foreign_members};
use crate::util_spec::{
    spec_expect_type, spec_get_bbox, spec_get_features, spec_util_feature, spec_util_geometry,
};
use vstd::prelude::*;

verus! {

/// A GeoJSON object: a Geometry, a Feature or a FeatureCollection.
#[derive(Debug, PartialEq)]
pub enum Object {
    Geometry(Geometry),
    Feature(Feature),
    FeatureCollection(FeatureCollection),
}

impl View for Object {
    type V = GeoJsonView;

    open spec fn view(&self) -> GeoJsonView {
        match self {
            Object::Geometry(g) => GeoJsonView::Geometry(g@),
            Object::Feature(f) => GeoJsonView::Feature(f@),
            Object::FeatureCollection(c) => GeoJsonView::FeatureCollection(c@),
        }
    }
}

/// The `"type"` names of GeoJSON objects.
#[derive(Clone, Copy, Debug, PartialEq, Eq)]
pub enum Type {
    Point,
    MultiPoint,
    LineString,
    MultiLineString,
    Polygon,
    MultiPolygon,
    GeometryCollection,
    Feature,
    FeatureCollection,
}

/// The type that a `"type"` text names.
pub open spec fn type_named(s: Seq<char>) -> Option<Type> {
    if s == "Point"@ {
        Some(Type::Point)
    } else if s == "MultiPoint"@ {
        Some(Type::MultiPoint)
    } else if s == "LineString"@ {
        Some(Type::LineString)
    } else if s == "MultiLineString"@ {
        Some(Type::MultiLineString)
    } else if s == "Polygon"@ {
        Some(Type::Polygon)
    } else if s == "MultiPolygon"@ {
        Some(Type::MultiPolygon)
    } else if s == "GeometryCollection"@ {
        Some(Type::GeometryCollection)
    } else if s == "Feature"@ {
        Some(Type::Feature)
    } else if s == "FeatureCollection"@ {
        Some(Type::FeatureCollection)
    } else {
        None
    }
}

impl Type {
    /// The type that `s` names, if any.
    pub fn from_str(s: &str) -> (r: Option<Type>)
        ensures
            r == type_named(s@),
    {
        if str_is(s, "Point") {
            Some(Type::Point)
        } else if str_is(s, "MultiPoint") {
            Some(Type::MultiPoint)
        } else if str_is(s, "LineString") {
            Some(Type::LineString)
        } else if str_is(s, "MultiLineString") {
            Some(Type::MultiLineString)
        } else if str_is(s, "Polygon") {
            Some(Type::Polygon)
        } else if str_is(s, "MultiPolygon") {
            Some(Type::MultiPolygon)
        } else if str_is(s, "GeometryCollection") {
            Some(Type::GeometryCollection)
        } else if str_is(s, "Feature") {
            Some(Type::Feature)
        } else if str_is(s, "FeatureCollection") {
            Some(Type::FeatureCollection)
        } else {
            None
        }
    }
}

/// An object read member by member as a FeatureCollection object.
pub open spec fn spec_util_collection(m: Members) -> Result<FeatureCollectionView, ErrorView> {
    let (m1, t) = spec_expect_type(m);
    match t {
        Err(e) => Err(e),
        Ok(name) => if name == "FeatureCollection"@ {
            let (m2, b) = spec_get_bbox(m1);
            match b {
                Err(e) => Err(e),
                Ok(bbox) => {
                    let (m3, f) = spec_get_features(m2);
                    match f {
                        Err(e) => Err(e),
                        Ok(features) => Ok(
                            FeatureCollectionView {
                                bbox,
                                features,
                                foreign_members: normalize(m3),
                            },
                        ),
                    }
                },
            }
        } else {
            Err(ErrorView::GeometryUnknownType(name))
        },
    }
}

/// What a JSON object reads as, member by member, as a GeoJSON object of
/// the kind its `"type"` names.
pub open spec fn spec_object(m: Members) -> Result<GeoJsonView, ErrorView> {
    match lookup(m, "type"@) {
        Some(JsonView::String(t)) => match type_named(t) {
            None => Err(ErrorView::EmptyType),
            Some(Type::Feature) => match spec_util_feature(m) {
                Ok(f) => Ok(GeoJsonView::Feature(f)),
                Err(e) => Err(e),
            },
            Some(Type::FeatureCollection) => match spec_util_collection(m) {
                Ok(c) => Ok(GeoJsonView::FeatureCollection(c)),
                Err(e) => Err(e),
            },
            Some(_) => match spec_util_geometry(m) {
                Ok(g) => Ok(GeoJsonView::Geometry(g)),
                Err(e) => Err(e),
            },
        },
        _ => Err(ErrorView::GeometryUnknownType("type"@)),
    }
}

/// Reads a FeatureCollection object member by member.
fn collection_from_object(object: JsonObject) -> (r: Result<FeatureCollection, Error>)
    ensures
        err_or(r, |c: FeatureCollection| c@) == spec_util_collection(object@),
{
    let mut object = object;
    let t = match expect_type(&mut object) {
        Ok(t) => t,
        Err(e) => return Err(e),
    };
    if str_is(t.as_str(), "FeatureCollection") {
        let bbox = match get_bbox(&mut object) {
            Ok(b) => b,
            Err(e) => return Err(e),
        };
        let features = match get_features(&mut object) {
            Ok(f) => f,
            Err(e) => return Err(e),
        };
        let foreign_members = match get_foreign_members(object) {
            Ok(f) => f,
            Err(e) => return Err(e),
        };
        Ok(FeatureCollection { bbox, features, foreign_members })
    } else {
        Err(Error::GeometryUnknownType(t))
    }
}

/// The members of a JSON document that must be an object.
pub fn get_object(value: JsonValue) -> (r: Result<JsonObject, Error>)
    ensures
        err_or(r, |o: JsonObject| o@) == match value@ {
            JsonView::Object(m) => Ok(m),
            x => Err(ErrorView::ExpectedObjectValue(x)),
        },
{
    match value {
        JsonValue::Object(object) => Ok(object),
        _ => Err(Error::ExpectedObjectValue(value)),
    }
}

impl Object {
    /// A GeometryCollection of the given geometries.
    pub fn from_geometries(geometries: Vec<Geometry>) -> (r: Object)
        ensures
            r@ == GeoJsonView::Geometry(
                GeometryView {
                    bbox: None,
                    value: ValueView::GeometryCollection(geometries_view(geometries@)),
                    foreign_members: None,
                },
            ),
    {
        Object::Geometry(Geometry::new(GeometryValue::new_geometry_collection(geometries)))
    }

    /// Reads a JSON object, member by member, as the GeoJSON object its
    /// `"type"` names.
    pub fn from_json_object(object: JsonObject) -> (r: Result<Object, Error>)
        ensures
            err_or(r, |o: Object| o@) == spec_object(object@),
    {
        let type_ = match object.get("type") {
            Some(JsonValue::String(t)) => Type::from_str(t.as_str()),
            _ => return Err(Error::GeometryUnknownType("type".to_string())),
        };
        let type_ = match type_ {
            Some(t) => t,
            None => return Err(Error::EmptyType),
        };
        match type_ {
            Type::Feature => match Feature::from_json_object(object) {
                Ok(f) => Ok(Object::Feature(f)),
                Err(e) => Err(e),
            },
            Type::FeatureCollection => match collection_from_object(object) {
                Ok(c) => Ok(Object::FeatureCollection(c)),
                Err(e) => Err(e),
            },
            _ => match Geometry::from_json_object(object) {
                Ok(g) => Ok(Object::Geometry(g)),
                Err(e) => Err(e),
            },
        }
    }

    /// Reads a JSON value that must be an object.
    pub fn from_json_value(value: JsonValue) -> (r: Result<Object, Error>)
        ensures
            err_or(r, |o: Object| o@) == match value@ {
                JsonView::Object(m) => spec_object(m),
                x => Err(ErrorView::ExpectedObject(x)),
            },
    {
        match value {
            JsonValue::Object(obj) => Object::from_json_object(obj),
            _ => Err(Error::ExpectedObject(value)),
        }
    }

    /// This object as a JSON value.
    pub fn to_json_value(self) -> (r: JsonValue)
        ensures
            r@ == crate::encode::encode_geojson(self@),
    {
        match self {
            Object::Geometry(g) => JsonValue::Object(g.to_json_object()),
            Object::Feature(f) => JsonValue::Object(f.to_json_object()),
            Object::FeatureCollection(c) => JsonValue::Object(c.to_json_object()),
        }
    }

    /// The geometry that this object is; any other kind is an `ExpectedType` error.
    pub fn into_geometry(self) -> (r: Result<Geometry, Error>)
        ensures
            match self@ {
                GeoJsonView::Geometry(g) => r matches Ok(x) && x@ == g,
                _ => r matches Err(Error::ExpectedType { expected, actual }) && expected
                    == ObjectKind::Geometry && actual == kind_of(self@),
            },
    {
        match self {
            Object::Geometry(g) => Ok(g),
            Object::Feature(_) => Err(
                Error::ExpectedType { expected: ObjectKind::Geometry, actual: ObjectKind::Feature },
            ),
            Object::FeatureCollection(_) => Err(
                Error::ExpectedType {
                    expected: ObjectKind::Geometry,
                    actual: ObjectKind::FeatureCollection,
                },
            ),
        }
    }
}

} // verus!
