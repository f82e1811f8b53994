//! Reading Feature, FeatureCollection and top-level GeoJSON objects out of
//! JSON values.
//!
//! A Feature read on its own does not look at its `"type"` member; a
//! FeatureCollection read on its own needs `"type": "FeatureCollection"`.
//! A top-level GeoJSON object is told apart by its `"type"` member, and
//! every member that any kind of GeoJSON object defines is read (and must
//! be well formed) whatever the kind; the members that the kind does not
//! use are then dropped.
use crate::coordinates::{Coordinates, CoordinatesView};
use crate::decode::{
    err_view,
    bbox_result_view, geometries_result_view, geometry_result_view, geometry_value_from,
    feature_collection_keys, feature_keys, geojson_keys, lemma_key_names_distinct, malformed, normalize, pop_slot, foreign_from, opt_coordinates_view, opt_geometries_view,
    present, read_bbox, read_opt_coordinates, spec_bbox, spec_decode_geometries,
    spec_decode_geometry, spec_geometry_value, spec_opt_coordinates, value_result_view,
};
use crate::errors::{DecodeError, Error, ErrorView};
use crate::feature::{opt_geometry_view, opt_id_view, Feature, FeatureView, Id, IdView};
use crate::feature_collection::{features_view, FeatureCollection, FeatureCollectionView};
use crate::geojson::{GeoJson, GeoJsonView};
use crate::geometry::{
    opt_bbox_view, opt_object_view, str_is, type_from_name, Bbox, Geometry, GeometryType,
    GeometryView,
};
use crate::json::{
    entries_view, key_texts, lemma_entries_view, lemma_key_texts, lemma_values_view, lookup,
    opt_value_view, other_members, split_members, values_view, JsonObject, JsonValue, JsonView,
    Members,
};
use vstd::prelude::*;

verus! {

/// The `"type"` names of a top-level GeoJSON object.
#[derive(Clone, Copy, Debug, PartialEq, Eq)]
pub enum GeoJsonType {
    Feature,
    FeatureCollection,
    Point,
    LineString,
    Polygon,
    MultiPoint,
    MultiLineString,
    MultiPolygon,
    GeometryCollection,
}

/// The geometry kind a GeoJSON type names, if it names one.
pub open spec fn geometry_kind(t: GeoJsonType) -> Option<GeometryType> {
    match t {
        GeoJsonType::Point => Some(GeometryType::Point),
        GeoJsonType::LineString => Some(GeometryType::LineString),
        GeoJsonType::Polygon => Some(GeometryType::Polygon),
        GeoJsonType::MultiPoint => Some(GeometryType::MultiPoint),
        GeoJsonType::MultiLineString => Some(GeometryType::MultiLineString),
        GeoJsonType::MultiPolygon => Some(GeometryType::MultiPolygon),
        GeoJsonType::GeometryCollection => Some(GeometryType::GeometryCollection),
        GeoJsonType::Feature | GeoJsonType::FeatureCollection => None,
    }
}

/// The GeoJSON type that a `"type"` text denotes.
pub open spec fn geojson_type_from_name(s: Seq<char>) -> Option<GeoJsonType> {
    if s == "Feature"@ {
        Some(GeoJsonType::Feature)
    } else if s == "FeatureCollection"@ {
        Some(GeoJsonType::FeatureCollection)
    } else {
        match type_from_name(s) {
            Some(GeometryType::Point) => Some(GeoJsonType::Point),
            Some(GeometryType::LineString) => Some(GeoJsonType::LineString),
            Some(GeometryType::Polygon) => Some(GeoJsonType::Polygon),
            Some(GeometryType::MultiPoint) => Some(GeoJsonType::MultiPoint),
            Some(GeometryType::MultiLineString) => Some(GeoJsonType::MultiLineString),
            Some(GeometryType::MultiPolygon) => Some(GeoJsonType::MultiPolygon),
            Some(GeometryType::GeometryCollection) => Some(GeoJsonType::GeometryCollection),
            None => None,
        }
    }
}

impl GeoJsonType {
    /// Converts to a geometry kind if this names one.
    pub fn as_geometry_type(&self) -> (r: Option<GeometryType>)
        ensures
            r == geometry_kind(*self),
    {
        match self {
            GeoJsonType::Point => Some(GeometryType::Point),
            GeoJsonType::LineString => Some(GeometryType::LineString),
            GeoJsonType::Polygon => Some(GeometryType::Polygon),
            GeoJsonType::MultiPoint => Some(GeometryType::MultiPoint),
            GeoJsonType::MultiLineString => Some(GeometryType::MultiLineString),
            GeoJsonType::MultiPolygon => Some(GeometryType::MultiPolygon),
            GeoJsonType::GeometryCollection => Some(GeometryType::GeometryCollection),
            GeoJsonType::Feature | GeoJsonType::FeatureCollection => None,
        }
    }

    /// The GeoJSON type that `name` denotes, if any.
    pub fn from_name(name: &str) -> (r: Option<GeoJsonType>)
        ensures
            r == geojson_type_from_name(name@),
    {
        if str_is(name, "Feature") {
            Some(GeoJsonType::Feature)
        } else if str_is(name, "FeatureCollection") {
            Some(GeoJsonType::FeatureCollection)
        } else {
            match GeometryType::from_name(name) {
                Some(GeometryType::Point) => Some(GeoJsonType::Point),
                Some(GeometryType::LineString) => Some(GeoJsonType::LineString),
                Some(GeometryType::Polygon) => Some(GeoJsonType::Polygon),
                Some(GeometryType::MultiPoint) => Some(GeoJsonType::MultiPoint),
                Some(GeometryType::MultiLineString) => Some(GeoJsonType::MultiLineString),
                Some(GeometryType::MultiPolygon) => Some(GeoJsonType::MultiPolygon),
                Some(GeometryType::GeometryCollection) => Some(GeoJsonType::GeometryCollection),
                None => None,
            }
        }
    }
}

/// A Feature's `"id"` member: absent or null, a string, or a number.
pub open spec fn spec_id(o: Option<JsonView>) -> Result<Option<IdView>, ErrorView> {
    if !present(o) {
        Ok(None)
    } else {
        match o->0 {
            JsonView::String(s) => Ok(Some(IdView::String(s))),
            JsonView::Number(n) => Ok(Some(IdView::Number(n))),
            _ => malformed(DecodeError::InvalidId),
        }
    }
}

/// A Feature's `"properties"` member: absent or null, or an object.
pub open spec fn spec_properties(o: Option<JsonView>) -> Result<Option<Members>, ErrorView> {
    if !present(o) {
        Ok(None)
    } else {
        match o->0 {
            JsonView::Object(m) => Ok(Some(m)),
            _ => malformed(DecodeError::InvalidProperties),
        }
    }
}

/// A Feature's `"geometry"` member: absent or null, or a Geometry object.
#[verifier::opaque]
pub open spec fn spec_opt_geometry(o: Option<JsonView>) -> Result<Option<GeometryView>, ErrorView> {
    if !present(o) {
        Ok(None)
    } else {
        match spec_decode_geometry(o->0) {
            Ok(g) => Ok(Some(g)),
            Err(e) => Err(e),
        }
    }
}

/// A `"geometries"` member: absent or null, or an array of Geometry objects.
pub open spec fn spec_opt_geometries(o: Option<JsonView>) -> Result<
    Option<Seq<GeometryView>>,
    ErrorView,
> {
    if !present(o) {
        Ok(None)
    } else {
        match o->0 {
            JsonView::Array(a) => match spec_decode_geometries(a) {
                Ok(gs) => Ok(Some(gs)),
                Err(e) => Err(e),
            },
            _ => malformed(DecodeError::InvalidGeometries),
        }
    }
}

/// What a JSON value reads as when a Feature object is expected.
pub open spec fn spec_decode_feature(v: JsonView) -> Result<FeatureView, ErrorView> {
    match v {
        JsonView::Object(m) => match spec_bbox(lookup(m, "bbox"@)) {
            Err(e) => Err(e),
            Ok(bbox) => match spec_opt_geometry(lookup(m, "geometry"@)) {
                Err(e) => Err(e),
                Ok(geometry) => match spec_id(lookup(m, "id"@)) {
                    Err(e) => Err(e),
                    Ok(id) => match spec_properties(lookup(m, "properties"@)) {
                        Err(e) => Err(e),
                        Ok(properties) => Ok(
                            FeatureView {
                                bbox,
                                geometry,
                                id,
                                properties,
                                foreign_members: normalize(other_members(m, feature_keys())),
                            },
                        ),
                    },
                },
            },
        },
        _ => malformed(DecodeError::ExpectedFeatureObject),
    }
}

/// What the elements of a `"features"` array read as: each a feature, or
/// the first error.
pub open spec fn spec_decode_features(a: Seq<JsonView>) -> Result<Seq<FeatureView>, ErrorView>
    decreases a.len(),
{
    if a.len() == 0 {
        Ok(Seq::empty())
    } else {
        match spec_decode_feature(a[0]) {
            Err(e) => Err(e),
            Ok(f) => match spec_decode_features(a.subrange(1, a.len() as int)) {
                Err(e) => Err(e),
                Ok(fs) => Ok(seq![f] + fs),
            },
        }
    }
}

/// A `"features"` member where the collection needs one.
pub open spec fn spec_features(o: Option<JsonView>) -> Result<Seq<FeatureView>, ErrorView> {
    match o {
        None => malformed(DecodeError::MissingFeatures),
        Some(JsonView::Array(a)) => spec_decode_features(a),
        Some(_) => malformed(DecodeError::InvalidFeatures),
    }
}

/// A `"features"` member where it may be left out: absent or null, or an
/// array of Feature objects.
pub open spec fn spec_opt_features(o: Option<JsonView>) -> Result<Option<Seq<FeatureView>>, ErrorView> {
    if !present(o) {
        Ok(None)
    } else {
        match o->0 {
            JsonView::Array(a) => match spec_decode_features(a) {
                Ok(fs) => Ok(Some(fs)),
                Err(e) => Err(e),
            },
            _ => malformed(DecodeError::InvalidFeatures),
        }
    }
}

/// The `"type"` member of a FeatureCollection object.
pub open spec fn spec_collection_type(o: Option<JsonView>) -> Result<(), ErrorView> {
    match o {
        None => malformed(DecodeError::MissingType),
        Some(JsonView::String(s)) => if s == "FeatureCollection"@ {
            Ok(())
        } else {
            malformed(DecodeError::UnknownType)
        },
        Some(_) => malformed(DecodeError::UnknownType),
    }
}

/// What a JSON value reads as when a FeatureCollection object is expected.
pub open spec fn spec_decode_feature_collection(v: JsonView) -> Result<FeatureCollectionView, ErrorView> {
    match v {
        JsonView::Object(m) => match spec_collection_type(lookup(m, "type"@)) {
            Err(e) => Err(e),
            Ok(_) => match spec_bbox(lookup(m, "bbox"@)) {
                Err(e) => Err(e),
                Ok(bbox) => match spec_features(lookup(m, "features"@)) {
                    Err(e) => Err(e),
                    Ok(features) => Ok(
                        FeatureCollectionView {
                            bbox,
                            features,
                            foreign_members: normalize(other_members(m, feature_collection_keys())),
                        },
                    ),
                },
            },
        },
        _ => malformed(DecodeError::ExpectedFeatureCollectionObject),
    }
}

/// The `"type"` member of a top-level GeoJSON object.
pub open spec fn spec_geojson_type(o: Option<JsonView>) -> Result<GeoJsonType, ErrorView> {
    match o {
        None => malformed(DecodeError::MissingType),
        Some(JsonView::String(s)) => match geojson_type_from_name(s) {
            Some(t) => Ok(t),
            None => malformed(DecodeError::UnknownType),
        },
        Some(_) => malformed(DecodeError::UnknownType),
    }
}

/// The object that a GeoJSON type makes of the members read.
pub open spec fn spec_assemble(
    t: GeoJsonType,
    bbox: Option<Seq<crate::json::JsonNumber>>,
    coords: Option<CoordinatesView>,
    geoms: Option<Seq<GeometryView>>,
    features: Option<Seq<FeatureView>>,
    id: Option<IdView>,
    geometry: Option<GeometryView>,
    properties: Option<Members>,
    foreign_members: Option<Members>,
) -> Result<GeoJsonView, ErrorView> {
    match geometry_kind(t) {
        Some(gt) => match spec_geometry_value(gt, coords, geoms) {
            Err(e) => Err(e),
            Ok(value) => Ok(GeoJsonView::Geometry(GeometryView { bbox, value, foreign_members })),
        },
        None => if t == GeoJsonType::Feature {
            Ok(GeoJsonView::Feature(FeatureView { bbox, geometry, id, properties, foreign_members }))
        } else {
            match features {
                None => malformed(DecodeError::MissingFeatures),
                Some(fs) => Ok(
                    GeoJsonView::FeatureCollection(
                        FeatureCollectionView { bbox, features: fs, foreign_members },
                    ),
                ),
            }
        },
    }
}

/// What a JSON value reads as when any GeoJSON object is expected.
pub open spec fn spec_decode_geojson(v: JsonView) -> Result<GeoJsonView, ErrorView> {
    match v {
        JsonView::Object(m) => match spec_geojson_type(lookup(m, "type"@)) {
            Err(e) => Err(e),
            Ok(t) => match spec_bbox(lookup(m, "bbox"@)) {
                Err(e) => Err(e),
                Ok(bbox) => match spec_opt_coordinates(lookup(m, "coordinates"@)) {
                    Err(e) => Err(e),
                    Ok(coords) => match spec_opt_geometries(lookup(m, "geometries"@)) {
                        Err(e) => Err(e),
                        Ok(geoms) => match spec_opt_features(lookup(m, "features"@)) {
                            Err(e) => Err(e),
                            Ok(features) => match spec_id(lookup(m, "id"@)) {
                                Err(e) => Err(e),
                                Ok(id) => match spec_opt_geometry(lookup(m, "geometry"@)) {
                                    Err(e) => Err(e),
                                    Ok(geometry) => match spec_properties(
                                        lookup(m, "properties"@),
                                    ) {
                                        Err(e) => Err(e),
                                        Ok(properties) => spec_assemble(
                                            t,
                                            bbox,
                                            coords,
                                            geoms,
                                            features,
                                            id,
                                            geometry,
                                            properties,
                                            normalize(other_members(m, geojson_keys())),
                                        ),
                                    },
                                },
                            },
                        },
                    },
                },
            },
        },
        _ => malformed(DecodeError::ExpectedGeoJsonObject),
    }
}

pub open spec fn feature_result_view(r: Result<Feature, Error>) -> Result<FeatureView, ErrorView> {
    match r {
        Ok(f) => Ok(f@),
        Err(e) => Err(e@),
    }
}

pub open spec fn features_result_view(r: Result<Vec<Feature>, Error>) -> Result<
    Seq<FeatureView>,
    ErrorView,
> {
    match r {
        Ok(fs) => Ok(features_view(fs@)),
        Err(e) => Err(e@),
    }
}

pub open spec fn collection_result_view(r: Result<FeatureCollection, Error>) -> Result<
    FeatureCollectionView,
    ErrorView,
> {
    match r {
        Ok(c) => Ok(c@),
        Err(e) => Err(e@),
    }
}

pub open spec fn geojson_result_view(r: Result<GeoJson, Error>) -> Result<GeoJsonView, ErrorView> {
    match r {
        Ok(g) => Ok(g@),
        Err(e) => Err(e@),
    }
}

pub open spec fn id_result_view(r: Result<Option<Id>, Error>) -> Result<Option<IdView>, ErrorView> {
    match r {
        Ok(i) => Ok(opt_id_view(i)),
        Err(e) => Err(e@),
    }
}

pub open spec fn properties_result_view(r: Result<Option<JsonObject>, Error>) -> Result<
    Option<Members>,
    ErrorView,
> {
    match r {
        Ok(p) => Ok(opt_object_view(p)),
        Err(e) => Err(e@),
    }
}

pub open spec fn opt_geometry_result_view(r: Result<Option<Geometry>, Error>) -> Result<
    Option<GeometryView>,
    ErrorView,
> {
    match r {
        Ok(g) => Ok(opt_geometry_view(g)),
        Err(e) => Err(e@),
    }
}

pub open spec fn opt_geometries_result_view(r: Result<Option<Vec<Geometry>>, Error>) -> Result<
    Option<Seq<GeometryView>>,
    ErrorView,
> {
    match r {
        Ok(g) => Ok(opt_geometries_view(g)),
        Err(e) => Err(e@),
    }
}

pub open spec fn opt_features_view(o: Option<Vec<Feature>>) -> Option<Seq<FeatureView>> {
    match o {
        Some(fs) => Some(features_view(fs@)),
        None => None,
    }
}

pub open spec fn opt_features_result_view(r: Result<Option<Vec<Feature>>, Error>) -> Result<
    Option<Seq<FeatureView>>,
    ErrorView,
> {
    match r {
        Ok(f) => Ok(opt_features_view(f)),
        Err(e) => Err(e@),
    }
}

fn feature_key_names() -> (r: Vec<&'static str>)
    ensures
        key_texts(r@) == feature_keys(),
        feature_keys().no_duplicates(),
{
    proof {
        reveal_strlit("type");
        reveal_strlit("bbox");
        reveal_strlit("geometry");
        reveal_strlit("id");
        reveal_strlit("properties");
    }
    let r = vec!["type", "bbox", "geometry", "id", "properties"];
    proof {
        assert(key_texts(r@) =~= feature_keys());
        lemma_key_names_distinct(feature_keys());
    }
    r
}

fn feature_collection_key_names() -> (r: Vec<&'static str>)
    ensures
        key_texts(r@) == feature_collection_keys(),
        feature_collection_keys().no_duplicates(),
{
    proof {
        reveal_strlit("type");
        reveal_strlit("bbox");
        reveal_strlit("features");
    }
    let r = vec!["type", "bbox", "features"];
    proof {
        assert(key_texts(r@) =~= feature_collection_keys());
        lemma_key_names_distinct(feature_collection_keys());
    }
    r
}

fn geojson_key_names() -> (r: Vec<&'static str>)
    ensures
        key_texts(r@) == geojson_keys(),
        geojson_keys().no_duplicates(),
{
    proof {
        reveal_strlit("type");
        reveal_strlit("bbox");
        reveal_strlit("coordinates");
        reveal_strlit("geometries");
        reveal_strlit("features");
        reveal_strlit("id");
        reveal_strlit("geometry");
        reveal_strlit("properties");
    }
    let r = vec![
        "type",
        "bbox",
        "coordinates",
        "geometries",
        "features",
        "id",
        "geometry",
        "properties",
    ];
    proof {
        assert(key_texts(r@) =~= geojson_keys());
        lemma_key_names_distinct(geojson_keys());
    }
    r
}

/// Reads a Feature's `"id"` member.
pub fn read_id(o: Option<JsonValue>) -> (r: Result<Option<Id>, Error>)
    ensures
        id_result_view(r) == spec_id(opt_value_view(o)),
{
    match o {
        None => Ok(None),
        Some(JsonValue::Null) => Ok(None),
        Some(JsonValue::String(s)) => Ok(Some(Id::String(s))),
        Some(JsonValue::Number(n)) => Ok(Some(Id::Number(n))),
        Some(_) => Err(Error::MalformedJson(DecodeError::InvalidId)),
    }
}

/// Reads a Feature's `"properties"` member.
pub fn read_properties(o: Option<JsonValue>) -> (r: Result<Option<JsonObject>, Error>)
    ensures
        properties_result_view(r) == spec_properties(opt_value_view(o)),
{
    match o {
        None => Ok(None),
        Some(JsonValue::Null) => Ok(None),
        Some(JsonValue::Object(m)) => Ok(Some(m)),
        Some(_) => Err(Error::MalformedJson(DecodeError::InvalidProperties)),
    }
}

/// Reads a Feature's `"geometry"` member.
pub fn read_opt_geometry(o: Option<JsonValue>) -> (r: Result<Option<Geometry>, Error>)
    ensures
        opt_geometry_result_view(r) == spec_opt_geometry(opt_value_view(o)),
{
    proof {
        reveal(spec_opt_geometry);
    }
    match o {
        None => Ok(None),
        Some(JsonValue::Null) => Ok(None),
        Some(v) => match Geometry::decode(v) {
            Ok(g) => Ok(Some(g)),
            Err(e) => Err(e),
        },
    }
}

/// Reads a `"geometries"` member.
pub fn read_opt_geometries(o: Option<JsonValue>) -> (r: Result<Option<Vec<Geometry>>, Error>)
    ensures
        opt_geometries_result_view(r) == spec_opt_geometries(opt_value_view(o)),
{
    match o {
        None => Ok(None),
        Some(JsonValue::Null) => Ok(None),
        Some(JsonValue::Array(a)) => match Geometry::decode_all(a) {
            Ok(gs) => Ok(Some(gs)),
            Err(e) => Err(e),
        },
        Some(_) => Err(Error::MalformedJson(DecodeError::InvalidGeometries)),
    }
}

impl Feature {
    /// Reads a Feature object: its `"bbox"`, `"geometry"`, `"id"` and
    /// `"properties"` members, the members other than these and `"type"` as
    /// foreign members.
    pub fn decode(v: JsonValue) -> (r: Result<Feature, Error>)
        ensures
            feature_result_view(r) == spec_decode_feature(v@),
    {
        match v {
            JsonValue::Object(obj) => {
                let ghost m = obj@;
                let keys = feature_key_names();
                let (mut slots, rest) = split_members(obj.entries, keys.as_slice());
                proof {
                    lemma_key_texts(keys@);
                    assert(key_texts(keys@)[1] == feature_keys()[1]);
                    assert(key_texts(keys@)[2] == feature_keys()[2]);
                    assert(key_texts(keys@)[3] == feature_keys()[3]);
                    assert(key_texts(keys@)[4] == feature_keys()[4]);
                }
                let ghost all = slots@;
                let properties_slot = pop_slot(&mut slots);
                let id_slot = pop_slot(&mut slots);
                let geometry_slot = pop_slot(&mut slots);
                let bbox_slot = pop_slot(&mut slots);
                proof {
                    assert(properties_slot == all[4]);
                    assert(id_slot == all[3]);
                    assert(geometry_slot == all[2]);
                    assert(bbox_slot == all[1]);
                }
                let bbox = match read_bbox(bbox_slot) {
                    Ok(b) => b,
                    Err(e) => return Err(e),
                };
                let geometry = match read_opt_geometry(geometry_slot) {
                    Ok(g) => g,
                    Err(e) => return Err(e),
                };
                let id = match read_id(id_slot) {
                    Ok(i) => i,
                    Err(e) => return Err(e),
                };
                let properties = match read_properties(properties_slot) {
                    Ok(p) => p,
                    Err(e) => return Err(e),
                };
                let foreign_members = foreign_from(rest);
                Ok(Feature { bbox, geometry, id, properties, foreign_members })
            },
            _ => Err(Error::MalformedJson(DecodeError::ExpectedFeatureObject)),
        }
    }

    /// Reads the elements of a `"features"` array, stopping at the first error.
    pub fn decode_all(a: Vec<JsonValue>) -> (r: Result<Vec<Feature>, Error>)
        ensures
            features_result_view(r) == spec_decode_features(values_view(a@)),
    {
        let ghost s = values_view(a@);
        let ghost sa = a@;
        proof {
            lemma_values_view(a@);
            assert(s.skip(0) =~= s);
            assert(features_view(Seq::<Feature>::empty()) =~= Seq::<FeatureView>::empty());
        }
        let mut out: Vec<Feature> = Vec::new();
        for x in it: a.into_iter()
            invariant
                it.seq() == sa,
                s == values_view(sa),
                s.len() == sa.len(),
                forall|j: int| 0 <= j < sa.len() ==> #[trigger] s[j] == sa[j]@,
                spec_decode_features(s) == match spec_decode_features(s.skip(it.index() as int)) {
                    Ok(fs) => Ok(features_view(out@) + fs),
                    Err(e) => Err(e),
                },
        {
            let ghost i = it.index() as int;
            proof {
                assert(x@ == s[i]);
                assert(s.skip(i)[0] == s[i]);
                assert(s.skip(i).subrange(1, s.skip(i).len() as int) =~= s.skip(i + 1));
            }
            match Feature::decode(x) {
                Ok(f) => {
                    proof {
                        assert(features_view(out@.push(f)) =~= features_view(out@).push(f@));
                        assert(features_view(out@.push(f)) + spec_decode_features(s.skip(i + 1))->Ok_0
                            =~= features_view(out@) + (seq![f@] + spec_decode_features(s.skip(i + 1))->Ok_0));
                    }
                    out.push(f);
                },
                Err(e) => {
                    return Err(e);
                },
            }
        }
        proof {
            assert(s.skip(s.len() as int) =~= Seq::<JsonView>::empty());
            assert(features_view(out@) + Seq::<FeatureView>::empty() =~= features_view(out@));
        }
        Ok(out)
    }
}

/// Reads the `"features"` member of a FeatureCollection object.
pub fn read_features(o: Option<JsonValue>) -> (r: Result<Vec<Feature>, Error>)
    ensures
        features_result_view(r) == spec_features(opt_value_view(o)),
{
    match o {
        None => Err(Error::MalformedJson(DecodeError::MissingFeatures)),
        Some(JsonValue::Array(a)) => Feature::decode_all(a),
        Some(_) => Err(Error::MalformedJson(DecodeError::InvalidFeatures)),
    }
}

/// Reads a `"features"` member that may be left out.
pub fn read_opt_features(o: Option<JsonValue>) -> (r: Result<Option<Vec<Feature>>, Error>)
    ensures
        opt_features_result_view(r) == spec_opt_features(opt_value_view(o)),
{
    match o {
        None => Ok(None),
        Some(JsonValue::Null) => Ok(None),
        Some(JsonValue::Array(a)) => match Feature::decode_all(a) {
            Ok(fs) => Ok(Some(fs)),
            Err(e) => Err(e),
        },
        Some(_) => Err(Error::MalformedJson(DecodeError::InvalidFeatures)),
    }
}

/// Checks the `"type"` member of a FeatureCollection object.
pub fn read_collection_type(o: Option<JsonValue>) -> (r: Result<(), Error>)
    ensures
        err_view(r) == spec_collection_type(opt_value_view(o)),
{
    match o {
        None => Err(Error::MalformedJson(DecodeError::MissingType)),
        Some(JsonValue::String(s)) => {
            if str_is(s.as_str(), "FeatureCollection") {
                Ok(())
            } else {
                Err(Error::MalformedJson(DecodeError::UnknownType))
            }
        },
        Some(_) => Err(Error::MalformedJson(DecodeError::UnknownType)),
    }
}

impl FeatureCollection {
    /// Reads a FeatureCollection object: `"type"` must be
    /// `"FeatureCollection"`, `"features"` an array of Feature objects; the
    /// members other than these and `"bbox"` are foreign members.
    pub fn decode(v: JsonValue) -> (r: Result<FeatureCollection, Error>)
        ensures
            collection_result_view(r) == spec_decode_feature_collection(v@),
    {
        match v {
            JsonValue::Object(obj) => {
                let ghost m = obj@;
                let keys = feature_collection_key_names();
                let (mut slots, rest) = split_members(obj.entries, keys.as_slice());
                proof {
                    lemma_key_texts(keys@);
                    assert(key_texts(keys@)[0] == feature_collection_keys()[0]);
                    assert(key_texts(keys@)[1] == feature_collection_keys()[1]);
                    assert(key_texts(keys@)[2] == feature_collection_keys()[2]);
                }
                let ghost all = slots@;
                let features_slot = pop_slot(&mut slots);
                let bbox_slot = pop_slot(&mut slots);
                let type_slot = pop_slot(&mut slots);
                proof {
                    assert(features_slot == all[2]);
                    assert(bbox_slot == all[1]);
                    assert(type_slot == all[0]);
                }
                match read_collection_type(type_slot) {
                    Ok(_) => {},
                    Err(e) => return Err(e),
                }
                let bbox = match read_bbox(bbox_slot) {
                    Ok(b) => b,
                    Err(e) => return Err(e),
                };
                let features = match read_features(features_slot) {
                    Ok(f) => f,
                    Err(e) => return Err(e),
                };
                let foreign_members = foreign_from(rest);
                Ok(FeatureCollection { bbox, features, foreign_members })
            },
            _ => Err(Error::MalformedJson(DecodeError::ExpectedFeatureCollectionObject)),
        }
    }
}

/// Reads the `"type"` member of a top-level GeoJSON object.
pub fn read_geojson_type(o: Option<JsonValue>) -> (r: Result<GeoJsonType, Error>)
    ensures
        err_view(r) == spec_geojson_type(opt_value_view(o)),
{
    match o {
        None => Err(Error::MalformedJson(DecodeError::MissingType)),
        Some(JsonValue::String(s)) => match GeoJsonType::from_name(s.as_str()) {
            Some(t) => Ok(t),
            None => Err(Error::MalformedJson(DecodeError::UnknownType)),
        },
        Some(_) => Err(Error::MalformedJson(DecodeError::UnknownType)),
    }
}

/// Builds the object of type `t` from the members read.
pub fn assemble(
    t: GeoJsonType,
    bbox: Option<Bbox>,
    coords: Option<Coordinates>,
    geoms: Option<Vec<Geometry>>,
    features: Option<Vec<Feature>>,
    id: Option<Id>,
    geometry: Option<Geometry>,
    properties: Option<JsonObject>,
    foreign_members: Option<JsonObject>,
) -> (r: Result<GeoJson, Error>)
    ensures
        geojson_result_view(r) == spec_assemble(
            t,
            opt_bbox_view(bbox),
            opt_coordinates_view(coords),
            opt_geometries_view(geoms),
            opt_features_view(features),
            opt_id_view(id),
            opt_geometry_view(geometry),
            opt_object_view(properties),
            opt_object_view(foreign_members),
        ),
{
    match t.as_geometry_type() {
        Some(gt) => match geometry_value_from(gt, coords, geoms) {
            Ok(value) => Ok(GeoJson::Geometry(Geometry { bbox, value, foreign_members })),
            Err(e) => Err(e),
        },
        None => {
            match t {
                GeoJsonType::Feature => Ok(
                    GeoJson::Feature(Feature { bbox, geometry, id, properties, foreign_members }),
                ),
                _ => match features {
                    None => Err(Error::MalformedJson(DecodeError::MissingFeatures)),
                    Some(fs) => Ok(
                        GeoJson::FeatureCollection(
                            FeatureCollection { bbox, features: fs, foreign_members },
                        ),
                    ),
                },
            }
        },
    }
}

impl GeoJson {
    /// Reads a GeoJSON object of any kind, told apart by its `"type"`.
    pub fn from_json_value(v: JsonValue) -> (r: Result<GeoJson, Error>)
        ensures
            geojson_result_view(r) == spec_decode_geojson(v@),
    {
        match v {
            JsonValue::Object(obj) => {
                let ghost m = obj@;
                let keys = geojson_key_names();
                let (mut slots, rest) = split_members(obj.entries, keys.as_slice());
                proof {
                    lemma_key_texts(keys@);
                    assert(key_texts(keys@)[0] == geojson_keys()[0]);
                    assert(key_texts(keys@)[1] == geojson_keys()[1]);
                    assert(key_texts(keys@)[2] == geojson_keys()[2]);
                    assert(key_texts(keys@)[3] == geojson_keys()[3]);
                    assert(key_texts(keys@)[4] == geojson_keys()[4]);
                    assert(key_texts(keys@)[5] == geojson_keys()[5]);
                    assert(key_texts(keys@)[6] == geojson_keys()[6]);
                    assert(key_texts(keys@)[7] == geojson_keys()[7]);
                }
                let ghost all = slots@;
                let properties_slot = pop_slot(&mut slots);
                let geometry_slot = pop_slot(&mut slots);
                let id_slot = pop_slot(&mut slots);
                let features_slot = pop_slot(&mut slots);
                let geometries_slot = pop_slot(&mut slots);
                let coordinates_slot = pop_slot(&mut slots);
                let bbox_slot = pop_slot(&mut slots);
                let type_slot = pop_slot(&mut slots);
                proof {
                    assert(properties_slot == all[7]);
                    assert(geometry_slot == all[6]);
                    assert(id_slot == all[5]);
                    assert(features_slot == all[4]);
                    assert(geometries_slot == all[3]);
                    assert(coordinates_slot == all[2]);
                    assert(bbox_slot == all[1]);
                    assert(type_slot == all[0]);
                }
                let t = match read_geojson_type(type_slot) {
                    Ok(t) => t,
                    Err(e) => return Err(e),
                };
                let bbox = match read_bbox(bbox_slot) {
                    Ok(b) => b,
                    Err(e) => return Err(e),
                };
                let coords = match read_opt_coordinates(coordinates_slot) {
                    Ok(c) => c,
                    Err(e) => return Err(e),
                };
                let geoms = match read_opt_geometries(geometries_slot) {
                    Ok(g) => g,
                    Err(e) => return Err(e),
                };
                let features = match read_opt_features(features_slot) {
                    Ok(f) => f,
                    Err(e) => return Err(e),
                };
                let id = match read_id(id_slot) {
                    Ok(i) => i,
                    Err(e) => return Err(e),
                };
                let geometry = match read_opt_geometry(geometry_slot) {
                    Ok(g) => g,
                    Err(e) => return Err(e),
                };
                let properties = match read_properties(properties_slot) {
                    Ok(p) => p,
                    Err(e) => return Err(e),
                };
                let foreign_members = foreign_from(rest);
                assemble(t, bbox, coords, geoms, features, id, geometry, properties, foreign_members)
            },
            _ => Err(Error::MalformedJson(DecodeError::ExpectedGeoJsonObject)),
        }
    }

    /// Reads a JSON object as a GeoJSON object of any kind.
    pub fn from_json_object(object: JsonObject) -> (r: Result<GeoJson, Error>)
        ensures
            geojson_result_view(r) == spec_decode_geojson(JsonView::Object(object@)),
    {
        GeoJson::from_json_value(JsonValue::Object(object))
    }
}

} // verus!
