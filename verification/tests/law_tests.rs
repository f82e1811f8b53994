use geojson::access::{Dimensions, GeometryCollectionType, LineStringType, MultiPointType, PointType, PolygonType};
use geojson::crs::Crs;
use geojson::decode_object::GeoJsonType;
use geojson::errors::{CrsFault, Error};
use geojson::feature::{Feature, Id};
use geojson::feature_collection::FeatureCollection;
use geojson::geojson::GeoJson;
use geojson::geometry::{Geometry, GeometryType, GeometryValue, Position};
use geojson::json::{JsonNumber, JsonObject, JsonValue};
use geojson::object::{get_object, Object, Type};

fn to_json(v: &serde_json::Value) -> JsonValue {
    match v {
        serde_json::Value::Null => JsonValue::Null,
        serde_json::Value::Bool(b) => JsonValue::Bool(*b),
        serde_json::Value::Number(n) => JsonValue::Number(if let Some(u) = n.as_u64() {
            JsonNumber::PosInt(u)
        } else if let Some(i) = n.as_i64() {
            JsonNumber::NegInt(i)
        } else {
            JsonNumber::Float(n.as_f64().unwrap().to_bits())
        }),
        serde_json::Value::String(s) => JsonValue::String(s.clone()),
        serde_json::Value::Array(a) => JsonValue::Array(a.iter().map(to_json).collect()),
        serde_json::Value::Object(m) => JsonValue::Object(JsonObject {
            entries: m.iter().map(|(k, v)| (k.clone(), to_json(v))).collect(),
        }),
    }
}

fn from_json(v: &JsonValue) -> serde_json::Value {
    match v {
        JsonValue::Null => serde_json::Value::Null,
        JsonValue::Bool(b) => serde_json::Value::Bool(*b),
        JsonValue::Number(JsonNumber::PosInt(u)) => serde_json::Value::from(*u),
        JsonValue::Number(JsonNumber::NegInt(i)) => serde_json::Value::from(*i),
        JsonValue::Number(JsonNumber::Float(b)) => serde_json::Number::from_f64(f64::from_bits(*b))
            .map(serde_json::Value::Number)
            .unwrap_or(serde_json::Value::Null),
        JsonValue::String(s) => serde_json::Value::String(s.clone()),
        JsonValue::Array(a) => serde_json::Value::Array(a.iter().map(from_json).collect()),
        JsonValue::Object(o) => {
            let mut m = serde_json::Map::new();
            for (k, v) in &o.entries {
                m.insert(k.clone(), from_json(v));
            }
            serde_json::Value::Object(m)
        }
    }
}

fn parse(s: &str) -> JsonValue {
    to_json(&serde_json::from_str(s).unwrap())
}

fn render(v: &JsonValue) -> String {
    serde_json::to_string(&from_json(v)).unwrap()
}

fn num(x: f64) -> JsonNumber {
    JsonNumber::Float(x.to_bits())
}

fn pos(xs: &[f64]) -> Position {
    Position(xs.iter().map(|x| num(*x)).collect())
}

fn string(s: &str) -> JsonValue {
    JsonValue::String(s.to_string())
}

fn object(members: &[(&str, JsonValue)]) -> JsonObject {
    let mut o = JsonObject::new();
    for (k, v) in members {
        o.insert(k.to_string(), v.deep_clone());
    }
    o
}

fn sample_geometries() -> Vec<Geometry> {
    let line = vec![pos(&[1.0, 2.0]), pos(&[3.0, 4.0])];
    let ring = vec![pos(&[0.0, 0.0]), pos(&[1.0, 0.0]), pos(&[1.0, 1.0]), pos(&[0.0, 0.0])];
    vec![
        Geometry::new(GeometryValue::new_point(pos(&[1.5, -2.25, 3.0]))),
        Geometry::new(GeometryValue::new_multi_point(line.clone())),
        Geometry::new(GeometryValue::new_line_string(line.clone())),
        Geometry::new(GeometryValue::new_multi_line_string(vec![line.clone(), line.clone()])),
        Geometry::new(GeometryValue::new_polygon(vec![ring.clone()])),
        Geometry::new(GeometryValue::new_multi_polygon(vec![vec![ring.clone()], vec![ring]])),
        Geometry::new(GeometryValue::new_geometry_collection(vec![
            Geometry::new(GeometryValue::new_point(pos(&[7.0, 8.0]))),
            Geometry::new(GeometryValue::new_line_string(line)),
        ])),
        Geometry {
            bbox: Some(vec![num(0.0), num(0.0), num(1.0), num(1.0)]),
            value: GeometryValue::new_point(pos(&[0.5, 0.5])),
            foreign_members: Some(object(&[("note", string("centre"))])),
        },
    ]
}

#[test]
fn geometries_read_back_what_was_written() {
    for g in sample_geometries() {
        let written = JsonValue::Object(g.serialize());
        assert_eq!(Geometry::decode(written.deep_clone()).unwrap(), g);
        let text = render(&written);
        assert_eq!(Geometry::from_json_value(parse(&text)).unwrap(), g);
    }
}

fn sample_feature(id: Option<Id>) -> Feature {
    Feature {
        bbox: Some(vec![num(1.0), num(2.0), num(3.0), num(4.0)]),
        geometry: Some(Geometry::new(GeometryValue::new_point(pos(&[1.0, 2.0])))),
        id,
        properties: Some(object(&[("name", string("a")), ("n", JsonValue::Number(JsonNumber::NegInt(-3)))])),
        foreign_members: Some(object(&[("extra", JsonValue::Bool(true))])),
    }
}

#[test]
fn features_read_back_what_was_written() {
    let features = vec![
        sample_feature(None),
        sample_feature(Some(Id::String("x".to_string()))),
        sample_feature(Some(Id::Number(JsonNumber::PosInt(7)))),
        Feature { bbox: None, geometry: None, id: None, properties: None, foreign_members: None },
    ];
    for f in features {
        let written = f.to_json_value();
        assert_eq!(Feature::decode(written.deep_clone()).unwrap(), f);
        assert_eq!(Feature::from_json_value(written).unwrap(), f);
    }
}

#[test]
fn collections_read_back_what_was_written() {
    let fc = FeatureCollection {
        bbox: None,
        features: vec![sample_feature(None), sample_feature(Some(Id::String("y".to_string())))],
        foreign_members: Some(object(&[("title", string("two"))])),
    };
    let written = GeoJson::FeatureCollection(fc).to_json_value();
    let again = GeoJson::from_json_value(written.deep_clone()).unwrap();
    assert_eq!(again.to_json_value(), written);
    match GeoJson::from_json_value(written).unwrap() {
        GeoJson::FeatureCollection(c) => {
            assert_eq!(c.features.len(), 2);
            assert_eq!(c.features[1].id, Some(Id::String("y".to_string())));
        }
        other => panic!("not a collection: {:?}", other),
    }
}

#[test]
fn crs_reads_back_what_was_written() {
    let all = vec![
        Crs::Named { name: "urn:ogc:def:crs:OGC:1.3:CRS84".to_string() },
        Crs::Linked { href: "http://example.com/crs/42".to_string(), type_: Some("proj4".to_string()) },
        Crs::Linked { href: "data.crs".to_string(), type_: None },
    ];
    for c in all {
        assert_eq!(Crs::from_object(&c.to_object()).unwrap(), c);
        match c.to_json() {
            JsonValue::Object(o) => assert_eq!(Crs::from_object(&o).unwrap(), c),
            other => panic!("not an object: {:?}", other),
        }
    }
}

#[test]
fn crs_named_text() {
    let c = Crs::Named { name: "urn:ogc:def:crs:OGC:1.3:CRS84".to_string() };
    assert_eq!(
        from_json(&c.to_json()),
        serde_json::from_str::<serde_json::Value>(
            r#"{"type": "name", "properties": {"name": "urn:ogc:def:crs:OGC:1.3:CRS84"}}"#
        )
        .unwrap()
    );
}

#[test]
fn crs_errors() {
    let fault = |s: &str| match parse(s) {
        JsonValue::Object(o) => match Crs::from_object(&o) {
            Err(Error::MalformedCrs(f)) => f,
            other => panic!("unexpected: {:?}", other),
        },
        _ => panic!("not an object"),
    };
    assert_eq!(fault(r#"{}"#), CrsFault::MissingType);
    assert_eq!(fault(r#"{"type": 1}"#), CrsFault::ExpectedString);
    assert_eq!(fault(r#"{"type": "name"}"#), CrsFault::MissingProperties);
    assert_eq!(fault(r#"{"type": "name", "properties": 1}"#), CrsFault::ExpectedObject);
    assert_eq!(fault(r#"{"type": "name", "properties": {}}"#), CrsFault::MissingName);
    assert_eq!(fault(r#"{"type": "link", "properties": {}}"#), CrsFault::MissingLink);
    assert_eq!(fault(r#"{"type": "link", "properties": {"href": "a", "type": 3}}"#), CrsFault::ExpectedString);
    assert_eq!(fault(r#"{"type": "other", "properties": {}}"#), CrsFault::UnknownType);
}

#[test]
fn object_insert_replaces_in_place() {
    let mut o = object(&[("a", string("1")), ("b", string("2")), ("c", string("3"))]);
    assert_eq!(o.insert("b".to_string(), string("x")), Some(string("2")));
    let keys: Vec<&str> = o.entries.iter().map(|(k, _)| k.as_str()).collect();
    assert_eq!(keys, vec!["a", "b", "c"]);
    assert_eq!(o.get("b"), Some(&string("x")));
    assert_eq!(o.insert("d".to_string(), string("4")), None);
    assert_eq!(o.len(), 4);
}

#[test]
fn object_remove_moves_last_into_place() {
    let mut o = object(&[("a", string("1")), ("b", string("2")), ("c", string("3"))]);
    assert_eq!(o.remove("a"), Some(string("1")));
    let keys: Vec<&str> = o.entries.iter().map(|(k, _)| k.as_str()).collect();
    assert_eq!(keys, vec!["c", "b"]);
    assert_eq!(o.remove("zzz"), None);
    assert!(!o.contains_key("a"));
    assert_eq!(o.len(), 2);
}

fn with_bbox(b: Option<Vec<f64>>) -> Feature {
    Feature {
        bbox: b.map(|b| b.into_iter().map(num).collect()),
        geometry: None,
        id: None,
        properties: None,
        foreign_members: None,
    }
}

#[test]
fn collected_bbox_dimension() {
    assert_eq!(FeatureCollection::bbox_dimension(&vec![]), Some(0));
    let four = vec![0.0, 0.0, 1.0, 1.0];
    assert_eq!(
        FeatureCollection::bbox_dimension(&vec![with_bbox(Some(four.clone())), with_bbox(Some(four.clone()))]),
        Some(4)
    );
    assert_eq!(FeatureCollection::bbox_dimension(&vec![with_bbox(Some(four.clone())), with_bbox(None)]), None);
    assert_eq!(FeatureCollection::bbox_dimension(&vec![with_bbox(Some(vec![1.0, 2.0, 3.0]))]), None);
    assert_eq!(FeatureCollection::bbox_dimension(&vec![with_bbox(Some(vec![]))]), None);
    assert_eq!(
        FeatureCollection::bbox_dimension(&vec![
            with_bbox(Some(four)),
            with_bbox(Some(vec![0.0, 0.0, 0.0, 1.0, 1.0, 1.0]))
        ]),
        None
    );
}

#[test]
fn dimensions_of_geometries() {
    assert_eq!(PointType(pos(&[1.0, 2.0])).dim(), Dimensions::Xy);
    assert_eq!(PointType(pos(&[1.0, 2.0, 3.0])).dim(), Dimensions::Xyz);
    assert_eq!(PointType(pos(&[1.0, 2.0, 3.0, 4.0])).dim(), Dimensions::Unknown(4));
    assert_eq!(PointType(pos(&[1.0, 2.0])).x(), num(1.0));
    assert_eq!(PointType(pos(&[1.0, 2.0])).y(), num(2.0));
    let line = LineStringType(vec![pos(&[1.0, 2.0, 3.0]), pos(&[4.0, 5.0])]);
    assert_eq!(line.num_coords(), 2);
    assert_eq!(line.dim(), Dimensions::Xyz);
    assert_eq!(line.coord(1), Some(&pos(&[4.0, 5.0])));
    let poly = PolygonType(vec![vec![pos(&[0.0, 0.0])], vec![pos(&[1.0, 1.0])]]);
    assert_eq!(poly.num_interiors(), 1);
    assert_eq!(poly.interior(0), Some(&vec![pos(&[1.0, 1.0])]));
    assert!(poly.interior(1).is_none());
    assert_eq!(MultiPointType(vec![pos(&[0.0, 0.0])]).num_points(), 1);
    let gc = GeometryCollectionType(vec![Geometry::new(GeometryValue::new_point(pos(&[1.0, 2.0])))]);
    assert_eq!(gc.num_geometries(), 1);
    assert_eq!(gc.dim(), Dimensions::Xy);
    let f = Feature::from_geometry(Geometry::new(GeometryValue::new_point(pos(&[1.0, 2.0, 3.0]))));
    assert_eq!(f.dim(), Dimensions::Xyz);
}

#[test]
fn geojson_type_names() {
    assert_eq!(GeoJsonType::from_name("Feature"), Some(GeoJsonType::Feature));
    assert_eq!(GeoJsonType::from_name("MultiPolygon"), Some(GeoJsonType::MultiPolygon));
    assert_eq!(GeoJsonType::from_name("Circle"), None);
    assert_eq!(GeoJsonType::Feature.as_geometry_type(), None);
    assert_eq!(GeoJsonType::FeatureCollection.as_geometry_type(), None);
    assert_eq!(GeoJsonType::LineString.as_geometry_type(), Some(GeometryType::LineString));
    assert_eq!(Type::from_str("GeometryCollection"), Some(Type::GeometryCollection));
    assert_eq!(Type::from_str("point"), None);
    assert!(matches!(get_object(JsonValue::Null), Err(Error::ExpectedObjectValue(JsonValue::Null))));
    assert_eq!(get_object(JsonValue::Object(JsonObject::new())).unwrap(), JsonObject::new());
}

#[test]
fn reading_a_feature_document() {
    let geojson_str = r#"
    {
      "type": "Feature",
      "properties": { "food": "donuts" },
      "geometry": {
        "type": "Point",
        "coordinates": [ -118.2836, 34.0956 ]
      }
    }
    "#;
    let geojson = GeoJson::from_json_value(parse(geojson_str)).unwrap();
    let feature = Feature::try_from_geojson(geojson).unwrap();
    assert_eq!(feature.property("food"), Some(&string("donuts")));
    match feature.geometry.unwrap().value {
        GeometryValue::Point { coordinates } => assert_eq!(coordinates, pos(&[-118.2836, 34.0956])),
        other => panic!("should be point: {:?}", other),
    }
}

#[test]
fn writing_a_feature_document() {
    let geometry = Geometry::new(GeometryValue::new_point(pos(&[-120.66029, 35.2812])));
    let mut properties = JsonObject::new();
    properties.insert(String::from("name"), string("Firestone Grill"));
    let geojson = GeoJson::Feature(Feature {
        bbox: None,
        geometry: Some(geometry),
        id: None,
        properties: Some(properties),
        foreign_members: None,
    });
    let text = render(&geojson.to_json_value());
    assert_eq!(
        serde_json::from_str::<serde_json::Value>(&text).unwrap(),
        serde_json::from_str::<serde_json::Value>(
            r#"{"type": "Feature", "geometry": {"type": "Point", "coordinates": [-120.66029, 35.2812]}, "properties": {"name": "Firestone Grill"}}"#
        )
        .unwrap()
    );
}

fn members_value(o: &Option<JsonObject>) -> Option<serde_json::Value> {
    o.as_ref().map(|m| from_json(&JsonValue::Object(m.deep_clone())))
}

fn three_foreign() -> Option<JsonObject> {
    Some(object(&[("a", string("1")), ("b", JsonValue::Bool(true)), ("c", JsonValue::Null)]))
}

#[test]
fn member_reader_reads_back_geometries() {
    for mut g in sample_geometries() {
        g.foreign_members = three_foreign();
        let back = Geometry::from_json_object(g.to_json_object()).unwrap();
        assert_eq!(back.bbox, g.bbox);
        assert_eq!(members_value(&back.foreign_members), members_value(&g.foreign_members));
        let back_value = GeometryValue::from_json_object(g.value.to_json_object()).unwrap();
        assert_eq!(back_value, g.value);
    }
    let g = Geometry::new(GeometryValue::new_point(pos(&[1.0, 2.0])));
    let foreign_keys_in_order = |o: &Option<JsonObject>| -> Vec<String> {
        o.as_ref().unwrap().entries.iter().map(|(k, _)| k.clone()).collect()
    };
    let mut with_two = g;
    with_two.foreign_members = Some(object(&[("a", string("1")), ("b", string("2"))]));
    let back = Geometry::from_json_object(with_two.to_json_object()).unwrap();
    // The reader takes "type" out first and the last member takes its place.
    assert_eq!(foreign_keys_in_order(&back.foreign_members), vec!["b".to_string(), "a".to_string()]);
}

#[test]
fn member_reader_reads_back_features_and_collections() {
    let mut f = sample_feature(Some(Id::String("x".to_string())));
    f.foreign_members = three_foreign();
    let back = Feature::from_json_object(f.to_json_object()).unwrap();
    assert_eq!(back.bbox, f.bbox);
    assert_eq!(back.id, f.id);
    assert_eq!(back.properties, f.properties);
    assert_eq!(back.geometry, f.geometry);
    assert_eq!(members_value(&back.foreign_members), members_value(&f.foreign_members));
    let c = FeatureCollection {
        bbox: Some(vec![num(0.0), num(0.0), num(1.0), num(1.0)]),
        features: vec![sample_feature(None)],
        foreign_members: three_foreign(),
    };
    let written = JsonValue::Object(c.to_json_object());
    match Object::from_json_value(written).unwrap() {
        Object::FeatureCollection(back) => {
            assert_eq!(back.bbox, c.bbox);
            assert_eq!(back.features.len(), 1);
            assert_eq!(back.features[0].properties, c.features[0].properties);
            assert_eq!(members_value(&back.foreign_members), members_value(&c.foreign_members));
        }
        other => panic!("not a collection: {:?}", other),
    }
}

#[test]
fn object_from_geometries_is_a_collection() {
    let o = Object::from_geometries(vec![Geometry::new(GeometryValue::new_point(pos(&[1.0, 2.0])))]);
    match o {
        Object::Geometry(g) => match g.value {
            GeometryValue::GeometryCollection { geometries } => {
                assert_eq!(geometries, vec![Geometry::new(GeometryValue::new_point(pos(&[1.0, 2.0])))])
            }
            other => panic!("not a collection: {:?}", other),
        },
        other => panic!("not a geometry: {:?}", other),
    }
}

#[test]
fn default_feature_is_empty() {
    let f = Feature::default();
    assert_eq!(f, Feature { bbox: None, geometry: None, id: None, properties: None, foreign_members: None });
    assert_eq!(f.len_properties(), 0);
}
