use geojson::errors::{DecodeError, Error, JsonKind, ObjectKind};
use geojson::feature::{Feature, Id};
use geojson::feature_collection::FeatureCollection;
use geojson::geojson::GeoJson;
use geojson::geometry::{Geometry, GeometryValue, Position};
use geojson::json::{JsonNumber, JsonObject, JsonValue};
use geojson::records::{from_feature, to_feature, wrap_record, FeatureVisitor, FeatureWrapper};

fn to_json(v: &serde_json::Value) -> JsonValue {
    match v {
        serde_json::Value::Null => JsonValue::Null,
        serde_json::Value::Bool(b) => JsonValue::Bool(*b),
        serde_json::Value::Number(n) => JsonValue::Number(if let Some(u) = n.as_u64() {
            JsonNumber::PosInt(u)
        } else if let Some(i) = n.as_i64() {
            JsonNumber::NegInt(i)
        } else {
            JsonNumber::Float(n.as_f64().unwrap().to_bits())
        }),
        serde_json::Value::String(s) => JsonValue::String(s.clone()),
        serde_json::Value::Array(a) => JsonValue::Array(a.iter().map(to_json).collect()),
        serde_json::Value::Object(m) => JsonValue::Object(JsonObject {
            entries: m.iter().map(|(k, v)| (k.clone(), to_json(v))).collect(),
        }),
    }
}

fn from_json(v: &JsonValue) -> serde_json::Value {
    match v {
        JsonValue::Null => serde_json::Value::Null,
        JsonValue::Bool(b) => serde_json::Value::Bool(*b),
        JsonValue::Number(JsonNumber::PosInt(u)) => serde_json::Value::from(*u),
        JsonValue::Number(JsonNumber::NegInt(i)) => serde_json::Value::from(*i),
        JsonValue::Number(JsonNumber::Float(b)) => serde_json::Number::from_f64(f64::from_bits(*b))
            .map(serde_json::Value::Number)
            .unwrap_or(serde_json::Value::Null),
        JsonValue::String(s) => serde_json::Value::String(s.clone()),
        JsonValue::Array(a) => serde_json::Value::Array(a.iter().map(from_json).collect()),
        JsonValue::Object(o) => {
            let mut m = serde_json::Map::new();
            for (k, v) in &o.entries {
                m.insert(k.clone(), from_json(v));
            }
            serde_json::Value::Object(m)
        }
    }
}

fn parse(s: &str) -> JsonValue {
    to_json(&serde_json::from_str(s).unwrap())
}

fn render(v: &JsonValue) -> String {
    serde_json::to_string(&from_json(v)).unwrap()
}

fn num(x: f64) -> JsonNumber {
    JsonNumber::Float(x.to_bits())
}

fn pos(xs: &[f64]) -> Position {
    Position(xs.iter().map(|x| num(*x)).collect())
}

fn feature_json_str() -> &'static str {
    "{\"type\":\"Feature\",\"geometry\":{\"type\":\"Point\",\"coordinates\":[1.1,2.1]},\"properties\":{}}"
}

fn properties() -> Option<JsonObject> {
    Some(JsonObject::new())
}

fn value() -> GeometryValue {
    GeometryValue::new_point(pos(&[1.1, 2.1]))
}

fn geometry() -> Geometry {
    Geometry::new(value())
}

fn feature() -> Feature {
    Feature {
        geometry: Some(Geometry { value: value(), bbox: None, foreign_members: None }),
        properties: properties(),
        bbox: None,
        id: None,
        foreign_members: None,
    }
}

fn encode(feature: &Feature) -> String {
    render(&JsonValue::Object(feature.to_json_object()))
}

fn decode(json_string: &str) -> GeoJson {
    GeoJson::from_json_value(parse(json_string)).unwrap()
}

fn feature_from_str(s: &str) -> Result<Feature, Error> {
    Feature::try_from_geojson(GeoJson::from_json_value(parse(s))?)
}

#[test]
fn encode_decode_feature() {
    let feature = feature();
    let json_string = encode(&feature);
    assert_eq!(json_string, feature_json_str());
    let decoded_feature = match decode(&json_string) {
        GeoJson::Feature(f) => f,
        _ => unreachable!(),
    };
    assert_eq!(decoded_feature, feature);
}

#[test]
fn feature_parsing() {
    let geojson_str = r#"{"type": "Feature", "geometry": {"type": "Point", "coordinates": [1.1, 2.1]}}"#;
    let feature_1 = feature_from_str(geojson_str).unwrap();
    let feature_2 = Feature::decode(parse(geojson_str)).unwrap();
    assert_eq!(feature_1, feature_2);

    let GeoJson::Feature(feature_3) = decode(geojson_str) else {
        panic!("unexpected GeoJSON type");
    };
    let GeoJson::Feature(feature_4) = GeoJson::from_json_value(parse(geojson_str)).unwrap() else {
        panic!("unexpected GeoJSON type");
    };
    assert_eq!(feature_3, feature_4);
    assert_eq!(feature_1, feature_4);
}

#[test]
fn try_from_value() {
    let json_value = parse(
        r#"{"type": "Feature", "geometry": {"type": "Point", "coordinates": [1.1, 2.1]}, "properties": null}"#,
    );
    assert!(json_value.is_object());
    let feature = Feature::from_json_value(json_value).unwrap();
    assert_eq!(
        feature,
        Feature { bbox: None, geometry: Some(geometry()), id: None, properties: None, foreign_members: None }
    )
}

#[test]
fn null_bbox() {
    let geojson_str = r#"{
        "geometry": null,
        "bbox": null,
        "properties":{},
        "type":"Feature"
    }"#;
    let feature = match decode(geojson_str) {
        GeoJson::Feature(feature) => feature,
        other => panic!("not a feature: {:?}", other),
    };
    assert!(feature.bbox.is_none());
}

#[test]
fn test_display_feature() {
    let f = encode(&feature());
    assert_eq!(f, "{\"type\":\"Feature\",\"geometry\":{\"type\":\"Point\",\"coordinates\":[1.1,2.1]},\"properties\":{}}");
}

#[test]
fn feature_json_null_geometry() {
    let feature = match decode(r#"{"type":"Feature", "geometry": null, "properties":{}}"#) {
        GeoJson::Feature(feature) => feature,
        other => panic!("not a feature: {:?}", other),
    };
    assert!(feature.geometry.is_none());
}

#[test]
fn feature_json_invalid_geometry() {
    let err = GeoJson::from_json_value(parse(r#"{"type": "Feature", "geometry": 3.15, "properties": {}}"#))
        .unwrap_err();
    let Error::MalformedJson(decode_err) = err else {
        panic!("expected decode error");
    };
    assert_eq!(decode_err, DecodeError::ExpectedGeometryObject);
}

#[test]
fn encode_decode_feature_with_id_number() {
    let feature_json_str = r#"{"type":"Feature","geometry":{"type":"Point","coordinates":[1.1,2.1]},"id":0,"properties":{}}"#;
    let feature = Feature {
        geometry: Some(Geometry { value: GeometryValue::new_point(pos(&[1.1, 2.1])), bbox: None, foreign_members: None }),
        properties: properties(),
        bbox: None,
        id: Some(Id::Number(JsonNumber::PosInt(0))),
        foreign_members: None,
    };
    let json_string = encode(&feature);
    assert_eq!(json_string, feature_json_str);
    let decoded_feature = match decode(feature_json_str) {
        GeoJson::Feature(f) => f,
        _ => unreachable!(),
    };
    assert_eq!(decoded_feature, feature);
}

#[test]
fn encode_decode_feature_with_id_string() {
    let feature_json_str = r#"{"type":"Feature","geometry":{"type":"Point","coordinates":[1.1,2.1]},"id":"foo","properties":{}}"#;
    let feature = Feature {
        geometry: Some(Geometry { value: GeometryValue::new_point(pos(&[1.1, 2.1])), bbox: None, foreign_members: None }),
        properties: properties(),
        bbox: None,
        id: Some(Id::String("foo".into())),
        foreign_members: None,
    };
    let json_string = encode(&feature);
    assert_eq!(json_string, feature_json_str);
    let decoded_feature = match decode(feature_json_str) {
        GeoJson::Feature(f) => f,
        _ => unreachable!(),
    };
    assert_eq!(decoded_feature, feature);
}

#[test]
fn decode_feature_with_invalid_id_type_object() {
    let geojson_str = r#"{"type":"Feature","id":{},"geometry":{"coordinates":[1.1,2.1],"type":"Point"},"properties":{}}"#;
    let err = GeoJson::from_json_value(parse(geojson_str)).unwrap_err();
    let Error::MalformedJson(decode_err) = err else {
        panic!("expected decode error");
    };
    assert_eq!(decode_err, DecodeError::InvalidId);
}

#[test]
fn decode_feature_with_id_null() {
    let geojson_str = r#"{"type": "Feature", "id": null, "geometry": {"type": "Point", "coordinates": [1.1,2.1]}, "properties":{}}"#;
    let GeoJson::Feature(feature) = decode(geojson_str) else {
        panic!("expected Feature");
    };
    assert!(feature.id.is_none(), "Expected id to be None for null id");
}

#[test]
fn encode_decode_feature_with_foreign_member() {
    let feature_json_str = "{\"type\":\"Feature\",\"geometry\":{\"type\":\"Point\",\"coordinates\":[1.1,2.1]},\"properties\":{},\"other_member\":\"some_value\"}";
    let mut foreign_members = JsonObject::new();
    foreign_members.insert(String::from("other_member"), JsonValue::String("some_value".to_string()));
    let feature = Feature {
        geometry: Some(Geometry { value: GeometryValue::new_point(pos(&[1.1, 2.1])), bbox: None, foreign_members: None }),
        properties: properties(),
        bbox: None,
        id: None,
        foreign_members: Some(foreign_members),
    };
    let json_string = encode(&feature);
    assert_eq!(json_string, feature_json_str);
    let decoded_feature = match decode(feature_json_str) {
        GeoJson::Feature(f) => f,
        _ => unreachable!(),
    };
    assert_eq!(decoded_feature, feature);
}

#[test]
fn encode_decode_feature_with_null_properties() {
    let feature_json_str = r#"{"type":"Feature","geometry":{"type":"Point","coordinates":[1.1,2.1]},"properties":null}"#;
    let feature = Feature {
        geometry: Some(Geometry::new(GeometryValue::new_point(pos(&[1.1, 2.1])))),
        properties: None,
        bbox: None,
        id: None,
        foreign_members: None,
    };
    let json_string = encode(&feature);
    assert_eq!(json_string, feature_json_str);
    let decoded_feature = match decode(feature_json_str) {
        GeoJson::Feature(f) => f,
        _ => unreachable!(),
    };
    assert_eq!(decoded_feature, feature);
}

#[test]
fn feature_ergonomic_property_access() {
    let mut feature = feature();

    assert_eq!(feature.len_properties(), 0);
    assert_eq!(feature.property("foo"), None);
    assert!(!feature.contains_property("foo"));
    assert_eq!(feature.properties_iter(), vec![]);

    feature.set_property("foo".to_string(), JsonValue::Number(JsonNumber::PosInt(12)));
    assert_eq!(feature.property("foo"), Some(&JsonValue::Number(JsonNumber::PosInt(12))));
    assert_eq!(feature.len_properties(), 1);
    assert!(feature.contains_property("foo"));
    assert_eq!(
        feature.properties_iter(),
        vec![(&"foo".to_string(), &JsonValue::Number(JsonNumber::PosInt(12)))]
    );

    assert_eq!(Some(JsonValue::Number(JsonNumber::PosInt(12))), feature.remove_property("foo"));
    assert_eq!(feature.property("foo"), None);
    assert_eq!(feature.len_properties(), 0);
    assert!(!feature.contains_property("foo"));
    assert_eq!(feature.properties_iter(), vec![]);
}

#[test]
fn feature_test_from_str_ok() {
    let feature_json = r#"{
        "type": "Feature",
        "geometry": {"type": "Point", "coordinates": [125.6, 10.1]},
        "properties": {"name": "Dinagat Islands"}
    }"#;
    let feature = feature_from_str(feature_json).unwrap();
    assert_eq!(
        &JsonValue::String("Dinagat Islands".to_string()),
        feature.property("name").unwrap()
    );
}

#[test]
fn feature_test_from_str_with_unexpected_type() {
    let geometry_json = r#"{"type": "Point", "coordinates": [125.6, 10.1]}"#;
    let actual_failure = feature_from_str(geometry_json).unwrap_err();
    match actual_failure {
        Error::ExpectedType { actual, expected } => {
            assert_eq!(actual, ObjectKind::Geometry);
            assert_eq!(expected, ObjectKind::Feature);
        }
        e => panic!("unexpected error: {:?}", e),
    };
}

#[test]
fn test_id_serialize_string() {
    let id = Id::String("foo".to_string());
    assert_eq!(render(&id.to_json_value()), "\"foo\"");
}

#[test]
fn test_id_serialize_number_integer() {
    let id = Id::Number(JsonNumber::PosInt(42));
    assert_eq!(render(&id.to_json_value()), "42");
}

fn feature_collection_json() -> &'static str {
    r#"{ "type": "FeatureCollection", "features": [
        {
            "type": "Feature",
            "geometry": {"type": "Point", "coordinates": [11.1, 22.2]},
            "properties": {"name": "Downtown"}
        },
        {
            "type": "Feature",
            "geometry": {"type": "Point", "coordinates": [33.3, 44.4]},
            "properties": {"name": "Uptown"}
        }
    ]}"#
}

#[test]
fn feature_collection_parsing() {
    let geojson_str = feature_collection_json();
    let feature_collection_1 = FeatureCollection::decode(parse(geojson_str)).unwrap();
    let feature_collection_2 = FeatureCollection::decode(parse(geojson_str)).unwrap();
    assert_eq!(feature_collection_1, feature_collection_2);
    let GeoJson::FeatureCollection(feature_collection_3) = decode(geojson_str) else {
        panic!("unexpected GeoJSON type");
    };
    let GeoJson::FeatureCollection(feature_collection_4) = GeoJson::from_json_value(parse(geojson_str)).unwrap()
    else {
        panic!("unexpected GeoJSON type");
    };
    assert_eq!(feature_collection_3, feature_collection_4);
    assert_eq!(feature_collection_1, feature_collection_4);
}

#[test]
fn feature_collection_test_from_str_ok() {
    let feature_collection = FeatureCollection::decode(parse(feature_collection_json())).unwrap();
    assert_eq!(2, feature_collection.features.len());
}

#[test]
fn wrong_type() {
    let geojson_str = r#"{"type": "Point", "coordinates": [1.1, 2.1]}"#;
    Geometry::try_from_geojson(decode(geojson_str)).unwrap();
    FeatureCollection::decode(parse(geojson_str)).unwrap_err();
    FeatureCollection::decode(parse(geojson_str)).unwrap_err();
}

#[test]
fn iter_features() {
    let feature_collection = FeatureCollection::decode(parse(feature_collection_json())).unwrap();
    let mut names: Vec<String> = vec![];
    for feature in &feature_collection.features {
        let name = match feature.property("name").unwrap() {
            JsonValue::String(s) => s.to_string(),
            _ => panic!("name is not a string"),
        };
        names.push(name);
    }
    assert_eq!(names, vec!["Downtown", "Uptown"]);
}

#[test]
fn encode_decode_feature_collection_with_foreign_members() {
    let mut foreign_members = JsonObject::new();
    foreign_members.insert("extra".to_string(), JsonValue::String("data".to_string()));
    let feature_collection = FeatureCollection { bbox: None, features: vec![], foreign_members: Some(foreign_members) };
    let json_string = render(&JsonValue::Object(feature_collection.to_json_object()));
    let decoded = FeatureCollection::decode(parse(&json_string)).unwrap();
    assert_eq!(decoded, feature_collection);
}

#[test]
fn test_to_feature() {
    let record = parse(r#"{"geometry": {"type": "Point", "coordinates": [125.6, 10.1]}, "name": "Dinagat Islands", "age": 123}"#);
    let actual = to_feature(record).unwrap();
    let expected_properties = parse(r#"{"name": "Dinagat Islands", "age": 123}"#);
    assert_eq!(actual.bbox, None);
    assert_eq!(actual.geometry, Some(Geometry::new(GeometryValue::new_point(pos(&[125.6, 10.1])))));
    assert_eq!(actual.id, None);
    assert_eq!(actual.foreign_members, None);
    assert_eq!(
        from_json(&JsonValue::Object(actual.properties.unwrap())),
        from_json(&expected_properties)
    );
}

#[test]
fn to_feature_errors() {
    assert!(matches!(to_feature(JsonValue::Null), Err(Error::ExpectedObjectValue(JsonValue::Null))));
    assert!(matches!(to_feature(parse(r#"{"geometry": 1}"#)), Err(Error::GeoJsonExpectedObject(_))));
    let f = to_feature(parse(r#"{"name": "x"}"#)).unwrap();
    assert!(f.geometry.is_none());
}

#[test]
fn wrapped_record_is_a_feature() {
    let record = parse(r#"{"geometry": {"type": "Point", "coordinates": [1.1, 1.2]}, "id": 7, "name": "Mishka", "age": 12}"#);
    let wrapper_target = 5u8;
    let wrapper = FeatureWrapper::new(&wrapper_target);
    assert_eq!(*wrapper.feature(), 5u8);
    let object = wrap_record(record).unwrap();
    assert_eq!(
        render(&JsonValue::Object(object)),
        r#"{"type":"Feature","geometry":{"type":"Point","coordinates":[1.1,1.2]},"id":7,"properties":{"age":12,"name":"Mishka"}}"#
    );
    assert!(matches!(wrap_record(JsonValue::Null), Err(Error::MalformedJson(DecodeError::RecordNotAnObject(JsonKind::Null)))));
    assert!(matches!(
        wrap_record(parse(r#"{"point": 1}"#)),
        Err(Error::MalformedJson(DecodeError::RecordWithoutGeometry))
    ));
}

#[test]
fn feature_read_as_record() {
    let mut props = JsonObject::new();
    props.insert("name".to_string(), JsonValue::String("Dinagat Islands".to_string()));
    props.insert("age".to_string(), JsonValue::Number(JsonNumber::PosInt(123)));
    let feature = Feature {
        bbox: None,
        geometry: Some(Geometry::new(GeometryValue::new_point(pos(&[125.6, 10.1])))),
        id: None,
        properties: Some(props),
        foreign_members: None,
    };
    let fields = from_feature(&feature).unwrap();
    assert_eq!(
        from_json(&JsonValue::Object(fields)),
        from_json(&parse(r#"{"geometry": {"type": "Point", "coordinates": [125.6, 10.1]}, "name": "Dinagat Islands", "age": 123}"#))
    );
    let visitor: FeatureVisitor<()> = FeatureVisitor::new();
    let err = visitor.visit_map(JsonObject { entries: vec![("type".to_string(), JsonValue::String("Point".to_string()))] });
    assert!(matches!(err, Err(Error::MalformedJson(DecodeError::TypeNotFeature))));
    let visitor: FeatureVisitor<()> = FeatureVisitor::new();
    assert!(matches!(visitor.visit_map(JsonObject::new()), Err(Error::MalformedJson(DecodeError::MissingFeatureType))));
    let no_geometry = Feature { bbox: None, geometry: None, id: None, properties: None, foreign_members: None };
    assert!(matches!(from_feature(&no_geometry), Err(Error::MalformedJson(DecodeError::UnexpectedGeometry))));
}

#[test]
fn member_by_member_feature_errors() {
    let e = |s: &str| Feature::from_json_value(parse(s)).unwrap_err();
    assert!(matches!(e("1"), Error::GeoJsonExpectedObject(_)));
    assert!(matches!(e("{}"), Error::ExpectedProperty(ref s) if s == "type"));
    assert!(matches!(e(r#"{"type": 1}"#), Error::ExpectedStringValue(_)));
    assert!(matches!(e(r#"{"type": "Point"}"#), Error::NotAFeature(ref s) if s == "Point"));
    assert!(matches!(e(r#"{"type": "Feature"}"#), Error::ExpectedProperty(ref s) if s == "geometry"));
    assert!(matches!(e(r#"{"type": "Feature", "geometry": 1}"#), Error::FeatureInvalidGeometryValue(_)));
    assert!(matches!(e(r#"{"type": "Feature", "geometry": null, "properties": 1}"#), Error::PropertiesExpectedObjectOrNull(_)));
    assert!(matches!(e(r#"{"type": "Feature", "geometry": null, "id": []}"#), Error::FeatureInvalidIdentifierType(_)));
    assert!(matches!(e(r#"{"type": "Feature", "geometry": null, "bbox": 1}"#), Error::BboxExpectedArray(_)));
    assert!(matches!(e(r#"{"type": "Feature", "geometry": null, "bbox": [1, "a"]}"#), Error::BboxExpectedNumericValues(JsonValue::String(_))));
    let g = |s: &str| Geometry::from_json_value(parse(s)).unwrap_err();
    assert!(matches!(g(r#"{"type": "Circle"}"#), Error::GeometryUnknownType(ref s) if s == "Circle"));
    assert!(matches!(g(r#"{"type": "Point", "coordinates": [1]}"#), Error::PositionTooShort(1)));
    assert!(matches!(g(r#"{"type": "Point", "coordinates": [1, "a"]}"#), Error::ExpectedFloatValue));
    assert!(matches!(g(r#"{"type": "LineString", "coordinates": 1}"#), Error::ExpectedArrayValue(ref s) if s == "None"));
    assert!(matches!(g(r#"{"type": "GeometryCollection", "geometries": 1}"#), Error::ExpectedArrayValue(ref s) if s == "Number"));
    assert!(matches!(g(r#"{"type": "GeometryCollection", "geometries": [1]}"#), Error::ExpectedObjectValue(_)));
}

#[test]
fn remove_property_removes_every_member_of_the_key() {
    let mut feature = feature();
    let n = |x: u64| JsonValue::Number(JsonNumber::PosInt(x));
    feature.properties = Some(JsonObject {
        entries: vec![
            ("a".to_string(), n(1)),
            ("b".to_string(), n(2)),
            ("a".to_string(), n(3)),
            ("c".to_string(), n(4)),
        ],
    });
    assert_eq!(feature.remove_property("a"), Some(n(1)));
    assert_eq!(feature.property("a"), None);
    assert!(!feature.contains_property("a"));
    assert_eq!(feature.len_properties(), 2);
    assert_eq!(
        feature.properties_iter(),
        vec![(&"c".to_string(), &n(4)), (&"b".to_string(), &n(2))]
    );
    assert_eq!(feature.remove_property("a"), None);
    assert_eq!(feature.len_properties(), 2);
    // The last property takes the place of the one removed.
    feature.set_property("d".to_string(), n(5));
    assert_eq!(feature.remove_property("c"), Some(n(4)));
    assert_eq!(
        feature.properties_iter(),
        vec![(&"d".to_string(), &n(5)), (&"b".to_string(), &n(2))]
    );
}

#[test]
fn decode_error_messages() {
    assert_eq!(DecodeError::ExpectedArrayGotNumber.message(), "expected array, got number");
    assert_eq!(DecodeError::CoordinatesTooDeep.message(), "coordinate nesting too deep");
    assert_eq!(DecodeError::TypeNotFeature.message(), "GeoJSON Feature had a `type` other than \"Feature\"");
    assert_eq!(DecodeError::UnexpectedGeometry.message(), "GeoJSON Feature had a unexpected geometry");
    assert_eq!(
        DecodeError::MissingFeatureType.message(),
        "A GeoJSON Feature must have a `type: \"Feature\"` field, but found none."
    );
    assert_eq!(DecodeError::RecordWithoutGeometry.message(), "missing `geometry` field");
    assert_eq!(DecodeError::RecordNotAnObject(JsonKind::Number).message(), "expected JSON object but found `number`");
    let e = wrap_record(JsonValue::Bool(true)).unwrap_err();
    match e {
        Error::MalformedJson(d) => assert_eq!(d.message(), "expected JSON object but found `bool`"),
        _ => panic!("wrong error"),
    }
}

#[test]
fn geometries_held_by_each_kind_of_object() {
    let point = |x: f64| Geometry::new(GeometryValue::new_point(Position(vec![JsonNumber::Float(x.to_bits()), JsonNumber::Float(0.0f64.to_bits())])));
    let with = |x: f64| Feature { bbox: None, geometry: Some(point(x)), id: None, properties: None, foreign_members: None };
    let without = Feature { bbox: None, geometry: None, id: None, properties: None, foreign_members: None };
    let collection = GeoJson::FeatureCollection(FeatureCollection {
        bbox: None,
        features: vec![with(1.0), without, with(3.0)],
        foreign_members: None,
    });
    assert_eq!(collection.geometries(), vec![&point(1.0), &point(3.0)]);
    let lone = GeoJson::Feature(Feature { bbox: None, geometry: None, id: None, properties: None, foreign_members: None });
    assert!(lone.geometries().is_empty());
    let geometry = GeoJson::Geometry(point(2.0));
    assert_eq!(geometry.geometries(), vec![&point(2.0)]);
}
