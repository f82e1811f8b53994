use geojson::errors::{decimal_text, position_too_short_message, DecodeError, Error, ObjectKind};
use geojson::feature::Feature;
use geojson::geojson::GeoJson;
use geojson::geometry::{from_seq, Geometry, GeometryType, GeometryValue, Position, PositionSizeFault};
use geojson::json::{JsonNumber, JsonObject, JsonValue};
use geojson::object::{get_object, Object, Type};

fn to_json(v: &serde_json::Value) -> JsonValue {
    match v {
        serde_json::Value::Null => JsonValue::Null,
        serde_json::Value::Bool(b) => JsonValue::Bool(*b),
        serde_json::Value::Number(n) => JsonValue::Number(if let Some(u) = n.as_u64() {
            JsonNumber::PosInt(u)
        } else if let Some(i) = n.as_i64() {
            JsonNumber::NegInt(i)
        } else {
            JsonNumber::Float(n.as_f64().unwrap().to_bits())
        }),
        serde_json::Value::String(s) => JsonValue::String(s.clone()),
        serde_json::Value::Array(a) => JsonValue::Array(a.iter().map(to_json).collect()),
        serde_json::Value::Object(m) => JsonValue::Object(JsonObject {
            entries: m.iter().map(|(k, v)| (k.clone(), to_json(v))).collect(),
        }),
    }
}

fn from_json(v: &JsonValue) -> serde_json::Value {
    match v {
        JsonValue::Null => serde_json::Value::Null,
        JsonValue::Bool(b) => serde_json::Value::Bool(*b),
        JsonValue::Number(JsonNumber::PosInt(u)) => serde_json::Value::from(*u),
        JsonValue::Number(JsonNumber::NegInt(i)) => serde_json::Value::from(*i),
        JsonValue::Number(JsonNumber::Float(b)) => serde_json::Number::from_f64(f64::from_bits(*b))
            .map(serde_json::Value::Number)
            .unwrap_or(serde_json::Value::Null),
        JsonValue::String(s) => serde_json::Value::String(s.clone()),
        JsonValue::Array(a) => serde_json::Value::Array(a.iter().map(from_json).collect()),
        JsonValue::Object(o) => {
            let mut m = serde_json::Map::new();
            for (k, v) in &o.entries {
                m.insert(k.clone(), from_json(v));
            }
            serde_json::Value::Object(m)
        }
    }
}

fn parse(s: &str) -> JsonValue {
    to_json(&serde_json::from_str(s).unwrap())
}

fn render(v: &JsonValue) -> String {
    serde_json::to_string(&from_json(v)).unwrap()
}

fn num(x: f64) -> JsonNumber {
    JsonNumber::Float(x.to_bits())
}

fn pos(xs: &[f64]) -> Position {
    Position(xs.iter().map(|x| num(*x)).collect())
}

fn decode(json_string: &str) -> GeoJson {
    GeoJson::from_json_value(parse(json_string)).unwrap()
}

fn geometry_from_str(s: &str) -> Result<Geometry, Error> {
    Geometry::try_from_geojson(GeoJson::from_json_value(parse(s))?)
}

fn encode(geometry: &Geometry) -> String {
    render(&JsonValue::Object(geometry.serialize()))
}

#[test]
fn encode_decode_geometry() {
    let geometry_json_str = "{\"type\":\"Point\",\"coordinates\":[1.1,2.1]}";
    let geometry = Geometry {
        value: GeometryValue::new_point(pos(&[1.1, 2.1])),
        bbox: None,
        foreign_members: None,
    };

    let json_string = encode(&geometry);
    assert_eq!(json_string, geometry_json_str);

    let decoded_geometry = match decode(&json_string) {
        GeoJson::Geometry(g) => g,
        _ => unreachable!(),
    };
    assert_eq!(decoded_geometry, geometry);
}

#[test]
fn test_geometry_from_value() {
    let json_value = parse(r#"{"type": "Point", "coordinates": [0.0, 0.1]}"#);
    assert!(json_value.is_object());

    let geometry = Geometry::from_json_value(json_value).unwrap();
    assert_eq!(
        geometry,
        Geometry {
            value: GeometryValue::new_point(pos(&[0.0, 0.1])),
            bbox: None,
            foreign_members: None,
        }
    )
}

#[test]
fn test_geometry_display() {
    let v = GeometryValue::new_line_string(vec![
        pos(&[0.0, 0.1]),
        pos(&[0.1, 0.2]),
        pos(&[0.2, 0.3]),
    ]);
    let geometry = Geometry::new(v);
    assert_eq!(
        encode(&geometry),
        "{\"type\":\"LineString\",\"coordinates\":[[0.0,0.1],[0.1,0.2],[0.2,0.3]]}"
    );
}

#[test]
fn test_value_display() {
    let v = GeometryValue::new_line_string(vec![
        pos(&[0.0, 0.1]),
        pos(&[0.1, 0.2]),
        pos(&[0.2, 0.3]),
    ]);
    assert_eq!(
        r#"{"type":"LineString","coordinates":[[0.0,0.1],[0.1,0.2],[0.2,0.3]]}"#,
        render(&v.to_json_value())
    );
}

#[test]
fn encode_decode_geometry_with_foreign_member() {
    let geometry_json_str = "{\"type\":\"Point\",\"coordinates\":[1.1,2.1],\"other_member\":true}";
    let mut foreign_members = JsonObject::new();
    foreign_members.insert(String::from("other_member"), JsonValue::Bool(true));
    let geometry = Geometry {
        value: GeometryValue::new_point(pos(&[1.1, 2.1])),
        bbox: None,
        foreign_members: Some(foreign_members),
    };

    let json_string = encode(&geometry);
    assert_eq!(json_string, geometry_json_str);

    let decoded_geometry = match decode(geometry_json_str) {
        GeoJson::Geometry(g) => g,
        _ => unreachable!(),
    };
    assert_eq!(decoded_geometry, geometry);
}

#[test]
fn encode_decode_geometry_collection() {
    let geometry_collection = Geometry {
        bbox: None,
        value: GeometryValue::new_geometry_collection(vec![
            Geometry::new(GeometryValue::new_point(pos(&[100.0, 0.0]))),
            Geometry::new(GeometryValue::new_line_string(vec![
                pos(&[101.0, 0.0]),
                pos(&[102.0, 1.0]),
            ])),
        ]),
        foreign_members: None,
    };

    let geometry_collection_string = "{\"type\":\"GeometryCollection\",\"geometries\":[{\"type\":\"Point\",\"coordinates\":[100.0,0.0]},{\"type\":\"LineString\",\"coordinates\":[[101.0,0.0],[102.0,1.0]]}]}";
    let json_string = encode(&geometry_collection);
    assert_eq!(json_string, geometry_collection_string);

    let decoded_geometry = match decode(geometry_collection_string) {
        GeoJson::Geometry(g) => g,
        _ => unreachable!(),
    };
    assert_eq!(decoded_geometry, geometry_collection);
}

#[test]
fn geometry_test_from_str_ok() {
    let geometry_json = r#"{"type": "Point", "coordinates": [125.6, 10.1]}"#;
    let geometry = geometry_from_str(geometry_json).unwrap();
    assert!(matches!(geometry.value, GeometryValue::Point { .. }));
}

#[test]
fn geometry_test_from_str_with_unexpected_type() {
    let feature_json = r#"{
        "type": "Feature",
        "geometry": {"type": "Point", "coordinates": [125.6, 10.1]},
        "properties": {"name": "Dinagat Islands"}
    }"#;
    let actual_failure = geometry_from_str(feature_json).unwrap_err();
    match actual_failure {
        Error::ExpectedType { actual, expected } => {
            assert_eq!(actual, ObjectKind::Feature);
            assert_eq!(expected, ObjectKind::Geometry);
        }
        e => panic!("unexpected error: {:?}", e),
    };
}

#[test]
fn test_reject_too_few_coordinates() {
    let err = geometry_from_str(r#"{"type": "Point", "coordinates": []}"#).unwrap_err();
    assert!(matches!(err, Error::PositionTooShort(0)));
    assert!(position_too_short_message(0).contains("A position must contain two or more elements, but got `0`"));

    let err = geometry_from_str(r#"{"type": "Point", "coordinates": [23.42]}"#).unwrap_err();
    assert!(matches!(err, Error::PositionTooShort(1)));
    assert!(position_too_short_message(1).contains("A position must contain two or more elements, but got `1`"));
}

fn feature_point_json() -> &'static str {
    r#"{
        "type": "Feature",
        "geometry": {
            "type": "Point",
            "coordinates": [102.0, 0.5]
        },
        "properties": null
    }"#
}

#[test]
fn geojson_test_geojson_from_reader() {
    let g1 = GeoJson::from_json_value(to_json(&serde_json::from_reader(feature_point_json().as_bytes()).unwrap())).unwrap();
    let g2 = GeoJson::from_json_value(parse(feature_point_json())).unwrap();
    assert_eq!(g1, g2);
}

#[test]
fn geojson_test_geojson_from_value() {
    let json_value = parse(feature_point_json());
    assert!(json_value.is_object());
    let geojson = GeoJson::from_json_value(json_value).unwrap();
    assert_eq!(
        geojson,
        GeoJson::Feature(Feature {
            bbox: None,
            geometry: Some(Geometry::new(GeometryValue::new_point(pos(&[102.0, 0.5])))),
            id: None,
            properties: None,
            foreign_members: None,
        })
    );
}

#[test]
fn test_missing_properties_key() {
    let json_value = parse(
        r#"{"type": "Feature", "geometry": {"type": "Point", "coordinates": [102.0, 0.5]}}"#,
    );
    assert!(json_value.is_object());
    let geojson = GeoJson::from_json_value(json_value).unwrap();
    assert_eq!(
        geojson,
        GeoJson::Feature(Feature {
            bbox: None,
            geometry: Some(Geometry::new(GeometryValue::new_point(pos(&[102.0, 0.5])))),
            id: None,
            properties: None,
            foreign_members: None,
        })
    );
}

#[test]
fn object_test_geojson_from_reader() {
    let g1 = Object::from_json_value(to_json(&serde_json::from_reader(feature_point_json().as_bytes()).unwrap())).unwrap();
    let g2 = Object::from_json_value(parse(feature_point_json())).unwrap();
    assert_eq!(g1, g2);
}

#[test]
fn object_test_geojson_from_value() {
    let json_value = parse(feature_point_json());
    assert!(json_value.is_object());
    let geojson = Object::from_json_value(json_value).unwrap();
    assert_eq!(
        geojson,
        Object::Feature(Feature {
            bbox: None,
            geometry: Some(Geometry::new(GeometryValue::new_point(pos(&[102.0, 0.5])))),
            id: None,
            properties: None,
            foreign_members: None,
        })
    );
}

#[test]
fn geometry_names_read_back() {
    let kinds = [
        GeometryType::Point,
        GeometryType::LineString,
        GeometryType::Polygon,
        GeometryType::MultiPoint,
        GeometryType::MultiLineString,
        GeometryType::MultiPolygon,
        GeometryType::GeometryCollection,
    ];
    for k in kinds {
        assert_eq!(GeometryType::from_name(k.name()), Some(k));
    }
    assert_eq!(GeometryType::from_name("point"), None);
    assert_eq!(GeometryValue::new_point(pos(&[1.0, 2.0])).name_of_type(), "Point");
}

#[test]
fn object_type_names() {
    assert_eq!(Type::from_str("Feature"), Some(Type::Feature));
    assert_eq!(Type::from_str("FeatureCollection"), Some(Type::FeatureCollection));
    assert_eq!(Type::from_str("MultiPolygon"), Some(Type::MultiPolygon));
    assert_eq!(Type::from_str("Circle"), None);
}

#[test]
fn object_errors() {
    assert!(matches!(get_object(JsonValue::Bool(true)), Err(Error::ExpectedObjectValue(JsonValue::Bool(true)))));
    assert!(get_object(parse("{}")).is_ok());
    assert!(matches!(Object::from_json_value(parse("[]")), Err(Error::ExpectedObject(_))));
    assert!(matches!(Object::from_json_value(parse(r#"{"type": 3}"#)), Err(Error::GeometryUnknownType(s)) if s == "type"));
    assert!(matches!(Object::from_json_value(parse(r#"{"type": "Circle"}"#)), Err(Error::EmptyType)));
    let fc = Object::from_json_value(parse(r#"{"type": "FeatureCollection", "features": [], "extra": 1}"#)).unwrap();
    match fc {
        Object::FeatureCollection(c) => {
            assert!(c.features.is_empty());
            assert_eq!(c.foreign_members.unwrap().entries.len(), 1);
        }
        _ => panic!("expected a collection"),
    }
}

#[test]
fn decode_errors() {
    let e = |s: &str| GeoJson::from_json_value(parse(s)).unwrap_err();
    assert!(matches!(e("3"), Error::MalformedJson(DecodeError::ExpectedGeoJsonObject)));
    assert!(matches!(e("{}"), Error::MalformedJson(DecodeError::MissingType)));
    assert!(matches!(e(r#"{"type": "Circle"}"#), Error::MalformedJson(DecodeError::UnknownType)));
    assert!(matches!(e(r#"{"type": "FeatureCollection"}"#), Error::MalformedJson(DecodeError::MissingFeatures)));
    assert!(matches!(e(r#"{"type": "FeatureCollection", "features": 1}"#), Error::MalformedJson(DecodeError::InvalidFeatures)));
    assert!(matches!(e(r#"{"type": "Point", "coordinates": [1, 2], "bbox": [1, "x"]}"#), Error::MalformedJson(DecodeError::InvalidBbox)));
    assert!(matches!(e(r#"{"type": "Point", "coordinates": 1}"#), Error::MalformedJson(DecodeError::ExpectedArrayGotNumber)));
    assert!(matches!(e(r#"{"type": "Point", "coordinates": [1, [2]]}"#), Error::MalformedJson(DecodeError::InvalidCoordinates)));
    assert!(matches!(e(r#"{"type": "Point", "coordinates": [[[[[1, 2]]]]]}"#), Error::MalformedJson(DecodeError::CoordinatesTooDeep)));
    assert!(matches!(e(r#"{"type": "GeometryCollection", "geometries": 1}"#), Error::MalformedJson(DecodeError::InvalidGeometries)));
    assert!(matches!(
        e(r#"{"type": "Point", "coordinates": [[1, 2]]}"#),
        Error::GeometryUnknownType(s) if s == "invalid geometry: mismatched type and coordinates"
    ));
    assert!(matches!(
        e(r#"{"type": "GeometryCollection", "coordinates": []}"#),
        Error::GeometryUnknownType(s) if s == "invalid geometry: mismatched type and coordinates"
    ));
    assert!(matches!(e(r#"{"type": "Feature", "id": true}"#), Error::MalformedJson(DecodeError::InvalidId)));
    assert!(matches!(e(r#"{"type": "Feature", "properties": 2}"#), Error::MalformedJson(DecodeError::InvalidProperties)));
    assert!(matches!(e(r#"{"type": "Feature", "geometry": 2}"#), Error::MalformedJson(DecodeError::ExpectedGeometryObject)));
    assert!(matches!(Feature::decode(parse("2")), Err(Error::MalformedJson(DecodeError::ExpectedFeatureObject))));
    assert!(matches!(
        geojson::feature_collection::FeatureCollection::decode(parse("2")),
        Err(Error::MalformedJson(DecodeError::ExpectedFeatureCollectionObject))
    ));
}

#[test]
fn empty_coordinates_by_kind() {
    let g = |s: &str| geometry_from_str(s).unwrap().value;
    assert_eq!(g(r#"{"type": "LineString", "coordinates": []}"#), GeometryValue::LineString { coordinates: vec![] });
    assert_eq!(g(r#"{"type": "Polygon", "coordinates": []}"#), GeometryValue::Polygon { coordinates: vec![] });
    assert_eq!(g(r#"{"type": "MultiPolygon", "coordinates": []}"#), GeometryValue::MultiPolygon { coordinates: vec![] });
    assert_eq!(
        g(r#"{"type": "Polygon", "coordinates": [[], [[1, 2]]]}"#),
        GeometryValue::Polygon {
            coordinates: vec![vec![], vec![pos(&[1.0, 2.0])]]
        }
    );
    assert_eq!(
        g(r#"{"type": "Point", "coordinates": [-1, 2.5]}"#),
        GeometryValue::Point { coordinates: pos(&[-1.0, 2.5]) }
    );
}

#[test]
fn test_parse_line_string() {
    let input = r#"{
        "type": "LineString",
        "coordinates": [[-100, 40], [-105, 45], [-110, 55]]
    }"#;
    let parsed = GeoJson::from_json_value(parse(input)).unwrap();
    println!("parsed: {:?}", parsed);
}

#[test]
fn test_parse_feature_collection() {
    let input = r#"{
        "type": "FeatureCollection",
        "features": [
          {
            "type": "Feature",
            "properties": {
              "population": 200
            },
            "geometry": {
              "type": "Point",
              "coordinates": [-112.0372, 46.608058]
            }
          }
        ]
    }"#;
    let parsed = GeoJson::from_json_value(parse(input)).unwrap();
    println!("parsed: {:?}", parsed);
}

#[test]
fn integer_coordinates_read_as_binary64() {
    let text = r#"{"type": "Point", "coordinates": [0, 1], "bbox": [0, 1, 0, -1]}"#;
    let read = geometry_from_str(text).unwrap();
    assert_eq!(read.value, GeometryValue::Point { coordinates: pos(&[0.0, 1.0]) });
    assert_eq!(read.bbox, Some(vec![num(0.0), num(1.0), num(0.0), num(-1.0)]));
    assert!(encode(&read).contains("[0.0,1.0]"));
    let by_members = Geometry::from_json_value(parse(text)).unwrap();
    assert_eq!(by_members, read);
    let nested = geometry_from_str(r#"{"type": "LineString", "coordinates": [[0, 1], [2.5, -3]]}"#).unwrap();
    assert_eq!(nested.value, GeometryValue::LineString { coordinates: vec![pos(&[0.0, 1.0]), pos(&[2.5, -3.0])] });
}

#[test]
fn large_integer_coordinates_round_to_nearest_even() {
    let unsigned: [u64; 6] = [9007199254740992, 9007199254740993, 9007199254740995, 18446744073709551615, 1 << 60, 12345];
    let signed: [i64; 4] = [-1, -9007199254740993, i64::MIN, -9223372036854775807];
    for u in unsigned {
        for i in signed {
            let text = format!(r#"{{"type": "Point", "coordinates": [{}, {}]}}"#, u, i);
            let expected = pos(&[u as f64, i as f64]);
            assert_eq!(geometry_from_str(&text).unwrap().value, GeometryValue::Point { coordinates: expected.clone() });
            assert_eq!(Geometry::from_json_value(parse(&text)).unwrap().value, GeometryValue::Point { coordinates: expected });
        }
    }
    assert_eq!(num(9007199254740993u64 as f64), num(9007199254740992.0));
    assert_eq!(num(9007199254740995u64 as f64), num(9007199254740996.0));
}

#[test]
fn fixed_size_position_reading() {
    assert_eq!(from_seq(num(1.5), &[JsonNumber::PosInt(2)], 2), Ok(vec![num(1.5), num(2.0)]));
    assert_eq!(from_seq(JsonNumber::NegInt(-4), &[], 1), Ok(vec![num(-4.0)]));
    assert_eq!(
        from_seq(num(1.0), &[num(2.0), num(3.0)], 2),
        Err(PositionSizeFault::TooMany { size: 2, additional: 0 })
    );
    assert_eq!(
        from_seq(num(1.0), &[num(2.0), num(3.0), num(4.0), num(5.0)], 2),
        Err(PositionSizeFault::TooMany { size: 2, additional: 2 })
    );
    assert_eq!(from_seq(num(1.0), &[], 3), Err(PositionSizeFault::TooFew { size: 3, got: 1 }));
    assert_eq!(from_seq(num(1.0), &[num(2.0)], 3), Err(PositionSizeFault::TooFew { size: 3, got: 2 }));
}

#[test]
fn decimal_numbers_in_messages() {
    assert_eq!(decimal_text(0), "0");
    assert_eq!(decimal_text(7), "7");
    assert_eq!(decimal_text(10), "10");
    assert_eq!(decimal_text(4096), "4096");
    assert_eq!(decimal_text(usize::MAX), usize::MAX.to_string());
    assert_eq!(position_too_short_message(12), "A position must contain two or more elements, but got `12`");
}
