use geojson::errors::{DecodeError, Error};
use geojson::feature::{Feature, Id};
use geojson::geometry::{Geometry, GeometryValue, Position};
use geojson::json::{JsonNumber, JsonObject, JsonValue};
use geojson::reader::{FeatureReader, ScanStep};
use geojson::records::{from_feature, wrap_record, FeatureVisitor};
use geojson::writer::FeatureWriter;
use std::io::{Read, Write};

fn to_json(v: &serde_json::Value) -> JsonValue {
    match v {
        serde_json::Value::Null => JsonValue::Null,
        serde_json::Value::Bool(b) => JsonValue::Bool(*b),
        serde_json::Value::Number(n) => JsonValue::Number(if let Some(u) = n.as_u64() {
            JsonNumber::PosInt(u)
        } else if let Some(i) = n.as_i64() {
            JsonNumber::NegInt(i)
        } else {
            JsonNumber::Float(n.as_f64().unwrap().to_bits())
        }),
        serde_json::Value::String(s) => JsonValue::String(s.clone()),
        serde_json::Value::Array(a) => JsonValue::Array(a.iter().map(to_json).collect()),
        serde_json::Value::Object(m) => JsonValue::Object(JsonObject {
            entries: m.iter().map(|(k, v)| (k.clone(), to_json(v))).collect(),
        }),
    }
}

fn from_json(v: &JsonValue) -> serde_json::Value {
    match v {
        JsonValue::Null => serde_json::Value::Null,
        JsonValue::Bool(b) => serde_json::Value::Bool(*b),
        JsonValue::Number(JsonNumber::PosInt(u)) => serde_json::Value::from(*u),
        JsonValue::Number(JsonNumber::NegInt(i)) => serde_json::Value::from(*i),
        JsonValue::Number(JsonNumber::Float(b)) => serde_json::Number::from_f64(f64::from_bits(*b))
            .map(serde_json::Value::Number)
            .unwrap_or(serde_json::Value::Null),
        JsonValue::String(s) => serde_json::Value::String(s.clone()),
        JsonValue::Array(a) => serde_json::Value::Array(a.iter().map(from_json).collect()),
        JsonValue::Object(o) => {
            let mut m = serde_json::Map::new();
            for (k, v) in &o.entries {
                m.insert(k.clone(), from_json(v));
            }
            serde_json::Value::Object(m)
        }
    }
}

fn parse(s: &str) -> JsonValue {
    to_json(&serde_json::from_str(s).unwrap())
}

fn render(v: &JsonValue) -> String {
    serde_json::to_string(&from_json(v)).unwrap()
}

fn num(x: f64) -> JsonNumber {
    JsonNumber::Float(x.to_bits())
}

fn pos(xs: &[f64]) -> Position {
    Position(xs.iter().map(|x| num(*x)).collect())
}

fn value(s: &str) -> serde_json::Value {
    serde_json::from_str(s).unwrap()
}

fn point_json(x: f64, y: f64) -> JsonValue {
    Geometry::new(GeometryValue::new_point(pos(&[x, y]))).to_json_value()
}

/// A record as a JSON object: its fields in order.
fn record(fields: Vec<(&str, JsonValue)>) -> JsonValue {
    let mut o = JsonObject::new();
    for (k, v) in fields {
        o.insert(k.to_string(), v);
    }
    JsonValue::Object(o)
}

/// A record written as a Feature, re-read as a JSON value.
fn to_feature_value(r: JsonValue) -> Result<serde_json::Value, Error> {
    let feature = wrap_record(r)?;
    Ok(value(&render(&JsonValue::Object(feature))))
}

/// The JSON values of the Features of a FeatureCollection, read the way a
/// streaming reader reads them.
fn feature_values(text: &str) -> Vec<JsonValue> {
    let mut it = FeatureReader::from_reader(text.as_bytes()).features();
    let mut out = Vec::new();
    while !it.is_done() {
        let mut byte = [0u8];
        it.reader_mut().read_exact(&mut byte).unwrap();
        match it.advance(byte[0]) {
            ScanStep::Skip => {}
            ScanStep::End => break,
            ScanStep::Unexpected(b) => panic!("next byte: {}", b as char),
            ScanStep::FeatureFollows => {
                let de = serde_json::Deserializer::from_reader(it.reader_mut());
                let v = de.into_iter::<serde_json::Value>().next().unwrap().unwrap();
                out.push(to_json(&v));
            }
        }
    }
    out
}

/// A Feature object's value read as a record's fields.
fn record_fields(v: JsonValue) -> JsonObject {
    match v {
        JsonValue::Object(o) => {
            let visitor: FeatureVisitor<()> = FeatureVisitor::new();
            visitor.visit_map(o).unwrap()
        }
        other => panic!("not an object: {:?}", other),
    }
}

/// Records written as one FeatureCollection.
fn collection_text(records: Vec<JsonValue>) -> String {
    let mut buffer: Vec<u8> = vec![];
    {
        let mut writer = FeatureWriter::from_writer(&mut buffer);
        for r in records {
            let feature = wrap_record(r).unwrap();
            let bytes = writer.serialize(render(&JsonValue::Object(feature)).as_bytes()).unwrap();
            writer.writer_mut().write_all(&bytes).unwrap();
        }
        let bytes = writer.finish().unwrap();
        writer.writer_mut().write_all(&bytes).unwrap();
    }
    String::from_utf8(buffer).unwrap()
}

fn feature_collection() -> serde_json::Value {
    value(
        r#"{
            "type": "FeatureCollection",
            "features": [
                {
                  "type": "Feature",
                  "geometry": { "type": "Point", "coordinates": [125.6, 10.1] },
                  "properties": { "name": "Dinagat Islands", "age": 123 }
                },
                {
                  "type": "Feature",
                  "geometry": { "type": "Point", "coordinates": [2.3, 4.5] },
                  "properties": { "name": "Neverland", "age": 456 }
                }
            ]
        }"#,
    )
}

fn string(s: &str) -> JsonValue {
    JsonValue::String(s.to_string())
}

fn posint(n: u64) -> JsonValue {
    JsonValue::Number(JsonNumber::PosInt(n))
}

#[test]
fn test_deserialize_feature_collection() {
    let text = feature_collection().to_string();
    let records: Vec<Feature> = feature_values(&text).into_iter().map(|v| Feature::decode(v).unwrap()).collect();
    assert_eq!(records.len(), 2);
    let first_age = records[0].property("age").unwrap();
    assert_eq!(first_age, &posint(123));
    let second_age = records[1].property("age").unwrap();
    assert_eq!(second_age, &posint(456));
}

#[test]
fn happy_path() {
    let my_feature = record(vec![("geometry", point_json(0.0, 1.0)), ("name", string("burbs"))]);
    let expected = value(
        r#"{"type": "Feature", "geometry": {"coordinates": [0.0, 1.0], "type": "Point"}, "properties": {"name": "burbs"}}"#,
    );
    assert_eq!(to_feature_value(my_feature).unwrap(), expected);
}

#[test]
fn with_some_geom() {
    let my_feature = record(vec![("geometry", point_json(0.0, 1.0)), ("name", string("burbs"))]);
    let expected = value(
        r#"{"type": "Feature", "geometry": {"coordinates": [0.0, 1.0], "type": "Point"}, "properties": {"name": "burbs"}}"#,
    );
    assert_eq!(to_feature_value(my_feature).unwrap(), expected);
}

#[test]
fn with_none_geom() {
    let my_feature = record(vec![("geometry", JsonValue::Null), ("name", string("burbs"))]);
    let expected = value(r#"{"type": "Feature", "geometry": null, "properties": {"name": "burbs"}}"#);
    assert_eq!(to_feature_value(my_feature).unwrap(), expected);
}

#[test]
fn without_geom_field() {
    let my_feature = record(vec![("name", string("burbs"))]);
    let err = to_feature_value(my_feature).unwrap_err();
    assert!(matches!(err, Error::MalformedJson(DecodeError::RecordWithoutGeometry)));
    let error_message = match err {
        Error::MalformedJson(d) => d.message(),
        _ => String::new(),
    };
    assert!(error_message.contains("missing"));
    assert!(error_message.contains("geometry"));
}

#[test]
fn serializes_whatever_geometry() {
    let geometry = JsonValue::Array(vec![posint(1), posint(2), posint(3)]);
    let my_feature = record(vec![("geometry", geometry), ("name", string("burbs"))]);
    let expected = value(r#"{"type": "Feature", "geometry": [1, 2, 3], "properties": {"name": "burbs"}}"#);
    assert_eq!(to_feature_value(my_feature).unwrap(), expected);
}

#[test]
fn geometry_field_without_helper() {
    let geometry = record(vec![
        ("x", JsonValue::Number(num(125.6))),
        ("y", JsonValue::Number(num(10.1))),
    ]);
    let my_struct = record(vec![("geometry", geometry), ("name", string("Dinagat Islands")), ("age", posint(123))]);
    let expected = value(
        r#"{"type": "Feature", "geometry": { "x": 125.6, "y": 10.1 }, "properties": {"name": "Dinagat Islands", "age": 123}}"#,
    );
    assert_eq!(to_feature_value(my_struct).unwrap(), expected);
}

#[test]
fn ser_geometry_field() {
    let my_struct = record(vec![
        ("geometry", point_json(125.6, 10.1)),
        ("name", string("Dinagat Islands")),
        ("age", posint(123)),
    ]);
    let expected = value(
        r#"{"type": "Feature", "geometry": {"type": "Point", "coordinates": [125.6, 10.1]}, "properties": {"name": "Dinagat Islands", "age": 123}}"#,
    );
    assert_eq!(to_feature_value(my_struct).unwrap(), expected);
}

#[test]
fn with_id_field() {
    let my_struct = record(vec![
        ("geometry", point_json(125.6, 10.1)),
        ("name", string("Dinagat Islands")),
        ("age", posint(123)),
        ("id", string("my-id-123")),
    ]);
    let expected = value(
        r#"{"type": "Feature", "id": "my-id-123", "geometry": {"type": "Point", "coordinates": [125.6, 10.1]}, "properties": {"name": "Dinagat Islands", "age": 123}}"#,
    );
    assert_eq!(to_feature_value(my_struct).unwrap(), expected);
}

#[test]
fn with_numeric_id_field() {
    let my_struct = record(vec![
        ("geometry", point_json(125.6, 10.1)),
        ("name", string("Dinagat Islands")),
        ("age", posint(123)),
        ("id", posint(666)),
    ]);
    let expected = value(
        r#"{"type": "Feature", "id": 666, "geometry": {"type": "Point", "coordinates": [125.6, 10.1]}, "properties": {"name": "Dinagat Islands", "age": 123}}"#,
    );
    assert_eq!(to_feature_value(my_struct).unwrap(), expected);
    let feature = Feature::decode(parse(&render(&JsonValue::Object(wrap_record(record(vec![
        ("geometry", point_json(125.6, 10.1)),
        ("id", posint(666)),
    ])).unwrap()))))
    .unwrap();
    assert_eq!(feature.id, Some(Id::Number(JsonNumber::PosInt(666))));
}

#[test]
fn serialize_feature_collection() {
    let my_structs = vec![
        record(vec![("geometry", point_json(125.6, 10.1)), ("name", string("Dinagat Islands")), ("age", posint(123))]),
        record(vec![("geometry", point_json(2.3, 4.5)), ("name", string("Neverland")), ("age", posint(456))]),
    ];
    let output_string = collection_text(my_structs);
    assert_eq!(value(&output_string), feature_collection());
}

#[test]
fn test_from_feature() {
    let feature = Feature {
        bbox: None,
        geometry: Some(Geometry::new(GeometryValue::new_point(pos(&[125.6, 10.1])))),
        id: None,
        properties: Some(match parse(r#"{"name": "Dinagat Islands", "age": 123}"#) {
            JsonValue::Object(o) => o,
            _ => unreachable!(),
        }),
        foreign_members: None,
    };
    let fields = from_feature(&feature).unwrap();
    let geometry = Geometry::decode(fields.get("geometry").unwrap().deep_clone()).unwrap();
    assert_eq!(geometry, Geometry::new(GeometryValue::new_point(pos(&[125.6, 10.1]))));
    assert_eq!(fields.get("name"), Some(&string("Dinagat Islands")));
    assert_eq!(fields.get("age"), Some(&posint(123)));
}

#[test]
fn de_geometry_field() {
    let text = feature_collection().to_string();
    let records: Vec<JsonObject> = feature_values(&text).into_iter().map(record_fields).collect();
    assert_eq!(records.len(), 2);
    let geometry = |r: &JsonObject| Geometry::decode(r.get("geometry").unwrap().deep_clone()).unwrap();
    assert_eq!(geometry(&records[0]), Geometry::new(GeometryValue::new_point(pos(&[125.6, 10.1]))));
    assert_eq!(records[0].get("name"), Some(&string("Dinagat Islands")));
    assert_eq!(records[0].get("age"), Some(&posint(123)));
    assert_eq!(geometry(&records[1]), Geometry::new(GeometryValue::new_point(pos(&[2.3, 4.5]))));
    assert_eq!(records[1].get("name"), Some(&string("Neverland")));
    assert_eq!(records[1].get("age"), Some(&posint(456)));
}

/// Each record with its age one more and its easting one more.
fn older_and_east(r: JsonObject) -> JsonValue {
    let mut r = r;
    let age = match r.get("age") {
        Some(JsonValue::Number(JsonNumber::PosInt(n))) => *n,
        other => panic!("numeric age expected: {:?}", other),
    };
    r.insert("age".to_string(), posint(age + 1));
    let geometry = Geometry::decode(r.get("geometry").unwrap().deep_clone()).unwrap();
    let moved = match geometry.value {
        GeometryValue::Point { coordinates } => {
            let x = match coordinates.0[0] {
                JsonNumber::Float(bits) => f64::from_bits(bits),
                _ => panic!("float easting expected"),
            };
            let y = match coordinates.0[1] {
                JsonNumber::Float(bits) => f64::from_bits(bits),
                _ => panic!("float northing expected"),
            };
            point_json(x + 1.0, y)
        }
        other => panic!("point expected: {:?}", other),
    };
    r.insert("geometry".to_string(), moved);
    JsonValue::Object(r)
}

fn expected_moved() -> serde_json::Value {
    value(
        r#"{
            "type": "FeatureCollection",
            "features": [
                {
                  "type": "Feature",
                  "geometry": { "type": "Point", "coordinates": [126.6, 10.1] },
                  "properties": { "name": "Dinagat Islands", "age": 124 }
                },
                {
                  "type": "Feature",
                  "geometry": { "type": "Point", "coordinates": [3.3, 4.5] },
                  "properties": { "name": "Neverland", "age": 457 }
                }
            ]
        }"#,
    )
}

#[test]
fn roundtrip() {
    let text = feature_collection().to_string();
    let elements: Vec<JsonValue> =
        feature_values(&text).into_iter().map(record_fields).map(older_and_east).collect();
    assert_eq!(value(&collection_text(elements)), expected_moved());
}

#[test]
fn all_props() {
    let text = feature_collection().to_string();
    let elements: Vec<JsonValue> = feature_values(&text)
        .into_iter()
        .map(record_fields)
        .map(|r| {
            assert!(r.get("age").is_some());
            older_and_east(r)
        })
        .collect();
    assert_eq!(value(&collection_text(elements)), expected_moved());
}
