use geojson::errors::{Error, WriterFault};
use geojson::feature::Feature;
use geojson::geometry::{Geometry, GeometryValue, Position};
use geojson::json::{JsonNumber, JsonObject, JsonValue};
use geojson::reader::{scan_byte, FeatureReader, ScanState, ScanStep};
use geojson::records::wrap_record;
use geojson::writer::FeatureWriter;
use std::io::{BufReader, Read, Write};

fn to_json(v: &serde_json::Value) -> JsonValue {
    match v {
        serde_json::Value::Null => JsonValue::Null,
        serde_json::Value::Bool(b) => JsonValue::Bool(*b),
        serde_json::Value::Number(n) => JsonValue::Number(if let Some(u) = n.as_u64() {
            JsonNumber::PosInt(u)
        } else if let Some(i) = n.as_i64() {
            JsonNumber::NegInt(i)
        } else {
            JsonNumber::Float(n.as_f64().unwrap().to_bits())
        }),
        serde_json::Value::String(s) => JsonValue::String(s.clone()),
        serde_json::Value::Array(a) => JsonValue::Array(a.iter().map(to_json).collect()),
        serde_json::Value::Object(m) => JsonValue::Object(JsonObject {
            entries: m.iter().map(|(k, v)| (k.clone(), to_json(v))).collect(),
        }),
    }
}

fn from_json(v: &JsonValue) -> serde_json::Value {
    match v {
        JsonValue::Null => serde_json::Value::Null,
        JsonValue::Bool(b) => serde_json::Value::Bool(*b),
        JsonValue::Number(JsonNumber::PosInt(u)) => serde_json::Value::from(*u),
        JsonValue::Number(JsonNumber::NegInt(i)) => serde_json::Value::from(*i),
        JsonValue::Number(JsonNumber::Float(b)) => serde_json::Number::from_f64(f64::from_bits(*b))
            .map(serde_json::Value::Number)
            .unwrap_or(serde_json::Value::Null),
        JsonValue::String(s) => serde_json::Value::String(s.clone()),
        JsonValue::Array(a) => serde_json::Value::Array(a.iter().map(from_json).collect()),
        JsonValue::Object(o) => {
            let mut m = serde_json::Map::new();
            for (k, v) in &o.entries {
                m.insert(k.clone(), from_json(v));
            }
            serde_json::Value::Object(m)
        }
    }
}

fn parse(s: &str) -> JsonValue {
    to_json(&serde_json::from_str(s).unwrap())
}

fn render(v: &JsonValue) -> String {
    serde_json::to_string(&from_json(v)).unwrap()
}

fn num(x: f64) -> JsonNumber {
    JsonNumber::Float(x.to_bits())
}

fn pos(xs: &[f64]) -> Position {
    Position(xs.iter().map(|x| num(*x)).collect())
}

/// Reads the Features of a FeatureCollection the way a streaming reader
/// does: scans byte by byte between Features, and reads each Feature as
/// one JSON value from where the scan stopped.
fn read_features(text: &str) -> Vec<Result<Feature, String>> {
    let mut it = FeatureReader::from_reader(BufReader::new(text.as_bytes())).features();
    let mut out = Vec::new();
    while !it.is_done() {
        let mut byte = [0u8];
        if let Err(e) = it.reader_mut().read_exact(&mut byte) {
            out.push(Err(e.to_string()));
            break;
        }
        match it.advance(byte[0]) {
            ScanStep::Skip => {}
            ScanStep::End => break,
            ScanStep::Unexpected(b) => {
                out.push(Err(format!("next byte: {}", b as char)));
                break;
            }
            ScanStep::FeatureFollows => {
                let de = serde_json::Deserializer::from_reader(it.reader_mut());
                match de.into_iter::<serde_json::Value>().next() {
                    Some(Ok(v)) => out.push(Feature::decode(to_json(&v)).map_err(|e| format!("{:?}", e))),
                    Some(Err(e)) => out.push(Err(e.to_string())),
                    None => break,
                }
            }
        }
    }
    out
}

fn fc() -> &'static str {
    r#"
      {
        "type": "FeatureCollection",
        "features": [
          {
            "type": "Feature",
            "geometry": {
              "type": "Point",
              "coordinates": [102.0, 0.5]
            },
            "properties": {
              "prop0": "value0"
            }
          },
          {
            "type": "Feature",
            "geometry": {
              "type": "LineString",
              "coordinates": [
                [102.0, 0.0], [103.0, 1.0], [104.0, 0.0], [105.0, 1.0]
              ]
            },
            "properties": {
              "prop0": "value0",
              "prop1": 0.0
            }
          },
          {
            "type": "Feature",
            "geometry": {
              "type": "Polygon",
              "coordinates": [
                [
                  [100.0, 0.0], [101.0, 0.0], [101.0, 1.0],
                  [100.0, 1.0], [100.0, 0.0]
                ]
              ]
            },
            "properties": {
              "prop0": "value0",
              "prop1": { "this": "that" }
            }
          }
        ]
      }"#
}

#[test]
fn stream_read_test() {
    let mut fi = read_features(fc()).into_iter();
    assert_eq!(
        Geometry {
            bbox: None,
            value: GeometryValue::Point { coordinates: pos(&[102.0, 0.5]) },
            foreign_members: None,
        },
        fi.next().unwrap().unwrap().geometry.unwrap()
    );
    assert_eq!(
        Geometry {
            bbox: None,
            value: GeometryValue::LineString {
                coordinates: vec![
                    pos(&[102.0, 0.0]),
                    pos(&[103.0, 1.0]),
                    pos(&[104.0, 0.0]),
                    pos(&[105.0, 1.0]),
                ]
            },
            foreign_members: None,
        },
        fi.next().unwrap().unwrap().geometry.unwrap()
    );
    assert_eq!(
        Geometry {
            bbox: None,
            value: GeometryValue::Polygon {
                coordinates: vec![vec![
                    pos(&[100.0, 0.0]),
                    pos(&[101.0, 0.0]),
                    pos(&[101.0, 1.0]),
                    pos(&[100.0, 1.0]),
                    pos(&[100.0, 0.0]),
                ]]
            },
            foreign_members: None,
        },
        fi.next().unwrap().unwrap().geometry.unwrap()
    );
    assert!(fi.next().is_none());
}

#[test]
fn type_field_before_features_field() {
    let type_first = r#"
      {
        type: "FeatureCollection",
        features: [
          {
            "type": "Feature",
            "geometry": {
              "type": "Point",
              "coordinates": [1.1, 1.2]
            },
            "properties": { }
          },
          {
            "type": "Feature",
            "geometry": {
              "type": "Point",
              "coordinates": [2.1, 2.2]
            },
            "properties": { }
          }
        ]
      }
    "#;
    let features: Vec<Feature> = read_features(type_first).into_iter().map(Result::unwrap).collect();
    assert_eq!(features.len(), 2);
}

#[test]
fn features_field_before_type_field() {
    let type_first = r#"
      {
        features: [
          {
            "type": "Feature",
            "geometry": {
              "type": "Point",
              "coordinates": [1.1, 1.2]
            },
            "properties": {}
          },
          {
            "type": "Feature",
            "geometry": {
              "type": "Point",
              "coordinates": [2.1, 2.2]
            },
            "properties": { }
          }
        ],
        type: "FeatureCollection"
      }
    "#;
    let features: Vec<Feature> = read_features(type_first).into_iter().map(Result::unwrap).collect();
    assert_eq!(features.len(), 2);
}

#[test]
fn stream_read_stops_at_unexpected_byte() {
    let out = read_features(r#"{"features": [{"type": "Feature", "geometry": null, "properties": null} x"#);
    assert_eq!(out.len(), 2);
    assert!(out[0].is_ok());
    assert_eq!(out[1].as_ref().unwrap_err(), "next byte: x");
}

#[test]
fn stream_read_empty_collection_reads_one_bad_feature() {
    // The `[` announces a Feature, so the `]` after it is read as one.
    let out = read_features(r#"{"type": "FeatureCollection", "features": [ ]}"#);
    assert!(!out.is_empty());
    assert!(out.iter().all(|r| r.is_err()));
}

#[test]
fn scan_skips_whitespace_and_decides_on_brackets() {
    for b in [b' ', b'\t', b'\n', b'\r', 0x0b, 0x0c, 0x85, 0xa0] {
        assert_eq!(scan_byte(ScanState::BeforeFeatures, b), (ScanState::BeforeFeatures, ScanStep::Skip));
        assert_eq!(scan_byte(ScanState::DuringFeatures, b), (ScanState::DuringFeatures, ScanStep::Skip));
    }
    assert_eq!(scan_byte(ScanState::BeforeFeatures, b'{'), (ScanState::BeforeFeatures, ScanStep::Skip));
    assert_eq!(
        scan_byte(ScanState::BeforeFeatures, b'['),
        (ScanState::DuringFeatures, ScanStep::FeatureFollows)
    );
    assert_eq!(
        scan_byte(ScanState::DuringFeatures, b','),
        (ScanState::DuringFeatures, ScanStep::FeatureFollows)
    );
    assert_eq!(scan_byte(ScanState::DuringFeatures, b']'), (ScanState::AfterFeatures, ScanStep::End));
    assert_eq!(
        scan_byte(ScanState::DuringFeatures, b'{'),
        (ScanState::DuringFeatures, ScanStep::Unexpected(b'{'))
    );
}

/// Writes to the underlying writer the bytes the writer handed out.
fn put<W: Write>(writer: &mut FeatureWriter<W>, bytes: Result<Vec<u8>, Error>) -> Result<(), Error> {
    let bytes = bytes?;
    writer.writer_mut().write_all(&bytes).map_err(Error::Io)
}

fn write<W: Write>(writer: &mut FeatureWriter<W>, feature_json: &[u8]) -> Result<(), Error> {
    let bytes = writer.write_feature(feature_json);
    put(writer, bytes)
}

fn finish<W: Write>(writer: &mut FeatureWriter<W>) -> Result<(), Error> {
    let bytes = writer.finish();
    put(writer, bytes)
}

fn flush<W: Write>(writer: &mut FeatureWriter<W>) -> Result<(), Error> {
    writer.writer_mut().flush().map_err(Error::Io)
}

fn collection_value(buffer: &[u8]) -> serde_json::Value {
    serde_json::from_slice(buffer).expect("valid json")
}

#[test]
fn write_empty() {
    let mut buffer: Vec<u8> = vec![];
    {
        let mut writer = FeatureWriter::from_writer(&mut buffer);
        finish(&mut writer).unwrap();
    }
    let expected = serde_json::from_str::<serde_json::Value>(r#"{"type": "FeatureCollection", "features": []}"#).unwrap();
    assert_eq!(collection_value(&buffer), expected);
}

fn expected_two_features() -> serde_json::Value {
    serde_json::from_str(
        r#"{
            "type": "FeatureCollection",
            "features": [
                {
                    "type": "Feature",
                    "geometry": { "type": "Point", "coordinates": [1.1, 1.2] },
                    "properties": { "name": "Mishka", "age": 12 }
                },
                {
                    "type": "Feature",
                    "geometry": { "type": "Point", "coordinates": [2.1, 2.2] },
                    "properties": { "name": "Jane", "age": 22 }
                }
            ]
        }"#,
    )
    .unwrap()
}

fn props(name: &str, age: u64) -> JsonObject {
    let mut props = JsonObject::new();
    props.insert("name".to_string(), JsonValue::String(name.to_string()));
    props.insert("age".to_string(), JsonValue::Number(JsonNumber::PosInt(age)));
    props
}

#[test]
fn write_feature() {
    let mut buffer: Vec<u8> = vec![];
    {
        let mut writer = FeatureWriter::from_writer(&mut buffer);
        let record_1 = Feature {
            bbox: None,
            geometry: Some(Geometry::new(GeometryValue::new_point(pos(&[1.1, 1.2])))),
            id: None,
            properties: Some(props("Mishka", 12)),
            foreign_members: None,
        };
        let record_2 = Feature {
            bbox: None,
            geometry: Some(Geometry::new(GeometryValue::new_point(pos(&[2.1, 2.2])))),
            id: None,
            properties: Some(props("Jane", 22)),
            foreign_members: None,
        };
        write(&mut writer, render(&record_1.to_json_value()).as_bytes()).unwrap();
        write(&mut writer, render(&record_2.to_json_value()).as_bytes()).unwrap();
        flush(&mut writer).unwrap();
        finish(&mut writer).unwrap();
    }
    assert_eq!(collection_value(&buffer), expected_two_features());
}

fn record(x: f64, y: f64, name: &str, age: u64) -> JsonValue {
    let geometry = Geometry::new(GeometryValue::new_point(pos(&[x, y])));
    let mut fields = JsonObject::new();
    fields.insert("geometry".to_string(), JsonValue::Object(geometry.serialize()));
    fields.insert("name".to_string(), JsonValue::String(name.to_string()));
    fields.insert("age".to_string(), JsonValue::Number(JsonNumber::PosInt(age)));
    JsonValue::Object(fields)
}

#[test]
fn serialize() {
    let mut buffer: Vec<u8> = vec![];
    {
        let mut writer = FeatureWriter::from_writer(&mut buffer);
        let record_1 = wrap_record(record(1.1, 1.2, "Mishka", 12)).unwrap();
        let record_2 = wrap_record(record(2.1, 2.2, "Jane", 22)).unwrap();
        write(&mut writer, render(&JsonValue::Object(record_1)).as_bytes()).unwrap();
        write(&mut writer, render(&JsonValue::Object(record_2)).as_bytes()).unwrap();
        flush(&mut writer).unwrap();
        finish(&mut writer).unwrap();
    }
    assert_eq!(collection_value(&buffer), expected_two_features());
}

#[test]
fn writer_frames_features_exactly() {
    let mut buffer: Vec<u8> = vec![];
    {
        let mut writer = FeatureWriter::from_writer(&mut buffer);
        assert!(!writer.is_finished());
        write(&mut writer, b"A").unwrap();
        write(&mut writer, b"B").unwrap();
        finish(&mut writer).unwrap();
        assert!(writer.is_finished());
    }
    assert_eq!(
        String::from_utf8(buffer).unwrap(),
        r#"{ "type": "FeatureCollection", "features": [A,B]}"#
    );
}

#[test]
fn writer_refuses_after_finish() {
    let mut buffer: Vec<u8> = vec![];
    {
        let mut writer = FeatureWriter::from_writer(&mut buffer);
        finish(&mut writer).unwrap();
        assert!(matches!(
            write(&mut writer, b"{}"),
            Err(Error::InvalidWriterState(WriterFault::FeatureAfterFinish))
        ));
        assert!(matches!(finish(&mut writer), Err(Error::InvalidWriterState(WriterFault::FinishAfterFinish))));
    }
    assert_eq!(String::from_utf8(buffer).unwrap(), r#"{ "type": "FeatureCollection", "features": []}"#);
}

#[test]
fn record_without_geometry_is_refused() {
    let mut fields = JsonObject::new();
    fields.insert("name".to_string(), JsonValue::String("x".to_string()));
    assert!(wrap_record(JsonValue::Object(fields)).is_err());
    assert!(wrap_record(JsonValue::Bool(true)).is_err());
}

#[test]
fn reader_reads_back_what_the_writer_wrote() {
    let features = vec![
        Feature {
            bbox: None,
            geometry: Some(Geometry::new(GeometryValue::new_point(pos(&[1.1, 1.2])))),
            id: None,
            properties: Some(props("Mishka", 12)),
            foreign_members: None,
        },
        Feature {
            bbox: None,
            geometry: Some(Geometry::new(GeometryValue::new_line_string(vec![pos(&[0.0, 0.0]), pos(&[1.0, 1.0])]))),
            id: None,
            properties: None,
            foreign_members: None,
        },
    ];
    let mut buffer: Vec<u8> = vec![];
    {
        let mut writer = FeatureWriter::from_writer(&mut buffer);
        for f in &features {
            write(&mut writer, render(&f.to_json_value()).as_bytes()).unwrap();
        }
        finish(&mut writer).unwrap();
    }
    let text = String::from_utf8(buffer).unwrap();
    let read: Vec<Feature> = read_features(&text).into_iter().map(Result::unwrap).collect();
    assert_eq!(read, features);
}

#[test]
fn writer_hands_out_the_framing_chunks() {
    let mut writer = FeatureWriter::from_writer(Vec::<u8>::new());
    let first = writer.write_feature(b"A").unwrap();
    assert_eq!(first, br#"{ "type": "FeatureCollection", "features": [A"#.to_vec());
    let second = writer.serialize(b"B").unwrap();
    assert_eq!(second, b",B".to_vec());
    assert_eq!(writer.finish().unwrap(), b"]}".to_vec());
    assert!(matches!(writer.serialize(b"C"), Err(Error::InvalidWriterState(WriterFault::RecordAfterFinish))));
    assert!(matches!(writer.write_feature(b"C"), Err(Error::InvalidWriterState(WriterFault::FeatureAfterFinish))));
    assert!(writer.writer_mut().is_empty());

    let mut empty = FeatureWriter::from_writer(Vec::<u8>::new());
    assert_eq!(empty.finish().unwrap(), br#"{ "type": "FeatureCollection", "features": []}"#.to_vec());
}

#[test]
fn writer_fault_messages() {
    assert_eq!(
        WriterFault::FeatureAfterFinish.message(),
        "cannot write another Feature when writer has already finished"
    );
    assert_eq!(
        WriterFault::RecordAfterFinish.message(),
        "cannot serialize another record when writer has already finished"
    );
    assert_eq!(WriterFault::FinishAfterFinish.message(), "cannot finish writer - it's already finished");
}
