# geojson

Reading and writing GeoJSON (RFC 7946) with its logic verified by Verus.

## Layout

- `src/` — the verified library.
  - `json.rs`: the JSON data model (`JsonValue`, `JsonObject` with ordered,
    swap-on-remove members) and its laws of reading after writing.
  - `number.rs`: JSON integers rounded to binary64 values, as coordinates
    and bounding boxes hold them.
  - `geometry.rs`, `feature.rs`, `feature_collection.rs`, `geojson.rs`,
    `object.rs`, `crs.rs`: the GeoJSON objects and their views.
  - `coordinates.rs`, `decode.rs`, `decode_object.rs`: reading a JSON value as
    a Geometry, Feature, FeatureCollection or GeoJSON object.
  - `util.rs`, `util_spec.rs`: the member-by-member reader.
  - `encode.rs`: writing the objects as JSON values.
  - `laws.rs`: reading back what was written gives the object again.
  - `member_laws.rs`: the member-by-member reader gives it back too, but
    for the order of foreign members.
  - `records.rs`: flat records (geometry beside properties) as Features.
  - `writer.rs`, `reader.rs`: the framing of a FeatureCollection written or
    read one Feature at a time; the writer decides the bytes, its caller
    writes them, as the reader's caller reads the bytes it scans.
  - `access.rs`: read access to the parts of a geometry and its dimensions.
  - `errors.rs`: the error type and the texts its errors say.
- `tests/` — tests of the library on concrete documents.
- `app/` — what stays outside the verified library: JSON text through
  serde_json, the stream loops and the writes and flushes of the writer, serde helpers for records, floating-point
  work (bounding-box union, geo-types conversions) and the geo-traits
  interfaces.
