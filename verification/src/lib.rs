//! Reading and writing GeoJSON (RFC 7946) documents.
pub mod json;
pub mod number;
pub mod geometry;
pub mod errors;
pub mod feature;
pub mod feature_collection;
pub mod geojson;
pub mod coordinates;
pub mod decode;
pub mod decode_object;
pub mod encode;
pub mod laws;
pub mod writer;
pub mod reader;
pub mod access;
pub mod crs;
pub mod util_spec;
pub mod util;
pub mod object;
pub mod records;
pub mod member_laws;
