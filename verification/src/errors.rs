//! Everything that can go wrong when reading, writing and converting GeoJSON.
use crate::feature::{Feature, FeatureView};
use crate::geometry::GeometryType;
use crate::json::{JsonValue, JsonView};
use vstd::prelude::*;

verus! {

/// The three kinds of top-level GeoJSON object.
#[derive(Clone, Copy, Debug, PartialEq, Eq)]
pub enum ObjectKind {
    Geometry,
    Feature,
    FeatureCollection,
}

/// The kinds of JSON value.
#[derive(Clone, Copy, Debug, PartialEq, Eq)]
pub enum JsonKind {
    Null,
    Bool,
    Number,
    String,
    Array,
    Object,
}

/// The kind of a JSON value.
pub open spec fn kind_of(v: JsonView) -> JsonKind {
    match v {
        JsonView::Null => JsonKind::Null,
        JsonView::Bool(_) => JsonKind::Bool,
        JsonView::Number(_) => JsonKind::Number,
        JsonView::String(_) => JsonKind::String,
        JsonView::Array(_) => JsonKind::Array,
        JsonView::Object(_) => JsonKind::Object,
    }
}

/// The kind of a JSON value.
pub fn json_kind(v: &JsonValue) -> (r: JsonKind)
    ensures
        r == kind_of(v@),
{
    match v {
        JsonValue::Null => JsonKind::Null,
        JsonValue::Bool(_) => JsonKind::Bool,
        JsonValue::Number(_) => JsonKind::Number,
        JsonValue::String(_) => JsonKind::String,
        JsonValue::Array(_) => JsonKind::Array,
        JsonValue::Object(_) => JsonKind::Object,
    }
}

/// Why a JSON document is not the GeoJSON object that was asked for.
#[derive(Clone, Copy, Debug, PartialEq, Eq)]
pub enum DecodeError {
    /// Expected a GeoJSON object, found another JSON value.
    ExpectedGeoJsonObject,
    /// Expected a Geometry object, found another JSON value.
    ExpectedGeometryObject,
    /// Expected a Feature object, found another JSON value.
    ExpectedFeatureObject,
    /// Expected a FeatureCollection object, found another JSON value.
    ExpectedFeatureCollectionObject,
    /// The object has no `"type"` member.
    MissingType,
    /// The `"type"` member is not one of the names allowed here.
    UnknownType,
    /// A FeatureCollection has no `"features"` member.
    MissingFeatures,
    /// `"bbox"` is neither null nor an array of numbers.
    InvalidBbox,
    /// `"coordinates"` is a number, not an array.
    ExpectedArrayGotNumber,
    /// `"coordinates"` holds something other than numbers and arrays.
    InvalidCoordinates,
    /// `"coordinates"` nests deeper than a MultiPolygon.
    CoordinatesTooDeep,
    /// `"geometries"` is neither null nor an array.
    InvalidGeometries,
    /// `"features"` is not an array.
    InvalidFeatures,
    /// A Feature's `"id"` is neither a string nor a number.
    InvalidId,
    /// A Feature's `"properties"` is neither null nor an object.
    InvalidProperties,
    /// The text is not a JSON document.
    InvalidJsonText,
    /// A record to be written as a Feature is not a JSON object, but a
    /// value of this kind.
    RecordNotAnObject(JsonKind),
    /// A record to be written as a Feature has no `"geometry"` member.
    RecordWithoutGeometry,
    /// A Feature's `"type"` is not `"Feature"`.
    TypeNotFeature,
    /// A Feature has no `"type"` member.
    MissingFeatureType,
    /// A Feature's `"geometry"`, or its `"properties"`, is not an object.
    UnexpectedGeometry,
}

/// What a decoding error says.
pub open spec fn decode_error_text(e: DecodeError) -> Seq<char> {
    match e {
        DecodeError::ExpectedGeoJsonObject => "expected a GeoJSON object"@,
        DecodeError::ExpectedGeometryObject => "expected a Geometry object"@,
        DecodeError::ExpectedFeatureObject => "expected a Feature object"@,
        DecodeError::ExpectedFeatureCollectionObject => "expected a FeatureCollection object"@,
        DecodeError::MissingType => "missing field `type`"@,
        DecodeError::UnknownType => "unknown GeoJSON type"@,
        DecodeError::MissingFeatures => "missing field `features`"@,
        DecodeError::InvalidBbox => "expected an array of numbers for `bbox`"@,
        DecodeError::ExpectedArrayGotNumber => "expected array, got number"@,
        DecodeError::InvalidCoordinates => "invalid coordinates"@,
        DecodeError::CoordinatesTooDeep => "coordinate nesting too deep"@,
        DecodeError::InvalidGeometries => "expected an array for `geometries`"@,
        DecodeError::InvalidFeatures => "expected an array for `features`"@,
        DecodeError::InvalidId => "Feature 'id' must be a string or a number"@,
        DecodeError::InvalidProperties => "expected an object or null for `properties`"@,
        DecodeError::InvalidJsonText => "invalid JSON text"@,
        DecodeError::RecordNotAnObject(k) => match k {
            JsonKind::Null => "expected JSON object but found `null`"@,
            JsonKind::Bool => "expected JSON object but found `bool`"@,
            JsonKind::Number => "expected JSON object but found `number`"@,
            JsonKind::String => "expected JSON object but found `string`"@,
            JsonKind::Array => "expected JSON object but found `array`"@,
            JsonKind::Object => "expected JSON object"@,
        },
        DecodeError::RecordWithoutGeometry => "missing `geometry` field"@,
        DecodeError::TypeNotFeature => "GeoJSON Feature had a `type` other than \"Feature\""@,
        DecodeError::MissingFeatureType =>
            "A GeoJSON Feature must have a `type: \"Feature\"` field, but found none."@,
        DecodeError::UnexpectedGeometry => "GeoJSON Feature had a unexpected geometry"@,
    }
}

impl DecodeError {
    /// What the error says.
    pub fn message(&self) -> (r: String)
        ensures
            r@ == decode_error_text(*self),
    {
        let text: &str = match self {
            DecodeError::ExpectedGeoJsonObject => "expected a GeoJSON object",
            DecodeError::ExpectedGeometryObject => "expected a Geometry object",
            DecodeError::ExpectedFeatureObject => "expected a Feature object",
            DecodeError::ExpectedFeatureCollectionObject => "expected a FeatureCollection object",
            DecodeError::MissingType => "missing field `type`",
            DecodeError::UnknownType => "unknown GeoJSON type",
            DecodeError::MissingFeatures => "missing field `features`",
            DecodeError::InvalidBbox => "expected an array of numbers for `bbox`",
            DecodeError::ExpectedArrayGotNumber => "expected array, got number",
            DecodeError::InvalidCoordinates => "invalid coordinates",
            DecodeError::CoordinatesTooDeep => "coordinate nesting too deep",
            DecodeError::InvalidGeometries => "expected an array for `geometries`",
            DecodeError::InvalidFeatures => "expected an array for `features`",
            DecodeError::InvalidId => "Feature 'id' must be a string or a number",
            DecodeError::InvalidProperties => "expected an object or null for `properties`",
            DecodeError::InvalidJsonText => "invalid JSON text",
            DecodeError::RecordNotAnObject(k) => match k {
                JsonKind::Null => "expected JSON object but found `null`",
                JsonKind::Bool => "expected JSON object but found `bool`",
                JsonKind::Number => "expected JSON object but found `number`",
                JsonKind::String => "expected JSON object but found `string`",
                JsonKind::Array => "expected JSON object but found `array`",
                JsonKind::Object => "expected JSON object",
            },
            DecodeError::RecordWithoutGeometry => "missing `geometry` field",
            DecodeError::TypeNotFeature => "GeoJSON Feature had a `type` other than \"Feature\"",
            DecodeError::MissingFeatureType =>
                "A GeoJSON Feature must have a `type: \"Feature\"` field, but found none.",
            DecodeError::UnexpectedGeometry => "GeoJSON Feature had a unexpected geometry",
        };
        String::from_str(text)
    }
}

/// The character of a decimal digit.
pub open spec fn digit_char(d: nat) -> char {
    ('0' as nat + d) as char
}

/// The decimal digits of `n`, most significant first, without leading zeros.
pub open spec fn decimal(n: nat) -> Seq<char>
    decreases n,
{
    if n < 10 {
        seq![digit_char(n)]
    } else {
        decimal(n / 10).push(digit_char(n % 10))
    }
}

/// The text of one decimal digit.
fn digit_text(d: usize) -> (r: &'static str)
    requires
        d < 10,
    ensures
        r@ == seq![digit_char(d as nat)],
{
    proof {
        reveal_strlit("0");
        reveal_strlit("1");
        reveal_strlit("2");
        reveal_strlit("3");
        reveal_strlit("4");
        reveal_strlit("5");
        reveal_strlit("6");
        reveal_strlit("7");
        reveal_strlit("8");
        reveal_strlit("9");
    }
    match d {
        0 => "0",
        1 => "1",
        2 => "2",
        3 => "3",
        4 => "4",
        5 => "5",
        6 => "6",
        7 => "7",
        8 => "8",
        _ => "9",
    }
}

/// `n` in decimal.
pub fn decimal_text(n: usize) -> (r: String)
    ensures
        r@ == decimal(n as nat),
    decreases n,
{
    if n < 10 {
        String::from_str(digit_text(n))
    } else {
        let mut s = decimal_text(n / 10);
        s.append(digit_text(n % 10));
        s
    }
}

/// What a position with too few numbers is refused with.
pub open spec fn position_too_short_text(n: nat) -> Seq<char> {
    "A position must contain two or more elements, but got `"@ + decimal(n) + "`"@
}

/// What a position with `n` numbers, too few, is refused with.
pub fn position_too_short_message(n: usize) -> (r: String)
    ensures
        r@ == position_too_short_text(n as nat),
{
    let mut s = String::from_str("A position must contain two or more elements, but got `");
    let digits = decimal_text(n);
    s.append(digits.as_str());
    s.append("`");
    s
}

/// Why a FeatureWriter refused a call.
#[derive(Clone, Copy, Debug, PartialEq, Eq)]
pub enum WriterFault {
    /// A Feature was written after the collection was closed.
    FeatureAfterFinish,
    /// A record was written after the collection was closed.
    RecordAfterFinish,
    /// The collection was closed twice.
    FinishAfterFinish,
}

/// What a writer's refusal says.
pub open spec fn writer_fault_text(f: WriterFault) -> Seq<char> {
    match f {
        WriterFault::FeatureAfterFinish =>
            "cannot write another Feature when writer has already finished"@,
        WriterFault::RecordAfterFinish =>
            "cannot serialize another record when writer has already finished"@,
        WriterFault::FinishAfterFinish => "cannot finish writer - it's already finished"@,
    }
}

impl WriterFault {
    /// What the refusal says.
    pub fn message(&self) -> (r: String)
        ensures
            r@ == writer_fault_text(*self),
    {
        let text: &str = match self {
            WriterFault::FeatureAfterFinish =>
                "cannot write another Feature when writer has already finished",
            WriterFault::RecordAfterFinish =>
                "cannot serialize another record when writer has already finished",
            WriterFault::FinishAfterFinish => "cannot finish writer - it's already finished",
        };
        String::from_str(text)
    }
}

/// Why a coordinate reference system object could not be read.
#[derive(Clone, Copy, Debug, PartialEq, Eq)]
pub enum CrsFault {
    MissingType,
    MissingProperties,
    MissingName,
    MissingLink,
    UnknownType,
    ExpectedString,
    ExpectedObject,
}

/// The error type of std's I/O, carried through from the writer or reader.
#[verifier::external_type_specification]
#[verifier::external_body]
pub struct ExIoError(std::io::Error);

/// Errors which can occur when encoding, decoding, and converting GeoJSON.
#[derive(Debug)]
pub enum Error {
    InvalidWriterState(WriterFault),
    Io(std::io::Error),
    InvalidGeometryConversion { expected_type: GeometryType, found_type: GeometryType },
    FeatureHasNoGeometry(Box<Feature>),
    MalformedJson(DecodeError),
    ExpectedType { expected: ObjectKind, actual: ObjectKind },
    PositionTooShort(usize),
    MalformedCrs(CrsFault),
    GeometryUnknownType(String),
    NotAFeature(String),
    GeoJsonExpectedObject(JsonValue),
    ExpectedObject(JsonValue),
    ExpectedObjectValue(JsonValue),
    ExpectedStringValue(JsonValue),
    ExpectedFloatValue,
    ExpectedArrayValue(String),
    ExpectedProperty(String),
    BboxExpectedArray(JsonValue),
    BboxExpectedNumericValues(JsonValue),
    PropertiesExpectedObjectOrNull(JsonValue),
    FeatureInvalidIdentifierType(JsonValue),
    FeatureInvalidGeometryValue(JsonValue),
    EmptyType,
}

pub type Result<T> = core::result::Result<T, Error>;

/// The mathematical value of an [`Error`].
pub enum ErrorView {
    InvalidWriterState(WriterFault),
    Io,
    InvalidGeometryConversion { expected_type: GeometryType, found_type: GeometryType },
    FeatureHasNoGeometry(FeatureView),
    MalformedJson(DecodeError),
    ExpectedType { expected: ObjectKind, actual: ObjectKind },
    PositionTooShort(usize),
    MalformedCrs(CrsFault),
    GeometryUnknownType(Seq<char>),
    NotAFeature(Seq<char>),
    GeoJsonExpectedObject(JsonView),
    ExpectedObject(JsonView),
    ExpectedObjectValue(JsonView),
    ExpectedStringValue(JsonView),
    ExpectedFloatValue,
    ExpectedArrayValue(Seq<char>),
    ExpectedProperty(Seq<char>),
    BboxExpectedArray(JsonView),
    BboxExpectedNumericValues(JsonView),
    PropertiesExpectedObjectOrNull(JsonView),
    FeatureInvalidIdentifierType(JsonView),
    FeatureInvalidGeometryValue(JsonView),
    EmptyType,
}

impl View for Error {
    type V = ErrorView;

    open spec fn view(&self) -> ErrorView {
        match self {
            Error::InvalidWriterState(f) => ErrorView::InvalidWriterState(*f),
            Error::Io(_) => ErrorView::Io,
            Error::InvalidGeometryConversion { expected_type, found_type } =>
                ErrorView::InvalidGeometryConversion {
                expected_type: *expected_type,
                found_type: *found_type,
            },
            Error::FeatureHasNoGeometry(f) => ErrorView::FeatureHasNoGeometry(f@),
            Error::MalformedJson(e) => ErrorView::MalformedJson(*e),
            Error::ExpectedType { expected, actual } => ErrorView::ExpectedType {
                expected: *expected,
                actual: *actual,
            },
            Error::PositionTooShort(n) => ErrorView::PositionTooShort(*n),
            Error::MalformedCrs(f) => ErrorView::MalformedCrs(*f),
            Error::GeometryUnknownType(s) => ErrorView::GeometryUnknownType(s@),
            Error::NotAFeature(s) => ErrorView::NotAFeature(s@),
            Error::GeoJsonExpectedObject(v) => ErrorView::GeoJsonExpectedObject(v@),
            Error::ExpectedObject(v) => ErrorView::ExpectedObject(v@),
            Error::ExpectedObjectValue(v) => ErrorView::ExpectedObjectValue(v@),
            Error::ExpectedStringValue(v) => ErrorView::ExpectedStringValue(v@),
            Error::ExpectedFloatValue => ErrorView::ExpectedFloatValue,
            Error::ExpectedArrayValue(s) => ErrorView::ExpectedArrayValue(s@),
            Error::ExpectedProperty(s) => ErrorView::ExpectedProperty(s@),
            Error::BboxExpectedArray(v) => ErrorView::BboxExpectedArray(v@),
            Error::BboxExpectedNumericValues(v) => ErrorView::BboxExpectedNumericValues(v@),
            Error::PropertiesExpectedObjectOrNull(v) => ErrorView::PropertiesExpectedObjectOrNull(
                v@,
            ),
            Error::FeatureInvalidIdentifierType(v) => ErrorView::FeatureInvalidIdentifierType(
                v@,
            ),
            Error::FeatureInvalidGeometryValue(v) => ErrorView::FeatureInvalidGeometryValue(v@),
            Error::EmptyType => ErrorView::EmptyType,
        }
    }
}

} // verus!
