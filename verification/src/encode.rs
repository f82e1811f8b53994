//! Writing GeoJSON objects as JSON values.
//!
//! Members come in the order in which a document shows them: for a
//! Geometry the bounding box, `"type"`, then `"coordinates"` or
//! `"geometries"`; for a Feature `"type"`, the bounding box, `"geometry"`,
//! `"id"` and `"properties"`; for a FeatureCollection `"type"`, the
//! bounding box and `"features"`. Foreign members follow; one whose key is
//! already there replaces that member's value in place.
use crate::feature::{Feature, FeatureView, Id, IdView};
use crate::feature_collection::{FeatureCollection, FeatureCollectionView};
use crate::geojson::{GeoJson, GeoJsonView};
use crate::geometry::{
    geometries_view, geometry_type_name, lemma_geometries_view, line_view, polygons_view,
    rings_view, value_type, Bbox, Geometry, GeometryValue, GeometryView, LineView, PolygonsView,
    Position, PositionView, RingsView, ValueView,
};
use crate::json::{
    entries_view, lemma_entries_view, lemma_entries_view_push, lemma_values_view,
    lemma_values_view_push, member_insert, values_view, JsonNumber, JsonObject, JsonValue,
    JsonView, Members,
};
use vstd::prelude::*;

verus! {

/// A list of numbers as a JSON array.
pub open spec fn numbers_json(p: PositionView) -> JsonView {
    JsonView::Array(p.map_values(|n: JsonNumber| JsonView::Number(n)))
}

pub open spec fn line_json(l: LineView) -> JsonView {
    JsonView::Array(l.map_values(|p: PositionView| numbers_json(p)))
}

pub open spec fn rings_json(r: RingsView) -> JsonView {
    JsonView::Array(r.map_values(|l: LineView| line_json(l)))
}

pub open spec fn polygons_json(p: PolygonsView) -> JsonView {
    JsonView::Array(p.map_values(|r: RingsView| rings_json(r)))
}

/// The members after setting each member of `extra`, in order.
#[verifier::opaque]
pub open spec fn insert_all(m: Members, extra: Members) -> Members
    decreases extra.len(),
{
    if extra.len() == 0 {
        m
    } else {
        let last = extra.last();
        member_insert(insert_all(m, extra.drop_last()), last.0, last.1)
    }
}

pub open spec fn type_member(name: Seq<char>) -> (Seq<char>, JsonView) {
    ("type"@, JsonView::String(name))
}

/// The `"type"` and `"coordinates"` (or `"geometries"`) members of a value.
pub open spec fn value_members(v: ValueView) -> Members
    decreases v, 0int,
{
    let t = type_member(geometry_type_name(value_type(v)));
    match v {
        ValueView::Point(p) => seq![t, ("coordinates"@, numbers_json(p))],
        ValueView::MultiPoint(l) => seq![t, ("coordinates"@, line_json(l))],
        ValueView::LineString(l) => seq![t, ("coordinates"@, line_json(l))],
        ValueView::MultiLineString(r) => seq![t, ("coordinates"@, rings_json(r))],
        ValueView::Polygon(r) => seq![t, ("coordinates"@, rings_json(r))],
        ValueView::MultiPolygon(p) => seq![t, ("coordinates"@, polygons_json(p))],
        ValueView::GeometryCollection(gs) => seq![
            t,
            ("geometries"@, JsonView::Array(encode_geometries(gs))),
        ],
    }
}

/// The `"bbox"` member, if there is a box.
pub open spec fn bbox_members(b: Option<Seq<JsonNumber>>) -> Members {
    match b {
        Some(b) => seq![("bbox"@, numbers_json(b))],
        None => Seq::empty(),
    }
}

pub open spec fn foreign_or_empty(f: Option<Members>) -> Members {
    match f {
        Some(m) => m,
        None => Seq::empty(),
    }
}

/// A Geometry object as written in a document.
pub open spec fn encode_geometry(g: GeometryView) -> Members
    decreases g, 1int,
{
    insert_all(
        bbox_members(g.bbox) + value_members(g.value),
        foreign_or_empty(g.foreign_members),
    )
}

pub open spec fn encode_geometries(gs: Seq<GeometryView>) -> Seq<JsonView>
    decreases gs, 2int,
{
    if gs.len() == 0 {
        Seq::empty()
    } else {
        seq![JsonView::Object(encode_geometry(gs[0]))] + encode_geometries(
            gs.subrange(1, gs.len() as int),
        )
    }
}

/// A Geometry object with its members in the order of the value first,
/// then the bounding box.
pub open spec fn geometry_object(g: GeometryView) -> Members {
    insert_all(
        value_members(g.value) + bbox_members(g.bbox),
        foreign_or_empty(g.foreign_members),
    )
}

pub open spec fn id_json(i: IdView) -> JsonView {
    match i {
        IdView::String(s) => JsonView::String(s),
        IdView::Number(n) => JsonView::Number(n),
    }
}

#[verifier::opaque]
pub open spec fn geometry_member(g: Option<GeometryView>) -> JsonView {
    match g {
        Some(g) => JsonView::Object(encode_geometry(g)),
        None => JsonView::Null,
    }
}

pub open spec fn id_members(i: Option<IdView>) -> Members {
    match i {
        Some(i) => seq![("id"@, id_json(i))],
        None => Seq::empty(),
    }
}

pub open spec fn properties_member(p: Option<Members>) -> JsonView {
    match p {
        Some(p) => JsonView::Object(p),
        None => JsonView::Null,
    }
}

/// The members a Feature object is written with, before its foreign members.
pub open spec fn feature_base(f: FeatureView) -> Members {
    seq![type_member("Feature"@)] + bbox_members(f.bbox) + seq![
        ("geometry"@, geometry_member(f.geometry)),
    ] + id_members(f.id) + seq![("properties"@, properties_member(f.properties))]
}

/// The members a FeatureCollection object is written with, before its
/// foreign members.
pub open spec fn collection_base(c: FeatureCollectionView) -> Members {
    seq![type_member("FeatureCollection"@)] + bbox_members(c.bbox) + seq![
        ("features"@, JsonView::Array(encode_features(c.features))),
    ]
}

/// A Feature object as written in a document.
pub open spec fn encode_feature(f: FeatureView) -> Members {
    insert_all(feature_base(f), foreign_or_empty(f.foreign_members))
}

#[verifier::opaque]
pub open spec fn encode_features(fs: Seq<FeatureView>) -> Seq<JsonView> {
    fs.map_values(|f: FeatureView| JsonView::Object(encode_feature(f)))
}

/// A FeatureCollection object as written in a document.
pub open spec fn encode_feature_collection(c: FeatureCollectionView) -> Members {
    insert_all(collection_base(c), foreign_or_empty(c.foreign_members))
}

/// A GeoJSON object as a JSON value; a Geometry puts its bounding box after
/// its value.
pub open spec fn encode_geojson(g: GeoJsonView) -> JsonView {
    match g {
        GeoJsonView::Geometry(g) => JsonView::Object(geometry_object(g)),
        GeoJsonView::Feature(f) => JsonView::Object(encode_feature(f)),
        GeoJsonView::FeatureCollection(c) => JsonView::Object(encode_feature_collection(c)),
    }
}

pub proof fn lemma_encode_geometries(gs: Seq<GeometryView>)
    ensures
        encode_geometries(gs).len() == gs.len(),
        forall|i: int|
            0 <= i < gs.len() ==> #[trigger] encode_geometries(gs)[i] == JsonView::Object(
                encode_geometry(gs[i]),
            ),
    decreases gs.len(),
{
    if gs.len() > 0 {
        lemma_encode_geometries(gs.subrange(1, gs.len() as int));
        assert forall|i: int| 0 <= i < gs.len() implies #[trigger] encode_geometries(gs)[i]
            == JsonView::Object(encode_geometry(gs[i])) by {
            if i > 0 {
                assert(gs.subrange(1, gs.len() as int)[i - 1] == gs[i]);
            }
        }
    }
}

/// Writes a list of numbers as a JSON array.
pub fn numbers_to_json(ns: &Vec<JsonNumber>) -> (r: JsonValue)
    ensures
        r@ == numbers_json(ns@),
{
    let mut out: Vec<JsonValue> = Vec::new();
    let mut i: usize = 0;
    proof {
        lemma_values_view(out@);
    }
    while i < ns.len()
        invariant
            i <= ns.len(),
            values_view(out@) == ns@.take(i as int).map_values(|n: JsonNumber| JsonView::Number(n)),
        decreases ns.len() - i,
    {
        proof {
            lemma_values_view_push(out@, JsonValue::Number(ns@[i as int]));
            assert(ns@.take(i + 1).map_values(|n: JsonNumber| JsonView::Number(n)) =~= ns@.take(
                i as int,
            ).map_values(|n: JsonNumber| JsonView::Number(n)).push(JsonView::Number(ns@[i as int])));
        }
        out.push(JsonValue::Number(ns[i]));
        i = i + 1;
    }
    proof {
        assert(ns@.take(ns@.len() as int) =~= ns@);
    }
    JsonValue::Array(out)
}

/// Writes a list of positions as a JSON array.
pub fn line_to_json(l: &Vec<Position>) -> (r: JsonValue)
    ensures
        r@ == line_json(line_view(l@)),
{
    let ghost lv = line_view(l@);
    let mut out: Vec<JsonValue> = Vec::new();
    let mut i: usize = 0;
    proof {
        lemma_values_view(out@);
    }
    while i < l.len()
        invariant
            i <= l.len(),
            lv == line_view(l@),
            values_view(out@) == lv.take(i as int).map_values(|p: PositionView| numbers_json(p)),
        decreases l.len() - i,
    {
        let x = numbers_to_json(&l[i].0);
        proof {
            lemma_values_view_push(out@, x);
            assert(lv.take(i + 1).map_values(|p: PositionView| numbers_json(p)) =~= lv.take(
                i as int,
            ).map_values(|p: PositionView| numbers_json(p)).push(x@));
        }
        out.push(x);
        i = i + 1;
    }
    proof {
        assert(lv.take(lv.len() as int) =~= lv);
    }
    JsonValue::Array(out)
}

/// Writes a list of lists of positions as a JSON array.
pub fn rings_to_json(r: &Vec<Vec<Position>>) -> (res: JsonValue)
    ensures
        res@ == rings_json(rings_view(r@)),
{
    let ghost rv = rings_view(r@);
    let mut out: Vec<JsonValue> = Vec::new();
    let mut i: usize = 0;
    proof {
        lemma_values_view(out@);
    }
    while i < r.len()
        invariant
            i <= r.len(),
            rv == rings_view(r@),
            values_view(out@) == rv.take(i as int).map_values(|l: LineView| line_json(l)),
        decreases r.len() - i,
    {
        let x = line_to_json(&r[i]);
        proof {
            lemma_values_view_push(out@, x);
            assert(rv.take(i + 1).map_values(|l: LineView| line_json(l)) =~= rv.take(
                i as int,
            ).map_values(|l: LineView| line_json(l)).push(x@));
        }
        out.push(x);
        i = i + 1;
    }
    proof {
        assert(rv.take(rv.len() as int) =~= rv);
    }
    JsonValue::Array(out)
}

/// Writes a list of lists of lists of positions as a JSON array.
pub fn polygons_to_json(p: &Vec<Vec<Vec<Position>>>) -> (res: JsonValue)
    ensures
        res@ == polygons_json(polygons_view(p@)),
{
    let ghost pv = polygons_view(p@);
    let mut out: Vec<JsonValue> = Vec::new();
    let mut i: usize = 0;
    proof {
        lemma_values_view(out@);
    }
    while i < p.len()
        invariant
            i <= p.len(),
            pv == polygons_view(p@),
            values_view(out@) == pv.take(i as int).map_values(|r: RingsView| rings_json(r)),
        decreases p.len() - i,
    {
        let x = rings_to_json(&p[i]);
        proof {
            lemma_values_view_push(out@, x);
            assert(pv.take(i + 1).map_values(|r: RingsView| rings_json(r)) =~= pv.take(
                i as int,
            ).map_values(|r: RingsView| rings_json(r)).push(x@));
        }
        out.push(x);
        i = i + 1;
    }
    proof {
        assert(pv.take(pv.len() as int) =~= pv);
    }
    JsonValue::Array(out)
}

/// Sets each member of `extra` on `target`, in order.
pub fn insert_members(target: &mut JsonObject, extra: &JsonObject)
    ensures
        final(target)@ == insert_all(old(target)@, extra@),
{
    let ghost start = target@;
    let ghost ex = extra@;
    proof {
        reveal(insert_all);
        lemma_entries_view(extra.entries@);
        assert(ex.take(0) =~= Seq::<(Seq<char>, JsonView)>::empty());
    }
    let mut i: usize = 0;
    while i < extra.entries.len()
        invariant
            i <= extra.entries.len(),
            ex == extra@,
            ex.len() == extra.entries@.len(),
            forall|j: int|
                0 <= j < extra.entries@.len() ==> #[trigger] ex[j] == (
                    extra.entries@[j].0@,
                    extra.entries@[j].1@,
                ),
            target@ == insert_all(start, ex.take(i as int)),
        decreases extra.entries.len() - i,
    {
        let k = extra.entries[i].0.clone();
        let v = extra.entries[i].1.deep_clone();
        proof {
            reveal(insert_all);
            assert(ex.take(i + 1).drop_last() =~= ex.take(i as int));
            assert(ex.take(i + 1).last() == ex[i as int]);
        }
        target.insert(k, v);
        i = i + 1;
    }
    proof {
        assert(ex.take(ex.len() as int) =~= ex);
    }
}

/// Appends a member whose key is known not to be there yet.
fn push_member(target: &mut JsonObject, key: String, value: JsonValue)
    ensures
        final(target)@ == old(target)@.push((key@, value@)),
{
    proof {
        lemma_entries_view_push(target.entries@, (key, value));
    }
    target.entries.push((key, value));
}

fn type_value(name: &str) -> (r: JsonValue)
    ensures
        r@ == JsonView::String(name@),
{
    JsonValue::String(name.to_string())
}

impl GeometryValue {
    /// The `"type"` and `"coordinates"` (or `"geometries"`) members of this value.
    pub fn to_json_object(&self) -> (r: JsonObject)
        ensures
            r@ == value_members(self@),
        decreases self, 0int,
    {
        proof {
            reveal_strlit("type");
            reveal_strlit("coordinates");
            reveal_strlit("geometries");
        }
        let mut obj = JsonObject::new();
        push_member(&mut obj, "type".to_string(), type_value(self.name_of_type()));
        match self {
            GeometryValue::Point { coordinates } => {
                push_member(&mut obj, "coordinates".to_string(), numbers_to_json(&coordinates.0));
            },
            GeometryValue::MultiPoint { coordinates } => {
                push_member(&mut obj, "coordinates".to_string(), line_to_json(coordinates));
            },
            GeometryValue::LineString { coordinates } => {
                push_member(&mut obj, "coordinates".to_string(), line_to_json(coordinates));
            },
            GeometryValue::MultiLineString { coordinates } => {
                push_member(&mut obj, "coordinates".to_string(), rings_to_json(coordinates));
            },
            GeometryValue::Polygon { coordinates } => {
                push_member(&mut obj, "coordinates".to_string(), rings_to_json(coordinates));
            },
            GeometryValue::MultiPolygon { coordinates } => {
                push_member(&mut obj, "coordinates".to_string(), polygons_to_json(coordinates));
            },
            GeometryValue::GeometryCollection { geometries } => {
                let mut out: Vec<JsonValue> = Vec::new();
                let mut i: usize = 0;
                proof {
                    lemma_geometries_view(geometries@);
                    lemma_encode_geometries(geometries_view(geometries@));
                }
                while i < geometries.len()
                    invariant
                        *self == (GeometryValue::GeometryCollection { geometries: *geometries }),
                        i <= geometries.len(),
                        out@.len() == i,
                        geometries_view(geometries@).len() == geometries@.len(),
                        forall|j: int|
                            0 <= j < geometries@.len() ==> #[trigger] geometries_view(
                                geometries@,
                            )[j] == geometries@[j]@,
                        forall|j: int|
                            0 <= j < i ==> (#[trigger] out@[j])@ == JsonView::Object(
                                encode_geometry(geometries@[j]@),
                            ),
                    decreases geometries.len() - i,
                {
                    proof {
                        assert(decreases_to!(*self => self->geometries));
                        assert(decreases_to!(self->geometries => geometries@));
                        assert(decreases_to!(geometries@ => geometries@[i as int]));
                    }
                    let g = geometries[i].serialize();
                    out.push(JsonValue::Object(g));
                    i = i + 1;
                }
                proof {
                    lemma_values_view(out@);
                    assert(values_view(out@) =~= encode_geometries(geometries_view(geometries@)));
                }
                push_member(&mut obj, "geometries".to_string(), JsonValue::Array(out));
            },
        }
        proof {
            assert(obj@ =~= value_members(self@));
        }
        obj
    }

    /// This value as a JSON object value.
    pub fn to_json_value(&self) -> (r: JsonValue)
        ensures
            r@ == JsonView::Object(value_members(self@)),
    {
        JsonValue::Object(self.to_json_object())
    }
}

fn bbox_object(b: &Option<Bbox>) -> (r: JsonObject)
    ensures
        r@ == bbox_members(crate::geometry::opt_bbox_view(*b)),
{
    proof {
        reveal_strlit("bbox");
    }
    let mut obj = JsonObject::new();
    match b {
        Some(b) => {
            push_member(&mut obj, "bbox".to_string(), numbers_to_json(b));
        },
        None => {},
    }
    proof {
        assert(obj@ =~= bbox_members(crate::geometry::opt_bbox_view(*b)));
    }
    obj
}

fn append_members(target: &mut JsonObject, extra: JsonObject)
    ensures
        final(target)@ == old(target)@ + extra@,
{
    let ghost start = target@;
    let ghost ex = extra@;
    proof {
        lemma_entries_view(extra.entries@);
        assert(start + ex.take(0) =~= start);
    }
    for e in it: extra.entries.into_iter()
        invariant
            ex.len() == it.seq().len(),
            forall|j: int| 0 <= j < it.seq().len() ==> #[trigger] ex[j] == (it.seq()[j].0@, it.seq()[j].1@),
            target@ == start + ex.take(it.index() as int),
    {
        let ghost i = it.index() as int;
        proof {
            assert(start + ex.take(i + 1) =~= (start + ex.take(i)).push(ex[i]));
        }
        let (k, v) = e;
        push_member(target, k, v);
    }
    proof {
        assert(ex.take(ex.len() as int) =~= ex);
    }
}

fn insert_foreign(target: &mut JsonObject, foreign: &Option<JsonObject>)
    ensures
        final(target)@ == insert_all(old(target)@, foreign_or_empty(crate::geometry::opt_object_view(*foreign))),
{
    proof {
        reveal(insert_all);
    }
    match foreign {
        Some(f) => insert_members(target, f),
        None => {},
    }
}

impl Geometry {
    /// This geometry as written in a document: bounding box, value, foreign members.
    pub fn serialize(&self) -> (r: JsonObject)
        ensures
            r@ == encode_geometry(self@),
        decreases self, 1int,
    {
        let mut obj = bbox_object(&self.bbox);
        append_members(&mut obj, self.value.to_json_object());
        insert_foreign(&mut obj, &self.foreign_members);
        obj
    }

    /// This geometry as a JSON object: value, bounding box, foreign members.
    pub fn to_json_object(&self) -> (r: JsonObject)
        ensures
            r@ == geometry_object(self@),
    {
        let mut obj = self.value.to_json_object();
        append_members(&mut obj, bbox_object(&self.bbox));
        insert_foreign(&mut obj, &self.foreign_members);
        obj
    }

    /// This geometry as a JSON object value.
    pub fn to_json_value(&self) -> (r: JsonValue)
        ensures
            r@ == JsonView::Object(geometry_object(self@)),
    {
        JsonValue::Object(self.to_json_object())
    }
}

impl Id {
    /// This identifier as a JSON string or number.
    pub fn to_json_value(&self) -> (r: JsonValue)
        ensures
            r@ == id_json(self@),
    {
        match self {
            Id::String(s) => JsonValue::String(s.clone()),
            Id::Number(n) => JsonValue::Number(*n),
        }
    }
}

impl Feature {
    /// This feature as written in a document.
    pub fn to_json_object(&self) -> (r: JsonObject)
        ensures
            r@ == encode_feature(self@),
    {
        proof {
            reveal_strlit("type");
            reveal_strlit("Feature");
            reveal_strlit("geometry");
            reveal_strlit("id");
            reveal_strlit("properties");
        }
        let mut obj = JsonObject::new();
        push_member(&mut obj, "type".to_string(), type_value("Feature"));
        append_members(&mut obj, bbox_object(&self.bbox));
        let geometry = match &self.geometry {
            Some(g) => JsonValue::Object(g.serialize()),
            None => JsonValue::Null,
        };
        proof {
            reveal(geometry_member);
        }
        push_member(&mut obj, "geometry".to_string(), geometry);
        let ghost before_id = obj@;
        match &self.id {
            Some(i) => push_member(&mut obj, "id".to_string(), i.to_json_value()),
            None => {},
        }
        let properties = match &self.properties {
            Some(p) => JsonValue::Object(p.deep_clone()),
            None => JsonValue::Null,
        };
        push_member(&mut obj, "properties".to_string(), properties);
        proof {
            assert(obj@.drop_last() =~= before_id + id_members(self@.id));
        }
        let ghost base = obj@;
        insert_foreign(&mut obj, &self.foreign_members);
        proof {
            assert(base =~= feature_base(self@));
        }
        obj
    }

    /// This feature as a JSON object value.
    pub fn to_json_value(&self) -> (r: JsonValue)
        ensures
            r@ == JsonView::Object(encode_feature(self@)),
    {
        JsonValue::Object(self.to_json_object())
    }
}

impl FeatureCollection {
    /// This collection as written in a document.
    pub fn to_json_object(&self) -> (r: JsonObject)
        ensures
            r@ == encode_feature_collection(self@),
    {
        proof {
            reveal_strlit("type");
            reveal_strlit("FeatureCollection");
            reveal_strlit("features");
        }
        let mut obj = JsonObject::new();
        push_member(&mut obj, "type".to_string(), type_value("FeatureCollection"));
        append_members(&mut obj, bbox_object(&self.bbox));
        let ghost fv = crate::feature_collection::features_view(self.features@);
        let mut out: Vec<JsonValue> = Vec::new();
        let mut i: usize = 0;
        while i < self.features.len()
            invariant
                i <= self.features.len(),
                fv == crate::feature_collection::features_view(self.features@),
                out@.len() == i,
                forall|j: int|
                    0 <= j < i ==> (#[trigger] out@[j])@ == JsonView::Object(encode_feature(fv[j])),
            decreases self.features.len() - i,
        {
            let f = self.features[i].to_json_object();
            out.push(JsonValue::Object(f));
            i = i + 1;
        }
        proof {
            reveal(encode_features);
            lemma_values_view(out@);
            assert(values_view(out@) =~= encode_features(fv));
        }
        push_member(&mut obj, "features".to_string(), JsonValue::Array(out));
        proof {
            assert(obj@ =~= collection_base(self@));
        }
        insert_foreign(&mut obj, &self.foreign_members);
        obj
    }
}

impl GeoJson {
    /// This object as a JSON value.
    pub fn to_json_value(self) -> (r: JsonValue)
        ensures
            r@ == encode_geojson(self@),
    {
        match self {
            GeoJson::Geometry(g) => JsonValue::Object(g.to_json_object()),
            GeoJson::Feature(f) => JsonValue::Object(f.to_json_object()),
            GeoJson::FeatureCollection(c) => JsonValue::Object(c.to_json_object()),
        }
    }
}

} // verus!
