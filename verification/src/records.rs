//! Features as flat records: a record's fields are a Feature's properties,
//! beside its geometry.
//!
//! A record is written as a Feature whose `"geometry"` member is the
//! record's `"geometry"` field, whose `"id"` member is its `"id"` field if
//! it has one, and whose properties are the other fields. A Feature is read
//! as a record by putting its geometry and its properties side by side.
use crate::encode::insert_all;
use crate::errors::{json_kind, kind_of, DecodeError, Error, ErrorView};
use crate::feature::{Feature, FeatureView};
use crate::geometry::{opt_object_view, Geometry, GeometryView};
use crate::json::{
    distinct_keys, lemma_entries_view, lemma_lookup_after_insert, lookup, member_insert,
    members_without, JsonObject, JsonValue, JsonView, Members,
};
use crate::util::err_or;
use crate::util_spec::spec_util_geometry;
use vstd::prelude::*;

verus! {

/// What reading the members of a Feature object as a record has found so
/// far: whether `"type"` was `"Feature"`, and the record's fields.
pub open spec fn visit_step(st: (bool, Members), e: (Seq<char>, JsonView)) -> Result<
    (bool, Members),
    DecodeError,
> {
    if e.0 == "type"@ {
        if e.1 == JsonView::String("Feature"@) {
            Ok((true, st.1))
        } else {
            Err(DecodeError::TypeNotFeature)
        }
    } else if e.0 == "geometry"@ {
        match e.1 {
            JsonView::Object(_) => Ok((st.0, member_insert(st.1, "geometry"@, e.1))),
            _ => Err(DecodeError::UnexpectedGeometry),
        }
    } else if e.0 == "properties"@ {
        match e.1 {
            JsonView::Object(p) => Ok((st.0, insert_all(st.1, p))),
            _ => Err(DecodeError::UnexpectedGeometry),
        }
    } else {
        Ok(st)
    }
}

/// The members of a Feature object read in order.
pub open spec fn visit_members(es: Members) -> Result<(bool, Members), DecodeError>
    decreases es.len(),
{
    if es.len() == 0 {
        Ok((false, Seq::empty()))
    } else {
        match visit_members(es.drop_last()) {
            Err(e) => Err(e),
            Ok(st) => visit_step(st, es.last()),
        }
    }
}

/// Once reading the members fails, reading more of them fails the same way.
pub proof fn lemma_visit_error_sticks(m: Members, i: int)
    requires
        0 <= i <= m.len(),
        visit_members(m.take(i)) is Err,
    ensures
        visit_members(m) == visit_members(m.take(i)),
    decreases m.len() - i,
{
    if i < m.len() {
        assert(m.take(i + 1).drop_last() =~= m.take(i));
        lemma_visit_error_sticks(m, i + 1);
    } else {
        assert(m.take(i) =~= m);
    }
}

/// A Feature object read as a record: its geometry and its properties side
/// by side. Its `"type"` must be `"Feature"`, its geometry and properties
/// objects; other members are left out.
pub open spec fn spec_flatten(es: Members) -> Result<Members, DecodeError> {
    match visit_members(es) {
        Err(e) => Err(e),
        Ok((true, fields)) => Ok(fields),
        Ok((false, _)) => Err(DecodeError::MissingFeatureType),
    }
}

/// A record written as a Feature object.
pub open spec fn spec_wrap_record(v: JsonView) -> Result<Members, DecodeError> {
    match v {
        JsonView::Object(m) => match lookup(m, "geometry"@) {
            None => Err(DecodeError::RecordWithoutGeometry),
            Some(g) => {
                let rest = members_without(m, "geometry"@);
                let id: Members = match lookup(rest, "id"@) {
                    Some(i) => seq![("id"@, i)],
                    None => Seq::empty(),
                };
                let props = members_without(rest, "id"@);
                Ok(
                    seq![("type"@, JsonView::String("Feature"@)), ("geometry"@, g)] + id + seq![
                        ("properties"@, JsonView::Object(props)),
                    ],
                )
            },
        },
        _ => Err(DecodeError::RecordNotAnObject(kind_of(v))),
    }
}

/// A record turned into a Feature: its `"geometry"` field read member by
/// member as a Geometry object, the other fields as properties.
pub open spec fn spec_to_feature(v: JsonView) -> Result<FeatureView, ErrorView> {
    match v {
        JsonView::Object(m) => {
            let rest = members_without(m, "geometry"@);
            let geometry: Result<Option<GeometryView>, ErrorView> = match lookup(m, "geometry"@) {
                None => Ok(None),
                Some(JsonView::Object(g)) => match spec_util_geometry(g) {
                    Ok(x) => Ok(Some(x)),
                    Err(e) => Err(e),
                },
                Some(x) => Err(ErrorView::GeoJsonExpectedObject(x)),
            };
            match geometry {
                Err(e) => Err(e),
                Ok(geometry) => Ok(
                    FeatureView {
                        bbox: None,
                        geometry,
                        id: None,
                        properties: Some(rest),
                        foreign_members: None,
                    },
                ),
            }
        },
        _ => Err(ErrorView::ExpectedObjectValue(v)),
    }
}

/// Reads Feature objects as records of type `D`.
pub struct FeatureVisitor<D> {
    marker: core::marker::PhantomData<D>,
}

impl<D> FeatureVisitor<D> {
    pub fn new() -> (r: Self) {
        FeatureVisitor { marker: core::marker::PhantomData }
    }

    /// Reads the members of a Feature object as the fields of a record.
    pub fn visit_map(self, object: JsonObject) -> (r: Result<JsonObject, Error>)
        ensures
            match spec_flatten(object@) {
                Ok(fields) => r matches Ok(o) && o@ == fields,
                Err(e) => r == Err::<JsonObject, Error>(Error::MalformedJson(e)),
            },
    {
        match visit_entries(object.entries) {
            Ok((true, fields)) => Ok(fields),
            Ok((false, _)) => Err(Error::MalformedJson(DecodeError::MissingFeatureType)),
            Err(e) => Err(Error::MalformedJson(e)),
        }
    }
}

/// Reads the members of a Feature object in order.
fn visit_entries(entries: Vec<(String, JsonValue)>) -> (r: Result<(bool, JsonObject), DecodeError>)
    ensures
        match visit_members(crate::json::entries_view(entries@)) {
            Ok(st) => r matches Ok(x) && x.0 == st.0 && x.1@ == st.1,
            Err(e) => r == Err::<(bool, JsonObject), DecodeError>(e),
        },
{
    proof {
        reveal_strlit("type");
        reveal_strlit("geometry");
        reveal_strlit("properties");
        reveal_strlit("Feature");
        lemma_entries_view(entries@);
    }
    let ghost m = crate::json::entries_view(entries@);
    let ghost sa = entries@;
    let mut has_feature_type = false;
    let mut fields = JsonObject::new();
    proof {
        assert(m.take(0) =~= Seq::<(Seq<char>, JsonView)>::empty());
    }
    for entry in it: entries.into_iter()
        invariant
            it.seq() == sa,
            m == crate::json::entries_view(sa),
            m.len() == sa.len(),
            forall|j: int| 0 <= j < sa.len() ==> #[trigger] m[j] == (sa[j].0@, sa[j].1@),
            visit_members(m.take(it.index() as int)) == Ok::<(bool, Members), DecodeError>(
                (has_feature_type, fields@),
            ),
    {
        let ghost i = it.index() as int;
        proof {
            assert(m.take(i + 1).drop_last() =~= m.take(i));
            assert(m.take(i + 1).last() == m[i]);
        }
        let (key, value) = entry;
        if crate::json::key_is(&key, "type") {
            let is_feature = match &value {
                JsonValue::String(s) => crate::json::key_is(s, "Feature"),
                _ => false,
            };
            if is_feature {
                has_feature_type = true;
            } else {
                proof {
                    if value@ == JsonView::String("Feature"@) {
                        assert(value matches JsonValue::String(_));
                    }
                    lemma_visit_error_sticks(m, i + 1);
                }
                return Err(DecodeError::TypeNotFeature);
            }
        } else if crate::json::key_is(&key, "geometry") {
            if value.is_object() {
                fields.insert("geometry".to_string(), value);
            } else {
                proof {
                    lemma_visit_error_sticks(m, i + 1);
                }
                return Err(DecodeError::UnexpectedGeometry);
            }
        } else if crate::json::key_is(&key, "properties") {
            match value {
                JsonValue::Object(properties) => {
                    crate::encode::insert_members(&mut fields, &properties);
                },
                _ => {
                    proof {
                        lemma_visit_error_sticks(m, i + 1);
                    }
                    return Err(DecodeError::UnexpectedGeometry);
                },
            }
        }
    }
    proof {
        assert(m.take(sa.len() as int) =~= m);
    }
    Ok((has_feature_type, fields))
}

/// A record seen as a Feature.
pub struct FeatureWrapper<'t, T> {
    feature: &'t T,
}

impl<'t, T> FeatureWrapper<'t, T> {
    pub closed spec fn inner(&self) -> &'t T {
        self.feature
    }

    pub fn new(feature: &'t T) -> (r: Self)
        ensures
            r.inner() == feature,
    {
        FeatureWrapper { feature }
    }

    /// The record.
    pub fn feature(&self) -> (r: &'t T)
        ensures
            r == self.inner(),
    {
        self.feature
    }
}

/// Writes a record, given as a JSON value, as a Feature object: the
/// record must be an object with a `"geometry"` field.
pub fn wrap_record(record: JsonValue) -> (r: Result<JsonObject, Error>)
    ensures
        match spec_wrap_record(record@) {
            Ok(m) => r matches Ok(o) && o@ == m,
            Err(e) => r == Err::<JsonObject, Error>(Error::MalformedJson(e)),
        },
{
    proof {
        reveal_strlit("type");
        reveal_strlit("geometry");
        reveal_strlit("properties");
        reveal_strlit("Feature");
        reveal_strlit("id");
    }
    let mut json_object = match record {
        JsonValue::Object(o) => o,
        _ => return Err(Error::MalformedJson(DecodeError::RecordNotAnObject(json_kind(&record)))),
    };
    let geometry = match json_object.remove_all("geometry") {
        Some(g) => g,
        None => return Err(Error::MalformedJson(DecodeError::RecordWithoutGeometry)),
    };
    let id = json_object.remove_all("id");
    let mut entries: Vec<(String, JsonValue)> = Vec::new();
    entries.push(("type".to_string(), JsonValue::String("Feature".to_string())));
    entries.push(("geometry".to_string(), geometry));
    match id {
        Some(i) => entries.push(("id".to_string(), i)),
        None => {},
    }
    entries.push(("properties".to_string(), JsonValue::Object(json_object)));
    let out = JsonObject { entries };
    proof {
        lemma_entries_view(out.entries@);
        assert(out@ =~= spec_wrap_record(record@)->Ok_0);
    }
    Ok(out)
}

/// Turns a record, given as a JSON value, into a Feature: its
/// `"geometry"` field, if any, becomes the geometry, the other fields the
/// properties.
pub fn to_feature(record: JsonValue) -> (r: Result<Feature, Error>)
    ensures
        err_or(r, |f: Feature| f@) == spec_to_feature(record@),
{
    let mut js_object = match crate::util::expect_owned_object(record) {
        Ok(o) => o,
        Err(e) => return Err(e),
    };
    let geometry = match js_object.remove_all("geometry") {
        Some(geometry_value) => match Geometry::from_json_value(geometry_value) {
            Ok(g) => Some(g),
            Err(e) => return Err(e),
        },
        None => None,
    };
    Ok(Feature { bbox: None, geometry, id: None, properties: Some(js_object), foreign_members: None })
}

/// A Feature read as a record: written as a Feature object, then its
/// geometry and its properties side by side.
pub fn from_feature(feature: &Feature) -> (r: Result<JsonObject, Error>)
    ensures
        match spec_flatten(crate::encode::encode_feature(feature@)) {
            Ok(fields) => r matches Ok(o) && o@ == fields,
            Err(e) => r == Err::<JsonObject, Error>(Error::MalformedJson(e)),
        },
{
    let visitor: FeatureVisitor<()> = FeatureVisitor::new();
    visitor.visit_map(feature.to_json_object())
}

/// Setting the members of `p` one after another, when no two of them
/// share a key: each key of `p` reads as in `p`, every other as before.
proof fn lemma_lookup_insert_all(m: Members, p: Members, k: Seq<char>)
    requires
        distinct_keys(p),
    ensures
        lookup(insert_all(m, p), k) == (if lookup(p, k) is Some {
            lookup(p, k)
        } else {
            lookup(m, k)
        }),
    decreases p.len(),
{
    reveal(insert_all);
    if p.len() > 0 {
        let init = p.drop_last();
        let last = p.last();
        assert forall|a: int, b: int| 0 <= a < b < init.len() implies init[a].0 != init[b].0 by {
            assert(init[a] == p[a] && init[b] == p[b]);
        }
        lemma_lookup_insert_all(m, init, k);
        lemma_lookup_after_insert(insert_all(m, init), last.0, last.1, k);
        assert(p =~= init + seq![last]);
        crate::laws::lemma_lookup_append(init, seq![last], k);
        crate::laws::lemma_lookup_single(last, k);
        if k == last.0 {
            crate::json::lemma_find_key(init, k);
            if crate::json::find_key(init, k) >= 0 {
                let j = crate::json::find_key(init, k);
                assert(init[j] == p[j]);
                assert(p[j].0 != p[p.len() - 1].0);
            }
        }
    }
}

/// A Feature object of type `"Feature"`, properties `p` and geometry `g`:
/// with its properties before its geometry, or after.
pub open spec fn feature_object_members(p: Members, g: Members, properties_first: bool) -> Members {
    let t = ("type"@, JsonView::String("Feature"@));
    let pm = ("properties"@, JsonView::Object(p));
    let gm = ("geometry"@, JsonView::Object(g));
    if properties_first {
        seq![t, pm, gm]
    } else {
        seq![t, gm, pm]
    }
}

/// Reading a Feature object as a record does not depend on the order of
/// its members: whether its properties come before or after its geometry,
/// it reads as a record in which every property reads as in the
/// properties, and `"geometry"` reads as the geometry unless a property
/// has that name.
pub proof fn lemma_record_fields(p: Members, g: Members, properties_first: bool, k: Seq<char>)
    requires
        distinct_keys(p),
    ensures
        spec_flatten(feature_object_members(p, g, properties_first)) matches Ok(fields) && (k
            != "geometry"@ ==> lookup(fields, k) == lookup(p, k)) && (lookup(p, "geometry"@) is None
            ==> lookup(fields, "geometry"@) == Some(JsonView::Object(g))),
{
    crate::laws::lemma_member_names();
    reveal_strlit("type");
    reveal_strlit("geometry");
    reveal_strlit("properties");
    let m = feature_object_members(p, g, properties_first);
    let t = m[0];
    let empty = Seq::<(Seq<char>, JsonView)>::empty();
    assert(m.drop_last().drop_last().drop_last() =~= empty);
    assert(m.drop_last().drop_last() =~= seq![t]);
    assert(visit_members(empty) == Ok::<(bool, Members), DecodeError>((false, empty)));
    assert(visit_members(seq![t]) == Ok::<(bool, Members), DecodeError>((true, empty))) by {
        assert(seq![t].drop_last() =~= empty);
    }
    let gv = JsonView::Object(g);
    if properties_first {
        let after_props = insert_all(empty, p);
        assert(visit_members(m.drop_last()) == Ok::<(bool, Members), DecodeError>(
            (true, after_props),
        ));
        let fields = member_insert(after_props, "geometry"@, gv);
        assert(visit_members(m) == Ok::<(bool, Members), DecodeError>((true, fields)));
        lemma_lookup_after_insert(after_props, "geometry"@, gv, k);
        lemma_lookup_after_insert(after_props, "geometry"@, gv, "geometry"@);
        lemma_lookup_insert_all(empty, p, k);
        assert(lookup(empty, k) is None);
        assert(spec_flatten(m) == Ok::<Members, DecodeError>(fields));
    } else {
        let after_geometry = member_insert(empty, "geometry"@, gv);
        assert(visit_members(m.drop_last()) == Ok::<(bool, Members), DecodeError>(
            (true, after_geometry),
        ));
        let fields = insert_all(after_geometry, p);
        assert(visit_members(m) == Ok::<(bool, Members), DecodeError>((true, fields)));
        lemma_lookup_insert_all(after_geometry, p, k);
        lemma_lookup_insert_all(after_geometry, p, "geometry"@);
        lemma_lookup_after_insert(empty, "geometry"@, gv, k);
        lemma_lookup_after_insert(empty, "geometry"@, gv, "geometry"@);
        assert(lookup(empty, k) is None);
        assert(spec_flatten(m) == Ok::<Members, DecodeError>(fields));
    }
}

} // verus!
