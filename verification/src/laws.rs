//! Laws of reading and writing GeoJSON: what is written reads back as the
//! value it was written from.
use crate::coordinates::{
    all_numbers, numbers_of, spec_coordinates, spec_element, spec_line, spec_polygons,
    spec_position, spec_rings, CoordinatesView, ElementView,
};
use crate::decode::{
    feature_collection_keys, feature_keys, geojson_keys, geometry_keys, normalize, spec_bbox,
    spec_decode_geometries, spec_decode_geometry, spec_geometry_value, spec_opt_coordinates,
};
use crate::decode_object::{
    geojson_type_from_name, geometry_kind, spec_assemble, spec_decode_feature,
    spec_decode_feature_collection, spec_decode_features, spec_decode_geojson, spec_geojson_type,
    spec_id, spec_opt_features, spec_opt_geometries, spec_opt_geometry, spec_properties,
    GeoJsonType,
};
use crate::encode::{
    bbox_members, encode_feature, encode_feature_collection, encode_features, encode_geojson,
    encode_geometries, encode_geometry, foreign_or_empty, geometry_object, id_json, insert_all,
    line_json, numbers_json, polygons_json, rings_json, type_member, value_members,
    geometry_member, id_members, properties_member, feature_base, collection_base,
};
use crate::feature::{FeatureView, IdView};
use crate::feature_collection::FeatureCollectionView;
use crate::geojson::GeoJsonView;
use crate::geometry::{
    geometry_type_name, type_from_name, GeometryType, GeometryView, LineView, PolygonsView,
    PositionView, RingsView, ValueView,
};
use crate::json::{
    distinct_keys, find_key, lemma_find_key, lookup, member_insert, other_members, JsonNumber,
    JsonView, Members,
};
use vstd::prelude::*;

verus! {

/// The names of the members that GeoJSON defines are distinct.
pub proof fn lemma_member_names()
    ensures
        "type"@ != "bbox"@,
        "type"@ != "coordinates"@,
        "type"@ != "geometries"@,
        "type"@ != "features"@,
        "type"@ != "id"@,
        "type"@ != "geometry"@,
        "type"@ != "properties"@,
        "bbox"@ != "coordinates"@,
        "bbox"@ != "geometries"@,
        "bbox"@ != "features"@,
        "bbox"@ != "id"@,
        "bbox"@ != "geometry"@,
        "bbox"@ != "properties"@,
        "coordinates"@ != "geometries"@,
        "coordinates"@ != "features"@,
        "coordinates"@ != "id"@,
        "coordinates"@ != "geometry"@,
        "coordinates"@ != "properties"@,
        "geometries"@ != "features"@,
        "geometries"@ != "id"@,
        "geometries"@ != "geometry"@,
        "geometries"@ != "properties"@,
        "features"@ != "id"@,
        "features"@ != "geometry"@,
        "features"@ != "properties"@,
        "id"@ != "geometry"@,
        "id"@ != "properties"@,
        "geometry"@ != "properties"@,
{
    reveal_strlit("type");
    reveal_strlit("bbox");
    reveal_strlit("coordinates");
    reveal_strlit("geometries");
    reveal_strlit("features");
    reveal_strlit("id");
    reveal_strlit("geometry");
    reveal_strlit("properties");
    assert("type"@.len() == 4 && "type"@[0] == 't');
    assert("bbox"@.len() == 4 && "bbox"@[0] == 'b');
    assert("coordinates"@.len() == 11 && "coordinates"@[0] == 'c');
    assert("geometries"@.len() == 10 && "geometries"@[0] == 'g');
    assert("features"@.len() == 8 && "features"@[0] == 'f');
    assert("id"@.len() == 2 && "id"@[0] == 'i');
    assert("geometry"@.len() == 8 && "geometry"@[0] == 'g');
    assert("properties"@.len() == 10 && "properties"@[0] == 'p');
}

/// Each geometry kind reads back from its name.
pub proof fn lemma_type_names(t: GeometryType)
    ensures
        type_from_name(geometry_type_name(t)) == Some(t),
{
    reveal_strlit("Point");
    reveal_strlit("MultiPoint");
    reveal_strlit("LineString");
    reveal_strlit("MultiLineString");
    reveal_strlit("Polygon");
    reveal_strlit("MultiPolygon");
    reveal_strlit("GeometryCollection");
    assert("Point"@.len() == 5 && "Point"@[0] == 'P');
    assert("MultiPoint"@.len() == 10 && "MultiPoint"@[0] == 'M');
    assert("LineString"@.len() == 10 && "LineString"@[0] == 'L');
    assert("MultiLineString"@.len() == 15 && "MultiLineString"@[0] == 'M');
    assert("Polygon"@.len() == 7 && "Polygon"@[0] == 'P');
    assert("MultiPolygon"@.len() == 12 && "MultiPolygon"@[0] == 'M');
    assert("GeometryCollection"@.len() == 18 && "GeometryCollection"@[0] == 'G');
}

proof fn lemma_find_key_append(a: Members, b: Members, k: Seq<char>)
    ensures
        find_key(a + b, k) == (if find_key(a, k) >= 0 {
            find_key(a, k)
        } else if find_key(b, k) >= 0 {
            a.len() + find_key(b, k)
        } else {
            -1
        }),
    decreases a.len(),
{
    if a.len() == 0 {
        assert(a + b =~= b);
    } else {
        assert((a + b)[0] == a[0]);
        if a[0].0 != k {
            assert((a + b).subrange(1, (a + b).len() as int) =~= a.subrange(1, a.len() as int) + b);
            lemma_find_key_append(a.subrange(1, a.len() as int), b, k);
        }
    }
}

/// A lookup in two member lists one after the other finds the first list's
/// member, else the second's.
pub proof fn lemma_lookup_append(a: Members, b: Members, k: Seq<char>)
    ensures
        lookup(a + b, k) == (if lookup(a, k) is Some {
            lookup(a, k)
        } else {
            lookup(b, k)
        }),
{
    lemma_find_key_append(a, b, k);
    lemma_find_key(a, k);
    lemma_find_key(b, k);
    if find_key(a, k) < 0 && find_key(b, k) >= 0 {
        assert((a + b)[a.len() + find_key(b, k)] == b[find_key(b, k)]);
    }
}

pub proof fn lemma_lookup_single(x: (Seq<char>, JsonView), k: Seq<char>)
    ensures
        lookup(seq![x], k) == (if x.0 == k {
            Some(x.1)
        } else {
            None
        }),
{
    assert(seq![x].subrange(1, 1) =~= Seq::<(Seq<char>, JsonView)>::empty());
    assert(find_key(Seq::<(Seq<char>, JsonView)>::empty(), k) == -1);
    assert(seq![x][0] == x);
}

pub proof fn lemma_lookup_pair(a: (Seq<char>, JsonView), b: (Seq<char>, JsonView), k: Seq<char>)
    ensures
        lookup(seq![a, b], k) == (if a.0 == k {
            Some(a.1)
        } else if b.0 == k {
            Some(b.1)
        } else {
            None
        }),
{
    assert(seq![a, b] =~= seq![a] + seq![b]);
    lemma_lookup_append(seq![a], seq![b], k);
    lemma_lookup_single(a, k);
    lemma_lookup_single(b, k);
}

/// Every key of `m` is one of `keys`.
pub open spec fn keys_within(m: Members, keys: Seq<Seq<char>>) -> bool {
    forall|j: int| 0 <= j < m.len() ==> keys.contains(#[trigger] m[j].0)
}

/// No two members of `m` share a key, and no key of `m` is one of `keys`.
pub open spec fn fresh_members(m: Members, keys: Seq<Seq<char>>) -> bool {
    &&& distinct_keys(m)
    &&& forall|j: int| 0 <= j < m.len() ==> !keys.contains(#[trigger] m[j].0)
}

pub proof fn lemma_keys_within_append(a: Members, b: Members, keys: Seq<Seq<char>>)
    requires
        keys_within(a, keys),
        keys_within(b, keys),
    ensures
        keys_within(a + b, keys),
{
    assert forall|j: int| 0 <= j < (a + b).len() implies keys.contains(#[trigger] (a + b)[j].0) by {
        if j < a.len() {
            assert((a + b)[j] == a[j]);
        } else {
            assert((a + b)[j] == b[j - a.len()]);
        }
    }
}

pub proof fn lemma_keys_within_single(x: (Seq<char>, JsonView), keys: Seq<Seq<char>>, i: int)
    requires
        0 <= i < keys.len(),
        keys[i] == x.0,
    ensures
        keys_within(seq![x], keys),
{
    assert forall|j: int| 0 <= j < seq![x].len() implies keys.contains(#[trigger] seq![x][j].0) by {
        assert(seq![x][j] == x);
    }
}

proof fn lemma_keys_within_empty(keys: Seq<Seq<char>>)
    ensures
        keys_within(Seq::<(Seq<char>, JsonView)>::empty(), keys),
{
}

pub proof fn lemma_absent_key(m: Members, keys: Seq<Seq<char>>, k: Seq<char>)
    requires
        forall|j: int| 0 <= j < m.len() ==> !keys.contains(#[trigger] m[j].0),
        keys.contains(k),
    ensures
        lookup(m, k) is None,
        find_key(m, k) < 0,
{
    lemma_find_key(m, k);
    if find_key(m, k) >= 0 {
        assert(!keys.contains(m[find_key(m, k)].0));
    }
}

proof fn lemma_insert_all_fresh(base: Members, f: Members, keys: Seq<Seq<char>>)
    requires
        keys_within(base, keys),
        fresh_members(f, keys),
    ensures
        insert_all(base, f) == base + f,
    decreases f.len(),
{
    reveal(insert_all);
    if f.len() > 0 {
        let init = f.drop_last();
        let last = f.last();
        assert forall|j: int| 0 <= j < init.len() implies !keys.contains(#[trigger] init[j].0) by {
            assert(init[j] == f[j]);
        }
        assert(fresh_members(init, keys));
        lemma_insert_all_fresh(base, init, keys);
        let m = base + init;
        lemma_find_key(m, last.0);
        if find_key(m, last.0) >= 0 {
            let i = find_key(m, last.0);
            if i < base.len() {
                assert(m[i] == base[i]);
                assert(keys.contains(base[i].0));
                assert(!keys.contains(f[f.len() - 1].0));
            } else {
                assert(m[i] == init[i - base.len()]);
                assert(init[i - base.len()] == f[i - base.len()]);
            }
        }
        assert(m.push(last) =~= base + f);
    } else {
        assert(base + f =~= base);
    }
}

proof fn lemma_other_members_reserved(m: Members, keys: Seq<Seq<char>>)
    requires
        keys_within(m, keys),
    ensures
        other_members(m, keys) == Seq::<(Seq<char>, JsonView)>::empty(),
    decreases m.len(),
{
    if m.len() > 0 {
        let init = m.drop_last();
        assert forall|j: int| 0 <= j < init.len() implies keys.contains(#[trigger] init[j].0) by {
            assert(init[j] == m[j]);
        }
        lemma_other_members_reserved(init, keys);
        assert(init.push(m.last()) =~= m);
        init.lemma_filter_push(m.last(), |e: (Seq<char>, JsonView)| !keys.contains(e.0));
        assert(keys.contains(m[m.len() - 1].0));
    }
}

proof fn lemma_other_members_fresh(m: Members, keys: Seq<Seq<char>>)
    requires
        forall|j: int| 0 <= j < m.len() ==> !keys.contains(#[trigger] m[j].0),
    ensures
        other_members(m, keys) == m,
    decreases m.len(),
{
    if m.len() > 0 {
        let init = m.drop_last();
        assert forall|j: int| 0 <= j < init.len() implies !keys.contains(#[trigger] init[j].0) by {
            assert(init[j] == m[j]);
        }
        lemma_other_members_fresh(init, keys);
        assert(init.push(m.last()) =~= m);
        init.lemma_filter_push(m.last(), |e: (Seq<char>, JsonView)| !keys.contains(e.0));
        assert(!keys.contains(m[m.len() - 1].0));
    } else {
        reveal(Seq::filter);
    }
}

/// The members of a written object: its own members, each keyed by one of
/// `keys`, followed by foreign members that are keyed by none of them.
pub proof fn lemma_written_members(base: Members, f: Members, keys: Seq<Seq<char>>)
    requires
        keys_within(base, keys),
        fresh_members(f, keys),
    ensures
        insert_all(base, f) == base + f,
        other_members(base + f, keys) == f,
{
    lemma_insert_all_fresh(base, f, keys);
    Seq::filter_distributes_over_add(base, f, |e: (Seq<char>, JsonView)| !keys.contains(e.0));
    lemma_other_members_reserved(base, keys);
    lemma_other_members_fresh(f, keys);
    assert(Seq::<(Seq<char>, JsonView)>::empty() + f =~= f);
}

/// A member that an object defines is found among its own members, not its
/// foreign ones.
pub proof fn lemma_written_lookup(base: Members, f: Members, keys: Seq<Seq<char>>, i: int)
    requires
        fresh_members(f, keys),
        0 <= i < keys.len(),
    ensures
        lookup(base + f, keys[i]) == lookup(base, keys[i]),
{
    lemma_lookup_append(base, f, keys[i]);
    lemma_absent_key(f, keys, keys[i]);
}

/// Every number is a binary64 value, as the numbers of positions and
/// bounding boxes are once read.
pub open spec fn binary64s(ns: Seq<JsonNumber>) -> bool {
    forall|i: int| 0 <= i < ns.len() ==> (#[trigger] ns[i]) is Float
}

/// Every number of every position of a list is a binary64 value.
pub open spec fn line_binary64s(l: LineView) -> bool {
    forall|i: int| 0 <= i < l.len() ==> binary64s(#[trigger] l[i])
}

/// Every number of every position of a list of lists is a binary64 value.
pub open spec fn rings_binary64s(r: RingsView) -> bool {
    forall|i: int| 0 <= i < r.len() ==> line_binary64s(#[trigger] r[i])
}

/// Every number of every position of a list of lists of lists is a
/// binary64 value.
pub open spec fn polygons_binary64s(p: PolygonsView) -> bool {
    forall|i: int| 0 <= i < p.len() ==> rings_binary64s(#[trigger] p[i])
}

/// No bounding box, or one of binary64 values.
pub open spec fn bbox_ok(b: Option<Seq<JsonNumber>>) -> bool {
    match b {
        Some(x) => binary64s(x),
        None => true,
    }
}

/// A list of positions reads back as one: it is empty or its first
/// position has a number (the first element of an array fixes its depth),
/// and its numbers are binary64 values.
pub open spec fn line_ok(l: LineView) -> bool {
    &&& l.len() == 0 || l[0].len() > 0
    &&& line_binary64s(l)
}

/// A list of lists of positions reads back as one.
pub open spec fn rings_ok(r: RingsView) -> bool {
    &&& r.len() == 0 || r[0].len() == 0 || r[0][0].len() > 0
    &&& rings_binary64s(r)
}

/// A list of lists of lists of positions reads back as one.
pub open spec fn polygons_ok(p: PolygonsView) -> bool {
    &&& p.len() == 0 || (p[0].len() > 0 && (p[0][0].len() == 0 || p[0][0][0].len() > 0))
    &&& polygons_binary64s(p)
}

pub proof fn lemma_numbers_read(p: PositionView)
    requires
        binary64s(p),
    ensures
        spec_position(numbers_json(p)) == Some(p),
{
    let a = p.map_values(|n: JsonNumber| JsonView::Number(n));
    assert(all_numbers(a));
    assert forall|i: int| 0 <= i < p.len() implies numbers_of(a)[i] == p[i] by {
        assert(p[i] is Float);
    }
    assert(numbers_of(a) =~= p);
}

pub proof fn lemma_line_read(l: LineView)
    requires
        line_binary64s(l),
    ensures
        spec_line(line_json(l)) == Some(l),
{
    let a = l.map_values(|p: PositionView| numbers_json(p));
    assert forall|i: int| 0 <= i < a.len() implies #[trigger] spec_position(a[i]) == Some(l[i]) by {
        lemma_numbers_read(l[i]);
    }
    assert(a.map_values(|x: JsonView| spec_position(x)->0) =~= l);
}

pub proof fn lemma_rings_read(r: RingsView)
    requires
        rings_binary64s(r),
    ensures
        spec_rings(rings_json(r)) == Some(r),
{
    let a = r.map_values(|l: LineView| line_json(l));
    assert forall|i: int| 0 <= i < a.len() implies #[trigger] spec_line(a[i]) == Some(r[i]) by {
        lemma_line_read(r[i]);
    }
    assert(a.map_values(|x: JsonView| spec_line(x)->0) =~= r);
}

pub proof fn lemma_polygons_read(p: PolygonsView)
    requires
        polygons_binary64s(p),
    ensures
        spec_polygons(polygons_json(p)) == Some(p),
{
    let a = p.map_values(|r: RingsView| rings_json(r));
    assert forall|i: int| 0 <= i < a.len() implies #[trigger] spec_rings(a[i]) == Some(p[i]) by {
        lemma_rings_read(p[i]);
    }
    assert(a.map_values(|x: JsonView| spec_rings(x)->0) =~= p);
}

pub proof fn lemma_numbers_element(p: PositionView)
    requires
        binary64s(p),
    ensures
        spec_element(numbers_json(p)) == (if p.len() > 0 {
            Ok::<ElementView, crate::errors::DecodeError>(ElementView::Coords(CoordinatesView::ZeroDimensional(p)))
        } else {
            Ok(ElementView::Coords(CoordinatesView::OneDimensional(Seq::empty())))
        }),
{
    let a = p.map_values(|n: JsonNumber| JsonView::Number(n));
    if p.len() > 0 {
        let rest = a.subrange(1, a.len() as int);
        assert(p[0] is Float);
        assert(a[0] == JsonView::Number(p[0]));
        assert(spec_element(a[0]) == Ok::<ElementView, crate::errors::DecodeError>(
            ElementView::Number(p[0]),
        ));
        assert(all_numbers(rest));
        assert forall|i: int| 0 <= i < rest.len() implies numbers_of(rest)[i] == p[i + 1] by {
            assert(p[i + 1] is Float);
        }
        assert(seq![p[0]] + numbers_of(rest) =~= p);
    }
}

pub proof fn lemma_line_element(l: LineView)
    requires
        line_ok(l),
    ensures
        spec_element(line_json(l)) == Ok::<ElementView, crate::errors::DecodeError>(
            ElementView::Coords(CoordinatesView::OneDimensional(l)),
        ),
{
    let a = l.map_values(|p: PositionView| numbers_json(p));
    if l.len() > 0 {
        let rest = a.subrange(1, a.len() as int);
        let tail = l.subrange(1, l.len() as int);
        assert(a[0] == numbers_json(l[0]));
        assert(binary64s(l[0]));
        lemma_numbers_element(l[0]);
        assert forall|i: int| 0 <= i < tail.len() implies binary64s(#[trigger] tail[i]) by {
            assert(tail[i] == l[i + 1]);
        }
        assert(JsonView::Array(rest) == line_json(tail)) by {
            assert(rest =~= tail.map_values(|p: PositionView| numbers_json(p)));
        }
        lemma_line_read(tail);
        assert(seq![l[0]] + tail =~= l);
    } else {
        assert(l =~= Seq::<PositionView>::empty());
    }
}

pub proof fn lemma_rings_element(r: RingsView)
    requires
        rings_ok(r),
    ensures
        spec_element(rings_json(r)) == (if r.len() > 0 {
            Ok::<ElementView, crate::errors::DecodeError>(ElementView::Coords(CoordinatesView::TwoDimensional(r)))
        } else {
            Ok(ElementView::Coords(CoordinatesView::OneDimensional(Seq::empty())))
        }),
{
    let a = r.map_values(|l: LineView| line_json(l));
    if r.len() > 0 {
        let rest = a.subrange(1, a.len() as int);
        let tail = r.subrange(1, r.len() as int);
        assert(a[0] == line_json(r[0]));
        assert(line_binary64s(r[0]));
        lemma_line_element(r[0]);
        assert forall|i: int| 0 <= i < tail.len() implies line_binary64s(#[trigger] tail[i]) by {
            assert(tail[i] == r[i + 1]);
        }
        assert(JsonView::Array(rest) == rings_json(tail)) by {
            assert(rest =~= tail.map_values(|l: LineView| line_json(l)));
        }
        lemma_rings_read(tail);
        assert(seq![r[0]] + tail =~= r);
    }
}

pub proof fn lemma_polygons_element(p: PolygonsView)
    requires
        polygons_ok(p),
    ensures
        spec_element(polygons_json(p)) == (if p.len() > 0 {
            Ok::<ElementView, crate::errors::DecodeError>(ElementView::Coords(CoordinatesView::ThreeDimensional(p)))
        } else {
            Ok(ElementView::Coords(CoordinatesView::OneDimensional(Seq::empty())))
        }),
{
    let a = p.map_values(|r: RingsView| rings_json(r));
    if p.len() > 0 {
        let rest = a.subrange(1, a.len() as int);
        let tail = p.subrange(1, p.len() as int);
        assert(a[0] == rings_json(p[0]));
        assert(rings_binary64s(p[0]));
        lemma_rings_element(p[0]);
        assert forall|i: int| 0 <= i < tail.len() implies rings_binary64s(#[trigger] tail[i]) by {
            assert(tail[i] == p[i + 1]);
        }
        assert(JsonView::Array(rest) == polygons_json(tail)) by {
            assert(rest =~= tail.map_values(|r: RingsView| rings_json(r)));
        }
        lemma_polygons_read(tail);
        assert(seq![p[0]] + tail =~= p);
    }
}

/// The coordinates of a value read back as they were written.
pub open spec fn coords_ok(v: ValueView) -> bool {
    match v {
        ValueView::Point(p) => p.len() >= 2 && binary64s(p),
        ValueView::MultiPoint(l) => line_ok(l),
        ValueView::LineString(l) => line_ok(l),
        ValueView::MultiLineString(r) => rings_ok(r),
        ValueView::Polygon(r) => rings_ok(r),
        ValueView::MultiPolygon(p) => polygons_ok(p),
        ValueView::GeometryCollection(_) => true,
    }
}

/// Foreign members read back as they were written: none, or a non-empty
/// list of members with distinct keys, none of them one of `keys`.
pub open spec fn foreign_ok(f: Option<Members>, keys: Seq<Seq<char>>) -> bool {
    match f {
        None => true,
        Some(m) => m.len() > 0 && fresh_members(m, keys),
    }
}

/// A geometry that reads back as it was written.
pub open spec fn geometry_ok(g: GeometryView) -> bool
    decreases g, 0int,
{
    &&& coords_ok(g.value)
    &&& bbox_ok(g.bbox)
    &&& foreign_ok(g.foreign_members, geometry_keys())
    &&& match g.value {
        ValueView::GeometryCollection(gs) => geometries_ok(gs),
        _ => true,
    }
}

pub open spec fn geometries_ok(gs: Seq<GeometryView>) -> bool
    decreases gs, 1int,
{
    gs.len() == 0 || (geometry_ok(gs[0]) && geometries_ok(gs.subrange(1, gs.len() as int)))
}

/// The `"coordinates"` member of a written value, if it has one.
pub open spec fn coordinates_json(v: ValueView) -> Option<JsonView> {
    match v {
        ValueView::Point(p) => Some(numbers_json(p)),
        ValueView::MultiPoint(l) => Some(line_json(l)),
        ValueView::LineString(l) => Some(line_json(l)),
        ValueView::MultiLineString(r) => Some(rings_json(r)),
        ValueView::Polygon(r) => Some(rings_json(r)),
        ValueView::MultiPolygon(p) => Some(polygons_json(p)),
        ValueView::GeometryCollection(_) => None,
    }
}

/// The `"geometries"` member of a written value, if it has one.
pub open spec fn geometries_json(v: ValueView) -> Option<JsonView> {
    match v {
        ValueView::GeometryCollection(gs) => Some(JsonView::Array(encode_geometries(gs))),
        _ => None,
    }
}

/// What the coordinates of a written value read as.
pub open spec fn coords_of(v: ValueView) -> Option<CoordinatesView> {
    match v {
        ValueView::Point(p) => Some(CoordinatesView::ZeroDimensional(p)),
        ValueView::MultiPoint(l) => Some(CoordinatesView::OneDimensional(l)),
        ValueView::LineString(l) => Some(CoordinatesView::OneDimensional(l)),
        ValueView::MultiLineString(r) => Some(
            if r.len() > 0 {
                CoordinatesView::TwoDimensional(r)
            } else {
                CoordinatesView::OneDimensional(Seq::empty())
            },
        ),
        ValueView::Polygon(r) => Some(
            if r.len() > 0 {
                CoordinatesView::TwoDimensional(r)
            } else {
                CoordinatesView::OneDimensional(Seq::empty())
            },
        ),
        ValueView::MultiPolygon(p) => Some(
            if p.len() > 0 {
                CoordinatesView::ThreeDimensional(p)
            } else {
                CoordinatesView::OneDimensional(Seq::empty())
            },
        ),
        ValueView::GeometryCollection(_) => None,
    }
}

pub proof fn lemma_value_lookup(v: ValueView, k: Seq<char>)
    ensures
        lookup(value_members(v), k) == (if k == "type"@ {
            Some(JsonView::String(geometry_type_name(crate::geometry::value_type(v))))
        } else if k == "coordinates"@ {
            coordinates_json(v)
        } else if k == "geometries"@ {
            geometries_json(v)
        } else {
            None
        }),
{
    lemma_member_names();
    let t = type_member(geometry_type_name(crate::geometry::value_type(v)));
    let second = value_members(v)[1];
    assert(value_members(v) =~= seq![t] + seq![second]);
    lemma_lookup_append(seq![t], seq![second], k);
    lemma_lookup_single(t, k);
    lemma_lookup_single(second, k);
}

pub proof fn lemma_bbox_lookup(b: Option<Seq<JsonNumber>>, k: Seq<char>)
    ensures
        lookup(bbox_members(b), k) == (if k == "bbox"@ && b is Some {
            Some(numbers_json(b->0))
        } else {
            None
        }),
{
    match b {
        Some(x) => lemma_lookup_single(("bbox"@, numbers_json(x)), k),
        None => {},
    }
}

pub proof fn lemma_value_keys(v: ValueView, keys: Seq<Seq<char>>, ti: int, ci: int, gi: int)
    requires
        0 <= ti < keys.len() && keys[ti] == "type"@,
        0 <= ci < keys.len() && keys[ci] == "coordinates"@,
        0 <= gi < keys.len() && keys[gi] == "geometries"@,
    ensures
        keys_within(value_members(v), keys),
{
    let t = type_member(geometry_type_name(crate::geometry::value_type(v)));
    let second = value_members(v)[1];
    assert(value_members(v) =~= seq![t] + seq![second]);
    lemma_keys_within_single(t, keys, ti);
    if v is GeometryCollection {
        lemma_keys_within_single(second, keys, gi);
    } else {
        lemma_keys_within_single(second, keys, ci);
    }
    lemma_keys_within_append(seq![t], seq![second], keys);
}

pub proof fn lemma_bbox_keys(b: Option<Seq<JsonNumber>>, keys: Seq<Seq<char>>, bi: int)
    requires
        0 <= bi < keys.len() && keys[bi] == "bbox"@,
    ensures
        keys_within(bbox_members(b), keys),
{
    match b {
        Some(x) => lemma_keys_within_single(("bbox"@, numbers_json(x)), keys, bi),
        None => lemma_keys_within_empty(keys),
    }
}

/// The coordinates of a value (other than a collection) read back as the value.
pub proof fn lemma_value_read(v: ValueView)
    requires
        coords_ok(v),
        !(v is GeometryCollection),
    ensures
        spec_opt_coordinates(coordinates_json(v)) == Ok::<Option<CoordinatesView>, crate::errors::ErrorView>(coords_of(v)),
        spec_geometry_value(crate::geometry::value_type(v), coords_of(v), None) == Ok::<ValueView, crate::errors::ErrorView>(v),
{
    match v {
        ValueView::Point(p) => {
            lemma_numbers_element(p);
        },
        ValueView::MultiPoint(l) => {
            lemma_line_element(l);
        },
        ValueView::LineString(l) => {
            lemma_line_element(l);
        },
        ValueView::MultiLineString(r) => {
            lemma_rings_element(r);
            if r.len() == 0 {
                assert(r =~= Seq::<LineView>::empty());
            }
        },
        ValueView::Polygon(r) => {
            lemma_rings_element(r);
            if r.len() == 0 {
                assert(r =~= Seq::<LineView>::empty());
            }
        },
        ValueView::MultiPolygon(p) => {
            lemma_polygons_element(p);
            if p.len() == 0 {
                assert(p =~= Seq::<RingsView>::empty());
            }
        },
        ValueView::GeometryCollection(_) => {},
    }
}

/// The members of a written Geometry object, as the reader finds them.
proof fn lemma_geometry_lookups(g: GeometryView, keys: Seq<Seq<char>>)
    requires
        fresh_members(foreign_or_empty(g.foreign_members), keys),
        keys.len() >= 4,
        keys[0] == "type"@,
        keys[1] == "coordinates"@,
        keys[2] == "geometries"@,
        keys[3] == "bbox"@,
    ensures
        lookup(encode_geometry(g), "type"@) == Some(
            JsonView::String(geometry_type_name(crate::geometry::value_type(g.value))),
        ),
        lookup(encode_geometry(g), "bbox"@) == (match g.bbox {
            Some(b) => Some(numbers_json(b)),
            None => None,
        }),
        lookup(encode_geometry(g), "coordinates"@) == coordinates_json(g.value),
        lookup(encode_geometry(g), "geometries"@) == geometries_json(g.value),
        other_members(encode_geometry(g), keys) == foreign_or_empty(g.foreign_members),
{
    let base = bbox_members(g.bbox) + value_members(g.value);
    let f = foreign_or_empty(g.foreign_members);
    lemma_value_keys(g.value, keys, 0, 1, 2);
    lemma_bbox_keys(g.bbox, keys, 3);
    lemma_keys_within_append(bbox_members(g.bbox), value_members(g.value), keys);
    lemma_written_members(base, f, keys);
    lemma_written_lookup(base, f, keys, 0);
    lemma_written_lookup(base, f, keys, 1);
    lemma_written_lookup(base, f, keys, 2);
    lemma_written_lookup(base, f, keys, 3);
    lemma_member_names();
    lemma_lookup_append(bbox_members(g.bbox), value_members(g.value), "type"@);
    lemma_lookup_append(bbox_members(g.bbox), value_members(g.value), "bbox"@);
    lemma_lookup_append(bbox_members(g.bbox), value_members(g.value), "coordinates"@);
    lemma_lookup_append(bbox_members(g.bbox), value_members(g.value), "geometries"@);
    lemma_bbox_lookup(g.bbox, "type"@);
    lemma_bbox_lookup(g.bbox, "bbox"@);
    lemma_bbox_lookup(g.bbox, "coordinates"@);
    lemma_bbox_lookup(g.bbox, "geometries"@);
    lemma_value_lookup(g.value, "type"@);
    lemma_value_lookup(g.value, "bbox"@);
    lemma_value_lookup(g.value, "coordinates"@);
    lemma_value_lookup(g.value, "geometries"@);
}

/// A written Geometry object reads back as the geometry it was written from.
pub proof fn lemma_geometry_roundtrip(g: GeometryView)
    requires
        geometry_ok(g),
    ensures
        spec_decode_geometry(JsonView::Object(encode_geometry(g))) == Ok::<GeometryView, crate::errors::ErrorView>(g),
    decreases g, 1int,
{
    let m = encode_geometry(g);
    lemma_geometry_lookups(g, geometry_keys());
    lemma_type_names(crate::geometry::value_type(g.value));
    let t = crate::geometry::value_type(g.value);
    assert(crate::decode::spec_geometry_type(lookup(m, "type"@)) == Ok::<GeometryType, crate::errors::ErrorView>(t));
    if let Some(b) = g.bbox {
        lemma_numbers_read(b);
    }
    assert(spec_bbox(lookup(m, "bbox"@)) == Ok::<Option<Seq<JsonNumber>>, crate::errors::ErrorView>(g.bbox));
    match g.value {
        ValueView::GeometryCollection(gs) => {
            assert(decreases_to!(g => g.value));
            lemma_geometries_roundtrip(gs);
        },
        _ => {
            lemma_value_read(g.value);
        },
    }
    assert(normalize(foreign_or_empty(g.foreign_members)) == g.foreign_members);
}

/// Written Geometry objects read back as the geometries they were written from.
pub proof fn lemma_geometries_roundtrip(gs: Seq<GeometryView>)
    requires
        geometries_ok(gs),
    ensures
        spec_decode_geometries(encode_geometries(gs)) == Ok::<Seq<GeometryView>, crate::errors::ErrorView>(gs),
    decreases gs, 0int,
{
    crate::encode::lemma_encode_geometries(gs);
    if gs.len() == 0 {
        assert(gs =~= Seq::<GeometryView>::empty());
        assert(encode_geometries(gs) =~= Seq::<JsonView>::empty());
    } else {
        let a = encode_geometries(gs);
        let tail = gs.subrange(1, gs.len() as int);
        assert(a[0] == JsonView::Object(encode_geometry(gs[0])));
        assert(a.subrange(1, a.len() as int) =~= encode_geometries(tail));
        lemma_geometry_roundtrip(gs[0]);
        lemma_geometries_roundtrip(tail);
        assert(seq![gs[0]] + tail =~= gs);
    }
}

/// A feature that reads back as it was written.
pub open spec fn feature_ok(f: FeatureView) -> bool {
    &&& bbox_ok(f.bbox)
    &&& match f.geometry {
        Some(g) => geometry_ok(g),
        None => true,
    }
    &&& foreign_ok(f.foreign_members, feature_keys())
}

/// A collection that reads back as it was written.
pub open spec fn collection_ok(c: FeatureCollectionView) -> bool {
    &&& bbox_ok(c.bbox)
    &&& forall|i: int| 0 <= i < c.features.len() ==> feature_ok(#[trigger] c.features[i])
    &&& foreign_ok(c.foreign_members, feature_collection_keys())
}

/// A GeoJSON object that reads back as it was written: as its kind needs,
/// and with no foreign member named like a member of any kind.
pub open spec fn geojson_ok(x: GeoJsonView) -> bool {
    match x {
        GeoJsonView::Geometry(g) => {
            &&& coords_ok(g.value)
            &&& bbox_ok(g.bbox)
            &&& match g.value {
                ValueView::GeometryCollection(gs) => geometries_ok(gs),
                _ => true,
            }
            &&& foreign_ok(g.foreign_members, geojson_keys())
        },
        GeoJsonView::Feature(f) => {
            &&& bbox_ok(f.bbox)
            &&& match f.geometry {
                Some(g) => geometry_ok(g),
                None => true,
            }
            &&& foreign_ok(f.foreign_members, geojson_keys())
        },
        GeoJsonView::FeatureCollection(c) => {
            &&& bbox_ok(c.bbox)
            &&& forall|i: int| 0 <= i < c.features.len() ==> feature_ok(#[trigger] c.features[i])
            &&& foreign_ok(c.foreign_members, geojson_keys())
        },
    }
}

pub proof fn lemma_id_lookup(i: Option<IdView>, k: Seq<char>)
    ensures
        lookup(id_members(i), k) == (if k == "id"@ && i is Some {
            Some(id_json(i->0))
        } else {
            None
        }),
{
    match i {
        Some(x) => lemma_lookup_single(("id"@, id_json(x)), k),
        None => {},
    }
}

pub proof fn lemma_feature_base_lookup(f: FeatureView, k: Seq<char>)
    ensures
        lookup(feature_base(f), k) == (if k == "type"@ {
            Some(JsonView::String("Feature"@))
        } else if k == "bbox"@ {
            lookup(bbox_members(f.bbox), k)
        } else if k == "geometry"@ {
            Some(geometry_member(f.geometry))
        } else if k == "id"@ {
            lookup(id_members(f.id), k)
        } else if k == "properties"@ {
            Some(properties_member(f.properties))
        } else {
            None
        }),
{
    lemma_member_names();
    let t = type_member("Feature"@);
    let g = ("geometry"@, geometry_member(f.geometry));
    let p = ("properties"@, properties_member(f.properties));
    let b = bbox_members(f.bbox);
    let i = id_members(f.id);
    lemma_lookup_append(seq![t] + b + seq![g] + i, seq![p], k);
    lemma_lookup_append(seq![t] + b + seq![g], i, k);
    lemma_lookup_append(seq![t] + b, seq![g], k);
    lemma_lookup_append(seq![t], b, k);
    lemma_lookup_single(t, k);
    lemma_lookup_single(g, k);
    lemma_lookup_single(p, k);
    lemma_bbox_lookup(f.bbox, k);
    lemma_id_lookup(f.id, k);
}

proof fn lemma_feature_base_lookups(f: FeatureView)
    ensures
        lookup(feature_base(f), "type"@) == Some(JsonView::String("Feature"@)),
        lookup(feature_base(f), "bbox"@) == lookup(bbox_members(f.bbox), "bbox"@),
        lookup(feature_base(f), "geometry"@) == Some(geometry_member(f.geometry)),
        lookup(feature_base(f), "id"@) == lookup(id_members(f.id), "id"@),
        lookup(feature_base(f), "properties"@) == Some(properties_member(f.properties)),
        lookup(feature_base(f), "coordinates"@) is None,
        lookup(feature_base(f), "geometries"@) is None,
        lookup(feature_base(f), "features"@) is None,
{
    lemma_member_names();
    lemma_feature_base_lookup(f, "type"@);
    lemma_feature_base_lookup(f, "bbox"@);
    lemma_feature_base_lookup(f, "geometry"@);
    lemma_feature_base_lookup(f, "id"@);
    lemma_feature_base_lookup(f, "properties"@);
    lemma_feature_base_lookup(f, "coordinates"@);
    lemma_feature_base_lookup(f, "geometries"@);
    lemma_feature_base_lookup(f, "features"@);
}

pub proof fn lemma_feature_base_keys(
    f: FeatureView,
    keys: Seq<Seq<char>>,
    ti: int,
    bi: int,
    gi: int,
    ii: int,
    pi: int,
)
    requires
        0 <= ti < keys.len() && keys[ti] == "type"@,
        0 <= bi < keys.len() && keys[bi] == "bbox"@,
        0 <= gi < keys.len() && keys[gi] == "geometry"@,
        0 <= ii < keys.len() && keys[ii] == "id"@,
        0 <= pi < keys.len() && keys[pi] == "properties"@,
    ensures
        keys_within(feature_base(f), keys),
{
    let t = type_member("Feature"@);
    let g = ("geometry"@, geometry_member(f.geometry));
    let p = ("properties"@, properties_member(f.properties));
    let b = bbox_members(f.bbox);
    let i = id_members(f.id);
    lemma_keys_within_single(t, keys, ti);
    lemma_bbox_keys(f.bbox, keys, bi);
    lemma_keys_within_single(g, keys, gi);
    match f.id {
        Some(x) => lemma_keys_within_single(("id"@, id_json(x)), keys, ii),
        None => lemma_keys_within_empty(keys),
    }
    lemma_keys_within_single(p, keys, pi);
    lemma_keys_within_append(seq![t], b, keys);
    lemma_keys_within_append(seq![t] + b, seq![g], keys);
    lemma_keys_within_append(seq![t] + b + seq![g], i, keys);
    lemma_keys_within_append(seq![t] + b + seq![g] + i, seq![p], keys);
}

pub proof fn lemma_read_feature_members(f: FeatureView)
    requires
        bbox_ok(f.bbox),
        match f.geometry {
            Some(g) => geometry_ok(g),
            None => true,
        },
    ensures
        spec_bbox(lookup(bbox_members(f.bbox), "bbox"@)) == Ok::<Option<Seq<JsonNumber>>, crate::errors::ErrorView>(f.bbox),
        crate::decode_object::spec_opt_geometry(Some(geometry_member(f.geometry))) == Ok::<Option<GeometryView>, crate::errors::ErrorView>(f.geometry),
        crate::decode_object::spec_id(lookup(id_members(f.id), "id"@)) == Ok::<Option<IdView>, crate::errors::ErrorView>(f.id),
        crate::decode_object::spec_properties(Some(properties_member(f.properties))) == Ok::<Option<Members>, crate::errors::ErrorView>(f.properties),
{
    lemma_bbox_lookup(f.bbox, "bbox"@);
    lemma_id_lookup(f.id, "id"@);
    if let Some(b) = f.bbox {
        lemma_numbers_read(b);
    }
    reveal(geometry_member);
    reveal(crate::decode_object::spec_opt_geometry);
    if let Some(g) = f.geometry {
        lemma_geometry_roundtrip(g);
    }
    if let Some(i) = f.id {
        match i {
            IdView::String(_) => {},
            IdView::Number(_) => {},
        }
    }
}

pub proof fn lemma_feature_lookups(f: FeatureView, keys: Seq<Seq<char>>, ti: int, bi: int, gi: int, ii: int, pi: int)
    requires
        fresh_members(foreign_or_empty(f.foreign_members), keys),
        0 <= ti < keys.len() && keys[ti] == "type"@,
        0 <= bi < keys.len() && keys[bi] == "bbox"@,
        0 <= gi < keys.len() && keys[gi] == "geometry"@,
        0 <= ii < keys.len() && keys[ii] == "id"@,
        0 <= pi < keys.len() && keys[pi] == "properties"@,
    ensures
        lookup(encode_feature(f), "type"@) == Some(JsonView::String("Feature"@)),
        lookup(encode_feature(f), "bbox"@) == lookup(bbox_members(f.bbox), "bbox"@),
        lookup(encode_feature(f), "geometry"@) == Some(geometry_member(f.geometry)),
        lookup(encode_feature(f), "id"@) == lookup(id_members(f.id), "id"@),
        lookup(encode_feature(f), "properties"@) == Some(properties_member(f.properties)),
        other_members(encode_feature(f), keys) == foreign_or_empty(f.foreign_members),
{
    let fm = foreign_or_empty(f.foreign_members);
    lemma_feature_base_keys(f, keys, ti, bi, gi, ii, pi);
    lemma_written_members(feature_base(f), fm, keys);
    lemma_written_lookup(feature_base(f), fm, keys, ti);
    lemma_written_lookup(feature_base(f), fm, keys, bi);
    lemma_written_lookup(feature_base(f), fm, keys, gi);
    lemma_written_lookup(feature_base(f), fm, keys, ii);
    lemma_written_lookup(feature_base(f), fm, keys, pi);
    lemma_feature_base_lookups(f);
}

/// A written Feature object reads back as the feature it was written from.
pub proof fn lemma_feature_roundtrip(f: FeatureView)
    requires
        feature_ok(f),
    ensures
        spec_decode_feature(JsonView::Object(encode_feature(f))) == Ok::<FeatureView, crate::errors::ErrorView>(f),
{
    let m = encode_feature(f);
    lemma_feature_lookups(f, feature_keys(), 0, 1, 2, 3, 4);
    lemma_read_feature_members(f);
    assert(spec_bbox(lookup(m, "bbox"@)) == Ok::<Option<Seq<JsonNumber>>, crate::errors::ErrorView>(f.bbox));
    assert(crate::decode_object::spec_opt_geometry(lookup(m, "geometry"@)) == Ok::<Option<GeometryView>, crate::errors::ErrorView>(f.geometry));
    assert(crate::decode_object::spec_id(lookup(m, "id"@)) == Ok::<Option<IdView>, crate::errors::ErrorView>(f.id));
    assert(crate::decode_object::spec_properties(lookup(m, "properties"@)) == Ok::<Option<Members>, crate::errors::ErrorView>(f.properties));
    assert(normalize(other_members(m, feature_keys())) == f.foreign_members);
}

/// Written Feature objects read back as the features they were written from.
pub proof fn lemma_features_roundtrip(fs: Seq<FeatureView>)
    requires
        forall|i: int| 0 <= i < fs.len() ==> feature_ok(#[trigger] fs[i]),
    ensures
        spec_decode_features(encode_features(fs)) == Ok::<Seq<FeatureView>, crate::errors::ErrorView>(fs),
    decreases fs.len(),
{
    reveal(encode_features);
    let a = encode_features(fs);
    if fs.len() == 0 {
        assert(fs =~= Seq::<FeatureView>::empty());
    } else {
        let tail = fs.subrange(1, fs.len() as int);
        assert(a[0] == JsonView::Object(encode_feature(fs[0])));
        assert(a.subrange(1, a.len() as int) =~= encode_features(tail));
        lemma_feature_roundtrip(fs[0]);
        assert forall|i: int| 0 <= i < tail.len() implies feature_ok(#[trigger] tail[i]) by {
            assert(tail[i] == fs[i + 1]);
        }
        lemma_features_roundtrip(tail);
        assert(seq![fs[0]] + tail =~= fs);
    }
}

pub proof fn lemma_collection_base_lookup(c: FeatureCollectionView, k: Seq<char>)
    ensures
        lookup(collection_base(c), k) == (if k == "type"@ {
            Some(JsonView::String("FeatureCollection"@))
        } else if k == "bbox"@ {
            lookup(bbox_members(c.bbox), k)
        } else if k == "features"@ {
            Some(JsonView::Array(encode_features(c.features)))
        } else {
            None
        }),
{
    lemma_member_names();
    let t = type_member("FeatureCollection"@);
    let fs = ("features"@, JsonView::Array(encode_features(c.features)));
    let b = bbox_members(c.bbox);
    lemma_lookup_append(seq![t] + b, seq![fs], k);
    lemma_lookup_append(seq![t], b, k);
    lemma_lookup_single(t, k);
    lemma_lookup_single(fs, k);
    lemma_bbox_lookup(c.bbox, k);
}

proof fn lemma_collection_base_lookups(c: FeatureCollectionView)
    ensures
        lookup(collection_base(c), "type"@) == Some(JsonView::String("FeatureCollection"@)),
        lookup(collection_base(c), "bbox"@) == lookup(bbox_members(c.bbox), "bbox"@),
        lookup(collection_base(c), "features"@) == Some(JsonView::Array(encode_features(c.features))),
        lookup(collection_base(c), "coordinates"@) is None,
        lookup(collection_base(c), "geometries"@) is None,
        lookup(collection_base(c), "id"@) is None,
        lookup(collection_base(c), "geometry"@) is None,
        lookup(collection_base(c), "properties"@) is None,
{
    lemma_member_names();
    lemma_collection_base_lookup(c, "type"@);
    lemma_collection_base_lookup(c, "bbox"@);
    lemma_collection_base_lookup(c, "features"@);
    lemma_collection_base_lookup(c, "coordinates"@);
    lemma_collection_base_lookup(c, "geometries"@);
    lemma_collection_base_lookup(c, "id"@);
    lemma_collection_base_lookup(c, "geometry"@);
    lemma_collection_base_lookup(c, "properties"@);
}

pub proof fn lemma_collection_base_keys(
    c: FeatureCollectionView,
    keys: Seq<Seq<char>>,
    ti: int,
    bi: int,
    fi: int,
)
    requires
        0 <= ti < keys.len() && keys[ti] == "type"@,
        0 <= bi < keys.len() && keys[bi] == "bbox"@,
        0 <= fi < keys.len() && keys[fi] == "features"@,
    ensures
        keys_within(collection_base(c), keys),
{
    let t = type_member("FeatureCollection"@);
    let fs = ("features"@, JsonView::Array(encode_features(c.features)));
    let b = bbox_members(c.bbox);
    lemma_keys_within_single(t, keys, ti);
    lemma_bbox_keys(c.bbox, keys, bi);
    lemma_keys_within_single(fs, keys, fi);
    lemma_keys_within_append(seq![t], b, keys);
    lemma_keys_within_append(seq![t] + b, seq![fs], keys);
}

pub proof fn lemma_collection_lookups(c: FeatureCollectionView, keys: Seq<Seq<char>>, ti: int, bi: int, fi: int)
    requires
        fresh_members(foreign_or_empty(c.foreign_members), keys),
        0 <= ti < keys.len() && keys[ti] == "type"@,
        0 <= bi < keys.len() && keys[bi] == "bbox"@,
        0 <= fi < keys.len() && keys[fi] == "features"@,
    ensures
        lookup(encode_feature_collection(c), "type"@) == Some(JsonView::String("FeatureCollection"@)),
        lookup(encode_feature_collection(c), "bbox"@) == lookup(bbox_members(c.bbox), "bbox"@),
        lookup(encode_feature_collection(c), "features"@) == Some(JsonView::Array(encode_features(c.features))),
        other_members(encode_feature_collection(c), keys) == foreign_or_empty(c.foreign_members),
{
    let fm = foreign_or_empty(c.foreign_members);
    let base = collection_base(c);
    lemma_collection_base_keys(c, keys, ti, bi, fi);
    lemma_written_members(base, fm, keys);
    lemma_written_lookup(base, fm, keys, ti);
    lemma_written_lookup(base, fm, keys, bi);
    lemma_written_lookup(base, fm, keys, fi);
    lemma_collection_base_lookups(c);
}

/// A written FeatureCollection object reads back as the collection it was
/// written from.
pub proof fn lemma_collection_roundtrip(c: FeatureCollectionView)
    requires
        collection_ok(c),
    ensures
        spec_decode_feature_collection(JsonView::Object(encode_feature_collection(c))) == Ok::<FeatureCollectionView, crate::errors::ErrorView>(c),
{
    lemma_collection_lookups(c, feature_collection_keys(), 0, 1, 2);
    reveal_strlit("FeatureCollection");
    lemma_bbox_lookup(c.bbox, "bbox"@);
    if let Some(b) = c.bbox {
        lemma_numbers_read(b);
    }
    lemma_features_roundtrip(c.features);
    assert(normalize(foreign_or_empty(c.foreign_members)) == c.foreign_members);
}

/// The GeoJSON type whose name is that of a geometry kind.
pub open spec fn geojson_type_of(t: GeometryType) -> GeoJsonType {
    match t {
        GeometryType::Point => GeoJsonType::Point,
        GeometryType::LineString => GeoJsonType::LineString,
        GeometryType::Polygon => GeoJsonType::Polygon,
        GeometryType::MultiPoint => GeoJsonType::MultiPoint,
        GeometryType::MultiLineString => GeoJsonType::MultiLineString,
        GeometryType::MultiPolygon => GeoJsonType::MultiPolygon,
        GeometryType::GeometryCollection => GeoJsonType::GeometryCollection,
    }
}

/// The names of GeoJSON types read back as those types.
pub proof fn lemma_geojson_type_names(t: GeometryType)
    ensures
        geojson_type_from_name(geometry_type_name(t)) == Some(geojson_type_of(t)),
        geometry_kind(geojson_type_of(t)) == Some(t),
        geojson_type_from_name("Feature"@) == Some(GeoJsonType::Feature),
        geojson_type_from_name("FeatureCollection"@) == Some(GeoJsonType::FeatureCollection),
{
    lemma_type_names(t);
    reveal_strlit("Feature");
    reveal_strlit("FeatureCollection");
    reveal_strlit("Point");
    reveal_strlit("MultiPoint");
    reveal_strlit("LineString");
    reveal_strlit("MultiLineString");
    reveal_strlit("Polygon");
    reveal_strlit("MultiPolygon");
    reveal_strlit("GeometryCollection");
    assert("Feature"@.len() == 7 && "Feature"@[0] == 'F');
    assert("FeatureCollection"@.len() == 17 && "FeatureCollection"@[0] == 'F');
    assert("Point"@.len() == 5);
    assert("MultiPoint"@.len() == 10);
    assert("LineString"@.len() == 10);
    assert("MultiLineString"@.len() == 15);
    assert("Polygon"@.len() == 7 && "Polygon"@[0] == 'P');
    assert("MultiPolygon"@.len() == 12);
    assert("GeometryCollection"@.len() == 18);
}

proof fn lemma_geometry_object_lookups(g: GeometryView)
    ensures
        lookup(value_members(g.value) + bbox_members(g.bbox), "type"@) == Some(
            JsonView::String(geometry_type_name(crate::geometry::value_type(g.value))),
        ),
        lookup(value_members(g.value) + bbox_members(g.bbox), "bbox"@) == lookup(bbox_members(g.bbox), "bbox"@),
        lookup(value_members(g.value) + bbox_members(g.bbox), "coordinates"@) == coordinates_json(g.value),
        lookup(value_members(g.value) + bbox_members(g.bbox), "geometries"@) == geometries_json(g.value),
        lookup(value_members(g.value) + bbox_members(g.bbox), "features"@) is None,
        lookup(value_members(g.value) + bbox_members(g.bbox), "id"@) is None,
        lookup(value_members(g.value) + bbox_members(g.bbox), "geometry"@) is None,
        lookup(value_members(g.value) + bbox_members(g.bbox), "properties"@) is None,
{
    lemma_member_names();
    let a = value_members(g.value);
    let b = bbox_members(g.bbox);
    lemma_lookup_append(a, b, "type"@);
    lemma_lookup_append(a, b, "bbox"@);
    lemma_lookup_append(a, b, "coordinates"@);
    lemma_lookup_append(a, b, "geometries"@);
    lemma_lookup_append(a, b, "features"@);
    lemma_lookup_append(a, b, "id"@);
    lemma_lookup_append(a, b, "geometry"@);
    lemma_lookup_append(a, b, "properties"@);
    lemma_value_lookup(g.value, "type"@);
    lemma_value_lookup(g.value, "bbox"@);
    lemma_value_lookup(g.value, "coordinates"@);
    lemma_value_lookup(g.value, "geometries"@);
    lemma_value_lookup(g.value, "features"@);
    lemma_value_lookup(g.value, "id"@);
    lemma_value_lookup(g.value, "geometry"@);
    lemma_value_lookup(g.value, "properties"@);
    lemma_bbox_lookup(g.bbox, "type"@);
    lemma_bbox_lookup(g.bbox, "bbox"@);
    lemma_bbox_lookup(g.bbox, "coordinates"@);
    lemma_bbox_lookup(g.bbox, "geometries"@);
    lemma_bbox_lookup(g.bbox, "features"@);
    lemma_bbox_lookup(g.bbox, "id"@);
    lemma_bbox_lookup(g.bbox, "geometry"@);
    lemma_bbox_lookup(g.bbox, "properties"@);
}

proof fn lemma_no_geometry()
    ensures
        crate::decode_object::spec_opt_geometry(None) == Ok::<Option<GeometryView>, crate::errors::ErrorView>(None),
{
    reveal(crate::decode_object::spec_opt_geometry);
}

proof fn lemma_geometry_object_members(g: GeometryView)
    requires
        fresh_members(foreign_or_empty(g.foreign_members), geojson_keys()),
    ensures
        lookup(geometry_object(g), "type"@) == Some(
            JsonView::String(geometry_type_name(crate::geometry::value_type(g.value))),
        ),
        lookup(geometry_object(g), "bbox"@) == lookup(bbox_members(g.bbox), "bbox"@),
        lookup(geometry_object(g), "coordinates"@) == coordinates_json(g.value),
        lookup(geometry_object(g), "geometries"@) == geometries_json(g.value),
        lookup(geometry_object(g), "features"@) is None,
        lookup(geometry_object(g), "id"@) is None,
        lookup(geometry_object(g), "geometry"@) is None,
        lookup(geometry_object(g), "properties"@) is None,
        other_members(geometry_object(g), geojson_keys()) == foreign_or_empty(g.foreign_members),
{
    let keys = geojson_keys();
    let base = value_members(g.value) + bbox_members(g.bbox);
    let fm = foreign_or_empty(g.foreign_members);
    lemma_value_keys(g.value, keys, 0, 2, 3);
    lemma_bbox_keys(g.bbox, keys, 1);
    lemma_keys_within_append(value_members(g.value), bbox_members(g.bbox), keys);
    lemma_written_members(base, fm, keys);
    lemma_written_lookup(base, fm, keys, 0);
    lemma_written_lookup(base, fm, keys, 1);
    lemma_written_lookup(base, fm, keys, 2);
    lemma_written_lookup(base, fm, keys, 3);
    lemma_written_lookup(base, fm, keys, 4);
    lemma_written_lookup(base, fm, keys, 5);
    lemma_written_lookup(base, fm, keys, 6);
    lemma_written_lookup(base, fm, keys, 7);
    lemma_geometry_object_lookups(g);
}

proof fn lemma_feature_more_lookups(f: FeatureView, keys: Seq<Seq<char>>)
    requires
        fresh_members(foreign_or_empty(f.foreign_members), keys),
        keys.len() == 8,
        keys[0] == "type"@,
        keys[1] == "bbox"@,
        keys[2] == "coordinates"@,
        keys[3] == "geometries"@,
        keys[4] == "features"@,
        keys[5] == "id"@,
        keys[6] == "geometry"@,
        keys[7] == "properties"@,
    ensures
        lookup(encode_feature(f), "coordinates"@) is None,
        lookup(encode_feature(f), "geometries"@) is None,
        lookup(encode_feature(f), "features"@) is None,
{
    let fm = foreign_or_empty(f.foreign_members);
    lemma_feature_base_keys(f, keys, 0, 1, 6, 5, 7);
    lemma_written_members(feature_base(f), fm, keys);
    lemma_written_lookup(feature_base(f), fm, keys, 2);
    lemma_written_lookup(feature_base(f), fm, keys, 3);
    lemma_written_lookup(feature_base(f), fm, keys, 4);
    lemma_feature_base_lookups(f);
}

proof fn lemma_collection_more_lookups(c: FeatureCollectionView, keys: Seq<Seq<char>>)
    requires
        fresh_members(foreign_or_empty(c.foreign_members), keys),
        keys.len() == 8,
        keys[0] == "type"@,
        keys[1] == "bbox"@,
        keys[2] == "coordinates"@,
        keys[3] == "geometries"@,
        keys[4] == "features"@,
        keys[5] == "id"@,
        keys[6] == "geometry"@,
        keys[7] == "properties"@,
    ensures
        lookup(encode_feature_collection(c), "coordinates"@) is None,
        lookup(encode_feature_collection(c), "geometries"@) is None,
        lookup(encode_feature_collection(c), "id"@) is None,
        lookup(encode_feature_collection(c), "geometry"@) is None,
        lookup(encode_feature_collection(c), "properties"@) is None,
{
    let fm = foreign_or_empty(c.foreign_members);
    lemma_collection_base_keys(c, keys, 0, 1, 4);
    lemma_written_members(collection_base(c), fm, keys);
    lemma_written_lookup(collection_base(c), fm, keys, 2);
    lemma_written_lookup(collection_base(c), fm, keys, 3);
    lemma_written_lookup(collection_base(c), fm, keys, 5);
    lemma_written_lookup(collection_base(c), fm, keys, 6);
    lemma_written_lookup(collection_base(c), fm, keys, 7);
    lemma_collection_base_lookups(c);
}

proof fn lemma_geojson_geometry_roundtrip(g: GeometryView)
    requires
        geojson_ok(GeoJsonView::Geometry(g)),
    ensures
        spec_decode_geojson(encode_geojson(GeoJsonView::Geometry(g))) == Ok::<GeoJsonView, crate::errors::ErrorView>(GeoJsonView::Geometry(g)),
{
    let m = geometry_object(g);
    lemma_geometry_object_members(g);
    let t = crate::geometry::value_type(g.value);
    lemma_geojson_type_names(t);
    lemma_bbox_lookup(g.bbox, "bbox"@);
    if let Some(b) = g.bbox {
        lemma_numbers_read(b);
    }
    lemma_no_geometry();
    let geoms: Option<Seq<GeometryView>> = match g.value {
        ValueView::GeometryCollection(gs) => Some(gs),
        _ => None,
    };
    match g.value {
        ValueView::GeometryCollection(gs) => {
            lemma_geometries_roundtrip(gs);
        },
        _ => {
            lemma_value_read(g.value);
        },
    }
    assert(spec_geojson_type(lookup(m, "type"@)) == Ok::<GeoJsonType, crate::errors::ErrorView>(geojson_type_of(t)));
    assert(spec_bbox(lookup(m, "bbox"@)) == Ok::<Option<Seq<JsonNumber>>, crate::errors::ErrorView>(g.bbox));
    assert(spec_opt_coordinates(lookup(m, "coordinates"@)) == Ok::<Option<CoordinatesView>, crate::errors::ErrorView>(coords_of(g.value)));
    assert(spec_opt_geometries(lookup(m, "geometries"@)) == Ok::<Option<Seq<GeometryView>>, crate::errors::ErrorView>(geoms));
    assert(normalize(other_members(m, geojson_keys())) == g.foreign_members);
    assert(spec_geometry_value(t, coords_of(g.value), geoms) == Ok::<ValueView, crate::errors::ErrorView>(g.value));
}

proof fn lemma_geojson_feature_roundtrip(f: FeatureView)
    requires
        geojson_ok(GeoJsonView::Feature(f)),
    ensures
        spec_decode_geojson(encode_geojson(GeoJsonView::Feature(f))) == Ok::<GeoJsonView, crate::errors::ErrorView>(GeoJsonView::Feature(f)),
{
    let m = encode_feature(f);
    lemma_feature_lookups(f, geojson_keys(), 0, 1, 6, 5, 7);
    lemma_feature_more_lookups(f, geojson_keys());
    lemma_read_feature_members(f);
    lemma_geojson_type_names(GeometryType::Point);
    assert(spec_bbox(lookup(m, "bbox"@)) == Ok::<Option<Seq<JsonNumber>>, crate::errors::ErrorView>(f.bbox));
    assert(normalize(other_members(m, geojson_keys())) == f.foreign_members);
}

proof fn lemma_geojson_collection_roundtrip(c: FeatureCollectionView)
    requires
        geojson_ok(GeoJsonView::FeatureCollection(c)),
    ensures
        spec_decode_geojson(encode_geojson(GeoJsonView::FeatureCollection(c))) == Ok::<GeoJsonView, crate::errors::ErrorView>(GeoJsonView::FeatureCollection(c)),
{
    let m = encode_feature_collection(c);
    lemma_collection_lookups(c, geojson_keys(), 0, 1, 4);
    lemma_collection_more_lookups(c, geojson_keys());
    lemma_geojson_type_names(GeometryType::Point);
    lemma_bbox_lookup(c.bbox, "bbox"@);
    if let Some(b) = c.bbox {
        lemma_numbers_read(b);
    }
    lemma_no_geometry();
    lemma_features_roundtrip(c.features);
    assert(normalize(other_members(m, geojson_keys())) == c.foreign_members);
}

/// A GeoJSON object written as a JSON value reads back as that object.
pub proof fn lemma_geojson_roundtrip(x: GeoJsonView)
    requires
        geojson_ok(x),
    ensures
        spec_decode_geojson(encode_geojson(x)) == Ok::<GeoJsonView, crate::errors::ErrorView>(x),
{
    match x {
        GeoJsonView::Geometry(g) => lemma_geojson_geometry_roundtrip(g),
        GeoJsonView::Feature(f) => lemma_geojson_feature_roundtrip(f),
        GeoJsonView::FeatureCollection(c) => lemma_geojson_collection_roundtrip(c),
    }
}

} // verus!
