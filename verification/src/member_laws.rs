//! Laws of the member-by-member reader: what is written reads back as the
//! value it was written from, but for the order of foreign members.
//!
//! This reader takes each member it needs out of the object, the last
//! member taking the place of the one taken out, and keeps what is left as
//! the foreign members; so these come back with the same keys and values,
//! not always in the same order.
use crate::decode::{feature_collection_keys, feature_keys, geometry_keys, normalize};
use crate::feature::{FeatureView, IdView};
use crate::feature_collection::FeatureCollectionView;
use crate::geojson::GeoJsonView;
use crate::object::{spec_object, spec_util_collection, type_named, Type};
use crate::encode::{
    bbox_members, collection_base, encode_feature, encode_feature_collection, encode_features,
    encode_geojson, encode_geometries, encode_geometry, feature_base,
    foreign_or_empty, geometry_member, geometry_object, id_json, id_members, line_json,
    numbers_json, polygons_json, properties_member, rings_json, type_member, value_members,
};
use crate::errors::ErrorView;
use crate::geometry::{
    geometry_type_name, value_type, GeometryType, GeometryView, LineView, PolygonsView, PositionView,
    RingsView, ValueView,
};
use crate::json::{
    distinct_keys, find_key, lemma_find_key, lemma_lookup_after_remove, lookup, member_remove,
    JsonNumber, JsonView, Members,
};
use crate::util_spec::{
    map_all, read_1d, read_2d, read_bbox_number, read_float, read_position,
    spec_get_value, spec_json_to_1d, spec_json_to_2d, spec_json_to_3d, spec_json_to_position,
    read_feature_value, spec_util_feature, spec_util_geometries, spec_util_geometry,
};
use crate::laws::{
    bbox_ok, binary64s, foreign_ok, fresh_members, keys_within, lemma_absent_key, lemma_bbox_keys, lemma_bbox_lookup,
    lemma_keys_within_append, lemma_lookup_append, lemma_member_names, lemma_type_names,
    lemma_collection_base_keys, lemma_collection_base_lookup, lemma_feature_base_keys,
    lemma_feature_base_lookup, lemma_id_lookup, lemma_value_keys,
    lemma_value_lookup, lemma_written_members,
};
use vstd::prelude::*;

verus! {

/// Two member lists with the same keys, each once, holding the same values.
pub open spec fn same_members(a: Members, b: Members) -> bool {
    &&& a.len() == b.len()
    &&& distinct_keys(a)
    &&& distinct_keys(b)
    &&& forall|k: Seq<char>| #[trigger] lookup(a, k) == lookup(b, k)
}

/// Two optional sets of foreign members with the same members.
pub open spec fn same_foreign(a: Option<Members>, b: Option<Members>) -> bool {
    match (a, b) {
        (None, None) => true,
        (Some(x), Some(y)) => same_members(x, y),
        _ => false,
    }
}

/// `m` holds the members of `own` and those of `f`, each key once: a key of
/// `own` is found there, any other key in `f`.
pub open spec fn split_as(m: Members, own: Members, f: Members) -> bool {
    &&& distinct_keys(m)
    &&& distinct_keys(own)
    &&& distinct_keys(f)
    &&& m.len() == own.len() + f.len()
    &&& forall|k: Seq<char>| #[trigger]
        lookup(m, k) == (if lookup(own, k) is Some {
            lookup(own, k)
        } else {
            lookup(f, k)
        })
    &&& forall|k: Seq<char>| lookup(own, k) is Some ==> #[trigger] lookup(f, k) is None
}

/// Taking a member out shortens the list by one, if the key is there.
pub proof fn lemma_remove_len(m: Members, k: Seq<char>)
    ensures
        member_remove(m, k).len() == (if lookup(m, k) is Some {
            m.len() - 1
        } else {
            m.len() as int
        }),
{
    lemma_find_key(m, k);
}

/// A list in which no key is found is empty.
proof fn lemma_no_keys_empty(m: Members)
    requires
        forall|k: Seq<char>| #[trigger] lookup(m, k) is None,
    ensures
        m.len() == 0,
{
    if m.len() > 0 {
        lemma_find_key(m, m[0].0);
        assert(find_key(m, m[0].0) == 0);
        assert(lookup(m, m[0].0) is Some);
    }
}

/// An object written as its own members followed by foreign ones, each key
/// once and no key in both, splits as those two lists.
pub proof fn lemma_split_written(own: Members, f: Members, keys: Seq<Seq<char>>)
    requires
        distinct_keys(own),
        keys_within(own, keys),
        fresh_members(f, keys),
    ensures
        split_as(own + f, own, f),
{
    let m = own + f;
    assert forall|k: Seq<char>| lookup(own, k) is Some implies #[trigger] lookup(f, k) is None by {
        lemma_find_key(own, k);
        let i = find_key(own, k);
        assert(keys.contains(own[i].0));
        lemma_absent_key(f, keys, k);
    }
    assert forall|a: int, b: int| 0 <= a < b < m.len() implies m[a].0 != m[b].0 by {
        if b < own.len() {
            assert(m[a] == own[a] && m[b] == own[b]);
        } else if a >= own.len() {
            assert(m[a] == f[a - own.len()] && m[b] == f[b - own.len()]);
        } else {
            assert(m[a] == own[a] && m[b] == f[b - own.len()]);
            assert(keys.contains(own[a].0));
            assert(!keys.contains(f[b - own.len()].0));
        }
    }
    assert forall|k: Seq<char>| #[trigger]
        lookup(m, k) == (if lookup(own, k) is Some {
            lookup(own, k)
        } else {
            lookup(f, k)
        }) by {
        lemma_lookup_append(own, f, k);
    }
}

/// Taking out a key that the foreign members do not hold keeps the split.
pub proof fn lemma_split_remove(m: Members, own: Members, f: Members, k0: Seq<char>)
    requires
        split_as(m, own, f),
        lookup(f, k0) is None,
    ensures
        split_as(member_remove(m, k0), member_remove(own, k0), f),
        lookup(m, k0) == lookup(own, k0),
{
    let m1 = member_remove(m, k0);
    let own1 = member_remove(own, k0);
    lemma_lookup_after_remove(m, k0, k0);
    lemma_lookup_after_remove(own, k0, k0);
    lemma_remove_len(m, k0);
    lemma_remove_len(own, k0);
    assert(lookup(m, k0) == lookup(own, k0));
    assert forall|k: Seq<char>| #[trigger]
        lookup(m1, k) == (if lookup(own1, k) is Some {
            lookup(own1, k)
        } else {
            lookup(f, k)
        }) by {
        lemma_lookup_after_remove(m, k0, k);
        lemma_lookup_after_remove(own, k0, k);
        assert(lookup(m, k) == (if lookup(own, k) is Some {
            lookup(own, k)
        } else {
            lookup(f, k)
        }));
    }
    assert forall|k: Seq<char>| lookup(own1, k) is Some implies #[trigger] lookup(f, k) is None by {
        lemma_lookup_after_remove(own, k0, k);
        if k != k0 {
            assert(lookup(own, k) is Some);
        }
    }
}

/// Once the own members are all taken out, what is left are the foreign
/// members, possibly in another order.
pub proof fn lemma_split_done(m: Members, own: Members, f: Members)
    requires
        split_as(m, own, f),
        forall|k: Seq<char>| #[trigger] lookup(own, k) is None,
    ensures
        same_members(m, f),
{
    lemma_no_keys_empty(own);
    assert forall|k: Seq<char>| #[trigger] lookup(m, k) == lookup(f, k) by {
        assert(lookup(own, k) is None);
    }
}

/// Each element written with `enc` reads back with `f`: so does the list.
proof fn lemma_map_all_inverse<A>(
    xs: Seq<A>,
    enc: spec_fn(A) -> JsonView,
    f: spec_fn(JsonView) -> Result<A, ErrorView>,
)
    requires
        forall|i: int| 0 <= i < xs.len() ==> f(enc(#[trigger] xs[i])) == Ok::<A, ErrorView>(xs[i]),
    ensures
        map_all(xs.map_values(enc), f) == Ok::<Seq<A>, ErrorView>(xs),
    decreases xs.len(),
{
    if xs.len() > 0 {
        let rest = xs.subrange(1, xs.len() as int);
        assert(xs.map_values(enc).subrange(1, xs.len() as int) =~= rest.map_values(enc));
        assert forall|i: int| 0 <= i < rest.len() implies f(enc(#[trigger] rest[i]))
            == Ok::<A, ErrorView>(rest[i]) by {
            assert(rest[i] == xs[i + 1]);
        }
        lemma_map_all_inverse(rest, enc, f);
        assert(xs.map_values(enc)[0] == enc(xs[0]));
        assert(seq![xs[0]] + rest =~= xs);
    } else {
        assert(xs.map_values(enc) =~= Seq::<JsonView>::empty());
        assert(xs =~= Seq::<A>::empty());
    }
}

/// A position with an easting and a northing, of binary64 values.
pub open spec fn position_ok(p: PositionView) -> bool {
    p.len() >= 2 && binary64s(p)
}

/// Every position of the line has an easting and a northing, of binary64
/// values.
pub open spec fn line_has_xy(l: LineView) -> bool {
    forall|i: int| 0 <= i < l.len() ==> position_ok(#[trigger] l[i])
}

/// Every position of every line has an easting and a northing.
pub open spec fn rings_have_xy(r: RingsView) -> bool {
    forall|i: int| 0 <= i < r.len() ==> line_has_xy(#[trigger] r[i])
}

/// Every position of every polygon has an easting and a northing.
pub open spec fn polygons_have_xy(p: PolygonsView) -> bool {
    forall|i: int| 0 <= i < p.len() ==> rings_have_xy(#[trigger] p[i])
}

pub proof fn lemma_position_reads_back(p: PositionView)
    requires
        position_ok(p),
    ensures
        spec_json_to_position(numbers_json(p)) == Ok::<PositionView, ErrorView>(p),
{
    assert forall|i: int| 0 <= i < p.len() implies read_float()(
        (|n: JsonNumber| JsonView::Number(n))(#[trigger] p[i]),
    ) == Ok::<JsonNumber, ErrorView>(p[i]) by {
        assert(p[i] is Float);
    }
    lemma_map_all_inverse(p, |n: JsonNumber| JsonView::Number(n), read_float());
}

pub proof fn lemma_line_reads_back(l: LineView)
    requires
        line_has_xy(l),
    ensures
        spec_json_to_1d(line_json(l)) == Ok::<LineView, ErrorView>(l),
{
    assert forall|i: int| 0 <= i < l.len() implies read_position()(
        (|p: PositionView| numbers_json(p))(#[trigger] l[i]),
    ) == Ok::<PositionView, ErrorView>(l[i]) by {
        lemma_position_reads_back(l[i]);
    }
    lemma_map_all_inverse(l, |p: PositionView| numbers_json(p), read_position());
}

pub proof fn lemma_rings_read_back(r: RingsView)
    requires
        rings_have_xy(r),
    ensures
        spec_json_to_2d(rings_json(r)) == Ok::<RingsView, ErrorView>(r),
{
    assert forall|i: int| 0 <= i < r.len() implies read_1d()(
        (|l: LineView| line_json(l))(#[trigger] r[i]),
    ) == Ok::<LineView, ErrorView>(r[i]) by {
        lemma_line_reads_back(r[i]);
    }
    lemma_map_all_inverse(r, |l: LineView| line_json(l), read_1d());
}

pub proof fn lemma_polygons_read_back(p: PolygonsView)
    requires
        polygons_have_xy(p),
    ensures
        spec_json_to_3d(polygons_json(p)) == Ok::<PolygonsView, ErrorView>(p),
{
    assert forall|i: int| 0 <= i < p.len() implies read_2d()(
        (|r: RingsView| rings_json(r))(#[trigger] p[i]),
    ) == Ok::<RingsView, ErrorView>(p[i]) by {
        lemma_rings_read_back(p[i]);
    }
    lemma_map_all_inverse(p, |r: RingsView| rings_json(r), read_2d());
}

/// A geometry value that the member-by-member reader reads back: every
/// position has an easting and a northing, and every member geometry reads
/// back.
pub open spec fn value_reads_back(v: ValueView) -> bool
    decreases v, 1int,
{
    match v {
        ValueView::Point(p) => position_ok(p),
        ValueView::MultiPoint(l) => line_has_xy(l),
        ValueView::LineString(l) => line_has_xy(l),
        ValueView::MultiLineString(r) => rings_have_xy(r),
        ValueView::Polygon(r) => rings_have_xy(r),
        ValueView::MultiPolygon(p) => polygons_have_xy(p),
        ValueView::GeometryCollection(gs) => geometries_read_back(gs),
    }
}

/// A geometry that the member-by-member reader reads back: its value does,
/// and its foreign members are absent, or present and named like no member
/// of a Geometry object.
pub open spec fn geometry_reads_back(g: GeometryView) -> bool
    decreases g, 2int,
{
    &&& value_reads_back(g.value)
    &&& bbox_ok(g.bbox)
    &&& foreign_ok(g.foreign_members, geometry_keys())
}

pub open spec fn geometries_read_back(gs: Seq<GeometryView>) -> bool
    decreases gs, 0int,
{
    gs.len() == 0 || (geometry_reads_back(gs[0]) && geometries_read_back(
        gs.subrange(1, gs.len() as int),
    ))
}

/// Two geometries alike but for the order of their foreign members, at any
/// depth.
pub open spec fn same_geometry(a: GeometryView, b: GeometryView) -> bool
    decreases b, 2int,
{
    &&& a.bbox == b.bbox
    &&& same_foreign(a.foreign_members, b.foreign_members)
    &&& same_value(a.value, b.value)
}

pub open spec fn same_value(a: ValueView, b: ValueView) -> bool
    decreases b, 1int,
{
    match (a, b) {
        (ValueView::GeometryCollection(x), ValueView::GeometryCollection(y)) => same_geometries(x, y),
        _ => a == b,
    }
}

pub open spec fn same_geometries(a: Seq<GeometryView>, b: Seq<GeometryView>) -> bool
    decreases b, 0int,
{
    &&& a.len() == b.len()
    &&& (b.len() == 0 || (same_geometry(a[0], b[0]) && same_geometries(
        a.subrange(1, a.len() as int),
        b.subrange(1, b.len() as int),
    )))
}

/// The own members of a written Geometry object, in either order.
pub open spec fn geometry_base(g: GeometryView) -> Members {
    bbox_members(g.bbox) + value_members(g.value)
}

/// The own members of a written Geometry object: each key once, and the
/// ones of its bounding box and value.
proof fn lemma_geometry_base(g: GeometryView)
    ensures
        distinct_keys(geometry_base(g)),
        distinct_keys(value_members(g.value) + bbox_members(g.bbox)),
        keys_within(value_members(g.value) + bbox_members(g.bbox), geometry_keys()),
        keys_within(geometry_base(g), geometry_keys()),
        forall|k: Seq<char>| #[trigger]
            lookup(geometry_base(g), k) == lookup(value_members(g.value) + bbox_members(g.bbox), k),
        forall|k: Seq<char>| #[trigger]
            lookup(geometry_base(g), k) == (if k == "bbox"@ {
                lookup(bbox_members(g.bbox), k)
            } else {
                lookup(value_members(g.value), k)
            }),
{
    lemma_member_names();
    let b = bbox_members(g.bbox);
    let v = value_members(g.value);
    let keys = geometry_keys();
    lemma_value_keys(g.value, keys, 0, 1, 2);
    lemma_bbox_keys(g.bbox, keys, 3);
    lemma_keys_within_append(b, v, keys);
    lemma_keys_within_append(v, b, keys);
    assert forall|k: Seq<char>| #[trigger]
        lookup(geometry_base(g), k) == lookup(v + b, k) by {
        lemma_lookup_append(b, v, k);
        lemma_lookup_append(v, b, k);
        lemma_bbox_lookup(g.bbox, k);
        lemma_value_lookup(g.value, k);
    }
    assert forall|k: Seq<char>| #[trigger]
        lookup(geometry_base(g), k) == (if k == "bbox"@ {
            lookup(b, k)
        } else {
            lookup(v, k)
        }) by {
        lemma_lookup_append(b, v, k);
        lemma_bbox_lookup(g.bbox, k);
        lemma_value_lookup(g.value, k);
    }
    let m = b + v;
    assert(v[0].0 == "type"@);
    assert(v[1].0 == "coordinates"@ || v[1].0 == "geometries"@);
    assert forall|i: int, j: int| 0 <= i < j < m.len() implies m[i].0 != m[j].0 by {
        if g.bbox is Some {
            assert(m[0].0 == "bbox"@);
            assert(m[1] == v[0] && m[2] == v[1]);
        } else {
            assert(m[0] == v[0] && m[1] == v[1]);
        }
    }
    let n = v + b;
    assert forall|i: int, j: int| 0 <= i < j < n.len() implies n[i].0 != n[j].0 by {
        assert(n[0] == v[0] && n[1] == v[1]);
        if g.bbox is Some {
            assert(n[2].0 == "bbox"@);
        }
    }
}

proof fn lemma_bbox_reads_back(b: Seq<JsonNumber>)
    requires
        binary64s(b),
    ensures
        map_all(b.map_values(|n: JsonNumber| JsonView::Number(n)), read_bbox_number()) == Ok::<
            Seq<JsonNumber>,
            ErrorView,
        >(b),
{
    assert forall|i: int| 0 <= i < b.len() implies read_bbox_number()(
        (|n: JsonNumber| JsonView::Number(n))(#[trigger] b[i]),
    ) == Ok::<JsonNumber, ErrorView>(b[i]) by {
        assert(b[i] is Float);
    }
    lemma_map_all_inverse(b, |n: JsonNumber| JsonView::Number(n), read_bbox_number());
}

/// The value of a written Geometry object reads back from an object that
/// holds its own members beside foreign ones named like no member of a
/// Geometry object; what is left are the foreign members.
proof fn lemma_value_read_back(m: Members, own: Members, f: Members, v: ValueView)
    requires
        split_as(m, own, f),
        fresh_members(f, geometry_keys()),
        forall|k: Seq<char>| #[trigger] lookup(own, k) == lookup(value_members(v), k),
        value_reads_back(v),
    ensures
        spec_get_value(m).1 matches Ok(w) && same_value(w, v),
        same_members(spec_get_value(m).0, f),
    decreases v, 1int,
{
    lemma_member_names();
    let keys = geometry_keys();
    assert(keys[0] == "type"@ && keys[1] == "coordinates"@ && keys[2] == "geometries"@);
    let t = value_type(v);
    lemma_type_names(t);
    lemma_value_lookup(v, "type"@);
    lemma_absent_key(f, keys, "type"@);
    lemma_split_remove(m, own, f, "type"@);
    let m1 = member_remove(m, "type"@);
    let own1 = member_remove(own, "type"@);
    assert(lookup(m, "type"@) == Some(JsonView::String(geometry_type_name(t))));
    let second = if v is GeometryCollection {
        "geometries"@
    } else {
        "coordinates"@
    };
    lemma_absent_key(f, keys, second);
    lemma_split_remove(m1, own1, f, second);
    lemma_lookup_after_remove(own, "type"@, second);
    lemma_value_lookup(v, second);
    let m2 = member_remove(m1, second);
    let own2 = member_remove(own1, second);
    assert forall|k: Seq<char>| #[trigger] lookup(own2, k) is None by {
        lemma_lookup_after_remove(own, "type"@, k);
        lemma_lookup_after_remove(own1, second, k);
        lemma_value_lookup(v, k);
    }
    lemma_split_done(m2, own2, f);
    match v {
        ValueView::Point(p) => {
            lemma_position_reads_back(p);
        },
        ValueView::MultiPoint(l) => {
            lemma_line_reads_back(l);
        },
        ValueView::LineString(l) => {
            lemma_line_reads_back(l);
        },
        ValueView::MultiLineString(r) => {
            lemma_rings_read_back(r);
        },
        ValueView::Polygon(r) => {
            lemma_rings_read_back(r);
        },
        ValueView::MultiPolygon(p) => {
            lemma_polygons_read_back(p);
        },
        ValueView::GeometryCollection(gs) => {
            assert(decreases_to!(v => gs));
            lemma_geometries_read_back(gs);
        },
    }
}

/// A written Geometry object reads back from an object that holds its own
/// members beside its foreign ones.
proof fn lemma_geometry_read_back(m: Members, own: Members, g: GeometryView)
    requires
        split_as(m, own, foreign_or_empty(g.foreign_members)),
        forall|k: Seq<char>| #[trigger] lookup(own, k) == lookup(geometry_base(g), k),
        geometry_reads_back(g),
    ensures
        spec_util_geometry(m) matches Ok(h) && same_geometry(h, g),
    decreases g, 2int,
{
    lemma_member_names();
    lemma_geometry_base(g);
    let keys = geometry_keys();
    let f = foreign_or_empty(g.foreign_members);
    assert(keys[3] == "bbox"@);
    assert(fresh_members(f, keys));
    lemma_absent_key(f, keys, "bbox"@);
    lemma_split_remove(m, own, f, "bbox"@);
    lemma_bbox_lookup(g.bbox, "bbox"@);
    if let Some(b) = g.bbox {
        lemma_bbox_reads_back(b);
    }
    let m1 = member_remove(m, "bbox"@);
    let own1 = member_remove(own, "bbox"@);
    assert forall|k: Seq<char>| #[trigger] lookup(own1, k) == lookup(value_members(g.value), k) by {
        lemma_lookup_after_remove(own, "bbox"@, k);
        lemma_value_lookup(g.value, k);
    }
    assert(decreases_to!(g => g.value));
    lemma_value_read_back(m1, own1, f, g.value);
}

/// A Geometry object written with its bounding box first reads back.
proof fn lemma_encoded_geometry_read_back(g: GeometryView)
    requires
        geometry_reads_back(g),
    ensures
        spec_util_geometry(encode_geometry(g)) matches Ok(h) && same_geometry(h, g),
    decreases g, 3int,
{
    let keys = geometry_keys();
    let base = geometry_base(g);
    let f = foreign_or_empty(g.foreign_members);
    if g.foreign_members is None {
        assert(f =~= Seq::<(Seq<char>, JsonView)>::empty());
    }
    assert(fresh_members(f, keys));
    lemma_geometry_base(g);
    lemma_written_members(base, f, keys);
    lemma_split_written(base, f, keys);
    lemma_geometry_read_back(base + f, base, g);
}

proof fn lemma_util_geometries_cons(a: Seq<JsonView>, h: GeometryView, hs: Seq<GeometryView>)
    requires
        a.len() > 0,
        crate::util_spec::spec_util_geometry_value(a[0]) == Ok::<GeometryView, ErrorView>(h),
        spec_util_geometries(a.subrange(1, a.len() as int)) == Ok::<Seq<GeometryView>, ErrorView>(
            hs,
        ),
    ensures
        spec_util_geometries(a) == Ok::<Seq<GeometryView>, ErrorView>(seq![h] + hs),
{
}

proof fn lemma_same_geometries_cons(h: GeometryView, hs: Seq<GeometryView>, gs: Seq<GeometryView>)
    requires
        gs.len() > 0,
        same_geometry(h, gs[0]),
        same_geometries(hs, gs.subrange(1, gs.len() as int)),
    ensures
        same_geometries(seq![h] + hs, gs),
{
    let all = seq![h] + hs;
    assert(all[0] == h);
    assert(all.subrange(1, all.len() as int) =~= hs);
}

/// Written Geometry objects read back, in order.
proof fn lemma_geometries_read_back(gs: Seq<GeometryView>)
    requires
        geometries_read_back(gs),
    ensures
        spec_util_geometries(encode_geometries(gs)) matches Ok(hs) && same_geometries(hs, gs),
    decreases gs, 0int,
{
    crate::encode::lemma_encode_geometries(gs);
    let a = encode_geometries(gs);
    if gs.len() == 0 {
        assert(a =~= Seq::<JsonView>::empty());
    } else {
        let g = gs[0];
        let rest = gs.subrange(1, gs.len() as int);
        assert(geometry_reads_back(g) && geometries_read_back(rest));
        assert(a.subrange(1, a.len() as int) =~= encode_geometries(rest));
        assert(a[0] == JsonView::Object(encode_geometry(g)));
        assert(decreases_to!(gs => gs[0]));
        lemma_encoded_geometry_read_back(g);
        assert(decreases_to!(gs => rest));
        lemma_geometries_read_back(rest);
        let h = spec_util_geometry(encode_geometry(g))->Ok_0;
        let hs = spec_util_geometries(encode_geometries(rest))->Ok_0;
        lemma_util_geometries_cons(a, h, hs);
        lemma_same_geometries_cons(h, hs, gs);
    }
}

/// Reading a written Geometry object member by member gives back the
/// geometry, but for the order of its foreign members.
pub proof fn lemma_member_reader_geometry(g: GeometryView)
    requires
        geometry_reads_back(g),
    ensures
        spec_util_geometry(geometry_object(g)) matches Ok(h) && same_geometry(h, g),
        spec_util_geometry(encode_geometry(g)) matches Ok(h) && same_geometry(h, g),
{
    lemma_geometry_base(g);
    let keys = geometry_keys();
    let f = foreign_or_empty(g.foreign_members);
    assert(fresh_members(f, keys));
    let own = value_members(g.value) + bbox_members(g.bbox);
    lemma_written_members(own, f, keys);
    lemma_split_written(own, f, keys);
    lemma_geometry_read_back(own + f, own, g);
    let base = geometry_base(g);
    lemma_written_members(base, f, keys);
    lemma_split_written(base, f, keys);
    lemma_geometry_read_back(base + f, base, g);
}

/// Reading the `"type"` and coordinates of a written geometry value member
/// by member gives back the value, but for the order of the foreign members
/// of its member geometries.
pub proof fn lemma_member_reader_value(v: ValueView)
    requires
        value_reads_back(v),
    ensures
        spec_get_value(value_members(v)).1 matches Ok(w) && same_value(w, v),
{
    let keys = geometry_keys();
    let own = value_members(v);
    let e = Seq::<(Seq<char>, JsonView)>::empty();
    lemma_member_names();
    lemma_value_keys(v, keys, 0, 1, 2);
    assert(own[0].0 == "type"@);
    assert(own[1].0 == "coordinates"@ || own[1].0 == "geometries"@);
    assert(distinct_keys(own));
    lemma_split_written(own, e, keys);
    assert(own + e =~= own);
    lemma_value_read_back(own, own, e, v);
}

/// A feature that the member-by-member reader reads back: its geometry
/// does, and its foreign members are absent, or present and named like no
/// member of a Feature object.
pub open spec fn feature_reads_back(f: FeatureView) -> bool {
    &&& bbox_ok(f.bbox)
    &&& match f.geometry {
        Some(g) => geometry_reads_back(g),
        None => true,
    }
    &&& foreign_ok(f.foreign_members, feature_keys())
}

/// Two features alike but for the order of foreign members, at any depth.
pub open spec fn same_feature(a: FeatureView, b: FeatureView) -> bool {
    &&& a.bbox == b.bbox
    &&& a.id == b.id
    &&& a.properties == b.properties
    &&& same_foreign(a.foreign_members, b.foreign_members)
    &&& match (a.geometry, b.geometry) {
        (None, None) => true,
        (Some(x), Some(y)) => same_geometry(x, y),
        _ => false,
    }
}

/// The own members of a written Feature object have each key once.
proof fn lemma_feature_base_distinct(f: FeatureView)
    ensures
        distinct_keys(feature_base(f)),
{
    lemma_member_names();
    let t = type_member("Feature"@);
    let g = ("geometry"@, geometry_member(f.geometry));
    let p = ("properties"@, properties_member(f.properties));
    let m = feature_base(f);
    match (f.bbox, f.id) {
        (Some(b), Some(i)) => {
            assert(m =~= seq![t, ("bbox"@, numbers_json(b)), g, ("id"@, id_json(i)), p]);
        },
        (Some(b), None) => {
            assert(m =~= seq![t, ("bbox"@, numbers_json(b)), g, p]);
        },
        (None, Some(i)) => {
            assert(m =~= seq![t, g, ("id"@, id_json(i)), p]);
        },
        (None, None) => {
            assert(m =~= seq![t, g, p]);
        },
    }
}

/// The members of a written Feature object as the reader takes them out:
/// `"type"`, `"geometry"`, `"properties"`, `"id"`, `"bbox"`, and then the
/// foreign members are left.
/// A written Feature object splits as its own members and its foreign ones.
proof fn lemma_feature_split(f: FeatureView)
    requires
        foreign_ok(f.foreign_members, feature_keys()),
    ensures
        split_as(encode_feature(f), feature_base(f), foreign_or_empty(f.foreign_members)),
        encode_feature(f) == feature_base(f) + foreign_or_empty(f.foreign_members),
        lookup(foreign_or_empty(f.foreign_members), "type"@) is None,
        lookup(foreign_or_empty(f.foreign_members), "bbox"@) is None,
        lookup(foreign_or_empty(f.foreign_members), "geometry"@) is None,
        lookup(foreign_or_empty(f.foreign_members), "id"@) is None,
        lookup(foreign_or_empty(f.foreign_members), "properties"@) is None,
{
    lemma_member_names();
    let keys = feature_keys();
    assert(keys[0] == "type"@ && keys[1] == "bbox"@ && keys[2] == "geometry"@);
    assert(keys[3] == "id"@ && keys[4] == "properties"@);
    let own = feature_base(f);
    let fm = foreign_or_empty(f.foreign_members);
    if f.foreign_members is None {
        assert(fm =~= Seq::<(Seq<char>, JsonView)>::empty());
    }
    assert(fresh_members(fm, keys));
    lemma_absent_key(fm, keys, "type"@);
    lemma_absent_key(fm, keys, "bbox"@);
    lemma_absent_key(fm, keys, "geometry"@);
    lemma_absent_key(fm, keys, "id"@);
    lemma_absent_key(fm, keys, "properties"@);
    lemma_feature_base_keys(f, keys, 0, 1, 2, 3, 4);
    lemma_feature_base_distinct(f);
    lemma_written_members(own, fm, keys);
    lemma_split_written(own, fm, keys);
}

proof fn lemma_feature_takes(f: FeatureView)
    requires
        foreign_ok(f.foreign_members, feature_keys()),
    ensures
        ({
            let m0 = encode_feature(f);
            let m1 = member_remove(m0, "type"@);
            let m2 = member_remove(m1, "geometry"@);
            let m3 = member_remove(m2, "properties"@);
            let m4 = member_remove(m3, "id"@);
            let m5 = member_remove(m4, "bbox"@);
            &&& lookup(m0, "type"@) == Some(JsonView::String("Feature"@))
            &&& lookup(m1, "geometry"@) == Some(geometry_member(f.geometry))
            &&& lookup(m2, "properties"@) == Some(properties_member(f.properties))
            &&& lookup(m3, "id"@) == lookup(id_members(f.id), "id"@)
            &&& lookup(m4, "bbox"@) == lookup(bbox_members(f.bbox), "bbox"@)
            &&& same_members(m5, foreign_or_empty(f.foreign_members))
        }),
{
    lemma_member_names();
    lemma_feature_split(f);
    let own = feature_base(f);
    let fm = foreign_or_empty(f.foreign_members);
    let m0 = own + fm;
    let m1 = member_remove(m0, "type"@);
    let own1 = member_remove(own, "type"@);
    let m2 = member_remove(m1, "geometry"@);
    let own2 = member_remove(own1, "geometry"@);
    let m3 = member_remove(m2, "properties"@);
    let own3 = member_remove(own2, "properties"@);
    let m4 = member_remove(m3, "id"@);
    let own4 = member_remove(own3, "id"@);
    let m5 = member_remove(m4, "bbox"@);
    let own5 = member_remove(own4, "bbox"@);
    assert(lookup(m0, "type"@) == Some(JsonView::String("Feature"@))) by {
        lemma_feature_base_lookup(f, "type"@);
        lemma_split_remove(m0, own, fm, "type"@);
    }
    assert(split_as(m1, own1, fm)) by {
        lemma_split_remove(m0, own, fm, "type"@);
    }
    assert(lookup(m1, "geometry"@) == Some(geometry_member(f.geometry))) by {
        lemma_lookup_after_remove(own, "type"@, "geometry"@);
        lemma_feature_base_lookup(f, "geometry"@);
        lemma_split_remove(m1, own1, fm, "geometry"@);
    }
    assert(split_as(m2, own2, fm)) by {
        lemma_split_remove(m1, own1, fm, "geometry"@);
    }
    assert(lookup(m2, "properties"@) == Some(properties_member(f.properties))) by {
        lemma_lookup_after_remove(own, "type"@, "properties"@);
        lemma_lookup_after_remove(own1, "geometry"@, "properties"@);
        lemma_feature_base_lookup(f, "properties"@);
        lemma_split_remove(m2, own2, fm, "properties"@);
    }
    assert(split_as(m3, own3, fm)) by {
        lemma_split_remove(m2, own2, fm, "properties"@);
    }
    assert(lookup(m3, "id"@) == lookup(id_members(f.id), "id"@)) by {
        lemma_lookup_after_remove(own, "type"@, "id"@);
        lemma_lookup_after_remove(own1, "geometry"@, "id"@);
        lemma_lookup_after_remove(own2, "properties"@, "id"@);
        lemma_feature_base_lookup(f, "id"@);
        lemma_split_remove(m3, own3, fm, "id"@);
    }
    assert(split_as(m4, own4, fm)) by {
        lemma_split_remove(m3, own3, fm, "id"@);
    }
    assert(lookup(m4, "bbox"@) == lookup(bbox_members(f.bbox), "bbox"@)) by {
        lemma_lookup_after_remove(own, "type"@, "bbox"@);
        lemma_lookup_after_remove(own1, "geometry"@, "bbox"@);
        lemma_lookup_after_remove(own2, "properties"@, "bbox"@);
        lemma_lookup_after_remove(own3, "id"@, "bbox"@);
        lemma_feature_base_lookup(f, "bbox"@);
        lemma_split_remove(m4, own4, fm, "bbox"@);
    }
    assert(same_members(m5, fm)) by {
        lemma_split_remove(m4, own4, fm, "bbox"@);
        assert forall|k: Seq<char>| #[trigger] lookup(own5, k) is None by {
            lemma_lookup_after_remove(own, "type"@, k);
            lemma_lookup_after_remove(own1, "geometry"@, k);
            lemma_lookup_after_remove(own2, "properties"@, k);
            lemma_lookup_after_remove(own3, "id"@, k);
            lemma_lookup_after_remove(own4, "bbox"@, k);
            lemma_feature_base_lookup(f, k);
        }
        lemma_split_done(m5, own5, fm);
    }
}

/// Reading a written Feature object member by member gives back the
/// feature, but for the order of its foreign members and of those of its
/// geometry.
pub proof fn lemma_member_reader_feature(f: FeatureView)
    requires
        feature_reads_back(f),
    ensures
        spec_util_feature(encode_feature(f)) matches Ok(h) && same_feature(h, f),
{
    lemma_member_names();
    lemma_feature_takes(f);
    reveal(geometry_member);
    if let Some(g) = f.geometry {
        lemma_encoded_geometry_read_back(g);
    }
    lemma_id_lookup(f.id, "id"@);
    if let Some(i) = f.id {
        match i {
            IdView::String(_) => {},
            IdView::Number(_) => {},
        }
    }
    lemma_bbox_lookup(f.bbox, "bbox"@);
    if let Some(b) = f.bbox {
        lemma_bbox_reads_back(b);
    }
    let fm = foreign_or_empty(f.foreign_members);
    assert(normalize(fm) == f.foreign_members);
}

/// A collection that the member-by-member reader reads back: each of its
/// features does, and its foreign members are absent, or present and named
/// like no member of a FeatureCollection object.
pub open spec fn collection_reads_back(c: FeatureCollectionView) -> bool {
    &&& bbox_ok(c.bbox)
    &&& forall|i: int| 0 <= i < c.features.len() ==> feature_reads_back(#[trigger] c.features[i])
    &&& foreign_ok(c.foreign_members, feature_collection_keys())
}

/// Two lists of features alike, one by one, but for the order of foreign
/// members.
pub open spec fn same_features(a: Seq<FeatureView>, b: Seq<FeatureView>) -> bool {
    &&& a.len() == b.len()
    &&& forall|i: int| 0 <= i < b.len() ==> same_feature(#[trigger] a[i], b[i])
}

/// Two collections alike but for the order of foreign members, at any depth.
pub open spec fn same_collection(a: FeatureCollectionView, b: FeatureCollectionView) -> bool {
    &&& a.bbox == b.bbox
    &&& same_foreign(a.foreign_members, b.foreign_members)
    &&& same_features(a.features, b.features)
}

/// Written Feature objects read back member by member, in order.
proof fn lemma_features_read_back(fs: Seq<FeatureView>)
    requires
        forall|i: int| 0 <= i < fs.len() ==> feature_reads_back(#[trigger] fs[i]),
    ensures
        map_all(encode_features(fs), read_feature_value()) matches Ok(hs) && same_features(hs, fs),
    decreases fs.len(),
{
    reveal(encode_features);
    let a = encode_features(fs);
    if fs.len() == 0 {
        assert(a =~= Seq::<JsonView>::empty());
    } else {
        let rest = fs.subrange(1, fs.len() as int);
        assert(a[0] == JsonView::Object(encode_feature(fs[0])));
        assert(a.subrange(1, a.len() as int) =~= encode_features(rest));
        assert(feature_reads_back(fs[0]));
        lemma_member_reader_feature(fs[0]);
        assert forall|i: int| 0 <= i < rest.len() implies feature_reads_back(#[trigger] rest[i]) by {
            assert(rest[i] == fs[i + 1]);
        }
        lemma_features_read_back(rest);
        let h = spec_util_feature(encode_feature(fs[0]))->Ok_0;
        let hs = map_all(encode_features(rest), read_feature_value())->Ok_0;
        let all = seq![h] + hs;
        assert(map_all(a, read_feature_value()) == Ok::<Seq<FeatureView>, ErrorView>(all));
        assert forall|i: int| 0 <= i < fs.len() implies same_feature(#[trigger] all[i], fs[i]) by {
            if i > 0 {
                assert(all[i] == hs[i - 1]);
                assert(rest[i - 1] == fs[i]);
            }
        }
    }
}

/// The own members of a written FeatureCollection object have each key once.
proof fn lemma_collection_base_distinct(c: FeatureCollectionView)
    ensures
        distinct_keys(collection_base(c)),
{
    lemma_member_names();
    let t = type_member("FeatureCollection"@);
    let fs = ("features"@, JsonView::Array(encode_features(c.features)));
    let m = collection_base(c);
    match c.bbox {
        Some(b) => {
            assert(m =~= seq![t, ("bbox"@, numbers_json(b)), fs]);
        },
        None => {
            assert(m =~= seq![t, fs]);
        },
    }
}

/// A written FeatureCollection object splits as its own members and its
/// foreign ones.
proof fn lemma_collection_split(c: FeatureCollectionView)
    requires
        foreign_ok(c.foreign_members, feature_collection_keys()),
    ensures
        split_as(
            encode_feature_collection(c),
            collection_base(c),
            foreign_or_empty(c.foreign_members),
        ),
        encode_feature_collection(c) == collection_base(c) + foreign_or_empty(c.foreign_members),
        lookup(foreign_or_empty(c.foreign_members), "type"@) is None,
        lookup(foreign_or_empty(c.foreign_members), "bbox"@) is None,
        lookup(foreign_or_empty(c.foreign_members), "features"@) is None,
{
    lemma_member_names();
    let keys = feature_collection_keys();
    assert(keys[0] == "type"@ && keys[1] == "bbox"@ && keys[2] == "features"@);
    let own = collection_base(c);
    let fm = foreign_or_empty(c.foreign_members);
    if c.foreign_members is None {
        assert(fm =~= Seq::<(Seq<char>, JsonView)>::empty());
    }
    assert(fresh_members(fm, keys));
    lemma_absent_key(fm, keys, "type"@);
    lemma_absent_key(fm, keys, "bbox"@);
    lemma_absent_key(fm, keys, "features"@);
    lemma_collection_base_keys(c, keys, 0, 1, 2);
    lemma_collection_base_distinct(c);
    lemma_written_members(own, fm, keys);
    lemma_split_written(own, fm, keys);
}

/// The members of a written FeatureCollection object as the reader takes
/// them out: `"type"`, `"bbox"`, `"features"`, and then the foreign members
/// are left.
proof fn lemma_collection_takes(c: FeatureCollectionView)
    requires
        foreign_ok(c.foreign_members, feature_collection_keys()),
    ensures
        ({
            let m0 = encode_feature_collection(c);
            let m1 = member_remove(m0, "type"@);
            let m2 = member_remove(m1, "bbox"@);
            let m3 = member_remove(m2, "features"@);
            &&& lookup(m0, "type"@) == Some(JsonView::String("FeatureCollection"@))
            &&& lookup(m1, "bbox"@) == lookup(bbox_members(c.bbox), "bbox"@)
            &&& lookup(m2, "features"@) == Some(JsonView::Array(encode_features(c.features)))
            &&& same_members(m3, foreign_or_empty(c.foreign_members))
        }),
{
    lemma_member_names();
    lemma_collection_split(c);
    let own = collection_base(c);
    let fm = foreign_or_empty(c.foreign_members);
    let m0 = own + fm;
    let m1 = member_remove(m0, "type"@);
    let own1 = member_remove(own, "type"@);
    let m2 = member_remove(m1, "bbox"@);
    let own2 = member_remove(own1, "bbox"@);
    let m3 = member_remove(m2, "features"@);
    let own3 = member_remove(own2, "features"@);
    assert(lookup(m0, "type"@) == Some(JsonView::String("FeatureCollection"@))) by {
        lemma_collection_base_lookup(c, "type"@);
        lemma_split_remove(m0, own, fm, "type"@);
    }
    assert(split_as(m1, own1, fm)) by {
        lemma_split_remove(m0, own, fm, "type"@);
    }
    assert(lookup(m1, "bbox"@) == lookup(bbox_members(c.bbox), "bbox"@)) by {
        lemma_lookup_after_remove(own, "type"@, "bbox"@);
        lemma_collection_base_lookup(c, "bbox"@);
        lemma_split_remove(m1, own1, fm, "bbox"@);
    }
    assert(split_as(m2, own2, fm)) by {
        lemma_split_remove(m1, own1, fm, "bbox"@);
    }
    assert(lookup(m2, "features"@) == Some(JsonView::Array(encode_features(c.features)))) by {
        lemma_lookup_after_remove(own, "type"@, "features"@);
        lemma_lookup_after_remove(own1, "bbox"@, "features"@);
        lemma_collection_base_lookup(c, "features"@);
        lemma_split_remove(m2, own2, fm, "features"@);
    }
    assert(same_members(m3, fm)) by {
        lemma_split_remove(m2, own2, fm, "features"@);
        assert forall|k: Seq<char>| #[trigger] lookup(own3, k) is None by {
            lemma_lookup_after_remove(own, "type"@, k);
            lemma_lookup_after_remove(own1, "bbox"@, k);
            lemma_lookup_after_remove(own2, "features"@, k);
            lemma_collection_base_lookup(c, k);
        }
        lemma_split_done(m3, own3, fm);
    }
}

/// Reading a written FeatureCollection object member by member gives back
/// the collection, but for the order of foreign members, at any depth.
pub proof fn lemma_member_reader_collection(c: FeatureCollectionView)
    requires
        collection_reads_back(c),
    ensures
        spec_util_collection(encode_feature_collection(c)) matches Ok(h) && same_collection(h, c),
{
    lemma_member_names();
    lemma_collection_takes(c);
    lemma_bbox_lookup(c.bbox, "bbox"@);
    if let Some(b) = c.bbox {
        lemma_bbox_reads_back(b);
    }
    lemma_features_read_back(c.features);
    let fm = foreign_or_empty(c.foreign_members);
    assert(normalize(fm) == c.foreign_members);
}

/// A GeoJSON object that the member-by-member reader reads back.
pub open spec fn object_reads_back(x: GeoJsonView) -> bool {
    match x {
        GeoJsonView::Geometry(g) => geometry_reads_back(g),
        GeoJsonView::Feature(f) => feature_reads_back(f),
        GeoJsonView::FeatureCollection(c) => collection_reads_back(c),
    }
}

/// Two GeoJSON objects alike but for the order of foreign members, at any
/// depth.
pub open spec fn same_object(a: GeoJsonView, b: GeoJsonView) -> bool {
    match (a, b) {
        (GeoJsonView::Geometry(x), GeoJsonView::Geometry(y)) => same_geometry(x, y),
        (GeoJsonView::Feature(x), GeoJsonView::Feature(y)) => same_feature(x, y),
        (GeoJsonView::FeatureCollection(x), GeoJsonView::FeatureCollection(y)) => same_collection(
            x,
            y,
        ),
        _ => false,
    }
}

/// The names of the object kinds denote those kinds.
proof fn lemma_kind_names(t: GeometryType)
    ensures
        type_named("Feature"@) == Some(Type::Feature),
        type_named("FeatureCollection"@) == Some(Type::FeatureCollection),
        type_named(geometry_type_name(t)) is Some,
        type_named(geometry_type_name(t)) != Some(Type::Feature),
        type_named(geometry_type_name(t)) != Some(Type::FeatureCollection),
{
    reveal_strlit("Point");
    reveal_strlit("MultiPoint");
    reveal_strlit("LineString");
    reveal_strlit("MultiLineString");
    reveal_strlit("Polygon");
    reveal_strlit("MultiPolygon");
    reveal_strlit("GeometryCollection");
    reveal_strlit("Feature");
    reveal_strlit("FeatureCollection");
    assert("Point"@.len() == 5 && "Point"@[0] == 'P');
    assert("MultiPoint"@.len() == 10 && "MultiPoint"@[0] == 'M');
    assert("LineString"@.len() == 10 && "LineString"@[0] == 'L');
    assert("MultiLineString"@.len() == 15 && "MultiLineString"@[0] == 'M');
    assert("Polygon"@.len() == 7 && "Polygon"@[0] == 'P' && "Polygon"@[1] == 'o');
    assert("MultiPolygon"@.len() == 12 && "MultiPolygon"@[0] == 'M');
    assert("GeometryCollection"@.len() == 18 && "GeometryCollection"@[0] == 'G');
    assert("Feature"@.len() == 7 && "Feature"@[0] == 'F');
    assert("FeatureCollection"@.len() == 17 && "FeatureCollection"@[0] == 'F');
}

/// The `"type"` member of a Geometry object written with its value first.
proof fn lemma_geometry_object_type(g: GeometryView)
    requires
        foreign_ok(g.foreign_members, geometry_keys()),
    ensures
        lookup(geometry_object(g), "type"@) == Some(
            JsonView::String(geometry_type_name(value_type(g.value))),
        ),
{
    lemma_member_names();
    let keys = geometry_keys();
    assert(keys[0] == "type"@);
    let f = foreign_or_empty(g.foreign_members);
    if g.foreign_members is None {
        assert(f =~= Seq::<(Seq<char>, JsonView)>::empty());
    }
    assert(fresh_members(f, keys));
    let own = value_members(g.value) + bbox_members(g.bbox);
    lemma_geometry_base(g);
    lemma_written_members(own, f, keys);
    lemma_lookup_append(own, f, "type"@);
    lemma_lookup_append(value_members(g.value), bbox_members(g.bbox), "type"@);
    lemma_value_lookup(g.value, "type"@);
}

/// Reading a written GeoJSON object member by member, as the kind its
/// `"type"` names, gives back the object, but for the order of foreign
/// members, at any depth.
pub proof fn lemma_member_reader_object(x: GeoJsonView)
    requires
        object_reads_back(x),
    ensures
        ({
            let m = match encode_geojson(x) {
                JsonView::Object(m) => m,
                _ => Seq::empty(),
            };
            &&& encode_geojson(x) is Object
            &&& spec_object(m) matches Ok(y) && same_object(y, x)
        }),
{
    match x {
        GeoJsonView::Geometry(g) => {
            lemma_kind_names(value_type(g.value));
            lemma_geometry_object_type(g);
            lemma_member_reader_geometry(g);
        },
        GeoJsonView::Feature(f) => {
            lemma_kind_names(GeometryType::Point);
            lemma_feature_takes(f);
            lemma_member_reader_feature(f);
        },
        GeoJsonView::FeatureCollection(c) => {
            lemma_kind_names(GeometryType::Point);
            lemma_collection_takes(c);
            lemma_member_reader_collection(c);
        },
    }
}

} // verus!
