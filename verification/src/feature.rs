//! Feature objects (RFC 7946 § 3.2).
use crate::geometry::{
    geometry_view, opt_bbox_view, opt_object_view, Bbox, Geometry, GeometryValue, GeometryView,
};
use crate::json::{
    lemma_entries_view, lemma_lookup_after_insert,
    distinct_keys, find_key, lemma_lookup_without, lemma_without_len, lookup, member_insert, members_without,
    value_view, JsonNumber, JsonObject, JsonValue, JsonView, Members,
};
use vstd::prelude::*;

verus! {

/// A Feature identifier (RFC 7946 § 3.2): a string or a number.
#[derive(Clone, Debug, PartialEq)]
pub enum Id {
    String(String),
    Number(JsonNumber),
}

pub enum IdView {
    String(Seq<char>),
    Number(JsonNumber),
}

impl View for Id {
    type V = IdView;

    open spec fn view(&self) -> IdView {
        match self {
            Id::String(s) => IdView::String(s@),
            Id::Number(n) => IdView::Number(*n),
        }
    }
}

/// A Feature object (RFC 7946 § 3.2).
#[derive(Debug, PartialEq)]
pub struct Feature {
    pub bbox: Option<Bbox>,
    pub geometry: Option<Geometry>,
    pub id: Option<Id>,
    /// Properties. A document without a `"properties"` member is read as
    /// `None`; writing always emits the member, `null` for `None`.
    pub properties: Option<JsonObject>,
    pub foreign_members: Option<JsonObject>,
}

pub struct FeatureView {
    pub bbox: Option<Seq<JsonNumber>>,
    pub geometry: Option<GeometryView>,
    pub id: Option<IdView>,
    pub properties: Option<Members>,
    pub foreign_members: Option<Members>,
}

impl Default for Feature {
    /// A Feature with nothing in it: no box, geometry, identifier,
    /// properties or foreign members.
    fn default() -> (r: Feature)
        ensures
            r.bbox is None,
            r.geometry is None,
            r.id is None,
            r.properties is None,
            r.foreign_members is None,
    {
        Feature { bbox: None, geometry: None, id: None, properties: None, foreign_members: None }
    }
}

pub open spec fn opt_geometry_view(g: Option<Geometry>) -> Option<GeometryView> {
    match g {
        Some(g) => Some(geometry_view(g)),
        None => None,
    }
}

pub open spec fn opt_id_view(i: Option<Id>) -> Option<IdView> {
    match i {
        Some(i) => Some(i@),
        None => None,
    }
}

pub open spec fn feature_view(f: Feature) -> FeatureView {
    FeatureView {
        bbox: opt_bbox_view(f.bbox),
        geometry: opt_geometry_view(f.geometry),
        id: opt_id_view(f.id),
        properties: opt_object_view(f.properties),
        foreign_members: opt_object_view(f.foreign_members),
    }
}

impl View for Feature {
    type V = FeatureView;

    open spec fn view(&self) -> FeatureView {
        feature_view(*self)
    }
}

/// The properties of a feature, none when absent.
pub open spec fn properties_of(f: FeatureView) -> Members {
    match f.properties {
        Some(p) => p,
        None => Seq::empty(),
    }
}

/// A copy of a bounding box.
pub fn copy_bbox(b: &Bbox) -> (r: Bbox)
    ensures
        r@ == b@,
{
    let mut out: Vec<JsonNumber> = Vec::new();
    let mut i: usize = 0;
    while i < b.len()
        invariant
            i <= b.len(),
            out@ == b@.subrange(0, i as int),
        decreases b.len() - i,
    {
        out.push(b[i]);
        i = i + 1;
        proof {
            assert(out@ =~= b@.subrange(0, i as int));
        }
    }
    proof {
        assert(b@.subrange(0, b@.len() as int) =~= b@);
    }
    out
}

pub fn copy_opt_bbox(b: &Option<Bbox>) -> (r: Option<Bbox>)
    ensures
        opt_bbox_view(r) == opt_bbox_view(*b),
{
    match b {
        Some(v) => Some(copy_bbox(v)),
        None => None,
    }
}

pub fn copy_opt_object(o: &Option<JsonObject>) -> (r: Option<JsonObject>)
    ensures
        opt_object_view(r) == opt_object_view(*o),
{
    match o {
        Some(m) => Some(m.deep_clone()),
        None => None,
    }
}

impl Feature {
    /// A feature holding `geom`, with the geometry's bounding box and foreign
    /// members copied onto the feature.
    pub fn from_geometry(geom: Geometry) -> (r: Feature)
        ensures
            r@ == (FeatureView {
                bbox: geom@.bbox,
                geometry: Some(geom@),
                id: None,
                properties: None,
                foreign_members: geom@.foreign_members,
            }),
    {
        let bbox = copy_opt_bbox(&geom.bbox);
        let foreign_members = copy_opt_object(&geom.foreign_members);
        Feature { bbox, foreign_members, geometry: Some(geom), id: None, properties: None }
    }

    /// A feature holding a geometry with value `val` and nothing else.
    pub fn from_value(val: GeometryValue) -> (r: Feature)
        ensures
            r@ == (FeatureView {
                bbox: None,
                geometry: Some(GeometryView { bbox: None, value: val@, foreign_members: None }),
                id: None,
                properties: None,
                foreign_members: None,
            }),
    {
        Feature {
            bbox: None,
            foreign_members: None,
            geometry: Some(Geometry::new(val)),
            id: None,
            properties: None,
        }
    }

    /// The value of property `key`, if it is set.
    pub fn property(&self, key: &str) -> (r: Option<&JsonValue>)
        ensures
            r is None <==> lookup(properties_of(self@), key@) is None,
            r matches Some(v) ==> lookup(properties_of(self@), key@) == Some(v@),
    {
        match &self.properties {
            Some(props) => props.get(key),
            None => None,
        }
    }

    /// Whether property `key` is set.
    pub fn contains_property(&self, key: &str) -> (r: bool)
        ensures
            r == (lookup(properties_of(self@), key@) is Some),
    {
        match &self.properties {
            None => false,
            Some(props) => props.contains_key(key),
        }
    }

    /// Sets property `key` to `value`, replacing an older value.
    pub fn set_property(&mut self, key: String, value: JsonValue)
        ensures
            final(self)@ == (FeatureView {
                properties: Some(member_insert(properties_of(old(self)@), key@, value@)),
                ..old(self)@
            }),
    {
        if self.properties.is_none() {
            self.properties = Some(JsonObject::new());
        }
        match &mut self.properties {
            Some(props) => {
                props.insert(key, value);
            },
            None => {},
        }
    }

    /// Removes property `key`, returning its value if it was set; no
    /// property keyed `key` is left, and the others keep their order.
    pub fn remove_property(&mut self, key: &str) -> (r: Option<JsonValue>)
        ensures
            r is None <==> lookup(properties_of(old(self)@), key@) is None,
            r matches Some(v) ==> lookup(properties_of(old(self)@), key@) == Some(v@),
            final(self)@ == (FeatureView {
                properties: match old(self)@.properties {
                    Some(p) => Some(members_without(p, key@)),
                    None => None,
                },
                ..old(self)@
            }),
    {
        match &mut self.properties {
            Some(props) => props.remove_all(key),
            None => None,
        }
    }

    /// The number of properties.
    pub fn len_properties(&self) -> (r: usize)
        ensures
            r == properties_of(self@).len(),
    {
        match &self.properties {
            None => 0,
            Some(props) => props.len(),
        }
    }

    /// All properties, in order, as key and value.
    pub fn properties_iter(&self) -> (r: Vec<(&String, &JsonValue)>)
        ensures
            r@.len() == properties_of(self@).len(),
            forall|i: int|
                0 <= i < r@.len() ==> (#[trigger] r@[i]).0@ == properties_of(self@)[i].0 && r@[i].1@
                    == properties_of(self@)[i].1,
    {
        let mut out: Vec<(&String, &JsonValue)> = Vec::new();
        match &self.properties {
            None => {},
            Some(props) => {
                proof {
                    lemma_entries_view(props.entries@);
                }
                let mut i: usize = 0;
                while i < props.entries.len()
                    invariant
                        i <= props.entries.len(),
                        props@ == properties_of(self@),
                        props@.len() == props.entries@.len(),
                        forall|j: int|
                            0 <= j < props.entries@.len() ==> #[trigger] props@[j] == (
                                props.entries@[j].0@,
                                value_view(props.entries@[j].1),
                            ),
                        out@.len() == i,
                        forall|j: int|
                            0 <= j < i ==> (#[trigger] out@[j]).0@ == props@[j].0 && out@[j].1@
                                == props@[j].1,
                    decreases props.entries.len() - i,
                {
                    out.push((&props.entries[i].0, &props.entries[i].1));
                    i = i + 1;
                }
            },
        }
        out
    }
}

/// Reading a property after `set_property` gives the value set; every
/// other property reads as before.
pub proof fn lemma_property_after_set(f: FeatureView, k: Seq<char>, v: JsonView, k2: Seq<char>)
    ensures
        lookup(
            properties_of((FeatureView { properties: Some(member_insert(properties_of(f), k, v)), ..f })),
            k2,
        ) == (if k2 == k {
            Some(v)
        } else {
            lookup(properties_of(f), k2)
        }),
{
    lemma_lookup_after_insert(properties_of(f), k, v, k2);
}

/// Reading a property after `remove_property` finds it unset. When no two
/// properties share a key, as in every object read from a document, every
/// other property reads as before, no two properties share a key still,
/// and one property fewer is left if it was set, as many as before
/// otherwise.
pub proof fn lemma_property_after_remove(f: FeatureView, k: Seq<char>, k2: Seq<char>)
    ensures
        ({
            let g = (FeatureView {
                properties: match f.properties {
                    Some(p) => Some(members_without(p, k)),
                    None => None,
                },
                ..f
            });
            &&& lookup(properties_of(g), k) is None
            &&& distinct_keys(properties_of(f)) ==> {
                &&& distinct_keys(properties_of(g))
                &&& k2 != k ==> lookup(properties_of(g), k2) == lookup(properties_of(f), k2)
                &&& properties_of(g).len() == properties_of(f).len() - (if lookup(
                    properties_of(f),
                    k,
                ) is Some {
                    1int
                } else {
                    0int
                })
            }
        }),
{
    match f.properties {
        Some(p) => {
            lemma_lookup_without(p, k, k2);
            if distinct_keys(p) {
                lemma_without_len(p, k);
            }
        },
        None => {
            assert(find_key(Seq::<(Seq<char>, JsonView)>::empty(), k) == -1);
        },
    }
}

} // verus!
