//! The top-level GeoJSON object (RFC 7946 § 3).
use crate::errors::{Error, ObjectKind};
use crate::feature::{Feature, FeatureView};
use crate::feature_collection::{FeatureCollection, FeatureCollectionView};
use crate::geometry::{geometries_view, Geometry, GeometryValue, GeometryView, ValueView};
use vstd::prelude::*;

verus! {

/// A GeoJSON object: a Geometry, a Feature or a FeatureCollection.
#[derive(Debug, PartialEq)]
pub enum GeoJson {
    Geometry(Geometry),
    Feature(Feature),
    FeatureCollection(FeatureCollection),
}

pub enum GeoJsonView {
    Geometry(GeometryView),
    Feature(FeatureView),
    FeatureCollection(FeatureCollectionView),
}

impl View for GeoJson {
    type V = GeoJsonView;

    open spec fn view(&self) -> GeoJsonView {
        match self {
            GeoJson::Geometry(g) => GeoJsonView::Geometry(g@),
            GeoJson::Feature(f) => GeoJsonView::Feature(f@),
            GeoJson::FeatureCollection(fc) => GeoJsonView::FeatureCollection(fc@),
        }
    }
}

pub open spec fn kind_of(g: GeoJsonView) -> ObjectKind {
    match g {
        GeoJsonView::Geometry(_) => ObjectKind::Geometry,
        GeoJsonView::Feature(_) => ObjectKind::Feature,
        GeoJsonView::FeatureCollection(_) => ObjectKind::FeatureCollection,
    }
}

/// The geometries of the Features that have one, in order.
pub open spec fn present_geometries(fs: Seq<FeatureView>) -> Seq<GeometryView>
    decreases fs.len(),
{
    if fs.len() == 0 {
        Seq::empty()
    } else {
        let rest = present_geometries(fs.drop_last());
        match fs.last().geometry {
            Some(g) => rest.push(g),
            None => rest,
        }
    }
}

/// The geometries a GeoJSON object holds at its top: a Geometry itself, a
/// Feature's geometry if it has one, and the geometries of a collection's
/// Features that have one.
pub open spec fn geometries_held(x: GeoJsonView) -> Seq<GeometryView> {
    match x {
        GeoJsonView::Geometry(g) => seq![g],
        GeoJsonView::Feature(f) => match f.geometry {
            Some(g) => seq![g],
            None => Seq::empty(),
        },
        GeoJsonView::FeatureCollection(c) => present_geometries(c.features),
    }
}

impl GeoJson {
    /// The geometries this object holds at its top, in order: the ones a
    /// GeometryCollection of the whole object is made of.
    pub fn geometries(&self) -> (r: Vec<&Geometry>)
        ensures
            r@.map_values(|g: &Geometry| g@) == geometries_held(self@),
    {
        let mut out: Vec<&Geometry> = Vec::new();
        match self {
            GeoJson::Geometry(g) => {
                out.push(g);
                proof {
                    assert(out@.map_values(|g: &Geometry| g@) =~= seq![g@]);
                }
            },
            GeoJson::Feature(f) => {
                match &f.geometry {
                    Some(g) => {
                        out.push(g);
                        proof {
                            assert(out@.map_values(|g: &Geometry| g@) =~= seq![g@]);
                        }
                    },
                    None => {
                        proof {
                            assert(out@.map_values(|g: &Geometry| g@) =~= Seq::<GeometryView>::empty());
                        }
                    },
                }
            },
            GeoJson::FeatureCollection(c) => {
                let ghost fs = crate::feature_collection::features_view(c.features@);
                proof {
                    assert(fs.take(0) =~= Seq::<FeatureView>::empty());
                    assert(out@.map_values(|g: &Geometry| g@) =~= Seq::<GeometryView>::empty());
                }
                let mut i: usize = 0;
                while i < c.features.len()
                    invariant
                        i <= c.features@.len(),
                        fs == crate::feature_collection::features_view(c.features@),
                        fs.len() == c.features@.len(),
                        out@.map_values(|g: &Geometry| g@) == present_geometries(fs.take(i as int)),
                    decreases c.features@.len() - i,
                {
                    let ghost before = out@;
                    proof {
                        assert(fs.take(i + 1).drop_last() =~= fs.take(i as int));
                        assert(fs.take(i + 1).last() == fs[i as int]);
                        assert(fs[i as int] == c.features@[i as int]@);
                    }
                    match &c.features[i].geometry {
                        Some(g) => {
                            out.push(g);
                            proof {
                                assert(out@.map_values(|g: &Geometry| g@) =~= before.map_values(
                                    |g: &Geometry| g@,
                                ).push(g@));
                            }
                        },
                        None => {},
                    }
                    i = i + 1;
                }
                proof {
                    assert(fs.take(fs.len() as int) =~= fs);
                }
            },
        }
        out
    }

    /// Which of the three kinds this object is.
    pub fn kind(&self) -> (r: ObjectKind)
        ensures
            r == kind_of(self@),
    {
        match self {
            GeoJson::Geometry(_) => ObjectKind::Geometry,
            GeoJson::Feature(_) => ObjectKind::Feature,
            GeoJson::FeatureCollection(_) => ObjectKind::FeatureCollection,
        }
    }

    /// A GeometryCollection of the given geometries.
    pub fn from_geometries(geometries: Vec<Geometry>) -> (r: GeoJson)
        ensures
            r@ == GeoJsonView::Geometry(
                GeometryView {
                    bbox: None,
                    value: ValueView::GeometryCollection(geometries_view(geometries@)),
                    foreign_members: None,
                },
            ),
    {
        GeoJson::Geometry(Geometry::new(GeometryValue::new_geometry_collection(geometries)))
    }
}

impl Geometry {
    /// The geometry that `value` is; any other kind is an `ExpectedType` error.
    pub fn try_from_geojson(value: GeoJson) -> (r: Result<Geometry, Error>)
        ensures
            match value@ {
                GeoJsonView::Geometry(g) => r matches Ok(x) && x@ == g,
                _ => r matches Err(Error::ExpectedType { expected, actual }) && expected
                    == ObjectKind::Geometry && actual == kind_of(value@),
            },
    {
        match value {
            GeoJson::Geometry(g) => Ok(g),
            GeoJson::Feature(_) => Err(
                Error::ExpectedType { expected: ObjectKind::Geometry, actual: ObjectKind::Feature },
            ),
            GeoJson::FeatureCollection(_) => Err(
                Error::ExpectedType {
                    expected: ObjectKind::Geometry,
                    actual: ObjectKind::FeatureCollection,
                },
            ),
        }
    }
}

impl Feature {
    /// The feature that `value` is; any other kind is an `ExpectedType` error.
    pub fn try_from_geojson(value: GeoJson) -> (r: Result<Feature, Error>)
        ensures
            match value@ {
                GeoJsonView::Feature(f) => r matches Ok(x) && x@ == f,
                _ => r matches Err(Error::ExpectedType { expected, actual }) && expected
                    == ObjectKind::Feature && actual == kind_of(value@),
            },
    {
        match value {
            GeoJson::Geometry(_) => Err(
                Error::ExpectedType { expected: ObjectKind::Feature, actual: ObjectKind::Geometry },
            ),
            GeoJson::Feature(f) => Ok(f),
            GeoJson::FeatureCollection(_) => Err(
                Error::ExpectedType {
                    expected: ObjectKind::Feature,
                    actual: ObjectKind::FeatureCollection,
                },
            ),
        }
    }
}

impl FeatureCollection {
    /// The collection that `value` is; any other kind is an `ExpectedType` error.
    pub fn try_from_geojson(value: GeoJson) -> (r: Result<FeatureCollection, Error>)
        ensures
            match value@ {
                GeoJsonView::FeatureCollection(c) => r matches Ok(x) && x@ == c,
                _ => r matches Err(Error::ExpectedType { expected, actual }) && expected
                    == ObjectKind::FeatureCollection && actual == kind_of(value@),
            },
    {
        match value {
            GeoJson::Geometry(_) => Err(
                Error::ExpectedType {
                    expected: ObjectKind::FeatureCollection,
                    actual: ObjectKind::Geometry,
                },
            ),
            GeoJson::Feature(_) => Err(
                Error::ExpectedType {
                    expected: ObjectKind::FeatureCollection,
                    actual: ObjectKind::Feature,
                },
            ),
            GeoJson::FeatureCollection(f) => Ok(f),
        }
    }
}

/// The geometries of features one after the other are those of the first
/// features, then those of the rest.
proof fn lemma_present_geometries_append(a: Seq<FeatureView>, b: Seq<FeatureView>)
    ensures
        present_geometries(a + b) == present_geometries(a) + present_geometries(b),
    decreases b.len(),
{
    if b.len() == 0 {
        assert(a + b =~= a);
        assert(present_geometries(a) + Seq::<GeometryView>::empty() =~= present_geometries(a));
    } else {
        assert((a + b).drop_last() =~= a + b.drop_last());
        assert((a + b).last() == b.last());
        lemma_present_geometries_append(a, b.drop_last());
        match b.last().geometry {
            Some(g) => {
                assert(present_geometries(a) + present_geometries(b.drop_last()).push(g)
                    =~= (present_geometries(a) + present_geometries(b.drop_last())).push(g));
            },
            None => {},
        }
    }
}

/// The geometries an object holds: a Geometry is itself; a Feature holds
/// exactly its geometry if it has one, and nothing otherwise; a collection
/// of one Feature holds what that Feature holds, a collection of none
/// holds nothing, and a collection of the Features of two collections, one
/// after the other, holds what the first holds followed by what the second
/// holds, whatever their boxes and foreign members.
pub proof fn lemma_geometries_held(
    g: GeometryView,
    f: FeatureView,
    c1: FeatureCollectionView,
    c2: FeatureCollectionView,
    c: FeatureCollectionView,
)
    ensures
        geometries_held(GeoJsonView::Geometry(g)) == seq![g],
        f.geometry matches Some(x) ==> geometries_held(GeoJsonView::Feature(f)) == seq![x],
        f.geometry is None ==> geometries_held(GeoJsonView::Feature(f)) == Seq::<GeometryView>::empty(),
        c.features == seq![f] ==> geometries_held(GeoJsonView::FeatureCollection(c))
            == geometries_held(GeoJsonView::Feature(f)),
        c.features.len() == 0 ==> geometries_held(GeoJsonView::FeatureCollection(c))
            == Seq::<GeometryView>::empty(),
        c.features == c1.features + c2.features ==> geometries_held(
            GeoJsonView::FeatureCollection(c),
        ) == geometries_held(GeoJsonView::FeatureCollection(c1)) + geometries_held(
            GeoJsonView::FeatureCollection(c2),
        ),
{
    lemma_present_geometries_append(c1.features, c2.features);
    let one = seq![f];
    assert(one.drop_last() =~= Seq::<FeatureView>::empty());
    assert(one.last() == f);
    assert(present_geometries(Seq::<FeatureView>::empty()) == Seq::<GeometryView>::empty());
    match f.geometry {
        Some(x) => {
            assert(Seq::<GeometryView>::empty().push(x) =~= seq![x]);
            assert(present_geometries(one) == seq![x]);
        },
        None => {
            assert(present_geometries(one) == Seq::<GeometryView>::empty());
        },
    }
}

} // verus!
