//! FeatureCollection objects (RFC 7946 § 3.3).
use crate::feature::{Feature, FeatureView};
use crate::geometry::Bbox;
use crate::json::{JsonNumber, JsonObject, Members};
use vstd::prelude::*;

verus! {

/// A FeatureCollection object (RFC 7946 § 3.3).
#[derive(Debug, PartialEq)]
pub struct FeatureCollection {
    pub bbox: Option<Bbox>,
    pub features: Vec<Feature>,
    pub foreign_members: Option<JsonObject>,
}

pub struct FeatureCollectionView {
    pub bbox: Option<Seq<JsonNumber>>,
    pub features: Seq<FeatureView>,
    pub foreign_members: Option<Members>,
}

pub open spec fn features_view(s: Seq<Feature>) -> Seq<FeatureView> {
    s.map_values(|f: Feature| f@)
}

impl View for FeatureCollection {
    type V = FeatureCollectionView;

    open spec fn view(&self) -> FeatureCollectionView {
        FeatureCollectionView {
            bbox: crate::geometry::opt_bbox_view(self.bbox),
            features: features_view(self.features@),
            foreign_members: crate::geometry::opt_object_view(self.foreign_members),
        }
    }
}

/// One step of deciding a collection's bounding box from its features'
/// boxes: `Some(n)` while every box so far has the same non-zero even length
/// `n` (`Some(0)` before the first feature), `None` once that fails.
pub open spec fn bbox_step(state: Option<nat>, f: FeatureView) -> Option<nat> {
    match state {
        None => None,
        Some(n) => match f.bbox {
            None => None,
            Some(b) => if b.len() == 0 || b.len() % 2 != 0 {
                None
            } else if n == 0 {
                Some(b.len())
            } else if n != b.len() {
                None
            } else {
                Some(n)
            },
        },
    }
}

/// The length of the box that a collection of `fs` gets, if it gets one.
pub open spec fn bbox_dimension_spec(fs: Seq<FeatureView>) -> Option<nat> {
    fs.fold_left(Some(0nat), |st: Option<nat>, f: FeatureView| bbox_step(st, f))
}

pub open spec fn opt_nat(o: Option<usize>) -> Option<nat> {
    match o {
        Some(n) => Some(n as nat),
        None => None,
    }
}

impl FeatureCollection {
    /// The length of the bounding box that collecting `features` yields:
    /// each box must be non-empty, of even length and of the same length as
    /// the others; the collected box is then their union. `Some(0)` for no
    /// features, `None` when some feature's box does not qualify.
    pub fn bbox_dimension(features: &Vec<Feature>) -> (r: Option<usize>)
        ensures
            bbox_dimension_spec(features_view(features@)) == opt_nat(r),
    {
        let ghost fs = features_view(features@);
        let mut state: Option<usize> = Some(0);
        let mut i: usize = 0;
        while i < features.len()
            invariant
                i <= features.len(),
                fs == features_view(features@),
                fs.len() == features@.len(),
                fs.take(i as int).fold_left(
                    Some(0nat),
                    |st: Option<nat>, f: FeatureView| bbox_step(st, f),
                ) == opt_nat(state),
            decreases features.len() - i,
        {
            proof {
                assert(fs.take(i + 1).drop_last() =~= fs.take(i as int));
                assert(fs.take(i + 1).last() == fs[i as int]);
                assert(fs[i as int] == features@[i as int]@);
            }
            state =
            match state {
                None => None,
                Some(n) => match &features[i].bbox {
                    None => None,
                    Some(b) => {
                        if b.len() == 0 || b.len() % 2 != 0 {
                            None
                        } else if n == 0 {
                            Some(b.len())
                        } else if n != b.len() {
                            None
                        } else {
                            Some(n)
                        }
                    },
                },
            };
            i = i + 1;
        }
        proof {
            assert(fs.take(features@.len() as int) =~= fs);
        }
        state
    }
}

/// The length of a feature's box, 0 when it has none.
pub open spec fn box_len(f: FeatureView) -> nat {
    match f.bbox {
        Some(b) => b.len(),
        None => 0,
    }
}

/// The feature has a box of length `n`.
pub open spec fn has_box_of_len(f: FeatureView, n: nat) -> bool {
    f.bbox matches Some(b) && b.len() == n
}

/// Every feature has a box, and all the boxes have the same non-zero even
/// length `n`.
pub open spec fn boxes_all_of_len(fs: Seq<FeatureView>, n: nat) -> bool {
    &&& n > 0
    &&& n % 2 == 0
    &&& forall|i: int| 0 <= i < fs.len() ==> has_box_of_len(#[trigger] fs[i], n)
}

proof fn lemma_bbox_dimension_first(fs: Seq<FeatureView>)
    requires
        fs.len() > 0,
    ensures
        bbox_dimension_spec(fs) is Some <==> boxes_all_of_len(fs, box_len(fs[0])),
        bbox_dimension_spec(fs) is Some ==> bbox_dimension_spec(fs) == Some(box_len(fs[0])),
    decreases fs.len(),
{
    let ps = fs.drop_last();
    let f = fs.last();
    assert(bbox_dimension_spec(fs) == bbox_step(bbox_dimension_spec(ps), f));
    if ps.len() == 0 {
        assert(bbox_dimension_spec(ps) == Some(0nat));
        assert(fs[0] == f);
    } else {
        lemma_bbox_dimension_first(ps);
        assert(ps[0] == fs[0]);
        let l0 = box_len(fs[0]);
        if boxes_all_of_len(fs, l0) {
            assert forall|i: int| 0 <= i < ps.len() implies has_box_of_len(#[trigger] ps[i], l0) by {
                assert(ps[i] == fs[i]);
            }
            assert(fs[fs.len() - 1] == f);
        }
        if bbox_dimension_spec(ps) is Some && bbox_dimension_spec(fs) is Some {
            assert forall|i: int| 0 <= i < fs.len() implies has_box_of_len(#[trigger] fs[i], l0) by {
                if i < ps.len() {
                    assert(ps[i] == fs[i]);
                }
            }
        }
    }
}

/// Collecting features gives a box exactly when every feature has one and
/// all of them have the same non-zero even length, which is then the
/// collected box's length; no features give the empty box.
pub proof fn lemma_collected_box_length(fs: Seq<FeatureView>, n: nat)
    ensures
        fs.len() == 0 ==> bbox_dimension_spec(fs) == Some(0nat),
        fs.len() > 0 ==> (bbox_dimension_spec(fs) == Some(n) <==> boxes_all_of_len(fs, n)),
{
    if fs.len() > 0 {
        lemma_bbox_dimension_first(fs);
        if boxes_all_of_len(fs, n) {
            assert(has_box_of_len(fs[0], n));
        }
    }
}

} // verus!
