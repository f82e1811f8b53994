//! Reading the `"coordinates"` member of a Geometry object.
//!
//! The nesting depth of the arrays decides what the coordinates are: a
//! position (an array of numbers), a list of positions, a list of lists,
//! or a list of lists of lists. Only the first element of each array is
//! looked at to find the depth; the remaining elements must then have the
//! shape that the first one fixed.
use crate::errors::DecodeError;
use crate::geometry::{
    line_view, polygons_view, rings_view, LineView, PolygonsView, Position, PositionView, RingsView,
};
use crate::json::{lemma_values_view, values_view, JsonNumber, JsonValue, JsonView};
use crate::number::{float_of, to_float};
use vstd::prelude::*;

verus! {

/// Coordinates, by their nesting depth.
#[derive(Debug, PartialEq)]
pub enum Coordinates {
    ZeroDimensional(Position),
    OneDimensional(Vec<Position>),
    TwoDimensional(Vec<Vec<Position>>),
    ThreeDimensional(Vec<Vec<Vec<Position>>>),
}

pub enum CoordinatesView {
    ZeroDimensional(PositionView),
    OneDimensional(LineView),
    TwoDimensional(RingsView),
    ThreeDimensional(PolygonsView),
}

impl View for Coordinates {
    type V = CoordinatesView;

    open spec fn view(&self) -> CoordinatesView {
        match self {
            Coordinates::ZeroDimensional(p) => CoordinatesView::ZeroDimensional(p@),
            Coordinates::OneDimensional(l) => CoordinatesView::OneDimensional(line_view(l@)),
            Coordinates::TwoDimensional(r) => CoordinatesView::TwoDimensional(rings_view(r@)),
            Coordinates::ThreeDimensional(p) => CoordinatesView::ThreeDimensional(
                polygons_view(p@),
            ),
        }
    }
}

/// An element met while reading coordinates: a number, or nested coordinates.
pub enum Element {
    Number(JsonNumber),
    Coords(Coordinates),
}

pub enum ElementView {
    Number(JsonNumber),
    Coords(CoordinatesView),
}

pub open spec fn element_result_view(r: Result<Element, DecodeError>) -> Result<
    ElementView,
    DecodeError,
> {
    match r {
        Ok(Element::Number(n)) => Ok(ElementView::Number(n)),
        Ok(Element::Coords(c)) => Ok(ElementView::Coords(c@)),
        Err(e) => Err(e),
    }
}

pub open spec fn all_numbers(s: Seq<JsonView>) -> bool {
    forall|i: int| 0 <= i < s.len() ==> #[trigger] s[i] is Number
}

/// The numbers of an array of numbers, as binary64 values.
pub open spec fn numbers_of(s: Seq<JsonView>) -> Seq<JsonNumber> {
    s.map_values(|x: JsonView| float_of(x->Number_0))
}

/// An array of numbers, as a position (of any length) of binary64 values.
pub open spec fn spec_position(v: JsonView) -> Option<PositionView> {
    match v {
        JsonView::Array(a) => if all_numbers(a) {
            Some(numbers_of(a))
        } else {
            None
        },
        _ => None,
    }
}

/// An array of positions.
pub open spec fn spec_line(v: JsonView) -> Option<LineView> {
    match v {
        JsonView::Array(a) => if forall|i: int| 0 <= i < a.len() ==> #[trigger] spec_position(a[i]) is Some {
            Some(a.map_values(|x: JsonView| spec_position(x)->0))
        } else {
            None
        },
        _ => None,
    }
}

/// An array of arrays of positions.
pub open spec fn spec_rings(v: JsonView) -> Option<RingsView> {
    match v {
        JsonView::Array(a) => if forall|i: int| 0 <= i < a.len() ==> #[trigger] spec_line(a[i]) is Some {
            Some(a.map_values(|x: JsonView| spec_line(x)->0))
        } else {
            None
        },
        _ => None,
    }
}

/// What a coordinates element reads as.
pub open spec fn spec_element(v: JsonView) -> Result<ElementView, DecodeError>
    decreases v,
{
    match v {
        JsonView::Number(n) => Ok(ElementView::Number(float_of(n))),
        JsonView::Array(a) => if a.len() == 0 {
            Ok(ElementView::Coords(CoordinatesView::OneDimensional(Seq::empty())))
        } else {
            let rest = a.subrange(1, a.len() as int);
            match spec_element(a[0]) {
                Err(e) => Err(e),
                Ok(ElementView::Number(first)) => if all_numbers(rest) {
                    Ok(
                        ElementView::Coords(
                            CoordinatesView::ZeroDimensional(seq![first] + numbers_of(rest)),
                        ),
                    )
                } else {
                    Err(DecodeError::InvalidCoordinates)
                },
                Ok(ElementView::Coords(CoordinatesView::ZeroDimensional(p))) => match spec_line(
                    JsonView::Array(rest),
                ) {
                    Some(l) => Ok(
                        ElementView::Coords(CoordinatesView::OneDimensional(seq![p] + l)),
                    ),
                    None => Err(DecodeError::InvalidCoordinates),
                },
                Ok(ElementView::Coords(CoordinatesView::OneDimensional(l))) => match spec_rings(
                    JsonView::Array(rest),
                ) {
                    Some(r) => Ok(
                        ElementView::Coords(CoordinatesView::TwoDimensional(seq![l] + r)),
                    ),
                    None => Err(DecodeError::InvalidCoordinates),
                },
                Ok(ElementView::Coords(CoordinatesView::TwoDimensional(r))) => match spec_polygons(
                    JsonView::Array(rest),
                ) {
                    Some(p) => Ok(
                        ElementView::Coords(CoordinatesView::ThreeDimensional(seq![r] + p)),
                    ),
                    None => Err(DecodeError::InvalidCoordinates),
                },
                Ok(ElementView::Coords(CoordinatesView::ThreeDimensional(_))) => Err(
                    DecodeError::CoordinatesTooDeep,
                ),
            }
        },
        _ => Err(DecodeError::InvalidCoordinates),
    }
}

/// An array of arrays of arrays of positions.
pub open spec fn spec_polygons(v: JsonView) -> Option<PolygonsView> {
    match v {
        JsonView::Array(a) => if forall|i: int| 0 <= i < a.len() ==> #[trigger] spec_rings(a[i]) is Some {
            Some(a.map_values(|x: JsonView| spec_rings(x)->0))
        } else {
            None
        },
        _ => None,
    }
}

/// What the value of a `"coordinates"` member reads as.
pub open spec fn spec_coordinates(v: JsonView) -> Result<CoordinatesView, DecodeError> {
    match spec_element(v) {
        Ok(ElementView::Number(_)) => Err(DecodeError::ExpectedArrayGotNumber),
        Ok(ElementView::Coords(c)) => Ok(c),
        Err(e) => Err(e),
    }
}

/// The elements of `a` from index `start` on, as a JSON array.
pub open spec fn tail_of(a: Vec<JsonValue>, start: int) -> JsonView {
    JsonView::Array(values_view(a@).subrange(start, a@.len() as int))
}

/// Reads the elements of `a` from `start` on as binary64 values.
pub fn numbers_from(a: &Vec<JsonValue>, start: usize) -> (r: Option<Vec<JsonNumber>>)
    requires
        start <= a@.len(),
    ensures
        match r {
            Some(ns) => spec_position(tail_of(*a, start as int)) == Some(ns@),
            None => spec_position(tail_of(*a, start as int)) is None,
        },
{
    proof {
        lemma_values_view(a@);
    }
    let ghost s = values_view(a@).subrange(start as int, a@.len() as int);
    let mut out: Vec<JsonNumber> = Vec::new();
    let mut i: usize = start;
    while i < a.len()
        invariant
            start <= i <= a.len(),
            s == values_view(a@).subrange(start as int, a@.len() as int),
            s.len() == a@.len() - start,
            forall|j: int| 0 <= j < s.len() ==> #[trigger] s[j] == a@[j + start]@,
            all_numbers(s.take(i - start)),
            out@ == numbers_of(s.take(i - start)),
        decreases a.len() - i,
    {
        match &a[i] {
            JsonValue::Number(n) => {
                out.push(to_float(*n));
                proof {
                    assert(s.take(i - start + 1) =~= s.take(i - start).push(s[i - start]));
                    assert(numbers_of(s.take(i - start + 1)) =~= numbers_of(s.take(i - start)).push(
                        float_of(*n),
                    ));
                }
                i = i + 1;
            },
            _ => {
                proof {
                    assert(!(s[i - start] is Number));
                    assert(!all_numbers(s));
                }
                return None;
            },
        }
    }
    proof {
        assert(s.take(i - start) =~= s);
    }
    Some(out)
}

/// Reads the elements of `a` from `start` on as positions.
pub fn line_from(a: &Vec<JsonValue>, start: usize) -> (r: Option<Vec<Position>>)
    requires
        start <= a@.len(),
    ensures
        match r {
            Some(l) => spec_line(tail_of(*a, start as int)) == Some(line_view(l@)),
            None => spec_line(tail_of(*a, start as int)) is None,
        },
{
    proof {
        lemma_values_view(a@);
    }
    let ghost s = values_view(a@).subrange(start as int, a@.len() as int);
    let mut out: Vec<Position> = Vec::new();
    let mut i: usize = start;
    while i < a.len()
        invariant
            start <= i <= a.len(),
            s == values_view(a@).subrange(start as int, a@.len() as int),
            s.len() == a@.len() - start,
            forall|j: int| 0 <= j < s.len() ==> #[trigger] s[j] == a@[j + start]@,
            out@.len() == i - start,
            forall|j: int| 0 <= j < i - start ==> #[trigger] spec_position(s[j]) == Some(out@[j]@),
        decreases a.len() - i,
    {
        match read_position(&a[i]) {
            Some(p) => {
                out.push(p);
                i = i + 1;
            },
            None => {
                proof {
                    assert(spec_position(s[i - start]) is None);
                }
                return None;
            },
        }
    }
    proof {
        assert(line_view(out@) =~= s.map_values(|x: JsonView| spec_position(x)->0));
    }
    Some(out)
}

/// Reads the elements of `a` from `start` on as arrays of positions.
pub fn rings_from(a: &Vec<JsonValue>, start: usize) -> (r: Option<Vec<Vec<Position>>>)
    requires
        start <= a@.len(),
    ensures
        match r {
            Some(l) => spec_rings(tail_of(*a, start as int)) == Some(rings_view(l@)),
            None => spec_rings(tail_of(*a, start as int)) is None,
        },
{
    proof {
        lemma_values_view(a@);
    }
    let ghost s = values_view(a@).subrange(start as int, a@.len() as int);
    let mut out: Vec<Vec<Position>> = Vec::new();
    let mut i: usize = start;
    while i < a.len()
        invariant
            start <= i <= a.len(),
            s == values_view(a@).subrange(start as int, a@.len() as int),
            s.len() == a@.len() - start,
            forall|j: int| 0 <= j < s.len() ==> #[trigger] s[j] == a@[j + start]@,
            out@.len() == i - start,
            forall|j: int|
                0 <= j < i - start ==> #[trigger] spec_line(s[j]) == Some(line_view(out@[j]@)),
        decreases a.len() - i,
    {
        match read_line(&a[i]) {
            Some(p) => {
                out.push(p);
                i = i + 1;
            },
            None => {
                proof {
                    assert(spec_line(s[i - start]) is None);
                }
                return None;
            },
        }
    }
    proof {
        assert(rings_view(out@) =~= s.map_values(|x: JsonView| spec_line(x)->0));
    }
    Some(out)
}

/// Reads the elements of `a` from `start` on as arrays of arrays of positions.
pub fn polygons_from(a: &Vec<JsonValue>, start: usize) -> (r: Option<Vec<Vec<Vec<Position>>>>)
    requires
        start <= a@.len(),
    ensures
        match r {
            Some(l) => spec_polygons(tail_of(*a, start as int)) == Some(polygons_view(l@)),
            None => spec_polygons(tail_of(*a, start as int)) is None,
        },
{
    proof {
        lemma_values_view(a@);
    }
    let ghost s = values_view(a@).subrange(start as int, a@.len() as int);
    let mut out: Vec<Vec<Vec<Position>>> = Vec::new();
    let mut i: usize = start;
    while i < a.len()
        invariant
            start <= i <= a.len(),
            s == values_view(a@).subrange(start as int, a@.len() as int),
            s.len() == a@.len() - start,
            forall|j: int| 0 <= j < s.len() ==> #[trigger] s[j] == a@[j + start]@,
            out@.len() == i - start,
            forall|j: int|
                0 <= j < i - start ==> #[trigger] spec_rings(s[j]) == Some(rings_view(out@[j]@)),
        decreases a.len() - i,
    {
        match read_rings(&a[i]) {
            Some(p) => {
                out.push(p);
                i = i + 1;
            },
            None => {
                proof {
                    assert(spec_rings(s[i - start]) is None);
                }
                return None;
            },
        }
    }
    proof {
        assert(polygons_view(out@) =~= s.map_values(|x: JsonView| spec_rings(x)->0));
    }
    Some(out)
}

/// Reads an array of numbers, of any length, as a position.
pub fn read_position(v: &JsonValue) -> (r: Option<Position>)
    ensures
        match r {
            Some(p) => spec_position(v@) == Some(p@),
            None => spec_position(v@) is None,
        },
{
    match v {
        JsonValue::Array(a) => {
            proof {
                lemma_values_view(a@);
                assert(values_view(a@).subrange(0, a@.len() as int) =~= values_view(a@));
            }
            match numbers_from(a, 0) {
                Some(ns) => Some(Position(ns)),
                None => None,
            }
        },
        _ => None,
    }
}

/// Reads an array of positions.
pub fn read_line(v: &JsonValue) -> (r: Option<Vec<Position>>)
    ensures
        match r {
            Some(l) => spec_line(v@) == Some(line_view(l@)),
            None => spec_line(v@) is None,
        },
{
    match v {
        JsonValue::Array(a) => {
            proof {
                lemma_values_view(a@);
                assert(values_view(a@).subrange(0, a@.len() as int) =~= values_view(a@));
            }
            line_from(a, 0)
        },
        _ => None,
    }
}

/// Reads an array of arrays of positions.
pub fn read_rings(v: &JsonValue) -> (r: Option<Vec<Vec<Position>>>)
    ensures
        match r {
            Some(l) => spec_rings(v@) == Some(rings_view(l@)),
            None => spec_rings(v@) is None,
        },
{
    match v {
        JsonValue::Array(a) => {
            proof {
                lemma_values_view(a@);
                assert(values_view(a@).subrange(0, a@.len() as int) =~= values_view(a@));
            }
            rings_from(a, 0)
        },
        _ => None,
    }
}

/// Reads one coordinates element: a number, or an array whose first
/// element fixes its depth.
pub fn read_element(v: &JsonValue) -> (r: Result<Element, DecodeError>)
    ensures
        element_result_view(r) == spec_element(v@),
    decreases v,
{
    match v {
        JsonValue::Number(n) => Ok(Element::Number(to_float(*n))),
        JsonValue::Array(a) => {
            proof {
                lemma_values_view(a@);
            }
            if a.len() == 0 {
                let empty: Vec<Position> = Vec::new();
                proof {
                    assert(line_view(empty@) =~= Seq::<PositionView>::empty());
                }
                return Ok(Element::Coords(Coordinates::OneDimensional(empty)));
            }
            proof {
                assert(decreases_to!(*v => v->Array_0));
                assert(decreases_to!(v->Array_0 => a@));
                assert(decreases_to!(a@ => a@[0]));
            }
            let ghost rest = values_view(a@).subrange(1, a@.len() as int);
            proof {
                assert(tail_of(*a, 1) == JsonView::Array(rest));
                assert(values_view(a@)[0] == a@[0]@);
            }
            match read_element(&a[0]) {
                Err(e) => Err(e),
                Ok(Element::Number(first)) => match numbers_from(a, 1) {
                    Some(ns) => {
                        let mut out = ns;
                        out.insert(0, first);
                        proof {
                            assert(out@ =~= seq![first] + numbers_of(rest));
                        }
                        Ok(Element::Coords(Coordinates::ZeroDimensional(Position(out))))
                    },
                    None => Err(DecodeError::InvalidCoordinates),
                },
                Ok(Element::Coords(Coordinates::ZeroDimensional(p))) => match line_from(a, 1) {
                    Some(l) => {
                        let ghost p_view = p@;
                        let mut out = l;
                        out.insert(0, p);
                        proof {
                            assert(line_view(out@) =~= seq![p_view] + spec_line(
                                JsonView::Array(rest),
                            )->0);
                        }
                        Ok(Element::Coords(Coordinates::OneDimensional(out)))
                    },
                    None => Err(DecodeError::InvalidCoordinates),
                },
                Ok(Element::Coords(Coordinates::OneDimensional(first))) => match rings_from(a, 1) {
                    Some(l) => {
                        let ghost f_view = line_view(first@);
                        let mut out = l;
                        out.insert(0, first);
                        proof {
                            assert(rings_view(out@) =~= seq![f_view] + spec_rings(
                                JsonView::Array(rest),
                            )->0);
                        }
                        Ok(Element::Coords(Coordinates::TwoDimensional(out)))
                    },
                    None => Err(DecodeError::InvalidCoordinates),
                },
                Ok(Element::Coords(Coordinates::TwoDimensional(first))) => match polygons_from(
                    a,
                    1,
                ) {
                    Some(l) => {
                        let ghost f_view = rings_view(first@);
                        let mut out = l;
                        out.insert(0, first);
                        proof {
                            assert(polygons_view(out@) =~= seq![f_view] + spec_polygons(
                                JsonView::Array(rest),
                            )->0);
                        }
                        Ok(Element::Coords(Coordinates::ThreeDimensional(out)))
                    },
                    None => Err(DecodeError::InvalidCoordinates),
                },
                Ok(Element::Coords(Coordinates::ThreeDimensional(_))) => Err(
                    DecodeError::CoordinatesTooDeep,
                ),
            }
        },
        _ => Err(DecodeError::InvalidCoordinates),
    }
}

pub open spec fn coordinates_result_view(r: Result<Coordinates, DecodeError>) -> Result<
    CoordinatesView,
    DecodeError,
> {
    match r {
        Ok(c) => Ok(c@),
        Err(e) => Err(e),
    }
}

/// Reads the value of a `"coordinates"` member.
pub fn read_coordinates(v: &JsonValue) -> (r: Result<Coordinates, DecodeError>)
    ensures
        coordinates_result_view(r) == spec_coordinates(v@),
{
    match read_element(v) {
        Ok(Element::Number(_)) => Err(DecodeError::ExpectedArrayGotNumber),
        Ok(Element::Coords(c)) => Ok(c),
        Err(e) => Err(e),
    }
}

} // verus!
