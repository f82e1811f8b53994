//! Coordinate reference system objects, as GeoJSON documents before
//! RFC 7946 carried them in a `"crs"` member: a named CRS, or a link to one.
use crate::errors::{CrsFault, Error};
use crate::json::{lookup, JsonObject, JsonValue, JsonView, Members};
use vstd::prelude::*;

verus! {

/// A coordinate reference system.
#[derive(Clone, Debug, PartialEq)]
pub enum Crs {
    /// A CRS known by name.
    Named { name: String },
    /// A CRS described at `href`, in the format `type_` if given.
    Linked { href: String, type_: Option<String> },
}

pub enum CrsView {
    Named { name: Seq<char> },
    Linked { href: Seq<char>, type_: Option<Seq<char>> },
}

pub open spec fn opt_string_view(s: Option<String>) -> Option<Seq<char>> {
    match s {
        Some(s) => Some(s@),
        None => None,
    }
}

impl View for Crs {
    type V = CrsView;

    open spec fn view(&self) -> CrsView {
        match self {
            Crs::Named { name } => CrsView::Named { name: name@ },
            Crs::Linked { href, type_ } => CrsView::Linked {
                href: href@,
                type_: opt_string_view(*type_),
            },
        }
    }
}

/// A member that must be a string.
pub open spec fn spec_string(o: Option<JsonView>, missing: CrsFault) -> Result<Seq<char>, CrsFault> {
    match o {
        None => Err(missing),
        Some(JsonView::String(s)) => Ok(s),
        Some(_) => Err(CrsFault::ExpectedString),
    }
}

/// What a JSON object reads as when a CRS object is expected: its
/// `"type"`, then its `"properties"`, then the properties that the type needs.
pub open spec fn spec_crs(m: Members) -> Result<CrsView, CrsFault> {
    match spec_string(lookup(m, "type"@), CrsFault::MissingType) {
        Err(e) => Err(e),
        Ok(t) => match lookup(m, "properties"@) {
            None => Err(CrsFault::MissingProperties),
            Some(JsonView::Object(p)) => if t == "name"@ {
                match spec_string(lookup(p, "name"@), CrsFault::MissingName) {
                    Err(e) => Err(e),
                    Ok(name) => Ok(CrsView::Named { name }),
                }
            } else if t == "link"@ {
                match spec_string(lookup(p, "href"@), CrsFault::MissingLink) {
                    Err(e) => Err(e),
                    Ok(href) => match lookup(p, "type"@) {
                        None => Ok(CrsView::Linked { href, type_: None }),
                        Some(JsonView::String(s)) => Ok(CrsView::Linked { href, type_: Some(s) }),
                        Some(_) => Err(CrsFault::ExpectedString),
                    },
                }
            } else {
                Err(CrsFault::UnknownType)
            },
            Some(_) => Err(CrsFault::ExpectedObject),
        },
    }
}

/// The members of the `"properties"` object of a CRS.
pub open spec fn crs_properties(c: CrsView) -> Members {
    match c {
        CrsView::Named { name } => seq![("name"@, JsonView::String(name))],
        CrsView::Linked { href, type_ } => match type_ {
            Some(t) => seq![("href"@, JsonView::String(href)), ("type"@, JsonView::String(t))],
            None => seq![("href"@, JsonView::String(href))],
        },
    }
}

/// A CRS as a JSON object: `"properties"`, then `"type"`.
pub open spec fn crs_object(c: CrsView) -> Members {
    let t = match c {
        CrsView::Named { .. } => "name"@,
        CrsView::Linked { .. } => "link"@,
    };
    seq![("properties"@, JsonView::Object(crs_properties(c))), ("type"@, JsonView::String(t))]
}

pub open spec fn crs_result_view(r: Result<Crs, Error>) -> Result<CrsView, CrsFault> {
    match r {
        Ok(c) => Ok(c@),
        Err(Error::MalformedCrs(f)) => Err(f),
        Err(_) => Err(CrsFault::UnknownType),
    }
}

fn read_string(o: Option<&JsonValue>, missing: CrsFault) -> (r: Result<String, Error>)
    ensures
        match spec_string(
            match o {
                Some(v) => Some(v@),
                None => None,
            },
            missing,
        ) {
            Ok(s) => r matches Ok(x) && x@ == s,
            Err(f) => r == Err::<String, Error>(Error::MalformedCrs(f)),
        },
{
    match o {
        None => Err(Error::MalformedCrs(missing)),
        Some(JsonValue::String(s)) => Ok(s.clone()),
        Some(_) => Err(Error::MalformedCrs(CrsFault::ExpectedString)),
    }
}

fn string_value(s: &str) -> (r: JsonValue)
    ensures
        r@ == JsonView::String(s@),
{
    JsonValue::String(s.to_string())
}

impl Crs {
    /// Reads a CRS object.
    pub fn from_object(object: &JsonObject) -> (r: Result<Crs, Error>)
        ensures
            r is Ok || r matches Err(Error::MalformedCrs(_)),
            crs_result_view(r) == spec_crs(object@),
    {
        proof {
            reveal_strlit("name");
            reveal_strlit("link");
        }
        let t = match read_string(object.get("type"), CrsFault::MissingType) {
            Ok(t) => t,
            Err(e) => return Err(e),
        };
        let properties = match object.get("properties") {
            None => return Err(Error::MalformedCrs(CrsFault::MissingProperties)),
            Some(JsonValue::Object(p)) => p,
            Some(_) => return Err(Error::MalformedCrs(CrsFault::ExpectedObject)),
        };
        if crate::json::key_is(&t, "name") {
            let name = match read_string(properties.get("name"), CrsFault::MissingName) {
                Ok(n) => n,
                Err(e) => return Err(e),
            };
            Ok(Crs::Named { name })
        } else if crate::json::key_is(&t, "link") {
            let href = match read_string(properties.get("href"), CrsFault::MissingLink) {
                Ok(h) => h,
                Err(e) => return Err(e),
            };
            let type_ = match properties.get("type") {
                None => None,
                Some(JsonValue::String(s)) => Some(s.clone()),
                Some(_) => return Err(Error::MalformedCrs(CrsFault::ExpectedString)),
            };
            Ok(Crs::Linked { href, type_ })
        } else {
            Err(Error::MalformedCrs(CrsFault::UnknownType))
        }
    }

    /// This CRS as a JSON object.
    pub fn to_object(&self) -> (r: JsonObject)
        ensures
            r@ == crs_object(self@),
    {
        proof {
            reveal_strlit("properties");
            reveal_strlit("type");
            reveal_strlit("name");
            reveal_strlit("link");
            reveal_strlit("href");
        }
        let (properties, t) = match self {
            Crs::Named { name } => (
                vec![("name".to_string(), JsonValue::String(name.clone()))],
                string_value("name"),
            ),
            Crs::Linked { href, type_ } => {
                let mut p = vec![("href".to_string(), JsonValue::String(href.clone()))];
                match type_ {
                    Some(t) => {
                        p.push(("type".to_string(), JsonValue::String(t.clone())));
                    },
                    None => {},
                }
                (p, string_value("link"))
            },
        };
        let ghost pv = properties@;
        let crs = JsonObject {
            entries: vec![
                ("properties".to_string(), JsonValue::Object(JsonObject { entries: properties })),
                ("type".to_string(), t),
            ],
        };
        proof {
            crate::json::lemma_entries_view(pv);
            crate::json::lemma_entries_view(crs.entries@);
            assert(crate::json::entries_view(pv) =~= crs_properties(self@));
            assert(crs@ =~= crs_object(self@));
        }
        crs
    }

    /// This CRS as a JSON value.
    pub fn to_json(&self) -> (r: JsonValue)
        ensures
            r@ == JsonView::Object(crs_object(self@)),
    {
        JsonValue::Object(self.to_object())
    }
}

/// A CRS written as a JSON object reads back as itself.
pub proof fn lemma_crs_roundtrip(c: CrsView)
    ensures
        spec_crs(crs_object(c)) == Ok::<CrsView, CrsFault>(c),
{
    reveal_strlit("properties");
    reveal_strlit("type");
    reveal_strlit("name");
    reveal_strlit("link");
    reveal_strlit("href");
    assert("properties"@.len() == 10 && "type"@.len() == 4);
    assert("name"@.len() == 4 && "link"@.len() == 4 && "href"@.len() == 4);
    assert("name"@[0] == 'n' && "link"@[0] == 'l' && "href"@[0] == 'h' && "type"@[0] == 't');
    let m = crs_object(c);
    let p = crs_properties(c);
    crate::laws::lemma_lookup_pair(m[0], m[1], "type"@);
    crate::laws::lemma_lookup_pair(m[0], m[1], "properties"@);
    assert(m =~= seq![m[0], m[1]]);
    match c {
        CrsView::Named { name } => {
            crate::laws::lemma_lookup_single(p[0], "name"@);
            assert(p =~= seq![p[0]]);
        },
        CrsView::Linked { href, type_ } => {
            match type_ {
                Some(t) => {
                    crate::laws::lemma_lookup_pair(p[0], p[1], "href"@);
                    crate::laws::lemma_lookup_pair(p[0], p[1], "type"@);
                    assert(p =~= seq![p[0], p[1]]);
                },
                None => {
                    crate::laws::lemma_lookup_single(p[0], "href"@);
                    crate::laws::lemma_lookup_single(p[0], "type"@);
                    assert(p =~= seq![p[0]]);
                },
            }
        },
    }
}

} // verus!
