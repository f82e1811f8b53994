//! The JSON data model that GeoJSON documents are made of.
//!
//! Numbers are kept exactly as the JSON document carries them: a
//! non-negative integer, a negative integer, or the IEEE-754 binary64 bit
//! pattern of a fractional number.
use vstd::prelude::*;
use vstd::string::StringSliceAdditionalSpecFns;

verus! {

/// A JSON number, as read from or written to a document.
#[derive(Clone, Copy, Debug, PartialEq, Eq)]
pub enum JsonNumber {
    /// A non-negative integer.
    PosInt(u64),
    /// A negative integer.
    NegInt(i64),
    /// A number with a fraction or an exponent, as its binary64 bit pattern.
    Float(u64),
}

/// A JSON value.
#[derive(Debug, PartialEq)]
pub enum JsonValue {
    Null,
    Bool(bool),
    Number(JsonNumber),
    String(String),
    Array(Vec<JsonValue>),
    Object(JsonObject),
}

/// A JSON object: its members in document order.
///
/// Lookups find the first member with a given key; `insert` keeps keys
/// unique, so objects built with it behave as maps.
#[derive(Debug, PartialEq)]
pub struct JsonObject {
    pub entries: Vec<(String, JsonValue)>,
}

/// The mathematical value of a JSON document.
pub enum JsonView {
    Null,
    Bool(bool),
    Number(JsonNumber),
    String(Seq<char>),
    Array(Seq<JsonView>),
    Object(Seq<(Seq<char>, JsonView)>),
}

/// The members of an object, as key text and value.
pub type Members = Seq<(Seq<char>, JsonView)>;

pub open spec fn value_view(v: JsonValue) -> JsonView
    decreases v, 0int,
{
    match v {
        JsonValue::Null => JsonView::Null,
        JsonValue::Bool(b) => JsonView::Bool(b),
        JsonValue::Number(n) => JsonView::Number(n),
        JsonValue::String(s) => JsonView::String(s@),
        JsonValue::Array(a) => JsonView::Array(values_view(a@)),
        JsonValue::Object(o) => JsonView::Object(entries_view(o.entries@)),
    }
}

pub open spec fn values_view(s: Seq<JsonValue>) -> Seq<JsonView>
    decreases s, 1int,
{
    if s.len() == 0 {
        Seq::empty()
    } else {
        seq![value_view(s[0])] + values_view(s.subrange(1, s.len() as int))
    }
}

pub open spec fn entries_view(s: Seq<(String, JsonValue)>) -> Members
    decreases s, 1int,
{
    if s.len() == 0 {
        Seq::empty()
    } else {
        seq![(s[0].0@, value_view(s[0].1))] + entries_view(s.subrange(1, s.len() as int))
    }
}

impl View for JsonValue {
    type V = JsonView;

    open spec fn view(&self) -> JsonView {
        value_view(*self)
    }
}

impl View for JsonObject {
    type V = Members;

    open spec fn view(&self) -> Members {
        entries_view(self.entries@)
    }
}

pub proof fn lemma_values_view(s: Seq<JsonValue>)
    ensures
        values_view(s).len() == s.len(),
        forall|i: int| 0 <= i < s.len() ==> #[trigger] values_view(s)[i] == value_view(s[i]),
    decreases s.len(),
{
    if s.len() > 0 {
        lemma_values_view(s.subrange(1, s.len() as int));
        assert forall|i: int| 0 <= i < s.len() implies #[trigger] values_view(s)[i] == value_view(
            s[i],
        ) by {
            if i > 0 {
                assert(s.subrange(1, s.len() as int)[i - 1] == s[i]);
            }
        }
    }
}

pub proof fn lemma_entries_view(s: Seq<(String, JsonValue)>)
    ensures
        entries_view(s).len() == s.len(),
        forall|i: int|
            0 <= i < s.len() ==> #[trigger] entries_view(s)[i] == (s[i].0@, value_view(s[i].1)),
    decreases s.len(),
{
    if s.len() > 0 {
        lemma_entries_view(s.subrange(1, s.len() as int));
        assert forall|i: int| 0 <= i < s.len() implies #[trigger] entries_view(s)[i] == (
            s[i].0@,
            value_view(s[i].1),
        ) by {
            if i > 0 {
                assert(s.subrange(1, s.len() as int)[i - 1] == s[i]);
            }
        }
    }
}

pub proof fn lemma_values_view_push(s: Seq<JsonValue>, x: JsonValue)
    ensures
        values_view(s.push(x)) == values_view(s).push(value_view(x)),
{
    lemma_values_view(s);
    lemma_values_view(s.push(x));
    assert(values_view(s.push(x)) =~= values_view(s).push(value_view(x)));
}

pub proof fn lemma_entries_view_push(s: Seq<(String, JsonValue)>, x: (String, JsonValue))
    ensures
        entries_view(s.push(x)) == entries_view(s).push((x.0@, value_view(x.1))),
{
    lemma_entries_view(s);
    lemma_entries_view(s.push(x));
    assert(entries_view(s.push(x)) =~= entries_view(s).push((x.0@, value_view(x.1))));
}

/// The index of the first member whose key is `k`, or -1.
pub open spec fn find_key(m: Members, k: Seq<char>) -> int
    decreases m.len(),
{
    if m.len() == 0 {
        -1
    } else if m[0].0 == k {
        0
    } else {
        let r = find_key(m.subrange(1, m.len() as int), k);
        if r < 0 {
            -1
        } else {
            r + 1
        }
    }
}

/// The value of the first member whose key is `k`.
pub open spec fn lookup(m: Members, k: Seq<char>) -> Option<JsonView> {
    let i = find_key(m, k);
    if i < 0 {
        None
    } else {
        Some(m[i].1)
    }
}

pub proof fn lemma_find_key(m: Members, k: Seq<char>)
    ensures
        -1 <= find_key(m, k) < m.len(),
        find_key(m, k) >= 0 ==> m[find_key(m, k)].0 == k,
        forall|j: int| 0 <= j < m.len() && (find_key(m, k) < 0 || j < find_key(m, k)) ==> #[trigger] m[j].0 != k,
    decreases m.len(),
{
    if m.len() > 0 {
        let rest = m.subrange(1, m.len() as int);
        lemma_find_key(rest, k);
        assert forall|j: int|
            0 <= j < m.len() && (find_key(m, k) < 0 || j < find_key(m, k)) implies #[trigger] m[j].0
            != k by {
            if j > 0 {
                assert(rest[j - 1] == m[j]);
            }
        }
    }
}

/// The members after setting `k` to `v`: in place if `k` is present, at
/// the end otherwise.
pub open spec fn member_insert(m: Members, k: Seq<char>, v: JsonView) -> Members {
    let i = find_key(m, k);
    if i < 0 {
        m.push((k, v))
    } else {
        m.update(i, (k, v))
    }
}

/// The members after removing the first one keyed `k`: the last member
/// takes its place.
pub open spec fn member_remove(m: Members, k: Seq<char>) -> Members {
    let i = find_key(m, k);
    if i < 0 {
        m
    } else {
        m.update(i, m.last()).drop_last()
    }
}

/// The members after removing members keyed `k`, each as `member_remove`
/// does, until none is left.
pub open spec fn members_without(m: Members, k: Seq<char>) -> Members
    decreases m.len(),
{
    if find_key(m, k) < 0 {
        m
    } else {
        proof {
            lemma_find_key(m, k);
        }
        members_without(member_remove(m, k), k)
    }
}

/// After every member keyed `k` is removed, `k` reads as absent. When no
/// two members share a key, that takes one removal, and every other key
/// reads as before.
pub proof fn lemma_lookup_without(m: Members, k: Seq<char>, k2: Seq<char>)
    ensures
        lookup(members_without(m, k), k) is None,
        distinct_keys(m) ==> members_without(m, k) == member_remove(m, k),
        distinct_keys(m) ==> distinct_keys(members_without(m, k)),
        distinct_keys(m) && k2 != k ==> lookup(members_without(m, k), k2) == lookup(m, k2),
    decreases m.len(),
{
    lemma_find_key(m, k);
    if find_key(m, k) >= 0 {
        lemma_lookup_without(member_remove(m, k), k, k2);
        if distinct_keys(m) {
            lemma_lookup_after_remove(m, k, k);
            lemma_lookup_after_remove(m, k, k2);
            lemma_find_key(member_remove(m, k), k);
        }
    }
}

/// When no two members share a key, removing a key takes out one member
/// if one has it, and none otherwise.
pub proof fn lemma_without_len(m: Members, k: Seq<char>)
    requires
        distinct_keys(m),
    ensures
        members_without(m, k).len() == m.len() - (if lookup(m, k) is Some {
            1int
        } else {
            0int
        }),
{
    lemma_lookup_without(m, k, k);
    lemma_find_key(m, k);
}

/// A member list in which no key occurs twice.
pub open spec fn distinct_keys(m: Members) -> bool {
    forall|i: int, j: int| 0 <= i < j < m.len() ==> m[i].0 != m[j].0
}

/// The first member keyed `k` is at `i` when none before it is.
proof fn lemma_find_key_first(m: Members, k: Seq<char>, i: int)
    requires
        0 <= i < m.len(),
        m[i].0 == k,
        forall|j: int| 0 <= j < i ==> #[trigger] m[j].0 != k,
    ensures
        find_key(m, k) == i,
{
    lemma_find_key(m, k);
}

/// No member is keyed `k`.
proof fn lemma_find_key_none(m: Members, k: Seq<char>)
    requires
        forall|j: int| 0 <= j < m.len() ==> #[trigger] m[j].0 != k,
    ensures
        find_key(m, k) == -1,
{
    lemma_find_key(m, k);
}

/// With distinct keys, the member keyed `k` is the one at `i`.
proof fn lemma_find_key_distinct(m: Members, k: Seq<char>, i: int)
    requires
        distinct_keys(m),
        0 <= i < m.len(),
        m[i].0 == k,
    ensures
        find_key(m, k) == i,
{
    assert forall|j: int| 0 <= j < i implies #[trigger] m[j].0 != k by {
        assert(m[j].0 != m[i].0);
    }
    lemma_find_key_first(m, k, i);
}

/// Reading a key after setting it gives the value set; every other key
/// reads as before.
pub proof fn lemma_lookup_after_insert(m: Members, k: Seq<char>, v: JsonView, k2: Seq<char>)
    ensures
        lookup(member_insert(m, k, v), k2) == (if k2 == k {
            Some(v)
        } else {
            lookup(m, k2)
        }),
{
    lemma_find_key(m, k);
    lemma_find_key(m, k2);
    let i = find_key(m, k);
    let f = find_key(m, k2);
    let r = member_insert(m, k, v);
    if i < 0 {
        assert(r == m.push((k, v)));
        if k2 == k {
            assert forall|j: int| 0 <= j < m.len() implies #[trigger] r[j].0 != k by {
                assert(r[j] == m[j]);
            }
            lemma_find_key_first(r, k, m.len() as int);
        } else if f < 0 {
            assert forall|j: int| 0 <= j < r.len() implies #[trigger] r[j].0 != k2 by {
                if j < m.len() {
                    assert(r[j] == m[j]);
                }
            }
            lemma_find_key_none(r, k2);
        } else {
            assert forall|j: int| 0 <= j < f implies #[trigger] r[j].0 != k2 by {
                assert(r[j] == m[j]);
            }
            lemma_find_key_first(r, k2, f);
        }
    } else {
        assert(r == m.update(i, (k, v)));
        if k2 == k {
            assert forall|j: int| 0 <= j < i implies #[trigger] r[j].0 != k by {
                assert(r[j] == m[j]);
            }
            lemma_find_key_first(r, k, i);
        } else if f < 0 {
            assert forall|j: int| 0 <= j < r.len() implies #[trigger] r[j].0 != k2 by {
                if j != i {
                    assert(r[j] == m[j]);
                }
            }
            lemma_find_key_none(r, k2);
        } else {
            assert(f != i);
            assert forall|j: int| 0 <= j < f implies #[trigger] r[j].0 != k2 by {
                if j != i {
                    assert(r[j] == m[j]);
                }
            }
            lemma_find_key_first(r, k2, f);
        }
    }
}

/// Setting a key keeps the keys distinct.
pub proof fn lemma_insert_keeps_keys_distinct(m: Members, k: Seq<char>, v: JsonView)
    requires
        distinct_keys(m),
    ensures
        distinct_keys(member_insert(m, k, v)),
{
    lemma_find_key(m, k);
    let i = find_key(m, k);
    let r = member_insert(m, k, v);
    assert forall|a: int, b: int| 0 <= a < b < r.len() implies r[a].0 != r[b].0 by {
        if i < 0 {
            if b == m.len() {
                assert(r[a] == m[a]);
            } else {
                assert(r[a] == m[a] && r[b] == m[b]);
            }
        } else {
            assert(r[a].0 == m[a].0 && r[b].0 == m[b].0);
        }
    }
}

/// With distinct keys, a removed key reads as absent, every other key
/// reads as before, and the keys stay distinct.
pub proof fn lemma_lookup_after_remove(m: Members, k: Seq<char>, k2: Seq<char>)
    requires
        distinct_keys(m),
    ensures
        distinct_keys(member_remove(m, k)),
        lookup(member_remove(m, k), k2) == (if k2 == k {
            None
        } else {
            lookup(m, k2)
        }),
{
    lemma_find_key(m, k);
    lemma_find_key(m, k2);
    let i = find_key(m, k);
    let f = find_key(m, k2);
    if i >= 0 {
        let r = member_remove(m, k);
        let n = m.len() - 1;
        assert(r.len() == n);
        assert forall|j: int| 0 <= j < n implies #[trigger] r[j] == (if j == i {
            m[n]
        } else {
            m[j]
        }) by {}
        assert forall|a: int, b: int| 0 <= a < b < r.len() implies r[a].0 != r[b].0 by {
            let ia = if a == i { n } else { a };
            let ib = if b == i { n } else { b };
            assert(r[a] == m[ia] && r[b] == m[ib]);
            assert(ia != ib);
            if ia < ib {
                assert(m[ia].0 != m[ib].0);
            } else {
                assert(m[ib].0 != m[ia].0);
            }
        }
        if k2 == k {
            assert forall|j: int| 0 <= j < r.len() implies #[trigger] r[j].0 != k by {
                let ij = if j == i { n } else { j };
                assert(r[j] == m[ij]);
                assert(ij != i);
                if ij < i {
                    assert(m[ij].0 != m[i].0);
                } else {
                    assert(m[i].0 != m[ij].0);
                }
            }
            lemma_find_key_none(r, k);
        } else if f < 0 {
            assert forall|j: int| 0 <= j < r.len() implies #[trigger] r[j].0 != k2 by {
                let ij = if j == i { n } else { j };
                assert(r[j] == m[ij]);
            }
            lemma_find_key_none(r, k2);
        } else {
            assert(f != i);
            let jf = if f == n { i } else { f };
            assert(r[jf] == m[f]);
            lemma_find_key_distinct(r, k2, jf);
        }
    }
}

/// Whether two texts have the same characters. Texts with the same
/// characters have the same UTF-8 bytes, and UTF-8 bytes decode to the
/// characters they encode, so comparing the bytes decides it.
pub(crate) fn str_eq(a: &str, b: &str) -> (r: bool)
    ensures
        r == (a@ == b@),
{
    let x = a.as_bytes();
    let y = b.as_bytes();
    proof {
        vstd::utf8::encode_utf8_decode_utf8(a@);
        vstd::utf8::encode_utf8_decode_utf8(b@);
    }
    if x.len() != y.len() {
        return false;
    }
    let mut i: usize = 0;
    while i < x.len()
        invariant
            i <= x@.len(),
            x@.len() == y@.len(),
            x@ == a.spec_bytes(),
            y@ == b.spec_bytes(),
            forall|j: int| 0 <= j < i ==> x@[j] == y@[j],
        decreases x@.len() - i,
    {
        if x[i] != y[i] {
            return false;
        }
        i = i + 1;
    }
    proof {
        assert(x@ =~= y@);
    }
    true
}

/// Text equality of two keys.
pub fn key_is(key: &String, name: &str) -> (r: bool)
    ensures
        r == (key@ == name@),
{
    str_eq(key.as_str(), name)
}

impl JsonValue {
    /// A copy of this value, member for member.
    pub fn deep_clone(&self) -> (r: JsonValue)
        ensures
            r@ == self@,
        decreases self,
    {
        match self {
            JsonValue::Null => JsonValue::Null,
            JsonValue::Bool(b) => JsonValue::Bool(*b),
            JsonValue::Number(n) => JsonValue::Number(*n),
            JsonValue::String(s) => JsonValue::String(s.clone()),
            JsonValue::Array(a) => {
                let mut out: Vec<JsonValue> = Vec::new();
                let mut i: usize = 0;
                while i < a.len()
                    invariant
                        *self == JsonValue::Array(*a),
                        i <= a.len(),
                        out@.len() == i,
                        forall|j: int| 0 <= j < i ==> value_view(#[trigger] out@[j]) == value_view(a@[j]),
                    decreases a.len() - i,
                {
                    proof {
                        assert(decreases_to!(*self => self->Array_0));
                        assert(decreases_to!(self->Array_0 => a@));
                        assert(decreases_to!(a@ => a@[i as int]));
                    }
                    let c = a[i].deep_clone();
                    out.push(c);
                    i = i + 1;
                }
                proof {
                    lemma_values_view(out@);
                    lemma_values_view(a@);
                    assert(values_view(out@) =~= values_view(a@));
                }
                JsonValue::Array(out)
            },
            JsonValue::Object(o) => {
                proof {
                    assert(decreases_to!(*self => self->Object_0));
                }
                JsonValue::Object(o.deep_clone())
            },
        }
    }

    pub fn is_object(&self) -> (r: bool)
        ensures
            r == (self@ is Object),
    {
        match self {
            JsonValue::Object(_) => true,
            _ => false,
        }
    }

    pub fn is_null(&self) -> (r: bool)
        ensures
            r == (self@ is Null),
    {
        match self {
            JsonValue::Null => true,
            _ => false,
        }
    }
}

impl JsonObject {
    /// An object with no members.
    pub fn new() -> (r: JsonObject)
        ensures
            r@ == Seq::<(Seq<char>, JsonView)>::empty(),
    {
        proof {
            lemma_entries_view(Seq::<(String, JsonValue)>::empty());
        }
        JsonObject { entries: Vec::new() }
    }

    /// A copy of this object, member for member.
    pub fn deep_clone(&self) -> (r: JsonObject)
        ensures
            r@ == self@,
        decreases self,
    {
        let mut out: Vec<(String, JsonValue)> = Vec::new();
        let mut i: usize = 0;
        while i < self.entries.len()
            invariant
                i <= self.entries.len(),
                out@.len() == i,
                forall|j: int|
                    0 <= j < i ==> (#[trigger] out@[j]).0@ == self.entries@[j].0@ && value_view(out@[j].1)
                        == value_view(self.entries@[j].1),
            decreases self.entries.len() - i,
        {
            proof {
                assert(decreases_to!(*self => self.entries));
                assert(decreases_to!(self.entries => self.entries@));
                assert(decreases_to!(self.entries@ => self.entries@[i as int]));
                assert(decreases_to!(self.entries@[i as int] => self.entries@[i as int].1));
            }
            let k = self.entries[i].0.clone();
            let v = self.entries[i].1.deep_clone();
            out.push((k, v));
            i = i + 1;
        }
        proof {
            lemma_entries_view(out@);
            lemma_entries_view(self.entries@);
            assert(entries_view(out@) =~= entries_view(self.entries@));
        }
        JsonObject { entries: out }
    }

    /// The number of members.
    pub fn len(&self) -> (r: usize)
        ensures
            r == self@.len(),
    {
        proof {
            lemma_entries_view(self.entries@);
        }
        self.entries.len()
    }

    pub fn is_empty(&self) -> (r: bool)
        ensures
            r == (self@.len() == 0),
    {
        proof {
            lemma_entries_view(self.entries@);
        }
        self.entries.len() == 0
    }

    /// The position of the first member keyed `key`.
    pub fn position(&self, key: &str) -> (r: Option<usize>)
        ensures
            r is None <==> find_key(self@, key@) < 0,
            r matches Some(i) ==> i == find_key(self@, key@),
    {
        proof {
            lemma_entries_view(self.entries@);
            lemma_find_key(self@, key@);
        }
        let mut i: usize = 0;
        while i < self.entries.len()
            invariant
                i <= self.entries.len(),
                self@.len() == self.entries@.len(),
                forall|j: int| 0 <= j < i ==> #[trigger] self@[j].0 != key@,
                forall|j: int|
                    0 <= j < self.entries@.len() ==> #[trigger] self@[j] == (
                        self.entries@[j].0@,
                        value_view(self.entries@[j].1),
                    ),
                -1 <= find_key(self@, key@) < self@.len(),
                find_key(self@, key@) >= 0 ==> self@[find_key(self@, key@)].0 == key@,
                forall|j: int|
                    0 <= j < self@.len() && (find_key(self@, key@) < 0 || j < find_key(self@, key@))
                        ==> #[trigger] self@[j].0 != key@,
            decreases self.entries.len() - i,
        {
            if key_is(&self.entries[i].0, key) {
                proof {
                    assert(self@[i as int].0 == key@);
                }
                return Some(i);
            }
            i = i + 1;
        }
        None
    }

    /// The value of the member keyed `key`.
    pub fn get(&self, key: &str) -> (r: Option<&JsonValue>)
        ensures
            r is None <==> lookup(self@, key@) is None,
            r matches Some(v) ==> lookup(self@, key@) == Some(v@),
    {
        proof {
            lemma_entries_view(self.entries@);
            lemma_find_key(self@, key@);
        }
        match self.position(key) {
            Some(i) => Some(&self.entries[i].1),
            None => None,
        }
    }

    /// Whether a member is keyed `key`.
    pub fn contains_key(&self, key: &str) -> (r: bool)
        ensures
            r == (lookup(self@, key@) is Some),
    {
        self.position(key).is_some()
    }

    /// Sets the member keyed `key` to `value`, in place if the key is
    /// present, at the end otherwise. Returns the value it replaced.
    pub fn insert(&mut self, key: String, value: JsonValue) -> (r: Option<JsonValue>)
        ensures
            final(self)@ == member_insert(old(self)@, key@, value@),
            r is None <==> lookup(old(self)@, key@) is None,
            r matches Some(o) ==> lookup(old(self)@, key@) == Some(o@),
    {
        proof {
            lemma_entries_view(self.entries@);
            lemma_find_key(self@, key@);
        }
        match self.position(key.as_str()) {
            Some(i) => {
                let (k, old_value) = self.entries.remove(i);
                self.entries.insert(i, (k, value));
                proof {
                    lemma_entries_view(self.entries@);
                    assert(self@ =~= old(self)@.update(i as int, (key@, value@)));
                }
                Some(old_value)
            },
            None => {
                proof {
                    lemma_entries_view_push(self.entries@, (key, value));
                }
                self.entries.push((key, value));
                None
            },
        }
    }

    /// Removes the member keyed `key`, returning its value; the last member
    /// takes its place.
    pub fn remove(&mut self, key: &str) -> (r: Option<JsonValue>)
        ensures
            final(self)@ == member_remove(old(self)@, key@),
            r is None <==> lookup(old(self)@, key@) is None,
            r matches Some(o) ==> lookup(old(self)@, key@) == Some(o@),
    {
        proof {
            lemma_entries_view(self.entries@);
            lemma_find_key(self@, key@);
        }
        match self.position(key) {
            Some(i) => {
                let (_k, v) = self.entries.swap_remove(i);
                proof {
                    lemma_entries_view(self.entries@);
                    assert(self@ =~= old(self)@.update(i as int, old(self)@.last()).drop_last());
                }
                Some(v)
            },
            None => None,
        }
    }

    /// Removes every member keyed `key`, each in turn as `remove` does,
    /// and returns the value of the first one removed.
    pub fn remove_all(&mut self, key: &str) -> (r: Option<JsonValue>)
        ensures
            final(self)@ == members_without(old(self)@, key@),
            r is None <==> lookup(old(self)@, key@) is None,
            r matches Some(o) ==> lookup(old(self)@, key@) == Some(o@),
    {
        let ghost target = members_without(self@, key@);
        proof {
            lemma_find_key(self@, key@);
        }
        let first = self.remove(key);
        loop
            invariant_except_break
                members_without(self@, key@) == target,
            ensures
                self@ == target,
            decreases self@.len(),
        {
            let ghost before = self@;
            proof {
                lemma_find_key(before, key@);
            }
            match self.remove(key) {
                Some(_) => {},
                None => {
                    break;
                },
            }
        }
        first
    }
}

/// A measure of a JSON value that every member and element is below.
pub open spec fn json_size(v: JsonView) -> nat
    decreases v, 0int,
{
    match v {
        JsonView::Array(a) => 1 + seq_size(a),
        JsonView::Object(m) => 1 + members_size(m),
        _ => 1,
    }
}

pub open spec fn seq_size(s: Seq<JsonView>) -> nat
    decreases s, 1int,
{
    if s.len() == 0 {
        0
    } else {
        json_size(s[0]) + seq_size(s.subrange(1, s.len() as int))
    }
}

pub open spec fn members_size(m: Members) -> nat
    decreases m, 1int,
{
    if m.len() == 0 {
        0
    } else {
        json_size(m[0].1) + members_size(m.subrange(1, m.len() as int))
    }
}

pub proof fn lemma_seq_size(s: Seq<JsonView>)
    ensures
        forall|i: int| 0 <= i < s.len() ==> 1 <= json_size(#[trigger] s[i]) <= seq_size(s),
    decreases s.len(),
{
    if s.len() > 0 {
        let rest = s.subrange(1, s.len() as int);
        lemma_seq_size(rest);
        assert forall|i: int| 0 <= i < s.len() implies 1 <= json_size(#[trigger] s[i]) <= seq_size(
            s,
        ) by {
            if i > 0 {
                assert(rest[i - 1] == s[i]);
            }
        }
    }
}

pub proof fn lemma_members_size(m: Members)
    ensures
        forall|i: int| 0 <= i < m.len() ==> 1 <= json_size(#[trigger] m[i].1) <= members_size(m),
    decreases m.len(),
{
    if m.len() > 0 {
        let rest = m.subrange(1, m.len() as int);
        lemma_members_size(rest);
        assert forall|i: int| 0 <= i < m.len() implies 1 <= json_size(#[trigger] m[i].1)
            <= members_size(m) by {
            if i > 0 {
                assert(rest[i - 1] == m[i]);
            }
        }
    }
}

pub proof fn lemma_members_size_append(a: Members, b: Members)
    ensures
        members_size(a + b) == members_size(a) + members_size(b),
    decreases a.len(),
{
    if a.len() == 0 {
        assert(a + b =~= b);
    } else {
        assert((a + b).subrange(1, (a + b).len() as int) =~= a.subrange(1, a.len() as int) + b);
        assert((a + b)[0] == a[0]);
        lemma_members_size_append(a.subrange(1, a.len() as int), b);
    }
}

pub proof fn lemma_members_size_single(x: (Seq<char>, JsonView))
    ensures
        members_size(seq![x]) == json_size(x.1),
{
    assert(seq![x].subrange(1, 1) =~= Seq::<(Seq<char>, JsonView)>::empty());
    assert(seq![x][0] == x);
    assert(members_size(Seq::<(Seq<char>, JsonView)>::empty()) == 0);
}

/// Removing a member leaves an object no larger.
pub proof fn lemma_member_remove_size(m: Members, k: Seq<char>)
    ensures
        members_size(member_remove(m, k)) <= members_size(m),
{
    let i = find_key(m, k);
    lemma_find_key(m, k);
    if i >= 0 {
        let n = m.len() as int;
        let last = m.last();
        let r = member_remove(m, k);
        assert(m =~= m.take(i) + seq![m[i]] + m.subrange(i + 1, n));
        lemma_members_size_append(m.take(i) + seq![m[i]], m.subrange(i + 1, n));
        lemma_members_size_append(m.take(i), seq![m[i]]);
        lemma_members_size_single(m[i]);
        if i == n - 1 {
            assert(r =~= m.take(i));
            assert(m.subrange(i + 1, n) =~= Seq::<(Seq<char>, JsonView)>::empty());
        } else {
            let mid = m.subrange(i + 1, n - 1);
            assert(r =~= m.take(i) + seq![last] + mid);
            assert(m.subrange(i + 1, n) =~= mid + seq![last]);
            lemma_members_size_append(m.take(i) + seq![last], mid);
            lemma_members_size_append(m.take(i), seq![last]);
            lemma_members_size_append(mid, seq![last]);
            lemma_members_size_single(last);
        }
    }
}

/// A member value is smaller than the object holding it.
pub proof fn lemma_lookup_smaller(m: Members, k: Seq<char>)
    ensures
        lookup(m, k) matches Some(x) ==> json_size(x) < json_size(JsonView::Object(m)),
{
    lemma_find_key(m, k);
    lemma_members_size(m);
}

/// The key texts of a list of key names.
pub open spec fn key_texts(keys: Seq<&str>) -> Seq<Seq<char>> {
    keys.map_values(|k: &str| k@)
}

pub proof fn lemma_key_texts(keys: Seq<&str>)
    ensures
        key_texts(keys).len() == keys.len(),
        forall|i: int| 0 <= i < keys.len() ==> #[trigger] key_texts(keys)[i] == keys[i]@,
{
}

/// The members whose key is none of `keys`, in order.
pub open spec fn other_members(m: Members, keys: Seq<Seq<char>>) -> Members {
    m.filter(|e: (Seq<char>, JsonView)| !keys.contains(e.0))
}

pub open spec fn opt_value_view(o: Option<JsonValue>) -> Option<JsonView> {
    match o {
        Some(v) => Some(v@),
        None => None,
    }
}

proof fn lemma_lookup_push(m: Members, x: (Seq<char>, JsonView), k: Seq<char>)
    ensures
        lookup(m.push(x), k) == (if lookup(m, k) is Some {
            lookup(m, k)
        } else if x.0 == k {
            Some(x.1)
        } else {
            None
        }),
{
    lemma_find_key(m, k);
    lemma_find_key(m.push(x), k);
    let i = find_key(m, k);
    let j = find_key(m.push(x), k);
    if i >= 0 {
        assert(m.push(x)[i] == m[i]);
        assert(j >= 0 && j <= i);
        if j < i {
            assert(m.push(x)[j] == m[j]);
        }
        assert(j == i);
    } else {
        if x.0 == k {
            assert(m.push(x)[m.len() as int].0 == k);
            assert(j >= 0);
        }
        if j >= 0 && j < m.len() {
            assert(m.push(x)[j] == m[j]);
        }
    }
}

/// Splits the members of an object into the values of the members keyed
/// `keys` (the first one of each key) and the other members, in order.
pub fn split_members(entries: Vec<(String, JsonValue)>, keys: &[&str]) -> (r: (
    Vec<Option<JsonValue>>,
    Vec<(String, JsonValue)>,
))
    requires
        key_texts(keys@).no_duplicates(),
    ensures
        r.0@.len() == keys@.len(),
        forall|j: int|
            0 <= j < keys@.len() ==> opt_value_view(#[trigger] r.0@[j]) == lookup(
                entries_view(entries@),
                keys@[j]@,
            ),
        entries_view(r.1@) == other_members(entries_view(entries@), key_texts(keys@)),
{
    let ghost m = entries_view(entries@);
    let ghost ks = key_texts(keys@);
    proof {
        lemma_entries_view(entries@);
    }
    let mut slots: Vec<Option<JsonValue>> = Vec::new();
    let mut j: usize = 0;
    while j < keys.len()
        invariant
            j <= keys@.len(),
            slots@.len() == j,
            forall|t: int| 0 <= t < j ==> #[trigger] slots@[t] is None,
        decreases keys.len() - j,
    {
        slots.push(None);
        j = j + 1;
    }
    let mut rest: Vec<(String, JsonValue)> = Vec::new();
    let ghost s = entries@;
    proof {
        lemma_entries_view(rest@);
    }
    for e in it: entries.into_iter()
        invariant
            it.seq() == s,
            m == entries_view(s),
            m.len() == s.len(),
            forall|t: int| 0 <= t < s.len() ==> #[trigger] m[t] == (s[t].0@, value_view(s[t].1)),
            ks == key_texts(keys@),
            ks.no_duplicates(),
            slots@.len() == keys@.len(),
            forall|t: int|
                0 <= t < keys@.len() ==> opt_value_view(#[trigger] slots@[t]) == lookup(
                    m.take(it.index() as int),
                    keys@[t]@,
                ),
            entries_view(rest@) == other_members(m.take(it.index() as int), ks),
    {
        let ghost i = it.index() as int;
        let ghost before = slots@;
        let (k, v) = e;
        proof {
            assert(m.take(i + 1) =~= m.take(i).push(m[i]));
            assert(m[i] == (k@, v@));
        }
        let mut found: Option<usize> = None;
        let mut t: usize = 0;
        while t < keys.len()
            invariant
                t <= keys@.len(),
                found matches Some(x) ==> x < keys@.len() && keys@[x as int]@ == k@,
                found is None ==> forall|u: int| 0 <= u < t ==> keys@[u]@ != k@,
            decreases keys.len() - t,
        {
            if found.is_none() && str_eq(k.as_str(), keys[t]) {
                found = Some(t);
            }
            t = t + 1;
        }
        proof {
            assert forall|u: int| 0 <= u < keys@.len() implies lookup(m.take(i + 1), keys@[u]@) == (
            if lookup(m.take(i), keys@[u]@) is Some {
                lookup(m.take(i), keys@[u]@)
            } else if k@ == keys@[u]@ {
                Some(v@)
            } else {
                None
            }) by {
                lemma_lookup_push(m.take(i), m[i], keys@[u]@);
            }
            reveal(Seq::filter);
            assert(m.take(i + 1).drop_last() =~= m.take(i));
        }
        match found {
            Some(x) => {
                proof {
                    assert(ks[x as int] == k@);
                    assert(ks.contains(k@));
                }
                if slots[x].is_none() {
                    slots.set(x, Some(v));
                    proof {
                        assert forall|u: int| 0 <= u < keys@.len() implies opt_value_view(
                            #[trigger] slots@[u],
                        ) == lookup(m.take(i + 1), keys@[u]@) by {
                            if u != x {
                                assert(slots@[u] == before[u]);
                                assert(ks[u] != ks[x as int]);
                            }
                        }
                    }
                }
            },
            None => {
                proof {
                    assert forall|u: int| 0 <= u < ks.len() implies ks[u] != k@ by {
                        assert(ks[u] == keys@[u]@);
                    }
                    assert(!ks.contains(k@));
                    lemma_entries_view_push(rest@, (k, v));
                }
                rest.push((k, v));
            },
        }
    }
    proof {
        assert(m.take(s.len() as int) =~= m);
    }
    (slots, rest)
}

} // verus!
