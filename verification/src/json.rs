//! JSON values.
//!
//! An object keeps its members in the order in which they were put in; setting a member that is
//! already there replaces its value in place.
use vstd::prelude::*;
use vstd::string::*;

use crate::text::str_eq;

verus! {

/// A JSON number. A float is held as the shortest decimal text that reads back as the same value,
/// such as `-0.5`, `1.0` or `1.5e-7`.
#[derive(Debug, PartialEq, Eq)]
pub enum JsonNumber {
    Unsigned(u64),
    /// Always below zero.
    Negative(i64),
    Float(String),
}

/// A JSON value.
#[derive(Debug, PartialEq, Eq)]
pub enum Json {
    Null,
    Bool(bool),
    Number(JsonNumber),
    Str(String),
    Array(Vec<Json>),
    Object(Vec<(String, Json)>),
}

/// What a [`JsonNumber`] holds.
pub enum NumberView {
    Unsigned(u64),
    Negative(i64),
    Float(Seq<char>),
}

/// What a [`Json`] value holds.
pub enum JsonView {
    Null,
    Bool(bool),
    Number(NumberView),
    Str(Seq<char>),
    Array(Seq<JsonView>),
    Object(Seq<(Seq<char>, JsonView)>),
}

/// The members of an object, in order.
pub type Members = Seq<(Seq<char>, JsonView)>;

impl View for JsonNumber {
    type V = NumberView;

    open spec fn view(&self) -> NumberView {
        match self {
            JsonNumber::Unsigned(n) => NumberView::Unsigned(*n),
            JsonNumber::Negative(n) => NumberView::Negative(*n),
            JsonNumber::Float(t) => NumberView::Float(t@),
        }
    }
}

pub open spec fn json_view(j: Json) -> JsonView
    decreases j,
{
    match j {
        Json::Null => JsonView::Null,
        Json::Bool(b) => JsonView::Bool(b),
        Json::Number(n) => JsonView::Number(n@),
        Json::Str(s) => JsonView::Str(s@),
        Json::Array(a) => JsonView::Array(
            Seq::new(
                a@.len(),
                |i: int|
                    if 0 <= i < a@.len() {
                        json_view(a@[i])
                    } else {
                        JsonView::Null
                    },
            ),
        ),
        Json::Object(o) => JsonView::Object(
            Seq::new(
                o@.len(),
                |i: int|
                    if 0 <= i < o@.len() {
                        (o@[i].0@, json_view(o@[i].1))
                    } else {
                        (seq![], JsonView::Null)
                    },
            ),
        ),
    }
}

impl View for Json {
    type V = JsonView;

    open spec fn view(&self) -> JsonView {
        json_view(*self)
    }
}

/// The views of the values of a list.
pub open spec fn items_view(a: Seq<Json>) -> Seq<JsonView> {
    Seq::new(a.len(), |i: int| json_view(a[i]))
}

/// The views of the members of an object.
pub open spec fn members_view(o: Seq<(String, Json)>) -> Members {
    Seq::new(o.len(), |i: int| (o[i].0@, json_view(o[i].1)))
}

/// The view of an optional value.
pub open spec fn opt_json_view(o: Option<Json>) -> Option<JsonView> {
    match o {
        Some(j) => Some(json_view(j)),
        None => None,
    }
}

/// The view of an optional reference to a value.
pub open spec fn opt_ref_view(o: Option<&Json>) -> Option<JsonView> {
    match o {
        Some(j) => Some(json_view(*j)),
        None => None,
    }
}

pub broadcast proof fn lemma_array_view(a: Vec<Json>)
    ensures
        #[trigger] json_view(Json::Array(a)) == JsonView::Array(items_view(a@)),
{
    assert(json_view(Json::Array(a))->Array_0 =~= items_view(a@));
}

pub broadcast proof fn lemma_object_view(o: Vec<(String, Json)>)
    ensures
        #[trigger] json_view(Json::Object(o)) == JsonView::Object(members_view(o@)),
{
    assert(json_view(Json::Object(o))->Object_0 =~= members_view(o@));
}

// ---------------------------------------------------------------------------
// Members of an object
// ---------------------------------------------------------------------------
/// The first position at or after `from` whose member has the key `key`, or the end.
pub open spec fn member_index(m: Members, key: Seq<char>, from: int) -> int
    decreases m.len() - from,
{
    if 0 <= from < m.len() && m[from].0 != key {
        member_index(m, key, from + 1)
    } else {
        from
    }
}

/// Whether a member has the key `key`.
pub open spec fn has_member(m: Members, key: Seq<char>) -> bool {
    exists|i: int| 0 <= i < m.len() && (#[trigger] m[i]).0 == key
}

/// The value of the member with the key `key`.
pub open spec fn member(m: Members, key: Seq<char>) -> Option<JsonView> {
    let i = member_index(m, key, 0);
    if i < m.len() {
        Some(m[i].1)
    } else {
        None
    }
}

/// `m` with the member `key` set to `value`: in its place where it is there already, at the end
/// otherwise.
pub open spec fn with_member(m: Members, key: Seq<char>, value: JsonView) -> Members {
    let i = member_index(m, key, 0);
    if i < m.len() {
        m.update(i, (key, value))
    } else {
        m.push((key, value))
    }
}

/// `m` without the member `key`, the others in their order.
pub open spec fn without_member(m: Members, key: Seq<char>) -> Members {
    let i = member_index(m, key, 0);
    if i < m.len() {
        m.remove(i)
    } else {
        m
    }
}

/// No two members have the same key.
pub open spec fn distinct_keys(m: Members) -> bool {
    forall|i: int, j: int| 0 <= i < j < m.len() ==> (#[trigger] m[i]).0 != (#[trigger] m[j]).0
}

/// Whether a character may stand in the text of a float.
pub open spec fn float_char(c: char) -> bool {
    '0' <= c <= '9' || c == '-' || c == '+' || c == '.' || c == 'e'
}

/// Every object in `v` has distinct keys.
pub open spec fn well_formed(v: JsonView) -> bool
    decreases v,
{
    match v {
        JsonView::Array(items) => forall|i: int|
            0 <= i < items.len() ==> well_formed(#[trigger] items[i]),
        JsonView::Object(m) => distinct_keys(m) && forall|i: int|
            0 <= i < m.len() ==> well_formed((#[trigger] m[i]).1),
        _ => true,
    }
}

/// Every float in `v` is written with digits, signs, a point and an exponent mark only.
pub open spec fn plain_floats(v: JsonView) -> bool
    decreases v,
{
    match v {
        JsonView::Number(NumberView::Float(t)) => forall|i: int|
            0 <= i < t.len() ==> float_char(#[trigger] t[i]),
        JsonView::Array(items) => forall|i: int|
            0 <= i < items.len() ==> plain_floats(#[trigger] items[i]),
        JsonView::Object(m) => forall|i: int|
            0 <= i < m.len() ==> plain_floats((#[trigger] m[i]).1),
        _ => true,
    }
}

/// Every member of an object has plain floats.
pub open spec fn plain_members(m: Members) -> bool {
    forall|i: int| 0 <= i < m.len() ==> plain_floats((#[trigger] m[i]).1)
}

/// Setting and taking out members keeps floats plain.
pub proof fn lemma_plain_members(m: Members, key: Seq<char>, value: JsonView)
    requires
        plain_members(m),
    ensures
        plain_floats(value) ==> plain_members(with_member(m, key, value)),
        plain_members(without_member(m, key)),
{
    lemma_member_index(m, key, 0);
}

/// What an object with plain floats has under a key has plain floats.
pub proof fn lemma_plain_field(v: JsonView, key: Seq<char>)
    requires
        plain_floats(v),
    ensures
        field(v, key) matches Some(x) ==> plain_floats(x),
{
    match v {
        JsonView::Object(m) => {
            lemma_member_index(m, key, 0);
            let i = member_index(m, key, 0);
            if i < m.len() {
                assert(plain_floats(m[i].1));
            }
        },
        _ => {},
    }
}

/// The value that an object has under `key`; `None` for what is no object.
pub open spec fn field(v: JsonView, key: Seq<char>) -> Option<JsonView> {
    match v {
        JsonView::Object(m) => member(m, key),
        _ => None,
    }
}

/// The value that an optional value has under `key`.
pub open spec fn step(v: Option<JsonView>, key: Seq<char>) -> Option<JsonView> {
    match v {
        Some(x) => field(x, key),
        None => None,
    }
}

/// The string that an optional value is.
pub open spec fn string_in(v: Option<JsonView>) -> Option<Seq<char>> {
    match v {
        Some(JsonView::Str(s)) => Some(s),
        _ => None,
    }
}

/// The truth value that an optional value is.
pub open spec fn bool_in(v: Option<JsonView>) -> Option<bool> {
    match v {
        Some(JsonView::Bool(b)) => Some(b),
        _ => None,
    }
}

/// The unsigned number that an optional value is.
pub open spec fn u64_in(v: Option<JsonView>) -> Option<u64> {
    match v {
        Some(JsonView::Number(NumberView::Unsigned(n))) => Some(n),
        _ => None,
    }
}

/// The string that an object has under `key`.
pub open spec fn string_field(v: JsonView, key: Seq<char>) -> Option<Seq<char>> {
    string_in(field(v, key))
}

/// The truth value that an object has under `key`.
pub open spec fn bool_field(v: JsonView, key: Seq<char>) -> Option<bool> {
    bool_in(field(v, key))
}

/// The number that an integer is in JSON.
pub open spec fn integer_view(n: int) -> JsonView {
    if n < 0 {
        JsonView::Number(NumberView::Negative(n as i64))
    } else {
        JsonView::Number(NumberView::Unsigned(n as u64))
    }
}

pub proof fn lemma_member_index(m: Members, key: Seq<char>, from: int)
    requires
        0 <= from <= m.len(),
    ensures
        from <= member_index(m, key, from) <= m.len(),
        member_index(m, key, from) < m.len() ==> m[member_index(m, key, from)].0 == key,
        forall|j: int| from <= j < member_index(m, key, from) ==> (#[trigger] m[j]).0 != key,
    decreases m.len() - from,
{
    if from < m.len() && m[from].0 != key {
        lemma_member_index(m, key, from + 1);
    }
}

proof fn lemma_member_index_is(m: Members, key: Seq<char>, from: int, i: int)
    requires
        0 <= from <= i < m.len(),
        m[i].0 == key,
        forall|j: int| from <= j < i ==> (#[trigger] m[j]).0 != key,
    ensures
        member_index(m, key, from) == i,
    decreases i - from,
{
    if from < i {
        lemma_member_index_is(m, key, from + 1, i);
    }
}

/// A key has a member exactly where looking it up succeeds.
pub proof fn member_found(m: Members, key: Seq<char>)
    ensures
        has_member(m, key) == (member(m, key) is Some),
{
    lemma_member_index(m, key, 0);
}

/// A member that was set reads back as the value it was set to, and every other key reads as
/// before.
pub proof fn set_member_reads_back(m: Members, key: Seq<char>, value: JsonView, other: Seq<char>)
    ensures
        member(with_member(m, key, value), key) == Some(value),
        other != key ==> member(with_member(m, key, value), other) == member(m, other),
{
    let w = with_member(m, key, value);
    lemma_member_index(m, key, 0);
    let i = member_index(m, key, 0);
    lemma_member_index_is(w, key, 0, i);
    if other != key {
        lemma_member_index(m, other, 0);
        let k = member_index(m, other, 0);
        if k < m.len() {
            lemma_member_index_is(w, other, 0, k);
        } else {
            lemma_member_index(w, other, 0);
            let q = member_index(w, other, 0);
            if q < w.len() {
                assert(q != i);
                assert(m[q].0 == other);
            }
        }
    }
}

/// Setting a member keeps the keys distinct.
pub proof fn set_member_keeps_keys_distinct(m: Members, key: Seq<char>, value: JsonView)
    requires
        distinct_keys(m),
    ensures
        distinct_keys(with_member(m, key, value)),
{
    lemma_member_index(m, key, 0);
    let w = with_member(m, key, value);
    assert forall|i: int, j: int| 0 <= i < j < w.len() implies (#[trigger] w[i]).0 != (
    #[trigger] w[j]).0 by {
        if j < m.len() {
            assert(m[i].0 != m[j].0);
        } else {
            assert(m[i].0 != key);
        }
    }
}

/// A member that was taken out of an object with distinct keys is gone, and every other key reads
/// as before.
pub proof fn removed_member_is_gone(m: Members, key: Seq<char>, other: Seq<char>)
    requires
        distinct_keys(m),
    ensures
        member(without_member(m, key), key) is None,
        other != key ==> member(without_member(m, key), other) == member(m, other),
        distinct_keys(without_member(m, key)),
{
    let w = without_member(m, key);
    lemma_member_index(m, key, 0);
    let i = member_index(m, key, 0);
    assert forall|q: int| 0 <= q < w.len() implies (#[trigger] w[q]).0 != key by {
        if i < m.len() {
            if q < i {
                assert(w[q] == m[q]);
            } else {
                assert(w[q] == m[q + 1]);
                assert(m[i].0 != m[q + 1].0);
            }
        }
    }
    lemma_member_index(w, key, 0);
    assert forall|a: int, b: int| 0 <= a < b < w.len() implies (#[trigger] w[a]).0 != (
    #[trigger] w[b]).0 by {
        if i < m.len() {
            let a1 = if a < i {
                a
            } else {
                a + 1
            };
            let b1 = if b < i {
                b
            } else {
                b + 1
            };
            assert(w[a] == m[a1] && w[b] == m[b1]);
            assert(m[a1].0 != m[b1].0);
        }
    }
    if other != key {
        lemma_member_index(m, other, 0);
        lemma_member_index(w, other, 0);
        let k = member_index(m, other, 0);
        let q = member_index(w, other, 0);
        if i < m.len() {
            if k < m.len() {
                let k1 = if k < i {
                    k
                } else {
                    k - 1
                };
                assert(w[k1] == m[k]);
                assert forall|j: int| 0 <= j < k1 implies (#[trigger] w[j]).0 != other by {
                    if j < i {
                        assert(w[j] == m[j]);
                    } else {
                        assert(w[j] == m[j + 1]);
                    }
                }
                lemma_member_index_is(w, other, 0, k1);
            } else if q < w.len() {
                let q1 = if q < i {
                    q
                } else {
                    q + 1
                };
                assert(w[q] == m[q1]);
            }
        }
    }
}

/// The position of the first member with the key `key`, or the number of members.
pub fn find_member(o: &Vec<(String, Json)>, key: &str) -> (r: usize)
    ensures
        r == member_index(members_view(o@), key@, 0),
        r <= o@.len(),
{
    let mut i: usize = 0;
    while i < o.len()
        invariant
            i <= o@.len(),
            member_index(members_view(o@), key@, 0) == member_index(
                members_view(o@),
                key@,
                i as int,
            ),
        decreases o@.len() - i,
    {
        if str_eq(o[i].0.as_str(), key) {
            return i;
        }
        i = i + 1;
    }
    i
}

/// Sets a member of an object.
pub fn set_member(o: &mut Vec<(String, Json)>, key: &str, value: Json)
    ensures
        members_view(final(o)@) == with_member(members_view(old(o)@), key@, value@),
{
    let i: usize = find_member(o, key);
    let ghost before = o@;
    if i < o.len() {
        let entry: (String, Json) = (key.to_owned(), value);
        o.set(i, entry);
        assert(members_view(o@) =~= members_view(before).update(i as int, (key@, value@)));
    } else {
        o.push((key.to_owned(), value));
        assert(members_view(o@) =~= members_view(before).push((key@, value@)));
    }
}

/// Takes a member out of an object.
pub fn remove_member(o: &mut Vec<(String, Json)>, key: &str)
    ensures
        members_view(final(o)@) == without_member(members_view(old(o)@), key@),
{
    let i: usize = find_member(o, key);
    let ghost before = o@;
    if i < o.len() {
        o.remove(i);
        assert(members_view(o@) =~= members_view(before).remove(i as int));
    }
}

// ---------------------------------------------------------------------------
// Values
// ---------------------------------------------------------------------------
impl JsonNumber {
    pub fn duplicate(&self) -> (r: JsonNumber)
        ensures
            r@ == self@,
    {
        match self {
            JsonNumber::Unsigned(n) => JsonNumber::Unsigned(*n),
            JsonNumber::Negative(n) => JsonNumber::Negative(*n),
            JsonNumber::Float(t) => JsonNumber::Float(t.clone()),
        }
    }
}

impl Json {
    /// A copy of the value.
    pub fn duplicate(&self) -> (r: Json)
        ensures
            r@ == self@,
        decreases self,
    {
        match self {
            Json::Null => Json::Null,
            Json::Bool(b) => Json::Bool(*b),
            Json::Number(n) => Json::Number(n.duplicate()),
            Json::Str(s) => Json::Str(s.clone()),
            Json::Array(a) => {
                let mut out: Vec<Json> = Vec::new();
                let mut i: usize = 0;
                while i < a.len()
                    invariant
                        i <= a@.len(),
                        out@.len() == i,
                        *self == Json::Array(*a),
                        items_view(out@) == items_view(a@).take(i as int),
                    decreases a@.len() - i,
                {
                    assert(decreases_to!(*self => self->Array_0));
                    assert(decreases_to!(*a => a@[i as int]));
                    let ghost before = out@;
                    let x = a[i].duplicate();
                    out.push(x);
                    assert(items_view(out@) =~= items_view(before).push(x@));
                    assert(items_view(a@).take(i + 1) =~= items_view(a@).take(i as int).push(
                        items_view(a@)[i as int],
                    ));
                    i = i + 1;
                }
                proof {
                    broadcast use lemma_array_view;

                    assert(items_view(a@).take(i as int) =~= items_view(a@));
                }
                Json::Array(out)
            },
            Json::Object(o) => {
                let mut out: Vec<(String, Json)> = Vec::new();
                let mut i: usize = 0;
                while i < o.len()
                    invariant
                        i <= o@.len(),
                        out@.len() == i,
                        *self == Json::Object(*o),
                        members_view(out@) == members_view(o@).take(i as int),
                    decreases o@.len() - i,
                {
                    assert(decreases_to!(*self => self->Object_0));
                    assert(decreases_to!(*o => o@[i as int]));
                    let ghost before = out@;
                    let x = o[i].1.duplicate();
                    let k = o[i].0.clone();
                    out.push((k, x));
                    assert(members_view(out@) =~= members_view(before).push((k@, x@)));
                    assert(members_view(o@).take(i + 1) =~= members_view(o@).take(i as int).push(
                        members_view(o@)[i as int],
                    ));
                    i = i + 1;
                }
                proof {
                    broadcast use lemma_object_view;

                    assert(members_view(o@).take(i as int) =~= members_view(o@));
                }
                Json::Object(out)
            },
        }
    }

    /// The value that an object has under `key`.
    pub fn get(&self, key: &str) -> (r: Option<&Json>)
        ensures
            opt_ref_view(r) == field(self@, key@),
    {
        broadcast use lemma_object_view;

        match self {
            Json::Object(o) => {
                let i: usize = find_member(o, key);
                if i < o.len() {
                    Some(&o[i].1)
                } else {
                    None
                }
            },
            _ => None,
        }
    }

    /// The string that the value is.
    pub fn as_str(&self) -> (r: Option<&str>)
        ensures
            crate::text::opt_str_view(r) == string_in(Some(self@)),
    {
        match self {
            Json::Str(s) => Some(s.as_str()),
            _ => None,
        }
    }

    /// The truth value that the value is.
    pub fn as_bool(&self) -> (r: Option<bool>)
        ensures
            r == bool_in(Some(self@)),
    {
        match self {
            Json::Bool(b) => Some(*b),
            _ => None,
        }
    }

    /// The unsigned number that the value is.
    pub fn as_u64(&self) -> (r: Option<u64>)
        ensures
            r == u64_in(Some(self@)),
    {
        match self {
            Json::Number(JsonNumber::Unsigned(n)) => Some(*n),
            _ => None,
        }
    }

    /// The string that an object has under `key`.
    pub fn get_str(&self, key: &str) -> (r: Option<&str>)
        ensures
            crate::text::opt_str_view(r) == string_field(self@, key@),
    {
        match self.get(key) {
            Some(v) => v.as_str(),
            None => None,
        }
    }

    /// The truth value that an object has under `key`.
    pub fn get_bool(&self, key: &str) -> (r: Option<bool>)
        ensures
            r == bool_field(self@, key@),
    {
        match self.get(key) {
            Some(v) => v.as_bool(),
            None => None,
        }
    }
}

impl Clone for Json {
    fn clone(&self) -> (r: Self)
        ensures
            r@ == self@,
    {
        self.duplicate()
    }
}

/// A string value.
pub fn json_str(s: &str) -> (r: Json)
    ensures
        r@ == JsonView::Str(s@),
{
    Json::Str(s.to_owned())
}

/// The string value of an optional string, or null.
pub fn json_opt_str(s: &Option<String>) -> (r: Json)
    ensures
        r@ == opt_str_json(crate::text::opt_view(*s)),
{
    match s {
        Some(t) => Json::Str(t.clone()),
        None => Json::Null,
    }
}

/// The string value of an optional string, or null.
pub open spec fn opt_str_json(s: Option<Seq<char>>) -> JsonView {
    match s {
        Some(t) => JsonView::Str(t),
        None => JsonView::Null,
    }
}

/// A number value.
pub fn json_u64(n: u64) -> (r: Json)
    ensures
        r@ == integer_view(n as int),
{
    Json::Number(JsonNumber::Unsigned(n))
}

/// A signed number value.
pub fn json_i64(n: i64) -> (r: Json)
    ensures
        r@ == integer_view(n as int),
{
    if n < 0 {
        Json::Number(JsonNumber::Negative(n))
    } else {
        Json::Number(JsonNumber::Unsigned(n as u64))
    }
}

/// The first member with a key is the one that is read.
pub proof fn first_member_is_read(m: Members, i: int)
    requires
        0 <= i < m.len(),
        forall|j: int| 0 <= j < i ==> (#[trigger] m[j]).0 != m[i].0,
    ensures
        member(m, m[i].0) == Some(m[i].1),
        field(JsonView::Object(m), m[i].0) == Some(m[i].1),
{
    lemma_member_index_is(m, m[i].0, 0, i);
}

/// A key that no member has is not read.
pub proof fn absent_member_is_not_read(m: Members, key: Seq<char>)
    requires
        forall|j: int| 0 <= j < m.len() ==> (#[trigger] m[j]).0 != key,
    ensures
        member(m, key) is None,
        field(JsonView::Object(m), key) is None,
{
    lemma_member_index(m, key, 0);
}

/// Only objects have members.
pub proof fn only_objects_have_fields(v: JsonView, key: Seq<char>)
    requires
        !(v is Object),
    ensures
        field(v, key) is None,
        string_field(v, key) is None,
        bool_field(v, key) is None,
{
}

/// A field is read as a string, a truth value or a number exactly where it is one.
pub proof fn fields_are_read_by_kind(v: JsonView, key: Seq<char>, s: Seq<char>, b: bool, n: u64)
    ensures
        (string_field(v, key) == Some(s)) == (field(v, key) == Some(JsonView::Str(s))),
        (bool_field(v, key) == Some(b)) == (field(v, key) == Some(JsonView::Bool(b))),
        (u64_in(field(v, key)) == Some(n)) == (field(v, key) == Some(
            JsonView::Number(NumberView::Unsigned(n)),
        )),
{
}

/// Setting a member keeps the members that are there in their places, and adds a new one at the
/// end.
pub proof fn set_member_keeps_places(m: Members, key: Seq<char>, value: JsonView)
    ensures
        has_member(m, key) ==> with_member(m, key, value).len() == m.len(),
        !has_member(m, key) ==> with_member(m, key, value) == m.push((key, value)),
        forall|j: int|
            0 <= j < m.len() ==> (#[trigger] with_member(m, key, value)[j]).0 == m[j].0,
        forall|j: int|
            0 <= j < m.len() && (#[trigger] m[j]).0 != key ==> with_member(m, key, value)[j] == m[j],
{
    lemma_member_index(m, key, 0);
}

/// Integers keep their value.
pub proof fn integers_keep_their_value(n: int)
    requires
        i64::MIN <= n <= u64::MAX,
    ensures
        n >= 0 ==> integer_view(n) == JsonView::Number(NumberView::Unsigned(n as u64)),
        n < 0 ==> integer_view(n) == JsonView::Number(NumberView::Negative(n as i64)),
{
}

/// Members that are joined are read from the first part that has them.
pub proof fn joined_members_are_read(a: Members, b: Members, key: Seq<char>)
    ensures
        member(a, key) is Some ==> member(a + b, key) == member(a, key),
        member(a, key) is None ==> member(a + b, key) == member(b, key),
{
    let m = a + b;
    lemma_member_index(a, key, 0);
    lemma_member_index(b, key, 0);
    let i = member_index(a, key, 0);
    let j = member_index(b, key, 0);
    assert forall|k: int| 0 <= k < a.len() implies #[trigger] m[k] == a[k] by {}
    assert forall|k: int| a.len() <= k < m.len() implies #[trigger] m[k] == b[k - a.len()] by {}
    if i < a.len() {
        assert forall|k: int| 0 <= k < i implies (#[trigger] m[k]).0 != m[i].0 by {
            assert(a[k].0 != key);
        }
        first_member_is_read(m, i);
    } else if j < b.len() {
        let at = a.len() + j;
        assert forall|k: int| 0 <= k < at implies (#[trigger] m[k]).0 != m[at].0 by {
            if k < a.len() {
                assert(a[k].0 != key);
            } else {
                assert(b[k - a.len()].0 != key);
            }
        }
        first_member_is_read(m, at);
    } else {
        assert forall|k: int| 0 <= k < m.len() implies (#[trigger] m[k]).0 != key by {
            if k < a.len() {
                assert(a[k].0 != key);
            } else {
                assert(b[k - a.len()].0 != key);
            }
        }
        absent_member_is_not_read(m, key);
    }
}

/// A single member is read under its own key.
pub proof fn lone_members_are_read(key: Seq<char>, value: JsonView, other: Seq<char>)
    ensures
        member(seq![(key, value)], key) == Some(value),
        other != key ==> member(seq![(key, value)], other) is None,
        member(Seq::<(Seq<char>, JsonView)>::empty(), other) is None,
{
    first_member_is_read(seq![(key, value)], 0);
    if other != key {
        absent_member_is_not_read(seq![(key, value)], other);
    }
    absent_member_is_not_read(Seq::<(Seq<char>, JsonView)>::empty(), other);
}

/// The view of a value is the value itself, of its own kind and with every part in its place.
pub proof fn values_are_viewed_whole(
    b: bool,
    n: JsonNumber,
    s: String,
    a: Vec<Json>,
    o: Vec<(String, Json)>,
    i: int,
)
    ensures
        Json::Null@ == JsonView::Null,
        Json::Bool(b)@ == JsonView::Bool(b),
        Json::Number(n)@ == JsonView::Number(n@),
        Json::Str(s)@ == JsonView::Str(s@),
        Json::Array(a)@ matches JsonView::Array(items) && items.len() == a@.len() && (0 <= i
            < a@.len() ==> items[i] == a@[i]@),
        Json::Object(o)@ matches JsonView::Object(m) && m.len() == o@.len() && (0 <= i < o@.len()
            ==> m[i] == (o@[i].0@, o@[i].1@)),
        members_view(o@).len() == o@.len(),
        0 <= i < o@.len() ==> members_view(o@)[i] == (o@[i].0@, o@[i].1@),
{
}

/// The view of an optional value is that of the value, where there is one, whatever its kind; and
/// numbers are viewed as they are.
pub proof fn optional_values_are_viewed(v: Json, u: u64, i: i64, t: String)
    ensures
        opt_json_view(Some(v)) == Some(v@),
        opt_json_view(None) is None,
        opt_ref_view(Some(&v)) == Some(v@),
        opt_ref_view(None) is None,
        JsonNumber::Unsigned(u)@ == NumberView::Unsigned(u),
        JsonNumber::Negative(i)@ == NumberView::Negative(i),
        JsonNumber::Float(t)@ == NumberView::Float(t@),
{
}

/// A step leads from an object to its member, and from nothing to nothing.
pub proof fn steps_lead_to_members(v: JsonView, key: Seq<char>)
    ensures
        step(Some(v), key) == field(v, key),
        step(None, key) is None,
{
}

/// A value is well formed where no object in it has two members with one key.
pub proof fn objects_have_distinct_keys(v: JsonView, i: int, j: int)
    requires
        well_formed(v),
    ensures
        v matches JsonView::Array(items) ==> (0 <= i < items.len() ==> well_formed(items[i])),
        v matches JsonView::Object(m) ==> (0 <= i < m.len() ==> well_formed(m[i].1)),
        v matches JsonView::Object(m) ==> (0 <= i < j < m.len() ==> m[i].0 != m[j].0),
{
    match v {
        JsonView::Array(items) => {
            if 0 <= i < items.len() {
                assert(well_formed(items[i]));
            }
        },
        JsonView::Object(m) => {
            if 0 <= i < m.len() {
                assert(well_formed(m[i].1));
            }
        },
        _ => {},
    }
}

/// A float whose text is plain has no character but digits, signs, a point and an exponent mark.
pub proof fn plain_floats_are_plain_text(v: JsonView, i: int)
    requires
        plain_floats(v),
    ensures
        v matches JsonView::Number(NumberView::Float(t)) ==> (0 <= i < t.len() ==> ('0' <= t[i]
            <= '9' || t[i] == '-' || t[i] == '+' || t[i] == '.' || t[i] == 'e')),
{
    match v {
        JsonView::Number(NumberView::Float(t)) => {
            if 0 <= i < t.len() {
                assert(float_char(t[i]));
            }
        },
        _ => {},
    }
}

} // verus!
