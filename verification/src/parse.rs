//! Reading JSON text.
//!
//! `serde_json` reads the text; its value arrives as a flat list of tokens, in the order in which
//! a walk from the root meets them, and is put together here as a [`Json`] tree.
use serde_json::Value;
use vstd::prelude::*;
use vstd::string::*;

use crate::json::{Json, JsonNumber, JsonView, Members, NumberView};

verus! {

/// One node of a JSON tree without what is below it: a list stands for its length, an object for
/// its keys.
pub enum JsonToken {
    Null,
    Bool(bool),
    /// The number as an unsigned one, as a signed one, and as text.
    Number(Option<u64>, Option<i64>, String),
    Str(String),
    Array(usize),
    Object(Vec<String>),
}

/// What a [`JsonToken`] holds.
pub enum TokenView {
    Null,
    Bool(bool),
    Number(Option<u64>, Option<i64>, Seq<char>),
    Str(Seq<char>),
    Array(nat),
    Object(Seq<Seq<char>>),
}

impl View for JsonToken {
    type V = TokenView;

    open spec fn view(&self) -> TokenView {
        match self {
            JsonToken::Null => TokenView::Null,
            JsonToken::Bool(b) => TokenView::Bool(*b),
            JsonToken::Number(u, i, t) => TokenView::Number(*u, *i, t@),
            JsonToken::Str(s) => TokenView::Str(s@),
            JsonToken::Array(n) => TokenView::Array(*n as nat),
            JsonToken::Object(keys) => TokenView::Object(crate::text::views(keys@)),
        }
    }
}

/// The views of a list of tokens.
pub open spec fn token_views(tokens: Seq<JsonToken>) -> Seq<TokenView> {
    Seq::new(tokens.len(), |i: int| tokens[i]@)
}

/// The keys of an object, in order.
pub open spec fn keys_of(m: Members) -> Seq<Seq<char>> {
    Seq::new(m.len(), |i: int| m[i].0)
}

/// The token of a number.
pub open spec fn number_token(n: NumberView) -> TokenView {
    match n {
        NumberView::Unsigned(u) => TokenView::Number(
            Some(u),
            if u <= i64::MAX {
                Some(u as i64)
            } else {
                None
            },
            crate::numbers::decimal_of(u as nat),
        ),
        NumberView::Negative(i) => TokenView::Number(
            None,
            Some(i),
            crate::numbers::signed_of(i as int),
        ),
        NumberView::Float(t) => TokenView::Number(None, None, t),
    }
}

/// The tokens of a tree: each node before what is below it, from left to right.
pub open spec fn flatten(v: JsonView) -> Seq<TokenView>
    decreases v, 0nat,
{
    match v {
        JsonView::Null => seq![TokenView::Null],
        JsonView::Bool(b) => seq![TokenView::Bool(b)],
        JsonView::Number(n) => seq![number_token(n)],
        JsonView::Str(s) => seq![TokenView::Str(s)],
        JsonView::Array(items) => seq![TokenView::Array(items.len())] + flatten_items(
            items,
            items.len(),
        ),
        JsonView::Object(m) => seq![TokenView::Object(keys_of(m))] + flatten_members(m, m.len()),
    }
}

/// The tokens of the first `n` items.
pub open spec fn flatten_items(items: Seq<JsonView>, n: nat) -> Seq<TokenView>
    decreases items, n,
{
    if n == 0 || n > items.len() {
        seq![]
    } else {
        flatten_items(items, (n - 1) as nat) + flatten(items[n - 1])
    }
}

/// The tokens of the values of the first `n` members.
pub open spec fn flatten_members(m: Members, n: nat) -> Seq<TokenView>
    decreases m, n,
{
    if n == 0 || n > m.len() {
        seq![]
    } else {
        flatten_members(m, (n - 1) as nat) + flatten(m[n - 1].1)
    }
}

/// What `serde_json` makes of a text: the tokens of the value, or the message of the error.
pub uninterp spec fn json_tokens(text: Seq<char>) -> Result<Seq<TokenView>, Seq<char>>;

/// What a text says: the value that it denotes, or the message of the error.
pub open spec fn parsed_json(text: Seq<char>) -> Result<JsonView, Seq<char>> {
    match json_tokens(text) {
        Ok(tokens) => Ok(choose|v: JsonView| flatten(v) == tokens),
        Err(e) => Err(e),
    }
}

/// A value of `serde_json`.
#[verifier::external_type_specification]
#[verifier::external_body]
pub struct ExValue(Value);

/// The nodes of a value of `serde_json`, as tokens.
pub uninterp spec fn nodes_of(value: Value) -> Seq<TokenView>;

/// `serde_json::from_str` into a `serde_json::Value`. The result depends on the text alone. A value
/// that was read is a tree, no object in it has a key twice, and the text of a float holds digits,
/// signs, a point and an exponent mark only.
#[verifier::external_body]
fn serde_value(text: &str) -> (r: Result<Value, String>)
    ensures
        match r {
            Ok(value) => json_tokens(text@) == Ok::<Seq<TokenView>, Seq<char>>(nodes_of(value))
                && exists|v: JsonView|
                crate::json::well_formed(v) && crate::json::plain_floats(v) && #[trigger] flatten(v)
                    == nodes_of(value),
            Err(e) => json_tokens(text@) == Err::<Seq<TokenView>, Seq<char>>(e@),
        },
{
    serde_json::from_str(text).map_err(|e: serde_json::Error| e.to_string())
}

/// The variants of `serde_json::Value`, each node before what is below it. A number is handed out
/// as `as_u64`, `as_i64` and its text: an integer that is not below zero is the first, one below
/// zero only the second, a float neither.
#[verifier::external_body]
fn serde_tokens(value: &Value) -> (r: Vec<JsonToken>)
    ensures
        token_views(r@) == nodes_of(*value),
{
    let mut stack = vec![value];
    let mut out = Vec::new();
    while let Some(value) = stack.pop() {
        out.push(match value {
            Value::Null => JsonToken::Null,
            Value::Bool(b) => JsonToken::Bool(*b),
            Value::Number(n) => JsonToken::Number(n.as_u64(), n.as_i64(), n.to_string()),
            Value::String(s) => JsonToken::Str(s.clone()),
            Value::Array(a) => { stack.extend(a.iter().rev()); JsonToken::Array(a.len()) },
            Value::Object(m) => { stack.extend(m.values().rev()); JsonToken::Object(m.keys().cloned().collect()) },
        });
    }
    out
}

// ---------------------------------------------------------------------------
// Facts about the tokens
// ---------------------------------------------------------------------------
/// Two trees whose tokens start two equal sequences are the same tree, and what follows them is
/// the same too.
proof fn lemma_same_start(a: JsonView, b: JsonView, x: Seq<TokenView>, y: Seq<TokenView>)
    requires
        flatten(a) + x == flatten(b) + y,
    ensures
        a == b,
        x == y,
    decreases a, 0nat, 0nat,
{
    let s = flatten(a) + x;
    let t = flatten(b) + y;
    assert(flatten(a).len() > 0 && flatten(b).len() > 0);
    assert(s[0] == flatten(a)[0]);
    assert(t[0] == flatten(b)[0]);
    assert(s.skip(1) == t.skip(1));
    match a {
        JsonView::Array(items) => {
            let others = b->Array_0;
            assert(b is Array);
            assert(s.skip(1) =~= flatten_items(items, items.len()) + x);
            assert(t.skip(1) =~= flatten_items(others, others.len()) + y);
            lemma_items_from(items, 0);
            lemma_items_from(others, 0);
            lemma_same_items(items, others, 0, x, y);
            assert(items =~= others);
        },
        JsonView::Object(m) => {
            let o = b->Object_0;
            assert(b is Object);
            assert(s.skip(1) =~= flatten_members(m, m.len()) + x);
            assert(t.skip(1) =~= flatten_members(o, o.len()) + y);
            assert(keys_of(m) == keys_of(o));
            assert(keys_of(m).len() == keys_of(o).len());
            lemma_members_from(m, 0);
            lemma_members_from(o, 0);
            lemma_same_members(m, o, 0, x, y);
            assert forall|i: int| 0 <= i < m.len() implies m[i] == o[i] by {
                assert(keys_of(m)[i] == keys_of(o)[i]);
            }
            assert(m =~= o);
        },
        _ => {
            assert(s.skip(1) =~= x);
            assert(t.skip(1) =~= y);
        },
    }
}

/// The tokens of the items from position `k` on.
spec fn items_from(items: Seq<JsonView>, k: nat) -> Seq<TokenView>
    decreases items.len() - k,
{
    if k >= items.len() {
        seq![]
    } else {
        flatten(items[k as int]) + items_from(items, k + 1)
    }
}

proof fn lemma_items_from(items: Seq<JsonView>, k: nat)
    requires
        k <= items.len(),
    ensures
        flatten_items(items, items.len()) == flatten_items(items, k) + items_from(items, k),
    decreases items.len() - k,
{
    if k < items.len() {
        lemma_items_from(items, k + 1);
        assert(flatten_items(items, k + 1) == flatten_items(items, k) + flatten(items[k as int]));
        assert(flatten_items(items, k) + items_from(items, k) =~= flatten_items(items, k + 1)
            + items_from(items, k + 1));
    } else {
        assert(flatten_items(items, k) + items_from(items, k) =~= flatten_items(items, k));
    }
    if k == 0 {
        assert(flatten_items(items, 0) + items_from(items, 0) =~= items_from(items, 0));
    }
}

proof fn lemma_same_items(
    a: Seq<JsonView>,
    b: Seq<JsonView>,
    k: nat,
    x: Seq<TokenView>,
    y: Seq<TokenView>,
)
    requires
        a.len() == b.len(),
        k <= a.len(),
        items_from(a, k) + x == items_from(b, k) + y,
    ensures
        forall|i: int| k <= i < a.len() ==> a[i] == b[i],
        x == y,
    decreases a, 1nat, a.len() - k,
{
    if k < a.len() {
        let x1 = items_from(a, k + 1) + x;
        let y1 = items_from(b, k + 1) + y;
        assert(items_from(a, k) + x =~= flatten(a[k as int]) + x1);
        assert(items_from(b, k) + y =~= flatten(b[k as int]) + y1);
        lemma_same_start(a[k as int], b[k as int], x1, y1);
        lemma_same_items(a, b, k + 1, x, y);
    } else {
        assert(items_from(a, k) + x =~= x);
        assert(items_from(b, k) + y =~= y);
    }
}

/// The tokens of the values of the members from position `k` on.
spec fn members_from(m: Members, k: nat) -> Seq<TokenView>
    decreases m.len() - k,
{
    if k >= m.len() {
        seq![]
    } else {
        flatten(m[k as int].1) + members_from(m, k + 1)
    }
}

proof fn lemma_members_from(m: Members, k: nat)
    requires
        k <= m.len(),
    ensures
        flatten_members(m, m.len()) == flatten_members(m, k) + members_from(m, k),
    decreases m.len() - k,
{
    if k < m.len() {
        lemma_members_from(m, k + 1);
        assert(flatten_members(m, k + 1) == flatten_members(m, k) + flatten(m[k as int].1));
        assert(flatten_members(m, k) + members_from(m, k) =~= flatten_members(m, k + 1)
            + members_from(m, k + 1));
    } else {
        assert(flatten_members(m, k) + members_from(m, k) =~= flatten_members(m, k));
    }
    if k == 0 {
        assert(flatten_members(m, 0) + members_from(m, 0) =~= members_from(m, 0));
    }
}

proof fn lemma_same_members(
    a: Members,
    b: Members,
    k: nat,
    x: Seq<TokenView>,
    y: Seq<TokenView>,
)
    requires
        a.len() == b.len(),
        k <= a.len(),
        members_from(a, k) + x == members_from(b, k) + y,
    ensures
        forall|i: int| k <= i < a.len() ==> (#[trigger] a[i]).1 == b[i].1,
        x == y,
    decreases a, 1nat, a.len() - k,
{
    if k < a.len() {
        let x1 = members_from(a, k + 1) + x;
        let y1 = members_from(b, k + 1) + y;
        assert(members_from(a, k) + x =~= flatten(a[k as int].1) + x1);
        assert(members_from(b, k) + y =~= flatten(b[k as int].1) + y1);
        lemma_same_start(a[k as int].1, b[k as int].1, x1, y1);
        lemma_same_members(a, b, k + 1, x, y);
    } else {
        assert(members_from(a, k) + x =~= x);
        assert(members_from(b, k) + y =~= y);
    }
}

/// The tokens of a tree determine it.
pub proof fn tokens_determine_the_tree(a: JsonView, b: JsonView)
    requires
        flatten(a) == flatten(b),
    ensures
        a == b,
{
    let none = Seq::<TokenView>::empty();
    assert(flatten(a) + none =~= flatten(b) + none);
    lemma_same_start(a, b, none, none);
}

// ---------------------------------------------------------------------------
// Putting the tree together
// ---------------------------------------------------------------------------
/// Reads the tree `v` that stands in the tokens at position `pos`; returns it with the position
/// behind it.
fn read_value(tokens: &Vec<JsonToken>, pos: usize, Ghost(v): Ghost<JsonView>) -> (r: (Json, usize))
    requires
        crate::text::occurs_at(token_views(tokens@), flatten(v), pos as int),
    ensures
        r.0@ == v,
        r.1 == pos + flatten(v).len(),
    decreases v,
{
    broadcast use {crate::json::lemma_array_view, crate::json::lemma_object_view};

    let count: usize = tokens.len();
    let ghost all = token_views(tokens@);
    let ghost here = all.subrange(pos as int, pos + flatten(v).len());
    assert(flatten(v).len() > 0);
    assert(here[0] == all[pos as int]);
    assert(all[pos as int] == tokens@[pos as int]@);
    match &tokens[pos] {
        JsonToken::Null => (Json::Null, pos + 1),
        JsonToken::Bool(b) => (Json::Bool(*b), pos + 1),
        JsonToken::Number(u, i, t) => {
            let n = match (*u, *i) {
                (Some(x), _) => JsonNumber::Unsigned(x),
                (None, Some(x)) => JsonNumber::Negative(x),
                (None, None) => JsonNumber::Float(t.clone()),
            };
            (Json::Number(n), pos + 1)
        },
        JsonToken::Str(s) => (Json::Str(s.clone()), pos + 1),
        JsonToken::Array(n) => {
            let ghost items = v->Array_0;
            let mut out: Vec<Json> = Vec::new();
            let mut at: usize = pos + 1;
            let mut i: usize = 0;
            assert(crate::json::items_view(out@) =~= items.take(0));
            while i < *n
                invariant
                    i <= *n,
                    *n == items.len(),
                    v == JsonView::Array(items),
                    all == token_views(tokens@),
                    count == tokens@.len(),
                    crate::text::occurs_at(all, flatten(v), pos as int),
                    at == pos + 1 + flatten_items(items, i as nat).len(),
                    crate::json::items_view(out@) == items.take(i as int),
                decreases *n - i,
            {
                proof {
                    lemma_item_at(all, items, pos as int, i as nat);
                    assert(decreases_to!(v => v->Array_0));
                    assert(decreases_to!(items => items[i as int]));
                }
                let ghost before = out@;
                let (x, next) = read_value(tokens, at, Ghost(items[i as int]));
                out.push(x);
                assert(crate::json::items_view(out@) =~= crate::json::items_view(before).push(x@));
                assert(items.take(i + 1) =~= items.take(i as int).push(items[i as int]));
                at = next;
                i = i + 1;
            }
            assert(items.take(i as int) =~= items);
            (Json::Array(out), at)
        },
        JsonToken::Object(keys) => {
            let ghost m = v->Object_0;
            let mut out: Vec<(String, Json)> = Vec::new();
            let mut at: usize = pos + 1;
            let mut i: usize = 0;
            assert(crate::text::views(keys@) == keys_of(m));
            assert(crate::text::views(keys@).len() == keys_of(m).len());
            assert(crate::json::members_view(out@) =~= m.take(0));
            while i < keys.len()
                invariant
                    i <= keys@.len(),
                    keys@.len() == m.len(),
                    crate::text::views(keys@) == keys_of(m),
                    v == JsonView::Object(m),
                    all == token_views(tokens@),
                    count == tokens@.len(),
                    crate::text::occurs_at(all, flatten(v), pos as int),
                    at == pos + 1 + flatten_members(m, i as nat).len(),
                    crate::json::members_view(out@) == m.take(i as int),
                decreases keys@.len() - i,
            {
                proof {
                    lemma_member_at(all, m, pos as int, i as nat);
                    assert(decreases_to!(v => v->Object_0));
                    assert(decreases_to!(m => m[i as int]));
                    assert(crate::text::views(keys@)[i as int] == keys_of(m)[i as int]);
                }
                let ghost before = out@;
                let (x, next) = read_value(tokens, at, Ghost(m[i as int].1));
                let key = keys[i].clone();
                out.push((key, x));
                assert(crate::json::members_view(out@) =~= crate::json::members_view(before).push(
                    (key@, x@),
                ));
                assert(m.take(i + 1) =~= m.take(i as int).push(m[i as int]));
                at = next;
                i = i + 1;
            }
            assert(m.take(i as int) =~= m);
            (Json::Object(out), at)
        },
    }
}

/// Where a list stands in the tokens, its item `i` stands behind the tokens of the items before
/// it.
proof fn lemma_item_at(all: Seq<TokenView>, items: Seq<JsonView>, pos: int, i: nat)
    requires
        crate::text::occurs_at(all, flatten(JsonView::Array(items)), pos),
        i < items.len(),
    ensures
        crate::text::occurs_at(
            all,
            flatten(items[i as int]),
            pos + 1 + flatten_items(items, i).len(),
        ),
        flatten_items(items, i + 1).len() == flatten_items(items, i).len() + flatten(
            items[i as int],
        ).len(),
{
    let f = flatten(JsonView::Array(items));
    lemma_items_from(items, i);
    let one = flatten(items[i as int]);
    let p: int = 1 + flatten_items(items, i).len() as int;
    assert(items_from(items, i) == one + items_from(items, i + 1));
    assert(f =~= seq![TokenView::Array(items.len())] + flatten_items(items, i) + one + items_from(
        items,
        i + 1,
    ));
    assert(f.subrange(p, p + one.len()) =~= one);
    assert(all.subrange(pos, pos + f.len()) == f);
    assert(all.subrange(pos + p, pos + p + one.len()) =~= f.subrange(p, p + one.len()));
}

/// Where an object stands in the tokens, the value of its member `i` stands behind the tokens of
/// the values before it.
proof fn lemma_member_at(all: Seq<TokenView>, m: Members, pos: int, i: nat)
    requires
        crate::text::occurs_at(all, flatten(JsonView::Object(m)), pos),
        i < m.len(),
    ensures
        crate::text::occurs_at(
            all,
            flatten(m[i as int].1),
            pos + 1 + flatten_members(m, i).len(),
        ),
        flatten_members(m, i + 1).len() == flatten_members(m, i).len() + flatten(
            m[i as int].1,
        ).len(),
{
    let f = flatten(JsonView::Object(m));
    lemma_members_from(m, i);
    let one = flatten(m[i as int].1);
    let p: int = 1 + flatten_members(m, i).len() as int;
    assert(members_from(m, i) == one + members_from(m, i + 1));
    assert(f =~= seq![TokenView::Object(keys_of(m))] + flatten_members(m, i) + one + members_from(
        m,
        i + 1,
    ));
    assert(f.subrange(p, p + one.len()) =~= one);
    assert(all.subrange(pos, pos + f.len()) == f);
    assert(all.subrange(pos + p, pos + p + one.len()) =~= f.subrange(p, p + one.len()));
}

/// The JSON value that a text denotes, or the message of the error. No object of a value that was
/// read has a key twice, and its floats are plain.
pub fn parse_json(text: &str) -> (r: Result<Json, String>)
    ensures
        match r {
            Ok(j) => parsed_json(text@) == Ok::<JsonView, Seq<char>>(j@)
                && crate::json::well_formed(j@) && crate::json::plain_floats(j@),
            Err(e) => parsed_json(text@) == Err::<JsonView, Seq<char>>(e@),
        },
{
    match serde_value(text) {
        Ok(value) => {
            let tokens = serde_tokens(&value);
            let ghost all = token_views(tokens@);
            let ghost v = choose|v: JsonView|
                crate::json::well_formed(v) && crate::json::plain_floats(v) && #[trigger] flatten(v)
                    == all;
            assert(all.subrange(0, all.len() as int) =~= all);
            let (j, end) = read_value(&tokens, 0, Ghost(v));
            proof {
                let w = choose|w: JsonView| flatten(w) == all;
                tokens_determine_the_tree(w, v);
            }
            Ok(j)
        },
        Err(e) => Err(e),
    }
}

/// A text whose nodes are those of a value is that value, and a text that is not JSON is the error
/// that it gives.
pub proof fn parsed_texts_are_their_values(text: Seq<char>, v: JsonView, e: Seq<char>)
    ensures
        json_tokens(text) == Ok::<Seq<TokenView>, Seq<char>>(flatten(v)) ==> parsed_json(text)
            == Ok::<JsonView, Seq<char>>(v),
        json_tokens(text) == Err::<Seq<TokenView>, Seq<char>>(e) ==> parsed_json(text) == Err::<
            JsonView,
            Seq<char>,
        >(e),
{
    if json_tokens(text) == Ok::<Seq<TokenView>, Seq<char>>(flatten(v)) {
        let w = choose|w: JsonView| flatten(w) == flatten(v);
        tokens_determine_the_tree(w, v);
    }
}

} // verus!
