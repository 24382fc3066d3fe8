//! The JSON Schema of a command's parameters.
use vstd::prelude::*;
use vstd::string::*;

use crate::json::{find_member, json_str, remove_member, set_member, Json, JsonView, Members};
use crate::parse::parse_json;
use crate::pipeline::{CommandView, ParamView, PipelineCommand, PipelineParam};
use crate::text::{
    before, chars_of, starts_with, str_eq, strip_suffix, to_ascii_lowercase, trim, trim_end,
};

verus! {

// ---------------------------------------------------------------------------
// CLR type names
// ---------------------------------------------------------------------------
/// The generic collections whose elements make an array.
pub open spec fn is_collection(generic: Seq<char>) -> bool {
    ||| generic == "list"@
    ||| generic == "ilist"@
    ||| generic == "ienumerable"@
    ||| generic == "icollection"@
    ||| generic == "hashset"@
    ||| generic == "queue"@
    ||| generic == "stack"@
}

/// The element type name and the array depth of a type name without white space around it.
pub open spec fn array_split(base: Seq<char>) -> (Seq<char>, nat)
    decreases base.len(),
{
    match crate::text::strip_suffix_of(base, "[]"@) {
        Some(rest) => {
            proof {
                lemma_suffix_shortens(base);
            }
            let inner = array_split(crate::text::trim_end_of(rest));
            (inner.0, inner.1 + 1)
        },
        None => if is_collection(crate::text::ascii_lower(crate::text::before_of(base, '`'))) {
            (seq![], 1)
        } else {
            (base, 0)
        },
    }
}

pub proof fn lemma_suffix_shortens(base: Seq<char>)
    ensures
        match crate::text::strip_suffix_of(base, "[]"@) {
            Some(rest) => crate::text::trim_end_of(rest).len() < base.len(),
            None => true,
        },
{
    reveal_strlit("[]");
    if "[]"@.is_suffix_of(base) {
        let rest = base.take(base.len() - 2);
        crate::text::lemma_drop_white(rest, rest.len() as int);
    }
}

proof fn lemma_collection_not_empty(base: Seq<char>)
    ensures
        is_collection(crate::text::ascii_lower(crate::text::before_of(base, '`'))) ==> base.len()
            > 0,
{
    reveal_strlit("list");
    reveal_strlit("ilist");
    reveal_strlit("ienumerable");
    reveal_strlit("icollection");
    reveal_strlit("hashset");
    reveal_strlit("queue");
    reveal_strlit("stack");
    crate::text::lemma_seek(base, '`', 0);
    let generic = crate::text::before_of(base, '`');
    assert(crate::text::ascii_lower(generic).len() == generic.len());
}

proof fn lemma_split_base(base: Seq<char>)
    ensures
        !"[]"@.is_suffix_of(array_split(base).0),
    decreases base.len(),
{
    reveal_strlit("[]");
    lemma_suffix_shortens(base);
    match crate::text::strip_suffix_of(base, "[]"@) {
        Some(rest) => lemma_split_base(crate::text::trim_end_of(rest)),
        None => {},
    }
}

/// One more pair of brackets is one more dimension of the same element type, whose name does not
/// itself end in brackets.
pub proof fn brackets_add_a_dimension(ty: Seq<char>)
    ensures
        ({
            let (base, dims) = array_split(crate::text::trim_of(ty));
            &&& array_split(crate::text::trim_of(ty + "[]"@)) == (base, dims + 1)
            &&& !"[]"@.is_suffix_of(base)
        }),
{
    reveal_strlit("[]");
    let n = ty.len() as int;
    let longer = ty + "[]"@;
    lemma_split_base(crate::text::trim_of(ty));
    crate::text::lemma_skip_white(ty, 0);
    crate::text::lemma_skip_white(longer, 0);
    let i = crate::text::skip_white(ty, 0);
    assert(longer[i] == (if i < n {
        ty[i]
    } else {
        '['
    }));
    assert(crate::text::skip_white(longer, 0) == i);
    let start = crate::text::trim_start_of(longer);
    assert(start =~= crate::text::trim_start_of(ty) + "[]"@);
    crate::text::lemma_drop_white(start, start.len() as int);
    assert(start.last() == ']');
    assert(crate::text::trim_end_of(start) =~= start);
    assert(start.take(start.len() - 2) =~= crate::text::trim_start_of(ty));
    assert("[]"@.is_suffix_of(start));
}

/// Split `Foo[]`, `Foo[][]` and ``List`1`` into (element type name, array depth). A generic
/// collection's element type is not recoverable from the CLR type *name* alone, so the element
/// falls back to the default scalar.
pub fn strip_array_suffix(ty: &str) -> (r: (String, usize))
    ensures
        (r.0@, r.1 as nat) == array_split(crate::text::trim_of(ty@)),
{
    let mut base = trim(ty);
    let ghost start = base@;
    let n: usize = chars_of(base.as_str()).len();
    let mut dims: usize = 0;
    loop
        invariant
            start == crate::text::trim_of(ty@),
            array_split(start) == (array_split(base@).0, (array_split(base@).1 + dims) as nat),
            dims + base@.len() <= n,
        decreases base@.len(),
    {
        proof {
            lemma_suffix_shortens(base@);
            lemma_collection_not_empty(base@);
        }
        match strip_suffix(base.as_str(), "[]") {
            Some(rest) => {
                base = trim_end(rest.as_str());
                dims = dims + 1;
            },
            None => {
                let generic = to_ascii_lowercase(before(base.as_str(), '`').as_str());
                if names_collection(generic.as_str()) {
                    return (String::new(), dims + 1);
                }
                return (base, dims);
            },
        }
    }
}

fn names_collection(generic: &str) -> (r: bool)
    ensures
        r == is_collection(generic@),
{
    str_eq(generic, "list") || str_eq(generic, "ilist") || str_eq(generic, "ienumerable") || str_eq(
        generic,
        "icollection",
    ) || str_eq(generic, "hashset") || str_eq(generic, "queue") || str_eq(generic, "stack")
}

/// The JSON Schema `type` name of a scalar, from its CLR type name in small letters.
pub open spec fn scalar_name(lower: Seq<char>) -> Seq<char> {
    if "dictionary"@.is_prefix_of(lower) || "idictionary"@.is_prefix_of(lower) {
        "object"@
    } else if lower == "boolean"@ {
        "boolean"@
    } else if lower == "int32"@ || lower == "int64"@ || lower == "int16"@ || lower == "byte"@
        || lower == "uint32"@ || lower == "uint64"@ || lower == "uint16"@ || lower == "sbyte"@ {
        "integer"@
    } else if lower == "single"@ || lower == "double"@ || lower == "decimal"@ || lower
        == "float"@ {
        "number"@
    } else if lower == "object"@ {
        "object"@
    } else {
        "string"@
    }
}

fn scalar_type(lower: &str) -> (r: &'static str)
    ensures
        r@ == scalar_name(lower@),
{
    if starts_with(lower, "dictionary") || starts_with(lower, "idictionary") {
        "object"
    } else if str_eq(lower, "boolean") {
        "boolean"
    } else if str_eq(lower, "int32") || str_eq(lower, "int64") || str_eq(lower, "int16") || str_eq(
        lower,
        "byte",
    ) || str_eq(lower, "uint32") || str_eq(lower, "uint64") || str_eq(lower, "uint16") || str_eq(
        lower,
        "sbyte",
    ) {
        "integer"
    } else if str_eq(lower, "single") || str_eq(lower, "double") || str_eq(lower, "decimal")
        || str_eq(lower, "float") {
        "number"
    } else if str_eq(lower, "object") {
        "object"
    } else {
        "string"
    }
}

/// `items` within `dims` arrays.
pub open spec fn nested(items: Members, dims: nat) -> Members
    decreases dims,
{
    if dims == 0 {
        items
    } else {
        seq![
            ("type"@, JsonView::Str("array"@)),
            ("items"@, JsonView::Object(nested(items, (dims - 1) as nat))),
        ]
    }
}

/// The JSON Schema fragment for a CLR type name.
pub open spec fn type_schema_of(ty: Seq<char>) -> Members {
    let (base, dims) = array_split(crate::text::trim_of(ty));
    nested(seq![("type"@, JsonView::Str(scalar_name(crate::text::ascii_lower(base))))], dims)
}

/// Map a CLR type name as reported by `/api/commands` (e.g. `Int32`, `Single`, `String[]`,
/// ``List`1``) onto the members of the JSON Schema fragment for it.
fn type_schema(ty: &str) -> (r: Vec<(String, Json)>)
    ensures
        crate::json::members_view(r@) == type_schema_of(ty@),
{
    let (base, dims) = strip_array_suffix(ty);
    let lower = to_ascii_lowercase(base.as_str());
    let name = scalar_type(lower.as_str());
    let mut inner: Vec<(String, Json)> = vec![("type".to_owned(), json_str(name))];
    let ghost scalar: Members = seq![("type"@, JsonView::Str(scalar_name(lower@)))];
    assert(crate::json::members_view(inner@) =~= scalar);
    let mut i: usize = 0;
    while i < dims
        invariant
            i <= dims,
            crate::json::members_view(inner@) == nested(scalar, i as nat),
        decreases dims - i,
    {
        broadcast use crate::json::lemma_object_view;

        let ghost before = crate::json::members_view(inner@);
        inner = vec![("type".to_owned(), json_str("array")), ("items".to_owned(), Json::Object(inner))];
        let ghost outer: Members = seq![
            ("type"@, JsonView::Str("array"@)),
            ("items"@, JsonView::Object(before)),
        ];
        assert(crate::json::members_view(inner@) =~= outer);
        i = i + 1;
    }
    inner
}

/// The JSON Schema `type` name for a CLR type name.
pub open spec fn type_name_of(ty: Option<Seq<char>>) -> Seq<char> {
    match ty {
        None => "string"@,
        Some(t) => {
            let (base, dims) = array_split(crate::text::trim_of(t));
            if dims > 0 {
                "array"@
            } else {
                scalar_name(crate::text::ascii_lower(base))
            }
        },
    }
}

/// The JSON Schema `type` name for a CLR type name as reported by `/api/commands`.
pub fn pipeline_type_to_json_schema(ty: Option<&str>) -> (r: String)
    ensures
        r@ == type_name_of(crate::text::opt_str_view(ty)),
{
    broadcast use crate::json::lemma_object_view;

    let t = match ty {
        Some(t) => t,
        None => {
            return "string".to_owned();
        },
    };
    let schema = Json::Object(type_schema(t));
    match schema.get_str("type") {
        Some(name) => name.to_owned(),
        None => "string".to_owned(),
    }
}

// ---------------------------------------------------------------------------
// The schema of a command
// ---------------------------------------------------------------------------
/// A parameter that has a name has an entry in the schema.
pub open spec fn param_name(p: ParamView) -> Option<Seq<char>> {
    match p.name {
        Some(name) => if name.len() > 0 {
            Some(name)
        } else {
            None
        },
        None => None,
    }
}

/// The members of a parameter's schema.
pub open spec fn property_of(p: ParamView) -> Members {
    let typed: Members = match p.ty {
        Some(ty) => type_schema_of(ty),
        None => seq![("type"@, JsonView::Str("string"@))],
    };
    let described = match p.description {
        Some(d) => crate::json::with_member(typed, "description"@, JsonView::Str(d)),
        None => typed,
    };
    match p.default_value {
        Some(v) => crate::json::with_member(described, "default"@, v),
        None => described,
    }
}

/// The properties of the first `n` parameters.
pub open spec fn properties_of(ps: Seq<ParamView>, n: nat) -> Members
    decreases n,
{
    if n == 0 || n > ps.len() {
        seq![]
    } else {
        let before = properties_of(ps, (n - 1) as nat);
        match param_name(ps[n - 1]) {
            Some(name) => crate::json::with_member(
                before,
                name,
                JsonView::Object(property_of(ps[n - 1])),
            ),
            None => before,
        }
    }
}

/// The names of those of the first `n` parameters that are required.
pub open spec fn required_of(ps: Seq<ParamView>, n: nat) -> Seq<JsonView>
    decreases n,
{
    if n == 0 || n > ps.len() {
        seq![]
    } else {
        let before = required_of(ps, (n - 1) as nat);
        match param_name(ps[n - 1]) {
            Some(name) => if ps[n - 1].required {
                before.push(JsonView::Str(name))
            } else {
                before
            },
            None => before,
        }
    }
}

/// The schema derived from a parameter list.
pub open spec fn derived_schema(ps: Seq<ParamView>) -> JsonView {
    JsonView::Object(
        seq![
            ("type"@, JsonView::Str("object"@)),
            ("properties"@, JsonView::Object(properties_of(ps, ps.len()))),
            ("required"@, JsonView::Array(required_of(ps, ps.len()))),
            ("additionalProperties"@, JsonView::Bool(false)),
        ],
    )
}

/// The members of a parameter's schema.
fn property_schema(param: &PipelineParam) -> (r: Vec<(String, Json)>)
    ensures
        crate::json::members_view(r@) == property_of(param@),
{
    let mut prop: Vec<(String, Json)> = match &param.ty {
        Some(ty) => type_schema(ty.as_str()),
        None => vec![("type".to_owned(), json_str("string"))],
    };
    assert(param@.ty is None ==> crate::json::members_view(prop@) =~= seq![
        ("type"@, JsonView::Str("string"@)),
    ]);
    match &param.description {
        Some(desc) => set_member(&mut prop, "description", json_str(desc.as_str())),
        None => {},
    }
    match &param.default_value {
        Some(default) => set_member(&mut prop, "default", default.clone()),
        None => {},
    }
    prop
}

/// Schema derived from the command's parameter list, for servers too old to send one.
fn fallback_input_schema(cmd: &PipelineCommand) -> (r: Json)
    ensures
        r@ == derived_schema(cmd@.parameters),
{
    broadcast use {crate::json::lemma_object_view, crate::json::lemma_array_view};

    let ghost ps = cmd@.parameters;
    let mut properties: Vec<(String, Json)> = Vec::new();
    let mut required: Vec<Json> = Vec::new();
    let mut i: usize = 0;
    assert(crate::json::members_view(properties@) =~= properties_of(ps, 0));
    assert(crate::json::items_view(required@) =~= required_of(ps, 0));
    while i < cmd.parameters.len()
        invariant
            i <= cmd.parameters@.len(),
            ps == crate::pipeline::param_views(cmd.parameters@),
            crate::json::members_view(properties@) == properties_of(ps, i as nat),
            crate::json::items_view(required@) == required_of(ps, i as nat),
        decreases cmd.parameters@.len() - i,
    {
        broadcast use crate::json::lemma_object_view;

        let param = &cmd.parameters[i];
        assert(ps[i as int] == param@);
        match &param.name {
            Some(pname) => {
                if !pname.as_str().is_empty() {
                    let prop = property_schema(param);
                    set_member(&mut properties, pname.as_str(), Json::Object(prop));
                    if param.required {
                        let ghost before = required@;
                        required.push(json_str(pname.as_str()));
                        assert(crate::json::items_view(required@) =~= crate::json::items_view(
                            before,
                        ).push(JsonView::Str(pname@)));
                    }
                }
            },
            None => {},
        }
        i = i + 1;
    }
    let schema: Vec<(String, Json)> = vec![
        ("type".to_owned(), json_str("object")),
        ("properties".to_owned(), Json::Object(properties)),
        ("required".to_owned(), Json::Array(required)),
        ("additionalProperties".to_owned(), Json::Bool(false)),
    ];
    assert(crate::json::members_view(schema@) =~= derived_schema(ps)->Object_0);
    Json::Object(schema)
}

/// The members without those that are not part of an input schema: the schema's own metadata, and
/// the command description (which the tool already carries at the top level).
pub open spec fn without_metadata(m: Members) -> Members {
    crate::json::without_member(
        crate::json::without_member(
            crate::json::without_member(crate::json::without_member(m, "$schema"@), "title"@),
            "description"@,
        ),
        "x-command-metadata"@,
    )
}

/// The input schema that a server's schema document amounts to, given what it reads as.
pub open spec fn input_schema_of(parsed: JsonView) -> Option<JsonView> {
    match parsed {
        JsonView::Object(m) => {
            let bare = without_metadata(m);
            Some(
                JsonView::Object(
                    if crate::json::has_member(bare, "type"@) {
                        bare
                    } else {
                        crate::json::with_member(bare, "type"@, JsonView::Str("object"@))
                    },
                ),
            )
        },
        _ => None,
    }
}

/// The input schema that a server's schema document amounts to, given what it reads as: without
/// the keys that belong to the JSON Schema document itself rather than to a tool's `inputSchema`,
/// and with a type. `None` for what is no object.
pub fn input_schema_from(parsed: &Json) -> (r: Option<Json>)
    ensures
        crate::json::opt_json_view(r) == input_schema_of(parsed@),
{
    broadcast use crate::json::lemma_object_view;

    let mut obj: Vec<(String, Json)> = match parsed.clone() {
        Json::Object(o) => o,
        _ => {
            return None;
        },
    };
    remove_member(&mut obj, "$schema");
    remove_member(&mut obj, "title");
    remove_member(&mut obj, "description");
    remove_member(&mut obj, "x-command-metadata");
    proof {
        crate::json::member_found(crate::json::members_view(obj@), "type"@);
    }
    if find_member(&obj, "type") >= obj.len() {
        set_member(&mut obj, "type", json_str("object"));
    }
    Some(Json::Object(obj))
}

/// What the schema that came with a command reads as. The server serializes the schema as a
/// string.
pub open spec fn schema_value(raw: Option<JsonView>) -> Option<JsonView> {
    match raw {
        Some(JsonView::Str(s)) => match crate::parse::parsed_json(s) {
            Ok(v) => Some(v),
            Err(_) => None,
        },
        other => other,
    }
}

/// The server's own command schema.
pub open spec fn server_schema(raw: Option<JsonView>) -> Option<JsonView> {
    match schema_value(raw) {
        Some(v) => input_schema_of(v),
        None => None,
    }
}

/// Whether the floats in what came with a command are plain.
pub open spec fn plain_command(cmd: CommandView) -> bool {
    &&& cmd.schema matches Some(v) ==> crate::json::plain_floats(v)
    &&& forall|i: int|
        0 <= i < cmd.parameters.len() ==> ((#[trigger] cmd.parameters[i]).default_value matches Some(
            v,
        ) ==> crate::json::plain_floats(v))
}

proof fn lemma_plain_input_schema(parsed: JsonView)
    requires
        crate::json::plain_floats(parsed),
    ensures
        input_schema_of(parsed) matches Some(v) ==> crate::json::plain_floats(v),
{
    match parsed {
        JsonView::Object(m) => {
            let none = JsonView::Null;
            crate::json::lemma_plain_members(m, "$schema"@, none);
            let m1 = crate::json::without_member(m, "$schema"@);
            crate::json::lemma_plain_members(m1, "title"@, none);
            let m2 = crate::json::without_member(m1, "title"@);
            crate::json::lemma_plain_members(m2, "description"@, none);
            let m3 = crate::json::without_member(m2, "description"@);
            crate::json::lemma_plain_members(m3, "x-command-metadata"@, none);
            crate::json::lemma_plain_members(
                without_metadata(m),
                "type"@,
                JsonView::Str("object"@),
            );
        },
        _ => {},
    }
}

proof fn lemma_plain_nested(items: Members, dims: nat)
    requires
        crate::json::plain_members(items),
    ensures
        crate::json::plain_members(nested(items, dims)),
    decreases dims,
{
    if dims > 0 {
        lemma_plain_nested(items, (dims - 1) as nat);
        let inner = nested(items, (dims - 1) as nat);
        assert(crate::json::plain_floats(JsonView::Object(inner)));
    }
}

proof fn lemma_plain_property(p: ParamView)
    requires
        p.default_value matches Some(v) ==> crate::json::plain_floats(v),
    ensures
        crate::json::plain_members(property_of(p)),
{
    let typed: Members = match p.ty {
        Some(ty) => type_schema_of(ty),
        None => seq![("type"@, JsonView::Str("string"@))],
    };
    match p.ty {
        Some(ty) => {
            let (base, dims) = array_split(crate::text::trim_of(ty));
            lemma_plain_nested(
                seq![("type"@, JsonView::Str(scalar_name(crate::text::ascii_lower(base))))],
                dims,
            );
        },
        None => {},
    }
    let described = match p.description {
        Some(d) => {
            crate::json::lemma_plain_members(typed, "description"@, JsonView::Str(d));
            crate::json::with_member(typed, "description"@, JsonView::Str(d))
        },
        None => typed,
    };
    match p.default_value {
        Some(v) => crate::json::lemma_plain_members(described, "default"@, v),
        None => {},
    }
}

proof fn lemma_plain_properties(ps: Seq<ParamView>, n: nat)
    requires
        forall|i: int|
            0 <= i < ps.len() ==> ((#[trigger] ps[i]).default_value matches Some(v)
                ==> crate::json::plain_floats(v)),
    ensures
        crate::json::plain_members(properties_of(ps, n)),
        forall|i: int|
            0 <= i < required_of(ps, n).len() ==> crate::json::plain_floats(
                #[trigger] required_of(ps, n)[i],
            ),
    decreases n,
{
    if n == 0 || n > ps.len() {
    } else {
        lemma_plain_properties(ps, (n - 1) as nat);
        match param_name(ps[n - 1]) {
            Some(name) => {
                let property = property_of(ps[n - 1]);
                lemma_plain_property(ps[n - 1]);
                assert(crate::json::plain_floats(JsonView::Object(property)));
                crate::json::lemma_plain_members(
                    properties_of(ps, (n - 1) as nat),
                    name,
                    JsonView::Object(property),
                );
                let before = required_of(ps, (n - 1) as nat);
                assert forall|i: int| 0 <= i < required_of(ps, n).len() implies
                    crate::json::plain_floats(#[trigger] required_of(ps, n)[i]) by {
                    if i < before.len() {
                        assert(required_of(ps, n)[i] == before[i]);
                    }
                }
            },
            None => {
                assert(required_of(ps, n) == required_of(ps, (n - 1) as nat));
            },
        }
    }
}

proof fn lemma_plain_derived(ps: Seq<ParamView>)
    requires
        forall|i: int|
            0 <= i < ps.len() ==> ((#[trigger] ps[i]).default_value matches Some(v)
                ==> crate::json::plain_floats(v)),
    ensures
        crate::json::plain_floats(derived_schema(ps)),
{
    lemma_plain_properties(ps, ps.len());
    assert(crate::json::plain_floats(JsonView::Object(properties_of(ps, ps.len()))));
    assert(crate::json::plain_floats(JsonView::Array(required_of(ps, ps.len()))));
    let m = derived_schema(ps)->Object_0;
    assert(crate::json::plain_floats(m[0].1) && crate::json::plain_floats(m[3].1));
}

/// The server's own command schema, stripped of the keys that belong to the JSON Schema document
/// itself rather than to a tool's `inputSchema`.
fn server_schema_object(cmd: &PipelineCommand) -> (r: Option<Json>)
    ensures
        crate::json::opt_json_view(r) == server_schema(cmd@.schema),
        plain_command(cmd@) ==> (r matches Some(v) ==> crate::json::plain_floats(v@)),
{
    match &cmd.schema {
        None => None,
        Some(Json::Str(s)) => match parse_json(s.as_str()) {
            Ok(v) => {
                proof {
                    lemma_plain_input_schema(v@);
                }
                input_schema_from(&v)
            },
            Err(_) => None,
        },
        Some(other) => {
            proof {
                if plain_command(cmd@) {
                    lemma_plain_input_schema(other@);
                }
            }
            input_schema_from(other)
        },
    }
}

/// The `inputSchema` for one MCP tool.
pub open spec fn command_schema(cmd: CommandView) -> JsonView {
    match server_schema(cmd.schema) {
        Some(v) => v,
        None => derived_schema(cmd.parameters),
    }
}

/// The `inputSchema` for one MCP tool. Prefers the schema the server generates for the command
/// (it knows the real parameter types) and only falls back to deriving one from the parameter
/// list when the server did not supply it.
pub fn command_input_schema(cmd: &PipelineCommand) -> (r: Json)
    ensures
        r@ == command_schema(cmd@),
        plain_command(cmd@) ==> crate::json::plain_floats(r@),
{
    proof {
        if plain_command(cmd@) {
            lemma_plain_derived(cmd@.parameters);
        }
    }
    match server_schema_object(cmd) {
        Some(v) => v,
        None => fallback_input_schema(cmd),
    }
}

// ---------------------------------------------------------------------------
// Laws
// ---------------------------------------------------------------------------
/// An input schema made from a document with distinct keys says what type it has, holds none of
/// the document's metadata, and has every other member as the document has it.
pub proof fn input_schema_is_bare(m: Members, other: Seq<char>)
    requires
        crate::json::distinct_keys(m),
    ensures
        input_schema_of(JsonView::Object(m)) matches Some(JsonView::Object(s)) && {
            &&& crate::json::member(s, "type"@) is Some
            &&& crate::json::member(s, "$schema"@) is None
            &&& crate::json::member(s, "title"@) is None
            &&& crate::json::member(s, "description"@) is None
            &&& crate::json::member(s, "x-command-metadata"@) is None
            &&& (other != "type"@ && other != "$schema"@ && other != "title"@ && other
                != "description"@ && other != "x-command-metadata"@) ==> crate::json::member(
                s,
                other,
            ) == crate::json::member(m, other)
        },
{
    reveal_strlit("type");
    reveal_strlit("$schema");
    reveal_strlit("title");
    reveal_strlit("description");
    reveal_strlit("x-command-metadata");
    assert("title"@[0] != "$schema"@[0]);
    assert("type"@[1] != "title"@[1]);
    let k1 = "$schema"@;
    let k2 = "title"@;
    let k3 = "description"@;
    let k4 = "x-command-metadata"@;
    let m1 = crate::json::without_member(m, k1);
    let m2 = crate::json::without_member(m1, k2);
    let m3 = crate::json::without_member(m2, k3);
    let m4 = crate::json::without_member(m3, k4);
    crate::json::removed_member_is_gone(m, k1, other);
    crate::json::removed_member_is_gone(m1, k2, other);
    crate::json::removed_member_is_gone(m2, k3, other);
    crate::json::removed_member_is_gone(m3, k4, other);
    crate::json::removed_member_is_gone(m1, k2, k1);
    crate::json::removed_member_is_gone(m2, k3, k1);
    crate::json::removed_member_is_gone(m3, k4, k1);
    crate::json::removed_member_is_gone(m2, k3, k2);
    crate::json::removed_member_is_gone(m3, k4, k2);
    crate::json::removed_member_is_gone(m3, k4, k3);
    crate::json::member_found(m4, "type"@);
    let object = JsonView::Str("object"@);
    crate::json::set_member_reads_back(m4, "type"@, object, other);
    crate::json::set_member_reads_back(m4, "type"@, object, k1);
    crate::json::set_member_reads_back(m4, "type"@, object, k2);
    crate::json::set_member_reads_back(m4, "type"@, object, k3);
    crate::json::set_member_reads_back(m4, "type"@, object, k4);
}

/// Every parameter with a name has a property in the derived schema.
pub proof fn every_parameter_has_a_property(ps: Seq<ParamView>, i: int)
    requires
        0 <= i < ps.len(),
        param_name(ps[i]) is Some,
    ensures
        crate::json::member(properties_of(ps, ps.len()), param_name(ps[i])->0) is Some,
{
    lemma_property_kept(ps, i, ps.len());
}

proof fn lemma_property_kept(ps: Seq<ParamView>, i: int, n: nat)
    requires
        0 <= i < n <= ps.len(),
        param_name(ps[i]) is Some,
    ensures
        crate::json::member(properties_of(ps, n), param_name(ps[i])->0) is Some,
    decreases n,
{
    let key = param_name(ps[i])->0;
    let before = properties_of(ps, (n - 1) as nat);
    if i < n - 1 {
        lemma_property_kept(ps, i, (n - 1) as nat);
    }
    match param_name(ps[n - 1]) {
        Some(name) => {
            let value = JsonView::Object(property_of(ps[n - 1]));
            crate::json::set_member_reads_back(before, name, value, key);
        },
        None => {},
    }
}

proof fn lemma_nested_keys(items: Members, dims: nat)
    requires
        items.len() == 1,
        items[0].0 == "type"@,
    ensures
        forall|j: int|
            0 <= j < nested(items, dims).len() ==> (#[trigger] nested(items, dims)[j]).0 == "type"@
                || nested(items, dims)[j].0 == "items"@,
        nested(items, dims).len() > 0,
        nested(items, dims)[0].0 == "type"@,
{
}

/// The property of a parameter has the parameter's default, with or without a description; its
/// description, with or without a default; and the type that its CLR type has in JSON, a string
/// where it names none. It says nothing else.
pub proof fn properties_say_what_is_known(p: ParamView, d: Seq<char>, t: Seq<char>, other: Seq<char>)
    ensures
        ({
            let property = JsonView::Object(property_of(p));
            &&& p.default_value is Some ==> crate::json::field(property, "default"@)
                == p.default_value
            &&& p.default_value is None ==> crate::json::field(property, "default"@) is None
            &&& p.description == Some(d) ==> crate::json::field(property, "description"@) == Some(
                JsonView::Str(d),
            )
            &&& p.description is None ==> crate::json::field(property, "description"@) is None
            &&& p.ty is None ==> crate::json::field(property, "type"@) == Some(
                JsonView::Str("string"@),
            ) && crate::json::field(property, "items"@) is None
            &&& p.ty == Some(t) ==> crate::json::field(property, "type"@) == crate::json::member(
                type_schema_of(t),
                "type"@,
            ) && crate::json::field(property, "items"@) == crate::json::member(
                type_schema_of(t),
                "items"@,
            )
            &&& other != "default"@ && other != "description"@ && other != "type"@ && other
                != "items"@ ==> crate::json::field(property, other) is None
        }),
{
    reveal_strlit("default");
    reveal_strlit("description");
    reveal_strlit("type");
    reveal_strlit("items");
    assert("default"@.len() == 7);
    assert("description"@.len() == 11);
    assert("type"@.len() == 4);
    assert("items"@.len() == 5);
    let typed: Members = match p.ty {
        Some(ty) => type_schema_of(ty),
        None => seq![("type"@, JsonView::Str("string"@))],
    };
    match p.ty {
        Some(ty) => {
            let (base, dims) = array_split(crate::text::trim_of(ty));
            lemma_nested_keys(
                seq![("type"@, JsonView::Str(scalar_name(crate::text::ascii_lower(base))))],
                dims,
            );
        },
        None => {},
    }
    crate::json::absent_member_is_not_read(typed, "default"@);
    crate::json::absent_member_is_not_read(typed, "description"@);
    if other != "type"@ && other != "items"@ {
        crate::json::absent_member_is_not_read(typed, other);
    }
    if p.ty is None {
        crate::json::first_member_is_read(typed, 0);
        crate::json::absent_member_is_not_read(typed, "items"@);
    }
    let described = match p.description {
        Some(x) => {
            let v = JsonView::Str(x);
            crate::json::set_member_reads_back(typed, "description"@, v, "default"@);
            crate::json::set_member_reads_back(typed, "description"@, v, "type"@);
            crate::json::set_member_reads_back(typed, "description"@, v, "items"@);
            crate::json::set_member_reads_back(typed, "description"@, v, other);
            crate::json::with_member(typed, "description"@, v)
        },
        None => typed,
    };
    match p.default_value {
        Some(v) => {
            crate::json::set_member_reads_back(described, "default"@, v, "description"@);
            crate::json::set_member_reads_back(described, "default"@, v, "type"@);
            crate::json::set_member_reads_back(described, "default"@, v, "items"@);
            crate::json::set_member_reads_back(described, "default"@, v, other);
        },
        None => {},
    }
}

/// Scalar CLR types have the JSON types of their values, in whatever case they are written: whole
/// numbers are integers, other numbers numbers, dictionaries objects, and what is not known is a
/// string. The generic collections are arrays of strings.
pub proof fn clr_types_have_json_types(ty: Seq<char>)
    requires
        !"[]"@.is_suffix_of(crate::text::trim_of(ty)),
    ensures
        ({
            let lower = crate::text::ascii_lower(crate::text::trim_of(ty));
            let generic = crate::text::ascii_lower(
                crate::text::before_of(crate::text::trim_of(ty), '`'),
            );
            let collection = generic == "list"@ || generic == "ilist"@ || generic == "ienumerable"@
                || generic == "icollection"@ || generic == "hashset"@ || generic == "queue"@
                || generic == "stack"@;
            let dictionary = "dictionary"@.is_prefix_of(lower) || "idictionary"@.is_prefix_of(
                lower,
            );
            let whole = lower == "int32"@ || lower == "int64"@ || lower == "int16"@ || lower
                == "byte"@ || lower == "uint32"@ || lower == "uint64"@ || lower == "uint16"@
                || lower == "sbyte"@;
            let fraction = lower == "single"@ || lower == "double"@ || lower == "decimal"@ || lower
                == "float"@;
            &&& collection ==> type_schema_of(ty) == seq![
                ("type"@, JsonView::Str("array"@)),
                ("items"@, JsonView::Object(seq![("type"@, JsonView::Str("string"@))])),
            ] && type_name_of(Some(ty)) == "array"@
            &&& !collection && lower == "boolean"@ ==> type_schema_of(ty) == seq![
                ("type"@, JsonView::Str("boolean"@)),
            ] && type_name_of(Some(ty)) == "boolean"@
            &&& !collection && whole ==> type_schema_of(ty) == seq![
                ("type"@, JsonView::Str("integer"@)),
            ] && type_name_of(Some(ty)) == "integer"@
            &&& !collection && fraction ==> type_schema_of(ty) == seq![
                ("type"@, JsonView::Str("number"@)),
            ] && type_name_of(Some(ty)) == "number"@
            &&& !collection && (dictionary || lower == "object"@) ==> type_schema_of(ty) == seq![
                ("type"@, JsonView::Str("object"@)),
            ] && type_name_of(Some(ty)) == "object"@
            &&& !collection && !dictionary && !whole && !fraction && lower != "object"@ && lower
                != "boolean"@ ==> type_schema_of(ty) == seq![("type"@, JsonView::Str("string"@))]
                && type_name_of(Some(ty)) == "string"@
        }),
        type_name_of(None) == "string"@,
{
    reveal_strlit("dictionary");
    reveal_strlit("idictionary");
    reveal_strlit("boolean");
    reveal_strlit("int32");
    reveal_strlit("int64");
    reveal_strlit("int16");
    reveal_strlit("byte");
    reveal_strlit("uint32");
    reveal_strlit("uint64");
    reveal_strlit("uint16");
    reveal_strlit("sbyte");
    reveal_strlit("single");
    reveal_strlit("double");
    reveal_strlit("decimal");
    reveal_strlit("float");
    reveal_strlit("object");
    let base = crate::text::trim_of(ty);
    let lower = crate::text::ascii_lower(base);
    let none = crate::text::ascii_lower(Seq::<char>::empty());
    assert(none.len() == 0);
    assert(scalar_name(none) == "string"@);
    assert("dictionary"@.len() == 10 && "idictionary"@.len() == 11);
    if "dictionary"@.is_prefix_of(lower) || "idictionary"@.is_prefix_of(lower) {
        assert(lower.len() >= 10);
    }
    assert("boolean"@.len() == 7 && "int32"@.len() == 5 && "int64"@.len() == 5 && "int16"@.len()
        == 5 && "byte"@.len() == 4 && "uint32"@.len() == 6 && "uint64"@.len() == 6
        && "uint16"@.len() == 6 && "sbyte"@.len() == 5 && "single"@.len() == 6 && "double"@.len()
        == 6 && "decimal"@.len() == 7 && "float"@.len() == 5 && "object"@.len() == 6);
    assert("sbyte"@[0] == 's' && "int32"@[0] == 'i' && "int64"@[0] == 'i' && "int16"@[0] == 'i'
        && "uint32"@[0] == 'u' && "uint64"@[0] == 'u' && "uint16"@[0] == 'u' && "single"@[0] == 's'
        && "double"@[0] == 'd' && "decimal"@[0] == 'd' && "boolean"@[0] == 'b' && "float"@[0] == 'f'
        && "object"@[0] == 'o');
    reveal_with_fuel(nested, 3);
}

/// One more pair of brackets makes a type the array of what it was.
pub proof fn brackets_make_arrays(ty: Seq<char>)
    ensures
        type_schema_of(ty + "[]"@) == seq![
            ("type"@, JsonView::Str("array"@)),
            ("items"@, JsonView::Object(type_schema_of(ty))),
        ],
        type_name_of(Some(ty + "[]"@)) == "array"@,
{
    brackets_add_a_dimension(ty);
}

proof fn lemma_last_property(ps: Seq<ParamView>, i: int, n: nat)
    requires
        0 <= i < n <= ps.len(),
        ps[i].name matches Some(name) && name.len() > 0,
        forall|j: int| i < j < n ==> (#[trigger] ps[j]).name != ps[i].name,
    ensures
        crate::json::member(properties_of(ps, n), ps[i].name->0) == Some(
            JsonView::Object(property_of(ps[i])),
        ),
    decreases n,
{
    let key = ps[i].name->0;
    let before = properties_of(ps, (n - 1) as nat);
    if i < n - 1 {
        lemma_last_property(ps, i, (n - 1) as nat);
    }
    match param_name(ps[n - 1]) {
        Some(name) => {
            let value = JsonView::Object(property_of(ps[n - 1]));
            crate::json::set_member_reads_back(before, name, value, key);
        },
        None => {},
    }
}

/// The property with a parameter's name is that parameter's own, required or not; of several with
/// one name, the last one's.
pub proof fn properties_are_the_parameters(ps: Seq<ParamView>, i: int)
    requires
        0 <= i < ps.len(),
        ps[i].name matches Some(name) && name.len() > 0,
        forall|j: int| i < j < ps.len() ==> (#[trigger] ps[j]).name != ps[i].name,
    ensures
        crate::json::step(
            crate::json::field(derived_schema(ps), "properties"@),
            ps[i].name->0,
        ) == Some(JsonView::Object(property_of(ps[i]))),
{
    lemma_last_property(ps, i, ps.len());
    derived_schemas_are_closed(ps);
}

/// No property has a name that no parameter has.
pub proof fn properties_are_no_others(ps: Seq<ParamView>, n: nat, key: Seq<char>)
    requires
        n <= ps.len(),
        key.len() == 0 || forall|j: int| 0 <= j < n ==> (#[trigger] ps[j]).name != Some(key),
    ensures
        crate::json::member(properties_of(ps, n), key) is None,
    decreases n,
{
    if n > 0 {
        let before = properties_of(ps, (n - 1) as nat);
        properties_are_no_others(ps, (n - 1) as nat, key);
        match param_name(ps[n - 1]) {
            Some(name) => {
                let value = JsonView::Object(property_of(ps[n - 1]));
                assert(ps[n - 1].name == Some(name));
                crate::json::set_member_reads_back(before, name, value, key);
            },
            None => {},
        }
    } else {
        crate::json::absent_member_is_not_read(properties_of(ps, n), key);
    }
}

/// A derived schema describes an object with the parameters as its properties, the required ones
/// named, and allows no others.
pub proof fn derived_schemas_are_closed(ps: Seq<ParamView>)
    ensures
        crate::json::field(derived_schema(ps), "type"@) == Some(JsonView::Str("object"@)),
        crate::json::field(derived_schema(ps), "additionalProperties"@) == Some(
            JsonView::Bool(false),
        ),
        crate::json::field(derived_schema(ps), "properties"@) == Some(
            JsonView::Object(properties_of(ps, ps.len())),
        ),
        crate::json::field(derived_schema(ps), "required"@) == Some(
            JsonView::Array(required_of(ps, ps.len())),
        ),
{
    reveal_strlit("type");
    reveal_strlit("properties");
    reveal_strlit("required");
    reveal_strlit("additionalProperties");
    assert("type"@.len() == 4);
    assert("properties"@.len() == 10);
    assert("required"@.len() == 8);
    assert("additionalProperties"@.len() == 20);
    let m = derived_schema(ps)->Object_0;
    crate::json::first_member_is_read(m, 0);
    crate::json::first_member_is_read(m, 1);
    crate::json::first_member_is_read(m, 2);
    crate::json::first_member_is_read(m, 3);
}

/// The names that a derived schema requires are those of the required parameters with a name, in
/// their order. `at` says which each is.
pub proof fn required_names_are_the_required(ps: Seq<ParamView>, n: nat) -> (at: Seq<int>)
    requires
        n <= ps.len(),
    ensures
        crate::editor::ascending(at, n as int),
        at.len() == required_of(ps, n).len(),
        forall|k: int|
            0 <= k < at.len() ==> ps[#[trigger] at[k]].required && (ps[at[k]].name matches Some(name)
                && name.len() > 0 && required_of(ps, n)[k] == JsonView::Str(name)),
        forall|i: int|
            0 <= i < n && (#[trigger] ps[i]).required && (ps[i].name matches Some(name) && name.len()
                > 0) ==> at.contains(i),
    decreases n,
{
    if n == 0 {
        seq![]
    } else {
        let before = required_names_are_the_required(ps, (n - 1) as nat);
        if ps[n - 1].required && param_name(ps[n - 1]) is Some {
            let at = before.push(n - 1);
            assert forall|i: int|
                0 <= i < n && (#[trigger] ps[i]).required && (ps[i].name matches Some(name)
                    && name.len() > 0) implies at.contains(i) by {
                if i < n - 1 {
                    let k = choose|k: int| 0 <= k < before.len() && before[k] == i;
                    assert(at[k] == i);
                } else {
                    assert(at[before.len() as int] == i);
                }
            }
            at
        } else {
            before
        }
    }
}

/// The schema that the server gives a command is used, as a value or as JSON text; where it gives
/// none that is an object, the schema is derived from the parameters.
pub proof fn server_schemas_come_first(cmd: CommandView, m: Members, text: Seq<char>)
    ensures
        cmd.schema is None ==> command_schema(cmd) == derived_schema(cmd.parameters),
        cmd.schema matches Some(v) ==> !(v is Object) && !(v is Str) ==> command_schema(cmd)
            == derived_schema(cmd.parameters),
        cmd.schema == Some(JsonView::Object(m)) ==> Some(command_schema(cmd)) == input_schema_of(
            JsonView::Object(m),
        ),
        cmd.schema == Some(JsonView::Str(text)) && crate::parse::parsed_json(text) == Ok::<
            JsonView,
            Seq<char>,
        >(JsonView::Object(m)) ==> Some(command_schema(cmd)) == input_schema_of(
            JsonView::Object(m),
        ),
        cmd.schema == Some(JsonView::Str(text)) && !(crate::parse::parsed_json(text) matches Ok(
            JsonView::Object(_),
        )) ==> command_schema(cmd) == derived_schema(cmd.parameters),
{
}

/// An input schema keeps the type that its document states, and is an object's where it states
/// none.
pub proof fn input_schemas_keep_their_type(m: Members)
    requires
        crate::json::distinct_keys(m),
    ensures
        input_schema_of(JsonView::Object(m)) matches Some(s) && {
            &&& crate::json::member(m, "type"@) is Some ==> crate::json::field(s, "type"@)
                == crate::json::member(m, "type"@)
            &&& crate::json::member(m, "type"@) is None ==> crate::json::field(s, "type"@) == Some(
                JsonView::Str("object"@),
            )
        },
{
    reveal_strlit("type");
    reveal_strlit("$schema");
    reveal_strlit("title");
    reveal_strlit("description");
    reveal_strlit("x-command-metadata");
    assert("type"@.len() == 4 && "$schema"@.len() == 7 && "title"@.len() == 5
        && "description"@.len() == 11 && "x-command-metadata"@.len() == 18);
    let ty = "type"@;
    let m1 = crate::json::without_member(m, "$schema"@);
    let m2 = crate::json::without_member(m1, "title"@);
    let m3 = crate::json::without_member(m2, "description"@);
    let m4 = crate::json::without_member(m3, "x-command-metadata"@);
    crate::json::removed_member_is_gone(m, "$schema"@, ty);
    crate::json::removed_member_is_gone(m1, "title"@, ty);
    crate::json::removed_member_is_gone(m2, "description"@, ty);
    crate::json::removed_member_is_gone(m3, "x-command-metadata"@, ty);
    crate::json::member_found(m4, ty);
    crate::json::set_member_reads_back(m4, ty, JsonView::Str("object"@), ty);
}

} // verus!
