use unity_pipeline_cli::json::Json;
use unity_pipeline_cli::parse::parse_json;
use unity_pipeline_cli::pipeline::{
    command_input_schema, pipeline_type_to_json_schema, PipelineCommand, PipelineParam,
};
use unity_pipeline_cli::render::compact;
use unity_pipeline_cli::schema::{input_schema_from, strip_array_suffix};

fn param(name: Option<&str>, ty: Option<&str>, required: bool) -> PipelineParam {
    PipelineParam {
        name: name.map(|s| s.to_owned()),
        ty: ty.map(|s| s.to_owned()),
        description: None,
        required,
        default_value: None,
        order: None,
    }
}

fn command(parameters: Vec<PipelineParam>, schema: Option<Json>) -> PipelineCommand {
    PipelineCommand {
        name: Some("c".to_owned()),
        description: None,
        parameters,
        schema,
    }
}

#[test]
fn type_names() {
    let name = |ty: &str| pipeline_type_to_json_schema(Some(ty));
    assert_eq!(pipeline_type_to_json_schema(None), "string");
    assert_eq!(name("Boolean"), "boolean");
    for ty in ["Int32", "Int64", "Int16", "Byte", "UInt32", "uint64", "UINT16", "SByte"] {
        assert_eq!(name(ty), "integer");
    }
    for ty in ["Single", "Double", "Decimal", "float"] {
        assert_eq!(name(ty), "number");
    }
    assert_eq!(name("Object"), "object");
    assert_eq!(name("Dictionary`2"), "object");
    assert_eq!(name("IDictionary`2"), "object");
    assert_eq!(name("String"), "string");
    assert_eq!(name("Vector3"), "string");
    for ty in ["String[]", "Int32[][]", " Foo [] ", "List`1", "IEnumerable`1", "Stack`1", "hashset"] {
        assert_eq!(name(ty), "array");
    }
}

#[test]
fn fragments_of_arrays() {
    let schema = command_input_schema(&command(
        vec![
            param(Some("a"), Some("Int32[][]"), false),
            param(Some("b"), Some("List`1[]"), false),
            param(Some("c"), Some("List`1"), false),
        ],
        None,
    ));
    assert_eq!(
        compact(schema.get("properties").unwrap()),
        r#"{"a":{"type":"array","items":{"type":"array","items":{"type":"integer"}}},"b":{"type":"array","items":{"type":"array","items":{"type":"string"}}},"c":{"type":"array","items":{"type":"string"}}}"#
    );
}

#[test]
fn a_derived_schema() {
    let mut first = param(Some("code"), Some("String"), true);
    first.description = Some("C#".to_owned());
    let mut second = param(Some("n"), None, false);
    second.default_value = Some(Json::Null);
    let schema = command_input_schema(&command(
        vec![first, second, param(None, Some("Int32"), true), param(Some(""), None, true)],
        None,
    ));
    assert_eq!(
        compact(&schema),
        r#"{"type":"object","properties":{"code":{"type":"string","description":"C#"},"n":{"type":"string","default":null}},"required":["code"],"additionalProperties":false}"#
    );
}

#[test]
fn the_servers_schema_comes_first() {
    let text = r#"{"$schema":"s","title":"t","type":"object","description":"d","properties":{"a":{}},"x-command-metadata":{},"required":["a"]}"#;
    let bare = r#"{"type":"object","properties":{"a":{}},"required":["a"]}"#;
    let as_text = command(vec![], Some(Json::Str(text.to_owned())));
    assert_eq!(compact(&command_input_schema(&as_text)), bare);
    let as_object = command(vec![], Some(parse_json(text).unwrap()));
    assert_eq!(compact(&command_input_schema(&as_object)), bare);
}

#[test]
fn a_schema_gets_a_type() {
    let parsed = parse_json(r#"{"title":"t","properties":{}}"#).unwrap();
    assert_eq!(
        compact(&input_schema_from(&parsed).unwrap()),
        r#"{"properties":{},"type":"object"}"#
    );
    assert_eq!(input_schema_from(&Json::Null), None);
}

#[test]
fn an_unreadable_schema_is_derived() {
    let derived = r#"{"type":"object","properties":{},"required":[],"additionalProperties":false}"#;
    let broken = command(vec![], Some(Json::Str("{".to_owned())));
    assert_eq!(compact(&command_input_schema(&broken)), derived);
    let number = command(vec![], Some(parse_json("1").unwrap()));
    assert_eq!(compact(&command_input_schema(&number)), derived);
}

#[test]
fn brackets_nest() {
    let items = |ty: &str| {
        let schema = command_input_schema(&command(vec![param(Some("a"), Some(ty), false)], None));
        compact(schema.get("properties").unwrap().get("a").unwrap())
    };
    for ty in ["Foo", "Foo[]", "List`1", " Int32 ", ""] {
        let inner = items(ty);
        assert_eq!(
            items(&format!("{ty}[]")),
            format!("{{\"type\":\"array\",\"items\":{inner}}}")
        );
    }
}

#[test]
fn array_suffixes() {
    let split = |base: &str, dims: usize| (base.to_owned(), dims);
    assert_eq!(strip_array_suffix("Foo[][]"), split("Foo", 2));
    assert_eq!(strip_array_suffix(" Foo [] "), split("Foo", 1));
    assert_eq!(strip_array_suffix("List`1"), split("", 1));
    assert_eq!(strip_array_suffix("List`1[]"), split("", 2));
    assert_eq!(strip_array_suffix("Foo"), split("Foo", 0));
}
