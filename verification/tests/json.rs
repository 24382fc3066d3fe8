use unity_pipeline_cli::json::{remove_member, set_member, Json, JsonNumber};
use unity_pipeline_cli::parse::parse_json;
use unity_pipeline_cli::render::{compact, js_number, pretty, render_number, serialized};

fn parsed(text: &str) -> Json {
    parse_json(text).unwrap()
}

#[test]
fn values_are_read() {
    let v = parsed(r#"{"a": [1, -2, 1.5, true, null, "x\n"], "b": {"c": 18446744073709551615}}"#);
    let a = match v.get("a") {
        Some(Json::Array(items)) => items,
        other => panic!("no list: {other:?}"),
    };
    assert_eq!(a[0], Json::Number(JsonNumber::Unsigned(1)));
    assert_eq!(a[1], Json::Number(JsonNumber::Negative(-2)));
    assert_eq!(a[2], Json::Number(JsonNumber::Float("1.5".to_owned())));
    assert_eq!(a[3], Json::Bool(true));
    assert_eq!(a[4], Json::Null);
    assert_eq!(a[5], Json::Str("x\n".to_owned()));
    let b = v.get("b").unwrap();
    assert_eq!(b.get("c").unwrap().as_u64(), Some(u64::MAX));
    assert_eq!(b.get("d"), None);
}

#[test]
fn members_keep_their_order_and_the_last_value() {
    let v = parsed(r#"{"z": 1, "a": 2, "z": 3}"#);
    assert_eq!(compact(&v), r#"{"z":3,"a":2}"#);
}

#[test]
fn errors_are_those_of_serde() {
    let text = "{\"a\": tru}";
    let expected = serde_json::from_str::<serde_json::Value>(text).unwrap_err().to_string();
    assert_eq!(parse_json(text).unwrap_err(), expected);
    assert!(parse_json("").is_err());
    assert!(parse_json("1 2").is_err());
}

#[test]
fn nested_values_survive() {
    let text = r#"[[],{},[[1],{"a":[{"b":[]}]}],"é😀"]"#;
    assert_eq!(compact(&parsed(text)), text);
}

#[test]
fn rendering_without_floats_is_that_of_serde() {
    let text = r#"{"s": "a\"b\\c\u0001\u001f\b\f\n\r\t/é ", "n": [0, -1, 9223372036854775808], "e": [], "o": {}, "t": [true, false, null, {"k": [1, [2]]}]}"#;
    let value: serde_json::Value = serde_json::from_str(text).unwrap();
    let v = parsed(text);
    assert_eq!(compact(&v), serde_json::to_string(&value).unwrap());
    assert_eq!(pretty(&v), serde_json::to_string_pretty(&value).unwrap());
    assert_eq!(serialized(&v), serde_json::to_string(&value).unwrap());
}

#[test]
fn payloads_write_floats_as_serde_does() {
    let text = "[1.0, 0.1, -0.0, 1e21, 1e-7, 123456789.125, 5e-324, 1.7976931348623157e308]";
    let value: serde_json::Value = serde_json::from_str(text).unwrap();
    assert_eq!(serialized(&parsed(text)), serde_json::to_string(&value).unwrap());
    assert_eq!(serialized(&parsed("[1.0]")), "[1.0]");
}

#[test]
fn floats_read_as_javascript_prints_them() {
    assert_eq!(compact(&parsed("1.0")), "1");
    assert_eq!(compact(&parsed("-0.0")), "0");
    assert_eq!(compact(&parsed("0.1")), "0.1");
    assert_eq!(compact(&parsed("-2.50")), "-2.5");
    assert_eq!(compact(&parsed("1e20")), "100000000000000000000");
    assert_eq!(compact(&parsed("1e21")), "1e+21");
    let large = Json::Number(JsonNumber::Float("1.25e25".to_owned()));
    assert_eq!(compact(&large), "1.25e+25");
    assert_eq!(compact(&parsed("0.000001")), "0.000001");
    assert_eq!(compact(&parsed("0.0000001")), "1e-7");
    assert_eq!(compact(&parsed("-1.5e-9")), "-1.5e-9");
    assert_eq!(compact(&parsed("123.456")), "123.456");
    assert_eq!(compact(&parsed("1200.0")), "1200");
}

#[test]
fn numbers_that_json_lacks_are_null() {
    assert_eq!(js_number("inf", false, false), "null");
    assert_eq!(js_number("NaN", false, false), "null");
    assert_eq!(js_number("0e0", true, true), "0");
    assert_eq!(js_number("1.5e-7", true, false), "-1.5e-7");
}

#[test]
fn integers_are_exact() {
    assert_eq!(render_number(&JsonNumber::Unsigned(u64::MAX)), "18446744073709551615");
    assert_eq!(render_number(&JsonNumber::Negative(i64::MIN)), "-9223372036854775808");
}

#[test]
fn indentation_is_two_spaces() {
    let v = parsed(r#"{"a":[1,{"b":null}],"c":{},"d":[]}"#);
    assert_eq!(
        pretty(&v),
        "{\n  \"a\": [\n    1,\n    {\n      \"b\": null\n    }\n  ],\n  \"c\": {},\n  \"d\": []\n}"
    );
}

#[test]
fn setting_and_removing_members() {
    let mut o = vec![("a".to_owned(), Json::Null), ("b".to_owned(), Json::Bool(true))];
    set_member(&mut o, "a", Json::Bool(false));
    set_member(&mut o, "c", Json::Null);
    assert_eq!(compact(&Json::Object(o.clone())), r#"{"a":false,"b":true,"c":null}"#);
    remove_member(&mut o, "b");
    remove_member(&mut o, "x");
    assert_eq!(compact(&Json::Object(o)), r#"{"a":false,"c":null}"#);
}

#[test]
fn copies_are_equal() {
    let v = parsed(r#"{"a":[1,"x",{"b":1.5}]}"#);
    assert_eq!(v.clone(), v);
}

#[test]
fn floats_agree_with_their_scientific_rendering() {
    let mut bits: u64 = 0x9e37_79b9_7f4a_7c15;
    for _ in 0..20_000 {
        bits = bits.wrapping_mul(6364136223846793005).wrapping_add(1442695040888963407);
        let f = f64::from_bits(bits ^ (bits >> 29));
        if !f.is_finite() {
            continue;
        }
        let text = serde_json::Number::from_f64(f).unwrap().to_string();
        let rendered = render_number(&JsonNumber::Float(text));
        // Two shortest renderings may lie equally close: they may differ in the last digit.
        let other = js_number(&format!("{:e}", f.abs()), f < 0.0, f == 0.0);
        assert_eq!(rendered.len(), other.len());
        assert_eq!(rendered.parse::<f64>().unwrap(), f);
    }
    // Of two that lie equally close, the one that ends in an even digit.
    let tie = serde_json::Number::from_f64(2204138485456065.25).unwrap().to_string();
    assert_eq!(render_number(&JsonNumber::Float(tie)), "2204138485456065.2");
    for f in [1.0, -1.0, 0.0, -0.0, 0.5, 1e-6, 1e-7, 1e20, 1e21, 123456.789, 5e-324, f64::MAX] {
        let text = serde_json::Number::from_f64(f).unwrap().to_string();
        let rendered = render_number(&JsonNumber::Float(text));
        assert_eq!(rendered, js_number(&format!("{:e}", f.abs()), f < 0.0, f == 0.0));
    }
}

#[test]
fn compact_json_stays_on_one_line() {
    let v = parsed("{\"a\\nb\": [\"x\\ny\\r\", 1.5,\n 2]}");
    assert_eq!(compact(&v), "{\"a\\nb\":[\"x\\ny\\r\",1.5,2]}");
    assert!(!compact(&v).contains('\n'));
}

#[test]
fn numbers_keep_their_value() {
    for text in ["1e0", "1.25e2", "9.5e20", "9.5e21", "1e-6", "1.5e-7", "1.2345e3", "1e21", "5e-324"] {
        let plain = js_number(text, false, false);
        assert_eq!(plain.parse::<f64>(), text.parse::<f64>(), "{text}");
        assert_eq!(js_number(text, true, false), format!("-{plain}"));
        let value = text.parse::<f64>().unwrap();
        assert_eq!(plain.contains('e'), value >= 1e21 || value < 1e-6, "{text}");
        if !plain.contains('e') {
            assert_eq!(plain.contains('.'), value.fract() != 0.0, "{text}");
        }
    }
}
