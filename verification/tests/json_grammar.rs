use capworker::json::{encode_json, fmt_u64, obj_get, parse_json, JsonNum, JsonValue};

fn num(mantissa: u64, scale: u32) -> JsonValue {
    JsonValue::Num(JsonNum { neg: false, mantissa, scale })
}

#[test]
fn integers_format_in_decimal() {
    assert_eq!(fmt_u64(0), "0");
    assert_eq!(fmt_u64(7), "7");
    assert_eq!(fmt_u64(1920), "1920");
    assert_eq!(fmt_u64(u64::MAX), "18446744073709551615");
}

#[test]
fn scalars_encode_exactly() {
    assert_eq!(encode_json(&JsonValue::Null), "null");
    assert_eq!(encode_json(&JsonValue::Bool(true)), "true");
    assert_eq!(encode_json(&JsonValue::Bool(false)), "false");
    assert_eq!(encode_json(&num(18, 0)), "18");
    assert_eq!(encode_json(&num(105, 1)), "10.5");
    assert_eq!(encode_json(&num(75, 2)), "0.75");
    assert_eq!(encode_json(&num(5, 3)), "0.005");
    assert_eq!(
        encode_json(&JsonValue::Num(JsonNum { neg: true, mantissa: 42, scale: 1 })),
        "-4.2"
    );
}

#[test]
fn strings_escape_quotes_backslashes_and_controls() {
    let v = JsonValue::Str("say \"hi\"\\\n\tdone\u{0001}".to_string());
    let text = encode_json(&v);
    assert_eq!(text, r#""say \"hi\"\\\n\tdone\u0001""#);
    // the parser reads back every escape the serializer writes
    let back = parse_json(&text).expect("an encoded string parses");
    assert!(matches!(back, JsonValue::Str(s) if s == "say \"hi\"\\\n\tdone\u{0001}"));
}

#[test]
fn control_escapes_decode_to_their_characters() {
    let v = parse_json(r#""a\u0000b\u001Fc\u0009""#).expect("control escapes are read");
    assert!(matches!(v, JsonValue::Str(s) if s == "a\u{0}b\u{1f}c\t"));
    // a \u escape above the control range is outside the grammar
    assert!(parse_json(r#""\u0041""#).is_none());
    assert!(parse_json(r#""\u12""#).is_none());
    assert!(parse_json(r#""\uzzzz""#).is_none());
}

#[test]
fn documents_round_trip_through_their_text() {
    let doc = JsonValue::Obj(vec![
        ("name".to_string(), JsonValue::Str("a \"quoted\" name".to_string())),
        ("count".to_string(), num(3, 0)),
        (
            "items".to_string(),
            JsonValue::Arr(vec![JsonValue::Null, JsonValue::Bool(true), num(25, 2)]),
        ),
        ("empty".to_string(), JsonValue::Obj(vec![])),
    ]);
    let text = encode_json(&doc);
    assert_eq!(
        text,
        r#"{"name":"a \"quoted\" name","count":3,"items":[null,true,0.25],"empty":{}}"#
    );
    let back = parse_json(&text).expect("encoded text parses");
    assert_eq!(encode_json(&back), text);
}

#[test]
fn whitespace_and_escapes_parse() {
    let text = " { \"a\" : [ 1 , 2.50 ] , \"b\\n\" : \"x\\\\y\\/z\" } ";
    let v = parse_json(text).expect("whitespace is allowed between tokens");
    let fields = match &v {
        JsonValue::Obj(fields) => fields,
        _ => panic!("expected an object"),
    };
    let a = obj_get(fields, "a").unwrap();
    match a {
        JsonValue::Arr(items) => {
            assert_eq!(items.len(), 2);
            assert!(matches!(items[0], JsonValue::Num(JsonNum { neg: false, mantissa: 1, scale: 0 })));
            assert!(
                matches!(items[1], JsonValue::Num(JsonNum { neg: false, mantissa: 250, scale: 2 }))
            );
        }
        _ => panic!("expected an array"),
    }
    let b = obj_get(fields, "b\n").unwrap();
    assert!(matches!(b, JsonValue::Str(s) if s == "x\\y/z"));
}

#[test]
fn malformed_documents_are_rejected_not_fatal() {
    for bad in [
        "",
        "   ",
        "nul",
        "truefalse",
        "[1, 2",
        "{\"a\":1,}",
        "{\"a\" 1}",
        "\"\\q\"",
        "01a",
        "01",
        "-01",
        "- 1",
        "1.",
        "1e5",
        "{\"a\":\"\\u0041\"}",
        "[1] [2]",
    ] {
        assert!(parse_json(bad).is_none(), "{bad:?} should be rejected");
    }
}

#[test]
fn duplicate_keys_resolve_to_first_occurrence() {
    let v = parse_json(r#"{"k":1,"k":2}"#).unwrap();
    let fields = match &v {
        JsonValue::Obj(fields) => fields,
        _ => panic!("expected an object"),
    };
    let k = obj_get(fields, "k").unwrap();
    assert!(matches!(k, JsonValue::Num(JsonNum { neg: false, mantissa: 1, scale: 0 })));
}

#[test]
fn oversized_mantissa_is_malformed_not_wrapped() {
    assert!(parse_json("18446744073709551615").is_some());
    assert!(parse_json("18446744073709551616").is_none());
}
