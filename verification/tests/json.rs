use rescope::json::{array, from_value, member, number, object, parse, text, Json};

#[test]
fn texts_are_parsed() {
    assert_eq!(parse(b"null"), Some(Json::Null));
    assert_eq!(parse(b" true "), Some(Json::Bool(true)));
    assert_eq!(parse(b"12"), Some(Json::Number("12".to_string())));
    assert_eq!(parse(b"-1"), Some(Json::Number("-1".to_string())));
    assert_eq!(parse(b"\"a\\u0041\""), Some(text("aA")));
    assert_eq!(
        parse(b"{\"b\":[1,{}],\"a\":\"x\"}"),
        Some(object(vec![
            member("a", text("x")),
            member("b", array(vec![number(1), object(vec![])])),
        ]))
    );
    // The last of two members with one key stays.
    assert_eq!(parse(b"{\"a\":1,\"a\":2}"), Some(object(vec![member("a", number(2))])));
}

#[test]
fn other_texts_are_not() {
    assert_eq!(parse(b""), None);
    assert_eq!(parse(b"{"), None);
    assert_eq!(parse(b"{} x"), None);
    assert_eq!(parse(b"\xff"), None);
    assert_eq!(parse(b"nul"), None);
}

#[test]
fn long_arrays_are_read_in_order() {
    let mut bytes = b"[0".to_vec();
    for n in 1..200_000 {
        bytes.extend_from_slice(format!(",{n}").as_bytes());
    }
    bytes.push(b']');
    match parse(&bytes) {
        Some(Json::Array(items)) => {
            assert_eq!(items.len(), 200_000);
            assert_eq!(items[199_999], number(199_999));
            assert_eq!(items[1], number(1));
        }
        other => panic!("{other:?}"),
    }
}

#[test]
fn values_are_opened() {
    let value = serde_json::from_str::<serde_json::Value>("[null,false,3,\"s\",{\"k\":[]}]").unwrap();
    assert_eq!(
        from_value(value),
        array(vec![
            Json::Null,
            Json::Bool(false),
            number(3),
            text("s"),
            object(vec![member("k", array(vec![]))]),
        ])
    );
}

#[test]
fn members_are_found() {
    let json = object(vec![member("a", text("x")), member("b", Json::Null)]);
    assert_eq!(json.get("b"), Some(&Json::Null));
    assert_eq!(json.get("c"), None);
    assert_eq!(json.text_at("a"), Some("x".to_string()));
    assert_eq!(json.text_at("b"), None);
    assert_eq!(text("t").get("a"), None);
    assert_eq!(json.clone(), json);
}
