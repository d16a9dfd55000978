use barclock::json::{parse, parse_bytes, render, Json};
use barclock::map::TextMap;

#[test]
fn texts_are_read_as_they_stand() {
    let j = parse(r#" {"b": [1, -2, 2.50, 1e3, true, null, "é\n"], "a": {"x": {}}} "#).unwrap();
    assert_eq!(
        j,
        Json::Object(vec![
            ("a".into(), Json::Object(vec![("x".into(), Json::Object(vec![]))])),
            (
                "b".into(),
                Json::Array(vec![
                    Json::Number("1".into()),
                    Json::Number("-2".into()),
                    Json::Number("2.5".into()),
                    Json::Number("1000.0".into()),
                    Json::Bool(true),
                    Json::Null,
                    Json::Text("é\n".into()),
                ])
            ),
        ])
    );
    assert_eq!(render(&j), r#"{"a":{"x":{}},"b":[1,-2,2.5,1000.0,true,null,"é\n"]}"#);
    assert_eq!(j.clone(), j);
}

#[test]
fn what_is_written_reads_back() {
    for t in ["null", "true", "\"a\\\"b\"", "[1,[2,[]]]", "{\"k\":18446744073709551615}"] {
        let j = parse(t).unwrap();
        assert_eq!(render(&j), t);
        assert_eq!(parse(&render(&j)), Ok(j.clone()));
        assert_eq!(parse_bytes(render(&j).as_bytes()), Ok(j));
    }
}

#[test]
fn members_are_written_in_key_order_and_the_last_wins() {
    let j = Json::Object(vec![
        ("b".into(), Json::number(1)),
        ("a".into(), Json::number(2)),
        ("b".into(), Json::number(3)),
    ]);
    assert_eq!(render(&j), r#"{"a":2,"b":3}"#);
    // a number that is none is written as null
    assert_eq!(render(&Json::Number("ten".into())), "null");
    assert_eq!(render(&Json::Number("-0.5".into())), "-0.5");
}

#[test]
fn errors_carry_a_message() {
    let e = parse("{").unwrap_err();
    assert!(e.contains("EOF"), "{e}");
    assert!(parse_bytes(&[0xff]).is_err());
    // nesting beyond what is read
    let deep = format!("{}{}", "[".repeat(128), "]".repeat(128));
    assert!(parse(&deep).unwrap_err().contains("recursion"), "{deep}");
    assert!(parse(&deep[1..255]).is_ok());
}

#[test]
fn looking_inside() {
    let j = parse(r#"{"n": 7, "f": 7.0, "neg": -7, "t": "x", "b": false, "l": [1], "o": {"k": "v"}}"#).unwrap();
    assert_eq!(j.u64_at("n"), Some(7));
    assert_eq!(j.u64_at("f"), None);
    assert_eq!(j.u64_at("neg"), None);
    assert_eq!(j.str_at("t"), Some("x"));
    assert_eq!(j.str_at("n"), None);
    assert_eq!(j.bool_at("b"), Some(false));
    assert_eq!(j.array_at("l").map(|v| v.len()), Some(1));
    assert_eq!(j.object_at("o").map(|m| m[0].0.as_str()), Some("k"));
    assert!(j.get("missing").is_none());
    assert!(Json::Null.get("n").is_none());
    assert_eq!(Json::list(&vec!["a".into()]), parse(r#"["a"]"#).unwrap());
}

#[test]
fn text_maps() {
    let mut m: TextMap<String> = TextMap::new();
    assert!(m.is_empty());
    m.insert("b".into(), "1".into());
    m.insert("a".into(), "2".into());
    m.insert("b".into(), "3".into());
    assert_eq!(m.get("b"), Some(&"3".to_string()));
    assert_eq!(m.keys(), vec!["a".to_string(), "b".to_string()]);
    assert!(m.contains_key("a") && !m.contains_key("c"));
    assert_eq!(m.remove("b"), Some("3".to_string()));
    assert_eq!(m.remove("b"), None);
    // the order of insertion does not show
    let mut n: TextMap<String> = TextMap::new();
    n.insert("a".into(), "2".into());
    assert_eq!(m, n);
    assert_eq!(n.clone(), n);
}
