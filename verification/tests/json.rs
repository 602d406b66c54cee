use unison_editor::json::{parse_json, Json};

#[test]
fn parsed_values_can_be_read() {
    let j = parse_json("{\"a\": \"x\", \"b\": [true, null, 1.5, -2, \"s\"], \"c\": {\"d\": false}}").unwrap();
    assert_eq!(j.get("a").and_then(|v| v.as_str()), Some("x"));
    assert_eq!(j.get_str("a"), Some("x"));
    assert_eq!(j.get_str("b"), None);
    assert_eq!(j.get_str("zz"), None);
    let b = j.get("b").and_then(|v| v.as_array()).unwrap();
    assert_eq!(b.len(), 5);
    assert_eq!(b[0].as_bool(), Some(true));
    assert!(matches!(b[1], Json::Null));
    assert!(matches!(&b[2], Json::Number(n) if n == "1.5"));
    assert!(matches!(&b[3], Json::Number(n) if n == "-2"));
    assert_eq!(b[4].as_str(), Some("s"));
    assert_eq!(j.get("c").and_then(|c| c.get("d")).and_then(|d| d.as_bool()), Some(false));
    assert!(j.get("a").unwrap().get("x").is_none());
    assert!(b[0].as_str().is_none());
    assert!(j.as_array().is_none());
    assert_eq!(j.get_texts("b"), vec![vec!['s']]);
    assert!(j.get_texts("a").is_empty());
    assert!(j.get_texts("nope").is_empty());
}

#[test]
fn text_that_is_not_json_is_refused_with_a_message() {
    assert!(parse_json("").is_err());
    assert!(parse_json("{").is_err());
    assert!(parse_json("{} trailing").is_err());
    assert!(parse_json("plain text").is_err());
    assert!(!parse_json("nope").unwrap_err().is_empty());
    assert!(parse_json(" 12 ").is_ok());
    assert!(parse_json("\"s\"").is_ok());
}

#[test]
fn strings_are_unescaped_on_reading() {
    let j = parse_json("\"a\\n\\\"b\\\" \\u00e9 \\\\\"").unwrap();
    assert_eq!(j.as_str(), Some("a\n\"b\" \u{e9} \\"));
    let j = parse_json("\"tab\\there\\u0001\"").unwrap();
    assert_eq!(j.as_str(), Some("tab\there\u{1}"));
    assert_eq!(parse_json("\"\"").unwrap().as_str(), Some(""));
}

#[test]
fn members_are_read_in_the_order_of_their_keys() {
    let j = parse_json("{\"z\":0,\"a\":[],\"k\\\"ey\":{},\"n\":18446744073709551615}").unwrap();
    match j {
        Json::Object(members) => {
            let keys: Vec<&str> = members.iter().map(|m| m.0.as_str()).collect();
            assert_eq!(keys, vec!["a", "k\"ey", "n", "z"]);
            assert!(matches!(&members[0].1, Json::Array(items) if items.is_empty()));
            assert!(matches!(&members[1].1, Json::Object(inner) if inner.is_empty()));
            assert!(matches!(&members[2].1, Json::Number(n) if n == "18446744073709551615"));
            assert!(matches!(&members[3].1, Json::Number(n) if n == "0"));
        },
        other => panic!("{:?}", other),
    }
}

#[test]
fn repeated_keys_keep_the_last_value_on_reading() {
    let j = parse_json("{\"a\":1,\"a\":2}").unwrap();
    assert!(matches!(j.get("a"), Some(Json::Number(n)) if n == "2"));
    let built = Json::Object(vec![
        ("a".to_string(), Json::Number("1".to_string())),
        ("a".to_string(), Json::Number("2".to_string())),
    ]);
    assert!(matches!(built.get("a"), Some(Json::Number(n)) if n == "1"));
}
