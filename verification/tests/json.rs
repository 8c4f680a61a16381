use memory_store::json::{parse_json, Json, Number};

#[test]
fn values_are_read_as_they_stand() {
    let text = r#"{"a":[1,-2,0.5,true,null,"x\ny"],"b":{"c":18446744073709551615}}"#;
    let json = parse_json(text).unwrap();
    let a = json.get("a").unwrap().as_array().unwrap();
    assert_eq!(a.len(), 6);
    assert_eq!(a[0].as_u64(), Some(1));
    assert_eq!(a[1].as_number(), Some(Number::Negative(-2)));
    assert_eq!(a[1].as_u64(), None);
    assert_eq!(a[2].as_number(), Some(Number::Double(0.5f64.to_bits())));
    assert!(matches!(a[3], Json::Bool(true)));
    assert!(matches!(a[4], Json::Null));
    assert_eq!(a[5].as_str(), Some("x\ny"));
    let big = json.get("b").unwrap().get("c").unwrap();
    assert_eq!(big.as_u64(), Some(u64::MAX));
    assert!(json.get("missing").is_none());
    assert!(a[0].get("a").is_none());
    assert!(json.as_array().is_none());
}

#[test]
fn objects_keep_the_last_of_repeated_members() {
    let json = parse_json(r#"{"k":"first","k":"second"}"#).unwrap();
    assert_eq!(json.text_at("k"), Some("second"));
    assert_eq!(parse_json("[1]").unwrap().text_at("k"), None);
    assert_eq!(parse_json(r#"{"k":1}"#).unwrap().text_at("k"), None);
}

#[test]
fn malformed_texts_are_refused() {
    for text in ["", "{", "{bad}", "[1,]", "1 2", "nul"] {
        assert!(parse_json(text).is_err(), "{text:?} should be refused");
    }
}

#[test]
fn copies_hold_the_same() {
    let json = parse_json(r#"{"a":[1,{"b":"c"}],"d":null}"#).unwrap();
    assert_eq!(format!("{:?}", json.copy()), format!("{json:?}"));
}
