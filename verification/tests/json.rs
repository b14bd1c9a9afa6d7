use cloud_spanner::json::{member, parse_json, text, Json};

#[test]
fn every_kind_of_value_is_read() {
    let value = parse_json(r#" {"b":[null,true,1,-2.5,1e400,"x"],"a":{}} "#);
    // A number that no float can hold is refused.
    assert!(value.is_err());
    let value = parse_json(r#" {"b":[null,true,1,-2.5,"x\né"],"a":{}} "#).unwrap();
    assert_eq!(
        value.get("b"),
        Some(&Json::Array(vec![
            Json::Null,
            Json::Bool(true),
            Json::Number("1".to_string()),
            Json::Number("-2.5".to_string()),
            text("x\né"),
        ]))
    );
    assert_eq!(value.get("a"), Some(&Json::Object(vec![])));
    assert_eq!(value.get("c"), None);
}

#[test]
fn numbers_are_held_as_they_are_printed() {
    for (source, printed) in [
        ("0", "0"),
        ("-0", "-0.0"),
        ("18446744073709551615", "18446744073709551615"),
        ("1.50", "1.5"),
        ("1e2", "100.0"),
    ] {
        assert_eq!(
            parse_json(source),
            Ok(Json::Number(printed.to_string())),
            "{source}"
        );
    }
}

#[test]
fn the_last_field_of_a_name_counts() {
    let value = parse_json(r#"{"a":1,"a":2}"#).unwrap();
    assert_eq!(value.get("a"), Some(&Json::Number("2".to_string())));
}

#[test]
fn what_is_no_json_is_refused_with_a_message() {
    assert_eq!(
        parse_json("").unwrap_err(),
        "EOF while parsing a value at line 1 column 0"
    );
    assert_eq!(
        parse_json("{} x").unwrap_err(),
        "trailing characters at line 1 column 4"
    );
}

#[test]
fn fields_are_found_in_objects_alone() {
    let value = Json::Object(vec![
        member("a", text("x")),
        member("b", Json::Number("1".to_string())),
    ]);
    assert_eq!(value.text_field("a"), Some("x".to_string()));
    assert_eq!(value.text_field("b"), None);
    assert_eq!(value.text_field("c"), None);
    assert_eq!(Json::Array(vec![]).get("a"), None);
    assert_eq!(text("a").as_str(), Some("a"));
    assert_eq!(Json::Null.as_str(), None);
    assert_eq!(value.copy(), value);
}
