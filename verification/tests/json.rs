use hakuro::json::{
    as_array, as_bool, as_double_bits, as_i64, as_text, as_text_or_empty, get_within, is_object,
    parse_bytes, parse_text,
};

#[test]
fn documents_are_read_field_by_field() {
    let json = parse_text(
        r#"{"name":"x","count":3,"ratio":1.5,"on":true,"list":[1,"a",null],"inner":{"deep":"y"}}"#,
    )
    .unwrap();
    assert_eq!(as_text(json.get("name")), Some("x".to_string()));
    assert_eq!(as_i64(json.get("count")), Some(3));
    assert_eq!(as_double_bits(json.get("count")), Some(3.0f64.to_bits()));
    assert_eq!(as_i64(json.get("ratio")), None);
    assert_eq!(as_double_bits(json.get("ratio")), Some(1.5f64.to_bits()));
    assert_eq!(as_bool(json.get("on")), Some(true));
    assert_eq!(as_array(json.get("list")).unwrap().len(), 3);
    assert_eq!(as_array(json.get("name")).map(|list| list.len()), None);
    assert_eq!(
        as_text_or_empty(get_within(json.get("inner"), "deep")),
        "y"
    );
    assert_eq!(as_text_or_empty(get_within(json.get("none"), "deep")), "");
    assert!(is_object(json.get("inner")));
    assert!(!is_object(json.get("list")));
}

#[test]
fn what_is_no_json_is_not_read() {
    assert!(parse_text("{ not json").is_none());
    assert!(parse_text("").is_none());
    assert!(parse_bytes(b"\xff").is_none());
    assert!(parse_bytes(b"[1, 2]").is_some());
}

#[test]
fn the_last_of_two_fields_of_one_name_counts() {
    let json = parse_bytes(br#"{"a":1,"a":2}"#).unwrap();
    assert_eq!(as_i64(json.get("a")), Some(2));
}
