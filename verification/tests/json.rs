use telemetry_push::json::{clone_items, clone_members, find_member, Json, JsonNumber};

fn pair(name: &str, value: i128) -> (String, Json) {
    (name.to_string(), Json::Number(JsonNumber::Integer(value)))
}

#[test]
fn member_is_found_at_its_first_position() {
    let members = vec![pair("a", 1), pair("b", 2), pair("a", 3)];
    assert_eq!(find_member(&members, &"a".to_string()), Some(0));
    assert_eq!(find_member(&members, &"b".to_string()), Some(1));
    assert_eq!(find_member(&members, &"c".to_string()), None);
    assert_eq!(find_member(&members, &"A".to_string()), None);
    assert_eq!(find_member(&members, &String::new()), None);
    assert_eq!(find_member(&vec![], &"a".to_string()), None);
}

#[test]
fn copies_keep_order_and_content() {
    let members = vec![pair("z", 1), pair("a", 2)];
    assert_eq!(clone_members(&members), members);
    let items = vec![Json::Object(members), Json::Null, Json::String("x".to_string())];
    assert_eq!(clone_items(&items), items);
    assert_eq!(clone_items(&vec![]), Vec::<Json>::new());
}

#[test]
fn number_copy_is_equal() {
    let integer = JsonNumber::Integer(-170141183460469231731687303715884105728);
    assert_eq!(integer.clone(), integer);
    let literal = JsonNumber::Real("6.02e23".to_string());
    assert_eq!(literal.clone(), literal);
}
