use uniffi_dart::naming::{class_name, convert, convert_scope, member_name, Clash, Style};

fn scope(items: &[&str]) -> Vec<String> {
    items.iter().map(|s| s.to_string()).collect()
}

#[test]
fn types_are_named_in_upper_camel_case() {
    assert_eq!(class_name("person"), "Person");
    assert_eq!(class_name("user_status"), "UserStatus");
    assert_eq!(class_name("http2_client"), "Http2Client");
    assert_eq!(class_name(""), "");
}

#[test]
fn members_are_named_in_lower_camel_case() {
    assert_eq!(member_name("create_person"), "createPerson");
    assert_eq!(member_name("greet"), "greet");
    assert_eq!(member_name("hash_data_v2"), "hashDataV2");
    assert_eq!(member_name("Value"), "value");
}

#[test]
fn converting_is_the_same_every_time() {
    assert_eq!(convert("get_value", Style::Member), convert("get_value", Style::Member));
    assert_eq!(convert("get_value", Style::Type), "GetValue");
    assert_eq!(convert("getValue", Style::Member), "getValue");
}

#[test]
fn a_scope_of_distinct_snake_case_identifiers_has_distinct_names() {
    let names = convert_scope(&scope(&["a_b", "ab", "a_b_c", "abc", "a"]), Style::Member).unwrap();
    assert_eq!(names, scope(&["aB", "ab", "aBC", "abc", "a"]));
    for i in 0..names.len() {
        for j in 0..i {
            assert_ne!(names[i], names[j]);
        }
    }
}

#[test]
fn a_scope_with_two_identifiers_of_one_name_is_refused() {
    assert_eq!(
        convert_scope(&scope(&["x", "a_b", "y", "aB", "a__b"]), Style::Member),
        Err(Clash { first: 1, second: 3 })
    );
    assert_eq!(
        convert_scope(&scope(&["person", "Person"]), Style::Type),
        Err(Clash { first: 0, second: 1 })
    );
    assert_eq!(
        convert_scope(&scope(&["a", "b", "a"]), Style::Type),
        Err(Clash { first: 0, second: 2 })
    );
    assert_eq!(convert_scope(&scope(&[]), Style::Type), Ok(vec![]));
}
