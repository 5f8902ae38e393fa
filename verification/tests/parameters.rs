use mercurius_p::command_builder::replace_placeholders;
use mercurius_p::parameters::ParameterMap;

#[test]
fn get_after_insert_gives_the_inserted_value() {
    let mut values = ParameterMap::new();
    assert!(values.is_empty());
    values.insert("path".to_string(), "/tmp".to_string());
    values.insert("format".to_string(), "short".to_string());
    assert_eq!(values.get("path"), Some(&"/tmp".to_string()));
    assert_eq!(values.get("format"), Some(&"short".to_string()));
    assert_eq!(values.get("missing"), None);
    assert_eq!(values.len(), 2);
}

#[test]
fn insert_of_a_known_name_replaces_its_value_in_place() {
    let mut values = ParameterMap::new();
    values.insert("a".to_string(), "1".to_string());
    values.insert("b".to_string(), "2".to_string());
    values.insert("a".to_string(), "3".to_string());
    assert_eq!(values.len(), 2);
    assert_eq!(values.key_at(0), "a");
    assert_eq!(values.value_at(0), "3");
    assert_eq!(values.key_at(1), "b");
    assert_eq!(values.get("a"), Some(&"3".to_string()));
}

#[test]
fn names_are_case_sensitive() {
    let mut values = ParameterMap::new();
    values.insert("Name".to_string(), "x".to_string());
    assert_eq!(values.get("name"), None);
}

#[test]
fn replaces_every_occurrence_of_a_placeholder() {
    let mut values = ParameterMap::new();
    values.insert("x".to_string(), "ab".to_string());
    assert_eq!(replace_placeholders("{x}-{x}-{y}-x", &values), "ab-ab-{y}-x");
}

#[test]
fn lone_placeholder_becomes_its_value() {
    let mut values = ParameterMap::new();
    values.insert("message".to_string(), "héllo wörld".to_string());
    assert_eq!(replace_placeholders("{message}", &values), "héllo wörld");
}

#[test]
fn replacement_follows_the_order_of_the_names() {
    let mut values = ParameterMap::new();
    values.insert("a".to_string(), "{b}".to_string());
    values.insert("b".to_string(), "B".to_string());
    assert_eq!(replace_placeholders("{a}", &values), "B");

    let mut reversed = ParameterMap::new();
    reversed.insert("b".to_string(), "B".to_string());
    reversed.insert("a".to_string(), "{b}".to_string());
    assert_eq!(replace_placeholders("{a}", &reversed), "{b}");
}

#[test]
fn matches_are_taken_left_to_right_without_overlap() {
    let mut values = ParameterMap::new();
    values.insert("a".to_string(), "Z".to_string());
    assert_eq!(replace_placeholders("{{a}}", &values), "{Z}");
    assert_eq!(replace_placeholders("{a", &values), "{a");
    assert_eq!(replace_placeholders("", &values), "");
}
