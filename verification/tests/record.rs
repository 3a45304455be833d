use textfsm_rs::{DataRecord, Value};

fn single(text: &str) -> Value {
    Value::Single(text.to_string())
}

fn list(items: &[&str]) -> Value {
    Value::List(items.iter().map(|s| s.to_string()).collect())
}

#[test]
fn new_record_is_empty() {
    let record = DataRecord::new();
    assert!(record.is_empty());
    assert_eq!(record.len(), 0);
    assert_eq!(record.keys(), Vec::<String>::new());
    assert_eq!(record, DataRecord::default());
}

#[test]
fn insert_into_absent_name_adds_scalar() {
    let mut record = DataRecord::new();
    record.insert("name".to_string(), "alice".to_string());
    assert_eq!(record.get("name"), Some(&single("alice")));
    assert_eq!(record.len(), 1);
    assert!(!record.is_empty());
}

#[test]
fn scalar_into_scalar_overwrites() {
    let mut record = DataRecord::new();
    record.insert("name".to_string(), "a".to_string());
    record.insert("name".to_string(), "b".to_string());
    assert_eq!(record.get("name"), Some(&single("b")));
    assert_eq!(record.len(), 1);
}

#[test]
fn scalar_into_list_appends() {
    let mut record = DataRecord::new();
    record.append_value("items".to_string(), list(&["a"]));
    record.insert("items".to_string(), "b".to_string());
    assert_eq!(record.get("items"), Some(&list(&["a", "b"])));
}

#[test]
fn list_into_list_concatenates() {
    let mut record = DataRecord::new();
    record.append_value("items".to_string(), list(&["a", "b"]));
    record.append_value("items".to_string(), list(&["c"]));
    assert_eq!(record.get("items"), Some(&list(&["a", "b", "c"])));
}

#[test]
fn list_of_one_then_list_of_one_gives_both_in_order() {
    let mut record = DataRecord::new();
    record.append_value("items".to_string(), list(&["a"]));
    record.append_value("items".to_string(), list(&["b"]));
    assert_eq!(record.get("items"), Some(&list(&["a", "b"])));
}

#[test]
fn append_value_into_absent_name_keeps_the_value() {
    let mut record = DataRecord::new();
    record.append_value("items".to_string(), list(&[]));
    assert_eq!(record.get("items"), Some(&list(&[])));
    record.append_value("name".to_string(), single("x"));
    assert_eq!(record.get("name"), Some(&single("x")));
}

#[test]
fn set_replaces_whatever_was_there() {
    let mut record = DataRecord::new();
    record.set("items".to_string(), list(&["a"]));
    record.set("items".to_string(), single("b"));
    assert_eq!(record.get("items"), Some(&single("b")));
    assert_eq!(record.keys(), vec!["items".to_string()]);
}

#[test]
fn overwrite_from_replaces_and_adds() {
    let mut record = DataRecord::new();
    record.set("a".to_string(), list(&["1"]));
    record.set("b".to_string(), single("2"));
    let mut other = DataRecord::new();
    other.set("a".to_string(), list(&["9"]));
    other.set("c".to_string(), single("3"));
    record.overwrite_from(other);
    assert_eq!(record.get("a"), Some(&list(&["9"])));
    assert_eq!(record.get("b"), Some(&single("2")));
    assert_eq!(record.get("c"), Some(&single("3")));
    assert_eq!(record.len(), 3);
}

#[test]
fn append_from_merges_each_entry() {
    let mut record = DataRecord::new();
    record.set("a".to_string(), list(&["1"]));
    record.set("b".to_string(), single("2"));
    let mut other = DataRecord::new();
    other.set("a".to_string(), list(&["9"]));
    other.set("b".to_string(), single("8"));
    other.set("c".to_string(), single("3"));
    record.append_from(&other);
    assert_eq!(record.get("a"), Some(&list(&["1", "9"])));
    assert_eq!(record.get("b"), Some(&single("8")));
    assert_eq!(record.get("c"), Some(&single("3")));
}

#[test]
fn remove_drops_one_name() {
    let mut record = DataRecord::new();
    record.insert("a".to_string(), "1".to_string());
    record.insert("b".to_string(), "2".to_string());
    record.insert("c".to_string(), "3".to_string());
    record.remove("b");
    assert_eq!(record.keys(), vec!["a".to_string(), "c".to_string()]);
    assert_eq!(record.get("b"), None);
    record.remove("missing");
    assert_eq!(record.len(), 2);
}

#[test]
fn clear_keeps_only_the_listed_names() {
    let mut record = DataRecord::new();
    record.insert("a".to_string(), "1".to_string());
    record.insert("b".to_string(), "2".to_string());
    record.insert("c".to_string(), "3".to_string());
    record.clear(&vec!["c".to_string(), "a".to_string(), "z".to_string()]);
    assert_eq!(record.keys(), vec!["a".to_string(), "c".to_string()]);
    record.clear(&vec![]);
    assert!(record.is_empty());
}

#[test]
fn keys_and_iter_follow_the_order_of_first_setting() {
    let mut record = DataRecord::new();
    record.insert("z".to_string(), "1".to_string());
    record.insert("a".to_string(), "2".to_string());
    record.insert("z".to_string(), "3".to_string());
    assert_eq!(record.keys(), vec!["z".to_string(), "a".to_string()]);
    assert_eq!(
        record.iter(),
        vec![("z".to_string(), single("3")), ("a".to_string(), single("2"))]
    );
    assert!(record.contains_key("a"));
    assert!(!record.contains_key("b"));
}

#[test]
fn equality_ignores_the_order_of_filling() {
    let mut one = DataRecord::new();
    one.insert("a".to_string(), "1".to_string());
    one.insert("b".to_string(), "2".to_string());
    let mut two = DataRecord::new();
    two.insert("b".to_string(), "2".to_string());
    two.insert("a".to_string(), "1".to_string());
    assert_eq!(one, two);
    two.insert("a".to_string(), "other".to_string());
    assert_ne!(one, two);
    let mut three = one.clone();
    assert_eq!(one, three);
    three.insert("c".to_string(), "3".to_string());
    assert_ne!(one, three);
    assert_ne!(three, one);
}

#[test]
fn values_compare_by_content() {
    assert_eq!(single("a"), single("a"));
    assert_ne!(single("a"), single("b"));
    assert_ne!(single("a"), list(&["a"]));
    assert_eq!(list(&["a", "b"]), list(&["a", "b"]));
    assert_ne!(list(&["a", "b"]), list(&["b", "a"]));
    assert_ne!(list(&["a"]), list(&["a", "b"]));
    assert_eq!(list(&["a"]).clone(), list(&["a"]));
    assert!(list(&[]).is_list());
    assert!(!single("").is_list());
}

#[test]
fn merge_follows_the_algebra() {
    assert_eq!(single("a").merge(single("b")), single("b"));
    assert_eq!(list(&["a"]).merge(single("b")), list(&["a", "b"]));
    assert_eq!(list(&["a"]).merge(list(&["b", "c"])), list(&["a", "b", "c"]));
    assert_eq!(list(&[]).merge(list(&[])), list(&[]));
}

#[test]
fn compare_sets_lists_the_names_that_differ() {
    let mut a0 = DataRecord::new();
    a0.insert("x".to_string(), "1".to_string());
    a0.insert("y".to_string(), "2".to_string());
    let mut a1 = DataRecord::new();
    a1.insert("x".to_string(), "5".to_string());
    let mut b0 = DataRecord::new();
    b0.insert("x".to_string(), "1".to_string());
    b0.insert("y".to_string(), "other".to_string());
    b0.insert("z".to_string(), "3".to_string());
    let result = vec![a0, a1];
    let other = vec![b0];
    let (only_in_result, only_in_other) = DataRecord::compare_sets(&result, &other);
    assert_eq!(only_in_result, vec![vec!["y".to_string()], vec!["x".to_string()]]);
    assert_eq!(only_in_other, vec![vec!["y".to_string(), "z".to_string()]]);
}

#[test]
fn compare_sets_of_equal_lists_finds_nothing() {
    let mut a = DataRecord::new();
    a.insert("x".to_string(), "1".to_string());
    let result = vec![a.clone()];
    let other = vec![a];
    let (only_in_result, only_in_other) = DataRecord::compare_sets(&result, &other);
    assert_eq!(only_in_result, vec![Vec::<String>::new()]);
    assert_eq!(only_in_other, vec![Vec::<String>::new()]);
    let (left, right) = DataRecord::compare_sets(&vec![], &vec![]);
    assert!(left.is_empty());
    assert!(right.is_empty());
}

#[test]
fn joined_records_list_new_names_last() {
    let mut record = DataRecord::new();
    record.set("b".to_string(), single("1"));
    record.set("a".to_string(), single("2"));
    let mut other = DataRecord::new();
    other.set("c".to_string(), single("3"));
    other.set("a".to_string(), single("4"));
    other.set("d".to_string(), single("5"));
    let mut merged = record.clone();
    merged.append_from(&other);
    assert_eq!(merged.keys(), vec!["b", "a", "c", "d"]);
    record.overwrite_from(other);
    assert_eq!(record.keys(), vec!["b", "a", "c", "d"]);
    record.clear(&vec!["d".to_string(), "b".to_string()]);
    assert_eq!(record.keys(), vec!["b", "d"]);
}
