use aas_edge::merge::merge_documents;
use aas_edge::value::{Document, Value, ValueAccessError};

fn s(text: &str) -> Value {
    Value::Str(text.to_string())
}

fn doc(pairs: Vec<(&str, Value)>) -> Document {
    let mut d = Document::new();
    for (k, v) in pairs {
        d.insert(k.to_string(), v);
    }
    d
}

fn keys(d: &Document) -> Vec<String> {
    (0..d.len()).map(|i| d.key_at(i).clone()).collect()
}

#[test]
fn insert_replaces_in_place_and_appends_new_keys() {
    let mut d = doc(vec![("a", Value::Int64(1)), ("b", Value::Int64(2))]);
    let previous = d.insert("a".to_string(), Value::Int64(10));
    assert_eq!(previous, Some(Value::Int64(1)));
    let previous = d.insert("c".to_string(), Value::Int64(3));
    assert_eq!(previous, None);
    assert_eq!(keys(&d), vec!["a", "b", "c"]);
    assert_eq!(d.get(&"a".to_string()), Some(&Value::Int64(10)));
    assert_eq!(d.get(&"c".to_string()), Some(&Value::Int64(3)));
}

#[test]
fn remove_keeps_order_of_the_others() {
    let mut d = doc(vec![("a", Value::Int64(1)), ("b", Value::Int64(2)), ("c", Value::Int64(3))]);
    assert_eq!(d.remove(&"b".to_string()), Some(Value::Int64(2)));
    assert_eq!(d.remove(&"x".to_string()), None);
    assert_eq!(keys(&d), vec!["a", "c"]);
    assert!(!d.contains_key(&"b".to_string()));
}

#[test]
fn get_str_tells_missing_from_mistyped() {
    let d = doc(vec![("name", s("motor")), ("count", Value::Int32(4))]);
    assert_eq!(d.get_str(&"name".to_string()), Ok(&"motor".to_string()));
    assert_eq!(d.get_str(&"count".to_string()), Err(ValueAccessError::UnexpectedType));
    assert_eq!(d.get_str(&"other".to_string()), Err(ValueAccessError::NotPresent));
}

#[test]
fn retain_keys_of_keeps_shared_keys_in_order() {
    let mut d = doc(vec![("z", Value::Int64(1)), ("a", Value::Int64(2)), ("m", Value::Int64(3))]);
    let other = doc(vec![("m", Value::Null), ("z", Value::Null)]);
    d.retain_keys_of(&other);
    assert_eq!(keys(&d), vec!["z", "m"]);
}

#[test]
fn merge_drops_unknown_keys_merges_nested_and_appends_missing() {
    let stored = doc(vec![
        ("a", Value::Int64(1)),
        ("b", Value::Doc(doc(vec![("x", Value::Int64(1)), ("y", Value::Int64(2))]))),
        ("c", s("kept")),
    ]);
    let mut patch = doc(vec![
        ("b", Value::Doc(doc(vec![("y", Value::Int64(3)), ("z", Value::Int64(4))]))),
        ("d", Value::Int64(5)),
        ("a", Value::Int64(2)),
    ]);
    merge_documents(&stored, &mut patch);
    let expected = doc(vec![
        ("b", Value::Doc(doc(vec![("y", Value::Int64(3)), ("x", Value::Int64(1))]))),
        ("a", Value::Int64(2)),
        ("c", s("kept")),
    ]);
    assert_eq!(patch, expected);
}

#[test]
fn merge_lets_a_plain_patch_value_replace_a_nested_document() {
    let stored = doc(vec![("b", Value::Doc(doc(vec![("x", Value::Int64(1))])))]);
    let mut patch = doc(vec![("b", s("flat"))]);
    merge_documents(&stored, &mut patch);
    assert_eq!(patch, doc(vec![("b", s("flat"))]));
}

#[test]
fn merge_with_empty_patch_gives_the_stored_document() {
    let stored = doc(vec![("a", Value::Int64(1)), ("b", Value::Doc(doc(vec![("x", Value::Bool(true))])))]);
    let mut patch = Document::new();
    merge_documents(&stored, &mut patch);
    assert_eq!(patch, stored);
}

#[test]
fn merge_of_a_document_with_itself_gives_it_back() {
    let stored = doc(vec![
        ("a", Value::Int64(1)),
        ("b", Value::Doc(doc(vec![("x", Value::Bool(true)), ("y", Value::Null)]))),
    ]);
    let mut patch = stored.clone();
    merge_documents(&stored, &mut patch);
    assert_eq!(patch, stored);
}

#[test]
fn merge_twice_gives_what_merging_once_gave() {
    let stored = doc(vec![
        ("a", Value::Int64(1)),
        ("b", Value::Doc(doc(vec![("x", Value::Int64(1)), ("y", Value::Int64(2))]))),
        ("c", s("kept")),
    ]);
    let mut once = doc(vec![("b", Value::Doc(doc(vec![("y", Value::Int64(3))]))), ("q", Value::Null)]);
    merge_documents(&stored, &mut once);
    let mut twice = once.clone();
    merge_documents(&stored, &mut twice);
    assert_eq!(twice, once);
}

#[test]
fn clone_copies_deeply() {
    let value = Value::Array(vec![s("x"), Value::Doc(doc(vec![("k", Value::Double(1.5f64.to_bits()))]))]);
    assert_eq!(value.clone(), value);
}

#[test]
fn element_type_names_follow_bson() {
    assert_eq!(Value::Null.element_type(), "Null");
    assert_eq!(Value::Bool(true).element_type(), "Boolean");
    assert_eq!(Value::Int64(1).element_type(), "Int64");
    assert_eq!(Value::Array(vec![]).element_type(), "Array");
    assert_eq!(Value::Doc(Document::new()).element_type(), "EmbeddedDocument");
    assert_eq!(Value::Other(9, vec![]).element_type(), "DateTime");
    assert_eq!(Value::Other(0x13, vec![]).element_type(), "Decimal128");
}

#[test]
fn field_reads_members_of_objects_only() {
    let v = Value::Doc(doc(vec![("idShort", s("Nameplate"))]));
    assert_eq!(v.field(&"idShort".to_string()), Some(&s("Nameplate")));
    assert_eq!(v.field(&"other".to_string()), None);
    assert_eq!(s("x").field(&"idShort".to_string()), None);
    assert_eq!(v.field(&"idShort".to_string()).and_then(|x| x.as_str()), Some(&"Nameplate".to_string()));
}

#[test]
fn patching_the_patched_document_again_changes_nothing() {
    let stored = doc(vec![
        ("a", Value::Int32(1)),
        ("nested", Value::Doc(doc(vec![("x", s("old")), ("y", Value::Bool(false))]))),
        ("b", s("keep")),
    ]);
    let patch = doc(vec![
        ("nested", Value::Doc(doc(vec![("y", Value::Bool(true)), ("z", s("dropped"))]))),
        ("a", Value::Int32(2)),
        ("c", s("dropped")),
    ]);
    let mut once = patch.clone();
    merge_documents(&stored, &mut once);
    let mut twice = patch.clone();
    merge_documents(&once, &mut twice);
    assert_eq!(twice, once);
    assert_eq!(
        once,
        doc(vec![
            ("nested", Value::Doc(doc(vec![("y", Value::Bool(true)), ("x", s("old"))]))),
            ("a", Value::Int32(2)),
            ("b", s("keep")),
        ])
    );
}
