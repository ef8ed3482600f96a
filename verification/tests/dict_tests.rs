use db_creator::dict::HashSetIdBuilder;

#[test]
fn repeated_insert_yields_same_id() {
    let mut d = HashSetIdBuilder::new();
    let a1 = d.insert("alice".to_string());
    let b1 = d.insert("bob".to_string());
    let a2 = d.insert("alice".to_string());
    let b2 = d.insert("bob".to_string());
    assert_eq!(a1, a2);
    assert_eq!(b1, b2);
}

#[test]
fn distinct_values_get_distinct_ids() {
    let mut d = HashSetIdBuilder::new();
    let a = d.insert("alice".to_string());
    let b = d.insert("bob".to_string());
    let c = d.insert("carol".to_string());
    assert!(a != b && b != c && a != c);
}

#[test]
fn ids_are_dense_and_insertion_ordered() {
    let mut d = HashSetIdBuilder::new();
    assert_eq!(d.insert("x".to_string()), 0);
    assert_eq!(d.insert("y".to_string()), 1);
    assert_eq!(d.insert("x".to_string()), 0);
    assert_eq!(d.insert("z".to_string()), 2);
    assert_eq!(d.len(), 3);
}

#[test]
fn build_resolves_every_id_to_its_value() {
    let mut d = HashSetIdBuilder::new();
    let a = d.insert("alice".to_string());
    let b = d.insert("bob".to_string());
    let a_again = d.insert("alice".to_string());
    let c = d.insert("carol".to_string());
    assert_eq!(a, a_again);
    let built = d.build();
    assert_eq!(built.len(), 3);
    assert_eq!(built[a], "alice");
    assert_eq!(built[b], "bob");
    assert_eq!(built[c], "carol");
}

#[test]
fn build_of_empty_builder_is_empty() {
    let d = HashSetIdBuilder::new();
    assert_eq!(d.build().len(), 0);
}
