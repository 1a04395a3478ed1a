use mongosql::binding_tuple::{BindingTuple, DatasourceName, Key};
use mongosql::mql::{Bson, Document};

fn named(name: &str, scope: u16) -> Key {
    Key { datasource: DatasourceName::Named(name.to_string()), scope }
}

#[test]
fn entries_stay_in_key_order() {
    let mut t = BindingTuple::new();
    t.insert(named("b", 0), 1);
    t.insert(named("a", 2), 2);
    t.insert(Key { datasource: DatasourceName::Bottom, scope: 5 }, 3);
    t.insert(named("a", 1), 4);
    t.insert(named("ab", 0), 5);
    let keys: Vec<Key> = t.entries().iter().map(|(k, _)| k.clone()).collect();
    assert_eq!(
        keys,
        vec![
            Key { datasource: DatasourceName::Bottom, scope: 5 },
            named("a", 1),
            named("a", 2),
            named("ab", 0),
            named("b", 0),
        ]
    );
    let mut sorted = keys.clone();
    sorted.sort();
    assert_eq!(keys, sorted);
}

#[test]
fn insert_replaces_the_value_of_an_existing_key() {
    let mut t = BindingTuple::new();
    t.insert(named("x", 0), "one");
    t.insert(named("y", 0), "two");
    t.insert(named("x", 0), "three");
    assert_eq!(t.len(), 2);
    assert_eq!(t.get(&named("x", 0)), Some(&"three"));
    assert_eq!(t.get(&named("y", 0)), Some(&"two"));
    assert_eq!(t.get(&named("z", 0)), None);
    assert!(t.contains_key(&named("y", 0)));
    assert!(!t.contains_key(&named("y", 1)));
}

#[test]
fn document_insert_and_extend() {
    let mut d = Document::new();
    d.insert("a".to_string(), Bson::Int32(1));
    d.insert("b".to_string(), Bson::Int32(2));
    d.insert("a".to_string(), Bson::Int32(3));
    assert_eq!(d.len(), 2);
    assert!(d.contains_key("b"));
    assert!(!d.contains_key("c"));
    let mut e = Document::new();
    e.insert("c".to_string(), Bson::Null);
    e.extend(d);
    assert_eq!(
        e.entries,
        vec![
            ("c".to_string(), Bson::Null),
            ("a".to_string(), Bson::Int32(3)),
            ("b".to_string(), Bson::Int32(2)),
        ]
    );
    assert!(Document::new().is_empty());
}
