use wasi_sensor::names::{qualified_device_names, split_device_name};
use wasi_sensor::registry::Registry;

#[test]
fn empty_registry_finds_nothing() {
    let r: Registry<u32> = Registry::new();
    assert_eq!(r.len(), 0);
    assert_eq!(r.get(&"a".to_string()), None);
}

#[test]
fn lookup_after_insert() {
    let mut r = Registry::new();
    r.insert("a".to_string(), 1);
    r.insert("b".to_string(), 2);
    assert_eq!(r.get(&"a".to_string()), Some(&1));
    assert_eq!(r.get(&"b".to_string()), Some(&2));
    assert_eq!(r.get(&"c".to_string()), None);
    assert_eq!(r.len(), 2);
}

#[test]
fn inserting_a_name_again_replaces_its_entry() {
    let mut r = Registry::new();
    r.insert("pool".to_string(), 1);
    r.insert("pool".to_string(), 2);
    assert_eq!(r.len(), 1);
    assert_eq!(r.get(&"pool".to_string()), Some(&2));
}

#[test]
fn remove_returns_the_entry_and_forgets_the_name() {
    let mut r = Registry::new();
    r.insert("a".to_string(), 1);
    r.insert("b".to_string(), 2);
    r.insert("c".to_string(), 3);
    assert_eq!(r.remove(&"b".to_string()), Some(2));
    assert_eq!(r.get(&"b".to_string()), None);
    assert_eq!(r.get(&"a".to_string()), Some(&1));
    assert_eq!(r.get(&"c".to_string()), Some(&3));
    assert_eq!(r.remove(&"b".to_string()), None);
}

#[test]
fn entries_keep_registration_order() {
    let mut r = Registry::new();
    r.insert("x".to_string(), 10);
    r.insert("y".to_string(), 20);
    r.insert("x".to_string(), 11);
    let (n0, v0) = r.entry(0);
    let (n1, v1) = r.entry(1);
    assert_eq!((n0.as_str(), *v0), ("x", 11));
    assert_eq!((n1.as_str(), *v1), ("y", 20));
}

#[test]
fn listed_names_open_the_group_that_listed_them() {
    let mut groups = Registry::new();
    groups.insert("dummy".to_string(), vec!["dummy".to_string()]);
    groups.insert("cam".to_string(), vec!["0".to_string(), "1".to_string()]);
    for i in 0..groups.len() {
        let (group, devices) = groups.entry(i);
        for name in qualified_device_names(group, devices) {
            let (g, d) = split_device_name(&name).unwrap();
            let found = groups.get(&g).unwrap();
            assert_eq!(found, devices);
            assert!(found.contains(&d));
        }
    }
}
