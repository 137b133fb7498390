use wasi_sensor::names::{qualified_device_names, qualified_name, split_device_name};

#[test]
fn splits_group_and_device() {
    assert_eq!(
        split_device_name("dummy:dummy"),
        Some(("dummy".to_string(), "dummy".to_string()))
    );
    assert_eq!(
        split_device_name("nokhwa:0"),
        Some(("nokhwa".to_string(), "0".to_string()))
    );
}

#[test]
fn name_without_colon_is_refused() {
    assert_eq!(split_device_name("dummy"), None);
    assert_eq!(split_device_name(""), None);
}

#[test]
fn name_with_two_colons_is_refused() {
    assert_eq!(split_device_name("a:b:c"), None);
    assert_eq!(split_device_name("::"), None);
}

#[test]
fn empty_parts_are_kept() {
    assert_eq!(split_device_name(":x"), Some((String::new(), "x".to_string())));
    assert_eq!(split_device_name("x:"), Some(("x".to_string(), String::new())));
    assert_eq!(split_device_name(":"), Some((String::new(), String::new())));
}

#[test]
fn non_ascii_names_split_on_characters() {
    assert_eq!(
        split_device_name("caméra:ü"),
        Some(("caméra".to_string(), "ü".to_string()))
    );
}

#[test]
fn qualified_name_joins_with_colon() {
    assert_eq!(qualified_name("dummy", "dummy"), "dummy:dummy");
}

#[test]
fn listed_names_are_qualified_in_order() {
    let devices = vec!["a".to_string(), "b".to_string()];
    assert_eq!(
        qualified_device_names("grp", &devices),
        vec!["grp:a".to_string(), "grp:b".to_string()]
    );
    assert!(qualified_device_names("grp", &Vec::new()).is_empty());
}

#[test]
fn listed_names_split_back() {
    let devices = vec!["dummy".to_string()];
    for name in qualified_device_names("dummy", &devices) {
        assert_eq!(
            split_device_name(&name),
            Some(("dummy".to_string(), "dummy".to_string()))
        );
    }
}
