use minikvdb::key::Key;
use minikvdb::namespaced_key::NamespacedKey;

#[test]
fn composes_correctly() {
    assert_eq!(
        Key("name:space:1".to_owned()),
        NamespacedKey::new("name").ns("space").ns("1").compose()
    )
}

#[test]
fn namespaced_joins_with_a_colon() {
    assert_eq!(Key::namespaced(&Key::new("user"), &Key::new("2")), Key::new("user:2"));
    assert_eq!(Key::namespaced(&Key::new(""), &Key::new("")), Key::new(":"));
}

#[test]
fn one_segment_composes_to_itself() {
    assert_eq!(NamespacedKey::new("solo").compose(), Key::new("solo"));
}

#[test]
fn keys_compare_by_text() {
    assert_eq!(Key::new("a"), Key("a".to_string()));
    assert_ne!(Key::new("a"), Key::new("b"));
}

#[test]
fn empty_namespaced_key_composes_to_empty() {
    assert_eq!(NamespacedKey::default().compose(), Key::new(""));
}
