use minikvdb::entity::Credentials;
use minikvdb::error::MiniKVDBError;
use minikvdb::key::Key;
use minikvdb::key_map::KVDBObject;
use minikvdb::value::KVDBValue;

#[test]
fn credentials_round_trip() {
    let c = Credentials { email: "user@addr.com".to_string(), password: "passw0rd".to_string() };
    let o = c.to_object();
    assert_eq!(o.len(), 2);
    assert_eq!(*o.get(&Key::new("email")).unwrap(), KVDBValue::String("user@addr.com".to_string()));
    let back = Credentials::from_object(&o).unwrap();
    assert_eq!(back.email, c.email);
    assert_eq!(back.password, c.password);
}

#[test]
fn missing_field_is_named() {
    let mut o = KVDBObject::new();
    o.insert(Key::new("email"), KVDBValue::String("a@b".to_string()));
    match Credentials::from_object(&o) {
        Err(MiniKVDBError::MissingField(f)) => assert_eq!(f, "password"),
        _ => panic!("expected a missing field"),
    }
    match Credentials::from_object(&KVDBObject::new()) {
        Err(MiniKVDBError::MissingField(f)) => assert_eq!(f, "email"),
        _ => panic!("expected a missing field"),
    }
}

#[test]
fn wrong_field_type_is_reported() {
    let mut o = KVDBObject::new();
    o.insert(Key::new("email"), KVDBValue::Int(3));
    o.insert(Key::new("password"), KVDBValue::String("x".to_string()));
    assert!(matches!(Credentials::from_object(&o), Err(MiniKVDBError::WrongFieldType)));
}

#[test]
fn value_accessors_check_the_kind() {
    assert_eq!(KVDBValue::Int(4).as_int().unwrap(), 4);
    assert!(matches!(KVDBValue::Bool(true).as_int(), Err(MiniKVDBError::WrongFieldType)));
    assert_eq!(KVDBValue::Bool(true).as_bool().unwrap(), true);
    assert_eq!(KVDBValue::String("s".to_string()).as_string().unwrap(), "s");
    assert_eq!(KVDBValue::Long(9).as_long().unwrap(), 9);
    assert_eq!(KVDBValue::Float(1.5f32.to_bits()).as_float_bits().unwrap(), 1.5f32.to_bits());
    assert_eq!(KVDBValue::Double(1.5f64.to_bits()).as_double_bits().unwrap(), 1.5f64.to_bits());
    assert!(matches!(KVDBValue::Int(1).as_double_bits(), Err(MiniKVDBError::WrongFieldType)));
}

#[test]
fn object_insert_replaces_and_remove_takes() {
    let mut o = KVDBObject::new();
    assert!(o.insert(Key::new("a"), KVDBValue::Int(1)).is_none());
    assert_eq!(o.insert(Key::new("a"), KVDBValue::Int(2)), Some(KVDBValue::Int(1)));
    assert_eq!(o.len(), 1);
    assert!(o.contains_key(&Key::new("a")));
    assert_eq!(o.remove(&Key::new("a")), Some(KVDBValue::Int(2)));
    assert_eq!(o.remove(&Key::new("a")), None);
    assert_eq!(o.len(), 0);
}
