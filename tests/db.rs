use minikvdb::db::MiniKVDB;
use minikvdb::entity::Credentials;
use minikvdb::key::Key;
use minikvdb::kv_command::Increment;
use minikvdb::list_command::{ListRangeCommand, ListRangeOption, ListRemoveCommand, ListRemoveOption};
use minikvdb::namespaced_key::NamespacedKey;
use minikvdb::value::KVDBValue;

fn float_sum(stored: Increment, delta: Increment) -> Increment {
    let d = match delta {
        Increment::Int(v) => v as f64,
        Increment::Float(b) => f32::from_bits(b) as f64,
        Increment::Long(v) => v as f64,
        Increment::Double(b) => f64::from_bits(b),
    };
    match stored {
        Increment::Int(a) => Increment::Int(a.wrapping_add(d as i32)),
        Increment::Long(a) => Increment::Long(a.wrapping_add(d as i64)),
        Increment::Float(a) => Increment::Float((f32::from_bits(a) + d as f32).to_bits()),
        Increment::Double(a) => Increment::Double((f64::from_bits(a) + d).to_bits()),
    }
}

#[test]
fn handles_share_the_stores() {
    let db = MiniKVDB::new();
    let other = db.clone();
    assert_eq!(db.set(Key::new("name"), KVDBValue::String("Tom".to_string())).unwrap(), None);
    assert_eq!(other.get(Key::new("name")).unwrap(), Some(KVDBValue::String("Tom".to_string())));
    assert_eq!(other.del(Key::new("name")).unwrap(), Some(KVDBValue::String("Tom".to_string())));
    assert_eq!(db.get(Key::new("name")).unwrap(), None);
}

#[test]
fn increments_through_the_handle() {
    let db = MiniKVDB::new();
    assert_eq!(db.increment(Key::new("visits"), Increment::Int(1), float_sum).unwrap(), Increment::Int(1));
    assert_eq!(db.increment(Key::new("visits"), Increment::Int(1), float_sum).unwrap(), Increment::Int(2));
    let _ = db.set(Key::new("long1"), KVDBValue::Long(8));
    assert_eq!(db.increment(Key::new("long1"), Increment::Int(1), float_sum).unwrap(), Increment::Long(9));
}

#[test]
fn lists_through_the_handle() {
    let db = MiniKVDB::new();
    let n = db
        .push_front(Key::new("things"), vec![KVDBValue::Bool(true), KVDBValue::Int(69), KVDBValue::Bool(true)])
        .unwrap();
    assert_eq!(n, 3);
    assert!(db.list_contains(Key::new("things"), KVDBValue::Bool(true)).unwrap());
    assert_eq!(db.list_remove(ListRemoveCommand(Key::new("things"), ListRemoveOption::All(KVDBValue::Bool(true)))).unwrap(), 2);
    assert!(!db.list_contains(Key::new("things"), KVDBValue::Bool(true)).unwrap());
    assert_eq!(db.push_back(Key::new("things"), vec![KVDBValue::Int(70)]).unwrap(), 2);
    assert_eq!(
        db.list_range(ListRangeCommand(Key::new("things"), ListRangeOption::Whole)).unwrap(),
        Some(vec![KVDBValue::Int(69), KVDBValue::Int(70)])
    );
    assert_eq!(db.pop_back(Key::new("things")).unwrap(), Some(KVDBValue::Int(70)));
    assert_eq!(db.pop_front(Key::new("things")).unwrap(), Some(KVDBValue::Int(69)));
    assert_eq!(db.list_len(Key::new("things")).unwrap(), None);
}

#[test]
fn objects_through_the_handle() {
    let db = MiniKVDB::new();
    let key = NamespacedKey::new("cred").ns("3").compose();
    let c = Credentials { email: "user@addr.com".to_string(), password: "passw0rd".to_string() };
    assert!(db.hash_set(key.clone(), c.to_object()).unwrap().is_none());
    assert!(db.hash_contains_key(Key::new("cred:3")).unwrap());
    assert_eq!(
        db.hash_get(Key::new("cred:3"), Key::new("email")).unwrap(),
        Some(KVDBValue::String("user@addr.com".to_string()))
    );
    assert_eq!(db.hash_get_all(Key::new("cred:3")).unwrap().unwrap().len(), 2);
    let got: Credentials = db.hash_get_object(Key::new("cred:3")).unwrap().unwrap();
    assert_eq!(got.password, "passw0rd");
    assert!(db.hash_delete(key).unwrap().is_some());
    assert!(!db.hash_contains_key(Key::new("cred:3")).unwrap());
}
