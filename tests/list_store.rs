use minikvdb::key::Key;
use minikvdb::list_command::{
    ListContainsValueCommand, ListLenCommmand, ListRangeCommand, ListRangeOption,
    ListRemoveCommand, ListRemoveOption, PopBackCommand, PopFrontCommand, PushBackCommand,
    PushFrontCommand,
};
use minikvdb::list_store::ListStore;
use minikvdb::value::KVDBValue;

fn test_db() -> ListStore {
    ListStore::default()
}

fn k(s: &str) -> Key {
    Key::new(s)
}

fn ints(v: &[i32]) -> Vec<KVDBValue> {
    v.iter().map(|x| KVDBValue::Int(*x)).collect()
}

fn text(s: &str) -> KVDBValue {
    KVDBValue::String(s.to_string())
}

fn float(v: f32) -> KVDBValue {
    KVDBValue::Float(v.to_bits())
}

fn whole(db: &ListStore, key: &str) -> Option<Vec<KVDBValue>> {
    db.range(ListRangeCommand(k(key), ListRangeOption::Whole))
}

fn mixed() -> Vec<KVDBValue> {
    vec![
        KVDBValue::Int(1),
        float(2.2),
        KVDBValue::Bool(true),
        KVDBValue::Int(4),
        KVDBValue::Bool(false),
        KVDBValue::Bool(false),
        text("text"),
    ]
}

#[test]
fn pushes_back() {
    let mut db = test_db();
    let res = db.push_back(PushBackCommand(k("a"), ints(&[1, 2, 3, 4])));

    assert_eq!(res, 4);
    assert_eq!(whole(&db, "a").unwrap(), ints(&[1, 2, 3, 4]));
}

#[test]
fn pushes_back_to_existing() {
    let mut db = test_db();
    let _ = db.push_back(PushBackCommand(k("a"), ints(&[22])));
    let res = db.push_back(PushBackCommand(k("a"), ints(&[1, 2, 3, 4])));

    assert_eq!(res, 5);
    assert_eq!(whole(&db, "a").unwrap(), ints(&[22, 1, 2, 3, 4]));
}

#[test]
fn pushes_front() {
    let mut db = test_db();
    let res = db.push_front(PushFrontCommand(k("a"), ints(&[1, 2, 3, 4])));

    assert_eq!(res, 4);
    assert_eq!(whole(&db, "a").unwrap(), ints(&[4, 3, 2, 1]));
}

#[test]
fn pushes_front_to_existing() {
    let mut db = test_db();
    let _ = db.push_front(PushFrontCommand(k("a"), ints(&[33])));
    let res = db.push_front(PushFrontCommand(k("a"), ints(&[1, 2, 3, 4])));

    assert_eq!(res, 5);
    assert_eq!(whole(&db, "a").unwrap(), ints(&[4, 3, 2, 1, 33]));
}

#[test]
fn pops_back() {
    let mut db = test_db();
    let _ = db.push_back(PushBackCommand(k("a"), ints(&[1, 2, 3, 4, 5])));
    for i in (1..=5).rev() {
        let pop = db.pop_back(PopBackCommand(k("a")));
        assert!(pop.is_some());
        assert_eq!(pop.unwrap(), KVDBValue::Int(i));
    }

    let pop = db.pop_back(PopBackCommand(k("a")));
    assert!(pop.is_none());
    assert!(whole(&db, "a").is_none());
}

#[test]
fn pops_front() {
    let mut db = test_db();
    let _ = db.push_back(PushBackCommand(k("a"), ints(&[1, 2, 3, 4, 5])));
    for i in 1..=5 {
        let pop = db.pop_front(PopFrontCommand(k("a")));
        assert!(pop.is_some());
        assert_eq!(pop.unwrap(), KVDBValue::Int(i));
    }

    let pop = db.pop_front(PopFrontCommand(k("a")));
    assert!(pop.is_none());
    assert!(whole(&db, "a").is_none());
}

#[test]
fn gets_list_len() {
    let mut db = test_db();
    let _ = db.push_back(PushBackCommand(k("a"), ints(&[1, 2, 3, 4, 5])));
    let len = db.len(ListLenCommmand(k("a")));
    assert!(len.is_some());
    assert_eq!(len.unwrap(), 5);

    let empty_list_len = db.len(ListLenCommmand(k("qwe")));
    assert!(empty_list_len.is_none());
}

fn seeded_db() -> ListStore {
    let mut db = test_db();
    let _ = db.push_back(PushBackCommand(k("ints"), ints(&[1, 2, 3, 4, 5, 6])));
    let _ = db.push_back(PushBackCommand(k("mixed"), mixed()));
    let _ = db.push_back(PushBackCommand(
        k("texts"),
        vec![text("t1"), text("t2"), text("t3"), text("t4"), text("t5"), text("t6")],
    ));

    db
}

#[test]
fn removes_nothing_when_non_existing_key() {
    let mut db = seeded_db();
    let del_num = db.remove(ListRemoveCommand(
        k("abscent"),
        ListRemoveOption::All(KVDBValue::Bool(false)),
    ));

    assert_eq!(del_num, 0);
}

#[test]
fn when_list_becomes_empty_after_remove_said_list_gets_removed() {
    let mut db = test_db();
    let _ = db.push_back(PushBackCommand(k("items"), ints(&[2, 2, 2, 2, 2])));
    let count = db.remove(ListRemoveCommand(k("items"), ListRemoveOption::All(KVDBValue::Int(2))));
    assert_eq!(count, 5);
    assert!(whole(&db, "items").is_none());
}

#[test]
fn removes_all() {
    let mut db = seeded_db();
    let del_num = db.remove(ListRemoveCommand(
        k("mixed"),
        ListRemoveOption::All(KVDBValue::Bool(false)),
    ));

    assert_eq!(del_num, 2);
    assert_eq!(
        whole(&db, "mixed").unwrap(),
        vec![KVDBValue::Int(1), float(2.2), KVDBValue::Bool(true), KVDBValue::Int(4), text("text")]
    );
}

#[test]
fn removes_specified_number_of_items() {
    let mut db = seeded_db();
    let del_num = db.remove(ListRemoveCommand(
        k("mixed"),
        ListRemoveOption::Count(1, KVDBValue::Bool(false)),
    ));

    assert_eq!(del_num, 1);
    assert_eq!(
        whole(&db, "mixed").unwrap(),
        vec![
            KVDBValue::Int(1),
            float(2.2),
            KVDBValue::Bool(true),
            KVDBValue::Int(4),
            KVDBValue::Bool(false),
            text("text")
        ]
    );
}

#[test]
fn contains_value_on_existing_key() {
    let db = seeded_db();
    let contains_4 = db.contains(ListContainsValueCommand(k("mixed"), KVDBValue::Int(4)));
    assert!(contains_4);
}

#[test]
fn does_not_contain_value_on_existing_key() {
    let db = seeded_db();
    let contains_44 = db.contains(ListContainsValueCommand(k("mixed"), KVDBValue::Int(44)));
    assert!(!contains_44);
}

#[test]
fn does_not_contain_value_on_non_existing_key() {
    let db = seeded_db();
    let contains = db.contains(ListContainsValueCommand(k("non_existing_key"), KVDBValue::Int(4)));
    assert!(!contains);
}

#[test]
fn gets_entire_when_calling_range_on_existing_key() {
    let db = seeded_db();
    let list = db.range(ListRangeCommand(k("ints"), ListRangeOption::Whole));
    assert!(list.is_some());
    assert_eq!(list.unwrap(), ints(&[1, 2, 3, 4, 5, 6]));
}

#[test]
fn gets_none_when_calling_range_on_non_existing_key() {
    let db = seeded_db();
    let list = db.range(ListRangeCommand(k("non_existing"), ListRangeOption::Whole));
    assert!(list.is_none());
}

#[test]
fn gets_list_from_specified_start_index_to_the_end_when_calling_range_on_existing_key() {
    let db = seeded_db();
    let list = db.range(ListRangeCommand(k("mixed"), ListRangeOption::FromIndex(4)));
    assert!(list.is_some());
    assert_eq!(
        list.unwrap(),
        vec![KVDBValue::Bool(false), KVDBValue::Bool(false), text("text")]
    );
}

#[test]
fn gets_empty_list_when_calling_range_on_existing_key_with_start_outside_of_bounds() {
    let db = seeded_db();
    let list = db.range(ListRangeCommand(k("mixed"), ListRangeOption::FromIndex(99)));
    assert!(list.is_some());
    assert!(list.unwrap().is_empty());
}

#[test]
fn gets_count_from_start_when_calling_rango_on_existing_key() {
    let db = seeded_db();
    let list = db.range(ListRangeCommand(k("mixed"), ListRangeOption::FromIndexWithLen(2, 2)));
    assert!(list.is_some());
    assert_eq!(
        list.unwrap(),
        vec![KVDBValue::Bool(true), KVDBValue::Int(4), KVDBValue::Bool(false)]
    );
}

#[test]
fn gets_to_end_from_start_when_calling_rango_on_existing_key_when_count_plus_start_is_out_of_bounds(
) {
    let db = seeded_db();
    let list = db.range(ListRangeCommand(k("mixed"), ListRangeOption::FromIndexWithLen(2, 2000)));
    assert!(list.is_some());
    assert_eq!(
        list.unwrap(),
        vec![
            KVDBValue::Bool(true),
            KVDBValue::Int(4),
            KVDBValue::Bool(false),
            KVDBValue::Bool(false),
            text("text")
        ]
    );
}

#[test]
fn push_back_twice_concatenates() {
    let mut db = test_db();
    let _ = db.push_back(PushBackCommand(k("k"), ints(&[1, 2, 3])));
    let n = db.push_back(PushBackCommand(k("k"), ints(&[4, 5])));
    assert_eq!(n, 5);
    assert_eq!(whole(&db, "k").unwrap(), ints(&[1, 2, 3, 4, 5]));
}

#[test]
fn push_front_reverses_the_input() {
    let mut db = test_db();
    let n = db.push_front(PushFrontCommand(k("k"), ints(&[1, 2, 3])));
    assert_eq!(n, 3);
    assert_eq!(whole(&db, "k").unwrap(), ints(&[3, 2, 1]));
}

#[test]
fn push_of_nothing_creates_no_list() {
    let mut db = test_db();
    assert_eq!(db.push_back(PushBackCommand(k("e"), vec![])), 0);
    assert_eq!(db.push_front(PushFrontCommand(k("f"), vec![])), 0);
    assert_eq!(db.len(ListLenCommmand(k("e"))), None);
    assert_eq!(db.len(ListLenCommmand(k("f"))), None);
}

#[test]
fn popping_everything_removes_the_key() {
    let mut db = test_db();
    let _ = db.push_back(PushBackCommand(k("k"), ints(&[1, 2, 3])));
    let _ = db.pop_front(PopFrontCommand(k("k")));
    let _ = db.pop_back(PopBackCommand(k("k")));
    assert_eq!(db.len(ListLenCommmand(k("k"))), Some(1));
    assert_eq!(db.pop_front(PopFrontCommand(k("k"))), Some(KVDBValue::Int(2)));
    assert_eq!(db.len(ListLenCommmand(k("k"))), None);
}

#[test]
fn range_with_len_on_the_last_element() {
    let db = seeded_db();
    let list = db.range(ListRangeCommand(k("ints"), ListRangeOption::FromIndexWithLen(5, 0)));
    assert_eq!(list.unwrap(), ints(&[6]));
    let list = db.range(ListRangeCommand(k("ints"), ListRangeOption::FromIndexWithLen(1, usize::MAX)));
    assert_eq!(list.unwrap(), ints(&[2, 3, 4, 5, 6]));
    let list = db.range(ListRangeCommand(k("ints"), ListRangeOption::FromIndexWithLen(6, 1)));
    assert_eq!(list.unwrap(), vec![]);
}

#[test]
fn remove_count_scans_from_the_front() {
    let mut db = test_db();
    let _ = db.push_back(PushBackCommand(k("k"), ints(&[7, 1, 7, 2, 7, 7])));
    let n = db.remove(ListRemoveCommand(k("k"), ListRemoveOption::Count(3, KVDBValue::Int(7))));
    assert_eq!(n, 3);
    assert_eq!(whole(&db, "k").unwrap(), ints(&[1, 2, 7]));
    let n = db.remove(ListRemoveCommand(k("k"), ListRemoveOption::Count(0, KVDBValue::Int(7))));
    assert_eq!(n, 0);
    assert_eq!(whole(&db, "k").unwrap(), ints(&[1, 2, 7]));
}

#[test]
fn strings_compare_by_content() {
    let db = seeded_db();
    assert!(db.contains(ListContainsValueCommand(k("texts"), text("t3"))));
    assert!(!db.contains(ListContainsValueCommand(k("texts"), KVDBValue::Int(3))));
}
