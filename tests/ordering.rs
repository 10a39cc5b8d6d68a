use demonlist::error::ListError;
use demonlist::list::Demonlist;
use demonlist::ordering::{Entry, OrderingStore};

fn entry(id: u64, name: &str) -> Entry {
    Entry::new(id, 50, name.to_string(), 1, 2)
}

fn names(list: &Demonlist) -> Vec<String> {
    let mut out = Vec::new();
    for p in 1..=list.entry_count() {
        out.push(list.entry(p).unwrap().name.clone());
    }
    out
}

fn assert_dense(list: &Demonlist) {
    let n = list.entry_count();
    for p in 1..=n {
        assert_eq!(list.entry(p).unwrap().position, p);
    }
    assert_eq!(list.entry(n + 1).err(), Some(ListError::NotFound));
}

fn abc() -> Demonlist {
    let mut list = Demonlist::new();
    assert_eq!(list.insert_entry(entry(1, "A"), 1), Ok(1));
    assert_eq!(list.insert_entry(entry(2, "B"), 2), Ok(2));
    assert_eq!(list.insert_entry(entry(3, "C"), 3), Ok(3));
    list
}

#[test]
fn move_last_to_top() {
    let mut list = abc();
    assert_eq!(list.move_entry(3, 1), Ok(1));
    assert_eq!(names(&list), vec!["C", "A", "B"]);
    assert_eq!(list.entry_by_id(1).unwrap().position, 2);
    assert_eq!(list.entry_by_id(2).unwrap().position, 3);
    assert_eq!(list.entry_by_id(3).unwrap().position, 1);
    assert_dense(&list);
}

#[test]
fn move_twice_is_idempotent() {
    let mut list = abc();
    assert_eq!(list.move_entry(1, 3), Ok(3));
    let once = names(&list);
    assert_eq!(once, vec!["B", "C", "A"]);
    assert_eq!(list.move_entry(1, 3), Ok(3));
    assert_eq!(names(&list), once);
    assert_dense(&list);
}

#[test]
fn positions_stay_dense_through_mixed_operations() {
    let mut list = Demonlist::new();
    for id in 1..=6u64 {
        let at = ((id * 7) % 5 + 1) as usize;
        assert!(list.insert_entry(entry(id, &format!("E{}", id)), at).is_ok());
        assert_dense(&list);
    }
    assert_eq!(list.entry_count(), 6);
    assert_eq!(list.move_entry(2, 6), Ok(6));
    assert_dense(&list);
    assert_eq!(list.move_entry(5, 1), Ok(1));
    assert_dense(&list);
    assert!(list.delete_entry(3).is_ok());
    assert_dense(&list);
    assert!(list.delete_entry(5).is_ok());
    assert_dense(&list);
    assert_eq!(list.insert_entry(entry(9, "E9"), 2), Ok(2));
    assert_dense(&list);
    assert_eq!(list.entry_count(), 5);
}

#[test]
fn insert_shifts_later_entries_down() {
    let mut list = abc();
    assert_eq!(list.insert_entry(entry(4, "D"), 2), Ok(2));
    assert_eq!(names(&list), vec!["A", "D", "B", "C"]);
    assert_dense(&list);
}

#[test]
fn insert_position_is_clamped_and_validated() {
    let mut list = abc();
    assert_eq!(list.insert_entry(entry(4, "D"), 0), Err(ListError::ValidationError));
    assert_eq!(list.insert_entry(entry(4, "D"), 99), Ok(4));
    assert_eq!(names(&list), vec!["A", "B", "C", "D"]);
    assert_eq!(list.insert_entry(entry(2, "B again"), 1), Err(ListError::Conflict));
    assert_eq!(list.entry_count(), 4);
}

#[test]
fn move_position_is_clamped() {
    let mut list = abc();
    assert_eq!(list.move_entry(2, 0), Ok(1));
    assert_eq!(names(&list), vec!["B", "A", "C"]);
    assert_eq!(list.move_entry(2, 50), Ok(3));
    assert_eq!(names(&list), vec!["A", "C", "B"]);
    assert_eq!(list.move_entry(8, 1), Err(ListError::NotFound));
}

#[test]
fn delete_closes_the_gap() {
    let mut list = abc();
    let gone = list.delete_entry(1).unwrap();
    assert_eq!(gone.name, "A");
    assert_eq!(names(&list), vec!["B", "C"]);
    assert_dense(&list);
    assert_eq!(list.delete_entry(1).err(), Some(ListError::NotFound));
}

#[test]
fn lookups_report_not_found() {
    let list = abc();
    assert_eq!(list.entry(0).err(), Some(ListError::NotFound));
    assert_eq!(list.entry(4).err(), Some(ListError::NotFound));
    assert_eq!(list.entry_by_id(7).err(), Some(ListError::NotFound));
    assert_eq!(list.entry(2).unwrap().id, 2);
}

#[test]
fn concurrent_inserts_at_one_position_land_adjacent() {
    let mut list = abc();
    let seen = list.compute(demonlist::cache::Resource {
        class: demonlist::cache::ResourceClass::Entries,
        offset: 0,
    })
    .generation;
    assert_eq!(list.insert_entry_if_current(entry(4, "X"), 2, seen), Ok(2));
    assert_eq!(list.insert_entry_if_current(entry(5, "Y"), 2, seen), Err(ListError::Conflict));
    assert_eq!(names(&list), vec!["A", "X", "B", "C"]);
    let now = list.compute(demonlist::cache::Resource {
        class: demonlist::cache::ResourceClass::Entries,
        offset: 0,
    })
    .generation;
    assert_eq!(list.insert_entry_if_current(entry(5, "Y"), 2, now), Ok(2));
    assert_eq!(names(&list), vec!["A", "Y", "X", "B", "C"]);
    assert_dense(&list);
}

#[test]
fn plain_store_operations() {
    let mut store = OrderingStore::new();
    assert_eq!(store.insert(entry(1, "A"), 1), Ok(1));
    assert_eq!(store.insert(entry(2, "B"), 1), Ok(1));
    assert_eq!(store.len(), 2);
    assert_eq!(store.find(1), Some(1));
    assert_eq!(store.find(3), None);
    assert_eq!(store.get(1).unwrap().name, "B");
    assert_eq!(store.get_by_id(1).unwrap().position, 2);
    assert_eq!(store.move_to(1, 1), Ok(1));
    assert_eq!(store.get(1).unwrap().name, "A");
    assert_eq!(store.delete(2).map(|e| e.id), Ok(2));
    assert_eq!(store.len(), 1);
}
