use demonlist::cache::{handle_conditional, Conditional, Generations, Resource, ResourceClass};
use demonlist::list::Demonlist;
use demonlist::ordering::Entry;
use demonlist::records::{Capability, Reviewer};

fn res(class: ResourceClass) -> Resource {
    Resource { class, offset: 0 }
}

#[test]
fn fingerprint_is_stable_without_mutation() {
    let mut list = Demonlist::new();
    list.insert_entry(Entry::new(1, 50, "A".to_string(), 1, 1), 1).unwrap();
    let a = list.compute(res(ResourceClass::Entries));
    let b = list.compute(res(ResourceClass::Entries));
    assert_eq!(a, b);
    assert_eq!(a.tag(), b.tag());
}

#[test]
fn fingerprint_changes_after_mutation() {
    let mut list = Demonlist::new();
    let before = list.compute(res(ResourceClass::Entries));
    list.insert_entry(Entry::new(1, 50, "A".to_string(), 1, 1), 1).unwrap();
    let after_insert = list.compute(res(ResourceClass::Entries));
    assert_ne!(before, after_insert);
    list.insert_entry(Entry::new(2, 50, "B".to_string(), 1, 1), 2).unwrap();
    let mid = list.compute(res(ResourceClass::Entries));
    list.move_entry(2, 2).unwrap();
    assert_eq!(list.compute(res(ResourceClass::Entries)), mid);
    list.move_entry(2, 1).unwrap();
    assert_ne!(list.compute(res(ResourceClass::Entries)), mid);
    let before_delete = list.compute(res(ResourceClass::Rankings));
    list.delete_entry(1).unwrap();
    assert_ne!(list.compute(res(ResourceClass::Rankings)), before_delete);
}

#[test]
fn record_changes_touch_only_their_classes() {
    let mut list = Demonlist::new();
    list.insert_entry(Entry::new(1, 50, "A".to_string(), 1, 1), 1).unwrap();
    let p = list.register_player("P".to_string());
    let q = list.register_player("Q".to_string());
    let entries = list.compute(res(ResourceClass::Entries));
    let records = list.compute(res(ResourceClass::Records));
    let rankings = list.compute(res(ResourceClass::Rankings));
    let player_p = list.compute(res(ResourceClass::Player(p)));
    let player_q = list.compute(res(ResourceClass::Player(q)));
    let rid = list.submit(p, 1, 60, 9).unwrap();
    assert_eq!(list.compute(res(ResourceClass::Entries)), entries);
    assert_eq!(list.compute(res(ResourceClass::Rankings)), rankings);
    assert_eq!(list.compute(res(ResourceClass::Player(q))), player_q);
    assert_ne!(list.compute(res(ResourceClass::Records)), records);
    assert_ne!(list.compute(res(ResourceClass::Player(p))), player_p);
    let admin = Reviewer::new(1, vec![Capability::ListAdministrator]);
    list.approve(rid, &admin).unwrap();
    assert_ne!(list.compute(res(ResourceClass::Rankings)), rankings);
    assert_eq!(list.compute(res(ResourceClass::Entries)), entries);
}

#[test]
fn offsets_give_distinct_fingerprints() {
    let list = Demonlist::new();
    let first = list.compute(Resource { class: ResourceClass::Entries, offset: 0 });
    let second = list.compute(Resource { class: ResourceClass::Entries, offset: 50 });
    assert_ne!(first, second);
    assert_ne!(first.tag(), second.tag());
}

#[test]
fn tag_spells_out_the_fingerprint() {
    let mut gens = Generations::new();
    gens.add_player();
    gens.bump_player(1);
    gens.bump_entries();
    let fp = gens.compute(Resource { class: ResourceClass::Player(1), offset: 26 });
    assert_eq!(fp.generation, 1);
    assert_eq!(fp.dependency, 1);
    let tag = String::from_utf8(fp.tag()).unwrap();
    assert_eq!(tag, "\"3-0000000000000001-000000000000001a-0000000000000001-0000000000000001\"");
}

#[test]
fn matching_tag_is_not_modified() {
    let gens = Generations::new();
    let fp = gens.compute(Resource { class: ResourceClass::Entries, offset: 0 });
    let header = fp.tag();
    assert!(matches!(handle_conditional(&header, &fp), Conditional::NotModified));
}

#[test]
fn stale_or_malformed_tag_is_a_miss() {
    let mut gens = Generations::new();
    let old = gens.compute(Resource { class: ResourceClass::Entries, offset: 0 });
    gens.bump_entries();
    let now = gens.compute(Resource { class: ResourceClass::Entries, offset: 0 });
    for header in [old.tag(), b"garbage".to_vec(), Vec::new()] {
        match handle_conditional(&header, &now) {
            Conditional::Fresh(tag) => assert_eq!(tag, now.tag()),
            Conditional::NotModified => panic!("expected a full response"),
        }
    }
}

#[test]
fn counters_move_per_class() {
    let mut gens = Generations::new();
    gens.bump_records();
    let fp = gens.compute(Resource { class: ResourceClass::Records, offset: 0 });
    assert_eq!(fp.generation, 1);
    assert_eq!(fp.dependency, 0);
    gens.bump_rankings();
    gens.bump_rankings();
    assert_eq!(gens.compute(Resource { class: ResourceClass::Rankings, offset: 0 }).generation, 2);
    assert_eq!(gens.compute(Resource { class: ResourceClass::Player(4), offset: 0 }).generation, 0);
}
