use demonlist::cache::{Resource, ResourceClass};
use demonlist::error::ListError;
use demonlist::list::Demonlist;
use demonlist::ordering::Entry;
use demonlist::records::{Capability, RecordStatus, Reviewer};
use demonlist::score::ScoreCurve;

fn admin() -> Reviewer {
    Reviewer::new(100, vec![Capability::ListAdministrator])
}

fn helper() -> Reviewer {
    Reviewer::new(101, vec![Capability::ListHelper])
}

/// Position 1 pays twice the progress, position 2 the progress itself.
fn curve() -> ScoreCurve {
    let top: Vec<u64> = (0..=100u64).map(|p| 2 * p).collect();
    let second: Vec<u64> = (0..=100u64).collect();
    ScoreCurve::new(vec![top, second]).ok().unwrap()
}

/// Entry 10 ("D", requirement 60) at position 1, entry 20 (requirement 50) at
/// position 2, and one player.
fn setup() -> (Demonlist, usize) {
    let mut list = Demonlist::new();
    list.insert_entry(Entry::new(10, 60, "D".to_string(), 1, 1), 1).unwrap();
    list.insert_entry(Entry::new(20, 50, "E".to_string(), 1, 1), 2).unwrap();
    let p = list.register_player("P".to_string());
    (list, p)
}

#[test]
fn submit_checks_the_requirement() {
    let (mut list, p) = setup();
    assert_eq!(list.submit(p, 10, 55, 7), Err(ListError::ValidationError));
    let rid = list.submit(p, 10, 70, 7).unwrap();
    let rec = list.record(rid).ok().unwrap();
    assert_eq!(rec.status, RecordStatus::Submitted);
    assert_eq!(rec.progress, 70);
    assert_eq!(rec.player_id, p);
    assert_eq!(rec.submitter_id, 7);
}

#[test]
fn submit_rejects_bad_references_and_progress() {
    let (mut list, p) = setup();
    assert_eq!(list.submit(p, 99, 70, 7), Err(ListError::NotFound));
    assert_eq!(list.submit(p + 1, 10, 70, 7), Err(ListError::NotFound));
    assert_eq!(list.submit(p, 10, 101, 7), Err(ListError::ValidationError));
    assert_eq!(list.submit(p, 10, 100, 7), Ok(1));
}

#[test]
fn submit_conflicts_with_a_better_approved_record() {
    let (mut list, p) = setup();
    let rid = list.submit(p, 10, 80, 7).unwrap();
    assert_eq!(list.approve(rid, &admin()), Ok(()));
    assert_eq!(list.submit(p, 10, 80, 7), Err(ListError::Conflict));
    assert_eq!(list.submit(p, 10, 75, 7), Err(ListError::Conflict));
    assert!(list.submit(p, 10, 90, 7).is_ok());
}

#[test]
fn approve_then_score_counts_the_record() {
    let (mut list, p) = setup();
    let c = curve();
    assert_eq!(list.score(&c, p), 0);
    let rid = list.submit(p, 10, 70, 7).unwrap();
    assert_eq!(list.score(&c, p), 0);
    assert_eq!(list.approve(rid, &admin()), Ok(()));
    assert_eq!(list.score(&c, p), 140);
    let second = list.submit(p, 20, 50, 7).unwrap();
    assert_eq!(list.approve(second, &admin()), Ok(()));
    assert_eq!(list.score(&c, p), 190);
}

#[test]
fn reject_leaves_score_unchanged() {
    let (mut list, p) = setup();
    let c = curve();
    let first = list.submit(p, 20, 60, 7).unwrap();
    list.approve(first, &admin()).unwrap();
    let before = list.score(&c, p);
    let rid = list.submit(p, 10, 70, 7).unwrap();
    assert_eq!(list.reject(rid, &admin()), Ok(()));
    assert_eq!(list.record(rid).ok().unwrap().status, RecordStatus::Rejected);
    assert_eq!(list.score(&c, p), before);
    assert_eq!(before, 60);
}

#[test]
fn approving_a_worse_record_conflicts() {
    let (mut list, p) = setup();
    let good = list.submit(p, 10, 90, 7).unwrap();
    let worse = list.submit(p, 10, 70, 7).unwrap();
    assert_eq!(list.approve(good, &admin()), Ok(()));
    assert_eq!(list.approve(worse, &admin()), Err(ListError::Conflict));
    assert_eq!(list.record(good).ok().unwrap().status, RecordStatus::Approved);
    assert_eq!(list.record(worse).ok().unwrap().status, RecordStatus::Submitted);
}

#[test]
fn approving_a_better_record_demotes_the_old_one() {
    let (mut list, p) = setup();
    let c = curve();
    let worse = list.submit(p, 10, 70, 7).unwrap();
    let better = list.submit(p, 10, 90, 7).unwrap();
    list.approve(worse, &admin()).unwrap();
    assert_eq!(list.score(&c, p), 140);
    assert_eq!(list.approve(better, &admin()), Ok(()));
    assert_eq!(list.record(worse).ok().unwrap().status, RecordStatus::Rejected);
    assert_eq!(list.record(better).ok().unwrap().status, RecordStatus::Approved);
    assert_eq!(list.score(&c, p), 180);
}

#[test]
fn reject_without_capability_is_forbidden() {
    let (mut list, p) = setup();
    let rid = list.submit(p, 10, 70, 7).unwrap();
    list.approve(rid, &admin()).unwrap();
    assert_eq!(list.reject(rid, &helper()), Err(ListError::Forbidden));
    assert_eq!(list.record(rid).ok().unwrap().status, RecordStatus::Approved);
}

#[test]
fn approve_without_capability_is_forbidden() {
    let (mut list, p) = setup();
    let rid = list.submit(p, 10, 70, 7).unwrap();
    let moderator = Reviewer::new(5, vec![Capability::ListModerator]);
    assert_eq!(list.approve(rid, &moderator), Err(ListError::Forbidden));
    let boss = Reviewer::new(6, vec![Capability::Administrator]);
    assert_eq!(list.approve(rid, &boss), Ok(()));
}

#[test]
fn reapproving_is_a_no_op() {
    let (mut list, p) = setup();
    let rid = list.submit(p, 10, 70, 7).unwrap();
    list.approve(rid, &admin()).unwrap();
    let records = Resource { class: ResourceClass::Records, offset: 0 };
    let tag = list.compute(records);
    assert_eq!(list.approve(rid, &admin()), Ok(()));
    assert_eq!(list.compute(records), tag);
    assert_eq!(list.record(rid).ok().unwrap().status, RecordStatus::Approved);
}

#[test]
fn terminal_states_refuse_other_transitions() {
    let (mut list, p) = setup();
    let a = list.submit(p, 10, 70, 7).unwrap();
    let r = list.submit(p, 20, 70, 7).unwrap();
    list.approve(a, &admin()).unwrap();
    list.reject(r, &admin()).unwrap();
    assert_eq!(list.reject(a, &admin()), Err(ListError::ValidationError));
    assert_eq!(list.approve(r, &admin()), Err(ListError::ValidationError));
    assert_eq!(list.reject(r, &admin()), Ok(()));
    assert_eq!(list.consider(a, &admin()), Err(ListError::ValidationError));
    assert_eq!(list.approve(9, &admin()), Err(ListError::NotFound));
}

#[test]
fn consider_then_approve() {
    let (mut list, p) = setup();
    let rid = list.submit(p, 10, 70, 7).unwrap();
    assert_eq!(list.consider(rid, &helper()), Err(ListError::Forbidden));
    let moderator = Reviewer::new(5, vec![Capability::ListModerator]);
    assert_eq!(list.consider(rid, &moderator), Ok(()));
    assert_eq!(list.record(rid).ok().unwrap().status, RecordStatus::UnderConsideration);
    assert_eq!(list.approve(rid, &admin()), Ok(()));
    assert_eq!(list.record(rid).ok().unwrap().status, RecordStatus::Approved);
}

#[test]
fn approve_needs_the_entry() {
    let (mut list, p) = setup();
    let rid = list.submit(p, 10, 70, 7).unwrap();
    list.delete_entry(10).unwrap();
    assert_eq!(list.approve(rid, &admin()), Err(ListError::NotFound));
    list.insert_entry(Entry::new(10, 80, "D".to_string(), 1, 1), 1).unwrap();
    assert_eq!(list.approve(rid, &admin()), Err(ListError::ValidationError));
}

#[test]
fn notes_are_kept_after_disposition() {
    let (mut list, p) = setup();
    let rid = list.submit(p, 10, 70, 7).unwrap();
    let nobody = Reviewer::new(3, vec![]);
    assert_eq!(list.add_note(rid, &nobody, "x".to_string()), Err(ListError::Forbidden));
    assert_eq!(list.add_note(rid, &helper(), "looks fine".to_string()), Ok(()));
    list.approve(rid, &admin()).unwrap();
    assert_eq!(list.add_note(rid, &admin(), "approved".to_string()), Ok(()));
    assert_eq!(list.add_note(rid + 1, &admin(), "none".to_string()), Err(ListError::NotFound));
    let rec = list.record(rid).ok().unwrap();
    assert_eq!(rec.notes.len(), 2);
    assert_eq!(rec.notes[0].text, "looks fine");
    assert_eq!(rec.notes[0].author, 101);
    assert_eq!(rec.notes[1].text, "approved");
    assert_eq!(rec.status, RecordStatus::Approved);
}

#[test]
fn capabilities_include_weaker_ones() {
    assert!(Capability::Administrator.includes(Capability::ListAdministrator));
    assert!(!Capability::ListModerator.includes(Capability::ListAdministrator));
    assert!(admin().has_capability(Capability::ListHelper));
    assert!(!helper().has_capability(Capability::ListModerator));
    assert!(!Reviewer::new(1, vec![]).has_capability(Capability::ListHelper));
}

#[test]
fn error_status_codes() {
    assert_eq!(ListError::NotFound.status_code(), 404);
    assert_eq!(ListError::Forbidden.status_code(), 403);
    assert_eq!(ListError::ValidationError.status_code(), 422);
    assert_eq!(ListError::Conflict.status_code(), 409);
}
