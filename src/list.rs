use vstd::prelude::*;

use crate::cache::{
    fingerprint_of, next_gen, Fingerprint, Generations, GenerationsView, Resource, ResourceClass,
};
use crate::error::ListError;
use crate::score::{is_ranking, listed, ranks_before, record_points, score_of, ScoreCurve};
use crate::ordering::{
    clamp, deleted, has_id, index_of, inserted, moved, unique_ids, Entry, OrderingStore,
};
use crate::records::{
    approved, approved_at_least, grants, lemma_approved_wf, lemma_status_wf, records_wf, with_status, Capability, Note, Player,
    Record, RecordStatus, Reviewer,
};

verus! {

/// The whole list as plain values.
pub struct DemonlistView {
    pub entries: Seq<Entry>,
    pub players: Seq<Player>,
    pub records: Seq<Record>,
    pub gens: GenerationsView,
}

/// Player ids follow the index.
pub open spec fn players_wf(s: Seq<Player>) -> bool {
    forall|i: int| 0 <= i < s.len() ==> #[trigger] s[i].id == i + 1
}

/// The counters after a change to the records of player `p`; the ranking
/// counter moves too where `scores` holds.
pub open spec fn touched(g: GenerationsView, p: usize, scores: bool) -> GenerationsView {
    GenerationsView {
        records: next_gen(g.records),
        rankings: if scores {
            next_gen(g.rankings)
        } else {
            g.rankings
        },
        players: if 1 <= p <= g.players.len() {
            g.players.update(p - 1, next_gen(g.players[p - 1]))
        } else {
            g.players
        },
        ..g
    }
}

/// The counters after a change to the order of entries.
pub open spec fn reordered(g: GenerationsView) -> GenerationsView {
    GenerationsView { entries: next_gen(g.entries), ..g }
}

/// The outcome of a submission, before anything changes: `Ok` where it is
/// accepted.
pub open spec fn submit_result(v: DemonlistView, player: usize, entry_id: u64, progress: u64) -> Result<
    (),
    ListError,
> {
    if !has_id(v.entries, entry_id) || !(1 <= player <= v.players.len()) {
        Err(ListError::NotFound)
    } else if progress > 100 || progress < v.entries[index_of(v.entries, entry_id)].requirement {
        Err(ListError::ValidationError)
    } else if approved_at_least(v.records, player, entry_id, progress as int) {
        Err(ListError::Conflict)
    } else {
        Ok(())
    }
}

/// The outcome of an approval: `Ok(true)` where the record becomes approved,
/// `Ok(false)` where it already was.
pub open spec fn approve_result(v: DemonlistView, rid: usize, allowed: bool) -> Result<bool, ListError> {
    if !allowed {
        Err(ListError::Forbidden)
    } else if !(1 <= rid <= v.records.len()) {
        Err(ListError::NotFound)
    } else {
        let r = v.records[rid - 1];
        if r.status == RecordStatus::Approved {
            Ok(false)
        } else if r.status == RecordStatus::Rejected {
            Err(ListError::ValidationError)
        } else if approved_at_least(v.records, r.player_id, r.entry_id, r.progress as int) {
            Err(ListError::Conflict)
        } else if !has_id(v.entries, r.entry_id) {
            Err(ListError::NotFound)
        } else if r.progress < v.entries[index_of(v.entries, r.entry_id)].requirement {
            Err(ListError::ValidationError)
        } else {
            Ok(true)
        }
    }
}

/// The outcome of moving a record to `target` (rejected or under
/// consideration): `Ok(true)` where its status changes, `Ok(false)` where it
/// already holds `target`.
pub open spec fn decide_result(v: DemonlistView, rid: usize, allowed: bool, target: RecordStatus) -> Result<
    bool,
    ListError,
> {
    if !allowed {
        Err(ListError::Forbidden)
    } else if !(1 <= rid <= v.records.len()) {
        Err(ListError::NotFound)
    } else {
        let s = v.records[rid - 1].status;
        if s == target {
            Ok(false)
        } else if s == RecordStatus::Approved || s == RecordStatus::Rejected {
            Err(ListError::ValidationError)
        } else {
            Ok(true)
        }
    }
}

/// Entries, players and records with the cache counters that track them.
pub struct Demonlist {
    store: OrderingStore,
    players: Vec<Player>,
    records: Vec<Record>,
    gens: Generations,
}

impl View for Demonlist {
    type V = DemonlistView;

    closed spec fn view(&self) -> DemonlistView {
        DemonlistView {
            entries: self.store@,
            players: self.players@,
            records: self.records@,
            gens: self.gens@,
        }
    }
}

impl Demonlist {
    pub open spec fn wf(&self) -> bool {
        &&& crate::ordering::dense(self@.entries)
        &&& unique_ids(self@.entries)
        &&& players_wf(self@.players)
        &&& records_wf(self@.records)
        &&& self@.gens.players.len() == self@.players.len()
    }

    /// An empty list; every counter starts at 0.
    pub fn new() -> (r: Demonlist)
        ensures
            r.wf(),
            r@.entries.len() == 0,
            r@.players.len() == 0,
            r@.records.len() == 0,
            r@.gens == (GenerationsView { entries: 0, records: 0, rankings: 0, players: Seq::empty() }),
    {
        Demonlist {
            store: OrderingStore::new(),
            players: Vec::new(),
            records: Vec::new(),
            gens: Generations::new(),
        }
    }

    /// Inserts `entry` at `at_position` (clamped to `[1, N + 1]`) and returns
    /// the position it took.
    pub fn insert_entry(&mut self, entry: Entry, at_position: usize) -> (r: Result<usize, ListError>)
        requires
            old(self).wf(),
        ensures
            final(self).wf(),
            at_position < 1 ==> r == Err::<usize, ListError>(ListError::ValidationError),
            at_position >= 1 && has_id(old(self)@.entries, entry.id) ==> r == Err::<usize, ListError>(
                ListError::Conflict,
            ),
            r.is_err() ==> final(self)@ == old(self)@,
            at_position >= 1 && !has_id(old(self)@.entries, entry.id) ==> {
                &&& r == Ok::<usize, ListError>(
                    clamp(at_position as int, 1, old(self)@.entries.len() + 1int) as usize,
                )
                &&& final(self)@ == (DemonlistView {
                    entries: inserted(old(self)@.entries, entry, at_position as int),
                    gens: reordered(old(self)@.gens),
                    ..old(self)@
                })
            },
    {
        let r = self.store.insert(entry, at_position);
        if r.is_ok() {
            self.gens.bump_entries();
        }
        r
    }

    /// Inserts like `insert_entry`, but only while the entries counter still
    /// equals `expected`, the value the caller read; otherwise the caller lost
    /// a race and gets `Conflict`, with nothing changed.
    pub fn insert_entry_if_current(&mut self, entry: Entry, at_position: usize, expected: u64) -> (r:
        Result<usize, ListError>)
        requires
            old(self).wf(),
        ensures
            final(self).wf(),
            old(self)@.gens.entries != expected ==> r == Err::<usize, ListError>(ListError::Conflict)
                && final(self)@ == old(self)@,
            old(self)@.gens.entries == expected ==> {
                &&& at_position < 1 ==> r == Err::<usize, ListError>(ListError::ValidationError)
                &&& at_position >= 1 && has_id(old(self)@.entries, entry.id) ==> r == Err::<
                    usize,
                    ListError,
                >(ListError::Conflict)
                &&& r.is_err() ==> final(self)@ == old(self)@
                &&& at_position >= 1 && !has_id(old(self)@.entries, entry.id) ==> {
                    &&& r == Ok::<usize, ListError>(
                        clamp(at_position as int, 1, old(self)@.entries.len() + 1int) as usize,
                    )
                    &&& final(self)@ == (DemonlistView {
                        entries: inserted(old(self)@.entries, entry, at_position as int),
                        gens: reordered(old(self)@.gens),
                        ..old(self)@
                    })
                }
            },
    {
        if self.gens.compute(Resource { class: ResourceClass::Entries, offset: 0 }).generation
            != expected {
            return Err(ListError::Conflict);
        }
        self.insert_entry(entry, at_position)
    }

    /// Moves the entry with `id` to `to_position` (clamped to `[1, N]`) and
    /// returns the position it took. Moving an entry to where it stands
    /// changes nothing.
    pub fn move_entry(&mut self, id: u64, to_position: usize) -> (r: Result<usize, ListError>)
        requires
            old(self).wf(),
        ensures
            final(self).wf(),
            !has_id(old(self)@.entries, id) ==> r == Err::<usize, ListError>(ListError::NotFound)
                && final(self)@ == old(self)@,
            has_id(old(self)@.entries, id) ==> {
                let at = index_of(old(self)@.entries, id);
                let to = clamp(to_position as int, 1, old(self)@.entries.len() as int);
                &&& r == Ok::<usize, ListError>(to as usize)
                &&& final(self)@ == (DemonlistView {
                    entries: moved(old(self)@.entries, at, to_position as int),
                    gens: if to == at + 1 {
                        old(self)@.gens
                    } else {
                        reordered(old(self)@.gens)
                    },
                    ..old(self)@
                })
            },
    {
        let before = self.store.find(id);
        let r = self.store.move_to(id, to_position);
        match (before, r) {
            (Some(i), Ok(p)) => {
                if p - 1 != i {
                    self.gens.bump_entries();
                }
            },
            _ => {},
        }
        r
    }

    /// Deletes the entry with `id` and returns it.
    pub fn delete_entry(&mut self, id: u64) -> (r: Result<Entry, ListError>)
        requires
            old(self).wf(),
        ensures
            final(self).wf(),
            !has_id(old(self)@.entries, id) ==> r == Err::<Entry, ListError>(ListError::NotFound)
                && final(self)@ == old(self)@,
            has_id(old(self)@.entries, id) ==> {
                &&& r == Ok::<Entry, ListError>(old(self)@.entries[index_of(old(self)@.entries, id)])
                &&& final(self)@ == (DemonlistView {
                    entries: deleted(old(self)@.entries, index_of(old(self)@.entries, id)),
                    gens: reordered(old(self)@.gens),
                    ..old(self)@
                })
            },
    {
        let r = self.store.delete(id);
        if r.is_ok() {
            self.gens.bump_entries();
        }
        r
    }

    /// The entry at `position`.
    pub fn entry(&self, position: usize) -> (r: Result<&Entry, ListError>)
        ensures
            1 <= position <= self@.entries.len() ==> r == Ok::<&Entry, ListError>(
                &self@.entries[position - 1],
            ),
            !(1 <= position <= self@.entries.len()) ==> r == Err::<&Entry, ListError>(
                ListError::NotFound,
            ),
    {
        self.store.get(position)
    }

    /// The entry with `id`.
    pub fn entry_by_id(&self, id: u64) -> (r: Result<&Entry, ListError>)
        requires
            self.wf(),
        ensures
            has_id(self@.entries, id) ==> r == Ok::<&Entry, ListError>(
                &self@.entries[index_of(self@.entries, id)],
            ),
            !has_id(self@.entries, id) ==> r == Err::<&Entry, ListError>(ListError::NotFound),
    {
        self.store.get_by_id(id)
    }

    /// The number of players.
    pub fn player_count(&self) -> (r: usize)
        ensures
            r == self@.players.len(),
    {
        self.players.len()
    }

    /// The number of records.
    pub fn record_count(&self) -> (r: usize)
        ensures
            r == self@.records.len(),
    {
        self.records.len()
    }

    /// The number of entries.
    pub fn entry_count(&self) -> (r: usize)
        ensures
            r == self@.entries.len(),
    {
        self.store.len()
    }

    /// The fingerprint of `res` under the current counters.
    pub fn compute(&self, res: Resource) -> (r: Fingerprint)
        ensures
            r == fingerprint_of(self@.gens, res),
    {
        self.gens.compute(res)
    }

    /// The record with id `rid`.
    pub fn record(&self, rid: usize) -> (r: Result<&Record, ListError>)
        ensures
            1 <= rid <= self@.records.len() ==> r == Ok::<&Record, ListError>(&self@.records[rid - 1]),
            !(1 <= rid <= self@.records.len()) ==> r == Err::<&Record, ListError>(ListError::NotFound),
    {
        if 1 <= rid && rid <= self.records.len() {
            Ok(&self.records[rid - 1])
        } else {
            Err(ListError::NotFound)
        }
    }

    /// Whether player `player` holds an approved record on `entry_id` with at
    /// least `progress`.
    pub fn has_approved_at_least(&self, player: usize, entry_id: u64, progress: u64) -> (r: bool)
        ensures
            r == approved_at_least(self@.records, player, entry_id, progress as int),
    {
        let mut i: usize = 0;
        while i < self.records.len()
            invariant
                i <= self.records@.len(),
                forall|k: int|
                    0 <= k < i ==> !((#[trigger] self.records@[k]).status == RecordStatus::Approved
                        && self.records@[k].player_id == player && self.records@[k].entry_id
                        == entry_id && self.records@[k].progress >= progress),
            decreases self.records@.len() - i,
        {
            let rec = &self.records[i];
            if rec.status == RecordStatus::Approved && rec.player_id == player && rec.entry_id
                == entry_id && rec.progress >= progress {
                return true;
            }
            i = i + 1;
        }
        false
    }

    fn touch(&mut self, player: usize, scores: bool)
        ensures
            final(self).gens@ == touched(old(self).gens@, player, scores),
            final(self).store == old(self).store,
            final(self).players == old(self).players,
            final(self).records == old(self).records,
    {
        self.gens.bump_records();
        if scores {
            self.gens.bump_rankings();
        }
        self.gens.bump_player(player);
    }

    /// Submits a record of `player` on the entry `entry_id` and returns its id.
    /// The progress must lie between the entry's requirement and 100, and must
    /// beat any approved record the player already holds there.
    pub fn submit(&mut self, player: usize, entry_id: u64, progress: u64, submitter: u64) -> (r: Result<
        usize,
        ListError,
    >)
        requires
            old(self).wf(),
            old(self)@.records.len() < usize::MAX,
        ensures
            final(self).wf(),
            match submit_result(old(self)@, player, entry_id, progress) {
                Err(e) => r == Err::<usize, ListError>(e) && final(self)@ == old(self)@,
                Ok(_) => {
                    let n = old(self)@.records.len();
                    let rec = final(self)@.records[n as int];
                    &&& r == Ok::<usize, ListError>((n + 1) as usize)
                    &&& final(self)@.records.len() == n + 1
                    &&& final(self)@.records.take(n as int) == old(self)@.records
                    &&& rec.id == n + 1 && rec.entry_id == entry_id && rec.player_id == player
                    &&& rec.progress == progress && rec.submitter_id == submitter
                    &&& rec.status == RecordStatus::Submitted && rec.notes@.len() == 0
                    &&& final(self)@.entries == old(self)@.entries
                    &&& final(self)@.players == old(self)@.players
                    &&& final(self)@.gens == touched(old(self)@.gens, player, false)
                },
            },
    {
        let requirement = match self.store.get_by_id(entry_id) {
            Ok(e) => e.requirement,
            Err(_) => {
                return Err(ListError::NotFound);
            },
        };
        if player < 1 || player > self.players.len() {
            return Err(ListError::NotFound);
        }
        if progress > 100 || progress < requirement {
            return Err(ListError::ValidationError);
        }
        if self.has_approved_at_least(player, entry_id, progress) {
            return Err(ListError::Conflict);
        }
        let id = self.records.len() + 1;
        self.records.push(
            Record {
                id,
                entry_id,
                player_id: player,
                progress,
                status: RecordStatus::Submitted,
                submitter_id: submitter,
                notes: Vec::new(),
            },
        );
        self.touch(player, false);
        assert(self@.records.take(id - 1) =~= old(self)@.records);
        Ok(id)
    }

    /// Approves record `rid`; any approved record of the same player on the
    /// same entry, necessarily with less progress, is demoted to rejected.
    /// Approving an approved record succeeds and changes nothing.
    pub fn approve(&mut self, rid: usize, reviewer: &Reviewer) -> (r: Result<(), ListError>)
        requires
            old(self).wf(),
        ensures
            final(self).wf(),
            match approve_result(
                old(self)@,
                rid,
                grants(reviewer.granted@, Capability::ListAdministrator),
            ) {
                Err(e) => r == Err::<(), ListError>(e) && final(self)@ == old(self)@,
                Ok(false) => r == Ok::<(), ListError>(()) && final(self)@ == old(self)@,
                Ok(true) => r == Ok::<(), ListError>(()) && final(self)@ == (DemonlistView {
                    records: approved(old(self)@.records, rid - 1),
                    gens: touched(old(self)@.gens, old(self)@.records[rid - 1].player_id, true),
                    ..old(self)@
                }),
            },
    {
        if !reviewer.has_capability(Capability::ListAdministrator) {
            return Err(ListError::Forbidden);
        }
        if rid < 1 || rid > self.records.len() {
            return Err(ListError::NotFound);
        }
        let k = rid - 1;
        match self.records[k].status {
            RecordStatus::Approved => {
                return Ok(());
            },
            RecordStatus::Rejected => {
                return Err(ListError::ValidationError);
            },
            _ => {},
        }
        let entry_id = self.records[k].entry_id;
        let player = self.records[k].player_id;
        let progress = self.records[k].progress;
        if self.has_approved_at_least(player, entry_id, progress) {
            return Err(ListError::Conflict);
        }
        let requirement = match self.store.get_by_id(entry_id) {
            Ok(e) => e.requirement,
            Err(_) => {
                return Err(ListError::NotFound);
            },
        };
        if progress < requirement {
            return Err(ListError::ValidationError);
        }
        let ghost orig = self.records@;
        let ghost pre = self@;
        let mut j: usize = 0;
        while j < self.records.len()
            invariant
                self@.entries == pre.entries,
                self@.players == pre.players,
                self@.gens == pre.gens,
                pre == old(self)@,
                orig == pre.records,
                self.records@.len() == orig.len(),
                k < orig.len(),
                j <= orig.len(),
                orig[k as int].player_id == player,
                orig[k as int].entry_id == entry_id,
                forall|i: int|
                    0 <= i < j && i != k ==> #[trigger] self.records@[i] == approved(orig, k as int)[i],
                forall|i: int|
                    (j <= i < orig.len() || i == k) ==> #[trigger] self.records@[i] == orig[i],
            decreases orig.len() - j,
        {
            if j != k && self.records[j].player_id == player && self.records[j].entry_id == entry_id
                && self.records[j].status == RecordStatus::Approved {
                self.records[j].status = RecordStatus::Rejected;
            }
            j = j + 1;
        }
        self.records[k].status = RecordStatus::Approved;
        assert(self.records@ =~= approved(orig, k as int));
        proof {
            lemma_approved_wf(orig, k as int);
        }
        self.touch(player, true);
        Ok(())
    }

    fn decide(&mut self, rid: usize, reviewer: &Reviewer, needed: Capability, target: RecordStatus) -> (r:
        Result<(), ListError>)
        requires
            old(self).wf(),
            target != RecordStatus::Approved,
        ensures
            final(self).wf(),
            match decide_result(old(self)@, rid, grants(reviewer.granted@, needed), target) {
                Err(e) => r == Err::<(), ListError>(e) && final(self)@ == old(self)@,
                Ok(false) => r == Ok::<(), ListError>(()) && final(self)@ == old(self)@,
                Ok(true) => r == Ok::<(), ListError>(()) && final(self)@ == (DemonlistView {
                    records: old(self)@.records.update(
                        rid - 1,
                        with_status(old(self)@.records[rid - 1], target),
                    ),
                    gens: touched(old(self)@.gens, old(self)@.records[rid - 1].player_id, false),
                    ..old(self)@
                }),
            },
    {
        if !reviewer.has_capability(needed) {
            return Err(ListError::Forbidden);
        }
        if rid < 1 || rid > self.records.len() {
            return Err(ListError::NotFound);
        }
        let k = rid - 1;
        let status = self.records[k].status;
        if status == target {
            return Ok(());
        }
        if status == RecordStatus::Approved || status == RecordStatus::Rejected {
            return Err(ListError::ValidationError);
        }
        let player = self.records[k].player_id;
        proof {
            lemma_status_wf(self.records@, k as int, target);
        }
        self.records[k].status = target;
        assert(self.records@ =~= old(self)@.records.update(
            k as int,
            with_status(old(self)@.records[k as int], target),
        ));
        self.touch(player, false);
        Ok(())
    }

    /// Rejects record `rid`. Rejecting a rejected record succeeds and changes
    /// nothing; an approved record stays approved.
    pub fn reject(&mut self, rid: usize, reviewer: &Reviewer) -> (r: Result<(), ListError>)
        requires
            old(self).wf(),
        ensures
            final(self).wf(),
            match decide_result(
                old(self)@,
                rid,
                grants(reviewer.granted@, Capability::ListAdministrator),
                RecordStatus::Rejected,
            ) {
                Err(e) => r == Err::<(), ListError>(e) && final(self)@ == old(self)@,
                Ok(false) => r == Ok::<(), ListError>(()) && final(self)@ == old(self)@,
                Ok(true) => r == Ok::<(), ListError>(()) && final(self)@ == (DemonlistView {
                    records: old(self)@.records.update(
                        rid - 1,
                        with_status(old(self)@.records[rid - 1], RecordStatus::Rejected),
                    ),
                    gens: touched(old(self)@.gens, old(self)@.records[rid - 1].player_id, false),
                    ..old(self)@
                }),
            },
    {
        self.decide(rid, reviewer, Capability::ListAdministrator, RecordStatus::Rejected)
    }

    /// Puts a submitted record under consideration.
    pub fn consider(&mut self, rid: usize, reviewer: &Reviewer) -> (r: Result<(), ListError>)
        requires
            old(self).wf(),
        ensures
            final(self).wf(),
            match decide_result(
                old(self)@,
                rid,
                grants(reviewer.granted@, Capability::ListModerator),
                RecordStatus::UnderConsideration,
            ) {
                Err(e) => r == Err::<(), ListError>(e) && final(self)@ == old(self)@,
                Ok(false) => r == Ok::<(), ListError>(()) && final(self)@ == old(self)@,
                Ok(true) => r == Ok::<(), ListError>(()) && final(self)@ == (DemonlistView {
                    records: old(self)@.records.update(
                        rid - 1,
                        with_status(old(self)@.records[rid - 1], RecordStatus::UnderConsideration),
                    ),
                    gens: touched(old(self)@.gens, old(self)@.records[rid - 1].player_id, false),
                    ..old(self)@
                }),
            },
    {
        self.decide(rid, reviewer, Capability::ListModerator, RecordStatus::UnderConsideration)
    }

    /// Appends a note by the acting staff member to record `rid`, whatever its status.
    pub fn add_note(&mut self, rid: usize, reviewer: &Reviewer, text: String) -> (r: Result<(), ListError>)
        requires
            old(self).wf(),
        ensures
            final(self).wf(),
            !grants(reviewer.granted@, Capability::ListHelper) ==> r == Err::<(), ListError>(
                ListError::Forbidden,
            ),
            grants(reviewer.granted@, Capability::ListHelper) && !(1 <= rid
                <= old(self)@.records.len()) ==> r == Err::<(), ListError>(ListError::NotFound),
            grants(reviewer.granted@, Capability::ListHelper) && 1 <= rid <= old(self)@.records.len()
                ==> r == Ok::<(), ListError>(()),
            r.is_err() ==> final(self)@ == old(self)@,
            r.is_ok() ==> {
                let k = rid - 1;
                let (a, b) = (old(self)@.records[k], final(self)@.records[k]);
                &&& grants(reviewer.granted@, Capability::ListHelper)
                &&& 1 <= rid <= old(self)@.records.len()
                &&& final(self)@.records.len() == old(self)@.records.len()
                &&& forall|i: int|
                    0 <= i < old(self)@.records.len() && i != k
                        ==> #[trigger] final(self)@.records[i] == old(self)@.records[i]
                &&& b.id == a.id && b.entry_id == a.entry_id && b.player_id == a.player_id
                &&& b.progress == a.progress && b.status == a.status && b.submitter_id == a.submitter_id
                &&& b.notes@ == a.notes@.push(Note { author: reviewer.id, text })
                &&& final(self)@.entries == old(self)@.entries
                &&& final(self)@.players == old(self)@.players
                &&& final(self)@.gens == touched(old(self)@.gens, a.player_id, false)
            },
    {
        if !reviewer.has_capability(Capability::ListHelper) {
            return Err(ListError::Forbidden);
        }
        if rid < 1 || rid > self.records.len() {
            return Err(ListError::NotFound);
        }
        let k = rid - 1;
        let player = self.records[k].player_id;
        self.records[k].notes.push(Note { author: reviewer.id, text });
        self.touch(player, false);
        Ok(())
    }

    /// The score of `player`: the points of each approved record the player
    /// holds on an existing entry, summed; 0 for a banned or unknown player.
    pub fn score(&self, curve: &ScoreCurve, player: usize) -> (r: u128)
        requires
            self.wf(),
            curve.wf(),
        ensures
            r == score_of(self@.entries, self@.players, curve@, self@.records, player),
    {
        let counted = 1 <= player && player <= self.players.len() && !self.players[player - 1].banned;
        let ghost v = self@;
        let mut total: u128 = 0;
        let mut i: usize = 0;
        while i < self.records.len()
            invariant
                v == self@,
                self.store.wf(),
                curve.wf(),
                i <= self.records@.len(),
                counted == (1 <= player <= v.players.len() && !v.players[player - 1].banned),
                total == score_of(v.entries, v.players, curve@, v.records.take(i as int), player),
                total <= i * 0xFFFF_FFFF_FFFF_FFFFint,
            decreases self.records@.len() - i,
        {
            let rec = &self.records[i];
            let pts: u64 = if counted && rec.player_id == player && rec.status == RecordStatus::Approved {
                match self.store.get_by_id(rec.entry_id) {
                    Ok(e) => curve.points_at(e.position, rec.progress),
                    Err(_) => 0,
                }
            } else {
                0
            };
            assert(pts == record_points(v.entries, v.players, curve@, v.records[i as int], player));
            assert(v.records.take(i + 1).drop_last() =~= v.records.take(i as int));
            total = total + pts as u128;
            i = i + 1;
        }
        assert(v.records.take(i as int) =~= v.records);
        total
    }

    /// Every unbanned player with the score, highest first; equal scores in
    /// order of registration.
    pub fn ranking(&self, curve: &ScoreCurve) -> (r: Vec<(usize, u128)>)
        requires
            self.wf(),
            curve.wf(),
        ensures
            is_ranking(r@, self@.entries, self@.players, curve@, self@.records),
    {
        let ghost v = self@;
        let mut out: Vec<(usize, u128)> = Vec::new();
        let mut idx: usize = 0;
        while idx < self.players.len()
            invariant
                v == self@,
                self.wf(),
                curve.wf(),
                idx <= v.players.len(),
                forall|i: int, j: int|
                    0 <= i < j < out@.len() ==> ranks_before(#[trigger] out@[i], #[trigger] out@[j]),
                forall|i: int|
                    0 <= i < out@.len() ==> listed(v.players, (#[trigger] out@[i]).0 as int)
                        && out@[i].0 <= idx && out@[i].1 == score_of(
                        v.entries,
                        v.players,
                        curve@,
                        v.records,
                        out@[i].0,
                    ),
                forall|q: int|
                    1 <= q <= idx && listed(v.players, q) ==> exists|i: int|
                        0 <= i < out@.len() && (#[trigger] out@[i]).0 == q,
            decreases v.players.len() - idx,
        {
            if !self.players[idx].banned {
                let id = idx + 1;
                let sc = self.score(curve, id);
                let item = (id, sc);
                let mut pos: usize = 0;
                while pos < out.len() && (out[pos].1 > sc || (out[pos].1 == sc && out[pos].0 < id))
                    invariant
                        item == (id, sc),
                        pos <= out@.len(),
                        forall|k: int| 0 <= k < pos ==> ranks_before(#[trigger] out@[k], item),
                    decreases out@.len() - pos,
                {
                    pos = pos + 1;
                }
                assert forall|k: int| pos <= k < out@.len() implies ranks_before(
                    item,
                    #[trigger] out@[k],
                ) by {
                    assert(out@[pos as int].0 < id);
                    if k > pos {
                        assert(ranks_before(out@[pos as int], out@[k]));
                    }
                }
                let ghost before = out@;
                out.insert(pos, item);
                assert forall|i: int, j: int|
                    0 <= i < j < out@.len() implies ranks_before(#[trigger] out@[i], #[trigger] out@[j]) by {
                    if j < pos {
                        assert(out@[i] == before[i] && out@[j] == before[j]);
                    } else if j == pos {
                        assert(out@[i] == before[i]);
                    } else if i < pos {
                        assert(out@[i] == before[i] && out@[j] == before[j - 1]);
                        assert(ranks_before(before[i], item));
                    } else if i == pos {
                        assert(out@[j] == before[j - 1]);
                    } else {
                        assert(out@[i] == before[i - 1] && out@[j] == before[j - 1]);
                    }
                }
                assert forall|i: int| 0 <= i < out@.len() implies listed(
                    v.players,
                    (#[trigger] out@[i]).0 as int,
                ) && out@[i].0 <= idx + 1 && out@[i].1 == score_of(
                    v.entries,
                    v.players,
                    curve@,
                    v.records,
                    out@[i].0,
                ) by {
                    if i < pos {
                        assert(out@[i] == before[i]);
                    } else if i > pos {
                        assert(out@[i] == before[i - 1]);
                    }
                }
                assert forall|q: int| 1 <= q <= idx + 1 && listed(v.players, q) implies exists|i: int|
                    0 <= i < out@.len() && (#[trigger] out@[i]).0 == q by {
                    if q == id {
                        assert(out@[pos as int].0 == q);
                    } else {
                        let i0 = choose|i: int| 0 <= i < before.len() && (#[trigger] before[i]).0 == q;
                        if i0 < pos {
                            assert(out@[i0].0 == q);
                        } else {
                            assert(out@[i0 + 1].0 == q);
                        }
                    }
                }
            }
            idx = idx + 1;
        }
        out
    }

    /// Registers a player and returns the new id.
    pub fn register_player(&mut self, name: String) -> (r: usize)
        requires
            old(self).wf(),
            old(self)@.players.len() < usize::MAX,
        ensures
            final(self).wf(),
            r == old(self)@.players.len() + 1,
            final(self)@.players.len() == r,
            final(self)@.players.drop_last() == old(self)@.players,
            final(self)@.players.last().name == name,
            !final(self)@.players.last().banned,
            final(self)@.entries == old(self)@.entries,
            final(self)@.records == old(self)@.records,
            final(self)@.gens == (GenerationsView {
                rankings: next_gen(old(self)@.gens.rankings),
                players: old(self)@.gens.players.push(0),
                ..old(self)@.gens
            }),
    {
        let id = self.players.len() + 1;
        self.players.push(Player { id, name, banned: false });
        self.gens.add_player();
        self.gens.bump_rankings();
        assert(self@.players.drop_last() =~= old(self)@.players);
        id
    }

    /// The player with id `player`.
    pub fn player(&self, player: usize) -> (r: Result<&Player, ListError>)
        ensures
            1 <= player <= self@.players.len() ==> r == Ok::<&Player, ListError>(
                &self@.players[player - 1],
            ),
            !(1 <= player <= self@.players.len()) ==> r == Err::<&Player, ListError>(
                ListError::NotFound,
            ),
    {
        if 1 <= player && player <= self.players.len() {
            Ok(&self.players[player - 1])
        } else {
            Err(ListError::NotFound)
        }
    }

    /// Bans or unbans player `player`.
    pub fn set_banned(&mut self, player: usize, banned: bool) -> (r: Result<(), ListError>)
        requires
            old(self).wf(),
        ensures
            final(self).wf(),
            !(1 <= player <= old(self)@.players.len()) ==> r == Err::<(), ListError>(
                ListError::NotFound,
            ) && final(self)@ == old(self)@,
            1 <= player <= old(self)@.players.len() ==> {
                &&& r == Ok::<(), ListError>(())
                &&& final(self)@.players.len() == old(self)@.players.len()
                &&& forall|i: int|
                    0 <= i < old(self)@.players.len() && i != player - 1
                        ==> #[trigger] final(self)@.players[i] == old(self)@.players[i]
                &&& final(self)@.players[player - 1].banned == banned
                &&& final(self)@.players[player - 1].id == player
                &&& final(self)@.players[player - 1].name == old(self)@.players[player - 1].name
                &&& final(self)@.entries == old(self)@.entries
                &&& final(self)@.records == old(self)@.records
                &&& final(self)@.gens == (GenerationsView {
                    records: old(self)@.gens.records,
                    ..touched(old(self)@.gens, player, true)
                })
            },
    {
        if player < 1 || player > self.players.len() {
            return Err(ListError::NotFound);
        }
        self.players[player - 1].banned = banned;
        self.gens.bump_rankings();
        self.gens.bump_player(player);
        Ok(())
    }
}

} // verus!
