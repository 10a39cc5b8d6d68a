use vstd::prelude::*;

verus! {

/// Where a record stands in its review.
#[derive(Debug, Clone, Copy, PartialEq, Eq, Structural)]
pub enum RecordStatus {
    Submitted,
    UnderConsideration,
    Approved,
    Rejected,
}

/// A named permission, from the weakest to the strongest; each includes the
/// ones below it.
#[derive(Debug, Clone, Copy, PartialEq, Eq, Structural)]
pub enum Capability {
    ListHelper,
    ListModerator,
    ListAdministrator,
    Administrator,
}

pub open spec fn rank(c: Capability) -> int {
    match c {
        Capability::ListHelper => 1,
        Capability::ListModerator => 2,
        Capability::ListAdministrator => 3,
        Capability::Administrator => 4,
    }
}

impl Capability {
    /// Whether holding `self` grants `wanted`.
    pub fn includes(&self, wanted: Capability) -> (r: bool)
        ensures
            r == (rank(*self) >= rank(wanted)),
    {
        let a: u8 = match self {
            Capability::ListHelper => 1,
            Capability::ListModerator => 2,
            Capability::ListAdministrator => 3,
            Capability::Administrator => 4,
        };
        let b: u8 = match wanted {
            Capability::ListHelper => 1,
            Capability::ListModerator => 2,
            Capability::ListAdministrator => 3,
            Capability::Administrator => 4,
        };
        a >= b
    }
}

/// Someone acting on records, with the capabilities granted to them.
pub struct Reviewer {
    pub id: u64,
    pub granted: Vec<Capability>,
}

pub open spec fn grants(granted: Seq<Capability>, wanted: Capability) -> bool {
    exists|i: int| 0 <= i < granted.len() && rank(#[trigger] granted[i]) >= rank(wanted)
}

impl Reviewer {
    pub fn new(id: u64, granted: Vec<Capability>) -> (r: Reviewer)
        ensures
            r.id == id,
            r.granted@ == granted@,
    {
        Reviewer { id, granted }
    }

    /// Whether some capability granted here includes `wanted`.
    pub fn has_capability(&self, wanted: Capability) -> (r: bool)
        ensures
            r == grants(self.granted@, wanted),
    {
        let mut i: usize = 0;
        while i < self.granted.len()
            invariant
                i <= self.granted@.len(),
                forall|k: int| 0 <= k < i ==> rank(#[trigger] self.granted@[k]) < rank(wanted),
            decreases self.granted@.len() - i,
        {
            if self.granted[i].includes(wanted) {
                return true;
            }
            i = i + 1;
        }
        false
    }
}

/// A registered player. Player ids are 1-based and assigned in order of
/// registration.
pub struct Player {
    pub id: usize,
    pub name: String,
    pub banned: bool,
}

/// A staff member's annotation on a record.
pub struct Note {
    pub author: u64,
    pub text: String,
}

/// A player's claimed progress on an entry. Record ids are 1-based and
/// assigned in order of submission.
pub struct Record {
    pub id: usize,
    pub entry_id: u64,
    pub player_id: usize,
    pub progress: u64,
    pub status: RecordStatus,
    pub submitter_id: u64,
    pub notes: Vec<Note>,
}

impl Record {
    pub open spec fn same_pair(&self, o: Record) -> bool {
        self.player_id == o.player_id && self.entry_id == o.entry_id
    }
}

/// `r` with its status set to `s`.
pub open spec fn with_status(r: Record, s: RecordStatus) -> Record {
    Record {
        id: r.id,
        entry_id: r.entry_id,
        player_id: r.player_id,
        progress: r.progress,
        status: s,
        submitter_id: r.submitter_id,
        notes: r.notes,
    }
}

/// Record ids follow the index, and no (player, entry) pair holds two approved
/// records.
pub open spec fn records_wf(s: Seq<Record>) -> bool {
    &&& forall|i: int| 0 <= i < s.len() ==> #[trigger] s[i].id == i + 1
    &&& forall|i: int, j: int|
        #![trigger s[i].status, s[j].status]
        0 <= i < s.len() && 0 <= j < s.len() && s[i].status == RecordStatus::Approved
            && s[j].status == RecordStatus::Approved && s[i].same_pair(s[j]) ==> i == j
}

/// Whether an approved record of `s` for the pair of `player` and `entry`
/// has at least `progress`.
pub open spec fn approved_at_least(s: Seq<Record>, player: usize, entry: u64, progress: int) -> bool {
    exists|i: int|
        0 <= i < s.len() && (#[trigger] s[i]).status == RecordStatus::Approved && s[i].player_id
            == player && s[i].entry_id == entry && s[i].progress >= progress
}

/// The records after approving the one at index `k`: any other approved
/// record for the same pair is demoted to rejected.
pub open spec fn approved(s: Seq<Record>, k: int) -> Seq<Record> {
    s.map(
        |i: int, r: Record|
            if i == k {
                with_status(r, RecordStatus::Approved)
            } else if r.same_pair(s[k]) && r.status == RecordStatus::Approved {
                with_status(r, RecordStatus::Rejected)
            } else {
                r
            },
    )
}

/// Approving keeps record ids and leaves at most one approved record per pair.
pub proof fn lemma_approved_wf(s: Seq<Record>, k: int)
    requires
        records_wf(s),
        0 <= k < s.len(),
    ensures
        records_wf(approved(s, k)),
        approved(s, k).len() == s.len(),
{
    let a = approved(s, k);
    assert forall|i: int| 0 <= i < a.len() implies #[trigger] a[i].id == i + 1 by {
        assert(a[i].id == s[i].id);
    }
    assert forall|i: int, j: int|
        0 <= i < a.len() && 0 <= j < a.len() && a[i].status == RecordStatus::Approved
            && a[j].status == RecordStatus::Approved && a[i].same_pair(a[j]) implies i == j by {
        if i != k && j != k {
            assert(s[i].status == RecordStatus::Approved);
            assert(s[j].status == RecordStatus::Approved);
        }
    }
}

/// Setting one record to a status other than approved keeps the records
/// well-formed.
pub proof fn lemma_status_wf(s: Seq<Record>, k: int, st: RecordStatus)
    requires
        records_wf(s),
        0 <= k < s.len(),
        st != RecordStatus::Approved,
    ensures
        records_wf(s.update(k, with_status(s[k], st))),
{
    let a = s.update(k, with_status(s[k], st));
    assert forall|i: int| 0 <= i < a.len() implies #[trigger] a[i].id == i + 1 by {
        assert(a[i].id == s[i].id);
    }
    assert forall|i: int, j: int|
        0 <= i < a.len() && 0 <= j < a.len() && a[i].status == RecordStatus::Approved
            && a[j].status == RecordStatus::Approved && a[i].same_pair(a[j]) implies i == j by {
        assert(a[i] == s[i]);
        assert(a[j] == s[j]);
    }
}

} // verus!
