use vstd::prelude::*;

use crate::error::ListError;

verus! {

/// A ranked item of the list. `position` is 1-based; the store assigns it.
pub struct Entry {
    pub id: u64,
    pub position: usize,
    pub requirement: u64,
    pub name: String,
    pub publisher: u64,
    pub verifier: u64,
}

impl Entry {
    /// An entry that no store holds yet: its position is assigned on insertion.
    pub fn new(id: u64, requirement: u64, name: String, publisher: u64, verifier: u64) -> (r: Entry)
        ensures
            r.id == id,
            r.position == 0,
            r.requirement == requirement,
            r.name == name,
            r.publisher == publisher,
            r.verifier == verifier,
    {
        Entry { id, position: 0, requirement, name, publisher, verifier }
    }
}

/// `e` standing at position `p`.
pub open spec fn placed(e: Entry, p: int) -> Entry {
    Entry {
        id: e.id,
        position: p as usize,
        requirement: e.requirement,
        name: e.name,
        publisher: e.publisher,
        verifier: e.verifier,
    }
}

/// Every entry of `s` placed at its 1-based index.
pub open spec fn renumbered(s: Seq<Entry>) -> Seq<Entry> {
    s.map(|i: int, e: Entry| placed(e, i + 1))
}

/// The positions of `s` are exactly 1, ..., len in order.
pub open spec fn dense(s: Seq<Entry>) -> bool {
    forall|i: int| 0 <= i < s.len() ==> #[trigger] s[i].position == i + 1
}

/// No two entries of `s` share an id.
pub open spec fn unique_ids(s: Seq<Entry>) -> bool {
    forall|i: int, j: int|
        #![trigger s[i].id, s[j].id]
        0 <= i < s.len() && 0 <= j < s.len() && s[i].id == s[j].id ==> i == j
}

pub open spec fn has_id(s: Seq<Entry>, id: u64) -> bool {
    exists|i: int| 0 <= i < s.len() && #[trigger] s[i].id == id
}

/// The index of the entry with `id` (meaningful where `has_id(s, id)`).
pub open spec fn index_of(s: Seq<Entry>, id: u64) -> int {
    choose|i: int| 0 <= i < s.len() && #[trigger] s[i].id == id
}

pub open spec fn clamp(p: int, lo: int, hi: int) -> int {
    if p < lo {
        lo
    } else if p > hi {
        hi
    } else {
        p
    }
}

/// The order after inserting `e` at position `at`, clamped to `[1, len + 1]`.
pub open spec fn inserted(s: Seq<Entry>, e: Entry, at: int) -> Seq<Entry> {
    renumbered(s.insert(clamp(at, 1, s.len() + 1int) - 1, e))
}

/// The order after moving the entry at index `i` to position `to`, clamped to `[1, len]`.
pub open spec fn moved(s: Seq<Entry>, i: int, to: int) -> Seq<Entry> {
    renumbered(s.remove(i).insert(clamp(to, 1, s.len() as int) - 1, s[i]))
}

/// The order after removing the entry at index `i`.
pub open spec fn deleted(s: Seq<Entry>, i: int) -> Seq<Entry> {
    renumbered(s.remove(i))
}

/// Where the ids of `s` are unique, `index_of` finds the one index holding `id`.
pub proof fn lemma_index_of(s: Seq<Entry>, i: int)
    requires
        unique_ids(s),
        0 <= i < s.len(),
    ensures
        has_id(s, s[i].id),
        index_of(s, s[i].id) == i,
{
    let id = s[i].id;
    assert(s[i].id == id);
    let k = index_of(s, id);
    assert(s[k].id == s[i].id);
}

/// Renumbering changes neither the length nor the ids, and yields a dense order.
pub proof fn lemma_renumbered(s: Seq<Entry>)
    requires
        s.len() <= usize::MAX,
    ensures
        renumbered(s).len() == s.len(),
        dense(renumbered(s)),
        forall|i: int| 0 <= i < s.len() ==> (#[trigger] renumbered(s)[i]).id == s[i].id,
        unique_ids(s) ==> unique_ids(renumbered(s)),
{
    let r = renumbered(s);
    assert forall|i: int, j: int|
        0 <= i < r.len() && 0 <= j < r.len() && unique_ids(s) && r[i].id == r[j].id implies i == j by {
        assert(r[i].id == s[i].id);
        assert(r[j].id == s[j].id);
    }
}

/// A dense order is its own renumbering.
pub proof fn lemma_renumbered_dense(s: Seq<Entry>)
    requires
        dense(s),
    ensures
        renumbered(s) == s,
{
    assert forall|i: int| 0 <= i < s.len() implies #[trigger] renumbered(s)[i] == s[i] by {
        assert(s[i].position == i + 1);
    }
    assert(renumbered(s) =~= s);
}

/// Removing an entry keeps the ids unique, and its id no longer occurs.
pub proof fn lemma_remove_unique(s: Seq<Entry>, i: int)
    requires
        unique_ids(s),
        0 <= i < s.len(),
    ensures
        unique_ids(s.remove(i)),
        !has_id(s.remove(i), s[i].id),
{
    let r = s.remove(i);
    assert forall|a: int, b: int|
        0 <= a < r.len() && 0 <= b < r.len() && r[a].id == r[b].id implies a == b by {
        let a2 = if a < i { a } else { a + 1 };
        let b2 = if b < i { b } else { b + 1 };
        assert(r[a] == s[a2]);
        assert(r[b] == s[b2]);
    }
    if has_id(r, s[i].id) {
        let k = choose|k: int| 0 <= k < r.len() && #[trigger] r[k].id == s[i].id;
        let k2 = if k < i { k } else { k + 1 };
        assert(r[k] == s[k2]);
    }
}

/// Inserting an entry with a fresh id keeps the ids unique.
pub proof fn lemma_insert_unique(s: Seq<Entry>, k: int, e: Entry)
    requires
        unique_ids(s),
        !has_id(s, e.id),
        0 <= k <= s.len(),
    ensures
        unique_ids(s.insert(k, e)),
{
    let r = s.insert(k, e);
    assert forall|a: int, b: int|
        0 <= a < r.len() && 0 <= b < r.len() && r[a].id == r[b].id implies a == b by {
        if a != k {
            let a2 = if a < k { a } else { a - 1 };
            assert(r[a] == s[a2]);
        }
        if b != k {
            let b2 = if b < k { b } else { b - 1 };
            assert(r[b] == s[b2]);
        }
    }
}

/// The set of positions that the entries of `s` hold.
pub open spec fn positions(s: Seq<Entry>) -> Set<int> {
    Set::new(|p: int| exists|i: int| 0 <= i < s.len() && #[trigger] s[i].position == p)
}

/// A dense order (every insert, move and delete of a well-formed store or list
/// keeps its entries so) holds the positions 1 to N exactly, with no gap and no
/// position twice.
pub proof fn law_positions_exact(s: Seq<Entry>)
    requires
        dense(s),
    ensures
        positions(s) == Set::new(|p: int| 1 <= p <= s.len()),
        forall|i: int, j: int|
            0 <= i < s.len() && 0 <= j < s.len() && i != j ==> s[i].position != s[j].position,
{
    assert forall|p: int| #[trigger] positions(s).contains(p) <==> 1 <= p <= s.len() by {
        if 1 <= p <= s.len() {
            assert(s[p - 1].position == p);
        }
    }
    assert(positions(s) =~= Set::new(|p: int| 1 <= p <= s.len()));
}

/// Two insertions at the same position never collide: the later entry takes
/// the position and the earlier one stands right after it.
pub proof fn law_same_position_inserts_adjacent(s: Seq<Entry>, a: Entry, b: Entry, at: int)
    requires
        1 <= at <= s.len() + 1,
        s.len() + 2 <= usize::MAX,
    ensures
        inserted(inserted(s, a, at), b, at).len() == s.len() + 2,
        inserted(inserted(s, a, at), b, at)[at - 1].id == b.id,
        inserted(inserted(s, a, at), b, at)[at - 1].position == at,
        inserted(inserted(s, a, at), b, at)[at].id == a.id,
        inserted(inserted(s, a, at), b, at)[at].position == at + 1,
        dense(inserted(inserted(s, a, at), b, at)),
{
    let first = inserted(s, a, at);
    lemma_renumbered(s.insert(at - 1, a));
    assert(first[at - 1].id == a.id);
    lemma_renumbered(first.insert(at - 1, b));
    assert(first.insert(at - 1, b)[at] == first[at - 1]);
}

/// Moving an entry to a position and then moving it to the same position
/// again leaves the order as the first move left it.
pub proof fn law_move_idempotent(s: Seq<Entry>, id: u64, to: int)
    requires
        dense(s),
        unique_ids(s),
        has_id(s, id),
        s.len() <= usize::MAX,
    ensures
        has_id(moved(s, index_of(s, id), to), id),
        moved(moved(s, index_of(s, id), to), index_of(moved(s, index_of(s, id), to), id), to)
            == moved(s, index_of(s, id), to),
{
    let i = index_of(s, id);
    let t = clamp(to, 1, s.len() as int) - 1;
    let r = s.remove(i).insert(t, s[i]);
    let m1 = moved(s, i, to);
    lemma_remove_unique(s, i);
    lemma_insert_unique(s.remove(i), t, s[i]);
    lemma_renumbered(r);
    assert(m1[t].id == id);
    lemma_index_of(m1, t);
    assert(m1.remove(t).insert(t, m1[t]) =~= m1);
    lemma_renumbered_dense(m1);
}

/// An ordered set of entries whose positions stay exactly `1..=len`.
pub struct OrderingStore {
    entries: Vec<Entry>,
}

impl View for OrderingStore {
    type V = Seq<Entry>;

    closed spec fn view(&self) -> Seq<Entry> {
        self.entries@
    }
}

impl OrderingStore {
    /// Dense positions and unique ids.
    pub open spec fn wf(&self) -> bool {
        dense(self@) && unique_ids(self@)
    }

    pub fn new() -> (r: OrderingStore)
        ensures
            r@ == Seq::<Entry>::empty(),
            r.wf(),
    {
        OrderingStore { entries: Vec::new() }
    }

    pub fn len(&self) -> (r: usize)
        ensures
            r == self@.len(),
    {
        self.entries.len()
    }

    /// The index of the entry with `id`, if there is one.
    pub fn find(&self, id: u64) -> (r: Option<usize>)
        requires
            self.wf(),
        ensures
            r.is_some() <==> has_id(self@, id),
            r.is_some() ==> r.unwrap() == index_of(self@, id) && r.unwrap() < self@.len(),
    {
        let mut i: usize = 0;
        while i < self.entries.len()
            invariant
                i <= self@.len(),
                self@ == self.entries@,
                self.wf(),
                forall|k: int| 0 <= k < i ==> (#[trigger] self@[k]).id != id,
            decreases self@.len() - i,
        {
            if self.entries[i].id == id {
                proof {
                    lemma_index_of(self@, i as int);
                }
                return Some(i);
            }
            i = i + 1;
        }
        None
    }

    /// The entry at `position`.
    pub fn get(&self, position: usize) -> (r: Result<&Entry, ListError>)
        ensures
            1 <= position <= self@.len() ==> r == Ok::<&Entry, ListError>(&self@[position - 1]),
            !(1 <= position <= self@.len()) ==> r == Err::<&Entry, ListError>(ListError::NotFound),
    {
        if 1 <= position && position <= self.entries.len() {
            Ok(&self.entries[position - 1])
        } else {
            Err(ListError::NotFound)
        }
    }

    /// The entry with `id`.
    pub fn get_by_id(&self, id: u64) -> (r: Result<&Entry, ListError>)
        requires
            self.wf(),
        ensures
            has_id(self@, id) ==> r == Ok::<&Entry, ListError>(&self@[index_of(self@, id)]),
            !has_id(self@, id) ==> r == Err::<&Entry, ListError>(ListError::NotFound),
    {
        match self.find(id) {
            Some(i) => Ok(&self.entries[i]),
            None => Err(ListError::NotFound),
        }
    }

    /// Inserts `entry` at `at_position`, clamped to `[1, len + 1]`; the entries
    /// from there on move down by one. Returns the position taken.
    pub fn insert(&mut self, entry: Entry, at_position: usize) -> (r: Result<usize, ListError>)
        requires
            old(self).wf(),
        ensures
            final(self).wf(),
            at_position < 1 ==> r == Err::<usize, ListError>(ListError::ValidationError),
            at_position >= 1 && has_id(old(self)@, entry.id) ==> r == Err::<usize, ListError>(
                ListError::Conflict,
            ),
            r.is_err() ==> final(self)@ == old(self)@,
            at_position >= 1 && !has_id(old(self)@, entry.id) ==> {
                &&& r == Ok::<usize, ListError>(
                    clamp(at_position as int, 1, old(self)@.len() + 1int) as usize,
                )
                &&& final(self)@ == inserted(old(self)@, entry, at_position as int)
            },
    {
        if at_position < 1 {
            return Err(ListError::ValidationError);
        }
        if self.find(entry.id).is_some() {
            return Err(ListError::Conflict);
        }
        let n = self.entries.len();
        let idx: usize = if at_position > n {
            n
        } else {
            at_position - 1
        };
        proof {
            lemma_insert_unique(self@, idx as int, entry);
        }
        self.entries.insert(idx, entry);
        let m = self.entries.len();
        assert(idx + 1 <= m);
        proof {
            lemma_renumbered(self.entries@);
        }
        self.renumber();
        Ok(idx + 1)
    }

    /// Moves the entry with `id` to `to_position`, clamped to `[1, len]`; the
    /// entries in between close the gap. Returns the position taken.
    pub fn move_to(&mut self, id: u64, to_position: usize) -> (r: Result<usize, ListError>)
        requires
            old(self).wf(),
        ensures
            final(self).wf(),
            !has_id(old(self)@, id) ==> r == Err::<usize, ListError>(ListError::NotFound)
                && final(self)@ == old(self)@,
            has_id(old(self)@, id) ==> {
                &&& r == Ok::<usize, ListError>(
                    clamp(to_position as int, 1, old(self)@.len() as int) as usize,
                )
                &&& final(self)@ == moved(old(self)@, index_of(old(self)@, id), to_position as int)
            },
    {
        let i = match self.find(id) {
            Some(i) => i,
            None => {
                return Err(ListError::NotFound);
            },
        };
        let ghost s = self@;
        let n = self.entries.len();
        let t: usize = if to_position < 1 {
            0
        } else if to_position > n {
            n - 1
        } else {
            to_position - 1
        };
        if t == i {
            proof {
                assert(s.remove(i as int).insert(i as int, s[i as int]) =~= s);
                lemma_renumbered_dense(s);
            }
            return Ok(t + 1);
        }
        proof {
            lemma_remove_unique(s, i as int);
            lemma_insert_unique(s.remove(i as int), t as int, s[i as int]);
        }
        let e = self.entries.remove(i);
        self.entries.insert(t, e);
        proof {
            lemma_renumbered(self.entries@);
        }
        self.renumber();
        Ok(t + 1)
    }

    /// Removes the entry with `id` and returns it; the entries after it move
    /// up by one.
    pub fn delete(&mut self, id: u64) -> (r: Result<Entry, ListError>)
        requires
            old(self).wf(),
        ensures
            final(self).wf(),
            !has_id(old(self)@, id) ==> r == Err::<Entry, ListError>(ListError::NotFound)
                && final(self)@ == old(self)@,
            has_id(old(self)@, id) ==> {
                &&& r == Ok::<Entry, ListError>(old(self)@[index_of(old(self)@, id)])
                &&& final(self)@ == deleted(old(self)@, index_of(old(self)@, id))
            },
    {
        let i = match self.find(id) {
            Some(i) => i,
            None => {
                return Err(ListError::NotFound);
            },
        };
        proof {
            lemma_remove_unique(self@, i as int);
        }
        let n = self.entries.len();
        let e = self.entries.remove(i);
        assert(self.entries@.len() == n - 1);
        proof {
            lemma_renumbered(self.entries@);
        }
        self.renumber();
        Ok(e)
    }

    /// Sets every position to its 1-based index.
    fn renumber(&mut self)
        ensures
            final(self)@ == renumbered(old(self)@),
    {
        let ghost orig = self.entries@;
        let mut k: usize = 0;
        while k < self.entries.len()
            invariant
                self.entries@.len() == orig.len(),
                k <= orig.len(),
                forall|j: int| 0 <= j < k ==> #[trigger] self.entries@[j] == placed(orig[j], j + 1),
                forall|j: int| k <= j < orig.len() ==> #[trigger] self.entries@[j] == orig[j],
            decreases orig.len() - k,
        {
            self.entries[k].position = k + 1;
            k = k + 1;
        }
        assert(self.entries@ =~= renumbered(orig));
    }
}

} // verus!
