use vstd::prelude::*;

use crate::error::ListError;
use crate::ordering::{has_id, index_of, Entry};
use crate::records::{Player, Record, RecordStatus};

verus! {

/// The points of a record at `position` with `progress`: row `position - 1`,
/// column `progress` of the curve, and 0 off the table.
pub open spec fn contribution(c: Seq<Seq<u64>>, position: int, progress: int) -> int {
    if 1 <= position <= c.len() && 0 <= progress <= 100 {
        c[position - 1][progress] as int
    } else {
        0
    }
}

/// Each row holds the points for progress 0 to 100, never falling as progress
/// grows, and no row exceeds the one above it.
pub open spec fn curve_valid(c: Seq<Seq<u64>>) -> bool {
    &&& forall|i: int| 0 <= i < c.len() ==> (#[trigger] c[i]).len() == 101
    &&& forall|i: int, j: int| 0 <= i < c.len() && 1 <= j <= 100 ==> c[i][j - 1] <= #[trigger] c[i][j]
    &&& forall|i: int, j: int| 1 <= i < c.len() && 0 <= j <= 100 ==> #[trigger] c[i][j] <= c[i - 1][j]
}

/// What one record adds to the score of `player`: the contribution of an
/// approved record of that player, unbanned, on an entry that exists.
pub open spec fn record_points(
    entries: Seq<Entry>,
    players: Seq<Player>,
    c: Seq<Seq<u64>>,
    r: Record,
    player: usize,
) -> int {
    if r.player_id == player && r.status == RecordStatus::Approved && 1 <= player <= players.len()
        && !players[player - 1].banned && has_id(entries, r.entry_id) {
        contribution(c, entries[index_of(entries, r.entry_id)].position as int, r.progress as int)
    } else {
        0
    }
}

/// The score of `player`: the sum of `record_points` over `recs`.
pub open spec fn score_of(
    entries: Seq<Entry>,
    players: Seq<Player>,
    c: Seq<Seq<u64>>,
    recs: Seq<Record>,
    player: usize,
) -> int
    decreases recs.len(),
{
    if recs.len() == 0 {
        0
    } else {
        score_of(entries, players, c, recs.drop_last(), player) + record_points(
            entries,
            players,
            c,
            recs.last(),
            player,
        )
    }
}

/// Whether `a` ranks above `b`: a higher score, or an equal score and an
/// earlier registration.
pub open spec fn ranks_before(a: (usize, u128), b: (usize, u128)) -> bool {
    a.1 > b.1 || (a.1 == b.1 && a.0 < b.0)
}

/// Whether player `p` (1-based) exists and is not banned.
pub open spec fn listed(players: Seq<Player>, p: int) -> bool {
    1 <= p <= players.len() && !players[p - 1].banned
}

/// `r` is the ranking: every listed player once with the score, ordered by
/// `ranks_before`.
pub open spec fn is_ranking(
    r: Seq<(usize, u128)>,
    entries: Seq<Entry>,
    players: Seq<Player>,
    c: Seq<Seq<u64>>,
    recs: Seq<Record>,
) -> bool {
    &&& forall|i: int, j: int| 0 <= i < j < r.len() ==> ranks_before(#[trigger] r[i], #[trigger] r[j])
    &&& forall|i: int|
        0 <= i < r.len() ==> listed(players, (#[trigger] r[i]).0 as int) && r[i].1 == score_of(
            entries,
            players,
            c,
            recs,
            r[i].0,
        )
    &&& forall|p: int| listed(players, p) ==> exists|i: int| 0 <= i < r.len() && (#[trigger] r[i]).0 == p
}

/// The rows of a table as sequences.
pub open spec fn table_of(points: Seq<Vec<u64>>) -> Seq<Seq<u64>> {
    points.map(|i: int, r: Vec<u64>| r@)
}

/// The weighting that turns a position and a progress into points; supplied
/// by configuration.
pub struct ScoreCurve {
    points: Vec<Vec<u64>>,
}

impl View for ScoreCurve {
    type V = Seq<Seq<u64>>;

    closed spec fn view(&self) -> Seq<Seq<u64>> {
        table_of(self.points@)
    }
}

/// Whether `row` has 101 values that never fall, none above `above`'s.
fn row_ok(row: &Vec<u64>, above: Option<&Vec<u64>>) -> (r: bool)
    requires
        above.is_some() ==> above.unwrap()@.len() == 101,
    ensures
        r == {
            &&& row@.len() == 101
            &&& forall|j: int| 1 <= j <= 100 ==> row@[j - 1] <= #[trigger] row@[j]
            &&& above.is_some() ==> forall|j: int|
                0 <= j <= 100 ==> #[trigger] row@[j] <= above.unwrap()@[j]
        },
{
    if row.len() != 101 {
        return false;
    }
    let mut j: usize = 0;
    while j < 101
        invariant
            row@.len() == 101,
            above.is_some() ==> above.unwrap()@.len() == 101,
            j <= 101,
            forall|k: int| 1 <= k < j ==> row@[k - 1] <= #[trigger] row@[k],
            above.is_some() ==> forall|k: int| 0 <= k < j ==> #[trigger] row@[k] <= above.unwrap()@[k],
        decreases 101 - j,
    {
        if j > 0 && row[j - 1] > row[j] {
            return false;
        }
        match above {
            Some(a) => {
                if row[j] > a[j] {
                    return false;
                }
            },
            None => {},
        }
        j = j + 1;
    }
    true
}

impl ScoreCurve {
    pub open spec fn wf(&self) -> bool {
        curve_valid(self@)
    }

    /// A curve from its table: row `i` gives the points for progress 0 to 100
    /// at position `i + 1`. Fails with `ValidationError` unless the table is
    /// valid.
    pub fn new(points: Vec<Vec<u64>>) -> (r: Result<ScoreCurve, ListError>)
        ensures
            curve_valid(table_of(points@)) ==> r is Ok && r->Ok_0@ == table_of(points@),
            !curve_valid(table_of(points@)) ==> r == Err::<ScoreCurve, ListError>(
                ListError::ValidationError,
            ),
    {
        let mut i: usize = 0;
        while i < points.len()
            invariant
                i <= points@.len(),
                forall|k: int| 0 <= k < i ==> (#[trigger] points@[k])@.len() == 101,
                forall|k: int, j: int|
                    0 <= k < i && 1 <= j <= 100 ==> points@[k]@[j - 1] <= #[trigger] points@[k]@[j],
                forall|k: int, j: int|
                    1 <= k < i && 0 <= j <= 100 ==> #[trigger] points@[k]@[j] <= points@[k - 1]@[j],
            decreases points@.len() - i,
        {
            let above = if i == 0 {
                None
            } else {
                Some(&points[i - 1])
            };
            if !row_ok(&points[i], above) {
                assert(table_of(points@)[i as int] == points@[i as int]@);
                if i > 0 {
                    assert(table_of(points@)[i - 1] == points@[i - 1]@);
                }
                return Err(ListError::ValidationError);
            }
            i = i + 1;
        }
        assert forall|k: int| 0 <= k < points@.len() implies #[trigger] table_of(points@)[k]
            == points@[k]@ by {}
        Ok(ScoreCurve { points })
    }

    /// The points of a record at `position` with `progress`.
    pub fn points_at(&self, position: usize, progress: u64) -> (r: u64)
        requires
            self.wf(),
        ensures
            r == contribution(self@, position as int, progress as int),
    {
        if 1 <= position && position <= self.points.len() && progress <= 100 {
            assert(self@[position - 1] == self.points@[position - 1]@);
            self.points[position - 1][progress as usize]
        } else {
            0
        }
    }
}

} // verus!
