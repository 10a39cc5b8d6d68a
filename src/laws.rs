use vstd::prelude::*;

use crate::cache::{fingerprint_of, GenerationsView, Resource, ResourceClass};
use crate::error::ListError;
use crate::list::{approve_result, decide_result, reordered, touched, DemonlistView};
use crate::ordering::Entry;
use crate::records::{approved, records_wf, with_status, Player, Record, RecordStatus};
use crate::score::{record_points, score_of};

verus! {

/// Changing one record changes a score by the difference of that record's
/// points.
pub proof fn lemma_score_update(
    entries: Seq<Entry>,
    players: Seq<Player>,
    c: Seq<Seq<u64>>,
    recs: Seq<Record>,
    k: int,
    x: Record,
    p: usize,
)
    requires
        0 <= k < recs.len(),
    ensures
        score_of(entries, players, c, recs.update(k, x), p) == score_of(entries, players, c, recs, p)
            - record_points(entries, players, c, recs[k], p) + record_points(entries, players, c, x, p),
    decreases recs.len(),
{
    let u = recs.update(k, x);
    if k == recs.len() - 1 {
        assert(u.drop_last() =~= recs.drop_last());
    } else {
        assert(u.drop_last() =~= recs.drop_last().update(k, x));
        lemma_score_update(entries, players, c, recs.drop_last(), k, x, p);
    }
}

/// Approving a pending record while the same player already holds an
/// approved record on the same entry with at least as much progress fails
/// with `Conflict`; the better record is not demoted.
pub proof fn law_approve_worse_conflicts(v: DemonlistView, rid: usize, other: int)
    requires
        1 <= rid <= v.records.len(),
        0 <= other < v.records.len(),
        v.records[rid - 1].status != RecordStatus::Approved,
        v.records[rid - 1].status != RecordStatus::Rejected,
        v.records[other].status == RecordStatus::Approved,
        v.records[other].same_pair(v.records[rid - 1]),
        v.records[other].progress >= v.records[rid - 1].progress,
    ensures
        approve_result(v, rid, true) == Err::<bool, ListError>(ListError::Conflict),
{
    let r = v.records[rid - 1];
    assert(v.records[other].status == RecordStatus::Approved && v.records[other].player_id
        == r.player_id && v.records[other].entry_id == r.entry_id && v.records[other].progress
        >= r.progress);
}

/// Rejecting a pending record leaves every score unchanged.
pub proof fn law_reject_keeps_score(v: DemonlistView, rid: usize, c: Seq<Seq<u64>>, p: usize)
    requires
        decide_result(v, rid, true, RecordStatus::Rejected) == Ok::<bool, ListError>(true),
    ensures
        score_of(
            v.entries,
            v.players,
            c,
            v.records.update(rid - 1, with_status(v.records[rid - 1], RecordStatus::Rejected)),
            p,
        ) == score_of(v.entries, v.players, c, v.records, p),
{
    lemma_score_update(
        v.entries,
        v.players,
        c,
        v.records,
        rid - 1,
        with_status(v.records[rid - 1], RecordStatus::Rejected),
        p,
    );
}

/// Approving a record where the pair of player and entry held no approved
/// record adds exactly the new record's points to a score.
pub proof fn law_approve_adds_points(v: DemonlistView, rid: usize, c: Seq<Seq<u64>>, p: usize)
    requires
        approve_result(v, rid, true) == Ok::<bool, ListError>(true),
        forall|i: int|
            0 <= i < v.records.len() && (#[trigger] v.records[i]).same_pair(v.records[rid - 1])
                ==> v.records[i].status != RecordStatus::Approved,
    ensures
        score_of(v.entries, v.players, c, approved(v.records, rid - 1), p) == score_of(
            v.entries,
            v.players,
            c,
            v.records,
            p,
        ) + record_points(
            v.entries,
            v.players,
            c,
            with_status(v.records[rid - 1], RecordStatus::Approved),
            p,
        ),
{
    let k = rid - 1;
    let x = with_status(v.records[k], RecordStatus::Approved);
    assert(approved(v.records, k) =~= v.records.update(k, x));
    lemma_score_update(v.entries, v.players, c, v.records, k, x, p);
}

/// Approving a record that beats the pair's approved record at index `d`
/// replaces that record's points with the new record's.
pub proof fn law_approve_replaces_points(
    v: DemonlistView,
    rid: usize,
    d: int,
    c: Seq<Seq<u64>>,
    p: usize,
)
    requires
        records_wf(v.records),
        approve_result(v, rid, true) == Ok::<bool, ListError>(true),
        0 <= d < v.records.len(),
        v.records[d].status == RecordStatus::Approved,
        v.records[d].same_pair(v.records[rid - 1]),
    ensures
        score_of(v.entries, v.players, c, approved(v.records, rid - 1), p) == score_of(
            v.entries,
            v.players,
            c,
            v.records,
            p,
        ) + record_points(
            v.entries,
            v.players,
            c,
            with_status(v.records[rid - 1], RecordStatus::Approved),
            p,
        ) - record_points(v.entries, v.players, c, v.records[d], p),
{
    let k = rid - 1;
    let x = with_status(v.records[k], RecordStatus::Approved);
    let y = with_status(v.records[d], RecordStatus::Rejected);
    let u = v.records.update(k, x);
    assert(d != k);
    assert forall|i: int|
        0 <= i < v.records.len() && i != k && i != d && (#[trigger] v.records[i]).same_pair(
            v.records[k],
        ) implies v.records[i].status != RecordStatus::Approved by {
        if v.records[i].status == RecordStatus::Approved {
            assert(v.records[i].same_pair(v.records[d]));
        }
    }
    assert(approved(v.records, k) =~= u.update(d, y));
    lemma_score_update(v.entries, v.players, c, v.records, k, x, p);
    lemma_score_update(v.entries, v.players, c, u, d, y, p);
}

/// A change to the order of entries changes the fingerprint of every
/// resource, since every response depends on positions.
pub proof fn law_reorder_invalidates(g: GenerationsView, res: Resource)
    requires
        g.entries < u64::MAX,
    ensures
        fingerprint_of(reordered(g), res) != fingerprint_of(g, res),
{
}

/// A change to the records of player `p` changes the fingerprints of the
/// record listings and of that player's profile (and of the ranking where
/// scores moved), and of nothing else.
pub proof fn law_record_change_invalidates(g: GenerationsView, p: usize, scores: bool, res: Resource)
    requires
        g.records < u64::MAX,
        g.rankings < u64::MAX,
        1 <= p <= g.players.len(),
        g.players[p - 1] < u64::MAX,
    ensures
        (res.class == ResourceClass::Records || res.class == ResourceClass::Player(p) || (scores
            && res.class == ResourceClass::Rankings)) ==> fingerprint_of(touched(g, p, scores), res)
            != fingerprint_of(g, res),
        !(res.class == ResourceClass::Records || res.class == ResourceClass::Player(p) || (scores
            && res.class == ResourceClass::Rankings)) ==> fingerprint_of(touched(g, p, scores), res)
            == fingerprint_of(g, res),
{
}

} // verus!
