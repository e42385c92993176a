//! Most-valuable-player assignment.
//!
//! Scan the records belonging to the winning team and keep the one with
//! strictly greatest points (the first occurrence wins ties).  Then mark
//! the first record in the full list whose `platform_id` equals the
//! selected scorer's, and no other.  When the winning team has no player,
//! nothing is marked.

use vstd::prelude::*;
use crate::record::{models, PlayerStats, RecordModel};

verus! {

/// Left-to-right scan for the winning team's best scorer, carrying the
/// best record seen so far: a later record replaces it only with strictly
/// greater points.
pub open spec fn best_from(
    records: Seq<RecordModel>,
    winner: i32,
    acc: Option<RecordModel>,
) -> Option<RecordModel>
    decreases records.len(),
{
    if records.len() == 0 {
        acc
    } else {
        let replaces = records[0].team == winner && match acc {
            None => true,
            Some(b) => records[0].points > b.points,
        };
        best_from(
            records.drop_first(),
            winner,
            if replaces {
                Some(records[0])
            } else {
                acc
            },
        )
    }
}

/// The winning team's best scorer, if the winning team has a player.
pub open spec fn best_winner(records: Seq<RecordModel>, winner: i32) -> Option<RecordModel> {
    best_from(records, winner, None)
}

/// The first index whose record has the given `platform_id`, or
/// `records.len()` when no record has it.
pub open spec fn first_id_index(records: Seq<RecordModel>, id: u64) -> int
    decreases records.len(),
{
    if records.len() == 0 {
        0
    } else if records[0].platform_id == id {
        0
    } else {
        1 + first_id_index(records.drop_first(), id)
    }
}

/// `r` with its most-valuable flag set.
pub open spec fn marked(r: RecordModel) -> RecordModel {
    RecordModel { mvp: true, ..r }
}

/// The record list after most-valuable-player assignment: unchanged when
/// the winning team has no player, else the first record carrying the best
/// scorer's `platform_id` is marked.
pub open spec fn mark_mvp(records: Seq<RecordModel>, winner: i32) -> Seq<RecordModel> {
    match best_winner(records, winner) {
        None => records,
        Some(b) => {
            let j = first_id_index(records, b.platform_id);
            if j < records.len() {
                records.update(j, marked(records[j]))
            } else {
                records
            }
        },
    }
}

/// A scan that has not hit `id` in its first `j` records pins
/// `first_id_index` down: it is `j` exactly when record `j` matches, and
/// past `j` when none so far did.
proof fn lemma_first_id_index(records: Seq<RecordModel>, id: u64, j: int)
    requires
        0 <= j <= records.len(),
        forall|k: int| 0 <= k < j ==> records[k].platform_id != id,
    ensures
        j < records.len() && records[j].platform_id == id ==> first_id_index(records, id) == j,
        (forall|k: int| 0 <= k < records.len() ==> records[k].platform_id != id) ==> first_id_index(
            records,
            id,
        ) == records.len(),
        first_id_index(records, id) >= j,
    decreases records.len(),
{
    if records.len() == 0 {
    } else if j == 0 {
        if records[0].platform_id != id {
            lemma_first_id_index(records.drop_first(), id, 0);
        }
    } else {
        assert(records[0].platform_id != id);
        lemma_first_id_index(records.drop_first(), id, j - 1);
        assert forall|k: int| 0 <= k < j - 1 implies records.drop_first()[k].platform_id
            != id by {
            assert(records.drop_first()[k] == records[k + 1]);
        }
    }
}

/// Mark the most valuable player of one match's record list.
pub fn set_mvp(players: Vec<PlayerStats>, winning_team: i32) -> (r: Vec<PlayerStats>)
    ensures
        models(r@) == mark_mvp(models(players@), winning_team),
{
    let ghost ms = models(players@);
    let mut best: Option<(u64, i32)> = None;
    let ghost mut acc: Option<RecordModel> = None;
    let mut i: usize = 0;
    proof {
        assert(ms.skip(0) =~= ms);
    }
    while i < players.len()
        invariant
            ms == models(players@),
            ms.len() == players@.len(),
            i <= players@.len(),
            best_from(ms, winning_team, None) == best_from(ms.skip(i as int), winning_team, acc),
            match acc {
                None => best is None,
                Some(b) => best == Some((b.platform_id, b.points)),
            },
        decreases players@.len() - i,
    {
        proof {
            assert(ms.skip(i as int).drop_first() =~= ms.skip(i + 1));
            assert(ms.skip(i as int)[0] == ms[i as int]);
            assert(ms[i as int] == players@[i as int]@);
        }
        let replaces = players[i].team == winning_team && match best {
            None => true,
            Some((_, best_points)) => players[i].points > best_points,
        };
        if replaces {
            best = Some((players[i].platform_id, players[i].points));
            proof {
                acc = Some(ms[i as int]);
            }
        }
        i += 1;
    }
    proof {
        assert(ms.skip(players@.len() as int).len() == 0);
        assert(best_winner(ms, winning_team) == acc);
    }
    match best {
        None => {
            proof {
                assert(mark_mvp(ms, winning_team) == ms);
            }
            players
        },
        Some((best_id, _)) => {
            let ghost target = mark_mvp(ms, winning_team);
            let ghost fidx = first_id_index(ms, acc->Some_0.platform_id);
            proof {
                assert(acc->Some_0.platform_id == best_id);
            }
            let mut result: Vec<PlayerStats> = Vec::new();
            let mut done = false;
            let mut j: usize = 0;
            proof {
                lemma_first_id_index(ms, best_id, 0);
            }
            while j < players.len()
                invariant
                    ms == models(players@),
                    ms.len() == players@.len(),
                    j <= players@.len(),
                    result@.len() == j,
                    acc is Some,
                    acc->Some_0.platform_id == best_id,
                    target == mark_mvp(ms, winning_team),
                    0 <= fidx,
                    fidx == first_id_index(ms, best_id),
                    target == if fidx < ms.len() {
                        ms.update(fidx, marked(ms[fidx]))
                    } else {
                        ms
                    },
                    done <==> fidx < j,
                    !done ==> forall|k: int| 0 <= k < j ==> ms[k].platform_id != best_id,
                    forall|l: int| 0 <= l < j ==> #[trigger] result@[l]@ == target[l],
                decreases players@.len() - j,
            {
                proof {
                    assert(ms[j as int] == players@[j as int]@);
                }
                if !done && players[j].platform_id == best_id {
                    proof {
                        lemma_first_id_index(ms, best_id, j as int);
                        assert(fidx == j as int);
                    }
                    let mut p = players[j].clone();
                    p.mvp = true;
                    proof {
                        assert(p@ == marked(ms[j as int]));
                        assert(target[j as int] == marked(ms[j as int]));
                    }
                    result.push(p);
                    done = true;
                } else {
                    proof {
                        if !done {
                            lemma_first_id_index(ms, best_id, j + 1);
                            assert(fidx >= j + 1);
                        }
                        assert(fidx != j as int);
                        assert(target[j as int] == ms[j as int]);
                    }
                    result.push(players[j].clone());
                }
                j += 1;
            }
            proof {
                assert(target.len() == ms.len());
                assert(models(result@) =~= target);
            }
            result
        },
    }
}

/// Whether at most one record of `s` is marked most valuable.
pub open spec fn at_most_one_marked(s: Seq<RecordModel>) -> bool {
    forall|i: int, j: int|
        0 <= i < s.len() && 0 <= j < s.len() && (#[trigger] s[i]).mvp && (#[trigger] s[j]).mvp
            ==> i == j
}

/// At most one most valuable player: starting from a record list in
/// which no record is marked, assignment leaves at most one record marked.
pub proof fn lemma_at_most_one_mvp(records: Seq<RecordModel>, winner: i32)
    requires
        forall|i: int| 0 <= i < records.len() ==> !(#[trigger] records[i]).mvp,
    ensures
        at_most_one_marked(mark_mvp(records, winner)),
{
    match best_winner(records, winner) {
        None => {},
        Some(b) => {
            let j = first_id_index(records, b.platform_id);
            lemma_first_id_index(records, b.platform_id, 0);
            if j < records.len() {
                let res = records.update(j, marked(records[j]));
                assert forall|i: int| 0 <= i < res.len() && (#[trigger] res[i]).mvp implies i
                    == j by {
                    if i != j {
                        assert(res[i] == records[i]);
                    }
                }
            }
        },
    }
}

/// No winner, no mark: when the winning team has no player, the
/// record list comes back unchanged.
pub proof fn lemma_empty_winning_team(records: Seq<RecordModel>, winner: i32)
    requires
        forall|i: int| 0 <= i < records.len() ==> (#[trigger] records[i]).team != winner,
    ensures
        mark_mvp(records, winner) == records,
{
    lemma_best_from_none(records, winner);
}

/// The best-scorer scan never picks a record off the winning team, so with
/// no winning-team record it stays empty.
proof fn lemma_best_from_none(records: Seq<RecordModel>, winner: i32)
    requires
        forall|i: int| 0 <= i < records.len() ==> (#[trigger] records[i]).team != winner,
    ensures
        best_from(records, winner, None) is None,
    decreases records.len(),
{
    if records.len() > 0 {
        assert forall|k: int|
            0 <= k < records.drop_first().len() implies (#[trigger] records.drop_first()[k]).team
            != winner by {
            assert(records.drop_first()[k] == records[k + 1]);
        }
        lemma_best_from_none(records.drop_first(), winner);
    }
}

} // verus!
