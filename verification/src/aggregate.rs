//! Batch aggregation: fold every replay of a run into one ordered table,
//! exactly six rows per match, failing fast on the first bad replay.

use vstd::prelude::*;
use crate::error::ReplayError;
use crate::extract::{
    get_player_stats_property,
    get_stats_from_player_stats,
    get_winning_team,
    records_of_prop,
    root_int,
    spec_winner,
};
use crate::mvp::mark_mvp;
use crate::parse::{parse_replay_data, parsed_replay};
use crate::props::{lookup_root, str_eq, RootProp};
use crate::record::{default_record, models, PlayerStats, RecordModel};

verus! {

/// The number of rows every processed match contributes to the table.
pub const ROSTER_SIZE: usize = 6;

/// One match's records padded with default rows up to the fixed roster
/// size; a match that already has that many real records gains nothing.
pub open spec fn padded_block(recs: Seq<RecordModel>) -> Seq<RecordModel> {
    if recs.len() >= ROSTER_SIZE {
        recs
    } else {
        recs + Seq::new((ROSTER_SIZE - recs.len()) as nat, |i: int| default_record())
    }
}

/// The rows one replay's properties contribute: its player records with
/// the most valuable player of its match marked, padded to the roster
/// size — or nothing when the `"PlayerStats"` property is missing.
pub open spec fn match_rows(props: Seq<(String, RootProp)>) -> Option<Seq<RecordModel>> {
    match lookup_root(props, "PlayerStats"@) {
        Some(p) => Some(
            padded_block(
                mark_mvp(
                    records_of_prop(p),
                    spec_winner(root_int(props, "Team0Score"@), root_int(props, "Team1Score"@)),
                ),
            ),
        ),
        None => None,
    }
}

/// What a batch run yields from file `i` on: the concatenated blocks of
/// the remaining replays, or the first failure.
pub open spec fn spec_batch_from(files: Seq<Seq<u8>>, i: int) -> Result<
    Seq<RecordModel>,
    ReplayError,
>
    decreases files.len() - i
        when 0 <= i <= files.len()
{
    if i < 0 || i >= files.len() {
        Ok(Seq::<RecordModel>::empty())
    } else {
        match parsed_replay(files[i]) {
            None => Err(ReplayError::Parse),
            Some(props) => match match_rows(props) {
                None => Err(ReplayError::MissingProperty),
                Some(rows) => match spec_batch_from(files, i + 1) {
                    Ok(rest) => Ok(rows + rest),
                    Err(e) => Err(e),
                },
            },
        }
    }
}

/// What a whole batch run yields: every replay's rows in file order, or
/// the first failure, which aborts the run with no partial result.
pub open spec fn spec_batch(files: Seq<Seq<u8>>) -> Result<Seq<RecordModel>, ReplayError> {
    spec_batch_from(files, 0)
}

/// The byte contents of each file of a batch, in processing order.
pub open spec fn file_views(files: Seq<Vec<u8>>) -> Seq<Seq<u8>> {
    files.map(|i: int, f: Vec<u8>| f@)
}

/// Append one match's records to the table, then default-valued padding
/// rows until the match has contributed exactly the roster size — or no
/// padding at all when it already has more real records than that.
pub fn append_match(table: &mut Vec<PlayerStats>, stats: Vec<PlayerStats>)
    ensures
        models(final(table)@) == models(old(table)@) + padded_block(models(stats@)),
{
    let ghost start = models(old(table)@);
    let ghost block = padded_block(models(stats@));
    let real_count = stats.len();
    let mut i: usize = 0;
    let mut stats = stats;
    while i < stats.len()
        invariant
            stats@.len() == real_count,
            i <= real_count,
            models(table@) =~= start + models(stats@).take(i as int),
        decreases stats@.len() - i,
    {
        let ghost prev = table@;
        table.push(stats[i].clone());
        proof {
            assert(models(table@) =~= models(prev).push(stats@[i as int]@));
            assert(models(stats@).take(i + 1) =~= models(stats@).take(i as int).push(
                stats@[i as int]@,
            ));
            assert(models(table@) =~= start + models(stats@).take(i + 1));
        }
        i += 1;
    }
    proof {
        assert(models(stats@).take(real_count as int) =~= models(stats@));
    }
    let padding = if real_count >= ROSTER_SIZE {
        0
    } else {
        ROSTER_SIZE - real_count
    };
    let mut p: usize = 0;
    while p < padding
        invariant
            padding == if real_count >= ROSTER_SIZE {
                0int
            } else {
                ROSTER_SIZE - real_count
            },
            p <= padding,
            models(table@) =~= start + models(stats@) + Seq::new(
                p as nat,
                |k: int| default_record(),
            ),
        decreases padding - p,
    {
        let ghost prev = table@;
        table.push(PlayerStats::default());
        proof {
            assert(models(table@) =~= models(prev).push(default_record()));
            assert(Seq::new((p + 1) as nat, |k: int| default_record()) =~= Seq::new(
                p as nat,
                |k: int| default_record(),
            ).push(default_record()));
            assert(models(table@) =~= start + models(stats@) + Seq::new(
                (p + 1) as nat,
                |k: int| default_record(),
            ));
        }
        p += 1;
    }
    proof {
        assert(models(table@) =~= start + block);
    }
}

/// Process one replay's bytes into its six table rows: parse, find the
/// `"PlayerStats"` property, resolve the winner, mark the most valuable
/// player, pad.  Fails exactly when the parser rejects the bytes or the
/// property is missing.
pub fn process_replay(data: &[u8]) -> (r: Result<Vec<PlayerStats>, ReplayError>)
    ensures
        match r {
            Ok(v) => parsed_replay(data@) matches Some(props) && match_rows(props) == Some(
                models(v@),
            ),
            Err(e) => match parsed_replay(data@) {
                None => e is Parse,
                Some(props) => e is MissingProperty && match_rows(props) is None,
            },
        },
{
    let props = match parse_replay_data(data) {
        Ok(p) => p,
        Err(e) => {
            return Err(e);
        },
    };
    let stats_prop = match get_player_stats_property(&props) {
        Ok(p) => p,
        Err(e) => {
            return Err(e);
        },
    };
    let winning_team = get_winning_team(&props);
    let stats = get_stats_from_player_stats(stats_prop, winning_team);
    let mut block: Vec<PlayerStats> = Vec::new();
    append_match(&mut block, stats);
    proof {
        assert(models(Seq::<PlayerStats>::empty()) =~= Seq::<RecordModel>::empty());
        assert(models(block@) =~= match_rows(parsed_replay(data@)->Some_0)->Some_0);
    }
    Ok(block)
}

/// Aggregate a whole batch: every replay's rows in file order, each match
/// contributing exactly the roster size of rows, aborting on the first
/// replay that fails to parse or has no `"PlayerStats"` property.
pub fn aggregate_replays(files: &Vec<Vec<u8>>) -> (r: Result<Vec<PlayerStats>, ReplayError>)
    ensures
        match r {
            Ok(v) => spec_batch(file_views(files@)) == Ok::<Seq<RecordModel>, ReplayError>(
                models(v@),
            ),
            Err(e) => spec_batch(file_views(files@)) == Err::<Seq<RecordModel>, ReplayError>(e),
        },
{
    let ghost fv = file_views(files@);
    let mut table: Vec<PlayerStats> = Vec::new();
    let mut idx: usize = 0;
    proof {
        assert(models(table@) =~= Seq::<RecordModel>::empty());
    }
    while idx < files.len()
        invariant
            fv == file_views(files@),
            fv.len() == files@.len(),
            idx <= files@.len(),
            match spec_batch_from(fv, idx as int) {
                Ok(rest) => spec_batch(fv) == Ok::<Seq<RecordModel>, ReplayError>(
                    models(table@) + rest,
                ),
                Err(e) => spec_batch(fv) == Err::<Seq<RecordModel>, ReplayError>(e),
            },
        decreases files@.len() - idx,
    {
        proof {
            assert(fv[idx as int] == files@[idx as int]@);
        }
        match process_replay(files[idx].as_slice()) {
            Ok(block) => {
                let ghost before = models(table@);
                let ghost rows = models(block@);
                append_match(&mut table, block);
                proof {
                    assert(models(table@) == before + padded_block(rows));
                    assert(padded_block(rows) =~= rows);
                    if let Ok(rest) = spec_batch_from(fv, idx + 1) {
                        assert(spec_batch_from(fv, idx as int) == Ok::<Seq<RecordModel>, ReplayError>(
                            rows + rest,
                        ));
                        assert(before + (rows + rest) =~= (before + rows) + rest);
                    }
                }
            },
            Err(e) => {
                return Err(e);
            },
        }
        idx += 1;
    }
    proof {
        assert(spec_batch_from(fv, files@.len() as int) == Ok::<Seq<RecordModel>, ReplayError>(
            Seq::<RecordModel>::empty(),
        ));
        if let Ok(rest) = spec_batch_from(fv, files@.len() as int) {
            assert(models(table@) + rest =~= models(table@));
        }
    }
    Ok(table)
}

/// Whether a directory entry's name ends in the replay file extension.
pub open spec fn has_replay_extension(name: Seq<char>) -> bool {
    name.len() >= ".replay"@.len() && name.subrange(
        name.len() - ".replay"@.len(),
        name.len() as int,
    ) == ".replay"@
}

/// Decide whether a directory entry is a candidate replay file by its
/// name alone.
pub fn is_replay_file_name(name: &str) -> (r: bool)
    ensures
        r == has_replay_extension(name@),
{
    proof {
        reveal_strlit(".replay");
        assert(".replay"@.len() == 7);
    }
    let len = name.unicode_len();
    if len < 7 {
        return false;
    }
    let tail = name.substring_char(len - 7, len);
    str_eq(tail, ".replay")
}

/// Fixed contribution: padding never disturbs the real records, a
/// match with at most the roster size of real records contributes exactly
/// the roster size of rows, and every padding row is the default record.
/// A larger match keeps all its records and gains no padding.
pub proof fn lemma_block_shape(recs: Seq<RecordModel>)
    ensures
        recs.len() <= ROSTER_SIZE ==> padded_block(recs).len() == ROSTER_SIZE,
        recs.len() >= ROSTER_SIZE ==> padded_block(recs) == recs,
        forall|i: int| 0 <= i < recs.len() ==> padded_block(recs)[i] == recs[i],
        forall|i: int|
            recs.len() <= i < padded_block(recs).len() ==> padded_block(recs)[i]
                == default_record(),
{
}

} // verus!
