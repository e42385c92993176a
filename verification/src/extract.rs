//! Match extraction: from one replay's property tree to player records,
//! team scores and the winning team.

use vstd::prelude::*;
use crate::error::ReplayError;
use crate::props::{lookup_root, lookup_scalar, RootProp, ScalarProp, find_root, find_scalar};
use crate::mvp::{mark_mvp, set_mvp};
use crate::record::{models, PlayerStats, RecordModel};

verus! {

/// The record one player entry maps to: each field taken from the first
/// property of its source name when that property has the expected kind,
/// the default otherwise.  A real per-match record counts one game played.
pub open spec fn record_of_entry(entry: Seq<(String, ScalarProp)>) -> RecordModel {
    RecordModel {
        name: match lookup_scalar(entry, "Name"@) {
            Some(ScalarProp::Str(s)) => s@,
            _ => Seq::<char>::empty(),
        },
        platform: match lookup_scalar(entry, "Platform"@) {
            Some(ScalarProp::Flag) => "N/A"@,
            _ => Seq::<char>::empty(),
        },
        platform_id: match lookup_scalar(entry, "OnlineID"@) {
            Some(ScalarProp::QWord(n)) => n,
            _ => 0,
        },
        team: match lookup_scalar(entry, "Team"@) {
            Some(ScalarProp::Int(n)) => n,
            _ => -1i32,
        },
        games_played: 1,
        mvp: false,
        points: match lookup_scalar(entry, "Score"@) {
            Some(ScalarProp::Int(n)) => n,
            _ => 0,
        },
        goals: match lookup_scalar(entry, "Goals"@) {
            Some(ScalarProp::Int(n)) => n,
            _ => 0,
        },
        assists: match lookup_scalar(entry, "Assists"@) {
            Some(ScalarProp::Int(n)) => n,
            _ => 0,
        },
        saves: match lookup_scalar(entry, "Saves"@) {
            Some(ScalarProp::Int(n)) => n,
            _ => 0,
        },
        shots: match lookup_scalar(entry, "Shots"@) {
            Some(ScalarProp::Int(n)) => n,
            _ => 0,
        },
    }
}

/// Convert one player entry of the `"PlayerStats"` array to a record.
pub fn make_player_stats(entry: &Vec<(String, ScalarProp)>) -> (r: PlayerStats)
    ensures
        r@ == record_of_entry(entry@),
{
    let mut player = PlayerStats::default();
    player.games_played = 1;
    if let Some(ScalarProp::Str(s)) = find_scalar(entry, "Name") {
        player.name = s.clone();
    }
    if let Some(ScalarProp::Flag) = find_scalar(entry, "Platform") {
        player.platform = String::from_str("N/A");
    }
    if let Some(ScalarProp::QWord(n)) = find_scalar(entry, "OnlineID") {
        player.platform_id = *n;
    }
    if let Some(ScalarProp::Int(n)) = find_scalar(entry, "Team") {
        player.team = *n;
    }
    if let Some(ScalarProp::Int(n)) = find_scalar(entry, "Score") {
        player.points = *n;
    }
    if let Some(ScalarProp::Int(n)) = find_scalar(entry, "Goals") {
        player.goals = *n;
    }
    if let Some(ScalarProp::Int(n)) = find_scalar(entry, "Assists") {
        player.assists = *n;
    }
    if let Some(ScalarProp::Int(n)) = find_scalar(entry, "Saves") {
        player.saves = *n;
    }
    if let Some(ScalarProp::Int(n)) = find_scalar(entry, "Shots") {
        player.shots = *n;
    }
    player
}

/// The records a root property yields: one per array entry, none for a
/// scalar.
pub open spec fn records_of_prop(prop: RootProp) -> Seq<RecordModel> {
    match prop {
        RootProp::Array(entries) => entries@.map(
            |i: int, e: Vec<(String, ScalarProp)>| record_of_entry(e@),
        ),
        RootProp::Scalar(_) => Seq::<RecordModel>::empty(),
    }
}

/// Convert every entry of the `"PlayerStats"` value to a record, before
/// any most-valuable-player marking.
pub fn extract_records(prop: &RootProp) -> (r: Vec<PlayerStats>)
    ensures
        models(r@) == records_of_prop(*prop),
{
    let mut stats: Vec<PlayerStats> = Vec::new();
    match prop {
        RootProp::Array(entries) => {
            let mut i: usize = 0;
            while i < entries.len()
                invariant
                    i <= entries@.len(),
                    stats@.len() == i,
                    forall|j: int|
                        0 <= j < i ==> #[trigger] stats@[j]@ == record_of_entry(entries@[j]@),
                decreases entries@.len() - i,
            {
                stats.push(make_player_stats(&entries[i]));
                i += 1;
            }
            proof {
                assert(models(stats@) =~= records_of_prop(*prop));
            }
        },
        RootProp::Scalar(_) => {
            proof {
                assert(models(stats@) =~= records_of_prop(*prop));
            }
        },
    }
    stats
}

/// Convert the `"PlayerStats"` value to records and assign the most
/// valuable player of the match.
pub fn get_stats_from_player_stats(prop: &RootProp, winning_team: i32) -> (r: Vec<PlayerStats>)
    ensures
        models(r@) == mark_mvp(records_of_prop(*prop), winning_team),
{
    let stats = extract_records(prop);
    set_mvp(stats, winning_team)
}

/// The first `"PlayerStats"` property of the match root, or the error
/// that aborts the run when there is none.
pub fn get_player_stats_property<'a>(props: &'a Vec<(String, RootProp)>) -> (r: Result<
    &'a RootProp,
    ReplayError,
>)
    ensures
        match r {
            Ok(p) => lookup_root(props@, "PlayerStats"@) == Some(*p),
            Err(e) => e is MissingProperty && lookup_root(props@, "PlayerStats"@) is None,
        },
{
    match find_root(props, "PlayerStats") {
        Some(p) => Ok(p),
        None => Err(ReplayError::MissingProperty),
    }
}

/// The signed-integer value of the first root property named `name`, or 0
/// when it is absent or not a signed integer.
pub open spec fn root_int(props: Seq<(String, RootProp)>, name: Seq<char>) -> i32 {
    match lookup_root(props, name) {
        Some(RootProp::Scalar(ScalarProp::Int(v))) => v,
        _ => 0,
    }
}

/// The winning team for two team scores: team 1 wins only on a strictly
/// greater score, so ties go to team 0.
pub open spec fn spec_winner(team0: i32, team1: i32) -> i32 {
    if team0 < team1 {
        1i32
    } else {
        0i32
    }
}

/// Resolve the winner from the two team scores.
pub fn resolve_winner(team0_score: i32, team1_score: i32) -> (w: i32)
    ensures
        w == spec_winner(team0_score, team1_score),
{
    if team0_score < team1_score {
        1
    } else {
        0
    }
}

/// Read `Team0Score` and `Team1Score` from the match root (absent scores
/// default to 0) and resolve the winner.
pub fn get_winning_team(props: &Vec<(String, RootProp)>) -> (w: i32)
    ensures
        w == spec_winner(root_int(props@, "Team0Score"@), root_int(props@, "Team1Score"@)),
{
    let team_0_score: i32 = match find_root(props, "Team0Score") {
        Some(RootProp::Scalar(ScalarProp::Int(v))) => *v,
        _ => 0,
    };
    let team_1_score: i32 = match find_root(props, "Team1Score") {
        Some(RootProp::Scalar(ScalarProp::Int(v))) => *v,
        _ => 0,
    };
    resolve_winner(team_0_score, team_1_score)
}

} // verus!
