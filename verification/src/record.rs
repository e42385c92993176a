//! The per-player record: one player's contribution to one match.

use vstd::prelude::*;

verus! {

/// Mathematical model of a [`PlayerStats`] record: every field as a plain
/// value, strings as character sequences.
pub struct RecordModel {
    pub name: Seq<char>,
    pub platform: Seq<char>,
    pub platform_id: u64,
    pub team: i32,
    pub games_played: i32,
    pub mvp: bool,
    pub points: i32,
    pub goals: i32,
    pub assists: i32,
    pub saves: i32,
    pub shots: i32,
}

/// One player's statistics for one match.
///
/// `team` is 0 or 1 for a real player and -1 for an unfilled padding slot;
/// `games_played` is 1 for a real per-match record and 0 for padding.
pub struct PlayerStats {
    pub name: String,
    pub platform: String,
    pub platform_id: u64,
    pub team: i32,
    pub games_played: i32,
    pub mvp: bool,
    pub points: i32,
    pub goals: i32,
    pub assists: i32,
    pub saves: i32,
    pub shots: i32,
}

impl View for PlayerStats {
    type V = RecordModel;

    open spec fn view(&self) -> RecordModel {
        RecordModel {
            name: self.name@,
            platform: self.platform@,
            platform_id: self.platform_id,
            team: self.team,
            games_played: self.games_played,
            mvp: self.mvp,
            points: self.points,
            goals: self.goals,
            assists: self.assists,
            saves: self.saves,
            shots: self.shots,
        }
    }
}

/// The models of a sequence of records, in order.
pub open spec fn models(s: Seq<PlayerStats>) -> Seq<RecordModel> {
    s.map(|i: int, p: PlayerStats| p@)
}

/// The model of a default-valued record: empty strings, zero counters,
/// team -1 (no team), not a player of any game.
pub open spec fn default_record() -> RecordModel {
    RecordModel {
        name: Seq::<char>::empty(),
        platform: Seq::<char>::empty(),
        platform_id: 0,
        team: -1i32,
        games_played: 0,
        mvp: false,
        points: 0,
        goals: 0,
        assists: 0,
        saves: 0,
        shots: 0,
    }
}

impl PlayerStats {
    /// A default-valued record, also used as a padding row.
    pub fn default() -> (r: PlayerStats)
        ensures
            r@ == default_record(),
    {
        PlayerStats {
            name: String::new(),
            platform: String::new(),
            platform_id: 0,
            team: -1,
            games_played: 0,
            mvp: false,
            points: 0,
            goals: 0,
            assists: 0,
            saves: 0,
            shots: 0,
        }
    }
}

impl Clone for PlayerStats {
    fn clone(&self) -> (r: PlayerStats)
        ensures
            r@ == self@,
    {
        PlayerStats {
            name: self.name.clone(),
            platform: self.platform.clone(),
            platform_id: self.platform_id,
            team: self.team,
            games_played: self.games_played,
            mvp: self.mvp,
            points: self.points,
            goals: self.goals,
            assists: self.assists,
            saves: self.saves,
            shots: self.shots,
        }
    }
}

} // verus!
