use replay_stats::aggregate::{append_match, is_replay_file_name, process_replay};
use replay_stats::error::ReplayError;
use replay_stats::extract::{
    get_player_stats_property, get_stats_from_player_stats, get_winning_team, make_player_stats,
    resolve_winner,
};
use replay_stats::props::{RootProp, ScalarProp};
use replay_stats::record::PlayerStats;

fn entry(
    name: &str,
    id: u64,
    team: i32,
    points: i32,
    goals: i32,
    assists: i32,
    saves: i32,
    shots: i32,
) -> Vec<(String, ScalarProp)> {
    vec![
        ("Name".to_string(), ScalarProp::Str(name.to_string())),
        ("Platform".to_string(), ScalarProp::Flag),
        ("OnlineID".to_string(), ScalarProp::QWord(id)),
        ("Team".to_string(), ScalarProp::Int(team)),
        ("Score".to_string(), ScalarProp::Int(points)),
        ("Goals".to_string(), ScalarProp::Int(goals)),
        ("Assists".to_string(), ScalarProp::Int(assists)),
        ("Saves".to_string(), ScalarProp::Int(saves)),
        ("Shots".to_string(), ScalarProp::Int(shots)),
    ]
}

#[test]
fn winner_resolver_cases() {
    assert_eq!(resolve_winner(3, 5), 1);
    assert_eq!(resolve_winner(5, 5), 0);
    assert_eq!(resolve_winner(0, 0), 0);
}

#[test]
fn extractor_maps_all_fields() {
    let e = entry("Alice", 77, 1, 42, 2, 3, 4, 5);
    let r = make_player_stats(&e);
    assert_eq!(r.name, "Alice");
    assert_eq!(r.platform, "N/A");
    assert_eq!(r.platform_id, 77);
    assert_eq!(r.team, 1);
    assert_eq!(r.games_played, 1);
    assert!(!r.mvp);
    assert_eq!(r.points, 42);
    assert_eq!(r.goals, 2);
    assert_eq!(r.assists, 3);
    assert_eq!(r.saves, 4);
    assert_eq!(r.shots, 5);
}

#[test]
fn extractor_ignores_unmapped_and_mismatched() {
    let e = vec![
        ("Score".to_string(), ScalarProp::Str("oops".to_string())),
        ("Color".to_string(), ScalarProp::Int(9)),
        ("OnlineID".to_string(), ScalarProp::QWord(5)),
    ];
    let r = make_player_stats(&e);
    assert_eq!(r.points, 0);
    assert_eq!(r.platform_id, 5);
    assert_eq!(r.name, "");
    assert_eq!(r.platform, "");
    assert_eq!(r.team, -1);
}

#[test]
fn extractor_first_occurrence_wins() {
    let e = vec![
        ("OnlineID".to_string(), ScalarProp::QWord(1)),
        ("OnlineID".to_string(), ScalarProp::QWord(2)),
    ];
    let r = make_player_stats(&e);
    assert_eq!(r.platform_id, 1);
}

#[test]
fn extractor_yields_one_record_per_entry() {
    let prop = RootProp::Array(vec![
        entry("a", 1, 0, 1, 0, 0, 0, 0),
        entry("b", 2, 0, 2, 0, 0, 0, 0),
        entry("c", 3, 1, 3, 0, 0, 0, 0),
    ]);
    let stats = get_stats_from_player_stats(&prop, 0);
    assert_eq!(stats.len(), 3);
    assert_eq!(stats[0].name, "a");
    assert_eq!(stats[1].name, "b");
    assert_eq!(stats[2].name, "c");
}

#[test]
fn mvp_assigner_marks_best_on_winning_team() {
    let prop = RootProp::Array(vec![
        entry("p1", 1, 0, 10, 0, 0, 0, 0),
        entry("p2", 2, 0, 15, 0, 0, 0, 0),
        entry("p3", 3, 1, 100, 0, 0, 0, 0),
    ]);
    let stats = get_stats_from_player_stats(&prop, 0);
    assert!(!stats[0].mvp);
    assert!(stats[1].mvp);
    assert!(!stats[2].mvp);
}

#[test]
fn mvp_assigner_no_winning_team_player() {
    let prop = RootProp::Array(vec![entry("p1", 1, 0, 10, 0, 0, 0, 0)]);
    let stats = get_stats_from_player_stats(&prop, 1);
    assert!(!stats[0].mvp);
}

#[test]
fn winning_team_read_from_root_scores() {
    let props = vec![
        (
            "Team0Score".to_string(),
            RootProp::Scalar(ScalarProp::Int(3)),
        ),
        (
            "Team1Score".to_string(),
            RootProp::Scalar(ScalarProp::Int(1)),
        ),
    ];
    assert_eq!(get_winning_team(&props), 0);
    let empty: Vec<(String, RootProp)> = vec![];
    assert_eq!(get_winning_team(&empty), 0);
}

#[test]
fn batch_blocks_are_padded_to_six() {
    let mut table: Vec<PlayerStats> = Vec::new();
    for m in 0..2u64 {
        let prop = RootProp::Array(vec![
            entry("a", m * 10 + 1, 0, 1, 0, 0, 0, 0),
            entry("b", m * 10 + 2, 0, 2, 0, 0, 0, 0),
            entry("c", m * 10 + 3, 1, 3, 0, 0, 0, 0),
            entry("d", m * 10 + 4, 1, 4, 0, 0, 0, 0),
        ]);
        let stats = get_stats_from_player_stats(&prop, 0);
        append_match(&mut table, stats);
    }
    assert_eq!(table.len(), 12);
    assert_eq!(table[0].platform_id, 1);
    assert_eq!(table[3].platform_id, 4);
    assert_eq!(table[4].team, -1);
    assert_eq!(table[4].games_played, 0);
    assert_eq!(table[5].team, -1);
    assert_eq!(table[6].platform_id, 11);
    assert_eq!(table[9].platform_id, 14);
    assert_eq!(table[10].team, -1);
    assert_eq!(table[11].team, -1);
}

#[test]
fn oversized_match_gets_no_padding() {
    let mut table: Vec<PlayerStats> = Vec::new();
    let entries: Vec<Vec<(String, ScalarProp)>> = (0..7u64)
        .map(|i| entry("x", i + 1, 0, i as i32, 0, 0, 0, 0))
        .collect();
    let stats = get_stats_from_player_stats(&RootProp::Array(entries), 0);
    append_match(&mut table, stats);
    assert_eq!(table.len(), 7);
}

#[test]
fn missing_player_stats_property_is_an_error() {
    let props = vec![(
        "Team0Score".to_string(),
        RootProp::Scalar(ScalarProp::Int(3)),
    )];
    match get_player_stats_property(&props) {
        Err(e) => {
            assert_eq!(e, ReplayError::MissingProperty);
            assert_eq!(e.describe(), "PlayerStats Property not found!");
        }
        Ok(_) => panic!("expected a missing-property error"),
    }
}

#[test]
fn unparseable_replay_bytes_are_a_parse_error() {
    let garbage: Vec<u8> = vec![0, 1, 2, 3, 4, 5, 6, 7];
    match process_replay(&garbage) {
        Err(e) => {
            assert_eq!(e, ReplayError::Parse);
            assert_eq!(e.describe(), "Failed to parse replay file!");
        }
        Ok(_) => panic!("expected a parse error"),
    }
}

#[test]
fn replay_extension_filter() {
    assert!(is_replay_file_name("match.replay"));
    assert!(is_replay_file_name(".replay"));
    assert!(!is_replay_file_name("match.replay.bak"));
    assert!(!is_replay_file_name("replay"));
    assert!(!is_replay_file_name(""));
}

#[test]
fn default_record_is_padding_shaped() {
    let d = PlayerStats::default();
    assert_eq!(d.name, "");
    assert_eq!(d.platform, "");
    assert_eq!(d.platform_id, 0);
    assert_eq!(d.team, -1);
    assert_eq!(d.games_played, 0);
    assert!(!d.mvp);
    assert_eq!(d.points, 0);
    assert_eq!(d.goals, 0);
    assert_eq!(d.assists, 0);
    assert_eq!(d.saves, 0);
    assert_eq!(d.shots, 0);
}
