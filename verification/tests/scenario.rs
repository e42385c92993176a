use replay_stats::aggregate::append_match;
use replay_stats::export::export_rows;
use replay_stats::extract::{
    get_player_stats_property, get_stats_from_player_stats, get_winning_team,
};
use replay_stats::props::{RootProp, ScalarProp};
use replay_stats::record::PlayerStats;

fn player(id: u64, team: i32, points: i32) -> Vec<(String, ScalarProp)> {
    vec![
        ("OnlineID".to_string(), ScalarProp::QWord(id)),
        ("Team".to_string(), ScalarProp::Int(team)),
        ("Score".to_string(), ScalarProp::Int(points)),
    ]
}

#[test]
fn one_replay_end_to_end() {
    let props = vec![
        (
            "Team0Score".to_string(),
            RootProp::Scalar(ScalarProp::Int(3)),
        ),
        (
            "Team1Score".to_string(),
            RootProp::Scalar(ScalarProp::Int(1)),
        ),
        (
            "PlayerStats".to_string(),
            RootProp::Array(vec![
                player(1, 0, 5),
                player(2, 0, 20),
                player(3, 0, 8),
                player(4, 1, 50),
            ]),
        ),
    ];

    let winner = get_winning_team(&props);
    assert_eq!(winner, 0);

    let stats_prop = get_player_stats_property(&props).expect("PlayerStats must be found");
    let stats = get_stats_from_player_stats(stats_prop, winner);
    assert_eq!(stats.len(), 4);
    assert!(!stats[0].mvp);
    assert!(stats[1].mvp);
    assert!(!stats[2].mvp);
    assert!(!stats[3].mvp);

    let mut table: Vec<PlayerStats> = Vec::new();
    append_match(&mut table, stats);
    assert_eq!(table.len(), 6);
    assert_eq!(table[4].team, -1);
    assert_eq!(table[5].team, -1);

    let rows = export_rows(&table);
    assert_eq!(rows.len(), 7);
    assert_eq!(
        rows[0],
        vec![
            "Name",
            "Platform",
            "OnlineID",
            "Games Played",
            "MVPs",
            "Points",
            "Goals",
            "Assists",
            "Saves",
            "Shots",
        ]
    );
    assert_eq!(rows[2][2], "2");
    assert_eq!(rows[2][4], "1");
    assert_eq!(rows[2][5], "20");
    assert_eq!(rows[5][4], "0");
}
