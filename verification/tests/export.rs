use replay_stats::digits::{i32_to_string, parse_i32, parse_u64, u64_to_string};
use replay_stats::export::{export_rows, header_row, parse_rows, write_csv};
use replay_stats::record::PlayerStats;

fn sample(name: &str, id: u64, team: i32, points: i32, mvp: bool) -> PlayerStats {
    PlayerStats {
        name: name.to_string(),
        platform: "N/A".to_string(),
        platform_id: id,
        team,
        games_played: 1,
        mvp,
        points,
        goals: 1,
        assists: 2,
        saves: 3,
        shots: 4,
    }
}

#[test]
fn decimal_rendering() {
    assert_eq!(u64_to_string(0), "0");
    assert_eq!(u64_to_string(42), "42");
    assert_eq!(u64_to_string(u64::MAX), "18446744073709551615");
    assert_eq!(i32_to_string(0), "0");
    assert_eq!(i32_to_string(-5), "-5");
    assert_eq!(i32_to_string(i32::MIN), "-2147483648");
    assert_eq!(i32_to_string(i32::MAX), "2147483647");
}

#[test]
fn decimal_parsing() {
    assert_eq!(parse_u64("18446744073709551615"), Some(u64::MAX));
    assert_eq!(parse_u64("18446744073709551616"), None);
    assert_eq!(parse_u64(""), None);
    assert_eq!(parse_u64("12a"), None);
    assert_eq!(parse_i32("-2147483648"), Some(i32::MIN));
    assert_eq!(parse_i32("-2147483649"), None);
    assert_eq!(parse_i32("2147483647"), Some(i32::MAX));
    assert_eq!(parse_i32("2147483648"), None);
    assert_eq!(parse_i32("-"), None);
}

#[test]
fn header_matches_the_fixed_columns() {
    let header = header_row();
    let expected = vec![
        "Name",
        "Platform",
        "OnlineID",
        "Games Played",
        "MVPs",
        "Points",
        "Goals",
        "Assists",
        "Saves",
        "Shots",
    ];
    assert_eq!(header, expected);
}

#[test]
fn exported_rows_round_trip() {
    let table = vec![
        sample("Alice", 1, 0, 10, false),
        sample("Bob", 2, 0, 15, true),
        PlayerStats::default(),
    ];
    let rows = export_rows(&table);
    assert_eq!(rows.len(), 4);
    let back = parse_rows(&rows).expect("exported rows must parse back");
    assert_eq!(back.len(), table.len());
    for (orig, re) in table.iter().zip(back.iter()) {
        assert_eq!(re.name, orig.name);
        assert_eq!(re.platform, orig.platform);
        assert_eq!(re.platform_id, orig.platform_id);
        assert_eq!(re.games_played, orig.games_played);
        assert_eq!(re.mvp, orig.mvp);
        assert_eq!(re.points, orig.points);
        assert_eq!(re.goals, orig.goals);
        assert_eq!(re.assists, orig.assists);
        assert_eq!(re.saves, orig.saves);
        assert_eq!(re.shots, orig.shots);
        assert_eq!(re.team, -1);
    }
}

#[test]
fn csv_bytes_round_trip_through_outside_reader() {
    let table = vec![sample("Alice", 1, 0, 10, false), sample("Bob", 2, 1, 15, true)];
    let rows = export_rows(&table);
    let bytes = write_csv(&table).expect("in-memory encoding must succeed");
    let mut reader = csv::ReaderBuilder::new()
        .has_headers(false)
        .from_reader(bytes.as_slice());
    let mut read_rows: Vec<Vec<String>> = Vec::new();
    for record in reader.records() {
        let record = record.expect("encoded bytes must read back");
        read_rows.push(record.iter().map(|f| f.to_string()).collect());
    }
    assert_eq!(read_rows, rows);
}

#[test]
fn mvp_column_renders_one_and_zero() {
    let table = vec![sample("a", 1, 0, 1, true), sample("b", 2, 0, 2, false)];
    let rows = export_rows(&table);
    assert_eq!(rows[1][4], "1");
    assert_eq!(rows[2][4], "0");
}

#[test]
fn rows_with_wrong_header_do_not_parse() {
    let table = vec![sample("a", 1, 0, 1, false)];
    let mut rows = export_rows(&table);
    rows[0][0] = "Nome".to_string();
    assert!(parse_rows(&rows).is_none());
}

#[test]
fn rows_with_bad_fields_do_not_parse() {
    let table = vec![sample("a", 1, 0, 1, false)];
    let mut rows = export_rows(&table);
    rows[1][4] = "2".to_string();
    assert!(parse_rows(&rows).is_none());

    let mut rows = export_rows(&table);
    rows[1][2] = "12x".to_string();
    assert!(parse_rows(&rows).is_none());

    let mut rows = export_rows(&table);
    rows[1].pop();
    assert!(parse_rows(&rows).is_none());
}

#[test]
fn empty_table_exports_header_only() {
    let table: Vec<PlayerStats> = Vec::new();
    let bytes = write_csv(&table).expect("encoding uniform rows must succeed");
    let mut reader = csv::ReaderBuilder::new()
        .has_headers(false)
        .from_reader(bytes.as_slice());
    let mut read_rows: Vec<Vec<String>> = Vec::new();
    for record in reader.records() {
        let record = record.expect("encoded bytes must read back");
        read_rows.push(record.iter().map(|f| f.to_string()).collect());
    }
    assert_eq!(read_rows.len(), 1);
    assert_eq!(read_rows[0], header_row());
}
