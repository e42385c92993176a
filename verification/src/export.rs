//! Table export: the aggregated record list as delimited text rows, a
//! fixed literal header first, and the proved round trip back.
//!
//! The `team` field is not an exported column, so re-parsing a row yields
//! a record with the no-team sentinel; every exported field comes back
//! exactly.

use vstd::prelude::*;
use crate::digits::{
    dec_digits,
    dec_digits_int,
    i32_to_string,
    lemma_i32_round_trip,
    lemma_u64_round_trip,
    parse_i32,
    parse_u64,
    spec_parse_i32,
    spec_parse_u64,
    u64_to_string,
};
use crate::props::str_eq;
use crate::record::{models, PlayerStats, RecordModel};

verus! {

/// The view of one textual row.
pub open spec fn row_view(row: Seq<String>) -> Seq<Seq<char>> {
    row.map(|i: int, s: String| s@)
}

/// The view of a whole textual table.
pub open spec fn table_view(rows: Seq<Vec<String>>) -> Seq<Seq<Seq<char>>> {
    rows.map(|i: int, r: Vec<String>| row_view(r@))
}

/// The fixed header row, in column order.
pub open spec fn spec_header() -> Seq<Seq<char>> {
    seq![
        "Name"@,
        "Platform"@,
        "OnlineID"@,
        "Games Played"@,
        "MVPs"@,
        "Points"@,
        "Goals"@,
        "Assists"@,
        "Saves"@,
        "Shots"@,
    ]
}

/// The textual row of one record: strings as they stand, counters in
/// decimal, the most-valuable flag as `1` or `0`.
pub open spec fn spec_row(rec: RecordModel) -> Seq<Seq<char>> {
    seq![
        rec.name,
        rec.platform,
        dec_digits(rec.platform_id as nat),
        dec_digits_int(rec.games_played as int),
        if rec.mvp {
            "1"@
        } else {
            "0"@
        },
        dec_digits_int(rec.points as int),
        dec_digits_int(rec.goals as int),
        dec_digits_int(rec.assists as int),
        dec_digits_int(rec.saves as int),
        dec_digits_int(rec.shots as int),
    ]
}

/// The exported table of a record list: the header, then one row per
/// record in order.
pub open spec fn spec_export(table: Seq<RecordModel>) -> Seq<Seq<Seq<char>>> {
    seq![spec_header()] + table.map(|i: int, rec: RecordModel| spec_row(rec))
}

/// Build the fixed header row.
pub fn header_row() -> (r: Vec<String>)
    ensures
        row_view(r@) == spec_header(),
{
    let mut row: Vec<String> = Vec::new();
    row.push(String::from_str("Name"));
    row.push(String::from_str("Platform"));
    row.push(String::from_str("OnlineID"));
    row.push(String::from_str("Games Played"));
    row.push(String::from_str("MVPs"));
    row.push(String::from_str("Points"));
    row.push(String::from_str("Goals"));
    row.push(String::from_str("Assists"));
    row.push(String::from_str("Saves"));
    row.push(String::from_str("Shots"));
    proof {
        assert(row_view(row@) =~= spec_header());
    }
    row
}

/// Build the textual row of one record.
pub fn record_row(stat: &PlayerStats) -> (r: Vec<String>)
    ensures
        row_view(r@) == spec_row(stat@),
{
    let mut row: Vec<String> = Vec::new();
    row.push(stat.name.clone());
    row.push(stat.platform.clone());
    row.push(u64_to_string(stat.platform_id));
    row.push(i32_to_string(stat.games_played));
    row.push(
        if stat.mvp {
            String::from_str("1")
        } else {
            String::from_str("0")
        },
    );
    row.push(i32_to_string(stat.points));
    row.push(i32_to_string(stat.goals));
    row.push(i32_to_string(stat.assists));
    row.push(i32_to_string(stat.saves));
    row.push(i32_to_string(stat.shots));
    proof {
        assert(row_view(row@) =~= spec_row(stat@));
    }
    row
}

/// Export the aggregated table as textual rows: the header, then one row
/// per record, none added and none removed.
pub fn export_rows(table: &Vec<PlayerStats>) -> (rows: Vec<Vec<String>>)
    ensures
        table_view(rows@) == spec_export(models(table@)),
{
    let mut rows: Vec<Vec<String>> = Vec::new();
    rows.push(header_row());
    let mut i: usize = 0;
    while i < table.len()
        invariant
            i <= table@.len(),
            rows@.len() == i + 1,
            row_view(rows@[0]@) == spec_header(),
            forall|j: int| 1 <= j < i + 1 ==> row_view(#[trigger] rows@[j]@) == spec_row(
                table@[j - 1]@,
            ),
        decreases table@.len() - i,
    {
        rows.push(record_row(&table[i]));
        i += 1;
    }
    proof {
        let full = spec_export(models(table@));
        assert forall|j: int| 0 <= j < rows@.len() implies #[trigger] table_view(rows@)[j]
            == full[j] by {
            assert(table_view(rows@)[j] == row_view(rows@[j]@));
            if j >= 1 {
                assert(row_view(rows@[j]@) == spec_row(table@[j - 1]@));
                assert(models(table@)[j - 1] == table@[j - 1]@);
                assert(full[j] == spec_row(models(table@)[j - 1]));
            }
        }
        assert(table_view(rows@) =~= full);
    }
    rows
}

/// What one textual row parses back to: `None` unless it has exactly the
/// ten columns, its numeric columns are decimal, and its most-valuable
/// column is `1` or `0`.  The team column is not exported, so the record
/// comes back with the no-team sentinel.
pub open spec fn spec_parse_row(row: Seq<Seq<char>>) -> Option<RecordModel> {
    if row.len() != 10 {
        None
    } else {
        let pid = spec_parse_u64(row[2]);
        let gp = spec_parse_i32(row[3]);
        let mvp = if row[4] == "1"@ {
            Some(true)
        } else if row[4] == "0"@ {
            Some(false)
        } else {
            None
        };
        let pts = spec_parse_i32(row[5]);
        let goals = spec_parse_i32(row[6]);
        let assists = spec_parse_i32(row[7]);
        let saves = spec_parse_i32(row[8]);
        let shots = spec_parse_i32(row[9]);
        if pid is Some && gp is Some && mvp is Some && pts is Some && goals is Some && assists
            is Some && saves is Some && shots is Some {
            Some(
                RecordModel {
                    name: row[0],
                    platform: row[1],
                    platform_id: pid->Some_0,
                    team: -1i32,
                    games_played: gp->Some_0,
                    mvp: mvp->Some_0,
                    points: pts->Some_0,
                    goals: goals->Some_0,
                    assists: assists->Some_0,
                    saves: saves->Some_0,
                    shots: shots->Some_0,
                },
            )
        } else {
            None
        }
    }
}

/// Parse one textual row back into a record.
pub fn parse_row(row: &Vec<String>) -> (r: Option<PlayerStats>)
    ensures
        match r {
            Some(p) => spec_parse_row(row_view(row@)) == Some(p@),
            None => spec_parse_row(row_view(row@)) is None,
        },
{
    if row.len() != 10 {
        return None;
    }
    let pid = match parse_u64(row[2].as_str()) {
        Some(v) => v,
        None => {
            return None;
        },
    };
    let gp = match parse_i32(row[3].as_str()) {
        Some(v) => v,
        None => {
            return None;
        },
    };
    let mvp = if str_eq(row[4].as_str(), "1") {
        true
    } else if str_eq(row[4].as_str(), "0") {
        false
    } else {
        return None;
    };
    let pts = match parse_i32(row[5].as_str()) {
        Some(v) => v,
        None => {
            return None;
        },
    };
    let goals = match parse_i32(row[6].as_str()) {
        Some(v) => v,
        None => {
            return None;
        },
    };
    let assists = match parse_i32(row[7].as_str()) {
        Some(v) => v,
        None => {
            return None;
        },
    };
    let saves = match parse_i32(row[8].as_str()) {
        Some(v) => v,
        None => {
            return None;
        },
    };
    let shots = match parse_i32(row[9].as_str()) {
        Some(v) => v,
        None => {
            return None;
        },
    };
    Some(
        PlayerStats {
            name: row[0].clone(),
            platform: row[1].clone(),
            platform_id: pid,
            team: -1,
            games_played: gp,
            mvp,
            points: pts,
            goals,
            assists,
            saves,
            shots,
        },
    )
}

/// What a textual table parses back to: `None` unless the first row is
/// the fixed header and every following row parses as a record.
pub open spec fn spec_parse_table(rows: Seq<Seq<Seq<char>>>) -> Option<Seq<RecordModel>> {
    if rows.len() == 0 || rows[0] != spec_header() {
        None
    } else if exists|i: int| 1 <= i < rows.len() && spec_parse_row(#[trigger] rows[i]) is None {
        None
    } else {
        Some(Seq::new((rows.len() - 1) as nat, |i: int| spec_parse_row(rows[i + 1])->Some_0))
    }
}

/// Whether a textual row is exactly the fixed header.
fn is_header(row: &Vec<String>) -> (r: bool)
    ensures
        r == (row_view(row@) == spec_header()),
{
    let ok = row.len() == 10 && str_eq(row[0].as_str(), "Name") && str_eq(
        row[1].as_str(),
        "Platform",
    ) && str_eq(row[2].as_str(), "OnlineID") && str_eq(row[3].as_str(), "Games Played") && str_eq(
        row[4].as_str(),
        "MVPs",
    ) && str_eq(row[5].as_str(), "Points") && str_eq(row[6].as_str(), "Goals") && str_eq(
        row[7].as_str(),
        "Assists",
    ) && str_eq(row[8].as_str(), "Saves") && str_eq(row[9].as_str(), "Shots");
    proof {
        if ok {
            assert(row_view(row@) =~= spec_header());
        } else {
            if row_view(row@) == spec_header() {
                assert(row_view(row@).len() == 10);
                assert(row_view(row@)[0] == "Name"@);
                assert(row_view(row@)[1] == "Platform"@);
                assert(row_view(row@)[2] == "OnlineID"@);
                assert(row_view(row@)[3] == "Games Played"@);
                assert(row_view(row@)[4] == "MVPs"@);
                assert(row_view(row@)[5] == "Points"@);
                assert(row_view(row@)[6] == "Goals"@);
                assert(row_view(row@)[7] == "Saves"@) by {
                    assert(row_view(row@)[8] == "Saves"@);
                }
            }
        }
    }
    ok
}

/// Parse a textual table back into its record list.
pub fn parse_rows(rows: &Vec<Vec<String>>) -> (r: Option<Vec<PlayerStats>>)
    ensures
        match r {
            Some(v) => spec_parse_table(table_view(rows@)) == Some(models(v@)),
            None => spec_parse_table(table_view(rows@)) is None,
        },
{
    let ghost tv = table_view(rows@);
    if rows.len() == 0 {
        return None;
    }
    if !is_header(&rows[0]) {
        proof {
            assert(tv[0] == row_view(rows@[0]@));
        }
        return None;
    }
    let mut out: Vec<PlayerStats> = Vec::new();
    let mut i: usize = 1;
    while i < rows.len()
        invariant
            tv == table_view(rows@),
            tv.len() == rows@.len(),
            1 <= i <= rows@.len(),
            out@.len() == i - 1,
            forall|j: int| 1 <= j < i ==> spec_parse_row(#[trigger] tv[j]) is Some,
            forall|j: int| 1 <= j < i ==> spec_parse_row(#[trigger] tv[j]) == Some(out@[j - 1]@),
        decreases rows@.len() - i,
    {
        proof {
            assert(tv[i as int] == row_view(rows@[i as int]@));
        }
        match parse_row(&rows[i]) {
            Some(p) => {
                out.push(p);
            },
            None => {
                proof {
                    assert(spec_parse_row(tv[i as int]) is None);
                }
                return None;
            },
        }
        i += 1;
    }
    proof {
        assert(tv[0] == row_view(rows@[0]@));
        assert(!(exists|j: int| 1 <= j < tv.len() && spec_parse_row(#[trigger] tv[j]) is None));
        assert(models(out@) =~= Seq::new(
            (tv.len() - 1) as nat,
            |j: int| spec_parse_row(tv[j + 1])->Some_0,
        ));
    }
    Some(out)
}

/// `rec` with the team column cleared to the no-team sentinel, as a
/// re-parsed row carries it.
pub open spec fn cleared_team(rec: RecordModel) -> RecordModel {
    RecordModel { team: -1i32, ..rec }
}

/// Row round trip: re-parsing the exported row of any record gives
/// every exported field back; only the unexported team column resets.
pub proof fn lemma_row_round_trip(rec: RecordModel)
    ensures
        spec_parse_row(spec_row(rec)) == Some(cleared_team(rec)),
{
    reveal_strlit("1");
    reveal_strlit("0");
    assert("1"@ != "0"@) by {
        assert("1"@[0] == '1');
        assert("0"@[0] == '0');
    }
    lemma_u64_round_trip(rec.platform_id);
    lemma_i32_round_trip(rec.games_played);
    lemma_i32_round_trip(rec.points);
    lemma_i32_round_trip(rec.goals);
    lemma_i32_round_trip(rec.assists);
    lemma_i32_round_trip(rec.saves);
    lemma_i32_round_trip(rec.shots);
}

/// Table round trip: re-parsing the exported table of any record
/// list gives the same records back, in order, with only the unexported
/// team column reset.
pub proof fn lemma_table_round_trip(table: Seq<RecordModel>)
    ensures
        spec_parse_table(spec_export(table)) == Some(table.map(|i: int, rec: RecordModel|
            cleared_team(rec))),
{
    let rows = spec_export(table);
    assert(rows[0] == spec_header());
    assert forall|i: int| 1 <= i < rows.len() implies spec_parse_row(#[trigger] rows[i])
        == Some(cleared_team(table[i - 1])) by {
        assert(rows[i] == spec_row(table[i - 1]));
        lemma_row_round_trip(table[i - 1]);
    }
    assert(Seq::new((rows.len() - 1) as nat, |i: int| spec_parse_row(rows[i + 1])->Some_0)
        =~= table.map(|i: int, rec: RecordModel| cleared_team(rec)));
}

/// The delimited byte encoding the outside csv writer gives a textual
/// table; it depends on the rows alone.
pub uninterp spec fn csv_encoding(rows: Seq<Seq<Seq<char>>>) -> Seq<u8>;

/// Relies on csv::Writer over an in-memory buffer: `write_record` renders
/// each row as one delimited, newline-terminated record, and the bytes
/// written depend on the rows alone.  Writes into the in-memory buffer
/// cannot fail, so the only failure the writer can report here is its
/// unequal-record-length check: rows of one uniform width always encode.
#[verifier::external_body]
fn csv_encode(rows: &Vec<Vec<String>>) -> (r: Option<Vec<u8>>)
    ensures
        r matches Some(b) ==> b@ == csv_encoding(table_view(rows@)),
        (forall|i: int, j: int|
            0 <= i < rows@.len() && 0 <= j < rows@.len() ==> rows@[i]@.len()
                == rows@[j]@.len()) ==> r is Some,
{
    let mut wtr = csv::WriterBuilder::new().has_headers(false).from_writer(Vec::new());
    for row in rows.iter() {
        if wtr.write_record(row).is_err() {
            return None;
        }
    }
    match wtr.into_inner() {
        Ok(bytes) => Some(bytes),
        Err(_) => None,
    }
}

/// Encode the aggregated table as delimited bytes: the fixed header row,
/// then one row per record, nothing added and nothing removed.  Every row
/// of the export has the same ten columns, so encoding always succeeds;
/// an empty table encodes to the header row alone.
pub fn write_csv(table: &Vec<PlayerStats>) -> (r: Option<Vec<u8>>)
    ensures
        r is Some,
        r matches Some(b) ==> b@ == csv_encoding(spec_export(models(table@))),
{
    let rows = export_rows(table);
    proof {
        let full = spec_export(models(table@));
        let body = models(table@).map(|k: int, rec: RecordModel| spec_row(rec));
        assert(full.len() == table_view(rows@).len());
        assert(table_view(rows@).len() == rows@.len());
        assert forall|i: int| 0 <= i < rows@.len() implies #[trigger] rows@[i]@.len() == 10 by {
            assert(table_view(rows@)[i] == row_view(rows@[i]@));
            if i == 0 {
                assert(full[0] == spec_header());
            } else {
                assert(full[i] == body[i - 1]);
                assert(body[i - 1] == spec_row(models(table@)[i - 1]));
            }
            assert(row_view(rows@[i]@).len() == rows@[i]@.len());
        }
    }
    csv_encode(&rows)
}

} // verus!
