use session_tally::header::HeaderValue;
use session_tally::header::StatValue;
use session_tally::record::count_from;
use session_tally::record::extract;
use session_tally::record::read_lines;
use session_tally::record::read_stat_line;
use session_tally::record::record_from_header;
use session_tally::record::ExtractError;
use session_tally::record::MatchRecord;
use session_tally::record::Outcome;
use session_tally::record::Standing;

fn num(key: &str, value: i32) -> (String, StatValue) {
    (key.to_string(), StatValue::Int(value))
}

fn word(key: &str, value: &str) -> (String, StatValue) {
    (key.to_string(), StatValue::Text(value.to_string()))
}

fn put_str(out: &mut Vec<u8>, s: &str) {
    out.extend_from_slice(&((s.len() + 1) as i32).to_le_bytes());
    out.extend_from_slice(s.as_bytes());
    out.push(0);
}

fn put_head(out: &mut Vec<u8>, key: &str, kind: &str) {
    put_str(out, key);
    put_str(out, kind);
    out.extend_from_slice(&[0u8; 8]);
}

fn put_int(out: &mut Vec<u8>, key: &str, value: i32) {
    put_head(out, key, "IntProperty");
    out.extend_from_slice(&value.to_le_bytes());
}

fn put_text(out: &mut Vec<u8>, key: &str, kind: &str, value: &str) {
    put_head(out, key, kind);
    put_str(out, value);
}

fn replay_bytes(properties: &[u8]) -> Vec<u8> {
    let mut header: Vec<u8> = Vec::new();
    header.extend_from_slice(&868i32.to_le_bytes());
    header.extend_from_slice(&12i32.to_le_bytes());
    put_str(&mut header, "TAGame.Replay_Soccar_TA");
    header.extend_from_slice(properties);
    put_str(&mut header, "None");
    let body = [0u8; 40];
    let mut out: Vec<u8> = Vec::new();
    out.extend_from_slice(&(header.len() as i32).to_le_bytes());
    out.extend_from_slice(&0u32.to_le_bytes());
    out.extend_from_slice(&header);
    out.extend_from_slice(&(body.len() as i32).to_le_bytes());
    out.extend_from_slice(&0u32.to_le_bytes());
    out.extend_from_slice(&body);
    out
}

fn two_player_replay() -> Vec<u8> {
    let mut props: Vec<u8> = Vec::new();
    put_int(&mut props, "Team0Score", 3);
    put_int(&mut props, "Team1Score", 1);
    put_head(&mut props, "PlayerStats", "ArrayProperty");
    props.extend_from_slice(&2i32.to_le_bytes());
    put_text(&mut props, "Name", "StrProperty", "Alice");
    put_text(&mut props, "Platform", "NameProperty", "Steam");
    put_int(&mut props, "Team", 0);
    put_int(&mut props, "Score", 300);
    put_int(&mut props, "Goals", 2);
    put_int(&mut props, "Assists", 1);
    put_int(&mut props, "Saves", 4);
    put_int(&mut props, "Shots", 5);
    put_str(&mut props, "None");
    put_text(&mut props, "Name", "StrProperty", "Bob");
    put_int(&mut props, "Team", 1);
    put_int(&mut props, "Score", 100);
    put_str(&mut props, "None");
    replay_bytes(&props)
}

fn assert_line(
    record: &MatchRecord,
    at: usize,
    name: &str,
    numbers: [u64; 5],
    team: i32,
) {
    let line = &record.players[at];
    assert_eq!(line.name, name);
    assert_eq!(
        [line.score, line.goals, line.assists, line.saves, line.shots],
        numbers
    );
    assert_eq!(line.team, team);
}

#[test]
fn extract_reads_a_decoded_replay() {
    let record = extract(&two_player_replay()).unwrap();
    assert_eq!(record.team0_score, 3);
    assert_eq!(record.team1_score, 1);
    assert_eq!(record.players.len(), 2);
    assert_line(&record, 0, "Alice", [300, 2, 1, 4, 5], 0);
    assert_line(&record, 1, "Bob", [100, 0, 0, 0, 0], 1);
}

#[test]
fn extract_rejects_bytes_that_are_no_replay() {
    assert_eq!(extract(&[]).unwrap_err(), ExtractError::Undecodable);
    assert_eq!(extract(&[1, 2, 3, 4, 5, 6, 7]).unwrap_err(), ExtractError::Undecodable);
    let mut cut = two_player_replay();
    cut.truncate(60);
    assert_eq!(extract(&cut).unwrap_err(), ExtractError::Undecodable);
}

#[test]
fn extract_without_statistics_is_an_error() {
    let mut props: Vec<u8> = Vec::new();
    put_int(&mut props, "Team0Score", 3);
    assert_eq!(extract(&replay_bytes(&props)).unwrap_err(), ExtractError::StatsMissing);
}

#[test]
fn extract_with_statistics_of_another_kind_is_an_error() {
    let mut props: Vec<u8> = Vec::new();
    put_text(&mut props, "PlayerStats", "StrProperty", "none");
    assert_eq!(extract(&replay_bytes(&props)).unwrap_err(), ExtractError::StatsMalformed);
    let mut props: Vec<u8> = Vec::new();
    put_int(&mut props, "PlayerStats", 7);
    assert_eq!(extract(&replay_bytes(&props)).unwrap_err(), ExtractError::StatsMalformed);
}

#[test]
fn extract_keeps_a_name_property_out_of_the_name() {
    let mut props: Vec<u8> = Vec::new();
    put_head(&mut props, "PlayerStats", "ArrayProperty");
    props.extend_from_slice(&1i32.to_le_bytes());
    put_text(&mut props, "Name", "NameProperty", "Alice");
    put_int(&mut props, "Score", 10);
    put_str(&mut props, "None");
    let record = extract(&replay_bytes(&props)).unwrap();
    assert!(record.players.is_empty());
}

#[test]
fn header_without_statistics_gives_no_record() {
    let props = vec![("Team0Score".to_string(), HeaderValue::Int(2))];
    assert_eq!(record_from_header(&props).unwrap_err(), ExtractError::StatsMissing);
    assert_eq!(record_from_header(&Vec::new()).unwrap_err(), ExtractError::StatsMissing);
}

#[test]
fn statistics_that_are_no_table_give_no_record() {
    let props = vec![("PlayerStats".to_string(), HeaderValue::Int(2))];
    assert_eq!(record_from_header(&props).unwrap_err(), ExtractError::StatsMalformed);
    let props = vec![
        ("PlayerStats".to_string(), HeaderValue::Other),
        ("PlayerStats".to_string(), HeaderValue::Rows(Vec::new())),
    ];
    assert_eq!(record_from_header(&props).unwrap_err(), ExtractError::StatsMalformed);
}

#[test]
fn absent_scores_default_to_zero() {
    let props = vec![
        ("PlayerStats".to_string(), HeaderValue::Rows(Vec::new())),
        ("Team1Score".to_string(), HeaderValue::Other),
        ("Team1Score".to_string(), HeaderValue::Int(9)),
    ];
    let record = record_from_header(&props).unwrap();
    assert_eq!(record.team0_score, 0);
    assert_eq!(record.team1_score, 0);
    assert!(record.players.is_empty());
    assert_eq!(record.outcome(), Outcome::Draw);
}

#[test]
fn first_property_of_a_key_is_the_one_read() {
    let props = vec![
        ("Team0Score".to_string(), HeaderValue::Int(4)),
        ("Team0Score".to_string(), HeaderValue::Int(7)),
        ("Team1Score".to_string(), HeaderValue::Int(5)),
        ("PlayerStats".to_string(), HeaderValue::Rows(vec![vec![word("Name", "Alice")]])),
        ("PlayerStats".to_string(), HeaderValue::Rows(Vec::new())),
    ];
    let record = record_from_header(&props).unwrap();
    assert_eq!(record.team0_score, 4);
    assert_eq!(record.team1_score, 5);
    assert_eq!(record.players.len(), 1);
    assert_line(&record, 0, "Alice", [0, 0, 0, 0, 0], 0);
    assert_eq!(record.outcome(), Outcome::Decided { winner: 1, loser: 0 });
}

#[test]
fn row_without_a_name_is_skipped() {
    let rows = vec![
        vec![num("Score", 10), num("Team", 1)],
        vec![word("Name", "Bob"), num("Score", 20)],
        vec![num("Name", 3), num("Score", 30)],
        Vec::new(),
    ];
    let lines = read_lines(&rows);
    assert_eq!(lines.len(), 1);
    assert_eq!(lines[0].name, "Bob");
    assert_eq!(lines[0].score, 20);
    assert!(read_stat_line(&rows[0]).is_none());
    assert!(read_stat_line(&rows[2]).is_none());
    assert!(read_stat_line(&rows[3]).is_none());
}

#[test]
fn numbers_of_another_kind_default_to_zero() {
    let row = vec![
        word("Name", "Carol"),
        word("Score", "many"),
        ("Goals".to_string(), StatValue::Other),
        num("Saves", 3),
        num("score", 99),
    ];
    let line = read_stat_line(&row).unwrap();
    assert_eq!(line.name, "Carol");
    assert_eq!(
        [line.score, line.goals, line.assists, line.saves, line.shots],
        [0, 0, 0, 3, 0]
    );
    assert_eq!(line.team, 0);
}

#[test]
fn last_entry_of_a_key_is_the_one_read() {
    let row = vec![
        word("Name", "Dan"),
        num("Score", 5),
        num("Score", 8),
        word("Score", "x"),
        word("Name", "Dana"),
        num("Team", 1),
        num("Team", 7),
    ];
    let line = read_stat_line(&row).unwrap();
    assert_eq!(line.name, "Dana");
    assert_eq!(line.score, 8);
    assert_eq!(line.team, 7);
}

#[test]
fn an_empty_name_is_still_a_name() {
    let line = read_stat_line(&vec![word("Name", ""), num("Shots", 2)]).unwrap();
    assert_eq!(line.name, "");
    assert_eq!(line.shots, 2);
}

#[test]
fn negative_integers_wrap_to_64_bits() {
    assert_eq!(count_from(0), 0);
    assert_eq!(count_from(7), 7);
    assert_eq!(count_from(i32::MAX), 2147483647);
    assert_eq!(count_from(-1), u64::MAX);
    assert_eq!(count_from(-2), 18446744073709551614);
    assert_eq!(count_from(i32::MIN), 18446744071562067968);
    let line = read_stat_line(&vec![word("Name", "Eve"), num("Score", -1), num("Team", -1)]).unwrap();
    assert_eq!(line.score, u64::MAX);
    assert_eq!(line.team, -1);
}

#[test]
fn higher_score_decides_the_match() {
    let record = |t0: i32, t1: i32| MatchRecord { team0_score: t0, team1_score: t1, players: Vec::new() };
    assert_eq!(record(3, 1).outcome(), Outcome::Decided { winner: 0, loser: 1 });
    assert_eq!(record(1, 3).outcome(), Outcome::Decided { winner: 1, loser: 0 });
    assert_eq!(record(2, 2).outcome(), Outcome::Draw);
    assert_eq!(record(-1, -2).outcome(), Outcome::Decided { winner: 0, loser: 1 });
}

#[test]
fn standing_follows_the_team() {
    let decided = Outcome::Decided { winner: 0, loser: 1 };
    assert_eq!(decided.standing(0), Standing::Win);
    assert_eq!(decided.standing(1), Standing::Loss);
    assert_eq!(decided.standing(2), Standing::Neither);
    assert_eq!(decided.standing(-1), Standing::Neither);
    assert_eq!(Outcome::Draw.standing(0), Standing::Neither);
    assert_eq!(Outcome::Draw.standing(1), Standing::Neither);
    assert_eq!(Outcome::Draw.standing(2), Standing::Neither);
}
