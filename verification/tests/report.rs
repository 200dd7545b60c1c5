use session_tally::record::MatchRecord;
use session_tally::record::MatchStatLine;
use session_tally::report::block_of;
use session_tally::report::decimal_text;
use session_tally::report::is_listed;
use session_tally::report::push_decimal;
use session_tally::report::rank;
use session_tally::report::render;
use session_tally::tally::SessionState;

fn line(name: &str, team: i32, score: u64, goals: u64) -> MatchStatLine {
    MatchStatLine {
        name: name.to_string(),
        score,
        goals,
        assists: 0,
        saves: 0,
        shots: 0,
        team,
    }
}

fn record(team0_score: i32, team1_score: i32, players: Vec<MatchStatLine>) -> MatchRecord {
    MatchRecord { team0_score, team1_score, players }
}

#[test]
fn decimal_text_writes_numbers_as_std_does() {
    for n in [0u64, 1, 9, 10, 11, 99, 100, 101, 1234567890, u64::MAX - 1, u64::MAX] {
        assert_eq!(decimal_text(n), n.to_string());
    }
    assert_eq!(decimal_text(0), "0");
    assert_eq!(decimal_text(507), "507");
    assert_eq!(decimal_text(u64::MAX), "18446744073709551615");
    let mut out = "n=".to_string();
    push_decimal(&mut out, 42);
    assert_eq!(out, "n=42");
}

#[test]
fn occasional_player_is_left_out_after_ten_games() {
    assert!(!is_listed(4, 10));
    assert!(!is_listed(5, 10));
    assert!(is_listed(6, 10));
    assert!(is_listed(10, 10));
}

#[test]
fn player_of_every_game_is_always_listed() {
    for games in [0u64, 1, 2, 3, 4, 7, 100] {
        assert!(is_listed(games, games));
    }
    assert!(!is_listed(1, 2));
    assert!(!is_listed(3, 4));
    assert!(!is_listed(3, 8));
    assert!(is_listed(4, 5));
    assert!(is_listed(4, 7));
    assert!(!is_listed(4, 8));
    assert!(is_listed(5, 8));
    assert!(!is_listed(0, 1));
}

#[test]
fn ranking_is_by_sum_then_by_last_then_by_first_seen() {
    let mut state = SessionState::new();
    state.merge(&record(
        1,
        0,
        vec![
            line("Low", 0, 10, 0),
            line("TieOld", 0, 50, 0),
            line("High", 1, 90, 0),
            line("TieNew", 1, 50, 0),
            line("Split", 1, 30, 0),
        ],
    ));
    assert_eq!(rank(state.players()), vec![2, 1, 3, 4, 0]);
    state.merge(&record(1, 0, vec![line("Split", 1, 20, 0), line("Low", 0, 40, 0)]));
    // Low, TieOld, TieNew and Split all have 50; Low scored 40 last, Split 20, the others 50.
    assert_eq!(rank(state.players()), vec![2, 1, 3, 0, 4]);
    assert_eq!(rank(SessionState::new().players()), Vec::<usize>::new());
}

#[test]
fn block_shows_sums_and_most_recent_values() {
    let mut state = SessionState::new();
    state.merge(&record(
        2,
        1,
        vec![MatchStatLine {
            name: "Alice".to_string(),
            score: 310,
            goals: 2,
            assists: 1,
            saves: 4,
            shots: 5,
            team: 0,
        }],
    ));
    state.merge(&record(
        0,
        1,
        vec![MatchStatLine {
            name: "Alice".to_string(),
            score: 95,
            goals: 0,
            assists: 3,
            saves: 0,
            shots: 12,
            team: 0,
        }],
    ));
    let expected = "### Alice\n*Played 2 games*\n- Wins/Losses: 1/1\n- Score: 405 (95)\n- Goals: 2 (0)\n- Assists: 4 (3)\n- Saves: 4 (0)\n- Shots: 17 (12)\n";
    assert_eq!(block_of(&state.players()[0]), expected);
    assert_eq!(render(&state), format!("## Game 2 finished\n\n{}", expected));
}

#[test]
fn report_of_an_empty_session_is_the_header() {
    assert_eq!(render(&SessionState::new()), "## Game 0 finished\n\n");
}

#[test]
fn rendering_twice_gives_the_same_text() {
    let mut state = SessionState::new();
    state.merge(&record(1, 0, vec![line("Alice", 0, 300, 2), line("Bob", 1, 100, 0)]));
    let first = render(&state);
    let second = render(&state);
    assert_eq!(first, second);
    assert_eq!(state.games_played(), 1);
}

#[test]
fn guests_are_left_out_of_the_report() {
    let mut state = SessionState::new();
    state.merge(&record(1, 0, vec![line("Alice", 0, 10, 0), line("Guest", 1, 500, 0)]));
    state.merge(&record(1, 0, vec![line("Alice", 0, 10, 0)]));
    let text = render(&state);
    assert_eq!(
        text,
        "## Game 2 finished\n\n### Alice\n*Played 2 games*\n- Wins/Losses: 2/0\n- Score: 20 (10)\n- Goals: 0 (0)\n- Assists: 0 (0)\n- Saves: 0 (0)\n- Shots: 0 (0)\n"
    );
}

#[test]
fn two_matches_end_to_end() {
    let mut state = SessionState::new();
    state.merge(&record(1, 0, vec![line("Alice", 0, 300, 2), line("Bob", 1, 100, 0)]));
    assert_eq!(state.tally("Alice").unwrap().wins, 1);
    assert_eq!(
        render(&state),
        "## Game 1 finished\n\n\
         ### Alice\n*Played 1 games*\n- Wins/Losses: 1/0\n- Score: 300 (300)\n- Goals: 2 (2)\n- Assists: 0 (0)\n- Saves: 0 (0)\n- Shots: 0 (0)\n\
         ### Bob\n*Played 1 games*\n- Wins/Losses: 0/1\n- Score: 100 (100)\n- Goals: 0 (0)\n- Assists: 0 (0)\n- Saves: 0 (0)\n- Shots: 0 (0)\n"
    );
    state.merge(&record(0, 0, vec![line("Alice", 0, 0, 0), line("Bob", 1, 400, 0)]));
    let bob = state.tally("Bob").unwrap();
    assert_eq!(bob.score.total, 500);
    assert_eq!(bob.score.last, 400);
    assert_eq!(bob.times_seen, 2);
    assert_eq!(state.tally("Alice").unwrap().score.total, 300);
    assert_eq!(state.games_played(), 2);
    assert_eq!(
        render(&state),
        "## Game 2 finished\n\n\
         ### Bob\n*Played 2 games*\n- Wins/Losses: 0/1\n- Score: 500 (400)\n- Goals: 0 (0)\n- Assists: 0 (0)\n- Saves: 0 (0)\n- Shots: 0 (0)\n\
         ### Alice\n*Played 2 games*\n- Wins/Losses: 1/0\n- Score: 300 (0)\n- Goals: 2 (0)\n- Assists: 0 (0)\n- Saves: 0 (0)\n- Shots: 0 (0)\n"
    );
}
