use session_tally::debounce::Action;
use session_tally::debounce::EventKind;
use session_tally::debounce::FilePath;
use session_tally::debounce::RawEvent;
use session_tally::record::ExtractError;
use session_tally::record::MatchRecord;
use session_tally::record::MatchStatLine;
use session_tally::session::Engine;
use session_tally::session::Skip;

fn event(kind: EventKind, text: &str, extension: Option<&str>) -> RawEvent {
    RawEvent {
        kind,
        path: FilePath::new(text.to_string(), extension.map(|e| e.to_string())),
    }
}

fn put_str(out: &mut Vec<u8>, s: &str) {
    out.extend_from_slice(&((s.len() + 1) as i32).to_le_bytes());
    out.extend_from_slice(s.as_bytes());
    out.push(0);
}

fn put_number(out: &mut Vec<u8>, key: &str, value: i32) {
    put_str(out, key);
    put_str(out, "IntProperty");
    out.extend_from_slice(&[0u8; 8]);
    out.extend_from_slice(&value.to_le_bytes());
}

fn put_player(out: &mut Vec<u8>, name: &str, team: i32, score: i32) {
    put_str(out, "Name");
    put_str(out, "StrProperty");
    out.extend_from_slice(&[0u8; 8]);
    put_str(out, name);
    put_number(out, "Team", team);
    put_number(out, "Score", score);
    put_str(out, "None");
}

fn replay(team0_score: i32, team1_score: i32, players: &[(&str, i32, i32)]) -> Vec<u8> {
    let mut header: Vec<u8> = Vec::new();
    header.extend_from_slice(&868i32.to_le_bytes());
    header.extend_from_slice(&12i32.to_le_bytes());
    put_str(&mut header, "TAGame.Replay_Soccar_TA");
    put_number(&mut header, "Team0Score", team0_score);
    put_number(&mut header, "Team1Score", team1_score);
    put_str(&mut header, "PlayerStats");
    put_str(&mut header, "ArrayProperty");
    header.extend_from_slice(&[0u8; 8]);
    header.extend_from_slice(&(players.len() as i32).to_le_bytes());
    for (name, team, score) in players {
        put_player(&mut header, name, *team, *score);
    }
    put_str(&mut header, "None");
    let mut out: Vec<u8> = Vec::new();
    out.extend_from_slice(&(header.len() as i32).to_le_bytes());
    out.extend_from_slice(&0u32.to_le_bytes());
    out.extend_from_slice(&header);
    out.extend_from_slice(&40i32.to_le_bytes());
    out.extend_from_slice(&0u32.to_le_bytes());
    out.extend_from_slice(&[0u8; 40]);
    out
}

#[test]
fn event_pair_on_a_replay_makes_it_ready() {
    let mut engine = Engine::new();
    let created = event(EventKind::Created, "C:\\replays\\a.replay", Some("replay"));
    let modified = event(EventKind::Modified, "C:\\replays\\a.replay", Some("replay"));
    assert!(matches!(engine.on_event(&created), Action::AwaitWrite));
    match engine.on_event(&modified) {
        Action::Read(path) => assert_eq!(path.text, "C:\\replays\\a.replay"),
        other => panic!("not read: {:?}", other),
    }
    assert!(matches!(engine.on_event(&modified), Action::Ignore));
    assert_eq!(engine.session().games_played(), 0);
}

#[test]
fn event_pair_on_another_file_is_dropped() {
    let mut engine = Engine::new();
    let created = event(EventKind::Created, "C:\\replays\\a.tmp", Some("tmp"));
    let modified = event(EventKind::Modified, "C:\\replays\\a.tmp", Some("tmp"));
    assert!(matches!(engine.on_event(&created), Action::AwaitWrite));
    assert!(matches!(engine.on_event(&modified), Action::Discard));
    let created = event(EventKind::Created, "C:\\replays\\replay", None);
    let modified = event(EventKind::Modified, "C:\\replays\\replay", None);
    assert!(matches!(engine.on_event(&created), Action::AwaitWrite));
    assert!(matches!(engine.on_event(&modified), Action::Discard));
}

#[test]
fn replay_is_tallied_and_reported() {
    let mut engine = Engine::new();
    let report = engine.on_replay(&replay(2, 1, &[("Alice", 0, 300), ("Bob", 1, 100)])).unwrap();
    assert_eq!(
        report,
        "## Game 1 finished\n\n\
         ### Alice\n*Played 1 games*\n- Wins/Losses: 1/0\n- Score: 300 (300)\n- Goals: 0 (0)\n- Assists: 0 (0)\n- Saves: 0 (0)\n- Shots: 0 (0)\n\
         ### Bob\n*Played 1 games*\n- Wins/Losses: 0/1\n- Score: 100 (100)\n- Goals: 0 (0)\n- Assists: 0 (0)\n- Saves: 0 (0)\n- Shots: 0 (0)\n"
    );
    assert_eq!(engine.session().games_played(), 1);
    assert_eq!(engine.session().tally("Bob").unwrap().losses, 1);
}

#[test]
fn unreadable_replay_leaves_the_session_as_it_was() {
    let mut engine = Engine::new();
    engine.on_replay(&replay(2, 1, &[("Alice", 0, 300)])).unwrap();
    assert_eq!(
        engine.on_replay(&[0u8, 1, 2]).unwrap_err(),
        Skip::Unreadable(ExtractError::Undecodable)
    );
    let mut no_stats: Vec<u8> = replay(2, 1, &[]);
    let at = no_stats.windows(11).position(|w| w == b"PlayerStats").unwrap();
    no_stats[at] = b'X';
    assert_eq!(
        engine.on_replay(&no_stats).unwrap_err(),
        Skip::Unreadable(ExtractError::StatsMissing)
    );
    assert_eq!(engine.session().games_played(), 1);
    assert_eq!(engine.session().players().len(), 1);
    assert_eq!(engine.session().tally("Alice").unwrap().score.total, 300);
}

#[test]
fn record_that_no_longer_fits_is_skipped() {
    let mut engine = Engine::new();
    let big = MatchRecord {
        team0_score: 1,
        team1_score: 0,
        players: vec![MatchStatLine {
            name: "Alice".to_string(),
            score: u64::MAX,
            goals: 0,
            assists: 0,
            saves: 0,
            shots: 0,
            team: 0,
        }],
    };
    assert!(engine.on_record(&big).is_ok());
    assert_eq!(engine.on_replay(&replay(1, 0, &[("Alice", 0, 1)])).unwrap_err(), Skip::TallyFull);
    assert_eq!(engine.on_record(&big).unwrap_err(), Skip::TallyFull);
    assert_eq!(engine.session().games_played(), 1);
    assert_eq!(engine.session().tally("Alice").unwrap().times_seen, 1);
}
