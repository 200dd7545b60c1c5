//! The match extractor: from a decoded replay header to one match record,
//! and the win/loss rule that a record implies.

use crate::header::decode_header;
use crate::header::decoded_header;
use crate::header::HeaderValue;
use crate::header::HeaderValueView;
use crate::header::StatValue;
use crate::header::StatValueView;
use vstd::prelude::*;

verus! {

/// One player's statistics for a single match.
#[derive(Debug)]
pub struct MatchStatLine {
    pub name: String,
    pub score: u64,
    pub goals: u64,
    pub assists: u64,
    pub saves: u64,
    pub shots: u64,
    pub team: i32,
}

/// The mathematical value of a [`MatchStatLine`].
pub struct StatLineView {
    pub name: Seq<char>,
    pub score: nat,
    pub goals: nat,
    pub assists: nat,
    pub saves: nat,
    pub shots: nat,
    pub team: int,
}

impl View for MatchStatLine {
    type V = StatLineView;

    open spec fn view(&self) -> StatLineView {
        StatLineView {
            name: self.name@,
            score: self.score as nat,
            goals: self.goals as nat,
            assists: self.assists as nat,
            saves: self.saves as nat,
            shots: self.shots as nat,
            team: self.team as int,
        }
    }
}

/// What the extractor reads out of one replay: both teams' final scores and
/// the players' lines in the order of the statistics table.
#[derive(Debug)]
pub struct MatchRecord {
    pub team0_score: i32,
    pub team1_score: i32,
    pub players: Vec<MatchStatLine>,
}

/// The mathematical value of a [`MatchRecord`].
pub struct MatchRecordView {
    pub team0_score: int,
    pub team1_score: int,
    pub players: Seq<StatLineView>,
}

/// The values of a sequence of lines, in the same order.
pub open spec fn lines_view(lines: Seq<MatchStatLine>) -> Seq<StatLineView> {
    lines.map_values(|line: MatchStatLine| line@)
}

impl View for MatchRecord {
    type V = MatchRecordView;

    open spec fn view(&self) -> MatchRecordView {
        MatchRecordView {
            team0_score: self.team0_score as int,
            team1_score: self.team1_score as int,
            players: lines_view(self.players@),
        }
    }
}

/// Why a replay yields no match record.
#[derive(Clone, Copy, Debug, PartialEq, Eq, Structural)]
pub enum ExtractError {
    /// The decoder rejected the file's bytes.
    Undecodable,
    /// The header holds no `PlayerStats` property.
    StatsMissing,
    /// The first `PlayerStats` property is not a table.
    StatsMalformed,
}

/// How a match ended.
#[derive(Clone, Copy, Debug, PartialEq, Eq, Structural)]
pub enum Outcome {
    /// Both teams scored the same.
    Draw,
    /// One team scored more than the other.
    Decided { winner: i32, loser: i32 },
}

/// What a match's outcome means for one player.
#[derive(Clone, Copy, Debug, PartialEq, Eq, Structural)]
pub enum Standing {
    Win,
    Loss,
    Neither,
}

/// The outcome that two final scores imply: a draw where they are equal,
/// else the team with the higher score wins. Teams are numbered 0 and 1.
pub open spec fn outcome_of(team0_score: int, team1_score: int) -> Outcome {
    if team0_score == team1_score {
        Outcome::Draw
    } else if team0_score > team1_score {
        Outcome::Decided { winner: 0, loser: 1 }
    } else {
        Outcome::Decided { winner: 1, loser: 0 }
    }
}

/// A player's standing under an outcome: a win on the winning team, a loss
/// on the losing team, neither on a draw or on any other team number.
pub open spec fn standing_of(outcome: Outcome, team: int) -> Standing {
    match outcome {
        Outcome::Draw => Standing::Neither,
        Outcome::Decided { winner, loser } => if team == winner {
            Standing::Win
        } else if team == loser {
            Standing::Loss
        } else {
            Standing::Neither
        },
    }
}

impl MatchRecordView {
    /// The record's outcome.
    pub open spec fn outcome(self) -> Outcome {
        outcome_of(self.team0_score, self.team1_score)
    }
}

impl MatchRecord {
    /// The record's outcome.
    pub fn outcome(&self) -> (outcome: Outcome)
        ensures
            outcome == self@.outcome(),
    {
        if self.team0_score == self.team1_score {
            Outcome::Draw
        } else if self.team0_score > self.team1_score {
            Outcome::Decided { winner: 0, loser: 1 }
        } else {
            Outcome::Decided { winner: 1, loser: 0 }
        }
    }
}

impl Outcome {
    /// The standing of a player of team `team` under this outcome.
    pub fn standing(&self, team: i32) -> (standing: Standing)
        ensures
            standing == standing_of(*self, team as int),
    {
        match self {
            Outcome::Draw => Standing::Neither,
            Outcome::Decided { winner, loser } => if team == *winner {
                Standing::Win
            } else if team == *loser {
                Standing::Loss
            } else {
                Standing::Neither
            },
        }
    }
}

/// The count that a decoded integer stands for: itself where it is not
/// negative, else its two's-complement bit pattern at 64 bits.
pub open spec fn count_of(v: i32) -> nat {
    if v >= 0 {
        v as nat
    } else {
        (0x1_0000_0000_0000_0000 + v) as nat
    }
}

/// Computes [`count_of`].
pub fn count_from(v: i32) -> (count: u64)
    ensures
        count == count_of(v),
{
    if v >= 0 {
        v as u64
    } else {
        let below: i64 = -(v as i64) - 1;
        u64::MAX - (below as u64)
    }
}

/// The integer that the last integer-valued entry under `key` holds, among
/// the first `end` entries of a row.
pub open spec fn last_int_before(
    row: Seq<(Seq<char>, StatValueView)>,
    key: Seq<char>,
    end: int,
) -> Option<i32>
    decreases end,
{
    if end <= 0 {
        None
    } else {
        match row[end - 1].1 {
            StatValueView::Int(v) => if row[end - 1].0 == key {
                Some(v)
            } else {
                last_int_before(row, key, end - 1)
            },
            _ => last_int_before(row, key, end - 1),
        }
    }
}

/// The string that the last string-valued entry under `key` holds, among the
/// first `end` entries of a row.
pub open spec fn last_text_before(
    row: Seq<(Seq<char>, StatValueView)>,
    key: Seq<char>,
    end: int,
) -> Option<Seq<char>>
    decreases end,
{
    if end <= 0 {
        None
    } else {
        match row[end - 1].1 {
            StatValueView::Text(s) => if row[end - 1].0 == key {
                Some(s)
            } else {
                last_text_before(row, key, end - 1)
            },
            _ => last_text_before(row, key, end - 1),
        }
    }
}

/// A row's integer under `key`: that of the last integer-valued entry with
/// that key, and 0 where the row has none.
pub open spec fn int_field(row: Seq<(Seq<char>, StatValueView)>, key: Seq<char>) -> i32 {
    match last_int_before(row, key, row.len() as int) {
        Some(v) => v,
        None => 0,
    }
}

/// A row's string under `key`: that of the last string-valued entry with that
/// key, if the row has one.
pub open spec fn text_field(row: Seq<(Seq<char>, StatValueView)>, key: Seq<char>) -> Option<
    Seq<char>,
> {
    last_text_before(row, key, row.len() as int)
}

/// The line that one row of the statistics table stands for: none where the
/// row has no string under `Name`; else the six numbers default to 0 where
/// the row has no integer under their key.
pub open spec fn stat_line(row: Seq<(Seq<char>, StatValueView)>) -> Option<StatLineView> {
    match text_field(row, "Name"@) {
        None => None,
        Some(name) => Some(
            StatLineView {
                name,
                score: count_of(int_field(row, "Score"@)),
                goals: count_of(int_field(row, "Goals"@)),
                assists: count_of(int_field(row, "Assists"@)),
                saves: count_of(int_field(row, "Saves"@)),
                shots: count_of(int_field(row, "Shots"@)),
                team: int_field(row, "Team"@) as int,
            },
        ),
    }
}

/// The lines of the first `end` rows, in order, rows without a name left out.
pub open spec fn lines_before(rows: Seq<Seq<(Seq<char>, StatValueView)>>, end: int) -> Seq<
    StatLineView,
>
    decreases end,
{
    if end <= 0 {
        Seq::empty()
    } else {
        match stat_line(rows[end - 1]) {
            Some(line) => lines_before(rows, end - 1).push(line),
            None => lines_before(rows, end - 1),
        }
    }
}

/// The lines of a statistics table.
pub open spec fn lines_of(rows: Seq<Seq<(Seq<char>, StatValueView)>>) -> Seq<StatLineView> {
    lines_before(rows, rows.len() as int)
}

/// The value of the first property under `key` at or after position `start`.
pub open spec fn first_value_from(
    props: Seq<(Seq<char>, HeaderValueView)>,
    key: Seq<char>,
    start: int,
) -> Option<HeaderValueView>
    decreases props.len() - start,
{
    if start < 0 || start >= props.len() {
        None
    } else if props[start].0 == key {
        Some(props[start].1)
    } else {
        first_value_from(props, key, start + 1)
    }
}

/// The value of the first property under `key`.
pub open spec fn first_value(props: Seq<(Seq<char>, HeaderValueView)>, key: Seq<char>) -> Option<
    HeaderValueView,
> {
    first_value_from(props, key, 0)
}

/// A team's final score: the integer of the first property under `key`, and
/// 0 where there is no such property or it holds no integer.
pub open spec fn team_score(props: Seq<(Seq<char>, HeaderValueView)>, key: Seq<char>) -> int {
    match first_value(props, key) {
        Some(HeaderValueView::Int(v)) => v as int,
        _ => 0,
    }
}

/// The match record that a decoded header stands for.
pub open spec fn record_of(props: Seq<(Seq<char>, HeaderValueView)>) -> Result<
    MatchRecordView,
    ExtractError,
> {
    match first_value(props, "PlayerStats"@) {
        None => Err(ExtractError::StatsMissing),
        Some(HeaderValueView::Rows(rows)) => Ok(
            MatchRecordView {
                team0_score: team_score(props, "Team0Score"@),
                team1_score: team_score(props, "Team1Score"@),
                players: lines_of(rows),
            },
        ),
        Some(_) => Err(ExtractError::StatsMalformed),
    }
}

/// The match record that a replay file's bytes stand for.
pub open spec fn extraction_of(data: Seq<u8>) -> Result<MatchRecordView, ExtractError> {
    match decoded_header(data) {
        None => Err(ExtractError::Undecodable),
        Some(props) => record_of(props),
    }
}

/// Whether an extraction's outcome has the value `expected`.
pub open spec fn yields(
    outcome: Result<MatchRecord, ExtractError>,
    expected: Result<MatchRecordView, ExtractError>,
) -> bool {
    match (outcome, expected) {
        (Ok(record), Ok(view)) => record@ == view,
        (Err(e), Err(f)) => e == f,
        _ => false,
    }
}

/// Reads one row of the statistics table.
pub fn read_stat_line(row: &Vec<(String, StatValue)>) -> (line: Option<MatchStatLine>)
    ensures
        match (line, stat_line(row.deep_view())) {
            (Some(l), Some(v)) => l@ == v,
            (None, None) => true,
            _ => false,
        },
{
    let name_key = String::from_str("Name");
    let score_key = String::from_str("Score");
    let goals_key = String::from_str("Goals");
    let assists_key = String::from_str("Assists");
    let saves_key = String::from_str("Saves");
    let shots_key = String::from_str("Shots");
    let team_key = String::from_str("Team");
    let ghost entries = row.deep_view();
    let mut name: Option<String> = None;
    let mut score: i32 = 0;
    let mut goals: i32 = 0;
    let mut assists: i32 = 0;
    let mut saves: i32 = 0;
    let mut shots: i32 = 0;
    let mut team: i32 = 0;
    let mut i: usize = 0;
    while i < row.len()
        invariant
            i <= row.len(),
            entries == row.deep_view(),
            name_key@ == "Name"@,
            score_key@ == "Score"@,
            goals_key@ == "Goals"@,
            assists_key@ == "Assists"@,
            saves_key@ == "Saves"@,
            shots_key@ == "Shots"@,
            team_key@ == "Team"@,
            name.deep_view() == last_text_before(entries, "Name"@, i as int),
            Some(score) == last_int_before(entries, "Score"@, i as int) || (score == 0
                && last_int_before(entries, "Score"@, i as int) is None),
            Some(goals) == last_int_before(entries, "Goals"@, i as int) || (goals == 0
                && last_int_before(entries, "Goals"@, i as int) is None),
            Some(assists) == last_int_before(entries, "Assists"@, i as int) || (assists == 0
                && last_int_before(entries, "Assists"@, i as int) is None),
            Some(saves) == last_int_before(entries, "Saves"@, i as int) || (saves == 0
                && last_int_before(entries, "Saves"@, i as int) is None),
            Some(shots) == last_int_before(entries, "Shots"@, i as int) || (shots == 0
                && last_int_before(entries, "Shots"@, i as int) is None),
            Some(team) == last_int_before(entries, "Team"@, i as int) || (team == 0
                && last_int_before(entries, "Team"@, i as int) is None),
        decreases row.len() - i,
    {
        let entry = &row[i];
        assert(entries[i as int] == (entry.0@, entry.1.deep_view()));
        match &entry.1 {
            StatValue::Int(v) => {
                if entry.0 == score_key {
                    score = *v;
                }
                if entry.0 == goals_key {
                    goals = *v;
                }
                if entry.0 == assists_key {
                    assists = *v;
                }
                if entry.0 == saves_key {
                    saves = *v;
                }
                if entry.0 == shots_key {
                    shots = *v;
                }
                if entry.0 == team_key {
                    team = *v;
                }
            },
            StatValue::Text(s) => {
                if entry.0 == name_key {
                    name = Some(s.clone());
                }
            },
            StatValue::Other => {},
        }
        i += 1;
    }
    match name {
        None => None,
        Some(name) => Some(
            MatchStatLine {
                name,
                score: count_from(score),
                goals: count_from(goals),
                assists: count_from(assists),
                saves: count_from(saves),
                shots: count_from(shots),
                team,
            },
        ),
    }
}

/// Reads the statistics table: one line per row that names its player.
pub fn read_lines(rows: &Vec<Vec<(String, StatValue)>>) -> (lines: Vec<MatchStatLine>)
    ensures
        lines_view(lines@) == lines_of(rows.deep_view()),
{
    let ghost table = rows.deep_view();
    let mut lines: Vec<MatchStatLine> = Vec::new();
    let mut i: usize = 0;
    while i < rows.len()
        invariant
            i <= rows.len(),
            table == rows.deep_view(),
            lines_view(lines@) == lines_before(table, i as int),
        decreases rows.len() - i,
    {
        assert(table[i as int] == rows[i as int].deep_view());
        let ghost before = lines@;
        match read_stat_line(&rows[i]) {
            Some(line) => {
                lines.push(line);
                assert(lines_view(lines@) =~= lines_view(before).push(line@));
            },
            None => {},
        }
        i += 1;
    }
    lines
}

/// The position of the first property under `key`.
fn first_position(props: &Vec<(String, HeaderValue)>, key: &str) -> (found: Option<usize>)
    ensures
        match found {
            Some(i) => i < props.len() && first_value(props.deep_view(), key@) == Some(
                props[i as int].1.deep_view(),
            ),
            None => first_value(props.deep_view(), key@) is None,
        },
{
    let wanted = String::from_str(key);
    let ghost entries = props.deep_view();
    let mut i: usize = 0;
    while i < props.len()
        invariant
            i <= props.len(),
            entries == props.deep_view(),
            wanted@ == key@,
            first_value(entries, key@) == first_value_from(entries, key@, i as int),
        decreases props.len() - i,
    {
        assert(entries[i as int] == (props[i as int].0@, props[i as int].1.deep_view()));
        if props[i].0 == wanted {
            return Some(i);
        }
        i += 1;
    }
    None
}

/// A team's final score as the header gives it under `key`.
fn read_team_score(props: &Vec<(String, HeaderValue)>, key: &str) -> (score: i32)
    ensures
        score == team_score(props.deep_view(), key@),
{
    match first_position(props, key) {
        Some(i) => match &props[i].1 {
            HeaderValue::Int(v) => *v,
            _ => 0,
        },
        None => 0,
    }
}

/// Builds the match record out of a decoded header.
///
/// The statistics table is the first `PlayerStats` property; without one, or
/// where it is no table, there is no record. The scores are the first
/// `Team0Score` and `Team1Score` properties.
pub fn record_from_header(props: &Vec<(String, HeaderValue)>) -> (outcome: Result<
    MatchRecord,
    ExtractError,
>)
    ensures
        yields(outcome, record_of(props.deep_view())),
{
    match first_position(props, "PlayerStats") {
        None => Err(ExtractError::StatsMissing),
        Some(i) => match &props[i].1 {
            HeaderValue::Rows(rows) => {
                let team0_score = read_team_score(props, "Team0Score");
                let team1_score = read_team_score(props, "Team1Score");
                let players = read_lines(rows);
                Ok(MatchRecord { team0_score, team1_score, players })
            },
            _ => Err(ExtractError::StatsMalformed),
        },
    }
}

/// Extracts the match record from a replay file's bytes.
///
/// Only the header is decoded. A file that the decoder rejects gives
/// `Undecodable`; what a decoded header gives is [`record_of`] of it.
pub fn extract(data: &[u8]) -> (outcome: Result<MatchRecord, ExtractError>)
    ensures
        yields(outcome, extraction_of(data@)),
{
    match decode_header(data) {
        Ok(props) => record_from_header(&props),
        Err(_) => Err(ExtractError::Undecodable),
    }
}

} // verus!
