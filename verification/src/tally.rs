//! The session tally: cumulative per-player statistics over the matches of
//! one session, and the rule by which a match is folded into them.

use crate::record::standing_of;
use crate::record::MatchRecord;
use crate::record::MatchRecordView;
use crate::record::MatchStatLine;
use crate::record::Outcome;
use crate::record::Standing;
use crate::record::StatLineView;
use vstd::prelude::*;

verus! {

/// One statistic of a player: its sum over the matches seen, and its value
/// in the most recent of them.
#[derive(Clone, Copy, Debug, PartialEq, Eq, Structural)]
pub struct Metric {
    pub total: u64,
    pub last: u64,
}

/// The mathematical value of a [`Metric`].
pub struct MetricView {
    pub total: nat,
    pub last: nat,
}

impl View for Metric {
    type V = MetricView;

    open spec fn view(&self) -> MetricView {
        MetricView { total: self.total as nat, last: self.last as nat }
    }
}

/// A player's cumulative statistics.
#[derive(Clone, Copy, Debug, PartialEq, Eq, Structural)]
pub struct PlayerTally {
    pub times_seen: u64,
    pub wins: u64,
    pub losses: u64,
    pub score: Metric,
    pub goals: Metric,
    pub assists: Metric,
    pub saves: Metric,
    pub shots: Metric,
}

/// The mathematical value of a [`PlayerTally`].
pub struct TallyView {
    pub times_seen: nat,
    pub wins: nat,
    pub losses: nat,
    pub score: MetricView,
    pub goals: MetricView,
    pub assists: MetricView,
    pub saves: MetricView,
    pub shots: MetricView,
}

impl View for PlayerTally {
    type V = TallyView;

    open spec fn view(&self) -> TallyView {
        TallyView {
            times_seen: self.times_seen as nat,
            wins: self.wins as nat,
            losses: self.losses as nat,
            score: self.score@,
            goals: self.goals@,
            assists: self.assists@,
            saves: self.saves@,
            shots: self.shots@,
        }
    }
}

/// A statistic after one more match in which it was `value`.
pub open spec fn metric_after(metric: MetricView, value: nat) -> MetricView {
    MetricView { total: metric.total + value, last: value }
}

/// The statistic of which nothing was seen yet.
pub open spec fn no_metric() -> MetricView {
    MetricView { total: 0, last: 0 }
}

/// The tally of a player of whom nothing was seen yet.
pub open spec fn no_tally() -> TallyView {
    TallyView {
        times_seen: 0,
        wins: 0,
        losses: 0,
        score: no_metric(),
        goals: no_metric(),
        assists: no_metric(),
        saves: no_metric(),
        shots: no_metric(),
    }
}

/// A tally after one more line of its player, who has the given standing in
/// that line's match.
pub open spec fn credited(tally: TallyView, line: StatLineView, standing: Standing) -> TallyView {
    TallyView {
        times_seen: tally.times_seen + 1,
        wins: if standing == Standing::Win {
            tally.wins + 1
        } else {
            tally.wins
        },
        losses: if standing == Standing::Loss {
            tally.losses + 1
        } else {
            tally.losses
        },
        score: metric_after(tally.score, line.score),
        goals: metric_after(tally.goals, line.goals),
        assists: metric_after(tally.assists, line.assists),
        saves: metric_after(tally.saves, line.saves),
        shots: metric_after(tally.shots, line.shots),
    }
}

/// Whether tally `a` ranks above tally `b`: by the higher cumulative score,
/// and between equal ones by the higher score in the most recent match.
pub open spec fn outranks(a: TallyView, b: TallyView) -> bool {
    a.score.total > b.score.total || (a.score.total == b.score.total && a.score.last
        > b.score.last)
}

/// Whether a statistic's sum can be held in 64 bits.
pub open spec fn metric_fits(metric: MetricView) -> bool {
    metric.total <= u64::MAX
}

/// Whether every count and sum of a tally can be held in 64 bits.
pub open spec fn tally_fits(tally: TallyView) -> bool {
    &&& tally.times_seen <= u64::MAX
    &&& tally.wins <= u64::MAX
    &&& tally.losses <= u64::MAX
    &&& metric_fits(tally.score)
    &&& metric_fits(tally.goals)
    &&& metric_fits(tally.assists)
    &&& metric_fits(tally.saves)
    &&& metric_fits(tally.shots)
}

/// A statistic after one more match, unless its sum no longer fits.
fn metric_plus(metric: Metric, value: u64) -> (next: Option<Metric>)
    ensures
        match next {
            Some(m) => m@ == metric_after(metric@, value as nat),
            None => !metric_fits(metric_after(metric@, value as nat)),
        },
{
    match metric.total.checked_add(value) {
        Some(total) => Some(Metric { total, last: value }),
        None => None,
    }
}

/// A count after one more occurrence, where `counted` holds, unless it no
/// longer fits.
fn count_plus(count: u64, counted: bool) -> (next: Option<u64>)
    ensures
        match next {
            Some(n) => n == count + if counted { 1nat } else { 0nat },
            None => counted && count + 1 > u64::MAX,
        },
{
    if counted {
        count.checked_add(1)
    } else {
        Some(count)
    }
}

impl PlayerTally {
    /// Whether this tally ranks above `other` in the report.
    pub fn ranks_above(&self, other: &PlayerTally) -> (above: bool)
        ensures
            above == outranks(self@, other@),
    {
        self.score.total > other.score.total || (self.score.total == other.score.total
            && self.score.last > other.score.last)
    }

    /// The tally of a player of whom nothing was seen yet.
    pub fn empty() -> (tally: PlayerTally)
        ensures
            tally@ == no_tally(),
    {
        let none = Metric { total: 0, last: 0 };
        PlayerTally {
            times_seen: 0,
            wins: 0,
            losses: 0,
            score: none,
            goals: none,
            assists: none,
            saves: none,
            shots: none,
        }
    }

    /// The tally after one more line of its player, unless one of its
    /// numbers no longer fits in 64 bits.
    pub fn credit(&self, line: &MatchStatLine, standing: Standing) -> (next: Option<PlayerTally>)
        ensures
            next is Some <==> tally_fits(credited(self@, line@, standing)),
            next matches Some(t) ==> t@ == credited(self@, line@, standing),
    {
        let times_seen = count_plus(self.times_seen, true);
        let wins = count_plus(self.wins, standing == Standing::Win);
        let losses = count_plus(self.losses, standing == Standing::Loss);
        let score = metric_plus(self.score, line.score);
        let goals = metric_plus(self.goals, line.goals);
        let assists = metric_plus(self.assists, line.assists);
        let saves = metric_plus(self.saves, line.saves);
        let shots = metric_plus(self.shots, line.shots);
        match (times_seen, wins, losses, score, goals, assists, saves, shots) {
            (
                Some(times_seen),
                Some(wins),
                Some(losses),
                Some(score),
                Some(goals),
                Some(assists),
                Some(saves),
                Some(shots),
            ) => Some(
                PlayerTally { times_seen, wins, losses, score, goals, assists, saves, shots },
            ),
            _ => None,
        }
    }
}

/// A player of the session with their tally.
#[derive(Debug)]
pub struct PlayerEntry {
    pub name: String,
    pub tally: PlayerTally,
}

/// The mathematical value of a [`PlayerEntry`].
pub struct PlayerView {
    pub name: Seq<char>,
    pub tally: TallyView,
}

impl View for PlayerEntry {
    type V = PlayerView;

    open spec fn view(&self) -> PlayerView {
        PlayerView { name: self.name@, tally: self.tally@ }
    }
}

/// The values of a sequence of entries, in the same order.
pub open spec fn players_view(entries: Seq<PlayerEntry>) -> Seq<PlayerView> {
    entries.map_values(|entry: PlayerEntry| entry@)
}

/// The mathematical value of a [`SessionState`]: the players in the order in
/// which the session first saw them, and the number of matches folded in.
pub struct SessionView {
    pub players: Seq<PlayerView>,
    pub games_played: nat,
}

/// The position of the first player called `name` at or after `start`.
pub open spec fn position_from(players: Seq<PlayerView>, name: Seq<char>, start: int) -> Option<int>
    decreases players.len() - start,
{
    if start < 0 || start >= players.len() {
        None
    } else if players[start].name == name {
        Some(start)
    } else {
        position_from(players, name, start + 1)
    }
}

/// The position of the player called `name`.
pub open spec fn position_of(players: Seq<PlayerView>, name: Seq<char>) -> Option<int> {
    position_from(players, name, 0)
}

/// The tally of the player called `name`, if the session has seen them.
pub open spec fn tally_of(players: Seq<PlayerView>, name: Seq<char>) -> Option<TallyView> {
    match position_of(players, name) {
        Some(i) => Some(players[i].tally),
        None => None,
    }
}

/// The players after one line of a match with the given outcome.
///
/// A line without a name changes nothing. A line of a known player credits
/// that player's tally; a line of a new player adds them behind all others,
/// with the tally of that one line.
pub open spec fn with_line(players: Seq<PlayerView>, line: StatLineView, outcome: Outcome) -> Seq<
    PlayerView,
> {
    let standing = standing_of(outcome, line.team);
    if line.name.len() == 0 {
        players
    } else {
        match position_of(players, line.name) {
            Some(i) => players.update(
                i,
                PlayerView { name: line.name, tally: credited(players[i].tally, line, standing) },
            ),
            None => players.push(
                PlayerView { name: line.name, tally: credited(no_tally(), line, standing) },
            ),
        }
    }
}

/// The players after the first `end` lines of a match, taken in order.
pub open spec fn with_lines_before(
    players: Seq<PlayerView>,
    lines: Seq<StatLineView>,
    outcome: Outcome,
    end: int,
) -> Seq<PlayerView>
    decreases end,
{
    if end <= 0 {
        players
    } else {
        with_line(with_lines_before(players, lines, outcome, end - 1), lines[end - 1], outcome)
    }
}

/// The session after one more match: every line folded in, in order, and
/// one more game played.
pub open spec fn merged(state: SessionView, record: MatchRecordView) -> SessionView {
    SessionView {
        players: with_lines_before(
            state.players,
            record.players,
            record.outcome(),
            record.players.len() as int,
        ),
        games_played: state.games_played + 1,
    }
}

/// Whether every player's counts and sums can be held in 64 bits.
pub open spec fn all_fit(players: Seq<PlayerView>) -> bool {
    forall|i: int| 0 <= i < players.len() ==> tally_fits(#[trigger] players[i].tally)
}

/// Whether a match can be folded into a session without any count or sum
/// leaving the range of 64 bits.
pub open spec fn mergeable(state: SessionView, record: MatchRecordView) -> bool {
    &&& state.games_played + 1 <= u64::MAX
    &&& all_fit(merged(state, record).players)
}

/// What holds of the players of every session: each has a name, no two share
/// one, each was seen at least once, and wins and losses together do not
/// exceed the times seen.
pub open spec fn well_formed(players: Seq<PlayerView>) -> bool {
    &&& forall|i: int|
        0 <= i < players.len() ==> {
            &&& (#[trigger] players[i]).name.len() > 0
            &&& players[i].tally.times_seen >= 1
            &&& players[i].tally.wins + players[i].tally.losses <= players[i].tally.times_seen
        }
    &&& forall|i: int, j: int|
        0 <= i < j < players.len() ==> (#[trigger] players[i]).name != (#[trigger] players[j]).name
}

/// Where [`position_from`] finds a name, and that it finds the first.
proof fn lemma_position_from(players: Seq<PlayerView>, name: Seq<char>, start: int)
    requires
        0 <= start <= players.len(),
    ensures
        match position_from(players, name, start) {
            Some(i) => {
                &&& start <= i < players.len()
                &&& players[i].name == name
                &&& forall|j: int| start <= j < i ==> (#[trigger] players[j]).name != name
            },
            None => forall|j: int|
                start <= j < players.len() ==> (#[trigger] players[j]).name != name,
        },
    decreases players.len() - start,
{
    if start < players.len() && players[start].name != name {
        lemma_position_from(players, name, start + 1);
    }
}

/// One line keeps the players well formed.
proof fn lemma_line_keeps_well_formed(
    players: Seq<PlayerView>,
    line: StatLineView,
    outcome: Outcome,
)
    requires
        well_formed(players),
    ensures
        well_formed(with_line(players, line, outcome)),
{
    lemma_position_from(players, line.name, 0);
}

/// Any number of lines keep the players well formed.
proof fn lemma_lines_keep_well_formed(
    players: Seq<PlayerView>,
    lines: Seq<StatLineView>,
    outcome: Outcome,
    end: int,
)
    requires
        well_formed(players),
    ensures
        well_formed(with_lines_before(players, lines, outcome, end)),
    decreases end,
{
    if end > 0 {
        lemma_lines_keep_well_formed(players, lines, outcome, end - 1);
        lemma_line_keeps_well_formed(
            with_lines_before(players, lines, outcome, end - 1),
            lines[end - 1],
            outcome,
        );
    }
}

/// Counts and sums only grow: where they fit after `end` lines, they fit
/// after any fewer.
proof fn lemma_fit_after_fewer_lines(
    players: Seq<PlayerView>,
    lines: Seq<StatLineView>,
    outcome: Outcome,
    fewer: int,
    end: int,
)
    requires
        0 <= fewer <= end,
        all_fit(with_lines_before(players, lines, outcome, end)),
    ensures
        all_fit(with_lines_before(players, lines, outcome, fewer)),
    decreases end - fewer,
{
    if fewer < end {
        let before = with_lines_before(players, lines, outcome, end - 1);
        let after = with_line(before, lines[end - 1], outcome);
        lemma_position_from(before, lines[end - 1].name, 0);
        assert forall|i: int| 0 <= i < before.len() implies tally_fits(
            #[trigger] before[i].tally,
        ) by {
            assert(tally_fits(after[i].tally));
        }
        lemma_fit_after_fewer_lines(players, lines, outcome, fewer, end - 1);
    }
}

/// Where counts and sums do not fit after some of a match's lines, they do
/// not fit after all of them.
proof fn lemma_unfit_stays_unfit(
    players: Seq<PlayerView>,
    lines: Seq<StatLineView>,
    outcome: Outcome,
    fewer: int,
)
    requires
        0 <= fewer <= lines.len(),
        !all_fit(with_lines_before(players, lines, outcome, fewer)),
    ensures
        !all_fit(with_lines_before(players, lines, outcome, lines.len() as int)),
{
    if all_fit(with_lines_before(players, lines, outcome, lines.len() as int)) {
        lemma_fit_after_fewer_lines(players, lines, outcome, fewer, lines.len() as int);
    }
}

/// The position of the entry called `name`.
fn find_entry(entries: &Vec<PlayerEntry>, name: &String) -> (found: Option<usize>)
    ensures
        match found {
            Some(i) => position_of(players_view(entries@), name@) == Some(i as int)
                && i < entries.len(),
            None => position_of(players_view(entries@), name@) is None,
        },
{
    let ghost players = players_view(entries@);
    let mut i: usize = 0;
    while i < entries.len()
        invariant
            i <= entries.len(),
            players == players_view(entries@),
            position_of(players, name@) == position_from(players, name@, i as int),
        decreases entries.len() - i,
    {
        if entries[i].name == *name {
            return Some(i);
        }
        i += 1;
    }
    None
}

/// A copy of the entries.
fn copy_entries(entries: &Vec<PlayerEntry>) -> (copy: Vec<PlayerEntry>)
    ensures
        players_view(copy@) == players_view(entries@),
{
    let mut copy: Vec<PlayerEntry> = Vec::new();
    let mut i: usize = 0;
    while i < entries.len()
        invariant
            i <= entries.len(),
            copy.len() == i,
            forall|k: int| 0 <= k < i ==> (#[trigger] copy@[k])@ == entries@[k]@,
        decreases entries.len() - i,
    {
        let entry = PlayerEntry { name: entries[i].name.clone(), tally: entries[i].tally };
        copy.push(entry);
        i += 1;
    }
    assert(players_view(copy@) =~= players_view(entries@));
    copy
}

/// The process-lifetime state of a session: every player seen so far with
/// their tally, and the number of matches folded in.
#[derive(Debug)]
pub struct SessionState {
    players: Vec<PlayerEntry>,
    games_played: u64,
}

impl View for SessionState {
    type V = SessionView;

    closed spec fn view(&self) -> SessionView {
        SessionView {
            players: players_view(self.players@),
            games_played: self.games_played as nat,
        }
    }
}

impl SessionState {
    #[verifier::type_invariant]
    spec fn valid(self) -> bool {
        well_formed(players_view(self.players@))
    }

    /// The state of a session in which no match was played yet.
    pub fn new() -> (state: SessionState)
        ensures
            state@.players.len() == 0,
            state@.games_played == 0,
    {
        SessionState { players: Vec::new(), games_played: 0 }
    }

    /// The number of matches folded in so far.
    pub fn games_played(&self) -> (games: u64)
        ensures
            games == self@.games_played,
    {
        self.games_played
    }

    /// The players seen so far, in the order in which they were first seen.
    pub fn players(&self) -> (entries: &Vec<PlayerEntry>)
        ensures
            players_view(entries@) == self@.players,
            well_formed(self@.players),
            all_fit(self@.players),
    {
        proof {
            use_type_invariant(self);
        }
        &self.players
    }

    /// The tally of the player called `name`, if the session has seen them.
    pub fn tally(&self, name: &str) -> (tally: Option<PlayerTally>)
        ensures
            match tally {
                Some(t) => {
                    &&& tally_of(self@.players, name@) == Some(t@)
                    &&& t.times_seen >= 1
                    &&& t.wins + t.losses <= t.times_seen
                },
                None => tally_of(self@.players, name@) is None,
            },
    {
        proof {
            use_type_invariant(self);
        }
        let wanted = String::from_str(name);
        match find_entry(&self.players, &wanted) {
            Some(i) => {
                assert(players_view(self.players@)[i as int].tally == self.players[i as int].tally@);
                Some(self.players[i].tally)
            },
            None => None,
        }
    }

    /// Folds a match into the session, unless a count or a sum would leave
    /// the range of 64 bits: then nothing changes.
    pub fn try_merge(&mut self, record: &MatchRecord) -> (done: bool)
        ensures
            done == mergeable(old(self)@, record@),
            done ==> final(self)@ == merged(old(self)@, record@),
            !done ==> final(self)@ == old(self)@,
            well_formed(final(self)@.players),
    {
        proof {
            use_type_invariant(&*self);
        }
        if self.games_played == u64::MAX {
            return false;
        }
        let outcome = record.outcome();
        let ghost start = players_view(self.players@);
        let ghost lines = record@.players;
        let mut next = copy_entries(&self.players);
        let mut i: usize = 0;
        while i < record.players.len()
            invariant
                i <= record.players.len(),
                *self == *old(self),
                start == old(self)@.players,
                well_formed(start),
                lines == record@.players,
                outcome == record@.outcome(),
                players_view(next@) == with_lines_before(start, lines, outcome, i as int),
            decreases record.players.len() - i,
        {
            let line = &record.players[i];
            assert(lines[i as int] == line@);
            let ghost before = players_view(next@);
            let standing = outcome.standing(line.team);
            if !line.name.as_str().is_empty() {
                match find_entry(&next, &line.name) {
                    Some(j) => {
                        match next[j].tally.credit(line, standing) {
                            Some(tally) => {
                                next.set(j, PlayerEntry { name: line.name.clone(), tally });
                            },
                            None => {
                                proof {
                                    let after = with_line(before, line@, outcome);
                                    assert(!tally_fits(after[j as int].tally));
                                    lemma_unfit_stays_unfit(start, lines, outcome, i + 1);
                                }
                                return false;
                            },
                        }
                    },
                    None => {
                        let fresh = PlayerTally::empty().credit(line, standing);
                        match fresh {
                            Some(tally) => {
                                next.push(PlayerEntry { name: line.name.clone(), tally });
                            },
                            None => {
                                proof {
                                    let after = with_line(before, line@, outcome);
                                    assert(!tally_fits(after[before.len() as int].tally));
                                    lemma_unfit_stays_unfit(start, lines, outcome, i + 1);
                                }
                                return false;
                            },
                        }
                    },
                }
            }
            assert(players_view(next@) =~= with_line(before, line@, outcome));
            i += 1;
        }
        proof {
            lemma_lines_keep_well_formed(start, lines, outcome, lines.len() as int);
            assert forall|k: int| 0 <= k < players_view(next@).len() implies tally_fits(
                #[trigger] players_view(next@)[k].tally,
            ) by {
                assert(players_view(next@)[k].tally == next@[k].tally@);
            }
        }
        self.players = next;
        self.games_played = self.games_played + 1;
        true
    }

    /// Folds a match into the session.
    pub fn merge(&mut self, record: &MatchRecord)
        requires
            mergeable(old(self)@, record@),
        ensures
            final(self)@ == merged(old(self)@, record@),
            well_formed(final(self)@.players),
    {
        let done = self.try_merge(record);
        assert(done);
    }
}

/// Folding a match into a well-formed session gives a well-formed session.
pub proof fn merged_is_well_formed(state: SessionView, record: MatchRecordView)
    requires
        well_formed(state.players),
    ensures
        well_formed(merged(state, record).players),
{
    lemma_lines_keep_well_formed(
        state.players,
        record.players,
        record.outcome(),
        record.players.len() as int,
    );
}

/// [`position_from`] finds `i` where `i` is the first place of the name.
proof fn lemma_position_found(players: Seq<PlayerView>, name: Seq<char>, start: int, i: int)
    requires
        0 <= start <= i < players.len(),
        players[i].name == name,
        forall|j: int| start <= j < i ==> (#[trigger] players[j]).name != name,
    ensures
        position_from(players, name, start) == Some(i),
    decreases i - start,
{
    if start < i {
        lemma_position_found(players, name, start + 1, i);
    }
}

/// [`position_from`] finds nothing where no player has the name.
proof fn lemma_position_missing(players: Seq<PlayerView>, name: Seq<char>, start: int)
    requires
        0 <= start,
        forall|j: int| start <= j < players.len() ==> (#[trigger] players[j]).name != name,
    ensures
        position_from(players, name, start) is None,
    decreases players.len() - start,
{
    if start < players.len() {
        lemma_position_missing(players, name, start + 1);
    }
}

/// The tally that a player has after one line: credited where the line
/// bears their name, unchanged where it does not.
pub open spec fn tally_after_line(
    tally: Option<TallyView>,
    line: StatLineView,
    outcome: Outcome,
    name: Seq<char>,
) -> Option<TallyView> {
    if line.name == name && name.len() > 0 {
        let earlier = match tally {
            Some(t) => t,
            None => no_tally(),
        };
        Some(credited(earlier, line, standing_of(outcome, line.team)))
    } else {
        tally
    }
}

/// The tally that a player has after the first `end` lines of a match.
pub open spec fn tally_after_lines(
    tally: Option<TallyView>,
    lines: Seq<StatLineView>,
    outcome: Outcome,
    name: Seq<char>,
    end: int,
) -> Option<TallyView>
    decreases end,
{
    if end <= 0 {
        tally
    } else {
        tally_after_line(
            tally_after_lines(tally, lines, outcome, name, end - 1),
            lines[end - 1],
            outcome,
            name,
        )
    }
}

/// One line acts on the player whom it names and on nobody else.
pub proof fn line_acts_per_player(
    players: Seq<PlayerView>,
    line: StatLineView,
    outcome: Outcome,
    name: Seq<char>,
)
    ensures
        tally_of(with_line(players, line, outcome), name) == tally_after_line(
            tally_of(players, name),
            line,
            outcome,
            name,
        ),
{
    let after = with_line(players, line, outcome);
    lemma_position_from(players, line.name, 0);
    lemma_position_from(players, name, 0);
    if line.name.len() > 0 {
        match position_of(players, name) {
            Some(i) => {
                lemma_position_found(after, name, 0, i);
            },
            None => {
                if line.name == name {
                    lemma_position_found(after, name, 0, players.len() as int);
                } else {
                    lemma_position_missing(after, name, 0);
                }
            },
        }
    }
}

/// A match acts on each player by the lines that name them, and by nothing
/// else: the tally of a player after the match is their earlier tally with
/// those lines credited in order.
pub proof fn merge_acts_per_player(state: SessionView, record: MatchRecordView, name: Seq<char>)
    ensures
        tally_of(merged(state, record).players, name) == tally_after_lines(
            tally_of(state.players, name),
            record.players,
            record.outcome(),
            name,
            record.players.len() as int,
        ),
        merged(state, record).games_played == state.games_played + 1,
{
    lemma_lines_act_per_player(
        state.players,
        record.players,
        record.outcome(),
        name,
        record.players.len() as int,
    );
}

proof fn lemma_lines_act_per_player(
    players: Seq<PlayerView>,
    lines: Seq<StatLineView>,
    outcome: Outcome,
    name: Seq<char>,
    end: int,
)
    ensures
        tally_of(with_lines_before(players, lines, outcome, end), name) == tally_after_lines(
            tally_of(players, name),
            lines,
            outcome,
            name,
            end,
        ),
    decreases end,
{
    if end > 0 {
        lemma_lines_act_per_player(players, lines, outcome, name, end - 1);
        line_acts_per_player(
            with_lines_before(players, lines, outcome, end - 1),
            lines[end - 1],
            outcome,
            name,
        );
    }
}

/// The number of lines among the first `end` that name the player `name`.
pub open spec fn lines_naming(lines: Seq<StatLineView>, name: Seq<char>, end: int) -> nat
    decreases end,
{
    if end <= 0 {
        0
    } else if lines[end - 1].name == name && name.len() > 0 {
        lines_naming(lines, name, end - 1) + 1
    } else {
        lines_naming(lines, name, end - 1)
    }
}

/// The tally to count on from: a player's own, or the empty one.
pub open spec fn tally_or_none(tally: Option<TallyView>) -> TallyView {
    match tally {
        Some(t) => t,
        None => no_tally(),
    }
}

/// A match in which no line names a player leaves that player's tally as it
/// was, while the number of games played grows by one.
pub proof fn unnamed_player_keeps_tally(
    state: SessionView,
    record: MatchRecordView,
    name: Seq<char>,
)
    requires
        forall|i: int| 0 <= i < record.players.len() ==> (#[trigger] record.players[i]).name != name,
    ensures
        tally_of(merged(state, record).players, name) == tally_of(state.players, name),
        merged(state, record).games_played == state.games_played + 1,
{
    merge_acts_per_player(state, record, name);
    lemma_unnamed_keeps(
        tally_of(state.players, name),
        record.players,
        record.outcome(),
        name,
        record.players.len() as int,
    );
}

proof fn lemma_unnamed_keeps(
    tally: Option<TallyView>,
    lines: Seq<StatLineView>,
    outcome: Outcome,
    name: Seq<char>,
    end: int,
)
    requires
        end <= lines.len(),
        forall|i: int| 0 <= i < lines.len() ==> (#[trigger] lines[i]).name != name,
    ensures
        tally_after_lines(tally, lines, outcome, name, end) == tally,
    decreases end,
{
    if end > 0 {
        lemma_unnamed_keeps(tally, lines, outcome, name, end - 1);
    }
}

/// A player whom the session has not seen, and whom exactly one line of a
/// match names, has after that match the tally of that one line: seen once,
/// each sum equal to the line's value, and that value as the most recent.
pub proof fn first_line_makes_tally(
    state: SessionView,
    record: MatchRecordView,
    k: int,
)
    requires
        0 <= k < record.players.len(),
        record.players[k].name.len() > 0,
        tally_of(state.players, record.players[k].name) is None,
        forall|i: int|
            0 <= i < record.players.len() && i != k ==> (#[trigger] record.players[i]).name
                != record.players[k].name,
    ensures
        ({
            let line = record.players[k];
            let tally = tally_of(merged(state, record).players, line.name);
            &&& tally is Some
            &&& tally->Some_0 == credited(no_tally(), line, standing_of(record.outcome(), line.team))
            &&& tally->Some_0.times_seen == 1
            &&& tally->Some_0.score == (MetricView { total: line.score, last: line.score })
            &&& tally->Some_0.goals == (MetricView { total: line.goals, last: line.goals })
            &&& tally->Some_0.assists == (MetricView { total: line.assists, last: line.assists })
            &&& tally->Some_0.saves == (MetricView { total: line.saves, last: line.saves })
            &&& tally->Some_0.shots == (MetricView { total: line.shots, last: line.shots })
        }),
{
    let name = record.players[k].name;
    merge_acts_per_player(state, record, name);
    lemma_single_line(
        None,
        record.players,
        record.outcome(),
        k,
        record.players.len() as int,
    );
}

proof fn lemma_single_line(
    tally: Option<TallyView>,
    lines: Seq<StatLineView>,
    outcome: Outcome,
    k: int,
    end: int,
)
    requires
        0 <= k < lines.len(),
        end <= lines.len(),
        lines[k].name.len() > 0,
        forall|i: int| 0 <= i < lines.len() && i != k ==> (#[trigger] lines[i]).name != lines[k].name,
    ensures
        tally_after_lines(tally, lines, outcome, lines[k].name, end) == if k < end {
            Some(credited(tally_or_none(tally), lines[k], standing_of(outcome, lines[k].team)))
        } else {
            tally
        },
    decreases end,
{
    if end > 0 {
        lemma_single_line(tally, lines, outcome, k, end - 1);
    }
}

/// What a match does to a player's counts.
///
/// The times seen grow by the number of lines that name the player. On a
/// draw neither wins nor losses change. Where every line that names the
/// player has them on the winning team, the wins grow by the number of
/// those lines and the losses stay; on the losing team it is the reverse.
pub proof fn match_credits_counts(state: SessionView, record: MatchRecordView, name: Seq<char>)
    ensures
        ({
            let before = tally_or_none(tally_of(state.players, name));
            let after = tally_or_none(tally_of(merged(state, record).players, name));
            let named = lines_naming(record.players, name, record.players.len() as int);
            &&& after.times_seen == before.times_seen + named
            &&& record.outcome() is Draw ==> after.wins == before.wins && after.losses
                == before.losses
            &&& (forall|i: int|
                0 <= i < record.players.len() && (#[trigger] record.players[i]).name == name
                    ==> standing_of(record.outcome(), record.players[i].team) == Standing::Win)
                ==> after.wins == before.wins + named && after.losses == before.losses
            &&& (forall|i: int|
                0 <= i < record.players.len() && (#[trigger] record.players[i]).name == name
                    ==> standing_of(record.outcome(), record.players[i].team) == Standing::Loss)
                ==> after.losses == before.losses + named && after.wins == before.wins
        }),
{
    merge_acts_per_player(state, record, name);
    lemma_counts(
        tally_of(state.players, name),
        record.players,
        record.outcome(),
        name,
        record.players.len() as int,
    );
}

proof fn lemma_counts(
    tally: Option<TallyView>,
    lines: Seq<StatLineView>,
    outcome: Outcome,
    name: Seq<char>,
    end: int,
)
    requires
        end <= lines.len(),
    ensures
        ({
            let before = tally_or_none(tally);
            let after = tally_or_none(tally_after_lines(tally, lines, outcome, name, end));
            let named = lines_naming(lines, name, end);
            &&& after.times_seen == before.times_seen + named
            &&& after.wins >= before.wins
            &&& after.losses >= before.losses
            &&& outcome is Draw ==> after.wins == before.wins && after.losses == before.losses
            &&& (forall|i: int|
                0 <= i < end && (#[trigger] lines[i]).name == name ==> standing_of(
                    outcome,
                    lines[i].team,
                ) == Standing::Win) ==> after.wins == before.wins + named && after.losses
                == before.losses
            &&& (forall|i: int|
                0 <= i < end && (#[trigger] lines[i]).name == name ==> standing_of(
                    outcome,
                    lines[i].team,
                ) == Standing::Loss) ==> after.losses == before.losses + named && after.wins
                == before.wins
        }),
    decreases end,
{
    if end > 0 {
        lemma_counts(tally, lines, outcome, name, end - 1);
    }
}

/// Two lines that name different players can be folded in in either order:
/// every player's tally comes out the same.
pub proof fn lines_of_different_players_commute(
    players: Seq<PlayerView>,
    a: StatLineView,
    b: StatLineView,
    outcome: Outcome,
    name: Seq<char>,
)
    requires
        a.name != b.name,
    ensures
        tally_of(with_line(with_line(players, a, outcome), b, outcome), name) == tally_of(
            with_line(with_line(players, b, outcome), a, outcome),
            name,
        ),
{
    line_acts_per_player(players, a, outcome, name);
    line_acts_per_player(with_line(players, a, outcome), b, outcome, name);
    line_acts_per_player(players, b, outcome, name);
    line_acts_per_player(with_line(players, b, outcome), a, outcome, name);
}

/// No line among the first `end` names a player whom no line names.
proof fn lemma_nobody_named(lines: Seq<StatLineView>, name: Seq<char>, end: int)
    requires
        end <= lines.len(),
        forall|i: int| 0 <= i < end ==> (#[trigger] lines[i]).name != name,
    ensures
        lines_naming(lines, name, end) == 0,
    decreases end,
{
    if end > 0 {
        lemma_nobody_named(lines, name, end - 1);
    }
}

/// Where no two lines share a name, at most one line names a player.
proof fn lemma_named_at_most_once(lines: Seq<StatLineView>, name: Seq<char>, end: int)
    requires
        end <= lines.len(),
        forall|i: int, j: int|
            0 <= i < j < lines.len() ==> (#[trigger] lines[i]).name != (#[trigger] lines[j]).name,
    ensures
        lines_naming(lines, name, end) <= 1,
    decreases end,
{
    if end > 0 {
        if lines[end - 1].name == name {
            lemma_nobody_named(lines, name, end - 1);
        } else {
            lemma_named_at_most_once(lines, name, end - 1);
        }
    }
}

/// In a session whose matches each name a player at most once, nobody is
/// seen more often than games were played: a match keeps it so.
pub proof fn times_seen_within_games_played(
    state: SessionView,
    record: MatchRecordView,
    name: Seq<char>,
)
    requires
        tally_or_none(tally_of(state.players, name)).times_seen <= state.games_played,
        forall|i: int, j: int|
            0 <= i < j < record.players.len() ==> (#[trigger] record.players[i]).name != (
            #[trigger] record.players[j]).name,
    ensures
        tally_or_none(tally_of(merged(state, record).players, name)).times_seen <= merged(
            state,
            record,
        ).games_played,
{
    match_credits_counts(state, record, name);
    lemma_named_at_most_once(record.players, name, record.players.len() as int);
}

} // verus!
