//! The report formatter: the session's players ranked, the occasional ones
//! left out, and the leaderboard as text.

use crate::tally::PlayerEntry;
use crate::tally::PlayerView;
use crate::tally::SessionState;
use crate::tally::SessionView;
use crate::tally::outranks;
use crate::tally::players_view;
use vstd::prelude::*;

verus! {

/// The character of one decimal digit.
pub open spec fn digit_char(digit: nat) -> char {
    if digit == 0 {
        '0'
    } else if digit == 1 {
        '1'
    } else if digit == 2 {
        '2'
    } else if digit == 3 {
        '3'
    } else if digit == 4 {
        '4'
    } else if digit == 5 {
        '5'
    } else if digit == 6 {
        '6'
    } else if digit == 7 {
        '7'
    } else if digit == 8 {
        '8'
    } else {
        '9'
    }
}

/// A number in decimal, without sign and without leading zeros.
pub open spec fn decimal(n: nat) -> Seq<char>
    decreases n,
{
    if n < 10 {
        seq![digit_char(n)]
    } else {
        decimal(n / 10).push(digit_char(n % 10))
    }
}

/// One decimal digit as text.
fn digit_text(digit: u64) -> (text: &'static str)
    requires
        digit < 10,
    ensures
        text@ == seq![digit_char(digit as nat)],
{
    proof {
        reveal_strlit("0");
        reveal_strlit("1");
        reveal_strlit("2");
        reveal_strlit("3");
        reveal_strlit("4");
        reveal_strlit("5");
        reveal_strlit("6");
        reveal_strlit("7");
        reveal_strlit("8");
        reveal_strlit("9");
    }
    let text = if digit == 0 {
        "0"
    } else if digit == 1 {
        "1"
    } else if digit == 2 {
        "2"
    } else if digit == 3 {
        "3"
    } else if digit == 4 {
        "4"
    } else if digit == 5 {
        "5"
    } else if digit == 6 {
        "6"
    } else if digit == 7 {
        "7"
    } else if digit == 8 {
        "8"
    } else {
        "9"
    };
    assert(text@ =~= seq![digit_char(digit as nat)]);
    text
}

/// Appends a number in decimal to a text.
pub fn push_decimal(out: &mut String, n: u64)
    ensures
        final(out)@ == old(out)@ + decimal(n as nat),
    decreases n,
{
    if n >= 10 {
        push_decimal(out, n / 10);
    }
    out.append(digit_text(n % 10));
    assert(final(out)@ =~= old(out)@ + decimal(n as nat));
}

/// A number in decimal.
pub fn decimal_text(n: u64) -> (text: String)
    ensures
        text@ == decimal(n as nat),
{
    let mut text = String::new();
    push_decimal(&mut text, n);
    assert(text@ =~= decimal(n as nat));
    text
}

/// Whether a player seen `times_seen` times is listed in the report after
/// `games_played` matches: one seen in every match always is; any other only
/// if seen more than 3 times and more than half the matches, rounded down.
pub open spec fn listed(times_seen: nat, games_played: nat) -> bool {
    let half = games_played / 2;
    let floor = if half > 3 {
        half
    } else {
        3
    };
    times_seen == games_played || times_seen > floor
}

/// Computes [`listed`].
pub fn is_listed(times_seen: u64, games_played: u64) -> (yes: bool)
    ensures
        yes == listed(times_seen as nat, games_played as nat),
{
    let half = games_played / 2;
    let floor = if half > 3 {
        half
    } else {
        3
    };
    times_seen == games_played || times_seen > floor
}

/// Where player `k` goes into a ranking `order` of earlier players, looking
/// from place `from` on: before the first player whom `k` outranks, and
/// behind everyone where there is none.
pub open spec fn slot_from(players: Seq<PlayerView>, order: Seq<int>, k: int, from: int) -> int
    decreases order.len() - from,
{
    if from < 0 || from >= order.len() {
        order.len() as int
    } else if outranks(players[k].tally, players[order[from]].tally) {
        from
    } else {
        slot_from(players, order, k, from + 1)
    }
}

/// The ranking of the first `end` players, as their positions in `players`.
pub open spec fn ranking_before(players: Seq<PlayerView>, end: int) -> Seq<int>
    decreases end,
{
    if end <= 0 {
        Seq::empty()
    } else {
        let earlier = ranking_before(players, end - 1);
        earlier.insert(slot_from(players, earlier, end - 1, 0), end - 1)
    }
}

/// The ranking of the players, best first, as their positions in `players`.
/// Players whom neither outranks the other stay in the order in which the
/// session first saw them.
pub open spec fn ranking(players: Seq<PlayerView>) -> Seq<int> {
    ranking_before(players, players.len() as int)
}

/// The report's first lines.
pub open spec fn header_text(games_played: nat) -> Seq<char> {
    "## Game "@ + decimal(games_played) + " finished\n\n"@
}

/// The report's lines on one player.
pub open spec fn block_text(player: PlayerView) -> Seq<char> {
    let t = player.tally;
    "### "@ + player.name + "\n*Played "@ + decimal(t.times_seen) + " games*\n- Wins/Losses: "@
        + decimal(t.wins) + "/"@ + decimal(t.losses) + "\n- Score: "@ + decimal(t.score.total)
        + " ("@ + decimal(t.score.last) + ")\n- Goals: "@ + decimal(t.goals.total) + " ("@
        + decimal(t.goals.last) + ")\n- Assists: "@ + decimal(t.assists.total) + " ("@ + decimal(
        t.assists.last,
    ) + ")\n- Saves: "@ + decimal(t.saves.total) + " ("@ + decimal(t.saves.last)
        + ")\n- Shots: "@ + decimal(t.shots.total) + " ("@ + decimal(t.shots.last) + ")\n"@
}

/// The lines on the listed players among the first `end` of a ranking.
pub open spec fn blocks_before(state: SessionView, order: Seq<int>, end: int) -> Seq<char>
    decreases end,
{
    if end <= 0 {
        Seq::empty()
    } else {
        let player = state.players[order[end - 1]];
        if listed(player.tally.times_seen, state.games_played) {
            blocks_before(state, order, end - 1) + block_text(player)
        } else {
            blocks_before(state, order, end - 1)
        }
    }
}

/// The report on a session: the header, then the listed players' lines in
/// the order of the ranking.
pub open spec fn report_text(state: SessionView) -> Seq<char> {
    let order = ranking(state.players);
    header_text(state.games_played) + blocks_before(state, order, order.len() as int)
}

/// The positions that a sequence of indices holds.
pub open spec fn positions(order: Seq<usize>) -> Seq<int> {
    order.map_values(|i: usize| i as int)
}

/// Ranks the players.
pub fn rank(players: &Vec<PlayerEntry>) -> (order: Vec<usize>)
    ensures
        positions(order@) == ranking(players_view(players@)),
        order.len() == players.len(),
        forall|p: int| 0 <= p < order.len() ==> (#[trigger] order@[p]) < players.len(),
{
    let ghost all = players_view(players@);
    let mut order: Vec<usize> = Vec::new();
    let mut k: usize = 0;
    while k < players.len()
        invariant
            k <= players.len(),
            all == players_view(players@),
            order.len() == k,
            positions(order@) == ranking_before(all, k as int),
            forall|p: int| 0 <= p < order.len() ==> (#[trigger] order@[p]) < k,
        decreases players.len() - k,
    {
        let ghost earlier = positions(order@);
        let mine = &players[k].tally;
        let mut slot: usize = 0;
        while slot < order.len() && !mine.ranks_above(&players[order[slot]].tally)
            invariant
                slot <= order.len(),
                k < players.len(),
                all == players_view(players@),
                earlier == positions(order@),
                mine == players[k as int].tally,
                forall|p: int| 0 <= p < order.len() ==> (#[trigger] order@[p]) < k,
                slot_from(all, earlier, k as int, 0) == slot_from(all, earlier, k as int, slot as int),
            decreases order.len() - slot,
        {
            slot += 1;
        }
        order.insert(slot, k);
        assert(positions(order@) =~= earlier.insert(slot as int, k as int));
        k += 1;
    }
    order
}

/// Appends one statistic to a text: its label, its sum and, in brackets, its
/// value in the most recent match.
fn push_metric(out: &mut String, label: &str, total: u64, last: u64)
    ensures
        final(out)@ == old(out)@ + label@ + decimal(total as nat) + " ("@ + decimal(last as nat),
{
    out.append(label);
    push_decimal(out, total);
    out.append(" (");
    push_decimal(out, last);
}

/// The report's lines on one player.
pub fn block_of(entry: &PlayerEntry) -> (text: String)
    ensures
        text@ == block_text(entry@),
{
    let t = &entry.tally;
    let mut text = String::from_str("### ");
    text.append(entry.name.as_str());
    text.append("\n*Played ");
    push_decimal(&mut text, t.times_seen);
    text.append(" games*\n- Wins/Losses: ");
    push_decimal(&mut text, t.wins);
    text.append("/");
    push_decimal(&mut text, t.losses);
    push_metric(&mut text, "\n- Score: ", t.score.total, t.score.last);
    push_metric(&mut text, ")\n- Goals: ", t.goals.total, t.goals.last);
    push_metric(&mut text, ")\n- Assists: ", t.assists.total, t.assists.last);
    push_metric(&mut text, ")\n- Saves: ", t.saves.total, t.saves.last);
    push_metric(&mut text, ")\n- Shots: ", t.shots.total, t.shots.last);
    text.append(")\n");
    text
}

/// Renders the report on a session.
///
/// The players are ranked by [`ranking`]; those not [`listed`] are left out.
/// The session is only read, so rendering again gives the same text.
pub fn render(state: &SessionState) -> (text: String)
    ensures
        text@ == report_text(state@),
{
    let players = state.players();
    let games_played = state.games_played();
    let order = rank(players);
    let mut text = String::from_str("## Game ");
    push_decimal(&mut text, games_played);
    text.append(" finished\n\n");
    let mut i: usize = 0;
    while i < order.len()
        invariant
            i <= order.len(),
            order.len() == players.len(),
            players_view(players@) == state@.players,
            games_played == state@.games_played,
            positions(order@) == ranking(state@.players),
            forall|p: int| 0 <= p < order.len() ==> (#[trigger] order@[p]) < players.len(),
            text@ == header_text(state@.games_played) + blocks_before(
                state@,
                positions(order@),
                i as int,
            ),
        decreases order.len() - i,
    {
        let entry = &players[order[i]];
        assert(state@.players[positions(order@)[i as int]] == entry@);
        if is_listed(entry.tally.times_seen, games_played) {
            let block = block_of(entry);
            text.append(block.as_str());
            assert(text@ =~= header_text(state@.games_played) + blocks_before(
                state@,
                positions(order@),
                i + 1,
            ));
        }
        i += 1;
    }
    text
}

/// Where [`slot_from`] puts a player: nobody from `from` up to the slot is
/// outranked by the player, and whoever stands at the slot is.
proof fn lemma_slot_from(players: Seq<PlayerView>, order: Seq<int>, k: int, from: int)
    requires
        0 <= from <= order.len(),
    ensures
        ({
            let slot = slot_from(players, order, k, from);
            &&& from <= slot <= order.len()
            &&& forall|p: int|
                from <= p < slot ==> !outranks(players[k].tally, players[#[trigger] order[p]].tally)
            &&& slot < order.len() ==> outranks(players[k].tally, players[order[slot]].tally)
        }),
    decreases order.len() - from,
{
    if from < order.len() && !outranks(players[k].tally, players[order[from]].tally) {
        lemma_slot_from(players, order, k, from + 1);
    }
}

/// Whether `order` ranks the first `end` players: it holds each of their
/// positions once, nobody stands behind a player whom they outrank, and of
/// two players neither of whom outranks the other the one seen first stands
/// first.
pub open spec fn ranks(players: Seq<PlayerView>, order: Seq<int>, end: int) -> bool {
    &&& order.len() == end
    &&& forall|p: int| 0 <= p < order.len() ==> 0 <= #[trigger] order[p] < end
    &&& forall|p: int, q: int|
        0 <= p < q < order.len() ==> {
            &&& #[trigger] order[p] != #[trigger] order[q]
            &&& !outranks(players[order[q]].tally, players[order[p]].tally)
            &&& !outranks(players[order[p]].tally, players[order[q]].tally) ==> order[p] < order[q]
        }
}

/// The ranking of the first `end` players ranks them.
proof fn lemma_ranking_before(players: Seq<PlayerView>, end: int)
    requires
        0 <= end <= players.len(),
    ensures
        ranks(players, ranking_before(players, end), end),
    decreases end,
{
    if end > 0 {
        let k = end - 1;
        let earlier = ranking_before(players, k);
        lemma_ranking_before(players, k);
        lemma_slot_from(players, earlier, k, 0);
        let slot = slot_from(players, earlier, k, 0);
        let order = earlier.insert(slot, k);
        assert forall|p: int, q: int| 0 <= p < q < order.len() implies {
            &&& #[trigger] order[p] != #[trigger] order[q]
            &&& !outranks(players[order[q]].tally, players[order[p]].tally)
            &&& !outranks(players[order[p]].tally, players[order[q]].tally) ==> order[p] < order[q]
        } by {
            if q < slot {
                assert(order[p] == earlier[p] && order[q] == earlier[q]);
            } else if q == slot {
                assert(order[p] == earlier[p] && order[q] == k);
            } else if p < slot {
                assert(order[p] == earlier[p] && order[q] == earlier[q - 1]);
            } else if p == slot {
                assert(order[p] == k && order[q] == earlier[q - 1]);
                if slot < q - 1 {
                    assert(!outranks(
                        players[earlier[q - 1]].tally,
                        players[earlier[slot]].tally,
                    ));
                }
            } else {
                assert(order[p] == earlier[p - 1] && order[q] == earlier[q - 1]);
            }
        }
        assert forall|p: int| 0 <= p < order.len() implies 0 <= #[trigger] order[p] < end by {
            if p < slot {
                assert(order[p] == earlier[p]);
            } else if p > slot {
                assert(order[p] == earlier[p - 1]);
            }
        }
    }
}

/// The ranking holds every player once, best first: nobody stands behind a
/// player whom they outrank, and of two players neither of whom outranks
/// the other the one whom the session saw first stands first.
pub proof fn ranking_ranks(players: Seq<PlayerView>)
    ensures
        ranks(players, ranking(players), players.len() as int),
{
    lemma_ranking_before(players, players.len() as int);
}

/// The report is a function of the session's value: two sessions of the same
/// value have the same report, so rendering a session again, with no match
/// folded in between, gives the same text.
pub proof fn same_session_same_report(first: SessionView, second: SessionView)
    requires
        first == second,
    ensures
        report_text(first) == report_text(second),
{
}

/// A player who was seen in every match is listed, however few the matches.
pub proof fn regular_player_is_listed(games_played: nat)
    ensures
        listed(games_played, games_played),
{
}

} // verus!
