//! What holds of a showdown: whose team each line of the scoreboard shows, and who wins.
use crate::cards::{Adventurer, CommunityCard, Monster, Scene};
use crate::combat::{
    battle, node_fits, passing, run_fits, run_from, run_start, squad_of, Report, RunState, Squad,
};
use crate::game::PlayerResult;
use crate::game_laws::the_winner_cleared_with_the_most;
use crate::game_model::{cards_at, is_triple, pick_of, result_of, selected, winner_place, GameModel};
use crate::picking_laws::a_best_triple_exists;
use crate::playable::playable_hands_settle;
use crate::player::{PlayerId, PlayerModel, PlayerStatus};
use crate::room::RoomGameModel;
use vstd::prelude::*;

verus! {

// ---- Terms ----

/// The report of a team of `hole` and `cards` in the dungeon of the hand.
pub open spec fn walked(g: GameModel, hole: Seq<Adventurer>, cards: Seq<CommunityCard>) -> Report {
    battle(hole, cards, g.scene, g.dungeon, g.aggro, g.boss_berserk)
}

/// The report of a team of `hole` and the open cards at three places.
pub open spec fn walked_with(g: GameModel, hole: Seq<Adventurer>, a: int, b: int, c: int) -> Report {
    walked(g, hole, seq![g.community[a], g.community[b], g.community[c]])
}

/// What a team is ranked by: a million and all that is left for one that clears the dungeon, what
/// it started with for one that is wiped.
pub open spec fn rank(r: Report) -> int {
    if r.cleared {
        1_000_000 + r.remaining_health + r.remaining_power
    } else {
        r.team_power + r.team_health
    }
}

/// The open cards that a player has named, in the order in which they were named. Numbers beyond
/// the open cards name nothing.
pub open spec fn named(community: Seq<CommunityCard>, indices: Seq<usize>) -> Seq<CommunityCard> {
    indices.filter(|i: usize| i < community.len()).map_values(|i: usize| community[i as int])
}

/// The report is that of the best team: of all open cards while there are no more than three,
/// else of three open cards such that no other three rank higher, and none that come before them
/// rank as high.
pub open spec fn best_of(g: GameModel, hole: Seq<Adventurer>, r: Report) -> bool {
    let n = g.community.len() as int;
    if n <= 3 {
        r == walked(g, hole, g.community)
    } else {
        exists|a: int, b: int, c: int|
            0 <= a < b < c < n && r == #[trigger] walked_with(g, hole, a, b, c) && forall|x: int, y: int, z: int|
                0 <= x < y < z < n ==> {
                    let other = rank(#[trigger] walked_with(g, hole, x, y, z));
                    &&& other <= rank(r)
                    &&& x < a || (x == a && (y < b || (y == b && z < c))) ==> other < rank(r)
                }
    }
}

/// The line shows the player and the report: who, whether the team came through, what is left of
/// it, the sum of both as its advantage, and what it started with.
pub open spec fn shows(line: PlayerResult, id: PlayerId, r: Report) -> bool {
    &&& line.id == id
    &&& line.cleared == r.cleared
    &&& line.remaining_health == r.remaining_health
    &&& line.remaining_power == r.remaining_power
    &&& line.cleared ==> line.advantage == line.remaining_health + line.remaining_power
    &&& !line.cleared ==> line.advantage == 0
    &&& line.team_power == r.team_power
    &&& line.team_health == r.team_health
}

/// The players among these who have not folded.
pub open spec fn staying(players: Seq<PlayerModel>) -> Seq<PlayerModel> {
    players.filter(|p: PlayerModel| p.status != PlayerStatus::Folded)
}

/// The number of the line that belongs to seat `i`: the lines follow the seats of those who have
/// not folded.
pub open spec fn line_of(g: GameModel, i: int) -> int {
    staying(g.players.take(i)).len() as int
}

// ---- Helpers ----

proof fn lemma_run_stays_small(
    s: RunState,
    squad: Squad,
    scene: Scene,
    dungeon: Seq<Monster>,
    i: int,
    aggro: u32,
    berserk: bool,
)
    requires
        run_fits(s, squad, scene, dungeon, i, aggro, berserk),
        s.power <= i32::MAX,
        s.health <= i32::MAX,
    ensures
        match run_from(s, squad, scene, dungeon, i, aggro, berserk) {
            Some(t) => t.power <= i32::MAX && t.health <= i32::MAX,
            None => true,
        },
    decreases dungeon.len() - i,
{
    if 0 <= i < dungeon.len() {
        assert(node_fits(s, squad, scene, dungeon[i], aggro, berserk));
        match passing(s, squad, scene, dungeon[i], i == 0, aggro, berserk) {
            Some(t) => {
                lemma_run_stays_small(t, squad, scene, dungeon, i + 1, aggro, berserk);
            },
            None => {},
        }
    }
}

proof fn lemma_report_stays_small(g: GameModel, hole: Seq<Adventurer>, cards: Seq<CommunityCard>)
    requires
        g.report_fits(hole, cards),
    ensures
        walked(g, hole, cards).remaining_health <= i32::MAX,
        walked(g, hole, cards).remaining_power <= i32::MAX,
{
    let squad = squad_of(hole, cards, g.scene);
    lemma_run_stays_small(
        run_start(squad),
        squad,
        g.scene,
        g.dungeon,
        0,
        g.aggro,
        g.boss_berserk,
    );
}

proof fn lemma_named(community: Seq<CommunityCard>, indices: Seq<usize>)
    ensures
        selected(community, indices) == named(community, indices),
    decreases indices.len(),
{
    reveal(Seq::filter);
    let keep = |i: usize| i < community.len();
    let card = |i: usize| community[i as int];
    if indices.len() == 0 {
        assert(named(community, indices) =~= Seq::empty());
    } else {
        let rest = indices.drop_last();
        lemma_named(community, rest);
        if keep(indices.last()) {
            assert(indices.filter(keep) =~= rest.filter(keep).push(indices.last()));
            assert(named(community, indices) =~= named(community, rest).push(
                card(indices.last()),
            ));
        }
    }
}

proof fn lemma_best(g: GameModel, hole: Seq<Adventurer>)
    ensures
        best_of(g, hole, g.best_report(hole)),
        g.best_fits(hole) ==> g.best_report(hole).remaining_health <= i32::MAX && g.best_report(
            hole,
        ).remaining_power <= i32::MAX,
{
    let n = g.community.len() as int;
    if n <= 3 {
        if g.best_fits(hole) {
            lemma_report_stays_small(g, hole, g.community);
        }
    } else {
        a_best_triple_exists(g, hole);
        let t = choose|t: (int, int, int)| g.is_best_triple(hole, t);
        assert(g.is_best_triple(hole, t));
        let r = g.best_report(hole);
        assert(r == walked_with(g, hole, t.0, t.1, t.2));
        assert forall|x: int, y: int, z: int| 0 <= x < y < z < n implies {
            let other = rank(#[trigger] walked_with(g, hole, x, y, z));
            &&& other <= rank(r)
            &&& x < t.0 || (x == t.0 && (y < t.1 || (y == t.1 && z < t.2))) ==> other < rank(r)
        } by {
            let u = (x, y, z);
            assert(is_triple(u, n));
            assert(g.triple_score(hole, u) == rank(walked_with(g, hole, x, y, z)));
            assert(g.triple_score(hole, t) == rank(r));
        }
        if g.best_fits(hole) {
            assert(g.report_fits(hole, cards_at(g.community, t)));
            lemma_report_stays_small(g, hole, cards_at(g.community, t));
        }
    }
}

proof fn lemma_pick_found(picks: Seq<(PlayerId, [usize; 3])>, id: PlayerId, j: int)
    requires
        0 <= j < picks.len(),
        picks[j].0 == id,
        forall|k: int| 0 <= k < j ==> (#[trigger] picks[k]).0 != id,
    ensures
        pick_of(picks, id) == Some(picks[j].1@),
    decreases picks.len(),
{
    if j > 0 {
        assert(picks[0].0 != id);
        let rest = picks.drop_first();
        assert(rest[j - 1] == picks[j]);
        assert forall|k: int| 0 <= k < j - 1 implies (#[trigger] rest[k]).0 != id by {
            assert(rest[k] == picks[k + 1]);
        }
        lemma_pick_found(rest, id, j - 1);
    }
}

proof fn lemma_no_pick(picks: Seq<(PlayerId, [usize; 3])>, id: PlayerId)
    requires
        forall|k: int| 0 <= k < picks.len() ==> (#[trigger] picks[k]).0 != id,
    ensures
        pick_of(picks, id) is None,
    decreases picks.len(),
{
    if picks.len() > 0 {
        assert(picks[0].0 != id);
        let rest = picks.drop_first();
        assert forall|k: int| 0 <= k < rest.len() implies (#[trigger] rest[k]).0 != id by {
            assert(rest[k] == picks[k + 1]);
        }
        lemma_no_pick(rest, id);
    }
}

proof fn lemma_lines(g: GameModel, picks: Seq<(PlayerId, [usize; 3])>, n: int, i: int)
    requires
        0 <= n <= g.players.len(),
    ensures
        g.results(picks, n).len() == staying(g.players.take(n)).len(),
        0 <= i < n && g.players[i].in_hand() ==> 0 <= line_of(g, i) < g.results(picks, n).len()
            && g.results(picks, n)[line_of(g, i)] == result_of(
            g.players[i].id,
            g.player_report(g.players[i], picks),
        ),
    decreases n,
{
    reveal(Seq::filter);
    if n > 0 {
        lemma_lines(g, picks, n - 1, i);
        assert(g.players.take(n).drop_last() =~= g.players.take(n - 1));
    }
}

/// The seat that a line belongs to.
proof fn lemma_seat_of_line(g: GameModel, n: int, k: int) -> (i: int)
    requires
        0 <= n <= g.players.len(),
        0 <= k < staying(g.players.take(n)).len(),
    ensures
        0 <= i < n,
        g.players[i].in_hand(),
        line_of(g, i) == k,
    decreases n,
{
    reveal(Seq::filter);
    assert(g.players.take(n).drop_last() =~= g.players.take(n - 1));
    if k < staying(g.players.take(n - 1)).len() {
        lemma_seat_of_line(g, n - 1, k)
    } else {
        n - 1
    }
}

// ---- The scoreboard ----

/// The scoreboard has one line for each player who has not folded, in the order of the seats.
/// The line of a player who has picked by hand shows the team of the hole cards and the cards
/// that were picked; of several picks under one name the first counts.
pub proof fn lines_show_the_picked_team(
    g: GameModel,
    picks: Seq<(PlayerId, [usize; 3])>,
    i: int,
    j: int,
)
    requires
        g.settlement_fits(picks),
        0 <= i < g.players.len(),
        g.players[i].status != PlayerStatus::Folded,
        0 <= j < picks.len(),
        picks[j].0 == g.players[i].id,
        forall|k: int| 0 <= k < j ==> (#[trigger] picks[k]).0 != g.players[i].id,
    ensures
        g.settlement(picks).results.len() == staying(g.players).len(),
        0 <= line_of(g, i) < staying(g.players).len(),
        shows(
            g.settlement(picks).results[line_of(g, i)],
            g.players[i].id,
            walked(g, g.players[i].hole, named(g.community, picks[j].1@)),
        ),
{
    let n = g.players.len() as int;
    assert(g.players.take(n) =~= g.players);
    lemma_lines(g, picks, n, i);
    lemma_pick_found(picks, g.players[i].id, j);
    lemma_named(g.community, picks[j].1@);
    assert(g.player_fits(g.players[i], picks));
    lemma_report_stays_small(g, g.players[i].hole, selected(g.community, picks[j].1@));
}

/// The line of a player who has picked nothing shows the best team.
pub proof fn lines_show_the_best_team(g: GameModel, picks: Seq<(PlayerId, [usize; 3])>, i: int)
    requires
        g.settlement_fits(picks),
        0 <= i < g.players.len(),
        g.players[i].status != PlayerStatus::Folded,
        forall|k: int| 0 <= k < picks.len() ==> (#[trigger] picks[k]).0 != g.players[i].id,
    ensures
        g.settlement(picks).results.len() == staying(g.players).len(),
        0 <= line_of(g, i) < staying(g.players).len(),
        exists|r: Report|
            #[trigger] best_of(g, g.players[i].hole, r) && shows(
                g.settlement(picks).results[line_of(g, i)],
                g.players[i].id,
                r,
            ),
{
    let n = g.players.len() as int;
    assert(g.players.take(n) =~= g.players);
    lemma_lines(g, picks, n, i);
    lemma_no_pick(picks, g.players[i].id);
    lemma_best(g, g.players[i].hole);
    assert(g.player_fits(g.players[i], picks));
    assert(best_of(g, g.players[i].hole, g.best_report(g.players[i].hole)));
}

/// What is tried out with given cards is the team of those cards, and what is tried out without
/// is the best team.
pub proof fn trials_show_the_team(g: GameModel, hole: Seq<Adventurer>, indices: Seq<usize>)
    ensures
        g.report(hole, selected(g.community, indices)) == walked(
            g,
            hole,
            named(g.community, indices),
        ),
        best_of(g, hole, g.best_report(hole)),
{
    lemma_named(g.community, indices);
    lemma_best(g, hole);
}

/// Only one report can be that of the best team.
pub proof fn the_best_team_is_one(g: GameModel, hole: Seq<Adventurer>, r: Report, s: Report)
    requires
        best_of(g, hole, r),
        best_of(g, hole, s),
    ensures
        r == s,
{
    let n = g.community.len() as int;
    if n > 3 {
        let (a, b, c) = choose|a: int, b: int, c: int|
            0 <= a < b < c < n && r == #[trigger] walked_with(g, hole, a, b, c) && forall|x: int, y: int, z: int|
                0 <= x < y < z < n ==> {
                    let other = rank(#[trigger] walked_with(g, hole, x, y, z));
                    &&& other <= rank(r)
                    &&& x < a || (x == a && (y < b || (y == b && z < c))) ==> other < rank(r)
                };
        let (d, e, f) = choose|a: int, b: int, c: int|
            0 <= a < b < c < n && s == #[trigger] walked_with(g, hole, a, b, c) && forall|x: int, y: int, z: int|
                0 <= x < y < z < n ==> {
                    let other = rank(#[trigger] walked_with(g, hole, x, y, z));
                    &&& other <= rank(s)
                    &&& x < a || (x == a && (y < b || (y == b && z < c))) ==> other < rank(s)
                };
        assert(r == walked_with(g, hole, a, b, c));
        assert(s == walked_with(g, hole, d, e, f));
    }
}

// ---- The winner ----

/// In every line, the advantage of a team that came through is the health and the power left,
/// and that of a wiped team is nothing.
pub proof fn advantage_is_what_is_left(g: GameModel, picks: Seq<(PlayerId, [usize; 3])>, k: int)
    requires
        g.settlement_fits(picks),
        0 <= k < g.settlement(picks).results.len(),
    ensures
        ({
            let line = g.settlement(picks).results[k];
            &&& line.cleared ==> line.advantage == line.remaining_health + line.remaining_power
            &&& !line.cleared ==> line.advantage == 0 && line.remaining_health == 0
                && line.remaining_power == 0
        }),
{
    let n = g.players.len() as int;
    lemma_lines(g, picks, n, 0);
    let i = lemma_seat_of_line(g, n, k);
    lemma_lines(g, picks, n, i);
    let p = g.players[i];
    assert(g.player_fits(p, picks));
    match pick_of(picks, p.id) {
        Some(indices) => {
            lemma_report_stays_small(g, p.hole, selected(g.community, indices));
        },
        None => {
            lemma_best(g, p.hole);
        },
    }
}

/// The winner came through the dungeon with at least as much health and power left, taken
/// together, as anyone else who came through, and with more than those who sit after the winner.
/// Nobody wins exactly when nobody came through. What is won is the pot.
pub proof fn the_winner_has_the_most_left(g: GameModel, picks: Seq<(PlayerId, [usize; 3])>)
    requires
        g.settlement_fits(picks),
    ensures
        ({
            let s = g.settlement(picks);
            &&& s.pot == g.pot
            &&& s.winner is None <==> forall|k: int|
                0 <= k < s.results.len() ==> !(#[trigger] s.results[k]).cleared
            &&& s.winner matches Some(id) ==> exists|w: int|
                0 <= w < s.results.len() && (#[trigger] s.results[w]).id == id
                    && s.results[w].cleared && forall|k: int|
                    0 <= k < s.results.len() && (#[trigger] s.results[k]).cleared ==> {
                        let left = s.results[k].remaining_health + s.results[k].remaining_power;
                        let most = s.results[w].remaining_health + s.results[w].remaining_power;
                        &&& left <= most
                        &&& w < k ==> left < most
                    }
        }),
{
    let s = g.settlement(picks);
    the_winner_cleared_with_the_most(s.results);
    assert forall|k: int| 0 <= k < s.results.len() && (#[trigger] s.results[k]).cleared implies
        s.results[k].advantage == s.results[k].remaining_health + s.results[k].remaining_power by {
        advantage_is_what_is_left(g, picks, k);
    }
    match winner_place(s.results) {
        Some(w) => {
            assert(s.results[w].cleared);
            assert(s.winner == Some(s.results[w].id));
        },
        None => {},
    }
}

// ---- Showdowns in a room ----

proof fn lemma_submitted(g: RoomGameModel, n: int, i: int)
    requires
        g.wf(),
        0 <= n <= g.selections.len(),
        0 <= i < g.selections.len(),
    ensures
        g.selections[i] is None || i >= n ==> forall|k: int|
            0 <= k < g.submitted(n).len() ==> (#[trigger] g.submitted(n)[k]).0
                != g.mtch.hand.players[i].id,
        g.selections[i] is Some && i < n ==> exists|j: int|
            0 <= j < g.submitted(n).len() && (#[trigger] g.submitted(n)[j])
                == (g.mtch.hand.players[i].id, g.selections[i]->0) && forall|k: int|
                0 <= k < j ==> (#[trigger] g.submitted(n)[k]).0 != g.mtch.hand.players[i].id,
    decreases n,
{
    if n > 0 {
        lemma_submitted(g, n - 1, i);
        let id = g.mtch.hand.players[i].id;
        let last = g.mtch.hand.players[n - 1].id;
        assert(g.mtch.seats[i].id == id && g.mtch.seats[n - 1].id == last);
        assert(g.mtch.seats.len() <= u32::MAX);
        assert(i == n - 1 || id != last);
        let rest = g.submitted(n - 1);
        let all = g.submitted(n);
        if g.selections[n - 1] is Some {
            assert(all == rest.push((last, g.selections[n - 1]->0)));
            if i == n - 1 {
                assert(all[rest.len() as int] == (id, g.selections[i]->0));
                assert forall|k: int| 0 <= k < rest.len() implies (#[trigger] all[k]).0 != id by {
                    assert(rest[k].0 != id);
                }
            } else if g.selections[i] is Some && i < n {
                let j = choose|j: int|
                    0 <= j < rest.len() && (#[trigger] rest[j]) == (id, g.selections[i]->0)
                        && forall|k: int| 0 <= k < j ==> (#[trigger] rest[k]).0 != id;
                assert(all[j] == (id, g.selections[i]->0));
                assert forall|k: int| 0 <= k < j implies (#[trigger] all[k]).0 != id by {
                    assert(rest[k].0 != id);
                }
            } else {
                assert forall|k: int| 0 <= k < all.len() implies (#[trigger] all[k]).0 != id by {
                    if k < rest.len() {
                        assert(rest[k].0 != id);
                    }
                }
            }
        }
    }
}

/// When the showdown of a room is settled, every player who has not folded has a line on the
/// scoreboard: with the team that was picked at the seat, or with the best team where nothing was
/// picked.
pub proof fn rooms_settle_with_the_picks(g: RoomGameModel, dt: u64, i: int)
    requires
        g.wf(),
        g.mtch.over(),
        !g.settled,
        g.advanced(dt).0.settled,
        0 <= i < g.selections.len(),
        g.mtch.hand.players[i].status != PlayerStatus::Folded,
    ensures
        ({
            let hand = g.mtch.hand;
            let p = hand.players[i];
            &&& g.advanced(dt).0.mtch.last matches Some(s) && {
                let line = s.results[line_of(hand, i)];
                &&& s.results.len() == staying(hand.players).len()
                &&& 0 <= line_of(hand, i) < s.results.len()
                &&& match g.selections[i] {
                    Some(picked) => shows(
                        line,
                        p.id,
                        walked(hand, p.hole, named(hand.community, picked@)),
                    ),
                    None => exists|r: Report|
                        #[trigger] best_of(hand, p.hole, r) && shows(line, p.id, r),
                }
            }
        }),
{
    let hand = g.mtch.hand;
    let id = hand.players[i].id;
    let picks = g.picks();
    let n = g.seat_clients.len() as int;
    playable_hands_settle(hand, picks);
    lemma_submitted(g, n, i);
    assert(g.advanced(dt).0.mtch == g.mtch.after_settling(picks));
    assert(g.mtch.books_now());
    match g.selections[i] {
        Some(picked) => {
            let j = choose|j: int|
                0 <= j < picks.len() && (#[trigger] picks[j]) == (id, picked) && forall|k: int|
                    0 <= k < j ==> (#[trigger] picks[k]).0 != id;
            lines_show_the_picked_team(hand, picks, i, j);
        },
        None => {
            lines_show_the_best_team(hand, picks, i);
        },
    }
}

/// A room whose showdown is open settles it as soon as every client in the hand has picked, or
/// thirty seconds after the showdown began; before, only the clock goes on.
pub proof fn rooms_wait_for_picks(g: RoomGameModel, dt: u64)
    requires
        g.wf(),
        g.mtch.over(),
        !g.settled,
    ensures
        ({
            let waiting = exists|i: int|
                0 <= i < g.seat_clients.len() && (#[trigger] g.seat_clients[i]) is Some
                    && g.mtch.hand.players[i].status != PlayerStatus::Folded && g.selections[i]
                    is None;
            let late = g.select_timer + dt >= 30_000_000_000;
            let h = g.advanced(dt).0;
            &&& g.advanced(dt).1 <==> !waiting || late
            &&& h.settled <==> !waiting || late
            &&& waiting && !late ==> h == (RoomGameModel {
                select_timer: (g.select_timer + dt) as u64,
                ..g
            })
            &&& h.selections == g.selections && h.seat_clients == g.seat_clients
        }),
{
    let waiting = exists|i: int|
        0 <= i < g.seat_clients.len() && (#[trigger] g.seat_clients[i]) is Some
            && g.mtch.hand.players[i].status != PlayerStatus::Folded && g.selections[i] is None;
    if waiting {
        let i = choose|i: int|
            0 <= i < g.seat_clients.len() && (#[trigger] g.seat_clients[i]) is Some
                && g.mtch.hand.players[i].status != PlayerStatus::Folded && g.selections[i]
                is None;
        assert(g.waits_for(i));
    } else {
        assert forall|i: int| 0 <= i < g.seat_clients.len() implies !(
        #[trigger] g.waits_for(i)) by {
            assert(!(g.seat_clients[i] is Some && g.mtch.hand.players[i].status
                != PlayerStatus::Folded && g.selections[i] is None));
        }
    }
}

} // verus!
