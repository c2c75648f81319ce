//! Hands that never run into a limit of the machine: what they look like, that new hands are
//! such hands, and that every action keeps them so.
use crate::ai::{decision_fits, RAISE_STEP};
use crate::cards::{Adventurer, CommunityCard, Monster, Scene};
use crate::combat::{
    battle_fits, node_fits, passing, picked_units, run_fits, run_start, squad_of, synergy,
    team_units, total_gear_health, total_gear_power, units_health, units_power, RunState, Squad,
};
use crate::game::{
    boss_monsters, community_cards, elite_monsters, small_monsters, Action, Phase,
};
use crate::game_laws::{
    actions_keep_order, actions_keep_the_board_in_order, actions_keep_the_money, board_in_order,
    lemma_acted_upon, lemma_chips_within_total, lemma_shuffled_member, acted_upon, money,
    opening_keeps_the_money, the_opening_board_is_in_order,
};
use crate::game_model::{
    anted, cards_at, count_in_hand, is_triple, least, pick_of, rounds_left, selected, shortfall,
    total_ante, total_chips, GameModel,
};
use crate::player::{PlayerId, PlayerModel};
use crate::rng::state_after_shuffle;
use vstd::prelude::*;

verus! {

/// The largest number on a card of a playable hand.
pub const CARD_LIMIT: u32 = 1_000_000;

/// The numbers of the unit are within the limit.
pub open spec fn modest_unit(a: Adventurer) -> bool {
    a.power <= CARD_LIMIT && a.health <= CARD_LIMIT
}

pub open spec fn modest_units(units: Seq<Adventurer>) -> bool {
    forall|i: int| 0 <= i < units.len() ==> modest_unit(#[trigger] units[i])
}

pub open spec fn modest_card(c: CommunityCard) -> bool {
    match c {
        CommunityCard::Unit(a) => modest_unit(a),
        _ => true,
    }
}

pub open spec fn modest_cards(cards: Seq<CommunityCard>) -> bool {
    forall|i: int| 0 <= i < cards.len() ==> modest_card(#[trigger] cards[i])
}

pub open spec fn modest_node(m: Monster) -> bool {
    m.threat <= CARD_LIMIT && m.health <= CARD_LIMIT
}

pub open spec fn modest_nodes(nodes: Seq<Monster>) -> bool {
    forall|i: int| 0 <= i < nodes.len() ==> modest_node(#[trigger] nodes[i])
}

/// Two modest hole cards.
pub open spec fn modest_hole(hole: Seq<Adventurer>) -> bool {
    hole.len() == 2 && modest_units(hole)
}

/// Every card of the hand is modest, wherever it lies.
pub open spec fn modest(g: GameModel) -> bool {
    &&& forall|i: int| 0 <= i < g.players.len() ==> modest_hole((#[trigger] g.players[i]).hole)
    &&& modest_cards(g.community)
    &&& modest_cards(g.community_deck)
    &&& modest_nodes(g.dungeon)
    &&& modest_nodes(g.small_deck)
    &&& modest_nodes(g.elite_deck)
    &&& modest_nodes(g.boss_deck)
}

/// The chips of the hand, and one raise above the line, fit their registers.
pub open spec fn affordable(g: GameModel) -> bool {
    &&& money(g) + RAISE_STEP <= u32::MAX
    &&& g.current_bet + RAISE_STEP <= u32::MAX
    &&& forall|i: int| 0 <= i < g.players.len() ==> (#[trigger] g.players[i]).committed <= g.pot
}

/// A hand with players, in order, of modest cards.
pub open spec fn steady(g: GameModel) -> bool {
    &&& g.wf()
    &&& g.players.len() > 0
    &&& board_in_order(g)
    &&& modest(g)
}

/// A hand in which no number can outgrow its register.
pub open spec fn playable(g: GameModel) -> bool {
    steady(g) && affordable(g)
}

// ---- Battles ----

proof fn lemma_picked_units(picks: Seq<CommunityCard>)
    requires
        modest_cards(picks),
    ensures
        picked_units(picks).len() <= picks.len(),
        modest_units(picked_units(picks)),
    decreases picks.len(),
{
    if picks.len() > 0 {
        let rest = picks.drop_last();
        assert forall|i: int| 0 <= i < rest.len() implies modest_card(#[trigger] rest[i]) by {
            assert(rest[i] == picks[i]);
        }
        lemma_picked_units(rest);
        assert(modest_card(picks[picks.len() - 1]));
    }
}

proof fn lemma_unit_totals(units: Seq<Adventurer>, scene: Scene)
    requires
        modest_units(units),
    ensures
        0 <= units_power(units, scene) <= units.len() * 1_000_003,
        0 <= units_health(units) <= units.len() * 1_000_003,
    decreases units.len(),
{
    if units.len() > 0 {
        let rest = units.drop_last();
        assert forall|i: int| 0 <= i < rest.len() implies modest_unit(#[trigger] rest[i]) by {
            assert(rest[i] == units[i]);
        }
        lemma_unit_totals(rest, scene);
        assert(modest_unit(units[units.len() - 1]));
    }
}

proof fn lemma_gear_totals(picks: Seq<CommunityCard>, units: Seq<Adventurer>)
    ensures
        0 <= total_gear_power(picks, units) <= picks.len() * 7,
        0 <= total_gear_health(picks, units) <= picks.len() * 7,
    decreases picks.len(),
{
    if picks.len() > 0 {
        lemma_gear_totals(picks.drop_last(), units);
    }
}

proof fn lemma_modest_run(
    s: RunState,
    squad: Squad,
    scene: Scene,
    dungeon: Seq<Monster>,
    i: int,
    aggro: u32,
    berserk: bool,
)
    requires
        modest_nodes(dungeon),
        dungeon.len() <= 3,
        0 <= i,
        -3 * i <= s.power <= 10_000_000,
        -3 * i <= s.health <= 10_000_000,
        0 <= s.poison <= i,
    ensures
        run_fits(s, squad, scene, dungeon, i, aggro, berserk),
    decreases dungeon.len() - i,
{
    if i < dungeon.len() {
        let node = dungeon[i];
        assert(modest_node(node));
        assert(node_fits(s, squad, scene, node, aggro, berserk));
        match passing(s, squad, scene, node, i == 0, aggro, berserk) {
            None => {},
            Some(t) => lemma_modest_run(t, squad, scene, dungeon, i + 1, aggro, berserk),
        }
    }
}

/// A battle of modest cards, with up to three picks and up to three nodes, stays within the
/// registers whatever the aggro.
pub proof fn modest_battles_fit(
    hole: Seq<Adventurer>,
    picks: Seq<CommunityCard>,
    scene: Scene,
    dungeon: Seq<Monster>,
    aggro: u32,
    berserk: bool,
)
    requires
        modest_hole(hole),
        modest_cards(picks),
        picks.len() <= 3,
        modest_nodes(dungeon),
        dungeon.len() <= 3,
    ensures
        battle_fits(hole, picks, scene, dungeon, aggro, berserk),
{
    let units = team_units(hole, picks);
    lemma_picked_units(picks);
    assert forall|i: int| 0 <= i < units.len() implies modest_unit(#[trigger] units[i]) by {
        if i < 2 {
            assert(units[i] == hole[i]);
        } else {
            assert(units[i] == picked_units(picks)[i - 2]);
        }
    }
    lemma_unit_totals(units, scene);
    lemma_gear_totals(picks, units);
    assert(0 <= synergy(units) <= 60);
    let squad = squad_of(hole, picks, scene);
    lemma_modest_run(run_start(squad), squad, scene, dungeon, 0, aggro, berserk);
}

proof fn lemma_selected(community: Seq<CommunityCard>, indices: Seq<usize>)
    requires
        modest_cards(community),
    ensures
        modest_cards(selected(community, indices)),
        selected(community, indices).len() <= indices.len(),
    decreases indices.len(),
{
    if indices.len() > 0 {
        lemma_selected(community, indices.drop_last());
    }
}

/// In a playable hand every team that can be tried fits.
pub proof fn playable_teams_fit(g: GameModel, hole: Seq<Adventurer>)
    requires
        playable(g),
        modest_hole(hole),
    ensures
        g.best_fits(hole),
{
    if g.community.len() <= 3 {
        modest_battles_fit(hole, g.community, g.scene, g.dungeon, g.aggro, g.boss_berserk);
    } else {
        assert forall|t: (int, int, int)| is_triple(t, g.community.len() as int) implies
            #[trigger] g.report_fits(hole, cards_at(g.community, t)) by {
            let picks = cards_at(g.community, t);
            assert(modest_card(g.community[t.0]));
            assert(modest_card(g.community[t.1]));
            assert(modest_card(g.community[t.2]));
            modest_battles_fit(hole, picks, g.scene, g.dungeon, g.aggro, g.boss_berserk);
        }
    }
}

proof fn lemma_pick_length(picks: Seq<(PlayerId, [usize; 3])>, id: PlayerId)
    ensures
        match pick_of(picks, id) {
            Some(indices) => indices.len() == 3,
            None => true,
        },
    decreases picks.len(),
{
    if picks.len() > 0 && picks[0].0 != id {
        lemma_pick_length(picks.drop_first(), id);
    }
}

/// A playable hand can be settled, whatever the players have picked.
pub proof fn playable_hands_settle(g: GameModel, picks: Seq<(PlayerId, [usize; 3])>)
    requires
        playable(g),
    ensures
        g.settlement_fits(picks),
{
    assert forall|i: int| 0 <= i < g.players.len() && (#[trigger] g.players[i]).in_hand() implies
        g.player_fits(g.players[i], picks) by {
        let p = g.players[i];
        assert(modest_hole(p.hole));
        lemma_pick_length(picks, p.id);
        match pick_of(picks, p.id) {
            Some(indices) => {
                lemma_selected(g.community, indices);
                modest_battles_fit(
                    p.hole,
                    selected(g.community, indices),
                    g.scene,
                    g.dungeon,
                    g.aggro,
                    g.boss_berserk,
                );
            },
            None => playable_teams_fit(g, p.hole),
        }
    }
}

/// In a playable hand the heuristic player can decide for every seat.
pub proof fn playable_hands_can_be_decided(g: GameModel, idx: int)
    requires
        playable(g),
        0 <= idx < g.players.len(),
    ensures
        decision_fits(g, idx),
{
    assert(modest_hole(g.players[idx].hole));
    playable_teams_fit(g, g.players[idx].hole);
    lemma_chips_within_total(g.players, idx);
    assert(g.players[idx].committed <= g.pot);
}

/// In a playable hand every action stays within the registers.
pub proof fn playable_hands_can_be_acted_on(g: GameModel, action: Action)
    requires
        playable(g),
    ensures
        g.price_fits(action),
{
    if g.rejection(action) is None {
        lemma_chips_within_total(g.players, g.to_act);
        lemma_acted_upon(g, action);
        assert(g.players[g.to_act].committed <= g.pot);
    }
}

// ---- Actions ----

proof fn lemma_modest_dealing(g: GameModel, n: int)
    requires
        modest(g),
        n >= 0,
    ensures
        modest(g.dealing(n)),
{
    let h = g.dealing(n);
    assert forall|i: int| 0 <= i < h.community.len() implies modest_card(
        #[trigger] h.community[i],
    ) by {
        if i >= g.community.len() {
            let top = g.community_deck.len() as int;
            assert(h.community[i] == g.community_deck[top - 1 - (i - g.community.len())]);
        }
    }
}

proof fn lemma_modest_meeting(g: GameModel)
    requires
        modest(g),
    ensures
        modest(g.meeting_small()),
        modest(g.meeting_elite()),
        modest(g.meeting_boss()),
{
    if g.small_deck.len() > 0 {
        assert(modest_node(g.small_deck[g.small_deck.len() - 1]));
    }
    if g.elite_deck.len() > 0 {
        assert(modest_node(g.elite_deck[g.elite_deck.len() - 1]));
    }
    if g.boss_deck.len() > 0 {
        assert(modest_node(g.boss_deck[g.boss_deck.len() - 1]));
    }
}

proof fn lemma_modest_showdown(g: GameModel)
    requires
        modest(g),
    ensures
        modest(g.showdown()),
{
    let n = shortfall(5, g.community.len() as int);
    let a = g.dealing(n);
    lemma_modest_dealing(g, n);
    lemma_modest_meeting(a);
    let b = if a.dungeon.len() == 0 {
        a.meeting_small()
    } else {
        a
    };
    lemma_modest_meeting(b);
    let c = if b.dungeon.len() < 2 {
        b.meeting_elite()
    } else {
        b
    };
    lemma_modest_meeting(c);
}

proof fn lemma_modest_next_phase(g: GameModel)
    requires
        modest(g),
    ensures
        modest(g.next_phase()),
    decreases rounds_left(g.phase),
{
    match g.phase {
        Phase::PreFlop | Phase::Flop | Phase::Turn => {
            let n: int = if g.phase == Phase::PreFlop {
                3
            } else {
                1
            };
            let next = match g.phase {
                Phase::PreFlop => Phase::Flop,
                Phase::Flop => Phase::Turn,
                _ => Phase::River,
            };
            let h = GameModel { phase: next, ..g.heated() };
            assert(modest(h));
            lemma_modest_dealing(h, n);
            lemma_modest_meeting(h.dealing(n));
            let f = g.heated().next_street().fresh_round();
            assert(modest(f));
            if f.betting_is_idle() {
                lemma_modest_next_phase(f);
            }
        },
        Phase::River => lemma_modest_showdown(g),
        _ => {},
    }
}

proof fn lemma_line_next_phase(g: GameModel)
    requires
        g.wf(),
        g.current_bet + RAISE_STEP <= u32::MAX,
        forall|i: int| 0 <= i < g.players.len() ==> (#[trigger] g.players[i]).committed <= g.pot,
    ensures
        g.next_phase().current_bet + RAISE_STEP <= u32::MAX,
        forall|i: int|
            0 <= i < g.next_phase().players.len() ==> (
            #[trigger] g.next_phase().players[i]).committed <= g.next_phase().pot,
    decreases rounds_left(g.phase),
{
    match g.phase {
        Phase::PreFlop | Phase::Flop | Phase::Turn => {
            let s = g.heated().next_street();
            let f = s.fresh_round();
            crate::game_laws::lemma_fresh_round(s);
            if f.betting_is_idle() {
                lemma_line_next_phase(f);
            }
        },
        _ => {},
    }
}

/// An accepted action leaves a playable hand playable.
pub proof fn actions_keep_hands_playable(g: GameModel, action: Action)
    requires
        playable(g),
        g.rejection(action) is None,
    ensures
        playable(g.after(action)),
{
    actions_keep_order(g, action);
    actions_keep_the_money(g, action);
    actions_keep_the_board_in_order(g, action);
    lemma_acted_upon(g, action);
    lemma_chips_within_total(g.players, g.to_act);
    let h = acted_upon(g, action);
    assert(modest(h)) by {
        assert forall|i: int| 0 <= i < h.players.len() implies modest_hole(
            (#[trigger] h.players[i]).hole,
        ) by {
            assert(modest_hole(g.players[i].hole));
            if i == g.to_act {
                assert(h.players[i] == h.actor());
            }
        }
    }
    assert forall|i: int| 0 <= i < h.players.len() implies (
    #[trigger] h.players[i]).committed <= h.pot by {
        assert(g.players[i].committed <= g.pot);
        if i == g.to_act {
            assert(h.players[i] == h.actor());
        }
    }
    assert(h.current_bet + RAISE_STEP <= u32::MAX) by {
        assert(g.players[g.to_act].committed <= g.pot);
        assert(h.current_bet == g.current_bet || h.current_bet == h.actor().committed);
    }
    if count_in_hand(h.players) <= 1 {
        lemma_modest_showdown(h);
    } else if h.next_actor(1) is None {
        lemma_modest_next_phase(h);
        lemma_line_next_phase(h);
    }
}

// ---- The opening ----

/// A new hand of players with modest hole cards, whose money and ante fit, is playable.
pub proof fn openings_are_playable(players: Seq<PlayerModel>, ante: int, seed: u64)
    requires
        players.len() > 0,
        ante >= 0,
        ante + RAISE_STEP <= u32::MAX,
        total_chips(players) + RAISE_STEP <= u32::MAX,
        forall|i: int|
            0 <= i < players.len() ==> 0 <= (#[trigger] players[i]).chips && modest_hole(
                players[i].hole,
            ),
    ensures
        playable(GameModel::opening(players, ante, seed)),
{
    let g = GameModel::opening(players, ante, seed);
    opening_keeps_the_money(players, ante, seed);
    the_opening_board_is_in_order(players, ante, seed);
    let s1 = state_after_shuffle(seed, community_cards().len());
    let s2 = state_after_shuffle(s1, small_monsters().len());
    let s3 = state_after_shuffle(s2, elite_monsters().len());
    assert forall|i: int| 0 <= i < g.community_deck.len() implies modest_card(
        #[trigger] g.community_deck[i],
    ) by {
        lemma_shuffled_member(community_cards(), seed, i);
    }
    assert forall|i: int| 0 <= i < g.small_deck.len() implies modest_node(
        #[trigger] g.small_deck[i],
    ) by {
        lemma_shuffled_member(small_monsters(), s1, i);
    }
    assert forall|i: int| 0 <= i < g.elite_deck.len() implies modest_node(
        #[trigger] g.elite_deck[i],
    ) by {
        lemma_shuffled_member(elite_monsters(), s2, i);
    }
    assert forall|i: int| 0 <= i < g.boss_deck.len() implies modest_node(
        #[trigger] g.boss_deck[i],
    ) by {
        lemma_shuffled_member(boss_monsters(), s3, i);
    }
    assert forall|i: int| 0 <= i < g.players.len() implies modest_hole(
        (#[trigger] g.players[i]).hole,
    ) by {
        assert(g.players[i] == anted(players[i], ante));
    }
    assert forall|i: int| 0 <= i < g.players.len() implies (
    #[trigger] g.players[i]).committed <= g.pot by {
        assert(g.players[i] == anted(players[i], ante));
        lemma_ante_within_total(players, ante, i);
    }
}

proof fn lemma_ante_within_total(players: Seq<PlayerModel>, ante: int, i: int)
    requires
        0 <= i < players.len(),
        ante >= 0,
        forall|j: int| 0 <= j < players.len() ==> 0 <= (#[trigger] players[j]).chips,
    ensures
        least(ante, players[i].chips) <= total_ante(players, ante),
    decreases players.len(),
{
    let rest = players.drop_last();
    assert forall|j: int| 0 <= j < rest.len() implies 0 <= (#[trigger] rest[j]).chips by {
        assert(rest[j] == players[j]);
    }
    crate::game_laws::lemma_total_ante_not_negative(rest, ante);
    assert(players[players.len() - 1].chips >= 0);
    if i < rest.len() {
        lemma_ante_within_total(rest, ante, i);
        assert(rest[i] == players[i]);
    }
}

} // verus!
