//! What holds of every hand, whatever the players do.
use crate::cards::{CommunityCard, Monster, MonsterKind};
use crate::game::{
    boss_monsters, community_cards, elite_monsters, small_monsters, Action, Phase, PlayerResult,
};
use crate::game_model::{
    anted, count_in_hand, first_actor, rounds_left, shortfall, someone_can_act, total_ante,
    total_chips, winner_place, GameModel,
};
use crate::player::{PlayerId, PlayerModel};
use crate::rng::{shuffle_keeps_the_cards, shuffled, state_after_shuffle};
use vstd::prelude::*;

verus! {

// ---- Money ----

/// All the money of a hand: the pot and every player's chips.
pub open spec fn money(g: GameModel) -> int {
    g.pot + total_chips(g.players)
}

pub(crate) proof fn lemma_total_of_update(players: Seq<PlayerModel>, i: int, p: PlayerModel)
    requires
        0 <= i < players.len(),
    ensures
        total_chips(players.update(i, p)) == total_chips(players) - players[i].chips + p.chips,
    decreases players.len(),
{
    let after = players.update(i, p);
    if i == players.len() - 1 {
        assert(after.drop_last() =~= players.drop_last());
    } else {
        assert(after.drop_last() =~= players.drop_last().update(i, p));
        lemma_total_of_update(players.drop_last(), i, p);
    }
}

pub(crate) proof fn lemma_total_by_chips(a: Seq<PlayerModel>, b: Seq<PlayerModel>)
    requires
        a.len() == b.len(),
        forall|i: int| 0 <= i < a.len() ==> (#[trigger] a[i]).chips == b[i].chips,
    ensures
        total_chips(a) == total_chips(b),
    decreases a.len(),
{
    if a.len() > 0 {
        assert forall|i: int| 0 <= i < a.drop_last().len() implies (#[trigger] a.drop_last()[i]).chips
            == b.drop_last()[i].chips by {
            assert(a.drop_last()[i] == a[i]);
        }
        assert(a.last() == a[a.len() - 1]);
        lemma_total_by_chips(a.drop_last(), b.drop_last());
    }
}

pub(crate) proof fn lemma_chips_within_total(players: Seq<PlayerModel>, i: int)
    requires
        0 <= i < players.len(),
        forall|j: int| 0 <= j < players.len() ==> 0 <= (#[trigger] players[j]).chips,
    ensures
        players[i].chips <= total_chips(players),
        0 <= total_chips(players),
    decreases players.len(),
{
    if i < players.len() - 1 {
        assert forall|j: int| 0 <= j < players.drop_last().len() implies 0 <= (
        #[trigger] players.drop_last()[j]).chips by {
            assert(players.drop_last()[j] == players[j]);
        }
        lemma_chips_within_total(players.drop_last(), i);
    } else {
        lemma_total_not_negative(players.drop_last());
    }
    assert(players[players.len() - 1].chips >= 0);
}

pub(crate) proof fn lemma_total_not_negative(players: Seq<PlayerModel>)
    requires
        forall|j: int| 0 <= j < players.len() ==> 0 <= (#[trigger] players[j]).chips,
    ensures
        0 <= total_chips(players),
    decreases players.len(),
{
    if players.len() > 0 {
        assert forall|j: int| 0 <= j < players.drop_last().len() implies 0 <= (
        #[trigger] players.drop_last()[j]).chips by {
            assert(players.drop_last()[j] == players[j]);
        }
        lemma_total_not_negative(players.drop_last());
        assert(players[players.len() - 1].chips >= 0);
    }
}

proof fn lemma_first_actor(players: Seq<PlayerModel>, i: int)
    requires
        0 <= i <= players.len(),
    ensures
        0 <= first_actor(players, i),
        players.len() > 0 ==> first_actor(players, i) < players.len(),
        (exists|j: int| i <= j < players.len() && (#[trigger] players[j]).can_act())
            ==> players[first_actor(players, i)].can_act(),
    decreases players.len() - i,
{
    if i < players.len() && !players[i].can_act() {
        lemma_first_actor(players, i + 1);
    }
}

/// What the end of a betting round leaves as it was.
pub open spec fn same_stacks(a: GameModel, b: GameModel) -> bool {
    &&& a.pot == b.pot
    &&& a.scene == b.scene
    &&& a.boss_berserk == b.boss_berserk
    &&& a.players.len() == b.players.len()
    &&& a.acted.len() == b.acted.len()
    &&& forall|i: int|
        0 <= i < a.players.len() ==> (#[trigger] b.players[i]) == (PlayerModel {
            committed: b.players[i].committed,
            ..a.players[i]
        })
}

pub(crate) proof fn lemma_fresh_round(g: GameModel)
    requires
        g.wf(),
    ensures
        g.fresh_round().wf(),
        same_stacks(g, g.fresh_round()),
{
    let f = g.fresh_round();
    lemma_first_actor(f.players, 0);
}

proof fn lemma_next_phase(g: GameModel)
    requires
        g.wf(),
    ensures
        g.next_phase().wf(),
        same_stacks(g, g.next_phase()),
        rounds_left(g.phase) > 0 ==> rounds_left(g.next_phase().phase) < rounds_left(g.phase),
    decreases rounds_left(g.phase),
{
    match g.phase {
        Phase::PreFlop | Phase::Flop | Phase::Turn => {
            let s = g.heated().next_street();
            assert(s.wf());
            lemma_fresh_round(s);
            let f = s.fresh_round();
            if f.betting_is_idle() {
                lemma_next_phase(f);
            }
        },
        _ => {},
    }
}

proof fn lemma_next_actor(g: GameModel, step: int)
    requires
        g.players.len() > 0,
        g.to_act >= 0,
        step >= 0,
    ensures
        match g.next_actor(step) {
            Some(i) => 0 <= i < g.players.len() && g.needs_action(i),
            None => true,
        },
    decreases g.players.len() + 1 - step,
{
    if step <= g.players.len() {
        lemma_next_actor(g, step + 1);
    }
}

pub(crate) proof fn lemma_turn_passed(g: GameModel)
    requires
        g.wf(),
        g.players.len() > 0,
        !g.over(),
    ensures
        g.turn_passed().wf(),
        same_stacks(g, g.turn_passed()),
        rounds_left(g.turn_passed().phase) <= rounds_left(g.phase),
{
    if count_in_hand(g.players) > 1 {
        lemma_next_actor(g, 1);
        if g.next_actor(1) is None {
            lemma_next_phase(g);
        }
    }
}

/// The hand right after an accepted action, before the turn passes on.
pub open spec fn acted_upon(g: GameModel, action: Action) -> GameModel {
    let h = g.bet(action);
    GameModel { acted: h.acted.update(g.to_act, true), ..h }
}

pub(crate) proof fn lemma_acted_upon(g: GameModel, action: Action)
    requires
        g.wf(),
        g.players.len() > 0,
        g.rejection(action) is None,
    ensures
        acted_upon(g, action).wf(),
        !acted_upon(g, action).over(),
        acted_upon(g, action).phase == g.phase,
        acted_upon(g, action).to_act == g.to_act,
        acted_upon(g, action).players.len() == g.players.len(),
        acted_upon(g, action).pot == g.pot + g.price(action),
        money(acted_upon(g, action)) == money(g),
        0 <= g.price(action) <= g.actor().chips,
        acted_upon(g, action).actor().chips == g.actor().chips - g.price(action),
        acted_upon(g, action).actor().committed == g.actor().committed + g.price(action),
        forall|i: int|
            0 <= i < g.players.len() && i != g.to_act ==> #[trigger] acted_upon(
                g,
                action,
            ).players[i] == g.players[i],
        acted_upon(g, action).actor().hole == g.actor().hole,
        acted_upon(g, action).actor().id == g.actor().id,
        acted_upon(g, action).actor().name == g.actor().name,
        acted_upon(g, action).actor().is_ai == g.actor().is_ai,
{
    let h = acted_upon(g, action);
    let i = g.to_act;
    assert(0 <= g.players[i].committed <= g.current_bet);
    assert(0 <= g.players[i].chips);
    assert(h.players =~= g.players.update(i, h.players[i]));
    lemma_total_of_update(g.players, i, h.players[i]);
}

/// An accepted action leaves the hand in order.
pub proof fn actions_keep_order(g: GameModel, action: Action)
    requires
        g.wf(),
        g.players.len() > 0,
        g.rejection(action) is None,
    ensures
        g.after(action).wf(),
        g.after(action).players.len() == g.players.len(),
{
    lemma_acted_upon(g, action);
    lemma_turn_passed(acted_upon(g, action));
}

/// Betting ends in the showdown; a hand is marked as settled only from outside.
pub(crate) proof fn lemma_never_done(g: GameModel, action: Action)
    requires
        g.wf(),
        g.players.len() > 0,
        g.rejection(action) is None,
    ensures
        g.after(action).phase != Phase::Done,
{
    lemma_acted_upon(g, action);
    let h = acted_upon(g, action);
    if count_in_hand(h.players) > 1 && h.next_actor(1) is None {
        lemma_next_phase_not_done(h);
    }
}

proof fn lemma_next_phase_not_done(g: GameModel)
    requires
        g.phase != Phase::Done,
    ensures
        g.next_phase().phase != Phase::Done,
    decreases rounds_left(g.phase),
{
    match g.phase {
        Phase::PreFlop | Phase::Flop | Phase::Turn => {
            let f = g.heated().next_street().fresh_round();
            if f.betting_is_idle() {
                lemma_next_phase_not_done(f);
            }
        },
        _ => {},
    }
}

/// No action makes money or loses it: what leaves a player's chips goes to the pot.
pub proof fn actions_keep_the_money(g: GameModel, action: Action)
    requires
        g.wf(),
        g.players.len() > 0,
        g.rejection(action) is None,
    ensures
        money(g.after(action)) == money(g),
        g.after(action).pot == g.pot + g.price(action),
{
    lemma_acted_upon(g, action);
    let h = acted_upon(g, action);
    lemma_turn_passed(h);
    lemma_total_by_chips(h.players, h.turn_passed().players);
}

/// The phases of a hand only ever move forward.
pub proof fn phases_move_forward(g: GameModel, action: Action)
    requires
        g.wf(),
        g.players.len() > 0,
        g.rejection(action) is None,
    ensures
        rounds_left(g.after(action).phase) <= rounds_left(g.phase),
{
    lemma_acted_upon(g, action);
    lemma_turn_passed(acted_upon(g, action));
}

/// The opening takes from the players what it puts into the pot.
pub proof fn opening_keeps_the_money(players: Seq<PlayerModel>, ante: int, seed: u64)
    requires
        ante >= 0,
        forall|i: int| 0 <= i < players.len() ==> 0 <= (#[trigger] players[i]).chips,
    ensures
        money(GameModel::opening(players, ante, seed)) == total_chips(players),
        GameModel::opening(players, ante, seed).wf(),
{
    let g = GameModel::opening(players, ante, seed);
    lemma_ante_split(players, ante);
    lemma_first_actor(g.players, 0);
    assert forall|i: int| 0 <= i < g.players.len() implies 0 <= (
    #[trigger] g.players[i]).committed <= ante && 0 <= g.players[i].chips by {
        assert(g.players[i] == anted(players[i], ante));
    }
    lemma_total_ante_not_negative(players, ante);
}

pub(crate) proof fn lemma_total_ante_not_negative(players: Seq<PlayerModel>, ante: int)
    requires
        ante >= 0,
        forall|i: int| 0 <= i < players.len() ==> 0 <= (#[trigger] players[i]).chips,
    ensures
        0 <= total_ante(players, ante),
    decreases players.len(),
{
    if players.len() > 0 {
        assert forall|j: int| 0 <= j < players.drop_last().len() implies 0 <= (
        #[trigger] players.drop_last()[j]).chips by {
            assert(players.drop_last()[j] == players[j]);
        }
        lemma_total_ante_not_negative(players.drop_last(), ante);
        assert(players[players.len() - 1].chips >= 0);
    }
}

proof fn lemma_ante_split(players: Seq<PlayerModel>, ante: int)
    ensures
        total_ante(players, ante) + total_chips(
            players.map_values(|p: PlayerModel| anted(p, ante)),
        ) == total_chips(players),
    decreases players.len(),
{
    let seated = players.map_values(|p: PlayerModel| anted(p, ante));
    if players.len() > 0 {
        lemma_ante_split(players.drop_last(), ante);
        assert(seated.drop_last() =~= players.drop_last().map_values(
            |p: PlayerModel| anted(p, ante),
        ));
    }
}

// ---- The board ----

/// How many community cards lie open in a phase.
pub open spec fn cards_due(phase: Phase) -> int {
    match phase {
        Phase::PreFlop => 0,
        Phase::Flop => 3,
        Phase::Turn => 4,
        _ => 5,
    }
}

/// How many dungeon nodes lie open in a phase.
pub open spec fn nodes_due(phase: Phase) -> int {
    match phase {
        Phase::PreFlop => 0,
        Phase::Flop => 1,
        Phase::Turn => 2,
        _ => 3,
    }
}

/// The kinds of nodes that belong at a place of the dungeon.
pub open spec fn right_tier(place: int, kind: MonsterKind) -> bool {
    if place == 0 {
        kind == MonsterKind::Goblin
    } else if place == 1 {
        kind == MonsterKind::Elite || kind == MonsterKind::PoisonSwamp
    } else {
        kind == MonsterKind::Boss
    }
}

/// All nodes belong at the place.
pub open spec fn all_of_tier(nodes: Seq<Monster>, place: int) -> bool {
    forall|i: int| 0 <= i < nodes.len() ==> right_tier(place, (#[trigger] nodes[i]).kind)
}

/// What lies open is what the phase calls for, each node in its tier, and the decks hold enough
/// for the rest of the hand.
pub open spec fn board_in_order(g: GameModel) -> bool {
    let due = nodes_due(g.phase);
    &&& g.community.len() == cards_due(g.phase)
    &&& g.dungeon.len() == due
    &&& g.community_deck.len() >= 5 - cards_due(g.phase)
    &&& due < 1 ==> g.small_deck.len() > 0
    &&& due < 2 ==> g.elite_deck.len() > 0
    &&& due < 3 ==> g.boss_deck.len() > 0
    &&& all_of_tier(g.small_deck, 0)
    &&& all_of_tier(g.elite_deck, 1)
    &&& all_of_tier(g.boss_deck, 2)
    &&& forall|i: int| 0 <= i < due ==> right_tier(i, (#[trigger] g.dungeon[i]).kind)
}

/// Once betting is over, five community cards and a goblin, an elite and a boss lie open.
pub proof fn the_board_is_complete_at_showdown(g: GameModel)
    requires
        board_in_order(g),
        g.over(),
    ensures
        g.community.len() == 5,
        g.dungeon.len() == 3,
        g.dungeon[0].kind == MonsterKind::Goblin,
        g.dungeon[1].kind == MonsterKind::Elite || g.dungeon[1].kind == MonsterKind::PoisonSwamp,
        g.dungeon[2].kind == MonsterKind::Boss,
{
    assert(right_tier(0, g.dungeon[0].kind));
    assert(right_tier(1, g.dungeon[1].kind));
    assert(right_tier(2, g.dungeon[2].kind));
}

proof fn lemma_board_next_street(g: GameModel)
    requires
        board_in_order(g),
        rounds_left(g.phase) > 1,
    ensures
        board_in_order(g.heated().next_street()),
{
    let h = g.heated().next_street();
    assert(board_in_order(h));
}

proof fn lemma_board_next_phase(g: GameModel)
    requires
        board_in_order(g),
    ensures
        board_in_order(g.next_phase()),
    decreases rounds_left(g.phase),
{
    match g.phase {
        Phase::PreFlop | Phase::Flop | Phase::Turn => {
            lemma_board_next_street(g);
            let f = g.heated().next_street().fresh_round();
            if f.betting_is_idle() {
                lemma_board_next_phase(f);
            }
        },
        Phase::River => lemma_board_showdown(g),
        _ => {},
    }
}

proof fn lemma_board_showdown(g: GameModel)
    requires
        board_in_order(g),
        !g.over(),
    ensures
        board_in_order(g.showdown()),
{
}

/// Whatever is played, the board stays in order: every street turns up its cards and its node,
/// and a hand that ends early has the rest turned up at once.
pub proof fn actions_keep_the_board_in_order(g: GameModel, action: Action)
    requires
        g.wf(),
        board_in_order(g),
        g.players.len() > 0,
        g.rejection(action) is None,
    ensures
        board_in_order(g.after(action)),
{
    lemma_acted_upon(g, action);
    let h = acted_upon(g, action);
    assert(board_in_order(h));
    if count_in_hand(h.players) <= 1 {
        lemma_board_showdown(h);
    } else if h.next_actor(1) is None {
        lemma_board_next_phase(h);
    }
}

pub(crate) proof fn lemma_shuffled_member<T>(s: Seq<T>, state: u64, i: int)
    requires
        0 <= i < shuffled(s, state).len(),
    ensures
        s.contains(shuffled(s, state)[i]),
{
    broadcast use vstd::seq_lib::group_to_multiset_ensures;

    shuffle_keeps_the_cards(s, state);
    assert(shuffled(s, state).contains(shuffled(s, state)[i]));
    assert(shuffled(s, state).to_multiset().contains(shuffled(s, state)[i]));
}

/// A new hand starts with its board in order.
pub proof fn the_opening_board_is_in_order(players: Seq<PlayerModel>, ante: int, seed: u64)
    ensures
        board_in_order(GameModel::opening(players, ante, seed)),
{
    let g = GameModel::opening(players, ante, seed);
    let s1 = state_after_shuffle(seed, community_cards().len());
    let s2 = state_after_shuffle(s1, small_monsters().len());
    let s3 = state_after_shuffle(s2, elite_monsters().len());
    shuffle_keeps_the_cards(community_cards(), seed);
    shuffle_keeps_the_cards(small_monsters(), s1);
    shuffle_keeps_the_cards(elite_monsters(), s2);
    shuffle_keeps_the_cards(boss_monsters(), s3);
    assert forall|i: int| 0 <= i < g.small_deck.len() implies right_tier(
        0,
        (#[trigger] g.small_deck[i]).kind,
    ) by {
        lemma_shuffled_member(small_monsters(), s1, i);
    }
    assert forall|i: int| 0 <= i < g.elite_deck.len() implies right_tier(
        1,
        (#[trigger] g.elite_deck[i]).kind,
    ) by {
        lemma_shuffled_member(elite_monsters(), s2, i);
    }
    assert forall|i: int| 0 <= i < g.boss_deck.len() implies right_tier(
        2,
        (#[trigger] g.boss_deck[i]).kind,
    ) by {
        lemma_shuffled_member(boss_monsters(), s3, i);
    }
}

// ---- The cards ----

/// The community cards of a hand in the order in which they come up: those that lie open, then
/// the deck from its top down.
pub open spec fn card_order(g: GameModel) -> Seq<CommunityCard> {
    g.community + g.community_deck.reverse()
}

/// All nodes of a hand, open or not.
pub open spec fn all_nodes(g: GameModel) -> vstd::multiset::Multiset<Monster> {
    g.dungeon.to_multiset().add(g.small_deck.to_multiset()).add(g.elite_deck.to_multiset()).add(
        g.boss_deck.to_multiset(),
    )
}

proof fn lemma_cards_dealing(g: GameModel, n: int)
    requires
        n >= 0,
    ensures
        card_order(g.dealing(n)) == card_order(g),
        all_nodes(g.dealing(n)) == all_nodes(g),
{
    assert(card_order(g.dealing(n)) =~= card_order(g));
}

proof fn lemma_cards_meeting(g: GameModel)
    ensures
        card_order(g.meeting_small()) == card_order(g),
        all_nodes(g.meeting_small()) == all_nodes(g),
        card_order(g.meeting_elite()) == card_order(g),
        all_nodes(g.meeting_elite()) == all_nodes(g),
        card_order(g.meeting_boss()) == card_order(g),
        all_nodes(g.meeting_boss()) == all_nodes(g),
{
    if g.small_deck.len() > 0 {
        lemma_moved_on_top(g.dungeon, g.small_deck);
        assert(all_nodes(g.meeting_small()) =~= all_nodes(g));
    }
    if g.elite_deck.len() > 0 {
        lemma_moved_on_top(g.dungeon, g.elite_deck);
        assert(all_nodes(g.meeting_elite()) =~= all_nodes(g));
    }
    if g.boss_deck.len() > 0 {
        lemma_moved_on_top(g.dungeon, g.boss_deck);
        assert(all_nodes(g.meeting_boss()) =~= all_nodes(g));
    }
}

proof fn lemma_moved_on_top(dungeon: Seq<Monster>, deck: Seq<Monster>)
    requires
        deck.len() > 0,
    ensures
        dungeon.push(deck.last()).to_multiset() == dungeon.to_multiset().insert(deck.last()),
        deck.to_multiset() == deck.drop_last().to_multiset().insert(deck.last()),
{
    broadcast use vstd::seq_lib::group_to_multiset_ensures;

    assert(deck =~= deck.drop_last().push(deck.last()));
}

proof fn lemma_cards_showdown(g: GameModel)
    ensures
        card_order(g.showdown()) == card_order(g),
        all_nodes(g.showdown()) == all_nodes(g),
{
    let a = g.dealing(shortfall(5, g.community.len() as int));
    lemma_cards_dealing(g, shortfall(5, g.community.len() as int));
    let b = if a.dungeon.len() == 0 {
        a.meeting_small()
    } else {
        a
    };
    lemma_cards_meeting(a);
    let c = if b.dungeon.len() < 2 {
        b.meeting_elite()
    } else {
        b
    };
    lemma_cards_meeting(b);
    lemma_cards_meeting(c);
}

proof fn lemma_cards_next_phase(g: GameModel)
    ensures
        card_order(g.next_phase()) == card_order(g),
        all_nodes(g.next_phase()) == all_nodes(g),
    decreases rounds_left(g.phase),
{
    match g.phase {
        Phase::PreFlop | Phase::Flop | Phase::Turn => {
            let n: int = if g.phase == Phase::PreFlop {
                3
            } else {
                1
            };
            let next = match g.phase {
                Phase::PreFlop => Phase::Flop,
                Phase::Flop => Phase::Turn,
                _ => Phase::River,
            };
            let h = GameModel { phase: next, ..g.heated() };
            lemma_cards_dealing(h, n);
            lemma_cards_meeting(h.dealing(n));
            let f = g.heated().next_street().fresh_round();
            if f.betting_is_idle() {
                lemma_cards_next_phase(f);
            }
        },
        Phase::River => lemma_cards_showdown(g),
        _ => {},
    }
}

/// No card or node appears from nowhere, is lost, or changes its place in the deck: the
/// community cards come up in the order that was shuffled at the opening.
pub proof fn actions_keep_the_cards(g: GameModel, action: Action)
    requires
        g.wf(),
        g.players.len() > 0,
        g.rejection(action) is None,
    ensures
        card_order(g.after(action)) == card_order(g),
        all_nodes(g.after(action)) == all_nodes(g),
{
    lemma_acted_upon(g, action);
    let h = acted_upon(g, action);
    if count_in_hand(h.players) <= 1 {
        lemma_cards_showdown(h);
    } else if h.next_actor(1) is None {
        lemma_cards_next_phase(h);
    }
}

// ---- The end ----

/// How many of the first `n` seats still have to act in this betting round.
pub open spec fn seats_waiting(g: GameModel, n: int) -> nat
    decreases n,
{
    if n <= 0 {
        0
    } else {
        seats_waiting(g, n - 1) + (if g.needs_action(n - 1) {
            1nat
        } else {
            0nat
        })
    }
}

/// The hand is over, or the player whose turn it is has to act.
pub open spec fn has_a_turn(g: GameModel) -> bool {
    g.over() || (0 <= g.to_act < g.players.len() && g.needs_action(g.to_act))
}

/// `b` is closer to the end of the hand than `a`: fewer betting rounds to come, or as many and
/// fewer chips outside the pot, or as many of both and fewer seats that still have to act.
/// None of the three can fall below zero, so a hand cannot go on for ever.
pub open spec fn closer_to_the_end(a: GameModel, b: GameModel) -> bool {
    let n = a.players.len() as int;
    ||| rounds_left(b.phase) < rounds_left(a.phase)
    ||| rounds_left(b.phase) == rounds_left(a.phase) && 0 <= total_chips(b.players) < total_chips(
        a.players,
    )
    ||| rounds_left(b.phase) == rounds_left(a.phase) && total_chips(b.players) == total_chips(
        a.players,
    ) && seats_waiting(b, n) < seats_waiting(a, n)
}

proof fn lemma_one_seat_less(a: GameModel, b: GameModel, i: int, n: int)
    requires
        0 <= i < a.players.len(),
        a.needs_action(i),
        !b.needs_action(i),
        forall|j: int| 0 <= j < n && j != i ==> #[trigger] a.needs_action(j) == b.needs_action(j),
    ensures
        seats_waiting(a, n) == seats_waiting(b, n) + (if i < n {
            1nat
        } else {
            0nat
        }),
    decreases n,
{
    if n > 0 {
        lemma_one_seat_less(a, b, i, n - 1);
        if n - 1 != i {
            assert(a.needs_action(n - 1) == b.needs_action(n - 1));
        }
    }
}

proof fn lemma_waiting_same(a: GameModel, b: GameModel, n: int)
    requires
        forall|j: int| 0 <= j < n ==> #[trigger] a.needs_action(j) == b.needs_action(j),
    ensures
        seats_waiting(a, n) == seats_waiting(b, n),
    decreases n,
{
    if n > 0 {
        lemma_waiting_same(a, b, n - 1);
        assert(a.needs_action(n - 1) == b.needs_action(n - 1));
    }
}

proof fn lemma_next_phase_has_a_turn(g: GameModel)
    requires
        g.wf(),
        g.players.len() > 0,
    ensures
        has_a_turn(g.next_phase()),
    decreases rounds_left(g.phase),
{
    match g.phase {
        Phase::PreFlop | Phase::Flop | Phase::Turn => {
            let s = g.heated().next_street();
            let f = s.fresh_round();
            lemma_fresh_round(s);
            if f.betting_is_idle() {
                lemma_next_phase_has_a_turn(f);
            } else {
                lemma_first_actor(f.players, 0);
            }
        },
        _ => {},
    }
}

/// Every accepted action of a player who has to act brings the hand closer to its end, and
/// leaves either a finished hand or another player who has to act.
pub proof fn every_action_leads_to_the_end(g: GameModel, action: Action)
    requires
        g.wf(),
        !g.over(),
        has_a_turn(g),
        g.rejection(action) is None,
    ensures
        closer_to_the_end(g, g.after(action)),
        has_a_turn(g.after(action)),
{
    lemma_acted_upon(g, action);
    let h = acted_upon(g, action);
    let t = h.turn_passed();
    let n = g.players.len() as int;
    lemma_turn_passed(h);
    lemma_total_by_chips(h.players, t.players);
    lemma_total_not_negative(t.players);
    assert(rounds_left(g.phase) > 0);
    if count_in_hand(h.players) <= 1 {
        assert(t.over());
    } else if h.next_actor(1) is None {
        lemma_next_phase(h);
        lemma_next_phase_has_a_turn(h);
    } else {
        lemma_next_actor(h, 1);
        let k = h.next_actor(1)->0;
        assert(t == (GameModel { to_act: k, ..h }));
        assert(t.needs_action(k) == h.needs_action(k));
        if g.price(action) == 0 {
            assert(!h.needs_action(g.to_act));
            assert forall|j: int| 0 <= j < n && j != g.to_act implies #[trigger] g.needs_action(j)
                == h.needs_action(j) by {
                assert(h.players[j] == g.players[j]);
            }
            lemma_one_seat_less(g, h, g.to_act, n);
            assert forall|j: int| 0 <= j < n implies #[trigger] h.needs_action(j)
                == t.needs_action(j) by {}
            lemma_waiting_same(h, t, n);
        }
    }
}

/// A hand that somebody can act in begins with a player who has to act.
pub proof fn the_opening_has_a_turn(players: Seq<PlayerModel>, ante: int, seed: u64)
    requires
        someone_can_act(GameModel::opening(players, ante, seed).players),
    ensures
        has_a_turn(GameModel::opening(players, ante, seed)),
{
    let g = GameModel::opening(players, ante, seed);
    lemma_first_actor(g.players, 0);
}

// ---- The winner ----

/// The winner cleared the dungeon with the highest advantage of all who cleared it; there is no
/// winner exactly when nobody cleared it.
pub proof fn the_winner_cleared_with_the_most(results: Seq<PlayerResult>)
    ensures
        match winner_place(results) {
            Some(w) => {
                &&& 0 <= w < results.len()
                &&& results[w].cleared
                &&& forall|i: int|
                    0 <= i < results.len() && (#[trigger] results[i]).cleared
                        ==> results[i].advantage <= results[w].advantage
                &&& forall|i: int|
                    w < i < results.len() && (#[trigger] results[i]).cleared
                        ==> results[i].advantage < results[w].advantage
            },
            None => forall|i: int| 0 <= i < results.len() ==> !(#[trigger] results[i]).cleared,
        },
    decreases results.len(),
{
    if results.len() > 0 {
        let rest = results.drop_last();
        the_winner_cleared_with_the_most(rest);
        assert forall|i: int| 0 <= i < rest.len() implies rest[i] == results[i] by {}
        match winner_place(results) {
            Some(w) => {
                assert forall|i: int|
                    0 <= i < results.len() && (#[trigger] results[i]).cleared implies
                    results[i].advantage <= results[w].advantage by {
                    if i < rest.len() {
                        assert(rest[i].cleared);
                    }
                }
                assert forall|i: int|
                    w < i < results.len() && (#[trigger] results[i]).cleared implies
                    results[i].advantage < results[w].advantage by {
                    if i < rest.len() {
                        assert(rest[i].cleared);
                    }
                }
            },
            None => {
                assert forall|i: int| 0 <= i < results.len() implies !(
                #[trigger] results[i]).cleared by {
                    if i < rest.len() {
                        assert(!rest[i].cleared);
                    }
                }
            },
        }
    }
}

/// The scoreboard has one line for each player who has not folded, in seat order.
pub proof fn the_scoreboard_lists_who_stayed(
    g: GameModel,
    picks: Seq<(PlayerId, [usize; 3])>,
    n: int,
)
    requires
        0 <= n <= g.players.len(),
    ensures
        g.results(picks, n).len() == count_in_hand(g.players.take(n)),
        forall|k: int|
            0 <= k < g.results(picks, n).len() ==> exists|i: int|
                0 <= i < n && g.players[i].in_hand() && (#[trigger] g.results(picks, n)[k])
                    == crate::game_model::result_of(
                    g.players[i].id,
                    #[trigger] g.player_report(g.players[i], picks),
                ),
    decreases n,
{
    if n > 0 {
        the_scoreboard_lists_who_stayed(g, picks, n - 1);
        assert(g.players.take(n).drop_last() =~= g.players.take(n - 1));
        let all = g.results(picks, n);
        let rest = g.results(picks, n - 1);
        assert forall|k: int| 0 <= k < all.len() implies exists|i: int|
            0 <= i < n && g.players[i].in_hand() && (#[trigger] all[k])
                == crate::game_model::result_of(
                g.players[i].id,
                #[trigger] g.player_report(g.players[i], picks),
            ) by {
            if k < rest.len() {
                assert(all[k] == rest[k]);
            } else {
                let p = g.players[n - 1];
                assert(all[k] == crate::game_model::result_of(p.id, g.player_report(p, picks)));
            }
        }
    }
}

} // verus!
