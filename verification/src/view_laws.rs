//! What holds of the table as a client sees it, and of the buttons below it.
use crate::cards::{Adventurer, CommunityCard, ConsumKind, EquipKind, MonsterKind, Scene};
use crate::client::{name_kept, MpButton, NetModel};
use crate::game::{Action, Phase};
use crate::hud::{effect_word, keyed, Bet, BetButton, BetKeys};
use crate::lobby_laws::lemma_seat_from;
use crate::net::ClientMsgModel;
use crate::player::PlayerStatus;
use crate::request_laws::{lemma_sits_from, sits_at};
use crate::room::RoomGameModel;
use crate::screens::{led_to, unpaused, MenuButton, Pause, PauseButton, Screen};
use crate::table_view::{adventurer_shown, card_shown, hole_shown};
use crate::team_laws::threats_add_up;
use crate::text::{dec, trimmed, uppercase};
use vstd::prelude::*;

verus! {

// ---- The table ----

proof fn lemma_sits(g: RoomGameModel, client: u64, k: int)
    requires
        sits_at(g, client, k),
    ensures
        g.seat_of(client) == Some(k),
{
    lemma_sits_from(g.seat_clients, client, 0, k);
}

/// The table shows the hand as it is: its number, its phase, the pot, the line, the ante, the
/// aggro and the rage, all open cards and nodes, and the outcome once there is one. While betting
/// goes on it shows whose turn it is.
pub proof fn tables_show_the_hand(g: RoomGameModel, client: u64)
    ensures
        ({
            let v = g.shown_to(client);
            let hand = g.mtch.hand;
            let over = hand.phase == Phase::Showdown || hand.phase == Phase::Done;
            &&& v.hand_no == g.mtch.hand_no
            &&& v.scene_label == g.mtch.scene.spec_label()
            &&& v.scene_art == g.mtch.scene.spec_art()
            &&& v.phase == hand.phase
            &&& v.pot == hand.pot
            &&& v.current_bet == hand.current_bet
            &&& v.ante == g.mtch.ante
            &&& v.aggro == hand.aggro
            &&& v.boss_berserk == hand.boss_berserk
            &&& over ==> v.to_act_seat is None
            &&& !over ==> v.to_act_seat == Some(hand.to_act)
            &&& v.result == g.mtch.last
            &&& v.seats.len() == g.mtch.seats.len()
            &&& v.revealed_holes.len() == g.mtch.seats.len()
            &&& v.community.len() == hand.community.len()
            &&& v.dungeon.len() == hand.dungeon.len()
            &&& v.dungeon_threats.len() == hand.dungeon.len()
            &&& forall|k: int|
                0 <= k < hand.community.len() ==> #[trigger] v.community[k] == card_shown(
                    hand.community[k],
                )
            &&& v.can_next <==> over && g.settled && client == g.host
        }),
{
}

/// Every seat shows its name, its chips and debt, what it has put in, its status, and whether it
/// has the turn. Who is in the hand is who has not folded, and a seat without a client is the
/// machine's.
pub proof fn tables_show_the_seats(g: RoomGameModel, client: u64, k: int)
    requires
        0 <= k < g.mtch.seats.len(),
    ensures
        ({
            let seat = g.shown_to(client).seats[k];
            let hand = g.mtch.hand;
            let over = hand.phase == Phase::Showdown || hand.phase == Phase::Done;
            &&& seat.name == g.mtch.seats[k].name
            &&& seat.chips == g.mtch.seats[k].chips
            &&& seat.debt == g.mtch.seats[k].debt
            &&& seat.committed == hand.players[k].committed
            &&& seat.status == hand.players[k].status
            &&& seat.is_turn <==> !over && hand.to_act == k
            &&& seat.is_ai <==> g.seat_clients[k] is None
            &&& seat.in_hand <==> hand.players[k].status != PlayerStatus::Folded
        }),
{
}

/// Nodes show the threat that they pose to every team: their own, with aggro and rage.
pub proof fn tables_show_the_threats(g: RoomGameModel, client: u64, k: int)
    requires
        0 <= k < g.mtch.hand.dungeon.len(),
        g.mtch.hand.dungeon[k].threat <= i32::MAX,
    ensures
        ({
            let hand = g.mtch.hand;
            let node = hand.dungeon[k];
            let v = g.shown_to(client);
            let threat = node.threat + (match node.kind {
                MonsterKind::Elite | MonsterKind::PoisonSwamp => hand.aggro as int / 8,
                MonsterKind::Boss => hand.aggro as int / 8 + if hand.boss_berserk {
                    10int
                } else {
                    0
                },
                _ => 0,
            });
            &&& v.dungeon_threats[k] == threat
            &&& v.dungeon[k].art == node.art@
            &&& v.dungeon[k].label == "T"@ + dec(threat as nat) + "  H"@ + dec(node.health as nat)
        }),
{
    let hand = g.mtch.hand;
    threats_add_up(hand.dungeon[k], hand.aggro, hand.boss_berserk);
}

/// A client at a seat sees the seat and its own cards. It is asked to pick exactly while a
/// showdown is open in which its player has not folded and has not picked. It is told to be short
/// of chips exactly when the seat has less than a hundred, or less than a call costs.
pub proof fn clients_see_their_own_seat(g: RoomGameModel, client: u64, k: int)
    requires
        sits_at(g, client, k),
        k < g.mtch.hand.players.len(),
    ensures
        ({
            let v = g.shown_to(client);
            let hand = g.mtch.hand;
            let p = hand.players[k];
            let over = hand.phase == Phase::Showdown || hand.phase == Phase::Done;
            &&& v.you_seat == Some(k)
            &&& v.your_hole == Some(hole_shown(p.hole))
            &&& v.need_select <==> over && !g.settled && p.status != PlayerStatus::Folded
                && g.selections[k] is None
            &&& v.low_chips <==> g.mtch.seats[k].chips < 100 || g.mtch.seats[k].chips
                < hand.current_bet - p.committed
        }),
{
    lemma_sits(g, client, k);
}

/// A client without a seat has no cards, nothing to pick and nothing to pay.
pub proof fn onlookers_have_nothing(g: RoomGameModel, client: u64)
    requires
        forall|k: int|
            0 <= k < g.seat_clients.len() ==> (#[trigger] g.seat_clients[k]) != Some(client),
    ensures
        ({
            let v = g.shown_to(client);
            &&& v.you_seat is None
            &&& v.your_hole is None
            &&& !v.need_select
            &&& !v.low_chips
        }),
{
    lemma_seat_from(g.seat_clients, client, 0);
}

/// The hole cards of every player who has not folded lie open once betting is over, and nobody's
/// before.
pub proof fn holes_open_when_betting_is_over(g: RoomGameModel, client: u64, k: int)
    requires
        0 <= k < g.mtch.seats.len(),
    ensures
        ({
            let v = g.shown_to(client);
            let p = g.mtch.hand.players[k];
            let over = g.mtch.hand.phase == Phase::Showdown || g.mtch.hand.phase == Phase::Done;
            &&& over && p.status != PlayerStatus::Folded ==> v.revealed_holes[k] == Some(
                hole_shown(p.hole),
            )
            &&& !over || p.status == PlayerStatus::Folded ==> v.revealed_holes[k] is None
        }),
{
}

/// A card shows its picture and its numbers: power and health of a unit, the bonus of a piece of
/// equipment, the use of a consumable.
pub proof fn cards_show_their_numbers(a: Adventurer, hole: Seq<Adventurer>, k: int)
    requires
        0 <= k < hole.len(),
    ensures
        adventurer_shown(a).art == a.art@,
        adventurer_shown(a).label == "P"@ + dec(a.power as nat) + "  H"@ + dec(a.health as nat),
        card_shown(CommunityCard::Unit(a)) == adventurer_shown(a),
        hole_shown(hole).len() == hole.len(),
        hole_shown(hole)[k] == adventurer_shown(hole[k]),
{
}

// ---- The buttons ----

/// At the start of a turn the slider stands at its lower end: twenty above the line, or all that the
/// player has where that is less. Its upper end is all that the player has. Within a turn it
/// stays where it is as long as it is between its ends.
pub proof fn sliders_start_at_their_lower_end(bet: Bet, line: u32, committed: u32, chips: u32)
    requires
        committed + chips <= u32::MAX,
        line + 20 <= u32::MAX,
    ensures
        ({
            let now = bet.turned(line, committed, chips);
            &&& now.active
            &&& now.current_bet == line
            &&& now.committed == committed
            &&& now.chips == chips
            &&& now.max_raise == committed + chips
            &&& now.min_raise <= now.max_raise
            &&& now.min_raise == line + 20 || (now.min_raise == now.max_raise && now.min_raise
                < line + 20)
            &&& now.can_check <==> committed >= line
            &&& !bet.active ==> now.raise_to == now.min_raise
            &&& bet.active && now.min_raise <= bet.raise_to <= now.max_raise ==> now.raise_to
                == bet.raise_to
            &&& now.min_raise <= now.raise_to <= now.max_raise
        }),
{
}

/// A notch moves the slider by twenty, but never beyond its ends; as many notches back lead back
/// where none of them met an end.
pub proof fn notches_move_the_slider_by_twenty(bet: Bet, notches: int)
    requires
        bet.min_raise <= bet.max_raise,
    ensures
        ({
            let at = bet.raise_to + 20 * notches;
            let now = bet.scrolled(notches);
            &&& bet.min_raise <= at <= bet.max_raise ==> now.raise_to == at
            &&& at < bet.min_raise ==> now.raise_to == bet.min_raise
            &&& at > bet.max_raise ==> now.raise_to == bet.max_raise
            &&& now == (Bet { raise_to: now.raise_to, ..bet })
            &&& bet.min_raise <= bet.raise_to <= bet.max_raise && bet.min_raise <= at
                <= bet.max_raise ==> now.scrolled(-notches) == bet
        }),
{
    assert(notches * 20 == 20 * notches);
    assert((-notches) * 20 == -(20 * notches));
}

/// Each button stands for its own action. A check is offered where nothing is owed. A raise is
/// offered to a player with more than a call costs, and turns into an all-in at the upper end.
pub proof fn buttons_do_what_they_say(bet: Bet)
    ensures
        bet.action_of(BetButton::Fold) == Some(Action::Fold),
        bet.action_of(BetButton::Call) == Some(Action::Call),
        bet.can_check ==> bet.action_of(BetButton::Check) == Some(Action::Check),
        !bet.can_check ==> bet.action_of(BetButton::Check) is None,
        ({
            let able = bet.max_raise > bet.current_bet && bet.chips > bet.current_bet
                - bet.committed && bet.chips > 0;
            &&& !able ==> bet.action_of(BetButton::Raise) is None
            &&& able && bet.raise_to < bet.max_raise ==> bet.action_of(BetButton::Raise) == Some(
                Action::Raise { to: bet.raise_to },
            )
            &&& able && bet.raise_to >= bet.max_raise ==> bet.action_of(BetButton::Raise) == Some(
                Action::AllIn,
            )
            &&& bet.is_lit(BetButton::Raise) <==> able
        }),
        bet.is_lit(BetButton::Check) <==> bet.can_check,
        bet.is_lit(BetButton::Call) <==> bet.current_bet > bet.committed,
        bet.is_lit(BetButton::Fold),
{
}

/// Keys do what their buttons do, and nothing while it is not the player's turn. Of several keys
/// the first counts: check, call, raise, fold, all in.
pub proof fn keys_do_what_their_buttons_do(keys: BetKeys, bet: Bet)
    ensures
        !bet.active ==> keyed(keys, bet) is None,
        bet.active && keys.check ==> (keyed(keys, bet) is Some <==> bet.can_check) && (
        keyed(keys, bet) is Some ==> keyed(keys, bet) == Some((Action::Check, BetButton::Check))),
        bet.active && !keys.check && keys.call ==> keyed(keys, bet) == Some(
            (Action::Call, BetButton::Call),
        ),
        bet.active && !keys.check && !keys.call && keys.raise ==> match bet.action_of(
            BetButton::Raise,
        ) {
            Some(a) => keyed(keys, bet) == Some((a, BetButton::Raise)),
            None => keyed(keys, bet) is None,
        },
        bet.active && !keys.check && !keys.call && !keys.raise && keys.fold ==> keyed(keys, bet)
            == Some((Action::Fold, BetButton::Fold)),
        bet.active && !keys.check && !keys.call && !keys.raise && !keys.fold && keys.all_in ==> (
        keyed(keys, bet) == (if bet.action_of(BetButton::Raise) is Some {
            Some((Action::AllIn, BetButton::Raise))
        } else {
            None
        })),
        !keys.check && !keys.call && !keys.raise && !keys.fold && !keys.all_in ==> keyed(keys, bet)
            is None,
{
}

/// The call button tells what a call costs where it costs anything, and the raise button where the
/// line would go, or what going all in takes the player to.
pub proof fn buttons_tell_their_price(bet: Bet)
    ensures
        bet.current_bet > bet.committed ==> bet.caption_of(BetButton::Call) == Some(
            "跟注 "@ + dec((bet.current_bet - bet.committed) as nat),
        ),
        bet.current_bet <= bet.committed ==> bet.caption_of(BetButton::Call) == Some("跟注"@),
        bet.raise_to < bet.max_raise ==> bet.caption_of(BetButton::Raise) == Some(
            "加注到 "@ + dec(bet.raise_to as nat),
        ),
        bet.raise_to >= bet.max_raise ==> bet.caption_of(BetButton::Raise) == Some(
            "全下 "@ + dec(bet.max_raise as nat),
        ),
        bet.caption_of(BetButton::Check) is None,
        bet.caption_of(BetButton::Fold) is None,
{
}

/// What is called out over the table tells the actions apart.
pub proof fn calls_tell_actions_apart(to: u32)
    ensures
        effect_word(BetButton::Check, Action::Check) == "过牌"@,
        effect_word(BetButton::Call, Action::Call) == "跟注!"@,
        effect_word(BetButton::Fold, Action::Fold) == "弃牌"@,
        effect_word(BetButton::Raise, Action::AllIn) == "全下!!"@,
        effect_word(BetButton::Raise, Action::Raise { to }) == "加注!"@,
{
}

// ---- The menus ----

/// Every button of the menus leads somewhere of its own, and one of each menu leads out.
pub proof fn menu_buttons_lead_apart(a: MenuButton, b: MenuButton, c: PauseButton, d: PauseButton)
    ensures
        led_to(a) == led_to(b) ==> a == b,
        unpaused(c) == unpaused(d) ==> c == d,
        led_to(MenuButton::Exit) is None,
        led_to(MenuButton::Settings) == Some(Screen::Settings),
        led_to(MenuButton::Multiplayer) == Some(Screen::Multiplayer),
        unpaused(PauseButton::Resume) == Some(Pause::Running),
        unpaused(PauseButton::MainMenu) is None,
{
}

/// The buttons of the lobby ask the server for what they say: a room of so many places that the
/// machine fills up, under the player's name; the list; the room whose code was typed, if one was;
/// the start; the way out. The first only settles the player's name.
pub proof fn lobby_buttons_ask_for_what_they_say(n: NetModel, places: usize)
    ensures
        n.asked(MpButton::Confirm) is None,
        n.asked(MpButton::Refresh) == Some(ClientMsgModel::ListRooms),
        n.asked(MpButton::Start) == Some(ClientMsgModel::StartGame),
        n.asked(MpButton::Leave) == Some(ClientMsgModel::LeaveRoom),
        n.asked(MpButton::Create(places)) matches Some(ClientMsgModel::CreateRoom {
            room_name,
            max_players,
            fill_ai,
        }) && room_name == n.name + "的房间"@ && max_players == places && fill_ai,
        ({
            let code = uppercase(trimmed(n.code_input));
            &&& code.len() == 0 ==> n.asked(MpButton::Join) is None
            &&& code.len() > 0 ==> n.asked(MpButton::Join) == Some(
                ClientMsgModel::JoinRoom { code },
            )
        }),
        n.pressed(MpButton::Confirm) == (NetModel { name: name_kept(n.name_input), ..n }),
        n.pressed(MpButton::Refresh) == n,
        n.pressed(MpButton::Join) == n,
        n.pressed(MpButton::Create(places)) == n,
        n.pressed(MpButton::Start) == n,
        n.pressed(MpButton::Leave) == n,
        trimmed(n.name_input).len() > 0 ==> name_kept(n.name_input) == trimmed(n.name_input),
        trimmed(n.name_input).len() == 0 ==> name_kept(n.name_input) == "Player"@,
{
}

// ---- The pictures ----

/// Cards of different kinds have different pictures, and no scene looks or reads like another.
pub proof fn pictures_tell_kinds_apart(
    a: EquipKind,
    b: EquipKind,
    c: ConsumKind,
    d: ConsumKind,
    s: Scene,
    t: Scene,
)
    ensures
        a.spec_art() == b.spec_art() ==> a == b,
        c.spec_art() == d.spec_art() ==> c == d,
        a.spec_art() != c.spec_art(),
        s.spec_art() == t.spec_art() ==> s == t,
        s.spec_label() == t.spec_label() ==> s == t,
        c.spec_tag() == d.spec_tag() ==> c == d,
{
    reveal_strlit("Iron_Shield");
    reveal_strlit("Longbow");
    reveal_strlit("Holy_Chalice");
    reveal_strlit("Dagger");
    reveal_strlit("Arcane_Staff");
    reveal_strlit("Fireball");
    reveal_strlit("Healing_Potion");
    reveal_strlit("Purify");
    reveal_strlit("Smoke_Bomb");
    reveal_strlit("bkg_Ice_field");
    reveal_strlit("bkg_Stone_arena");
    reveal_strlit("bkg_marsh");
    reveal_strlit("bkg_tomb");
    reveal_strlit("bkg_volcano");
    reveal_strlit("bkg_wheat_field");
    reveal_strlit("冰原 (战力 -2)");
    reveal_strlit("竞技场 (战力 +2)");
    reveal_strlit("毒沼 (无治疗则逐节点叠毒)");
    reveal_strlit("墓地 (战力 +1, 生命 -1)");
    reveal_strlit("火山 (每轮 Boss 惊动 +1)");
    reveal_strlit("麦田 (弓手/法师 +战力)");
    reveal_strlit("火球·削小怪");
    reveal_strlit("药剂·+生命");
    reveal_strlit("净化·免毒");
    reveal_strlit("烟雾·首节减伤");
    assert(a.spec_art()[0] == (match a {
        EquipKind::IronShield => 'I',
        EquipKind::Longbow => 'L',
        EquipKind::HolyChalice => 'H',
        EquipKind::Dagger => 'D',
        EquipKind::ArcaneStaff => 'A',
    }));
    assert(b.spec_art()[0] == (match b {
        EquipKind::IronShield => 'I',
        EquipKind::Longbow => 'L',
        EquipKind::HolyChalice => 'H',
        EquipKind::Dagger => 'D',
        EquipKind::ArcaneStaff => 'A',
    }));
    assert(a.spec_art()[1] != 'e');
    assert(c.spec_art()[1] == (match c {
        ConsumKind::Fireball => 'i',
        ConsumKind::HealingPotion => 'e',
        ConsumKind::Purify => 'u',
        ConsumKind::SmokeBomb => 'm',
    }));
    assert(d.spec_art()[1] == (match d {
        ConsumKind::Fireball => 'i',
        ConsumKind::HealingPotion => 'e',
        ConsumKind::Purify => 'u',
        ConsumKind::SmokeBomb => 'm',
    }));
    assert(s.spec_art()[4] == (match s {
        Scene::IceField => 'I',
        Scene::StoneArena => 'S',
        Scene::Marsh => 'm',
        Scene::Tomb => 't',
        Scene::Volcano => 'v',
        Scene::WheatField => 'w',
    }));
    assert(t.spec_art()[4] == (match t {
        Scene::IceField => 'I',
        Scene::StoneArena => 'S',
        Scene::Marsh => 'm',
        Scene::Tomb => 't',
        Scene::Volcano => 'v',
        Scene::WheatField => 'w',
    }));
    assert(s.spec_label()[0] == (match s {
        Scene::IceField => '冰',
        Scene::StoneArena => '竞',
        Scene::Marsh => '毒',
        Scene::Tomb => '墓',
        Scene::Volcano => '火',
        Scene::WheatField => '麦',
    }));
    assert(t.spec_label()[0] == (match t {
        Scene::IceField => '冰',
        Scene::StoneArena => '竞',
        Scene::Marsh => '毒',
        Scene::Tomb => '墓',
        Scene::Volcano => '火',
        Scene::WheatField => '麦',
    }));
    assert(c.spec_tag()[0] == (match c {
        ConsumKind::Fireball => '火',
        ConsumKind::HealingPotion => '药',
        ConsumKind::Purify => '净',
        ConsumKind::SmokeBomb => '烟',
    }));
    assert(d.spec_tag()[0] == (match d {
        ConsumKind::Fireball => '火',
        ConsumKind::HealingPotion => '药',
        ConsumKind::Purify => '净',
        ConsumKind::SmokeBomb => '烟',
    }));
}

/// The note on a piece of equipment tells whom it is made for and the bonus that it gives.
pub proof fn notes_tell_the_bonus(kind: EquipKind)
    ensures
        kind.spec_tag() == (match kind {
            EquipKind::IronShield => "战"@ + "专 +"@ + dec(0) + "P"@ + dec(7) + "H"@,
            EquipKind::Longbow => "游"@ + "专 +"@ + dec(5) + "P"@ + dec(0) + "H"@,
            EquipKind::HolyChalice => "神"@ + "专 +"@ + dec(0) + "P"@ + dec(6) + "H"@,
            EquipKind::Dagger => "盗"@ + "专 +"@ + dec(5) + "P"@ + dec(0) + "H"@,
            EquipKind::ArcaneStaff => "法"@ + "专 +"@ + dec(6) + "P"@ + dec(0) + "H"@,
        }),
        card_shown(CommunityCard::Equip(kind)).label == kind.spec_tag(),
        card_shown(CommunityCard::Equip(kind)).art == kind.spec_art(),
{
}

} // verus!
