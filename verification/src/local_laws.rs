//! What holds of a match at one machine, of the seats around its table and of what is typed.
use crate::ai::decision;
use crate::cards::{Class, CommunityCard, MonsterKind};
use crate::client::{leads_to, typed, MpScreen, NetModel, TypedKeyModel};
use crate::game::{
    adventurer_kinds, boss_monsters, community_cards, elite_monsters, small_monsters, Action, Phase,
};
use crate::net::{GameViewModel, ServerMsgModel};
use crate::player::{PlayerModel, PlayerStatus};
use crate::pot::chips_for;
use crate::rng::{exchanged, first_draw, next_state, shuffled, shuffled_below};
use crate::seating::{layout, local_defs, machine_picture, machine_player};
use crate::slots::{
    local_community, local_dungeon, local_hole, remote_community, remote_dungeon, remote_hole, Frame,
};
use crate::solo::{
    auto_played, human_seat, human_stays, pick_place, player_acted, player_is_short, players_picks,
    showdown_step, toggled, ShowdownStep,
};
use crate::table::{MatchModel, SeatModel};
use crate::table_view::{adventurer_shown, card_shown};
use crate::text::{
    dec, end_trimmed, filled_before, filled_behind, halves, is_control_code, is_white, signed,
    start_trimmed, trimmed,
};
use vstd::prelude::*;

verus! {

// ---- A match at one machine ----

/// While the player has to act, the machine waits and its clock stands at zero. A seat of the
/// machine waits for seven tenths of a second, then plays what the machine decides. Once betting
/// is over nothing happens.
pub proof fn the_machine_takes_its_turn(m: MatchModel, delay: u64, dt: u64)
    ensures
        ({
            let over = m.hand.phase == Phase::Showdown || m.hand.phase == Phase::Done;
            let machine = m.hand.players[m.hand.to_act].is_ai;
            let ready = delay + dt >= 700_000_000;
            let (now, clock) = auto_played(m, delay, dt);
            let wanted = decision(m.hand, m.hand.to_act);
            &&& over ==> now == m && clock == delay
            &&& !over && !machine ==> now == m && clock == 0
            &&& !over && machine && !ready ==> now == m && clock == delay + dt
            &&& !over && machine && ready ==> clock == 0 && now == (MatchModel {
                hand: now.hand,
                ..m
            })
            &&& !over && machine && ready && m.hand.rejection(wanted) is None ==> now.hand
                == m.hand.after(wanted)
            &&& !over && machine && ready && m.hand.rejection(wanted) is Some ==> now.hand
                == m.hand
        }),
{
}

/// The player acts only while betting goes on and only in the player's own turn, and only as the
/// rules allow; everything else changes nothing.
pub proof fn the_player_acts_in_turn(m: MatchModel, action: Action)
    ensures
        ({
            let over = m.hand.phase == Phase::Showdown || m.hand.phase == Phase::Done;
            let own = !m.hand.players[m.hand.to_act].is_ai;
            let now = player_acted(m, action);
            &&& over || !own || m.hand.rejection(action) is Some ==> now == m
            &&& !over && own && m.hand.rejection(action) is None ==> now == (MatchModel {
                hand: m.hand.after(action),
                ..m
            })
        }),
{
}

proof fn lemma_pick_place(picks: Seq<usize>, card: usize, from: int)
    requires
        0 <= from,
    ensures
        match pick_place(picks, card, from) {
            Some(i) => from <= i < picks.len() && picks[i] == card,
            None => forall|k: int| from <= k < picks.len() ==> (#[trigger] picks[k]) != card,
        },
    decreases picks.len() - from,
{
    if from < picks.len() && picks[from] != card {
        lemma_pick_place(picks, card, from + 1);
    }
}

/// A click on a card that is not picked picks it, after those that are, as long as fewer than
/// three are. A click on a picked card puts it back and leaves the others in their order. No
/// other card comes or goes.
pub proof fn clicks_pick_and_put_back(picks: Seq<usize>, card: usize, other: usize)
    requires
        picks.no_duplicates(),
        picks.len() <= 3,
        other != card,
    ensures
        ({
            let now = toggled(picks, card);
            &&& picks.contains(card) ==> !now.contains(card) && exists|i: int|
                0 <= i < picks.len() && picks[i] == card && now == #[trigger] picks.remove(i)
            &&& !picks.contains(card) && picks.len() < 3 ==> now == picks.push(card)
            &&& !picks.contains(card) && picks.len() == 3 ==> now == picks
            &&& now.contains(other) <==> picks.contains(other)
        }),
{
    lemma_pick_place(picks, card, 0);
    let now = toggled(picks, card);
    match pick_place(picks, card, 0) {
        Some(i) => {
            assert(picks[i] == card);
            assert forall|k: int| 0 <= k < now.len() implies now[k] == picks[if k < i {
                k
            } else {
                k + 1
            }] by {}
            if picks.contains(other) {
                let k = choose|k: int| 0 <= k < picks.len() && picks[k] == other;
                assert(now[if k < i {
                    k
                } else {
                    k - 1
                }] == other);
            }
        },
        None => {
            if picks.len() < 3 {
                assert(now[picks.len() as int] == card);
                if picks.contains(other) {
                    let k = choose|k: int| 0 <= k < picks.len() && picks[k] == other;
                    assert(now[k] == other);
                }
            }
        },
    }
}

proof fn lemma_human_stays(players: Seq<PlayerModel>, from: int, k: int)
    requires
        0 <= from <= k < players.len(),
        !players[k].is_ai,
        forall|j: int| 0 <= j < k ==> (#[trigger] players[j]).is_ai,
    ensures
        human_stays(players, from) == (players[k].status != PlayerStatus::Folded),
    decreases k - from,
{
    if from < k {
        assert(players[from].is_ai);
        lemma_human_stays(players, from + 1, k);
    }
}

/// At a showdown, a player who has not folded picks before the hand is booked, if three cards lie
/// open; otherwise the result is shown. Nothing happens before the showdown, or once the result is
/// shown.
pub proof fn players_pick_before_the_result(m: MatchModel, shown: bool, k: int)
    requires
        0 <= k < m.hand.players.len(),
        !m.hand.players[k].is_ai,
        forall|j: int| 0 <= j < k ==> (#[trigger] m.hand.players[j]).is_ai,
    ensures
        ({
            let over = m.hand.phase == Phase::Showdown || m.hand.phase == Phase::Done;
            let picks = m.hand.players[k].status != PlayerStatus::Folded && m.hand.community.len()
                >= 3 && !m.settled;
            &&& !over || shown ==> showdown_step(m, shown) == ShowdownStep::Nothing
            &&& over && !shown && picks ==> showdown_step(m, shown) == ShowdownStep::Pick
            &&& over && !shown && !picks ==> showdown_step(m, shown) == ShowdownStep::Show
        }),
{
    lemma_human_stays(m.hand.players, 0, k);
}

proof fn lemma_human_seat(seats: Seq<SeatModel>, from: int, k: int)
    requires
        0 <= from <= k < seats.len(),
        !seats[k].is_ai,
        forall|j: int| 0 <= j < k ==> (#[trigger] seats[j]).is_ai,
    ensures
        human_seat(seats, from) == Some(seats[k].id),
    decreases k - from,
{
    if from < k {
        assert(seats[from].is_ai);
        lemma_human_seat(seats, from + 1, k);
    }
}

/// What the player picks counts for the player's seat, and for no other.
pub proof fn picks_are_the_players(seats: Seq<SeatModel>, picks: [usize; 3], k: int)
    requires
        0 <= k < seats.len(),
        !seats[k].is_ai,
        forall|j: int| 0 <= j < k ==> (#[trigger] seats[j]).is_ai,
    ensures
        players_picks(seats, picks) == seq![(seats[k].id, picks)],
{
    lemma_human_seat(seats, 0, k);
}

/// The player is short of chips with less than a hundred, or with less than a call costs.
pub proof fn short_is_less_than_a_call(m: MatchModel)
    requires
        m.seats.len() > 0,
        m.hand.players.len() > 0,
    ensures
        player_is_short(m) <==> m.seats[0].chips < 100 || m.seats[0].chips < m.hand.current_bet
            - m.hand.players[0].committed,
{
}

// ---- Seats ----

/// A match at one machine has three to six seats, as many as were asked for where that is
/// possible. The first is the player's and all others are the machine's.
pub proof fn local_tables_seat_the_player_first(count: int, k: int)
    requires
        0 <= k < local_defs(count).len(),
    ensures
        3 <= local_defs(count).len() <= 6,
        3 <= count <= 6 ==> local_defs(count).len() == count,
        count < 3 ==> local_defs(count).len() == 3,
        count > 6 ==> local_defs(count).len() == 6,
        local_defs(count)[k].is_ai <==> k > 0,
        local_defs(count)[0].name == "You"@,
{
}

/// No two seats of the machine at one table have the same name.
pub proof fn machines_have_names_of_their_own(count: int, a: int, b: int)
    requires
        1 <= a < b < local_defs(count).len(),
    ensures
        local_defs(count)[a].name != local_defs(count)[b].name,
{
    reveal_strlit("AI-Gambler");
    reveal_strlit("AI-Rookie");
    reveal_strlit("AI-Veteran");
    reveal_strlit(" ");
    let x = machine_player(a - 1);
    let y = machine_player(b - 1);
    assert("AI-Gambler"@[3] == 'G');
    assert("AI-Rookie"@[3] == 'R');
    assert("AI-Veteran"@[3] == 'V');
    assert(x[3] == machine_picture(a - 1)[3]);
    assert(y[3] == machine_picture(b - 1)[3]);
    if (a - 1) % 3 == (b - 1) % 3 {
        assert(a - 1 < 3 && b - 1 >= 3);
        assert(y.len() > machine_picture(b - 1).len());
    }
}

/// Every seat of a table of up to six has one place; the viewer's own is the first, at the bottom.
pub proof fn every_seat_has_one_place(count: int, local: int, seat: int)
    requires
        1 <= count <= 6,
        0 <= local < count,
        0 <= seat < count,
    ensures
        layout(count, local).len() == count,
        layout(count, local)[0] == (local as usize, 36u32, 927u32),
        exists|k: int| 0 <= k < count && (#[trigger] layout(count, local)[k]).0 == seat,
        forall|j: int, k: int|
            0 <= j < k < count ==> (#[trigger] layout(count, local)[j]).0 != (
            #[trigger] layout(count, local)[k]).0,
{
    let all = layout(count, local);
    let k = if seat == local {
        0
    } else if seat < local {
        seat + 1
    } else {
        seat
    };
    assert(all[k].0 == seat);
}

// ---- What the server says ----

/// Each message from the server changes what it is about, and nothing else. The first view of a
/// game leads into it, the end of a game back into the room, and leaving a room to the menu.
pub proof fn messages_change_what_they_are_about(
    n: NetModel,
    msg: ServerMsgModel,
    screen: MpScreen,
)
    ensures
        ({
            let now = n.told(msg);
            &&& match msg {
                ServerMsgModel::Welcome { your_id } => now == (NetModel {
                    my_id: Some(your_id),
                    ..n
                }),
                ServerMsgModel::RoomList { rooms } => now == (NetModel { rooms, ..n }),
                ServerMsgModel::Joined { room } => now.room == Some(room) && now.status.len() == 0
                    && now == (NetModel { room: now.room, status: now.status, ..n }),
                ServerMsgModel::RoomUpdate { room } => now == (NetModel { room: Some(room), ..n }),
                ServerMsgModel::Left => now == (NetModel { room: None, ..n }),
                ServerMsgModel::Error { text } => now == (NetModel { status: now.status, ..n })
                    && now.status.skip(2) == text,
                ServerMsgModel::GameStarting => now == (NetModel { status: now.status, ..n }),
                ServerMsgModel::View { view } => now == (NetModel { view: Some(view), ..n }),
                ServerMsgModel::GameEnded => now == (NetModel { view: None, ..n }),
            }
            &&& match msg {
                ServerMsgModel::Joined { .. } | ServerMsgModel::GameEnded => leads_to(msg, screen)
                    == Some(MpScreen::Lobby),
                ServerMsgModel::Left => leads_to(msg, screen) == Some(MpScreen::Menu),
                ServerMsgModel::View { .. } => if screen == MpScreen::InGame {
                    leads_to(msg, screen) is None
                } else {
                    leads_to(msg, screen) == Some(MpScreen::InGame)
                },
                _ => leads_to(msg, screen) is None,
            }
        }),
{
    reveal_strlit("⚠ ");
    if let ServerMsgModel::Error { text } = msg {
        assert(n.told(msg).status.skip(2) =~= text);
    }
}

// ---- What is typed ----

/// A character that is typed comes last, unless it is a control code or there is no room left;
/// the key that deletes takes the last character back.
pub proof fn typing_and_deleting(input: Seq<char>, c: char, limit: int)
    ensures
        !is_control_code(c) && input.len() < limit ==> typed(
            input,
            TypedKeyModel::Text(seq![c]),
            limit,
        ) == input.push(c),
        is_control_code(c) || input.len() >= limit ==> typed(
            input,
            TypedKeyModel::Text(seq![c]),
            limit,
        ) == input,
        typed(input.push(c), TypedKeyModel::Backspace, limit) == input,
        typed(Seq::empty(), TypedKeyModel::Backspace, limit) == Seq::<char>::empty(),
        input.len() < limit ==> typed(input, TypedKeyModel::Space, limit) == input.push(' '),
        input.len() >= limit ==> typed(input, TypedKeyModel::Space, limit) == input,
        typed(input, TypedKeyModel::Other, limit) == input,
{
    reveal_with_fuel(crate::client::typed_chars, 2);
    assert(input.push(c).drop_last() =~= input);
}

/// Text that is typed at once does what its characters do one by one.
pub proof fn text_is_typed_one_by_one(input: Seq<char>, text: Seq<char>, c: char, limit: int)
    ensures
        typed(input, TypedKeyModel::Text(Seq::empty()), limit) == input,
        typed(input, TypedKeyModel::Text(text.push(c)), limit) == typed(
            typed(input, TypedKeyModel::Text(text), limit),
            TypedKeyModel::Text(seq![c]),
            limit,
        ),
{
    reveal_with_fuel(crate::client::typed_chars, 2);
    lemma_typed_prefix(input, text, text.push(c), text.len() as int, limit);
}

proof fn lemma_typed_prefix(
    input: Seq<char>,
    text: Seq<char>,
    more: Seq<char>,
    n: int,
    limit: int,
)
    requires
        n <= text.len() <= more.len(),
        forall|k: int| 0 <= k < text.len() ==> more[k] == text[k],
    ensures
        crate::client::typed_chars(input, text, n, limit) == crate::client::typed_chars(
            input,
            more,
            n,
            limit,
        ),
    decreases n,
{
    if n > 0 {
        lemma_typed_prefix(input, text, more, n - 1, limit);
    }
}

// ---- Numbers and text ----

/// The number that a row of digits stands for.
pub open spec fn number_read(s: Seq<char>) -> int
    decreases s.len(),
{
    if s.len() == 0 {
        0
    } else {
        10 * number_read(s.drop_last()) + (s.last() as int - '0' as int)
    }
}

/// A number that is written out can be read again. It is written in digits, and only zero starts
/// with a zero.
pub proof fn numbers_can_be_read(n: nat)
    ensures
        number_read(dec(n)) == n,
        dec(n).len() > 0,
        forall|k: int| 0 <= k < dec(n).len() ==> '0' <= (#[trigger] dec(n)[k]) <= '9',
        n > 0 ==> dec(n)[0] != '0',
        n < 10 ==> dec(n).len() == 1,
    decreases n,
{
    reveal_with_fuel(number_read, 2);
    if n < 10 {
        assert(dec(n).drop_last() =~= Seq::empty());
    } else {
        numbers_can_be_read(n / 10);
        assert(dec(n).drop_last() =~= dec(n / 10));
    }
}

/// Half points are written with the whole points before the point and nought or five behind it;
/// numbers below zero with a minus before them.
pub proof fn halves_and_debts_can_be_read(n: u32, d: int)
    ensures
        halves(n) == dec((n / 2) as nat) + (if n % 2 == 1 {
            ".5"@
        } else {
            ".0"@
        }),
        d >= 0 ==> number_read(signed(d)) == d,
        d < 0 ==> signed(d)[0] == '-' && number_read(signed(d).skip(1)) == -d,
{
    reveal_strlit("-");
    if d >= 0 {
        numbers_can_be_read(d as nat);
    } else {
        numbers_can_be_read((-d) as nat);
        assert(signed(d).skip(1) =~= dec((-d) as nat));
    }
}

/// Text that is filled up to a width is that wide, or as wide as it was; the text is all there, at
/// its end of the field, and the rest is blank.
pub proof fn fields_are_filled_with_blanks(s: Seq<char>, width: int)
    ensures
        filled_behind(s, width).len() == filled_before(s, width).len(),
        filled_behind(s, width).len() == (if s.len() < width {
            width
        } else {
            s.len() as int
        }),
        filled_behind(s, width).take(s.len() as int) == s,
        filled_before(s, width).skip(filled_before(s, width).len() - s.len()) == s,
        forall|k: int|
            s.len() <= k < filled_behind(s, width).len() ==> (#[trigger] filled_behind(s, width)[k])
                == ' ',
        forall|k: int|
            0 <= k < filled_before(s, width).len() - s.len() ==> (#[trigger] filled_before(
                s,
                width,
            )[k]) == ' ',
{
    assert(filled_behind(s, width).take(s.len() as int) =~= s);
    let f = filled_before(s, width);
    assert(f.skip(f.len() - s.len()) =~= s);
}

/// Trimmed text starts and ends with something to see, and is what stands between the white space
/// at both ends.
pub proof fn trimming_takes_white_space(s: Seq<char>) -> (cut: (Seq<char>, Seq<char>))
    ensures
        s == cut.0 + trimmed(s) + cut.1,
        forall|k: int| 0 <= k < cut.0.len() ==> is_white(#[trigger] cut.0[k]),
        forall|k: int| 0 <= k < cut.1.len() ==> is_white(#[trigger] cut.1[k]),
        trimmed(s).len() > 0 ==> !is_white(trimmed(s)[0]) && !is_white(trimmed(s).last()),
{
    let front = lemma_start_cut(s);
    let mid = start_trimmed(s);
    let back = lemma_end_cut(mid);
    assert(s =~= front + end_trimmed(mid) + back);
    if trimmed(s).len() > 0 {
        assert(mid[0] == trimmed(s)[0]);
    }
    (front, back)
}

proof fn lemma_start_cut(s: Seq<char>) -> (front: Seq<char>)
    ensures
        s == front + start_trimmed(s),
        forall|k: int| 0 <= k < front.len() ==> is_white(#[trigger] front[k]),
        start_trimmed(s).len() > 0 ==> !is_white(start_trimmed(s)[0]),
    decreases s.len(),
{
    if s.len() > 0 && is_white(s[0]) {
        let rest = lemma_start_cut(s.drop_first());
        let front = seq![s[0]] + rest;
        assert(s =~= seq![s[0]] + s.drop_first());
        assert(front + start_trimmed(s) =~= seq![s[0]] + (rest + start_trimmed(s.drop_first())));
        front
    } else {
        assert(s =~= Seq::<char>::empty() + s);
        Seq::empty()
    }
}

proof fn lemma_end_cut(s: Seq<char>) -> (back: Seq<char>)
    ensures
        s == end_trimmed(s) + back,
        forall|k: int| 0 <= k < back.len() ==> is_white(#[trigger] back[k]),
        end_trimmed(s).len() > 0 ==> !is_white(end_trimmed(s).last()),
    decreases s.len(),
{
    if s.len() > 0 && is_white(s.last()) {
        let rest = lemma_end_cut(s.drop_last());
        let back = rest.push(s.last());
        assert(s =~= s.drop_last().push(s.last()));
        assert(end_trimmed(s) + back =~= (end_trimmed(s.drop_last()) + rest).push(s.last()));
        back
    } else {
        assert(s =~= s + Seq::<char>::empty());
        Seq::empty()
    }
}

// ---- Shuffling ----

proof fn lemma_placed_cards_stay<T>(s: Seq<T>, n: int, state: u64)
    requires
        0 <= n <= s.len(),
    ensures
        shuffled_below(s, n, state).len() == s.len(),
        forall|k: int| n <= k < s.len() ==> #[trigger] shuffled_below(s, n, state)[k] == s[k],
        shuffled_below(s, n, state).take(n) == shuffled(s.take(n), state),
    decreases n,
{
    if n <= 1 {
        assert(s.take(n) =~= shuffled(s.take(n), state));
    } else {
        let j = first_draw(state) as int % n;
        let t = exchanged(s, n - 1, j);
        lemma_placed_cards_stay(t, n - 1, next_state(state));
        let u = exchanged(s.take(n), n - 1, j);
        lemma_placed_cards_stay(u, n - 1, next_state(state));
        assert(u =~= t.take(n));
        assert(u.take(n - 1) =~= t.take(n - 1));
        let a = shuffled_below(t, n - 1, next_state(state));
        let b = shuffled_below(u, n - 1, next_state(state));
        assert(a.take(n - 1) == b.take(n - 1));
        assert forall|k: int| 0 <= k < n implies a[k] == b[k] by {
            if k < n - 1 {
                assert(a[k] == a.take(n - 1)[k]);
                assert(b[k] == b.take(n - 1)[k]);
            }
        }
        assert(a.take(n) =~= b);
    }
}

/// A shuffle draws which card comes last, each with its share of the draws; the card that was last
/// takes its place, and the cards before are shuffled in the same way with the draws that follow.
pub proof fn shuffles_draw_the_last_card<T>(s: Seq<T>, state: u64)
    requires
        s.len() >= 2,
    ensures
        ({
            let n = s.len() as int;
            let j = first_draw(state) as int % n;
            let rest = s.update(j, s[n - 1]).take(n - 1);
            &&& shuffled(s, state).len() == n
            &&& shuffled(s, state)[n - 1] == s[j]
            &&& shuffled(s, state).take(n - 1) == shuffled(rest, next_state(state))
        }),
{
    let n = s.len() as int;
    let j = first_draw(state) as int % n;
    let t = exchanged(s, n - 1, j);
    lemma_placed_cards_stay(t, n - 1, next_state(state));
    assert(t.take(n - 1) =~= s.update(j, s[n - 1]).take(n - 1));
}

// ---- Chips ----

/// An empty pot shows no chips. Any other shows one, and one more for each full hundred, up to
/// eighteen.
pub proof fn pots_show_a_chip_for_each_hundred(pot: int)
    ensures
        pot <= 0 ==> chips_for(pot) == 0,
        0 < pot < 100 ==> chips_for(pot) == 1,
        0 < pot < 1700 ==> chips_for(pot + 100) == chips_for(pot) + 1,
        pot >= 1700 ==> chips_for(pot) == 18,
{
}

// ---- Cards on the table ----

/// Open cards and nodes lie face up in their places, framed in gold and red, and the places of
/// those to come lie face down.
pub proof fn open_cards_lie_face_up(m: MatchModel, i: int)
    requires
        0 <= i,
    ensures
        i < m.hand.community.len() ==> local_community(m, i).picture == Some(
            "cards/community/"@ + m.hand.community[i].spec_art() + ".png"@,
        ) && local_community(m, i).label == card_shown(m.hand.community[i]).label
            && local_community(m, i).frame == Frame::Gold,
        i >= m.hand.community.len() ==> local_community(m, i).picture is None && local_community(
            m,
            i,
        ).label.len() == 0,
        i < m.hand.dungeon.len() ==> local_dungeon(m, i).picture == Some(
            "cards/dungeon/"@ + m.hand.dungeon[i].art@ + ".png"@,
        ) && local_dungeon(m, i).label == "T"@ + dec(m.hand.dungeon[i].threat as nat) + "  H"@
            + dec(m.hand.dungeon[i].health as nat) && local_dungeon(m, i).frame == Frame::Red,
        i >= m.hand.dungeon.len() ==> local_dungeon(m, i).picture is None,
{
}

/// The player's hole cards lie face up, the machine's only once betting is over. The seat whose
/// turn it is stands out.
pub proof fn hole_cards_lie_face_up_for_their_owner(m: MatchModel, seat: int, idx: int)
    requires
        0 <= seat < m.hand.players.len(),
    ensures
        ({
            let over = m.hand.phase == Phase::Showdown || m.hand.phase == Phase::Done;
            let p = m.hand.players[seat];
            let slot = local_hole(m, seat, idx);
            &&& p.is_ai && !over ==> slot.picture is None && slot.label.len() == 0
            &&& !p.is_ai || over ==> slot.picture == Some(
                "cards/community/"@ + p.hole[idx].art@ + ".png"@,
            ) && slot.label == adventurer_shown(p.hole[idx]).label
            &&& slot.frame == Frame::Active <==> !over && seat == m.hand.to_act
        }),
{
}

/// On a table of a server every card that the view holds lies face up in its place, and no other.
pub proof fn viewed_cards_lie_face_up(v: GameViewModel, i: int, idx: int)
    requires
        0 <= i,
    ensures
        i < v.community.len() ==> remote_community(v, i).picture == Some(
            "cards/community/"@ + v.community[i].art + ".png"@,
        ) && remote_community(v, i).label == v.community[i].label,
        i >= v.community.len() ==> remote_community(v, i).picture is None,
        i < v.dungeon.len() ==> remote_dungeon(v, i).picture == Some(
            "cards/dungeon/"@ + v.dungeon[i].art + ".png"@,
        ) && remote_dungeon(v, i).label == v.dungeon[i].label,
        i >= v.dungeon.len() ==> remote_dungeon(v, i).picture is None,
        ({
            let slot = remote_hole(v, i, idx);
            let hole = if v.you_seat == Some(i) {
                v.your_hole
            } else if i < v.revealed_holes.len() {
                v.revealed_holes[i]
            } else {
                None
            };
            &&& hole is None ==> slot.picture is None && slot.label.len() == 0
            &&& hole is Some ==> slot.picture == Some(
                "cards/community/"@ + (hole->0)[idx].art + ".png"@,
            ) && slot.label == (hole->0)[idx].label
        }),
{
}

// ---- Decks ----

/// The community deck has three units of each class, then one of each piece of equipment and of
/// each consumable. Strong units are frail: power and health of each come to between thirteen and
/// sixteen.
pub proof fn the_community_deck_is_balanced(k: int)
    requires
        0 <= k < community_cards().len(),
    ensures
        community_cards().len() == 24,
        match community_cards()[k] {
            CommunityCard::Unit(a) => k < 15 && 13 <= a.power + a.health <= 16 && a.class == (
            if k < 3 {
                Class::Warrior
            } else if k < 6 {
                Class::Cleric
            } else if k < 9 {
                Class::Mage
            } else if k < 12 {
                Class::Rogue
            } else {
                Class::Ranger
            }),
            CommunityCard::Equip(_) => 15 <= k < 20,
            CommunityCard::Consum(_) => 20 <= k,
        },
        forall|j: int| 15 <= j < 24 && j != k ==> #[trigger] community_cards()[j]
            != community_cards()[k],
{
}

/// There are eight kinds of hole cards, whose power and health come to fourteen or more, two of
/// every class but clerics and rogues, of which there is one.
pub proof fn hole_cards_are_balanced(k: int)
    requires
        0 <= k < adventurer_kinds().len(),
    ensures
        adventurer_kinds().len() == 8,
        14 <= adventurer_kinds()[k].power + adventurer_kinds()[k].health <= 17,
        adventurer_kinds()[k].class == (if k < 2 {
            Class::Warrior
        } else if k < 3 {
            Class::Cleric
        } else if k < 5 {
            Class::Mage
        } else if k < 6 {
            Class::Rogue
        } else {
            Class::Ranger
        }),
{
}

/// The deeper a node lies, the more it threatens: every boss more than every elite, and every
/// elite more than every goblin.
pub proof fn deeper_nodes_threaten_more(i: int, j: int, k: int)
    requires
        0 <= i < small_monsters().len(),
        0 <= j < elite_monsters().len(),
        0 <= k < boss_monsters().len(),
    ensures
        0 < small_monsters()[i].threat < elite_monsters()[j].threat < boss_monsters()[k].threat,
        small_monsters()[i].health < elite_monsters()[j].health < boss_monsters()[k].health,
        small_monsters()[i].kind == MonsterKind::Goblin,
        elite_monsters()[j].kind == MonsterKind::Elite || elite_monsters()[j].kind
            == MonsterKind::PoisonSwamp,
        boss_monsters()[k].kind == MonsterKind::Boss,
{
}

} // verus!
