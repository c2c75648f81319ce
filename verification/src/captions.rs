//! The texts that players read: status lines, seats, rooms, results and accounts.
use crate::cards::CommunityCard;
use crate::game::Phase;
use crate::net::{
    GameView, GameViewModel, LobbyPlayer, RoomInfo, RoomInfoModel, RoomState, RoomStateModel,
};
use crate::player::PlayerStatus;
use crate::table::{Match, MatchModel};
use crate::table_view::{card_shown, community_card_view};
use crate::text::{count_text, dec, decimal, half_points, halves};
use vstd::prelude::*;

verus! {

// ---- Seats and status ----

/// The name of a status.
pub open spec fn status_name(status: PlayerStatus) -> Seq<char> {
    match status {
        PlayerStatus::Active => "Active"@,
        PlayerStatus::Folded => "Folded"@,
        PlayerStatus::AllIn => "AllIn"@,
    }
}

fn status_word(status: PlayerStatus) -> (r: &'static str)
    ensures
        r@ == status_name(status),
{
    match status {
        PlayerStatus::Active => "Active",
        PlayerStatus::Folded => "Folded",
        PlayerStatus::AllIn => "AllIn",
    }
}

/// A line on a debt, if there is one.
pub open spec fn debt_line(debt: int) -> Seq<char> {
    if debt > 0 {
        "\nDebt "@ + dec(debt as nat)
    } else {
        Seq::empty()
    }
}

fn debt_text(debt: u32) -> (r: String)
    ensures
        r@ == debt_line(debt as int),
{
    if debt > 0 {
        let mut r = "\nDebt ".to_owned();
        r.append(decimal(debt as u64).as_str());
        r
    } else {
        String::new()
    }
}

/// A note, if the condition holds.
pub open spec fn note_if(on: bool, note: Seq<char>) -> Seq<char> {
    if on {
        note
    } else {
        Seq::empty()
    }
}

fn noted(on: bool, note: &str) -> (r: String)
    ensures
        r@ == note_if(on, note@),
{
    if on {
        note.to_owned()
    } else {
        String::new()
    }
}

/// The rest of a seat's text, behind its name.
pub open spec fn seat_lines(
    chips: int,
    committed: int,
    status: PlayerStatus,
    debt: int,
) -> Seq<char> {
    "\nChips "@ + dec(chips as nat) + "\nin "@ + dec(committed as nat) + " | "@ + status_name(
        status,
    ) + debt_line(debt)
}

fn seat_rest(chips: u32, committed: u32, status: PlayerStatus, debt: u32) -> (r: String)
    ensures
        r@ == seat_lines(chips as int, committed as int, status, debt as int),
{
    let mut r = "\nChips ".to_owned();
    r.append(decimal(chips as u64).as_str());
    r.append("\nin ");
    r.append(decimal(committed as u64).as_str());
    r.append(" | ");
    r.append(status_word(status));
    r.append(debt_text(debt).as_str());
    r
}

/// What stands at a seat of a local match.
pub open spec fn seat_caption(m: MatchModel, seat: int) -> Seq<char> {
    let g = m.hand;
    if 0 <= seat < g.players.len() {
        let p = g.players[seat];
        let debt = if seat < m.seats.len() {
            m.seats[seat].debt
        } else {
            0
        };
        p.name + note_if(seat == g.to_act && g.phase != Phase::Showdown, " *"@) + seat_lines(
            p.chips,
            p.committed,
            p.status,
            debt,
        )
    } else {
        "(empty seat)"@
    }
}

/// The text at a seat of a local match.
pub fn seat_name_text(m: &Match, seat: usize) -> (r: String)
    ensures
        r@ == seat_caption(m@, seat as int),
{
    let g = &m.hand;
    if seat < g.players.len() {
        let p = &g.players[seat];
        assert(m@.hand.players[seat as int] == p@);
        let debt: u32 = if seat < m.seats.len() {
            assert(m@.seats[seat as int] == m.seats@[seat as int]@);
            m.seats[seat].debt
        } else {
            0
        };
        let mut r = p.name.clone();
        r.append(noted(seat == g.to_act && g.phase != Phase::Showdown, " *").as_str());
        r.append(seat_rest(p.chips, p.committed, p.status, debt).as_str());
        r
    } else {
        "(empty seat)".to_owned()
    }
}

/// The lines of the status that every table has.
pub open spec fn status_head(
    first: Seq<char>,
    scene: Seq<char>,
    pot: int,
    bet: int,
    aggro: u32,
    berserk: bool,
) -> Seq<char> {
    first + "\n"@ + scene + "\nPot: "@ + dec(pot as nat) + "   Bet: "@ + dec(bet as nat)
        + "\n惊动 "@ + halves(aggro) + note_if(berserk, "  狂暴!"@) + "\nP=战力 H=生命 T=威胁\n"@
}

fn head_text(first: &str, scene: &str, pot: u32, bet: u32, aggro: u32, berserk: bool) -> (r: String)
    ensures
        r@ == status_head(first@, scene@, pot as int, bet as int, aggro, berserk),
{
    let mut r = first.to_owned();
    r.append("\n");
    r.append(scene);
    r.append("\nPot: ");
    r.append(decimal(pot as u64).as_str());
    r.append("   Bet: ");
    r.append(decimal(bet as u64).as_str());
    r.append("\n惊动 ");
    r.append(half_points(aggro).as_str());
    r.append(noted(berserk, "  狂暴!").as_str());
    r.append("\nP=战力 H=生命 T=威胁\n");
    r
}

/// The status of a local match.
pub open spec fn status_caption(m: MatchModel) -> Seq<char> {
    let g = m.hand;
    status_head(
        "Hand #"@ + dec((m.hand_no + 1) as nat),
        m.scene.spec_label(),
        g.pot,
        g.current_bet,
        g.aggro,
        g.boss_berserk,
    ) + (if g.over() {
        "\n=== 摊牌结算见面板 ==="@
    } else {
        "To act: "@ + (if g.to_act < g.players.len() {
            g.actor().name
        } else {
            "-"@
        }) + "\n[Q]Check [W]Call\n[E]Raise [R]Fold\n[Tab]账本 [Esc]菜单"@
    })
}

/// The status text of a local match.
pub fn status_text(m: &Match) -> (r: String)
    ensures
        r@ == status_caption(m@),
{
    let g = &m.hand;
    let mut first = "Hand #".to_owned();
    first.append(decimal(m.hand_no as u64 + 1).as_str());
    let mut r = head_text(
        first.as_str(),
        m.scene.label(),
        g.pot,
        g.current_bet,
        g.aggro,
        g.boss_berserk,
    );
    if m.hand_over() {
        r.append("\n=== 摊牌结算见面板 ===");
    } else {
        let mut rest = "To act: ".to_owned();
        if g.to_act < g.players.len() {
            assert(m@.hand.players[g.to_act as int] == g.players@[g.to_act as int]@);
            rest.append(g.players[g.to_act].name.as_str());
        } else {
            rest.append("-");
        }
        rest.append("\n[Q]Check [W]Call\n[E]Raise [R]Fold\n[Tab]账本 [Esc]菜单");
        r.append(rest.as_str());
    }
    r
}

/// The status of a table on a server.
pub open spec fn remote_status_caption(v: GameViewModel) -> Seq<char> {
    status_head(
        "联机 · 第 "@ + dec((v.hand_no + 1) as nat) + " 手"@,
        v.scene_label,
        v.pot,
        v.current_bet,
        v.aggro,
        v.boss_berserk,
    ) + (match v.to_act_seat {
        Some(seat) => if v.you_seat == Some(seat) {
            "轮到你：[Q]过 [W]跟 [E]加20 [R]弃 [T]全下"@
        } else {
            "等待 "@ + (if seat < v.seats.len() {
                v.seats[seat].name
            } else {
                "-"@
            }) + " 行动…"@
        },
        None => "=== 摊牌结算 ==="@,
    })
}

/// The status text of a table on a server.
pub fn mp_status_text(view: &GameView) -> (r: String)
    ensures
        r@ == remote_status_caption(view@),
{
    let mut first = "联机 · 第 ".to_owned();
    first.append(decimal(view.hand_no as u64 + 1).as_str());
    first.append(" 手");
    let mut r = head_text(
        first.as_str(),
        view.scene_label.as_str(),
        view.pot,
        view.current_bet,
        view.aggro,
        view.boss_berserk,
    );
    match view.to_act_seat {
        Some(seat) => {
            let yours = match view.you_seat {
                Some(you) => you == seat,
                None => false,
            };
            if yours {
                r.append("轮到你：[Q]过 [W]跟 [E]加20 [R]弃 [T]全下");
            } else {
                let mut rest = "等待 ".to_owned();
                if seat < view.seats.len() {
                    assert(view@.seats[seat as int] == view.seats@[seat as int]@);
                    rest.append(view.seats[seat].name.as_str());
                } else {
                    rest.append("-");
                }
                rest.append(" 行动…");
                r.append(rest.as_str());
            }
        },
        None => {
            r.append("=== 摊牌结算 ===");
        },
    }
    r
}

/// What stands at a seat of a table on a server.
pub open spec fn remote_seat_caption(v: GameViewModel, seat: int) -> Seq<char> {
    if 0 <= seat < v.seats.len() {
        let s = v.seats[seat];
        s.name + (if v.you_seat == Some(seat) {
            " (你)"@
        } else if s.is_ai {
            " (AI)"@
        } else {
            Seq::empty()
        }) + note_if(s.is_turn, " *"@) + seat_lines(s.chips, s.committed, s.status, s.debt)
    } else {
        Seq::empty()
    }
}

/// The text at a seat of a table on a server.
pub fn mp_seat_text(view: &GameView, seat: usize) -> (r: String)
    ensures
        r@ == remote_seat_caption(view@, seat as int),
{
    if seat < view.seats.len() {
        let s = &view.seats[seat];
        assert(view@.seats[seat as int] == s@);
        let mut r = s.name.clone();
        let mine = match view.you_seat {
            Some(you) => you == seat,
            None => false,
        };
        if mine {
            r.append(" (你)");
        } else {
            r.append(noted(s.is_ai, " (AI)").as_str());
        }
        r.append(noted(s.is_turn, " *").as_str());
        r.append(seat_rest(s.chips, s.committed, s.status, s.debt).as_str());
        r
    } else {
        String::new()
    }
}

/// The note on a community card.
pub fn community_value(c: &CommunityCard) -> (r: String)
    ensures
        r@ == card_shown(*c).label,
{
    community_card_view(c).label
}

// ---- Rooms ----

/// The lines of the first `n` rooms.
pub open spec fn room_lines(rooms: Seq<RoomInfoModel>, n: int) -> Seq<char>
    decreases n,
{
    if n <= 0 {
        Seq::empty()
    } else {
        let r = rooms[n - 1];
        room_lines(rooms, n - 1) + ("  ["@ + r.code + "] "@ + r.name + "   "@ + dec(
            r.players as nat,
        ) + "/"@ + dec(r.max_players as nat) + "\n"@)
    }
}

/// The list of rooms.
pub open spec fn rooms_caption(rooms: Seq<RoomInfoModel>) -> Seq<char> {
    if rooms.len() == 0 {
        "（暂无公开房间，点「刷新列表」或「创建房间」）"@
    } else {
        "公开房间（输入房间号加入）:\n"@ + room_lines(rooms, rooms.len() as int)
    }
}

fn room_line(r: &RoomInfo) -> (s: String)
    ensures
        s@ == "  ["@ + r@.code + "] "@ + r@.name + "   "@ + dec(r@.players as nat) + "/"@ + dec(
            r@.max_players as nat,
        ) + "\n"@,
{
    let mut s = "  [".to_owned();
    s.append(r.code.as_str());
    s.append("] ");
    s.append(r.name.as_str());
    s.append("   ");
    s.append(count_text(r.players).as_str());
    s.append("/");
    s.append(count_text(r.max_players).as_str());
    s.append("\n");
    s
}

/// The text of the room list.
pub fn rooms_text(rooms: &[RoomInfo]) -> (r: String)
    ensures
        r@ == rooms_caption(rooms@.map_values(|x: RoomInfo| x@)),
{
    let ghost models = rooms@.map_values(|x: RoomInfo| x@);
    if rooms.len() == 0 {
        return "（暂无公开房间，点「刷新列表」或「创建房间」）".to_owned();
    }
    let mut lines = String::new();
    let mut i: usize = 0;
    while i < rooms.len()
        invariant
            i <= rooms@.len(),
            models == rooms@.map_values(|x: RoomInfo| x@),
            lines@ == room_lines(models, i as int),
        decreases rooms@.len() - i,
    {
        lines.append(room_line(&rooms[i]).as_str());
        i = i + 1;
    }
    let mut r = "公开房间（输入房间号加入）:\n".to_owned();
    r.append(lines.as_str());
    r
}

/// The lines of the first `n` members of a room.
pub open spec fn member_lines(room: RoomStateModel, me: Option<u64>, n: int) -> Seq<char>
    decreases n,
{
    if n <= 0 {
        Seq::empty()
    } else {
        let p = room.players[n - 1];
        member_lines(room, me, n - 1) + ("· "@ + p.name + note_if(p.id == room.host, "  (房主)"@)
            + note_if(me == Some(p.id), "  ←你"@) + "\n"@)
    }
}

/// A room as its members read it.
pub open spec fn lobby_caption(room: RoomStateModel, me: Option<u64>) -> Seq<char> {
    let humans = room.players.len() as int;
    "房间 ["@ + room.code + "]  "@ + room.name + "\n人数 "@ + dec(humans as nat) + "/"@ + dec(
        room.max_players as nat,
    ) + "\n\n"@ + member_lines(room, me, humans) + (if room.fill_ai && humans < room.max_players {
        "\n（开局将补 "@ + dec((room.max_players - humans) as nat) + " 个 AI 凑满 "@ + dec(
            room.max_players as nat,
        ) + " 人）"@
    } else {
        Seq::empty()
    })
}

fn member_line(p: &LobbyPlayer, host: u64, me: Option<u64>) -> (s: String)
    ensures
        s@ == "· "@ + p@.name + note_if(p@.id == host, "  (房主)"@) + note_if(
            me == Some(p@.id),
            "  ←你"@,
        ) + "\n"@,
{
    let mine = match me {
        Some(id) => id == p.id,
        None => false,
    };
    let mut s = "· ".to_owned();
    s.append(p.name.as_str());
    s.append(noted(p.id == host, "  (房主)").as_str());
    s.append(noted(mine, "  ←你").as_str());
    s.append("\n");
    s
}

fn members_text(room: &RoomState, me: Option<u64>) -> (r: String)
    ensures
        r@ == member_lines(room@, me, room@.players.len() as int),
{
    let mut lines = String::new();
    let mut i: usize = 0;
    while i < room.players.len()
        invariant
            i <= room.players@.len(),
            lines@ == member_lines(room@, me, i as int),
        decreases room.players@.len() - i,
    {
        assert(room@.players[i as int] == room.players@[i as int]@);
        lines.append(member_line(&room.players[i], room.host, me).as_str());
        i = i + 1;
    }
    lines
}

/// The text of the room that a client is in; nothing where it is in none.
pub fn lobby_text(room: &Option<RoomState>, me: Option<u64>) -> (r: String)
    ensures
        match *room {
            Some(state) => r@ == lobby_caption(state@, me),
            None => r@ == Seq::<char>::empty(),
        },
{
    let room = match room {
        Some(room) => room,
        None => {
            return String::new();
        },
    };
    let humans: usize = room.players.len();
    let mut r = "房间 [".to_owned();
    r.append(room.code.as_str());
    r.append("]  ");
    r.append(room.name.as_str());
    r.append("\n人数 ");
    r.append(count_text(humans).as_str());
    r.append("/");
    r.append(count_text(room.max_players).as_str());
    r.append("\n\n");
    r.append(members_text(room, me).as_str());
    let mut rest = String::new();
    if room.fill_ai && humans < room.max_players {
        rest.append("\n（开局将补 ");
        rest.append(count_text(room.max_players - humans).as_str());
        rest.append(" 个 AI 凑满 ");
        rest.append(count_text(room.max_players).as_str());
        rest.append(" 人）");
        assert(rest@ =~= "\n（开局将补 "@ + dec((room@.max_players - humans) as nat)
            + " 个 AI 凑满 "@ + dec(room@.max_players as nat) + " 人）"@);
    }
    r.append(rest.as_str());
    r
}

} // verus!
