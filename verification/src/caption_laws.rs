//! What holds of the texts on the screen: which numbers and names they tell.
use crate::captions::{
    lobby_caption, member_lines, remote_seat_caption, remote_status_caption, room_lines,
    rooms_caption, seat_caption, seat_lines, status_caption, status_head, status_name,
};
use crate::cards::MonsterKind;
use crate::game::{Phase, PlayerResult};
use crate::game_model::GameModel;
use crate::net::{GameViewModel, RoomInfoModel, RoomStateModel, SeatViewModel};
use crate::player::PlayerStatus;
use crate::scoreboard::{
    account_line, board_lines, dungeon_caption, remote_board_lines, result_line, seat_name_of, sum, tier, listed, node_list, remote_dungeon_caption,
    threat_total, health_total, tide, winners_caption,
};
use crate::table::{MatchModel, SeatModel};
use crate::text::{dec, filled_before, filled_behind, halves, signed};
use vstd::prelude::*;

verus! {

/// The piece stands somewhere in the text.
pub open spec fn tells(text: Seq<char>, piece: Seq<char>) -> bool {
    exists|i: int|
        0 <= i <= text.len() - piece.len() && #[trigger] text.subrange(i, i + piece.len()) == piece
}

proof fn lemma_tells(before: Seq<char>, piece: Seq<char>, behind: Seq<char>)
    ensures
        tells(before + piece + behind, piece),
{
    let text = before + piece + behind;
    let i = before.len() as int;
    assert(text.subrange(i, i + piece.len()) =~= piece);
}

/// What a part of the text tells, the text tells.
proof fn lemma_part_tells(before: Seq<char>, part: Seq<char>, behind: Seq<char>, piece: Seq<char>)
    requires
        tells(part, piece),
    ensures
        tells(before + part + behind, piece),
{
    let text = before + part + behind;
    let i = choose|i: int|
        0 <= i <= part.len() - piece.len() && #[trigger] part.subrange(i, i + piece.len()) == piece;
    let j = before.len() + i;
    assert(text.subrange(j, j + piece.len()) =~= part.subrange(i, i + piece.len()));
}

proof fn lemma_starts(piece: Seq<char>, behind: Seq<char>)
    ensures
        tells(piece + behind, piece),
{
    lemma_tells(Seq::empty(), piece, behind);
    assert(Seq::empty() + piece + behind =~= piece + behind);
}

proof fn lemma_ends(before: Seq<char>, piece: Seq<char>)
    ensures
        tells(before + piece, piece),
{
    lemma_tells(before, piece, Seq::empty());
    assert(before + piece + Seq::empty() =~= before + piece);
}

/// What a text tells, it still tells with more behind it.
proof fn lemma_more(text: Seq<char>, behind: Seq<char>, piece: Seq<char>)
    requires
        tells(text, piece),
    ensures
        tells(text + behind, piece),
{
    lemma_part_tells(Seq::empty(), text, behind, piece);
    assert(Seq::empty() + text + behind =~= text + behind);
}

/// Two parts that follow each other are told together.
proof fn lemma_pair(before: Seq<char>, a: Seq<char>, b: Seq<char>)
    ensures
        tells(before + a + b, a + b),
{
    let text = before + a + b;
    let i = before.len() as int;
    assert(text.subrange(i, i + (a + b).len()) =~= a + b);
}

/// A text that is filled up tells the text behind what stands before it.
proof fn lemma_filled(before: Seq<char>, a: Seq<char>, b: Seq<char>, width: int)
    ensures
        tells(before + a + filled_behind(b, width), a + b),
{
    let blanks = crate::text::blanks(width - b.len());
    lemma_pair(before, a, b);
    lemma_more(before + a + b, blanks, a + b);
    assert(before + a + filled_behind(b, width) =~= before + a + b + blanks);
}

// ---- The board ----

/// A line of the board starts with the name and tells the numbers of the team. Of a team that came
/// through it tells the health and the power left and the advantage, of another that it was wiped.
pub proof fn lines_tell_the_report(r: PlayerResult, name: Seq<char>, gap: Seq<char>)
    ensures
        ({
            let line = result_line(r, name, gap);
            &&& tells(line, name)
            &&& tells(line, " 队伍 P"@ + dec(r.team_power as nat))
            &&& tells(line, " H"@ + dec(r.team_health as nat))
            &&& r.cleared ==> {
                &&& tells(line, " →  通关  余血"@ + dec(r.remaining_health as nat))
                &&& tells(line, " 战力"@ + dec(r.remaining_power as nat))
                &&& tells(line, "优势 "@ + dec(r.advantage as nat))
            }
            &&& !r.cleared ==> tells(line, " →  团灭\n"@)
        }),
{
    let power = " 队伍 P"@ + dec(r.team_power as nat);
    let health = " H"@ + dec(r.team_health as nat);
    let t1 = filled_behind(name, 11);
    let t2 = t1 + " 队伍 P"@;
    let t3 = t2 + filled_behind(dec(r.team_power as nat), 3);
    let t4 = t3 + " H"@;
    let t5 = t4 + filled_behind(dec(r.team_health as nat), 3);
    let end = if r.cleared {
        " →  通关  余血"@ + dec(r.remaining_health as nat) + " 战力"@ + dec(
            r.remaining_power as nat,
        ) + gap + "优势 "@ + dec(r.advantage as nat) + "\n"@
    } else {
        " →  团灭\n"@
    };
    assert(result_line(r, name, gap) == t5 + end);
    assert(tells(t5 + end, name)) by {
        lemma_starts(name, crate::text::blanks(11 - name.len()));
        lemma_more(t1, " 队伍 P"@, name);
        lemma_more(t2, filled_behind(dec(r.team_power as nat), 3), name);
        lemma_more(t3, " H"@, name);
        lemma_more(t4, filled_behind(dec(r.team_health as nat), 3), name);
        lemma_more(t5, end, name);
    }
    assert(tells(t5 + end, power)) by {
        lemma_filled(t1, " 队伍 P"@, dec(r.team_power as nat), 3);
        lemma_more(t3, " H"@, power);
        lemma_more(t4, filled_behind(dec(r.team_health as nat), 3), power);
        lemma_more(t5, end, power);
    }
    assert(tells(t5 + end, health)) by {
        lemma_filled(t3, " H"@, dec(r.team_health as nat), 3);
        lemma_more(t5, end, health);
    }
    if r.cleared {
        lemma_end_of_line(r, gap);
        lemma_behind(t5, end, " →  通关  余血"@ + dec(r.remaining_health as nat));
        lemma_behind(t5, end, " 战力"@ + dec(r.remaining_power as nat));
        lemma_behind(t5, end, "优势 "@ + dec(r.advantage as nat));
    } else {
        lemma_ends(t5, " →  团灭\n"@);
    }
}

/// What the end of a text tells, the text tells.
proof fn lemma_behind(before: Seq<char>, text: Seq<char>, piece: Seq<char>)
    requires
        tells(text, piece),
    ensures
        tells(before + text, piece),
{
    lemma_part_tells(before, text, Seq::empty(), piece);
    assert(before + text + Seq::empty() =~= before + text);
}

proof fn lemma_end_of_line(r: PlayerResult, gap: Seq<char>)
    ensures
        ({
            let end = " →  通关  余血"@ + dec(r.remaining_health as nat) + " 战力"@ + dec(
                r.remaining_power as nat,
            ) + gap + "优势 "@ + dec(r.advantage as nat) + "\n"@;
            &&& tells(end, " →  通关  余血"@ + dec(r.remaining_health as nat))
            &&& tells(end, " 战力"@ + dec(r.remaining_power as nat))
            &&& tells(end, "优势 "@ + dec(r.advantage as nat))
        }),
{
    let e1 = " →  通关  余血"@ + dec(r.remaining_health as nat);
    let e2 = e1 + " 战力"@;
    let e3 = e2 + dec(r.remaining_power as nat);
    let e4 = e3 + gap;
    let e5 = e4 + "优势 "@;
    let e6 = e5 + dec(r.advantage as nat);
    let power = " 战力"@ + dec(r.remaining_power as nat);
    let adv = "优势 "@ + dec(r.advantage as nat);
    lemma_starts(e1, " 战力"@);
    lemma_more(e2, dec(r.remaining_power as nat), e1);
    lemma_more(e3, gap, e1);
    lemma_more(e4, "优势 "@, e1);
    lemma_more(e5, dec(r.advantage as nat), e1);
    lemma_more(e6, "\n"@, e1);
    lemma_pair(e1, " 战力"@, dec(r.remaining_power as nat));
    lemma_more(e3, gap, power);
    lemma_more(e4, "优势 "@, power);
    lemma_more(e5, dec(r.advantage as nat), power);
    lemma_more(e6, "\n"@, power);
    lemma_pair(e4, "优势 "@, dec(r.advantage as nat));
    lemma_more(e6, "\n"@, adv);
}

/// The board has one line for each result, in their order, under the name of the seat: one more
/// result adds its line at the end.
pub proof fn boards_list_all_results(
    results: Seq<PlayerResult>,
    r: PlayerResult,
    seats: Seq<SeatModel>,
    k: int,
)
    requires
        0 <= k < seats.len(),
        seats[k].id == r.id,
        forall|j: int| 0 <= j < k ==> (#[trigger] seats[j]).id != r.id,
    ensures
        board_lines(results.push(r), seats, results.len() as int + 1) == board_lines(
            results,
            seats,
            results.len() as int,
        ) + result_line(r, seats[k].name, "   "@),
        board_lines(results, seats, 0).len() == 0,
{
    lemma_same_board(results, results.push(r), seats, results.len() as int);
    lemma_seat_name(seats, r, 0, k);
    assert(results.push(r)[results.len() as int] == r);
}

proof fn lemma_seat_name(seats: Seq<SeatModel>, r: PlayerResult, from: int, k: int)
    requires
        0 <= from <= k < seats.len(),
        seats[k].id == r.id,
        forall|j: int| 0 <= j < k ==> (#[trigger] seats[j]).id != r.id,
    ensures
        seat_name_of(seats, r.id, from) == seats[k].name,
    decreases k - from,
{
    if from < k {
        assert(seats[from].id != r.id);
        lemma_seat_name(seats, r, from + 1, k);
    }
}

proof fn lemma_same_board(
    results: Seq<PlayerResult>,
    more: Seq<PlayerResult>,
    seats: Seq<SeatModel>,
    n: int,
)
    requires
        0 <= n <= results.len() <= more.len(),
        forall|k: int| 0 <= k < results.len() ==> #[trigger] more[k] == results[k],
    ensures
        board_lines(more, seats, n) == board_lines(results, seats, n),
    decreases n,
{
    if n > 0 {
        lemma_same_board(results, more, seats, n - 1);
        assert(more[n - 1] == results[n - 1]);
    }
}

/// So has the board of a table on a server, where the seat has the number of the player.
pub proof fn remote_boards_list_all_results(
    results: Seq<PlayerResult>,
    r: PlayerResult,
    seats: Seq<SeatViewModel>,
)
    requires
        r.id.0 < seats.len(),
    ensures
        remote_board_lines(results.push(r), seats, results.len() as int + 1) == remote_board_lines(
            results,
            seats,
            results.len() as int,
        ) + result_line(r, seats[r.id.0 as int].name, "  "@),
        remote_board_lines(results, seats, 0).len() == 0,
{
    lemma_same_remote_board(results, results.push(r), seats, results.len() as int);
    assert(results.push(r)[results.len() as int] == r);
}

proof fn lemma_same_remote_board(
    results: Seq<PlayerResult>,
    more: Seq<PlayerResult>,
    seats: Seq<SeatViewModel>,
    n: int,
)
    requires
        0 <= n <= results.len() <= more.len(),
        forall|k: int| 0 <= k < results.len() ==> #[trigger] more[k] == results[k],
    ensures
        remote_board_lines(more, seats, n) == remote_board_lines(results, seats, n),
    decreases n,
{
    if n > 0 {
        lemma_same_remote_board(results, more, seats, n - 1);
        assert(more[n - 1] == results[n - 1]);
    }
}

/// The text on the winners tells the pot, whom it goes to, and each one's share where several
/// share it.
pub proof fn winners_are_told(names: Seq<Seq<char>>, pot: int)
    requires
        0 <= pot,
    ensures
        ({
            let text = winners_caption(names, pot);
            let n = names.len() as int;
            &&& n == 0 ==> text == "无人通关，底池 "@ + dec(pot as nat) + " 滚入下一手"@
            &&& n == 1 ==> tells(text, "赢家："@ + names[0]) && tells(
                text,
                "    底池 "@ + dec(pot as nat),
            )
            &&& n > 1 ==> tells(text, "    底池 "@ + dec(pot as nat)) && tells(
                text,
                " = "@ + dec((pot / n) as nat),
            )
        }),
{
    let n = names.len() as int;
    let p = "    底池 "@ + dec(pot as nat);
    if n == 1 {
        let w1 = "赢家："@ + names[0];
        let w2 = w1 + "    底池 "@;
        lemma_starts(w1, "    底池 "@);
        lemma_more(w2, dec(pot as nat), w1);
        lemma_pair(w1, "    底池 "@, dec(pot as nat));
    } else if n > 1 {
        let w1 = "平局均分："@ + crate::scoreboard::listed(names, n);
        let w3 = w1 + "    底池 "@ + dec(pot as nat);
        let w4 = w3 + " ÷ "@;
        let w5 = w4 + dec(n as nat);
        let w6 = w5 + " = "@;
        let w7 = w6 + dec((pot / n) as nat);
        lemma_pair(w1, "    底池 "@, dec(pot as nat));
        lemma_more(w3, " ÷ "@, p);
        lemma_more(w4, dec(n as nat), p);
        lemma_more(w5, " = "@, p);
        lemma_more(w6, dec((pot / n) as nat), p);
        lemma_more(w7, "/人"@, p);
        lemma_pair(w5, " = "@, dec((pot / n) as nat));
        lemma_more(w7, "/人"@, " = "@ + dec((pot / n) as nat));
    }
}

// ---- Seats ----

/// The text at a seat of a local match starts with the name and tells the chips, what has been put
/// in, the status, and a debt where there is one.
pub proof fn seats_tell_their_accounts(m: MatchModel, seat: int)
    requires
        0 <= seat < m.hand.players.len(),
        m.hand.players.len() <= m.seats.len(),
    ensures
        ({
            let text = seat_caption(m, seat);
            let p = m.hand.players[seat];
            &&& text.len() >= p.name.len()
            &&& text.take(p.name.len() as int) == p.name
            &&& tells(text, "\nChips "@ + dec(p.chips as nat))
            &&& tells(text, "\nin "@ + dec(p.committed as nat))
            &&& tells(text, status_name(p.status))
            &&& m.seats[seat].debt > 0 ==> tells(text, "\nDebt "@ + dec(m.seats[seat].debt as nat))
        }),
{
    let p = m.hand.players[seat];
    let text = seat_caption(m, seat);
    let debt = m.seats[seat].debt;
    let rest = seat_lines(p.chips, p.committed, p.status, debt);
    lemma_seat_lines(p.chips, p.committed, p.status, debt);
    let head = text.take(text.len() - rest.len());
    assert(text =~= head + rest + Seq::empty());
    assert(text.take(p.name.len() as int) =~= p.name);
    lemma_part_tells(head, rest, Seq::empty(), "\nChips "@ + dec(p.chips as nat));
    lemma_part_tells(head, rest, Seq::empty(), "\nin "@ + dec(p.committed as nat));
    lemma_part_tells(head, rest, Seq::empty(), status_name(p.status));
    if debt > 0 {
        lemma_part_tells(head, rest, Seq::empty(), "\nDebt "@ + dec(debt as nat));
    }
}

proof fn lemma_seat_lines(chips: int, committed: int, status: PlayerStatus, debt: int)
    ensures
        ({
            let text = seat_lines(chips, committed, status, debt);
            &&& tells(text, "\nChips "@ + dec(chips as nat))
            &&& tells(text, "\nin "@ + dec(committed as nat))
            &&& tells(text, status_name(status))
            &&& debt > 0 ==> tells(text, "\nDebt "@ + dec(debt as nat))
        }),
{
    let text = seat_lines(chips, committed, status, debt);
    let c = "\nChips "@ + dec(chips as nat);
    let i = "\nin "@ + dec(committed as nat);
    let d = crate::captions::debt_line(debt);
    lemma_starts(c, i + " | "@ + status_name(status) + d);
    assert(text =~= c + (i + " | "@ + status_name(status) + d));
    lemma_tells(c, i, " | "@ + status_name(status) + d);
    assert(text =~= c + i + (" | "@ + status_name(status) + d));
    lemma_tells(c + i + " | "@, status_name(status), d);
    assert(text =~= (c + i + " | "@) + status_name(status) + d);
    lemma_ends(c + i + " | "@ + status_name(status), d);
    assert(text =~= (c + i + " | "@ + status_name(status)) + d);
}

/// So does the text at a seat of a table on a server.
pub proof fn remote_seats_tell_their_accounts(v: GameViewModel, seat: int)
    requires
        0 <= seat < v.seats.len(),
    ensures
        ({
            let text = remote_seat_caption(v, seat);
            let s = v.seats[seat];
            &&& text.len() >= s.name.len()
            &&& text.take(s.name.len() as int) == s.name
            &&& tells(text, "\nChips "@ + dec(s.chips as nat))
            &&& tells(text, "\nin "@ + dec(s.committed as nat))
            &&& tells(text, status_name(s.status))
            &&& s.debt > 0 ==> tells(text, "\nDebt "@ + dec(s.debt as nat))
            &&& v.you_seat == Some(seat) ==> tells(text, " (你)"@)
            &&& v.you_seat != Some(seat) && s.is_ai ==> tells(text, " (AI)"@)
        }),
{
    let s = v.seats[seat];
    let text = remote_seat_caption(v, seat);
    let rest = seat_lines(s.chips, s.committed, s.status, s.debt);
    lemma_seat_lines(s.chips, s.committed, s.status, s.debt);
    let head = text.take(text.len() - rest.len());
    assert(text =~= head + rest + Seq::empty());
    assert(text.take(s.name.len() as int) =~= s.name);
    lemma_part_tells(head, rest, Seq::empty(), "\nChips "@ + dec(s.chips as nat));
    lemma_part_tells(head, rest, Seq::empty(), "\nin "@ + dec(s.committed as nat));
    lemma_part_tells(head, rest, Seq::empty(), status_name(s.status));
    if s.debt > 0 {
        lemma_part_tells(head, rest, Seq::empty(), "\nDebt "@ + dec(s.debt as nat));
    }
    let star = crate::captions::note_if(s.is_turn, " *"@);
    if v.you_seat == Some(seat) {
        lemma_tells(s.name, " (你)"@, star + rest);
        assert(text =~= s.name + " (你)"@ + (star + rest));
    } else if s.is_ai {
        lemma_tells(s.name, " (AI)"@, star + rest);
        assert(text =~= s.name + " (AI)"@ + (star + rest));
    }
}

/// The status text tells the number of the hand, counted from one, the pot, the line and the
/// aggro. While betting goes on it tells whose turn it is.
pub proof fn the_status_tells_the_hand(m: MatchModel)
    requires
        0 <= m.hand_no,
    ensures
        ({
            let text = status_caption(m);
            &&& tells(text, "Hand #"@ + dec((m.hand_no + 1) as nat))
            &&& tells(text, "\nPot: "@ + dec(m.hand.pot as nat))
            &&& tells(text, "   Bet: "@ + dec(m.hand.current_bet as nat))
            &&& tells(text, "\n惊动 "@ + halves(m.hand.aggro))
            &&& m.hand.phase != Phase::Showdown && m.hand.phase != Phase::Done && 0 <= m.hand.to_act
                < m.hand.players.len() ==> tells(
                text,
                "To act: "@ + m.hand.players[m.hand.to_act].name,
            )
        }),
{
    let text = status_caption(m);
    let first = "Hand #"@ + dec((m.hand_no + 1) as nat);
    let g = m.hand;
    let scene = m.scene.spec_label();
    let head = status_head(first, scene, g.pot, g.current_bet, g.aggro, g.boss_berserk);
    lemma_status_head(first, scene, g.pot, g.current_bet, g.aggro, g.boss_berserk);
    let tail = text.skip(head.len() as int);
    assert(text =~= Seq::empty() + head + tail);
    lemma_part_tells(Seq::empty(), head, tail, first);
    lemma_part_tells(Seq::empty(), head, tail, "\nPot: "@ + dec(g.pot as nat));
    lemma_part_tells(Seq::empty(), head, tail, "   Bet: "@ + dec(g.current_bet as nat));
    lemma_part_tells(Seq::empty(), head, tail, "\n惊动 "@ + halves(g.aggro));
    if g.phase != Phase::Showdown && g.phase != Phase::Done && 0 <= g.to_act < g.players.len() {
        let keys = "\n[Q]Check [W]Call\n[E]Raise [R]Fold\n[Tab]账本 [Esc]菜单"@;
        let who = "To act: "@ + g.players[g.to_act].name;
        lemma_tells(head, who, keys);
        assert(text =~= head + who + keys);
    }
}

proof fn lemma_status_head(
    first: Seq<char>,
    scene: Seq<char>,
    pot: int,
    bet: int,
    aggro: u32,
    berserk: bool,
)
    ensures
        ({
            let text = status_head(first, scene, pot, bet, aggro, berserk);
            &&& tells(text, first)
            &&& tells(text, scene)
            &&& tells(text, "\nPot: "@ + dec(pot as nat))
            &&& tells(text, "   Bet: "@ + dec(bet as nat))
            &&& tells(text, "\n惊动 "@ + halves(aggro))
            &&& berserk ==> tells(text, "  狂暴!"@)
        }),
{
    let t1 = first + "\n"@;
    let t2 = t1 + scene;
    let t3 = t2 + "\nPot: "@;
    let t4 = t3 + dec(pot as nat);
    let t5 = t4 + "   Bet: "@;
    let t6 = t5 + dec(bet as nat);
    let t7 = t6 + "\n惊动 "@;
    let t8 = t7 + halves(aggro);
    let rage = crate::captions::note_if(berserk, "  狂暴!"@);
    let foot = "\nP=战力 H=生命 T=威胁\n"@;
    let text = t8 + rage + foot;
    let p = "\nPot: "@ + dec(pot as nat);
    let b = "   Bet: "@ + dec(bet as nat);
    let a = "\n惊动 "@ + halves(aggro);
    assert(status_head(first, scene, pot, bet, aggro, berserk) == text);
    assert(tells(t4, first) && tells(t4, scene) && tells(t4, p)) by {
        lemma_starts(first, "\n"@);
        lemma_more(t1, scene, first);
        lemma_more(t2, "\nPot: "@, first);
        lemma_more(t3, dec(pot as nat), first);
        lemma_ends(t1, scene);
        lemma_more(t2, "\nPot: "@, scene);
        lemma_more(t3, dec(pot as nat), scene);
        lemma_pair(t2, "\nPot: "@, dec(pot as nat));
    }
    assert(forall|x: Seq<char>| #[trigger] tells(t4, x) ==> tells(t6, x)) by {
        assert forall|x: Seq<char>| #[trigger] tells(t4, x) implies tells(t6, x) by {
            lemma_more(t4, "   Bet: "@, x);
            lemma_more(t5, dec(bet as nat), x);
        }
    }
    lemma_pair(t4, "   Bet: "@, dec(bet as nat));
    assert(forall|x: Seq<char>| #[trigger] tells(t6, x) ==> tells(t8, x)) by {
        assert forall|x: Seq<char>| #[trigger] tells(t6, x) implies tells(t8, x) by {
            lemma_more(t6, "\n惊动 "@, x);
            lemma_more(t7, halves(aggro), x);
        }
    }
    lemma_pair(t6, "\n惊动 "@, halves(aggro));
    assert(forall|x: Seq<char>| #[trigger] tells(t8, x) ==> tells(text, x)) by {
        assert forall|x: Seq<char>| #[trigger] tells(t8, x) implies tells(text, x) by {
            lemma_more(t8, rage, x);
            lemma_more(t8 + rage, foot, x);
        }
    }
    lemma_ends(t8, rage);
    lemma_more(t8 + rage, foot, rage);
    assert(tells(t6, first) && tells(t6, scene) && tells(t6, p) && tells(t6, b));
    assert(tells(t8, first) && tells(t8, scene) && tells(t8, p) && tells(t8, b) && tells(t8, a));
}

/// So does the status text of a table on a server.
pub proof fn the_remote_status_tells_the_hand(v: GameViewModel)
    ensures
        ({
            let text = remote_status_caption(v);
            &&& tells(text, v.scene_label)
            &&& tells(text, "\nPot: "@ + dec(v.pot as nat))
            &&& tells(text, "   Bet: "@ + dec(v.current_bet as nat))
            &&& tells(text, "\n惊动 "@ + halves(v.aggro))
            &&& v.boss_berserk ==> tells(text, "  狂暴!"@)
            &&& tells(text, "第 "@ + dec((v.hand_no + 1) as nat) + " 手"@)
            &&& v.to_act_seat is None ==> tells(text, "摊牌结算"@)
            &&& v.to_act_seat is Some && v.you_seat == v.to_act_seat ==> tells(text, "轮到你"@)
            &&& v.to_act_seat is Some && v.you_seat != v.to_act_seat && 0 <= v.to_act_seat->0
                < v.seats.len() ==> tells(text, "等待 "@ + v.seats[v.to_act_seat->0].name)
        }),
{
    reveal_strlit("联机 · 第 ");
    reveal_strlit("联机 · ");
    reveal_strlit("第 ");
    reveal_strlit("=== 摊牌结算 ===");
    reveal_strlit("=== ");
    reveal_strlit("摊牌结算");
    reveal_strlit(" ===");
    reveal_strlit("轮到你：[Q]过 [W]跟 [E]加20 [R]弃 [T]全下");
    reveal_strlit("轮到你");
    let text = remote_status_caption(v);
    let no = dec((v.hand_no + 1) as nat);
    let first = "联机 · 第 "@ + no + " 手"@;
    let head = status_head(first, v.scene_label, v.pot, v.current_bet, v.aggro, v.boss_berserk);
    lemma_status_head(first, v.scene_label, v.pot, v.current_bet, v.aggro, v.boss_berserk);
    let tail = text.skip(head.len() as int);
    assert(text =~= Seq::empty() + head + tail);
    lemma_part_tells(Seq::empty(), head, tail, v.scene_label);
    lemma_part_tells(Seq::empty(), head, tail, "\nPot: "@ + dec(v.pot as nat));
    lemma_part_tells(Seq::empty(), head, tail, "   Bet: "@ + dec(v.current_bet as nat));
    lemma_part_tells(Seq::empty(), head, tail, "\n惊动 "@ + halves(v.aggro));
    if v.boss_berserk {
        lemma_part_tells(Seq::empty(), head, tail, "  狂暴!"@);
    }
    let count = "第 "@ + no + " 手"@;
    let behind = head.skip(first.len() as int);
    assert(head =~= "联机 · "@ + count + behind);
    lemma_tells("联机 · "@, count, behind);
    lemma_part_tells(Seq::empty(), head, tail, count);
    match v.to_act_seat {
        Some(seat) => if v.you_seat == Some(seat) {
            let all = "轮到你：[Q]过 [W]跟 [E]加20 [R]弃 [T]全下"@;
            assert(all =~= "轮到你"@ + all.skip(3));
            lemma_tells(head, "轮到你"@, all.skip(3));
            assert(text =~= head + "轮到你"@ + all.skip(3));
        } else if 0 <= seat < v.seats.len() {
            let who = "等待 "@ + v.seats[seat].name;
            lemma_tells(head, who, " 行动…"@);
            assert(text =~= head + who + " 行动…"@);
        },
        None => {
            lemma_tells(head + "=== "@, "摊牌结算"@, " ==="@);
            assert(text =~= (head + "=== "@) + "摊牌结算"@ + " ==="@);
        },
    }
}

// ---- Rooms ----

/// The list of rooms has a line for each, in their order, with its code, its name and how many of
/// its places are taken: one more room adds its line at the end.
pub proof fn every_room_has_its_line(rooms: Seq<RoomInfoModel>, r: RoomInfoModel)
    ensures
        rooms_caption(rooms.push(r)) == "公开房间（输入房间号加入）:\n"@ + room_lines(
            rooms,
            rooms.len() as int,
        ) + ("  ["@ + r.code + "] "@ + r.name + "   "@ + dec(r.players as nat) + "/"@ + dec(
            r.max_players as nat,
        ) + "\n"@),
        room_lines(rooms, 0).len() == 0,
{
    let more = rooms.push(r);
    let n = rooms.len() as int;
    lemma_same_rooms(rooms, more, n);
    assert(more[n] == r);
    let line = "  ["@ + r.code + "] "@ + r.name + "   "@ + dec(r.players as nat) + "/"@ + dec(
        r.max_players as nat,
    ) + "\n"@;
    assert(room_lines(more, n + 1) == room_lines(rooms, n) + line);
    let top = "公开房间（输入房间号加入）:\n"@;
    assert(top + (room_lines(rooms, n) + line) =~= top + room_lines(rooms, n) + line);
}

proof fn lemma_same_rooms(rooms: Seq<RoomInfoModel>, more: Seq<RoomInfoModel>, n: int)
    requires
        0 <= n <= rooms.len() <= more.len(),
        forall|k: int| 0 <= k < rooms.len() ==> #[trigger] more[k] == rooms[k],
    ensures
        room_lines(more, n) == room_lines(rooms, n),
    decreases n,
{
    if n > 0 {
        lemma_same_rooms(rooms, more, n - 1);
        assert(more[n - 1] == rooms[n - 1]);
    }
}

/// Each member has a line in the room, with a mark for the host and one for the reader.
pub proof fn every_member_has_a_line(room: RoomStateModel, me: Option<u64>, n: int)
    requires
        0 < n <= room.players.len(),
    ensures
        ({
            let p = room.players[n - 1];
            let line = member_lines(room, me, n).skip(member_lines(room, me, n - 1).len() as int);
            &&& member_lines(room, me, n) == member_lines(room, me, n - 1) + line
            &&& tells(line, p.name)
            &&& p.id == room.host ==> tells(line, "(房主)"@)
            &&& me == Some(p.id) ==> tells(line, "←你"@)
            &&& p.id != room.host && me != Some(p.id) ==> line == "· "@ + p.name + "\n"@
        }),
{
    reveal_strlit("  (房主)");
    reveal_strlit("(房主)");
    reveal_strlit("  ←你");
    reveal_strlit("←你");
    reveal_strlit("  ");
    let p = room.players[n - 1];
    let rest = member_lines(room, me, n - 1);
    let all = member_lines(room, me, n);
    let line = all.skip(rest.len() as int);
    assert(all =~= rest + line);
    let host = crate::captions::note_if(p.id == room.host, "  (房主)"@);
    let you = crate::captions::note_if(me == Some(p.id), "  ←你"@);
    assert(line =~= "· "@ + p.name + host + you + "\n"@);
    lemma_tells("· "@, p.name, host + you + "\n"@);
    assert(line =~= "· "@ + p.name + (host + you + "\n"@));
    if p.id == room.host {
        lemma_tells("· "@ + p.name + "  "@, "(房主)"@, you + "\n"@);
        assert(line =~= ("· "@ + p.name + "  "@) + "(房主)"@ + (you + "\n"@));
    }
    if me == Some(p.id) {
        lemma_tells("· "@ + p.name + host + "  "@, "←你"@, "\n"@);
        assert(line =~= ("· "@ + p.name + host + "  "@) + "←你"@ + "\n"@);
    }
    if p.id != room.host && me != Some(p.id) {
        assert(line =~= "· "@ + p.name + "\n"@);
    }
}

/// The text of a room tells its code, how many of its places are taken, its members, and how many
/// the machine will fill.
pub proof fn rooms_tell_their_size(room: RoomStateModel, me: Option<u64>)
    ensures
        ({
            let text = lobby_caption(room, me);
            let n = room.players.len() as int;
            &&& tells(text, "房间 ["@ + room.code)
            &&& tells(text, "]  "@ + room.name)
            &&& tells(text, "\n人数 "@ + dec(n as nat))
            &&& tells(text, "/"@ + dec(room.max_players as nat))
            &&& tells(text, member_lines(room, me, n))
            &&& room.fill_ai && n < room.max_players ==> tells(
                text,
                "\n（开局将补 "@ + dec((room.max_players - n) as nat),
            )
        }),
{
    let n = room.players.len() as int;
    let members = member_lines(room, me, n);
    let t2 = "房间 ["@ + room.code;
    let t4 = t2 + "]  "@ + room.name;
    let t6 = t4 + "\n人数 "@ + dec(n as nat);
    let t8 = t6 + "/"@ + dec(room.max_players as nat);
    let t10 = t8 + "\n\n"@ + members;
    let more = "\n（开局将补 "@ + dec((room.max_players - n) as nat);
    let end = if room.fill_ai && n < room.max_players {
        more + " 个 AI 凑满 "@ + dec(room.max_players as nat) + " 人）"@
    } else {
        Seq::empty()
    };
    let text = t10 + end;
    assert(lobby_caption(room, me) == text);
    lemma_starts(t2, Seq::empty());
    assert(t2 + Seq::empty() =~= t2);
    lemma_pair(t2, "]  "@, room.name);
    assert forall|x: Seq<char>| #[trigger] tells(t2, x) implies tells(t4, x) by {
        lemma_more(t2, "]  "@, x);
        lemma_more(t2 + "]  "@, room.name, x);
    }
    lemma_pair(t4, "\n人数 "@, dec(n as nat));
    assert forall|x: Seq<char>| #[trigger] tells(t4, x) implies tells(t6, x) by {
        lemma_more(t4, "\n人数 "@, x);
        lemma_more(t4 + "\n人数 "@, dec(n as nat), x);
    }
    lemma_pair(t6, "/"@, dec(room.max_players as nat));
    assert forall|x: Seq<char>| #[trigger] tells(t6, x) implies tells(t8, x) by {
        lemma_more(t6, "/"@, x);
        lemma_more(t6 + "/"@, dec(room.max_players as nat), x);
    }
    lemma_ends(t8 + "\n\n"@, members);
    assert forall|x: Seq<char>| #[trigger] tells(t8, x) implies tells(text, x) by {
        lemma_more(t8, "\n\n"@, x);
        lemma_more(t8 + "\n\n"@, members, x);
        lemma_more(t10, end, x);
    }
    lemma_more(t10, end, members);
    assert(tells(t4, t2) && tells(t6, t2) && tells(t8, t2));
    assert(tells(t6, "]  "@ + room.name) && tells(t8, "]  "@ + room.name));
    assert(tells(t8, "\n人数 "@ + dec(n as nat)));
    if room.fill_ai && n < room.max_players {
        lemma_starts(more, " 个 AI 凑满 "@);
        lemma_more(more + " 个 AI 凑满 "@, dec(room.max_players as nat), more);
        lemma_more(more + " 个 AI 凑满 "@ + dec(room.max_players as nat), " 人）"@, more);
        lemma_behind(t10, end, more);
    }
}

// ---- Accounts ----

/// The line of an account tells the rank, the name, the chips, the debt and their difference, and
/// by how much that is above or below the first thousand.
pub proof fn accounts_tell_their_worth(rank: int, s: SeatModel)
    ensures
        ({
            let line = account_line(rank, s);
            let profit = s.chips - s.debt - 1000;
            &&& tells(line, ". "@ + s.name)
            &&& tells(line, "  "@ + filled_before(dec(s.chips as nat), 6))
            &&& tells(line, "   "@ + filled_before(dec(s.debt as nat), 5))
            &&& tells(line, "   "@ + filled_before(signed(s.chips - s.debt), 6))
            &&& profit > 0 ==> tells(line, "+"@ + signed(profit) + " 水上"@)
            &&& profit < 0 ==> tells(line, signed(profit) + " 水下"@)
            &&& profit == 0 ==> tells(line, "持平"@)
            &&& line.len() >= dec(rank as nat).len()
            &&& line.take(dec(rank as nat).len() as int) == dec(rank as nat)
        }),
{
    let line = account_line(rank, s);
    let c = filled_before(dec(s.chips as nat), 6);
    let d = filled_before(dec(s.debt as nat), 5);
    let w = filled_before(signed(s.chips - s.debt), 6);
    let t = tide(s.chips - s.debt - 1000);
    let t1 = dec(rank as nat);
    let t3 = t1 + ". "@ + filled_behind(s.name, 12);
    let t5 = t3 + "  "@ + c;
    let t7 = t5 + "   "@ + d;
    let t9 = t7 + "   "@ + w;
    let t11 = t9 + "   "@ + t;
    assert(line == t11 + "\n"@);
    lemma_filled(t1, ". "@, s.name, 12);
    lemma_pair(t3, "  "@, c);
    assert forall|x: Seq<char>| #[trigger] tells(t3, x) implies tells(t5, x) by {
        lemma_more(t3, "  "@, x);
        lemma_more(t3 + "  "@, c, x);
    }
    assert(tells(t5, ". "@ + s.name));
    lemma_pair(t5, "   "@, d);
    assert forall|x: Seq<char>| #[trigger] tells(t5, x) implies tells(t7, x) by {
        lemma_more(t5, "   "@, x);
        lemma_more(t5 + "   "@, d, x);
    }
    assert(tells(t7, ". "@ + s.name) && tells(t7, "  "@ + c));
    lemma_pair(t7, "   "@, w);
    assert forall|x: Seq<char>| #[trigger] tells(t7, x) implies tells(t9, x) by {
        lemma_more(t7, "   "@, x);
        lemma_more(t7 + "   "@, w, x);
    }
    assert(tells(t9, ". "@ + s.name) && tells(t9, "  "@ + c) && tells(t9, "   "@ + d));
    lemma_ends(t9 + "   "@, t);
    assert forall|x: Seq<char>| #[trigger] tells(t9, x) implies tells(line, x) by {
        lemma_more(t9, "   "@, x);
        lemma_more(t9 + "   "@, t, x);
        lemma_more(t11, "\n"@, x);
    }
    lemma_more(t11, "\n"@, t);
    assert(line.take(t1.len() as int) =~= t1);
}

// ---- The dungeon ----

/// The text on the dungeon tells the threats and the health of all nodes together, and the aggro
/// once there is any.
pub proof fn dungeons_tell_their_sums(g: GameModel)
    ensures
        ({
            let text = dungeon_caption(g);
            let n = g.dungeon.len() as int;
            &&& tells(text, "     威胁合计 "@ + dec(threat_total(g, n) as nat))
            &&& tells(text, "   生命合计 "@ + dec(health_total(g, n) as nat))
            &&& g.aggro > 0 ==> tells(text, "   惊动 "@ + halves(g.aggro))
        }),
{
    let n = g.dungeon.len() as int;
    let t = dec(threat_total(g, n) as nat);
    let h = dec(health_total(g, n) as nat);
    let t1 = "地牢  "@ + crate::scoreboard::node_list(g, n);
    let t3 = t1 + "     威胁合计 "@ + t;
    let t5 = t3 + "   生命合计 "@ + h;
    let rage = crate::captions::note_if(g.boss_berserk, " 狂暴!"@);
    let a = "   惊动 "@ + halves(g.aggro);
    let end = if g.aggro > 0 {
        a + rage
    } else {
        Seq::empty()
    };
    assert(dungeon_caption(g) == t5 + end);
    lemma_pair(t1, "     威胁合计 "@, t);
    lemma_more(t3, "   生命合计 "@, "     威胁合计 "@ + t);
    lemma_more(t3 + "   生命合计 "@, h, "     威胁合计 "@ + t);
    lemma_more(t5, end, "     威胁合计 "@ + t);
    lemma_pair(t3, "   生命合计 "@, h);
    lemma_more(t5, end, "   生命合计 "@ + h);
    if g.aggro > 0 {
        lemma_starts(a, rage);
        lemma_behind(t5, end, a);
    }
}

/// The sums of a dungeon grow with every node by its threat, with aggro and rage, and its health.
pub proof fn every_node_is_summed_up(g: GameModel, n: int)
    requires
        0 < n <= g.dungeon.len(),
        g.dungeon[n - 1].threat <= i32::MAX,
    ensures
        threat_total(g, 0) == 0,
        health_total(g, 0) == 0,
        threat_total(g, n) == threat_total(g, n - 1) + g.dungeon[n - 1].threat + (
        match g.dungeon[n - 1].kind {
            MonsterKind::Elite | MonsterKind::PoisonSwamp => g.aggro as int / 8,
            MonsterKind::Boss => g.aggro as int / 8 + if g.boss_berserk {
                10int
            } else {
                0
            },
            _ => 0,
        }),
        health_total(g, n) == health_total(g, n - 1) + g.dungeon[n - 1].health,
{
    crate::team_laws::threats_add_up(g.dungeon[n - 1], g.aggro, g.boss_berserk);
}

/// One more number adds itself to a sum, and nothing adds up to nothing.
pub proof fn sums_add_up(numbers: Seq<int>, more: int)
    ensures
        sum(Seq::empty()) == 0,
        sum(numbers.push(more)) == sum(numbers) + more,
{
    assert(numbers.push(more).drop_last() =~= numbers);
}

/// The list of nodes names each by its tier and its threat, in their order, with a bar between two.
pub proof fn every_node_is_listed(g: GameModel, n: int)
    requires
        0 < n <= g.dungeon.len(),
        g.dungeon[n - 1].threat <= i32::MAX,
    ensures
        node_list(g, 0).len() == 0,
        ({
            let node = g.dungeon[n - 1];
            let threat = node.threat + (match node.kind {
                MonsterKind::Elite | MonsterKind::PoisonSwamp => g.aggro as int / 8,
                MonsterKind::Boss => g.aggro as int / 8 + if g.boss_berserk {
                    10int
                } else {
                    0
                },
                _ => 0,
            });
            let bar = if n > 1 {
                "  |  "@
            } else {
                Seq::empty()
            };
            let name = match node.kind {
                MonsterKind::Goblin => "小怪"@,
                MonsterKind::Elite | MonsterKind::PoisonSwamp => "精英"@,
                MonsterKind::Boss => "Boss"@,
                MonsterKind::Treasure => "宝箱"@,
            };
            &&& node_list(g, n) == node_list(g, n - 1) + bar + name + " T"@ + dec(threat as nat)
            &&& tier(node.kind) == name
        }),
{
    crate::team_laws::threats_add_up(g.dungeon[n - 1], g.aggro, g.boss_berserk);
}

/// The text on the dungeon of a table on a server tells the sum of all threats and the aggro.
pub proof fn remote_dungeons_tell_their_sum(v: GameViewModel)
    ensures
        tells(remote_dungeon_caption(v), "地牢威胁合计 "@ + dec(sum(v.dungeon_threats) as nat)),
        tells(remote_dungeon_caption(v), "   惊动 "@ + halves(v.aggro)),
        v.boss_berserk ==> tells(remote_dungeon_caption(v), "  狂暴!"@),
{
    let t2 = "地牢威胁合计 "@ + dec(sum(v.dungeon_threats) as nat);
    let t3 = t2 + "   惊动 "@;
    let t4 = t3 + halves(v.aggro);
    let rage = crate::captions::note_if(v.boss_berserk, "  狂暴!"@);
    lemma_starts(t2, "   惊动 "@);
    lemma_more(t3, halves(v.aggro), t2);
    lemma_more(t4, rage, t2);
    lemma_pair(t2, "   惊动 "@, halves(v.aggro));
    lemma_more(t4, rage, "   惊动 "@ + halves(v.aggro));
    lemma_ends(t4, rage);
}

/// Names are listed in their order: one more name comes last, behind a comma.
pub proof fn every_name_is_listed(names: Seq<Seq<char>>, name: Seq<char>)
    ensures
        listed(seq![name], 1) == name,
        names.len() > 0 ==> listed(names.push(name), names.len() as int + 1) == listed(
            names,
            names.len() as int,
        ) + "、"@ + name,
{
    lemma_same_names(names, names.push(name), names.len() as int);
}

proof fn lemma_same_names(names: Seq<Seq<char>>, more: Seq<Seq<char>>, n: int)
    requires
        0 <= n <= names.len() <= more.len(),
        forall|k: int| 0 <= k < names.len() ==> #[trigger] more[k] == names[k],
    ensures
        listed(more, n) == listed(names, n),
    decreases n,
{
    if n > 0 {
        lemma_same_names(names, more, n - 1);
        assert(more[n - 1] == names[n - 1]);
    }
}

/// The seat whose turn it is has a star behind its name until the showdown, and no other seat has.
pub proof fn stars_mark_the_turn(m: MatchModel, seat: int)
    requires
        0 <= seat < m.hand.players.len(),
    ensures
        ({
            let text = seat_caption(m, seat);
            let n = m.hand.players[seat].name.len() as int;
            let turn = seat == m.hand.to_act && m.hand.phase != Phase::Showdown;
            &&& text.len() > n + 1
            &&& turn ==> text[n] == ' ' && text[n + 1] == '*'
            &&& !turn ==> text[n] == '\n'
        }),
{
    reveal_strlit(" *");
    reveal_strlit("\nChips ");
}

} // verus!
