//! The texts of a settled hand and of the accounts.
use crate::captions::note_if;
use crate::cards::MonsterKind;
use crate::combat::{node_threat, raw_threat, threat_of, threats_fit};
use crate::game::{PlayerResult, Settlement};
use crate::game_model::GameModel;
use crate::net::{GameView, GameViewModel, SeatViewModel};
use crate::playable::modest_node;
use crate::player::PlayerId;
use crate::session::in_session;
use crate::table::{Match, MatchModel, Seat, SeatModel, BUY_IN};
use crate::text::{
    count_text, dec, decimal, filled_before, filled_behind, half_points, halves, pad_before,
    pad_behind, signed, signed_decimal,
};
use vstd::prelude::*;

verus! {

// ---- The winner ----

/// Names with a mark between them.
pub open spec fn listed(names: Seq<Seq<char>>, n: int) -> Seq<char>
    decreases n,
{
    if n <= 0 {
        Seq::empty()
    } else if n == 1 {
        names[0]
    } else {
        listed(names, n - 1) + "、"@ + names[n - 1]
    }
}

/// Names as mathematical values.
pub open spec fn name_models(names: Seq<String>) -> Seq<Seq<char>> {
    names.map_values(|s: String| s@)
}

/// Who takes the pot: nobody, one player, or several in equal parts.
pub open spec fn winners_caption(names: Seq<Seq<char>>, pot: int) -> Seq<char> {
    let n = names.len() as int;
    if n == 0 {
        "无人通关，底池 "@ + dec(pot as nat) + " 滚入下一手"@
    } else if n == 1 {
        "赢家："@ + names[0] + "    底池 "@ + dec(pot as nat)
    } else {
        "平局均分："@ + listed(names, n) + "    底池 "@ + dec(pot as nat) + " ÷ "@ + dec(n as nat)
            + " = "@ + dec((pot / n) as nat) + "/人"@
    }
}

fn list_names(names: &Vec<String>) -> (r: String)
    requires
        names@.len() > 0,
    ensures
        r@ == listed(name_models(names@), names@.len() as int),
{
    let mut r = names[0].clone();
    let mut i: usize = 1;
    while i < names.len()
        invariant
            1 <= i <= names@.len(),
            r@ == listed(name_models(names@), i as int),
        decreases names@.len() - i,
    {
        r.append("、");
        r.append(names[i].as_str());
        i = i + 1;
    }
    r
}

/// The text on the winners of a pot.
pub fn winners_line(names: &Vec<String>, pot: u32) -> (r: String)
    ensures
        r@ == winners_caption(name_models(names@), pot as int),
{
    let n: usize = names.len();
    if n == 0 {
        let mut r = "无人通关，底池 ".to_owned();
        r.append(decimal(pot as u64).as_str());
        r.append(" 滚入下一手");
        r
    } else if n == 1 {
        let mut r = "赢家：".to_owned();
        r.append(names[0].as_str());
        r.append("    底池 ");
        r.append(decimal(pot as u64).as_str());
        r
    } else {
        let mut r = "平局均分：".to_owned();
        r.append(list_names(names).as_str());
        r.append("    底池 ");
        r.append(decimal(pot as u64).as_str());
        r.append(" ÷ ");
        r.append(count_text(n).as_str());
        r.append(" = ");
        r.append(decimal(pot as u64 / n as u64).as_str());
        r.append("/人");
        r
    }
}

// ---- Names ----

/// The name of the first seat from `i` on that belongs to a player.
pub open spec fn seat_name_of(seats: Seq<SeatModel>, id: PlayerId, i: int) -> Seq<char>
    decreases seats.len() - i,
{
    if i >= seats.len() {
        "?"@
    } else if seats[i].id == id {
        seats[i].name
    } else {
        seat_name_of(seats, id, i + 1)
    }
}

fn local_name(m: &Match, id: PlayerId) -> (r: String)
    ensures
        r@ == seat_name_of(m@.seats, id, 0),
{
    let mut i: usize = 0;
    while i < m.seats.len()
        invariant
            i <= m.seats@.len(),
            seat_name_of(m@.seats, id, 0) == seat_name_of(m@.seats, id, i as int),
        decreases m.seats@.len() - i,
    {
        assert(m@.seats[i as int] == m.seats@[i as int]@);
        if m.seats[i].id == id {
            return m.seats[i].name.clone();
        }
        i = i + 1;
    }
    "?".to_owned()
}

/// The name in the seat that a player's number stands for.
pub open spec fn remote_name_of(seats: Seq<SeatViewModel>, id: PlayerId) -> Seq<char> {
    if id.0 < seats.len() {
        seats[id.0 as int].name
    } else {
        "?"@
    }
}

fn remote_name(view: &GameView, id: PlayerId) -> (r: String)
    ensures
        r@ == remote_name_of(view@.seats, id),
{
    let i: usize = id.0 as usize;
    if i < view.seats.len() {
        assert(view@.seats[i as int] == view.seats@[i as int]@);
        view.seats[i].name.clone()
    } else {
        "?".to_owned()
    }
}

// ---- The board ----

/// The line of one player.
pub open spec fn result_line(r: PlayerResult, name: Seq<char>, gap: Seq<char>) -> Seq<char> {
    filled_behind(name, 11) + " 队伍 P"@ + filled_behind(dec(r.team_power as nat), 3) + " H"@
        + filled_behind(dec(r.team_health as nat), 3) + (if r.cleared {
        " →  通关  余血"@ + dec(r.remaining_health as nat) + " 战力"@ + dec(
            r.remaining_power as nat,
        ) + gap + "优势 "@ + dec(r.advantage as nat) + "\n"@
    } else {
        " →  团灭\n"@
    })
}

fn line_text(r: &PlayerResult, name: &str, gap: &str) -> (s: String)
    ensures
        s@ == result_line(*r, name@, gap@),
{
    let mut s = pad_behind(name, 11);
    s.append(" 队伍 P");
    s.append(pad_behind(decimal(r.team_power as u64).as_str(), 3).as_str());
    s.append(" H");
    s.append(pad_behind(decimal(r.team_health as u64).as_str(), 3).as_str());
    if r.cleared {
        let mut rest = " →  通关  余血".to_owned();
        rest.append(decimal(r.remaining_health as u64).as_str());
        rest.append(" 战力");
        rest.append(decimal(r.remaining_power as u64).as_str());
        rest.append(gap);
        rest.append("优势 ");
        rest.append(decimal(r.advantage as u64).as_str());
        rest.append("\n");
        s.append(rest.as_str());
    } else {
        s.append(" →  团灭\n");
    }
    s
}

/// The lines of the first `n` players of a local match.
pub open spec fn board_lines(
    results: Seq<PlayerResult>,
    seats: Seq<SeatModel>,
    n: int,
) -> Seq<char>
    decreases n,
{
    if n <= 0 {
        Seq::empty()
    } else {
        board_lines(results, seats, n - 1) + result_line(
            results[n - 1],
            seat_name_of(seats, results[n - 1].id, 0),
            "   "@,
        )
    }
}

/// The board of a settled hand of a local match.
pub fn board_text(m: &Match, s: &Settlement) -> (r: String)
    ensures
        r@ == board_lines(s@.results, m@.seats, s@.results.len() as int),
{
    let mut r = String::new();
    let mut i: usize = 0;
    while i < s.results.len()
        invariant
            i <= s.results@.len(),
            r@ == board_lines(s@.results, m@.seats, i as int),
        decreases s.results@.len() - i,
    {
        let name = local_name(m, s.results[i].id);
        r.append(line_text(&s.results[i], name.as_str(), "   ").as_str());
        i = i + 1;
    }
    r
}

/// The lines of the first `n` players of a table on a server.
pub open spec fn remote_board_lines(
    results: Seq<PlayerResult>,
    seats: Seq<SeatViewModel>,
    n: int,
) -> Seq<char>
    decreases n,
{
    if n <= 0 {
        Seq::empty()
    } else {
        remote_board_lines(results, seats, n - 1) + result_line(
            results[n - 1],
            remote_name_of(seats, results[n - 1].id),
            "  "@,
        )
    }
}

/// The board of a settled hand on a server.
pub fn mp_board_text(view: &GameView, s: &Settlement) -> (r: String)
    ensures
        r@ == remote_board_lines(s@.results, view@.seats, s@.results.len() as int),
{
    let mut r = String::new();
    let mut i: usize = 0;
    while i < s.results.len()
        invariant
            i <= s.results@.len(),
            r@ == remote_board_lines(s@.results, view@.seats, i as int),
        decreases s.results@.len() - i,
    {
        let name = remote_name(view, s.results[i].id);
        r.append(line_text(&s.results[i], name.as_str(), "  ").as_str());
        i = i + 1;
    }
    r
}

/// The names of the winners of a settled hand: one or none.
pub open spec fn winner_names(winner: Option<Seq<char>>) -> Seq<Seq<char>> {
    match winner {
        Some(name) => seq![name],
        None => Seq::empty(),
    }
}

/// Who won a hand of a local match, and what.
pub fn winner_text(m: &Match, s: &Settlement) -> (r: String)
    ensures
        r@ == winners_caption(
            winner_names(
                match s@.winner {
                    Some(id) => Some(seat_name_of(m@.seats, id, 0)),
                    None => None,
                },
            ),
            m@.hand.pot,
        ),
{
    let mut names: Vec<String> = Vec::new();
    if let Some(id) = s.winner {
        names.push(local_name(m, id));
    }
    assert(name_models(names@) =~= winner_names(
        match s@.winner {
            Some(id) => Some(seat_name_of(m@.seats, id, 0)),
            None => None,
        },
    ));
    winners_line(&names, m.hand.pot)
}

/// Who won a hand on a server, and what.
pub fn mp_winner_text(view: &GameView, s: &Settlement) -> (r: String)
    ensures
        r@ == winners_caption(
            winner_names(
                match s@.winner {
                    Some(id) => Some(remote_name_of(view@.seats, id)),
                    None => None,
                },
            ),
            view@.pot,
        ),
{
    let mut names: Vec<String> = Vec::new();
    if let Some(id) = s.winner {
        names.push(remote_name(view, id));
    }
    assert(name_models(names@) =~= winner_names(
        match s@.winner {
            Some(id) => Some(remote_name_of(view@.seats, id)),
            None => None,
        },
    ));
    winners_line(&names, view.pot)
}

// ---- The dungeon ----

/// The name of the tier that a node belongs to.
pub open spec fn tier(kind: MonsterKind) -> Seq<char> {
    match kind {
        MonsterKind::Goblin => "小怪"@,
        MonsterKind::Elite | MonsterKind::PoisonSwamp => "精英"@,
        MonsterKind::Boss => "Boss"@,
        MonsterKind::Treasure => "宝箱"@,
    }
}

pub fn tier_name(kind: MonsterKind) -> (r: &'static str)
    ensures
        r@ == tier(kind),
{
    match kind {
        MonsterKind::Goblin => "小怪",
        MonsterKind::Elite | MonsterKind::PoisonSwamp => "精英",
        MonsterKind::Boss => "Boss",
        MonsterKind::Treasure => "宝箱",
    }
}

/// The first `n` nodes with their threats.
pub open spec fn node_list(g: GameModel, n: int) -> Seq<char>
    decreases n,
{
    if n <= 0 {
        Seq::empty()
    } else {
        let node = g.dungeon[n - 1];
        node_list(g, n - 1) + note_if(n > 1, "  |  "@) + tier(node.kind) + " T"@ + dec(
            threat_of(node, g.aggro, g.boss_berserk) as nat,
        )
    }
}

/// The threats of the first `n` nodes together.
pub open spec fn threat_total(g: GameModel, n: int) -> int
    decreases n,
{
    if n <= 0 {
        0
    } else {
        threat_total(g, n - 1) + threat_of(g.dungeon[n - 1], g.aggro, g.boss_berserk)
    }
}

/// The health of the first `n` nodes together.
pub open spec fn health_total(g: GameModel, n: int) -> int
    decreases n,
{
    if n <= 0 {
        0
    } else {
        health_total(g, n - 1) + g.dungeon[n - 1].health
    }
}

/// The dungeon of a hand: its nodes, their threats, and the sums.
pub open spec fn dungeon_caption(g: GameModel) -> Seq<char> {
    let n = g.dungeon.len() as int;
    "地牢  "@ + node_list(g, n) + "     威胁合计 "@ + dec(threat_total(g, n) as nat)
        + "   生命合计 "@ + dec(health_total(g, n) as nat) + (if g.aggro > 0 {
        "   惊动 "@ + halves(g.aggro) + note_if(g.boss_berserk, " 狂暴!"@)
    } else {
        Seq::empty()
    })
}

/// The threats of the dungeon and the sums of its numbers fit their registers.
pub open spec fn dungeon_fits(g: GameModel) -> bool {
    let n = g.dungeon.len() as int;
    &&& threats_fit(g.dungeon, g.aggro, g.boss_berserk)
    &&& threat_total(g, n) <= u32::MAX
    &&& health_total(g, n) <= u32::MAX
}

/// The dungeon of every match in session can be shown.
pub proof fn dungeons_in_session_can_be_shown(m: MatchModel)
    requires
        in_session(m),
    ensures
        dungeon_fits(m.hand),
{
    let g = m.hand;
    reveal_with_fuel(threat_total, 4);
    reveal_with_fuel(health_total, 4);
    assert forall|i: int| 0 <= i < g.dungeon.len() implies raw_threat(
        #[trigger] g.dungeon[i],
        g.aggro,
        g.boss_berserk,
    ) <= 1_000_000_000 && g.dungeon[i].health <= 1_000_000 by {
        assert(modest_node(g.dungeon[i]));
    }
}

proof fn lemma_totals_grow(g: GameModel, i: int, n: int)
    requires
        0 <= i <= n <= g.dungeon.len(),
    ensures
        0 <= threat_total(g, i) <= threat_total(g, n),
        0 <= health_total(g, i) <= health_total(g, n),
    decreases n,
{
    if n > 0 {
        if i == n {
            lemma_totals_grow(g, i - 1, n - 1);
        } else {
            lemma_totals_grow(g, i, n - 1);
        }
    }
}

/// The text on the dungeon of a local match.
pub fn dungeon_text(m: &Match) -> (r: String)
    requires
        dungeon_fits(m@.hand),
    ensures
        r@ == dungeon_caption(m@.hand),
{
    let g = &m.hand;
    let mut nodes = String::new();
    let mut threats: u32 = 0;
    let mut health: u32 = 0;
    let mut i: usize = 0;
    while i < g.dungeon.len()
        invariant
            i <= g.dungeon@.len(),
            g@ == m@.hand,
            dungeon_fits(g@),
            nodes@ == node_list(g@, i as int),
            threats == threat_total(g@, i as int),
            health == health_total(g@, i as int),
        decreases g.dungeon@.len() - i,
    {
        let node = &g.dungeon[i];
        proof {
            lemma_totals_grow(g@, i + 1, g@.dungeon.len() as int);
        }
        let t: u32 = node_threat(node, g.aggro, g.boss_berserk);
        threats = threats + t;
        health = health + node.health;
        if i > 0 {
            nodes.append("  |  ");
        } else {
            assert(nodes@ =~= nodes@ + note_if(false, "  |  "@));
        }
        nodes.append(tier_name(node.kind));
        nodes.append(" T");
        nodes.append(decimal(t as u64).as_str());
        i = i + 1;
    }
    let mut r = "地牢  ".to_owned();
    r.append(nodes.as_str());
    r.append("     威胁合计 ");
    r.append(decimal(threats as u64).as_str());
    r.append("   生命合计 ");
    r.append(decimal(health as u64).as_str());
    let mut rest = String::new();
    if g.aggro > 0 {
        rest = "   惊动 ".to_owned();
        rest.append(half_points(g.aggro).as_str());
        if g.boss_berserk {
            rest.append(" 狂暴!");
        } else {
            assert(rest@ =~= rest@ + note_if(false, " 狂暴!"@));
        }
    }
    r.append(rest.as_str());
    r
}

/// Numbers together.
pub open spec fn sum(numbers: Seq<int>) -> int
    decreases numbers.len(),
{
    if numbers.len() == 0 {
        0
    } else {
        sum(numbers.drop_last()) + numbers.last()
    }
}

/// The dungeon of a table on a server: the sum of its threats.
pub open spec fn remote_dungeon_caption(v: GameViewModel) -> Seq<char> {
    "地牢威胁合计 "@ + dec(sum(v.dungeon_threats) as nat) + "   惊动 "@ + halves(v.aggro)
        + note_if(v.boss_berserk, "  狂暴!"@)
}

/// The text on the dungeon of a table on a server; none if the sum of its threats is too large.
pub fn mp_dungeon_text(view: &GameView) -> (r: Option<String>)
    ensures
        match r {
            Some(text) => sum(view@.dungeon_threats) <= u32::MAX && text@
                == remote_dungeon_caption(view@),
            None => sum(view@.dungeon_threats) > u32::MAX,
        },
{
    let ghost all = view@.dungeon_threats;
    let mut total: u32 = 0;
    let mut i: usize = 0;
    while i < view.dungeon_threats.len()
        invariant
            i <= view.dungeon_threats@.len(),
            all == view@.dungeon_threats,
            all.len() == view.dungeon_threats@.len(),
            total == sum(all.take(i as int)),
        decreases view.dungeon_threats@.len() - i,
    {
        assert(all.take(i + 1).drop_last() =~= all.take(i as int));
        assert(all[i as int] == view.dungeon_threats@[i as int]);
        let t: u32 = view.dungeon_threats[i];
        if total > u32::MAX - t {
            proof {
                lemma_sum_grows(all, i + 1);
            }
            return None;
        }
        total = total + t;
        i = i + 1;
    }
    assert(all.take(i as int) =~= all);
    let mut r = "地牢威胁合计 ".to_owned();
    r.append(decimal(total as u64).as_str());
    r.append("   惊动 ");
    r.append(half_points(view.aggro).as_str());
    if view.boss_berserk {
        r.append("  狂暴!");
    } else {
        assert(r@ =~= r@ + note_if(false, "  狂暴!"@));
    }
    Some(r)
}

proof fn lemma_sum_grows(numbers: Seq<int>, k: int)
    requires
        0 <= k <= numbers.len(),
        forall|i: int| 0 <= i < numbers.len() ==> 0 <= #[trigger] numbers[i],
    ensures
        sum(numbers.take(k)) <= sum(numbers),
    decreases numbers.len(),
{
    if k == numbers.len() {
        assert(numbers.take(k) =~= numbers);
    } else {
        let rest = numbers.drop_last();
        assert forall|i: int| 0 <= i < rest.len() implies 0 <= #[trigger] rest[i] by {
            assert(rest[i] == numbers[i]);
        }
        lemma_sum_grows(rest, k);
        assert(rest.take(k) =~= numbers.take(k));
        assert(numbers[numbers.len() - 1] >= 0);
    }
}

// ---- The accounts ----

/// How far a seat is above or below its first buy-in.
pub open spec fn tide(profit: int) -> Seq<char> {
    if profit > 0 {
        "+"@ + signed(profit) + " 水上"@
    } else if profit < 0 {
        signed(profit) + " 水下"@
    } else {
        "持平"@
    }
}

fn tide_text(profit: i64) -> (r: String)
    requires
        profit > i64::MIN,
    ensures
        r@ == tide(profit as int),
{
    if profit > 0 {
        let mut r = "+".to_owned();
        r.append(signed_decimal(profit).as_str());
        r.append(" 水上");
        r
    } else if profit < 0 {
        let mut r = signed_decimal(profit);
        r.append(" 水下");
        r
    } else {
        "持平".to_owned()
    }
}

/// The line of a seat at a rank.
pub open spec fn account_line(rank: int, s: SeatModel) -> Seq<char> {
    dec(rank as nat) + ". "@ + filled_behind(s.name, 12) + "  "@ + filled_before(
        dec(s.chips as nat),
        6,
    ) + "   "@ + filled_before(dec(s.debt as nat), 5) + "   "@ + filled_before(
        signed(s.worth()),
        6,
    ) + "   "@ + tide(s.worth() - BUY_IN) + "\n"@
}

/// The lines of the first `n` ranks.
pub open spec fn account_lines(m: MatchModel, order: Seq<usize>, n: int) -> Seq<char>
    decreases n,
{
    if n <= 0 {
        Seq::empty()
    } else {
        account_lines(m, order, n - 1) + account_line(n, m.seats[order[n - 1] as int])
    }
}

fn account_text(rank: usize, s: &Seat) -> (r: String)
    ensures
        r@ == account_line(rank as int, s@),
{
    let mut r = count_text(rank);
    r.append(". ");
    r.append(pad_behind(s.name.as_str(), 12).as_str());
    r.append("  ");
    r.append(pad_before(decimal(s.chips as u64).as_str(), 6).as_str());
    r.append("   ");
    r.append(pad_before(decimal(s.debt as u64).as_str(), 5).as_str());
    r.append("   ");
    r.append(pad_before(signed_decimal(s.net_worth()).as_str(), 6).as_str());
    r.append("   ");
    r.append(tide_text(s.profit()).as_str());
    r.append("\n");
    r
}

/// The accounts of all seats, from the richest to the poorest.
pub fn ledger_body(m: &Match) -> (r: String)
    ensures
        exists|order: Seq<usize>|
            m@.is_ranking(order) && r@ == "  名字            筹码     负债   净身价    水位\n"@
                + #[trigger] account_lines(m@, order, order.len() as int),
{
    let order = m.ranking();
    let mut lines = String::new();
    let mut i: usize = 0;
    while i < order.len()
        invariant
            i <= order@.len(),
            m@.is_ranking(order@),
            lines@ == account_lines(m@, order@, i as int),
        decreases order@.len() - i,
    {
        let k: usize = order[i];
        assert(m@.seats[k as int] == m.seats@[k as int]@);
        i = i + 1;
        lines.append(account_text(i, &m.seats[k]).as_str());
    }
    let mut r = "  名字            筹码     负债   净身价    水位\n".to_owned();
    r.append(lines.as_str());
    assert(r@ == "  名字            筹码     负债   净身价    水位\n"@ + account_lines(
        m@,
        order@,
        order@.len() as int,
    ));
    r
}

} // verus!
