//! The table as one client may see it: open cards, public numbers, and the client's own hole
//! cards. The hole cards of others show only at showdown.
use crate::cards::{Adventurer, CommunityCard, Monster};
use crate::combat::{node_threat, raw_threat, threat_of, threats_fit};
use crate::game_model::{shortfall, GameModel};
use crate::net::{
    card_models, pair_model, seat_number, CardView, CardViewModel, GameView, GameViewModel,
    SeatView, SeatViewModel,
};
use crate::playable::modest_node;
use crate::player::PlayerModel;
use crate::room::{seat_from, RoomGame, RoomGameModel, LOW_CHIPS};
use crate::table::{outcome_model, MatchModel};
use crate::text::{dec, decimal};
use vstd::prelude::*;

verus! {

/// Two numbers as a card shows them.
pub open spec fn numbers_label(first: Seq<char>, a: nat, b: nat) -> Seq<char> {
    first + dec(a) + "  H"@ + dec(b)
}

/// An adventurer as clients see it.
pub open spec fn adventurer_shown(a: Adventurer) -> CardViewModel {
    CardViewModel {
        art: a.art@,
        label: numbers_label("P"@, a.power as nat, a.health as nat),
    }
}

/// Hole cards as clients see them.
pub open spec fn hole_shown(hole: Seq<Adventurer>) -> Seq<CardViewModel> {
    hole.map_values(|a: Adventurer| adventurer_shown(a))
}

/// A community card as clients see it.
pub open spec fn card_shown(c: CommunityCard) -> CardViewModel {
    CardViewModel {
        art: c.spec_art(),
        label: match c {
            CommunityCard::Unit(a) => numbers_label("P"@, a.power as nat, a.health as nat),
            CommunityCard::Equip(k) => k.spec_tag(),
            CommunityCard::Consum(k) => k.spec_tag(),
        },
    }
}

/// A dungeon node as clients see it, with the threat that it poses.
pub open spec fn node_shown(n: Monster, aggro: u32, berserk: bool) -> CardViewModel {
    CardViewModel {
        art: n.art@,
        label: numbers_label("T"@, threat_of(n, aggro, berserk) as nat, n.health as nat),
    }
}

impl RoomGameModel {
    /// Seat `i` as clients see it.
    pub open spec fn seat_shown(self, i: int) -> SeatViewModel {
        let s = self.mtch.seats[i];
        let p = self.mtch.hand.players[i];
        SeatViewModel {
            name: s.name,
            chips: s.chips,
            debt: s.debt,
            committed: p.committed,
            status: p.status,
            is_turn: !self.mtch.over() && i == self.mtch.hand.to_act,
            is_ai: self.seat_clients[i] is None,
            in_hand: p.in_hand(),
        }
    }

    /// The hole cards of seat `i`, if they lie open.
    pub open spec fn hole_revealed(self, i: int) -> Option<Seq<CardViewModel>> {
        let p = self.mtch.hand.players[i];
        if self.mtch.over() && p.in_hand() {
            Some(hole_shown(p.hole))
        } else {
            None
        }
    }

    /// Seat `i` has to pick community cards.
    pub open spec fn has_to_select(self, i: int) -> bool {
        self.mtch.over() && !self.settled && self.mtch.hand.players[i].in_hand()
            && self.selections[i] is None
    }

    /// Seat `i` is short of chips: below a floor, or below what it has to pay.
    pub open spec fn is_short(self, i: int) -> bool {
        let need = shortfall(
            self.mtch.hand.current_bet,
            self.mtch.hand.players[i].committed,
        );
        self.mtch.seats[i].chips < (if need > LOW_CHIPS {
            need
        } else {
            LOW_CHIPS as int
        })
    }

    /// The lists of the game fit together, and the threats of its dungeon fit their registers.
    pub open spec fn can_be_shown(self) -> bool {
        let m = self.mtch;
        &&& m.hand.players.len() == m.seats.len()
        &&& self.seat_clients.len() == m.seats.len()
        &&& self.selections.len() == m.seats.len()
        &&& threats_fit(m.hand.dungeon, m.hand.aggro, m.hand.boss_berserk)
    }

    /// The table as a client may see it.
    pub open spec fn shown_to(self, client: u64) -> GameViewModel {
        let m = self.mtch;
        let hand = m.hand;
        let you = self.seat_of(client);
        GameViewModel {
            hand_no: m.hand_no,
            scene_label: m.scene.spec_label(),
            scene_art: m.scene.spec_art(),
            phase: hand.phase,
            pot: hand.pot,
            current_bet: hand.current_bet,
            ante: m.ante,
            aggro: hand.aggro,
            boss_berserk: hand.boss_berserk,
            you_seat: you,
            to_act_seat: if m.over() {
                None
            } else {
                Some(hand.to_act)
            },
            seats: Seq::new(m.seats.len(), |i: int| self.seat_shown(i)),
            community: hand.community.map_values(|c: CommunityCard| card_shown(c)),
            dungeon: hand.dungeon.map_values(
                |n: Monster| node_shown(n, hand.aggro, hand.boss_berserk),
            ),
            dungeon_threats: hand.dungeon.map_values(
                |n: Monster| threat_of(n, hand.aggro, hand.boss_berserk),
            ),
            your_hole: match you {
                Some(i) => Some(hole_shown(hand.players[i].hole)),
                None => None,
            },
            revealed_holes: Seq::new(m.seats.len(), |i: int| self.hole_revealed(i)),
            result: m.last,
            need_select: match you {
                Some(i) => self.has_to_select(i),
                None => false,
            },
            can_next: m.over() && self.settled && client == self.host,
            low_chips: match you {
                Some(i) => self.is_short(i),
                None => false,
            },
        }
    }
}

pub(crate) fn numbers(first: &str, a: u32, b: u32) -> (r: String)
    ensures
        r@ == numbers_label(first@, a as nat, b as nat),
{
    let mut r = first.to_owned();
    r.append(decimal(a as u64).as_str());
    r.append("  H");
    r.append(decimal(b as u64).as_str());
    r
}

pub fn adv_view(a: &Adventurer) -> (r: CardView)
    ensures
        r@ == adventurer_shown(*a),
{
    CardView { art: a.art.to_owned(), label: numbers("P", a.power, a.health) }
}

pub fn adv_pair_view(hole: &[Adventurer; 2]) -> (r: [CardView; 2])
    ensures
        card_models(r@) == hole_shown(hole@),
{
    let r = [adv_view(&hole[0]), adv_view(&hole[1])];
    assert(card_models(r@) =~= hole_shown(hole@));
    r
}

pub fn community_card_view(c: &CommunityCard) -> (r: CardView)
    ensures
        r@ == card_shown(*c),
{
    let label = match c {
        CommunityCard::Unit(a) => numbers("P", a.power, a.health),
        CommunityCard::Equip(k) => k.tag(),
        CommunityCard::Consum(k) => k.tag().to_owned(),
    };
    CardView { art: c.art().to_owned(), label }
}

/// The seat that a client sits in.
pub fn seat_position(seats: &Vec<Option<u64>>, client: u64) -> (r: Option<usize>)
    ensures
        seat_number(r) == seat_from(seats@, client, 0),
        match r {
            Some(i) => i < seats@.len() && seats@[i as int] == Some(client),
            None => forall|i: int| 0 <= i < seats@.len() ==> seats@[i] != Some(client),
        },
{
    let mut i: usize = 0;
    while i < seats.len()
        invariant
            i <= seats@.len(),
            seat_from(seats@, client, 0) == seat_from(seats@, client, i as int),
            forall|j: int| 0 <= j < i ==> seats@[j] != Some(client),
        decreases seats@.len() - i,
    {
        if let Some(c) = seats[i] {
            if c == client {
                return Some(i);
            }
        }
        i = i + 1;
    }
    None
}

fn seat_views(g: &RoomGame) -> (r: Vec<SeatView>)
    requires
        g@.can_be_shown(),
    ensures
        r@.map_values(|s: SeatView| s@) == Seq::new(
            g@.mtch.seats.len(),
            |i: int| g@.seat_shown(i),
        ),
{
    let mut seats: Vec<SeatView> = Vec::new();
    let over = g.mtch.hand_over();
    let mut i: usize = 0;
    while i < g.mtch.seats.len()
        invariant
            i <= g.mtch.seats@.len(),
            over == g@.mtch.over(),
            g@.can_be_shown(),
            seats@.len() == i,
            forall|j: int| 0 <= j < i ==> (#[trigger] seats@[j])@ == g@.seat_shown(j),
        decreases g.mtch.seats@.len() - i,
    {
        let s = &g.mtch.seats[i];
        let p = &g.mtch.hand.players[i];
        assert(g@.mtch.seats[i as int] == s@);
        assert(g@.mtch.hand.players[i as int] == p@);
        seats.push(
            SeatView {
                name: s.name.clone(),
                chips: s.chips,
                debt: s.debt,
                committed: p.committed,
                status: p.status,
                is_turn: !over && i == g.mtch.hand.to_act,
                is_ai: g.seat_clients[i].is_none(),
                in_hand: p.is_in_hand(),
            },
        );
        i = i + 1;
    }
    assert(seats@.map_values(|s: SeatView| s@) =~= Seq::new(
        g@.mtch.seats.len(),
        |i: int| g@.seat_shown(i),
    ));
    seats
}

fn community_views(cards: &Vec<CommunityCard>) -> (r: Vec<CardView>)
    ensures
        card_models(r@) == cards@.map_values(|c: CommunityCard| card_shown(c)),
{
    let mut r: Vec<CardView> = Vec::new();
    let mut i: usize = 0;
    while i < cards.len()
        invariant
            i <= cards@.len(),
            r@.len() == i,
            forall|j: int| 0 <= j < i ==> (#[trigger] r@[j])@ == card_shown(cards@[j]),
        decreases cards@.len() - i,
    {
        r.push(community_card_view(&cards[i]));
        i = i + 1;
    }
    assert(card_models(r@) =~= cards@.map_values(|c: CommunityCard| card_shown(c)));
    r
}

fn threats(nodes: &Vec<Monster>, aggro: u32, berserk: bool) -> (r: Vec<u32>)
    requires
        threats_fit(nodes@, aggro, berserk),
    ensures
        r@.len() == nodes@.len(),
        forall|i: int|
            0 <= i < nodes@.len() ==> #[trigger] r@[i] == threat_of(nodes@[i], aggro, berserk),
{
    let mut r: Vec<u32> = Vec::new();
    let mut i: usize = 0;
    while i < nodes.len()
        invariant
            i <= nodes@.len(),
            threats_fit(nodes@, aggro, berserk),
            r@.len() == i,
            forall|j: int|
                0 <= j < i ==> #[trigger] r@[j] == threat_of(nodes@[j], aggro, berserk),
        decreases nodes@.len() - i,
    {
        r.push(node_threat(&nodes[i], aggro, berserk));
        i = i + 1;
    }
    r
}

fn node_views(nodes: &Vec<Monster>, threats: &Vec<u32>, aggro: u32, berserk: bool) -> (r: Vec<
    CardView,
>)
    requires
        threats@.len() == nodes@.len(),
        forall|i: int|
            0 <= i < nodes@.len() ==> #[trigger] threats@[i] == threat_of(
                nodes@[i],
                aggro,
                berserk,
            ),
    ensures
        card_models(r@) == nodes@.map_values(|n: Monster| node_shown(n, aggro, berserk)),
{
    let mut r: Vec<CardView> = Vec::new();
    let mut i: usize = 0;
    while i < nodes.len()
        invariant
            i <= nodes@.len(),
            threats@.len() == nodes@.len(),
            forall|i: int|
                0 <= i < nodes@.len() ==> #[trigger] threats@[i] == threat_of(
                    nodes@[i],
                    aggro,
                    berserk,
                ),
            r@.len() == i,
            forall|j: int| 0 <= j < i ==> (#[trigger] r@[j])@ == node_shown(nodes@[j], aggro, berserk),
        decreases nodes@.len() - i,
    {
        let n = &nodes[i];
        r.push(CardView { art: n.art.to_owned(), label: numbers("T", threats[i], n.health) });
        i = i + 1;
    }
    assert(card_models(r@) =~= nodes@.map_values(|n: Monster| node_shown(n, aggro, berserk)));
    r
}

fn revealed(g: &RoomGame) -> (r: Vec<Option<[CardView; 2]>>)
    requires
        g@.can_be_shown(),
    ensures
        r@.map_values(|h: Option<[CardView; 2]>| pair_model(h)) == Seq::new(
            g@.mtch.seats.len(),
            |i: int| g@.hole_revealed(i),
        ),
{
    let mut holes: Vec<Option<[CardView; 2]>> = Vec::new();
    let over = g.mtch.hand_over();
    let mut i: usize = 0;
    while i < g.mtch.seats.len()
        invariant
            i <= g.mtch.seats@.len(),
            over == g@.mtch.over(),
            g@.can_be_shown(),
            holes@.len() == i,
            forall|j: int| 0 <= j < i ==> pair_model(#[trigger] holes@[j]) == g@.hole_revealed(j),
        decreases g.mtch.seats@.len() - i,
    {
        let p = &g.mtch.hand.players[i];
        assert(g@.mtch.hand.players[i as int] == p@);
        if over && p.is_in_hand() {
            holes.push(Some(adv_pair_view(&p.hole)));
        } else {
            holes.push(None);
        }
        i = i + 1;
    }
    assert(holes@.map_values(|h: Option<[CardView; 2]>| pair_model(h)) =~= Seq::new(
        g@.mtch.seats.len(),
        |i: int| g@.hole_revealed(i),
    ));
    holes
}

fn last_outcome(last: &Option<crate::game::Settlement>) -> (r: Option<crate::game::Settlement>)
    ensures
        outcome_model(r) == outcome_model(*last),
{
    match last {
        Some(s) => Some(s.clone()),
        None => None,
    }
}

/// The table of a game in order can be shown.
pub proof fn games_in_order_can_be_shown(g: RoomGameModel)
    requires
        g.wf(),
    ensures
        g.can_be_shown(),
{
    let hand = g.mtch.hand;
    assert forall|i: int| 0 <= i < hand.dungeon.len() implies raw_threat(
        #[trigger] hand.dungeon[i],
        hand.aggro,
        hand.boss_berserk,
    ) <= i32::MAX by {
        assert(modest_node(hand.dungeon[i]));
    }
}

/// Builds the view of the table for one client.
pub fn build_view(g: &RoomGame, client: u64) -> (r: GameView)
    requires
        g@.can_be_shown(),
    ensures
        r@ == g@.shown_to(client),
{
    let m = &g.mtch;
    let hand = &m.hand;
    let over = m.hand_over();
    let you_seat = seat_position(&g.seat_clients, client);
    let seats = seat_views(g);
    let community = community_views(&hand.community);
    let dungeon_threats = threats(&hand.dungeon, hand.aggro, hand.boss_berserk);
    let dungeon = node_views(&hand.dungeon, &dungeon_threats, hand.aggro, hand.boss_berserk);
    let revealed_holes = revealed(g);
    let mut your_hole: Option<[CardView; 2]> = None;
    let mut need_select = false;
    let mut low_chips = false;
    if let Some(i) = you_seat {
        let p = &hand.players[i];
        assert(g@.mtch.hand.players[i as int] == p@);
        assert(g@.mtch.seats[i as int] == m.seats@[i as int]@);
        your_hole = Some(adv_pair_view(&p.hole));
        need_select = over && !g.settled && p.is_in_hand() && g.selections[i].is_none();
        let need: u32 = hand.current_bet.saturating_sub(p.committed);
        let floor: u32 = if need > LOW_CHIPS {
            need
        } else {
            LOW_CHIPS
        };
        low_chips = m.seats[i].chips < floor;
    }
    let to_act_seat = if over {
        None
    } else {
        Some(hand.to_act)
    };
    let view = GameView {
        hand_no: m.hand_no,
        scene_label: m.scene.label().to_owned(),
        scene_art: m.scene.art().to_owned(),
        phase: hand.phase,
        pot: hand.pot,
        current_bet: hand.current_bet,
        ante: m.ante,
        aggro: hand.aggro,
        boss_berserk: hand.boss_berserk,
        you_seat,
        to_act_seat,
        seats,
        community,
        dungeon,
        dungeon_threats,
        your_hole,
        revealed_holes,
        result: last_outcome(&m.last),
        need_select,
        can_next: over && g.settled && client == g.host,
        low_chips,
    };
    assert(view@.dungeon_threats =~= g@.shown_to(client).dungeon_threats);
    view
}

// ---- What a view gives away ----

/// Two games look the same from outside: everything but hole cards, picks, decks and the generator
/// is equal, and so are the hole cards and the picks of one seat.
pub open spec fn alike_but_for_secrets(a: RoomGameModel, b: RoomGameModel, seat: Option<int>) -> bool {
    let ha = a.mtch.hand;
    let hb = b.mtch.hand;
    &&& ha.players.len() == hb.players.len()
    &&& forall|i: int|
        0 <= i < ha.players.len() ==> (PlayerModel {
            hole: (#[trigger] hb.players[i]).hole,
            ..ha.players[i]
        }) == hb.players[i]
    &&& match seat {
        Some(i) => ha.players[i].hole == hb.players[i].hole && a.selections[i] == b.selections[i],
        None => true,
    }
    &&& b == (RoomGameModel {
        mtch: MatchModel {
            hand: GameModel {
                players: hb.players,
                community_deck: hb.community_deck,
                small_deck: hb.small_deck,
                elite_deck: hb.elite_deck,
                boss_deck: hb.boss_deck,
                ..ha
            },
            state: b.mtch.state,
            deck: b.mtch.deck,
            ..a.mtch
        },
        selections: b.selections,
        ..a
    })
}

/// Until the showdown a view gives away nothing of other players' hole cards and picks, of the
/// decks and of what will be drawn: games that differ in nothing else look the same.
pub proof fn views_keep_secrets(a: RoomGameModel, b: RoomGameModel, client: u64)
    requires
        a.mtch.seats.len() == a.mtch.hand.players.len(),
        a.seat_clients.len() == a.mtch.seats.len(),
        !a.mtch.over(),
        alike_but_for_secrets(a, b, a.seat_of(client)),
    ensures
        a.shown_to(client) == b.shown_to(client),
{
    let va = a.shown_to(client);
    let vb = b.shown_to(client);
    assert forall|i: int| 0 <= i < a.mtch.seats.len() implies a.seat_shown(i) == b.seat_shown(i)
        && a.hole_revealed(i) == b.hole_revealed(i) by {
        assert(b.mtch.hand.players[i].committed == a.mtch.hand.players[i].committed);
    }
    assert(va.seats =~= vb.seats);
    assert(va.revealed_holes =~= vb.revealed_holes);
    lemma_seat_in_range(a.seat_clients, client, 0);
    if let Some(i) = a.seat_of(client) {
        assert(b.mtch.hand.players[i].committed == a.mtch.hand.players[i].committed);
    }
}

/// At no time does a view give away what other players have picked.
pub proof fn views_keep_picks(g: RoomGameModel, selections: Seq<Option<[usize; 3]>>, client: u64)
    requires
        match g.seat_of(client) {
            Some(i) => g.selections[i] == selections[i],
            None => true,
        },
    ensures
        g.shown_to(client) == (RoomGameModel { selections, ..g }).shown_to(client),
{
    let other = RoomGameModel { selections, ..g };
    assert(g.shown_to(client).seats =~= other.shown_to(client).seats);
    assert(g.shown_to(client).revealed_holes =~= other.shown_to(client).revealed_holes);
}

proof fn lemma_seat_in_range(seats: Seq<Option<u64>>, client: u64, from: int)
    requires
        0 <= from,
    ensures
        match seat_from(seats, client, from) {
            Some(i) => from <= i < seats.len() && seats[i] == Some(client),
            None => true,
        },
    decreases seats.len() - from,
{
    if from < seats.len() {
        lemma_seat_in_range(seats, client, from + 1);
    }
}

/// Until the showdown nobody's hole cards lie open; from then on those of all who stayed in do.
pub proof fn holes_open_at_showdown(g: RoomGameModel, client: u64, i: int)
    requires
        0 <= i < g.mtch.seats.len(),
    ensures
        g.shown_to(client).revealed_holes[i] == (if g.mtch.over()
            && g.mtch.hand.players[i].in_hand() {
            Some(hole_shown(g.mtch.hand.players[i].hole))
        } else {
            None
        }),
{
}

} // verus!
