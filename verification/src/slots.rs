//! What lies in each place of the table: a card's picture, its note, and its frame.
use crate::net::{card_models, pair_model, CardView, CardViewModel, GameView, GameViewModel};
use crate::table::{Match, MatchModel};
use crate::table_view::{
    adv_view, adventurer_shown, card_shown, community_card_view, numbers, numbers_label,
};
use vstd::prelude::*;

verus! {

/// The frame of a place.
#[derive(Debug, Clone, Copy, PartialEq, Eq, Structural)]
pub enum Frame {
    /// Empty, or not turned up yet.
    Dim,
    /// A community card.
    Gold,
    /// A dungeon node.
    Red,
    /// A hole card.
    Hole,
    /// A hole card of the seat whose turn it is.
    Active,
}

/// What lies in a place.
pub struct SlotFace {
    /// The file of the picture; none for the back of a card.
    pub picture: Option<String>,
    pub label: String,
    pub frame: Frame,
}

/// What lies in a place, as a mathematical value.
pub struct SlotModel {
    pub picture: Option<Seq<char>>,
    pub label: Seq<char>,
    pub frame: Frame,
}

impl View for SlotFace {
    type V = SlotModel;

    open spec fn view(&self) -> SlotModel {
        SlotModel {
            picture: match self.picture {
                Some(p) => Some(p@),
                None => None,
            },
            label: self.label@,
            frame: self.frame,
        }
    }
}

/// The two kinds of card pictures.
#[derive(Debug, Clone, Copy, PartialEq, Eq, Structural)]
pub enum Folder {
    Community,
    Dungeon,
}

/// The file of a card's picture.
pub open spec fn card_path(folder: Folder, art: Seq<char>) -> Seq<char> {
    (match folder {
        Folder::Community => "cards/community/"@,
        Folder::Dungeon => "cards/dungeon/"@,
    }) + art + ".png"@
}

/// A card that lies open.
pub open spec fn open_card(folder: Folder, card: CardViewModel, frame: Frame) -> SlotModel {
    SlotModel { picture: Some(card_path(folder, card.art)), label: card.label, frame }
}

/// The back of a card.
pub open spec fn card_back(frame: Frame) -> SlotModel {
    SlotModel { picture: None, label: Seq::empty(), frame }
}

fn card_file(folder: Folder, art: &str) -> (r: String)
    ensures
        r@ == card_path(folder, art@),
{
    let mut r = match folder {
        Folder::Community => "cards/community/".to_owned(),
        Folder::Dungeon => "cards/dungeon/".to_owned(),
    };
    r.append(art);
    r.append(".png");
    r
}

fn face_up(folder: Folder, art: &str, label: String, frame: Frame) -> (r: SlotFace)
    ensures
        r@ == open_card(folder, (CardViewModel { art: art@, label: label@ }), frame),
{
    SlotFace { picture: Some(card_file(folder, art)), label, frame }
}

fn face_down(frame: Frame) -> (r: SlotFace)
    ensures
        r@ == card_back(frame),
{
    SlotFace { picture: None, label: String::new(), frame }
}

// ---- A local match ----

/// Place `i` of the community cards.
pub open spec fn local_community(m: MatchModel, i: int) -> SlotModel {
    if i < m.hand.community.len() {
        open_card(Folder::Community, card_shown(m.hand.community[i]), Frame::Gold)
    } else {
        card_back(Frame::Dim)
    }
}

pub fn community_slot(m: &Match, i: usize) -> (r: SlotFace)
    ensures
        r@ == local_community(m@, i as int),
{
    if i < m.hand.community.len() {
        let v = community_card_view(&m.hand.community[i]);
        face_up(Folder::Community, v.art.as_str(), v.label, Frame::Gold)
    } else {
        face_down(Frame::Dim)
    }
}

/// Place `i` of the dungeon. The note shows the threat that is printed on the card.
pub open spec fn local_dungeon(m: MatchModel, i: int) -> SlotModel {
    if i < m.hand.dungeon.len() {
        let node = m.hand.dungeon[i];
        open_card(
            Folder::Dungeon,
            CardViewModel {
                art: node.art@,
                label: numbers_label("T"@, node.threat as nat, node.health as nat),
            },
            Frame::Red,
        )
    } else {
        card_back(Frame::Dim)
    }
}

pub fn dungeon_slot(m: &Match, i: usize) -> (r: SlotFace)
    ensures
        r@ == local_dungeon(m@, i as int),
{
    if i < m.hand.dungeon.len() {
        let node = &m.hand.dungeon[i];
        let label = numbers("T", node.threat, node.health);
        face_up(Folder::Dungeon, node.art, label, Frame::Red)
    } else {
        face_down(Frame::Dim)
    }
}

/// Hole card `idx` of a seat. The machine's cards show only at showdown.
pub open spec fn local_hole(m: MatchModel, seat: int, idx: int) -> SlotModel {
    if seat < m.hand.players.len() {
        let p = m.hand.players[seat];
        let frame = if seat == m.hand.to_act && !m.over() {
            Frame::Active
        } else {
            Frame::Hole
        };
        if !p.is_ai || m.over() {
            open_card(Folder::Community, adventurer_shown(p.hole[idx]), frame)
        } else {
            card_back(frame)
        }
    } else {
        card_back(Frame::Dim)
    }
}

pub fn hole_slot(m: &Match, seat: usize, idx: usize) -> (r: SlotFace)
    requires
        idx < 2,
    ensures
        r@ == local_hole(m@, seat as int, idx as int),
{
    if seat < m.hand.players.len() {
        let p = &m.hand.players[seat];
        assert(m@.hand.players[seat as int] == p@);
        let over = m.hand_over();
        let frame = if seat == m.hand.to_act && !over {
            Frame::Active
        } else {
            Frame::Hole
        };
        if !p.is_ai || over {
            let v = adv_view(&p.hole[idx]);
            face_up(Folder::Community, v.art.as_str(), v.label, frame)
        } else {
            face_down(frame)
        }
    } else {
        face_down(Frame::Dim)
    }
}

// ---- A table on a server ----

/// Place `i` of the community cards.
pub open spec fn remote_community(v: GameViewModel, i: int) -> SlotModel {
    if i < v.community.len() {
        open_card(Folder::Community, v.community[i], Frame::Gold)
    } else {
        card_back(Frame::Dim)
    }
}

pub fn mp_community_slot(view: &GameView, i: usize) -> (r: SlotFace)
    ensures
        r@ == remote_community(view@, i as int),
{
    if i < view.community.len() {
        let c = &view.community[i];
        assert(view@.community[i as int] == c@);
        face_up(Folder::Community, c.art.as_str(), c.label.clone(), Frame::Gold)
    } else {
        face_down(Frame::Dim)
    }
}

/// Place `i` of the dungeon.
pub open spec fn remote_dungeon(v: GameViewModel, i: int) -> SlotModel {
    if i < v.dungeon.len() {
        open_card(Folder::Dungeon, v.dungeon[i], Frame::Red)
    } else {
        card_back(Frame::Dim)
    }
}

pub fn mp_dungeon_slot(view: &GameView, i: usize) -> (r: SlotFace)
    ensures
        r@ == remote_dungeon(view@, i as int),
{
    if i < view.dungeon.len() {
        let c = &view.dungeon[i];
        assert(view@.dungeon[i as int] == c@);
        face_up(Folder::Dungeon, c.art.as_str(), c.label.clone(), Frame::Red)
    } else {
        face_down(Frame::Dim)
    }
}

/// The hole cards that a viewer can see at a seat.
pub open spec fn visible_hole(v: GameViewModel, seat: int) -> Option<Seq<CardViewModel>> {
    if v.you_seat == Some(seat) {
        v.your_hole
    } else if seat < v.revealed_holes.len() {
        v.revealed_holes[seat]
    } else {
        None
    }
}

/// Hole card `idx` of a seat.
pub open spec fn remote_hole(v: GameViewModel, seat: int, idx: int) -> SlotModel {
    let frame = if seat < v.seats.len() && v.seats[seat].is_turn {
        Frame::Active
    } else {
        Frame::Hole
    };
    match visible_hole(v, seat) {
        Some(hole) => open_card(Folder::Community, hole[idx], frame),
        None => card_back(frame),
    }
}

fn hole_card(pair: &Option<[CardView; 2]>, idx: usize, frame: Frame) -> (r: SlotFace)
    requires
        idx < 2,
    ensures
        r@ == (match pair_model(*pair) {
            Some(hole) => open_card(Folder::Community, hole[idx as int], frame),
            None => card_back(frame),
        }),
{
    match pair {
        Some(hole) => {
            let c = &hole[idx];
            assert(card_models(hole@)[idx as int] == c@);
            face_up(Folder::Community, c.art.as_str(), c.label.clone(), frame)
        },
        None => face_down(frame),
    }
}

pub fn mp_hole_slot(view: &GameView, seat: usize, idx: usize) -> (r: SlotFace)
    requires
        idx < 2,
    ensures
        r@ == remote_hole(view@, seat as int, idx as int),
{
    let turn = if seat < view.seats.len() {
        assert(view@.seats[seat as int] == view.seats@[seat as int]@);
        view.seats[seat].is_turn
    } else {
        false
    };
    let frame = if turn {
        Frame::Active
    } else {
        Frame::Hole
    };
    let mine = match view.you_seat {
        Some(you) => you == seat,
        None => false,
    };
    if mine {
        hole_card(&view.your_hole, idx, frame)
    } else if seat < view.revealed_holes.len() {
        assert(view@.revealed_holes[seat as int] == pair_model(view.revealed_holes@[seat as int]));
        hole_card(&view.revealed_holes[seat], idx, frame)
    } else {
        face_down(frame)
    }
}

/// Until the showdown the machine's hole cards lie face down.
pub proof fn the_machine_hides_its_cards(m: MatchModel, seat: int, idx: int)
    requires
        0 <= seat < m.hand.players.len(),
        m.hand.players[seat].is_ai,
        !m.over(),
    ensures
        local_hole(m, seat, idx).picture is None,
        local_hole(m, seat, idx).label == Seq::<char>::empty(),
{
}

/// How many cards and nodes lie open, to tell when another has been turned up.
pub struct RevealCount {
    pub seen: usize,
}

impl RevealCount {
    /// Takes down how many lie open now. Tells whether there are more than before.
    pub fn note(&mut self, open: usize) -> (r: bool)
        ensures
            r == (open > old(self).seen),
            final(self).seen == open,
    {
        let more = open > self.seen;
        self.seen = open;
        more
    }
}

} // verus!
