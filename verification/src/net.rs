//! What clients and the server say to each other.
//!
//! Plain data. A client asks with a `ClientMsg` and the server answers with `ServerMsg`s. The
//! state of a table travels as a `GameView` that is cut to what its receiver may see.
use crate::game::{Action, Phase, Settlement};
use crate::game_model::SettlementModel;
use crate::player::PlayerStatus;
use crate::table::outcome_model;
use vstd::prelude::*;

verus! {

/// The protocol that both ends have to speak ("RIVEBORN").
pub const PROTOCOL_ID: u64 = 0x5249_5645_424F_524E;

/// The UDP port that a server listens on unless told otherwise.
pub const DEFAULT_PORT: u16 = 7777;

/// The name of a client on the server.
pub type PlayerId = u64;

/// From a client to the server.
#[derive(Clone, Debug, PartialEq)]
pub enum ClientMsg {
    /// The first message: the player's name.
    Hello { name: String },
    /// Opens a room of up to `max_players`; `fill_ai` fills the seats that stay empty.
    CreateRoom { room_name: String, max_players: usize, fill_ai: bool },
    /// Asks for the rooms that can be joined.
    ListRooms,
    /// Joins the room with the given code.
    JoinRoom { code: String },
    /// Leaves the room.
    LeaveRoom,
    /// The host starts the game.
    StartGame,
    /// An action at the table.
    Act { action: Action },
    /// The three community cards that the player takes at showdown.
    SelectCards { picks: [usize; 3] },
    /// Borrows a buy-in.
    Borrow,
    /// The host goes on to the next hand.
    NextHand,
}

/// From the server to a client.
#[derive(Clone, Debug)]
pub enum ServerMsg {
    /// The connection stands; this is your name.
    Welcome { your_id: PlayerId },
    /// The rooms that can be joined.
    RoomList { rooms: Vec<RoomInfo> },
    /// You are in this room now.
    Joined { room: RoomState },
    /// Your room has changed.
    RoomUpdate { room: RoomState },
    /// You are in no room any more.
    Left,
    /// What you asked for was refused.
    Error { text: String },
    /// The game in your room begins.
    GameStarting,
    /// The table as you may see it.
    View { view: GameView },
    /// The game in your room is over.
    GameEnded,
}

/// A card as a client shows it: a picture and a short note.
#[derive(Clone, Debug, PartialEq)]
pub struct CardView {
    pub art: String,
    pub label: String,
}

/// A seat as every client sees it.
#[derive(Clone, Debug, PartialEq)]
pub struct SeatView {
    pub name: String,
    pub chips: u32,
    pub debt: u32,
    pub committed: u32,
    pub status: PlayerStatus,
    pub is_turn: bool,
    pub is_ai: bool,
    pub in_hand: bool,
}

/// A table as one client may see it.
#[derive(Clone, Debug)]
pub struct GameView {
    pub hand_no: u32,
    pub scene_label: String,
    pub scene_art: String,
    pub phase: Phase,
    pub pot: u32,
    pub current_bet: u32,
    pub ante: u32,
    /// In half points.
    pub aggro: u32,
    pub boss_berserk: bool,
    /// Your seat; none for a spectator.
    pub you_seat: Option<usize>,
    /// The seat whose turn it is; none once betting is over.
    pub to_act_seat: Option<usize>,
    pub seats: Vec<SeatView>,
    pub community: Vec<CardView>,
    pub dungeon: Vec<CardView>,
    /// The threat of each node, with aggro and rage.
    pub dungeon_threats: Vec<u32>,
    /// Your own two hole cards.
    pub your_hole: Option<[CardView; 2]>,
    /// The hole cards that lie open, seat by seat.
    pub revealed_holes: Vec<Option<[CardView; 2]>>,
    /// The outcome of the hand, once it is settled.
    pub result: Option<Settlement>,
    /// You have to pick three community cards now.
    pub need_select: bool,
    /// You are the host and can go on to the next hand.
    pub can_next: bool,
    /// You are short of chips and can borrow.
    pub low_chips: bool,
}

/// A line of the room list.
#[derive(Clone, Debug, PartialEq)]
pub struct RoomInfo {
    pub code: String,
    pub name: String,
    pub players: usize,
    pub max_players: usize,
    pub in_game: bool,
}

/// A room as its members see it.
#[derive(Clone, Debug, PartialEq)]
pub struct RoomState {
    pub code: String,
    pub name: String,
    pub max_players: usize,
    pub fill_ai: bool,
    pub host: PlayerId,
    pub players: Vec<LobbyPlayer>,
    pub in_game: bool,
}

/// A member of a room.
#[derive(Clone, Debug, PartialEq)]
pub struct LobbyPlayer {
    pub id: PlayerId,
    pub name: String,
}

/// A message on its way to a client.
#[derive(Clone, Debug)]
pub struct Letter {
    pub to: PlayerId,
    pub msg: ServerMsg,
}

// ---- As mathematical values ----

pub struct CardViewModel {
    pub art: Seq<char>,
    pub label: Seq<char>,
}

pub struct SeatViewModel {
    pub name: Seq<char>,
    pub chips: int,
    pub debt: int,
    pub committed: int,
    pub status: PlayerStatus,
    pub is_turn: bool,
    pub is_ai: bool,
    pub in_hand: bool,
}

pub struct GameViewModel {
    pub hand_no: int,
    pub scene_label: Seq<char>,
    pub scene_art: Seq<char>,
    pub phase: Phase,
    pub pot: int,
    pub current_bet: int,
    pub ante: int,
    pub aggro: u32,
    pub boss_berserk: bool,
    pub you_seat: Option<int>,
    pub to_act_seat: Option<int>,
    pub seats: Seq<SeatViewModel>,
    pub community: Seq<CardViewModel>,
    pub dungeon: Seq<CardViewModel>,
    pub dungeon_threats: Seq<int>,
    pub your_hole: Option<Seq<CardViewModel>>,
    pub revealed_holes: Seq<Option<Seq<CardViewModel>>>,
    pub result: Option<SettlementModel>,
    pub need_select: bool,
    pub can_next: bool,
    pub low_chips: bool,
}

pub struct RoomInfoModel {
    pub code: Seq<char>,
    pub name: Seq<char>,
    pub players: int,
    pub max_players: int,
    pub in_game: bool,
}

pub struct RoomStateModel {
    pub code: Seq<char>,
    pub name: Seq<char>,
    pub max_players: int,
    pub fill_ai: bool,
    pub host: u64,
    pub players: Seq<LobbyPlayerModel>,
    pub in_game: bool,
}

pub struct LobbyPlayerModel {
    pub id: u64,
    pub name: Seq<char>,
}

pub enum ServerMsgModel {
    Welcome { your_id: u64 },
    RoomList { rooms: Seq<RoomInfoModel> },
    Joined { room: RoomStateModel },
    RoomUpdate { room: RoomStateModel },
    Left,
    Error { text: Seq<char> },
    GameStarting,
    View { view: GameViewModel },
    GameEnded,
}

pub enum ClientMsgModel {
    Hello { name: Seq<char> },
    CreateRoom { room_name: Seq<char>, max_players: int, fill_ai: bool },
    ListRooms,
    JoinRoom { code: Seq<char> },
    LeaveRoom,
    StartGame,
    Act { action: Action },
    SelectCards { picks: [usize; 3] },
    Borrow,
    NextHand,
}

pub struct LetterModel {
    pub to: u64,
    pub msg: ServerMsgModel,
}

impl View for CardView {
    type V = CardViewModel;

    open spec fn view(&self) -> CardViewModel {
        CardViewModel { art: self.art@, label: self.label@ }
    }
}

impl View for SeatView {
    type V = SeatViewModel;

    open spec fn view(&self) -> SeatViewModel {
        SeatViewModel {
            name: self.name@,
            chips: self.chips as int,
            debt: self.debt as int,
            committed: self.committed as int,
            status: self.status,
            is_turn: self.is_turn,
            is_ai: self.is_ai,
            in_hand: self.in_hand,
        }
    }
}

/// The cards as mathematical values.
pub open spec fn card_models(cards: Seq<CardView>) -> Seq<CardViewModel> {
    cards.map_values(|c: CardView| c@)
}

/// A pair of cards, if there is one, as a mathematical value.
pub open spec fn pair_model(pair: Option<[CardView; 2]>) -> Option<Seq<CardViewModel>> {
    match pair {
        Some(p) => Some(card_models(p@)),
        None => None,
    }
}

/// A seat number, if there is one, as a mathematical value.
pub open spec fn seat_number(seat: Option<usize>) -> Option<int> {
    match seat {
        Some(i) => Some(i as int),
        None => None,
    }
}

impl View for GameView {
    type V = GameViewModel;

    open spec fn view(&self) -> GameViewModel {
        GameViewModel {
            hand_no: self.hand_no as int,
            scene_label: self.scene_label@,
            scene_art: self.scene_art@,
            phase: self.phase,
            pot: self.pot as int,
            current_bet: self.current_bet as int,
            ante: self.ante as int,
            aggro: self.aggro,
            boss_berserk: self.boss_berserk,
            you_seat: seat_number(self.you_seat),
            to_act_seat: seat_number(self.to_act_seat),
            seats: self.seats@.map_values(|s: SeatView| s@),
            community: card_models(self.community@),
            dungeon: card_models(self.dungeon@),
            dungeon_threats: self.dungeon_threats@.map_values(|t: u32| t as int),
            your_hole: pair_model(self.your_hole),
            revealed_holes: self.revealed_holes@.map_values(
                |h: Option<[CardView; 2]>| pair_model(h),
            ),
            result: outcome_model(self.result),
            need_select: self.need_select,
            can_next: self.can_next,
            low_chips: self.low_chips,
        }
    }
}

impl View for RoomInfo {
    type V = RoomInfoModel;

    open spec fn view(&self) -> RoomInfoModel {
        RoomInfoModel {
            code: self.code@,
            name: self.name@,
            players: self.players as int,
            max_players: self.max_players as int,
            in_game: self.in_game,
        }
    }
}

impl View for LobbyPlayer {
    type V = LobbyPlayerModel;

    open spec fn view(&self) -> LobbyPlayerModel {
        LobbyPlayerModel { id: self.id, name: self.name@ }
    }
}

impl View for RoomState {
    type V = RoomStateModel;

    open spec fn view(&self) -> RoomStateModel {
        RoomStateModel {
            code: self.code@,
            name: self.name@,
            max_players: self.max_players as int,
            fill_ai: self.fill_ai,
            host: self.host,
            players: self.players@.map_values(|p: LobbyPlayer| p@),
            in_game: self.in_game,
        }
    }
}

impl View for ClientMsg {
    type V = ClientMsgModel;

    open spec fn view(&self) -> ClientMsgModel {
        match *self {
            ClientMsg::Hello { name } => ClientMsgModel::Hello { name: name@ },
            ClientMsg::CreateRoom { room_name, max_players, fill_ai } =>
                ClientMsgModel::CreateRoom {
                room_name: room_name@,
                max_players: max_players as int,
                fill_ai,
            },
            ClientMsg::ListRooms => ClientMsgModel::ListRooms,
            ClientMsg::JoinRoom { code } => ClientMsgModel::JoinRoom { code: code@ },
            ClientMsg::LeaveRoom => ClientMsgModel::LeaveRoom,
            ClientMsg::StartGame => ClientMsgModel::StartGame,
            ClientMsg::Act { action } => ClientMsgModel::Act { action },
            ClientMsg::SelectCards { picks } => ClientMsgModel::SelectCards { picks },
            ClientMsg::Borrow => ClientMsgModel::Borrow,
            ClientMsg::NextHand => ClientMsgModel::NextHand,
        }
    }
}

/// A request, if there is one, as a mathematical value.
pub open spec fn request_model(msg: Option<ClientMsg>) -> Option<ClientMsgModel> {
    match msg {
        Some(m) => Some(m@),
        None => None,
    }
}

impl View for ServerMsg {
    type V = ServerMsgModel;

    open spec fn view(&self) -> ServerMsgModel {
        match *self {
            ServerMsg::Welcome { your_id } => ServerMsgModel::Welcome { your_id },
            ServerMsg::RoomList { rooms } => ServerMsgModel::RoomList {
                rooms: rooms@.map_values(|r: RoomInfo| r@),
            },
            ServerMsg::Joined { room } => ServerMsgModel::Joined { room: room@ },
            ServerMsg::RoomUpdate { room } => ServerMsgModel::RoomUpdate { room: room@ },
            ServerMsg::Left => ServerMsgModel::Left,
            ServerMsg::Error { text } => ServerMsgModel::Error { text: text@ },
            ServerMsg::GameStarting => ServerMsgModel::GameStarting,
            ServerMsg::View { view } => ServerMsgModel::View { view: view@ },
            ServerMsg::GameEnded => ServerMsgModel::GameEnded,
        }
    }
}

impl View for Letter {
    type V = LetterModel;

    open spec fn view(&self) -> LetterModel {
        LetterModel { to: self.to, msg: self.msg@ }
    }
}

/// Letters as mathematical values, in the order in which they go out.
pub open spec fn letter_models(letters: Seq<Letter>) -> Seq<LetterModel> {
    letters.map_values(|l: Letter| l@)
}

} // verus!
