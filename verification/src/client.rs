//! A client of a server: what it knows, what it asks for, and which screen it shows.
use crate::captions::{lobby_caption, lobby_text, rooms_caption, rooms_text};
use crate::lobby::typed_code;
use crate::net::{
    request_model, ClientMsg, ClientMsgModel, GameView, GameViewModel, RoomInfo, RoomInfoModel,
    RoomState, RoomStateModel, ServerMsg, ServerMsgModel,
};
use crate::text::{is_control_code, letters, trim, trimmed, uppercase};
use vstd::prelude::*;

verus! {

/// The most characters of a name that can be typed.
pub const NAME_LIMIT: usize = 16;

/// The most characters of a room code that can be typed.
pub const CODE_LIMIT: usize = 8;

/// The screens of a client.
#[derive(Debug, Clone, Copy, PartialEq, Eq, Structural, Hash)]
pub enum MpScreen {
    NameEntry,
    Menu,
    Lobby,
    InGame,
}

/// The buttons of those screens.
#[derive(Debug, Clone, Copy, PartialEq, Eq, Structural)]
pub enum MpButton {
    Confirm,
    /// Opens a room for so many players.
    Create(usize),
    Refresh,
    Join,
    Start,
    Leave,
}

/// The texts of those screens that change.
#[derive(Debug, Clone, Copy, PartialEq, Eq, Structural)]
pub enum MpText {
    NameInput,
    CodeInput,
    RoomList,
    Lobby,
    Status,
}

/// What a client knows.
pub struct Net {
    pub my_id: Option<u64>,
    pub name: String,
    /// The server knows the name.
    pub greeted: bool,
    pub name_input: String,
    pub code_input: String,
    pub rooms: Vec<RoomInfo>,
    pub room: Option<RoomState>,
    pub status: String,
    pub view: Option<GameView>,
}

/// What a client knows, as a mathematical value.
pub struct NetModel {
    pub my_id: Option<u64>,
    pub name: Seq<char>,
    pub greeted: bool,
    pub name_input: Seq<char>,
    pub code_input: Seq<char>,
    pub rooms: Seq<RoomInfoModel>,
    pub room: Option<RoomStateModel>,
    pub status: Seq<char>,
    pub view: Option<GameViewModel>,
}

impl View for Net {
    type V = NetModel;

    open spec fn view(&self) -> NetModel {
        NetModel {
            my_id: self.my_id,
            name: self.name@,
            greeted: self.greeted,
            name_input: self.name_input@,
            code_input: self.code_input@,
            rooms: self.rooms@.map_values(|r: RoomInfo| r@),
            room: match self.room {
                Some(r) => Some(r@),
                None => None,
            },
            status: self.status@,
            view: match self.view {
                Some(v) => Some(v@),
                None => None,
            },
        }
    }
}

impl NetModel {
    /// After a message from the server.
    pub open spec fn told(self, msg: ServerMsgModel) -> NetModel {
        match msg {
            ServerMsgModel::Welcome { your_id } => NetModel { my_id: Some(your_id), ..self },
            ServerMsgModel::RoomList { rooms } => NetModel { rooms, ..self },
            ServerMsgModel::Joined { room } => NetModel {
                room: Some(room),
                status: Seq::empty(),
                ..self
            },
            ServerMsgModel::RoomUpdate { room } => NetModel { room: Some(room), ..self },
            ServerMsgModel::Left => NetModel { room: None, ..self },
            ServerMsgModel::Error { text } => NetModel { status: "⚠ "@ + text, ..self },
            ServerMsgModel::GameStarting => NetModel { status: "发牌中…"@, ..self },
            ServerMsgModel::View { view } => NetModel { view: Some(view), ..self },
            ServerMsgModel::GameEnded => NetModel { view: None, ..self },
        }
    }

    /// The text of a place on the screens.
    pub open spec fn text_of(self, kind: MpText) -> Seq<char> {
        match kind {
            MpText::NameInput => "名字: "@ + self.name_input + "_"@,
            MpText::CodeInput => "房间号: "@ + self.code_input + "_"@,
            MpText::RoomList => rooms_caption(self.rooms),
            MpText::Lobby => match self.room {
                Some(room) => lobby_caption(room, self.my_id),
                None => Seq::empty(),
            },
            MpText::Status => self.status,
        }
    }
}

/// The screen that a message leads to from a screen, if it leads anywhere.
pub open spec fn leads_to(msg: ServerMsgModel, screen: MpScreen) -> Option<MpScreen> {
    match msg {
        ServerMsgModel::Joined { .. } => Some(MpScreen::Lobby),
        ServerMsgModel::Left => Some(MpScreen::Menu),
        ServerMsgModel::View { .. } => if screen != MpScreen::InGame {
            Some(MpScreen::InGame)
        } else {
            None
        },
        ServerMsgModel::GameEnded => Some(MpScreen::Lobby),
        _ => None,
    }
}

/// What a button leads to.
pub struct Pressed {
    /// What goes to the server.
    pub send: Option<ClientMsg>,
    /// The screen that comes up.
    pub go: Option<MpScreen>,
}

/// A name as it is kept: trimmed, and never empty.
pub open spec fn name_kept(input: Seq<char>) -> Seq<char> {
    if trimmed(input).len() == 0 {
        "Player"@
    } else {
        trimmed(input)
    }
}

/// The request to join a room, if a code was given.
pub open spec fn join_asked(code: Seq<char>) -> Option<ClientMsgModel> {
    if code.len() == 0 {
        None
    } else {
        Some(ClientMsgModel::JoinRoom { code })
    }
}

/// The request to join the room with a code, if there is one.
pub fn join_request(code: String) -> (r: Option<ClientMsg>)
    ensures
        request_model(r) == join_asked(code@),
{
    if code.as_str().is_empty() {
        None
    } else {
        Some(ClientMsg::JoinRoom { code })
    }
}

impl NetModel {
    /// After a button has been pressed.
    pub open spec fn pressed(self, button: MpButton) -> NetModel {
        match button {
            MpButton::Confirm => NetModel { name: name_kept(self.name_input), ..self },
            _ => self,
        }
    }

    /// What a button asks the server for.
    pub open spec fn asked(self, button: MpButton) -> Option<ClientMsgModel> {
        match button {
            MpButton::Confirm => None,
            MpButton::Create(n) => Some(
                ClientMsgModel::CreateRoom {
                    room_name: self.name + "的房间"@,
                    max_players: n as int,
                    fill_ai: true,
                },
            ),
            MpButton::Refresh => Some(ClientMsgModel::ListRooms),
            MpButton::Join => join_asked(uppercase(trimmed(self.code_input))),
            MpButton::Start => Some(ClientMsgModel::StartGame),
            MpButton::Leave => Some(ClientMsgModel::LeaveRoom),
        }
    }
}

impl Net {
    /// A client that knows nothing yet.
    pub fn new() -> (r: Self)
        ensures
            r@ == (NetModel {
                my_id: None,
                name: Seq::empty(),
                greeted: false,
                name_input: Seq::empty(),
                code_input: Seq::empty(),
                rooms: Seq::empty(),
                room: None,
                status: Seq::empty(),
                view: None,
            }),
    {
        let r = Net {
            my_id: None,
            name: String::new(),
            greeted: false,
            name_input: String::new(),
            code_input: String::new(),
            rooms: Vec::new(),
            room: None,
            status: String::new(),
            view: None,
        };
        assert(r@.rooms =~= Seq::empty());
        r
    }

    /// Takes in a message of the server. Gives the screen that comes up, if another does.
    pub fn receive(&mut self, msg: ServerMsg, screen: MpScreen) -> (r: Option<MpScreen>)
        ensures
            final(self)@ == old(self)@.told(msg@),
            r == leads_to(msg@, screen),
    {
        match msg {
            ServerMsg::Welcome { your_id } => {
                self.my_id = Some(your_id);
                None
            },
            ServerMsg::RoomList { rooms } => {
                self.rooms = rooms;
                None
            },
            ServerMsg::Joined { room } => {
                self.room = Some(room);
                self.status = String::new();
                Some(MpScreen::Lobby)
            },
            ServerMsg::RoomUpdate { room } => {
                self.room = Some(room);
                None
            },
            ServerMsg::Left => {
                self.room = None;
                Some(MpScreen::Menu)
            },
            ServerMsg::Error { text } => {
                let mut status = "⚠ ".to_owned();
                status.append(text.as_str());
                self.status = status;
                None
            },
            ServerMsg::GameStarting => {
                self.status = "发牌中…".to_owned();
                None
            },
            ServerMsg::View { view } => {
                self.view = Some(view);
                if screen != MpScreen::InGame {
                    Some(MpScreen::InGame)
                } else {
                    None
                }
            },
            ServerMsg::GameEnded => {
                self.view = None;
                Some(MpScreen::Lobby)
            },
        }
    }

    /// The greeting that has to be sent, if it is time: once, when the connection stands and the
    /// player has a name.
    pub fn greet(&mut self, connected: bool) -> (r: Option<ClientMsg>)
        ensures
            request_model(r) == (if !old(self).greeted && old(self).name@.len() > 0 && connected {
                Some(ClientMsgModel::Hello { name: old(self).name@ })
            } else {
                None
            }),
            final(self)@ == (NetModel {
                greeted: old(self).greeted || (old(self).name@.len() > 0 && connected),
                ..old(self)@
            }),
    {
        if self.greeted || self.name.as_str().is_empty() || !connected {
            return None;
        }
        self.greeted = true;
        Some(ClientMsg::Hello { name: self.name.clone() })
    }

    /// A button has been pressed.
    pub fn press(&mut self, button: MpButton) -> (r: Pressed)
        ensures
            final(self)@ == old(self)@.pressed(button),
            request_model(r.send) == old(self)@.asked(button),
            r.go == (if button == MpButton::Confirm {
                Some(MpScreen::Menu)
            } else {
                None
            }),
    {
        match button {
            MpButton::Confirm => {
                let name = trim(self.name_input.as_str()).to_owned();
                self.name = if name.as_str().is_empty() {
                    "Player".to_owned()
                } else {
                    name
                };
                Pressed { send: None, go: Some(MpScreen::Menu) }
            },
            MpButton::Create(n) => {
                let mut room_name = self.name.clone();
                room_name.append("的房间");
                let msg = ClientMsg::CreateRoom { room_name, max_players: n, fill_ai: true };
                Pressed { send: Some(msg), go: None }
            },
            MpButton::Refresh => Pressed { send: Some(ClientMsg::ListRooms), go: None },
            MpButton::Join => Pressed {
                send: join_request(typed_code(self.code_input.as_str())),
                go: None,
            },
            MpButton::Start => Pressed { send: Some(ClientMsg::StartGame), go: None },
            MpButton::Leave => Pressed { send: Some(ClientMsg::LeaveRoom), go: None },
        }
    }

    /// The text of a place on the screens.
    pub fn text(&self, kind: MpText) -> (r: String)
        ensures
            r@ == self@.text_of(kind),
    {
        match kind {
            MpText::NameInput => {
                let mut r = "名字: ".to_owned();
                r.append(self.name_input.as_str());
                r.append("_");
                r
            },
            MpText::CodeInput => {
                let mut r = "房间号: ".to_owned();
                r.append(self.code_input.as_str());
                r.append("_");
                r
            },
            MpText::RoomList => rooms_text(self.rooms.as_slice()),
            MpText::Lobby => lobby_text(&self.room, self.my_id),
            MpText::Status => self.status.clone(),
        }
    }

    /// A key has been pressed on a screen with an input.
    pub fn type_key(&mut self, key: &TypedKey, screen: MpScreen)
        ensures
            final(self)@ == (match screen {
                MpScreen::NameEntry => NetModel {
                    name_input: typed(old(self)@.name_input, key@, NAME_LIMIT as int),
                    ..old(self)@
                },
                MpScreen::Menu => NetModel {
                    code_input: typed(old(self)@.code_input, key@, CODE_LIMIT as int),
                    ..old(self)@
                },
                _ => old(self)@,
            }),
    {
        match screen {
            MpScreen::NameEntry => {
                type_into(&mut self.name_input, key, NAME_LIMIT);
            },
            MpScreen::Menu => {
                type_into(&mut self.code_input, key, CODE_LIMIT);
            },
            _ => {},
        }
    }

    /// It is the turn of the client's own seat.
    pub fn is_your_turn(&self) -> (r: bool)
        ensures
            r == (match self@.view {
                Some(v) => v.to_act_seat is Some && v.to_act_seat == v.you_seat,
                None => false,
            }),
    {
        match &self.view {
            Some(v) => match (v.to_act_seat, v.you_seat) {
                (Some(a), Some(b)) => a == b,
                _ => false,
            },
            None => false,
        }
    }
}

// ---- Typing ----

/// A pressed key.
pub enum TypedKey {
    /// Characters.
    Text(String),
    Space,
    Backspace,
    Other,
}

/// A pressed key as a mathematical value.
pub enum TypedKeyModel {
    Text(Seq<char>),
    Space,
    Backspace,
    Other,
}

impl View for TypedKey {
    type V = TypedKeyModel;

    open spec fn view(&self) -> TypedKeyModel {
        match *self {
            TypedKey::Text(s) => TypedKeyModel::Text(s@),
            TypedKey::Space => TypedKeyModel::Space,
            TypedKey::Backspace => TypedKeyModel::Backspace,
            TypedKey::Other => TypedKeyModel::Other,
        }
    }
}

/// An input after the first `n` characters have been typed: control codes are passed over, and
/// so is what goes beyond the limit.
pub open spec fn typed_chars(input: Seq<char>, text: Seq<char>, n: int, limit: int) -> Seq<char>
    decreases n,
{
    if n <= 0 {
        input
    } else {
        let rest = typed_chars(input, text, n - 1, limit);
        if !is_control_code(text[n - 1]) && rest.len() < limit {
            rest.push(text[n - 1])
        } else {
            rest
        }
    }
}

/// An input after a key.
pub open spec fn typed(input: Seq<char>, key: TypedKeyModel, limit: int) -> Seq<char> {
    match key {
        TypedKeyModel::Text(text) => typed_chars(input, text, text.len() as int, limit),
        TypedKeyModel::Space => if input.len() < limit {
            input.push(' ')
        } else {
            input
        },
        TypedKeyModel::Backspace => if input.len() > 0 {
            input.drop_last()
        } else {
            input
        },
        TypedKeyModel::Other => input,
    }
}

/// Puts a pressed key into an input.
pub fn type_into(s: &mut String, key: &TypedKey, max: usize)
    ensures
        final(s)@ == typed(old(s)@, key@, max as int),
{
    match key {
        TypedKey::Text(text) => {
            let ghost start = s@;
            let cs = letters(text.as_str());
            let mut count: usize = s.as_str().unicode_len();
            let mut i: usize = 0;
            while i < cs.len()
                invariant
                    i <= cs@.len(),
                    cs@ == text@,
                    s@ == typed_chars(start, text@, i as int, max as int),
                    count == s@.len(),
                    start.len() <= max ==> count <= max,
                    start.len() > max ==> s@ == start,
                decreases cs@.len() - i,
            {
                if !cs[i].is_control() && count < max {
                    let c = text.as_str().substring_char(i, i + 1);
                    assert(c@ =~= seq![cs@[i as int]]);
                    s.append(c);
                    count = count + 1;
                    assert(s@ =~= typed_chars(start, text@, i + 1, max as int));
                }
                i = i + 1;
            }
        },
        TypedKey::Space => {
            if s.as_str().unicode_len() < max {
                proof {
                    reveal_strlit(" ");
                }
                s.append(" ");
                assert(s@ =~= old(s)@.push(' '));
            }
        },
        TypedKey::Backspace => {
            let n: usize = s.as_str().unicode_len();
            if n > 0 {
                let kept = s.as_str().substring_char(0, n - 1).to_owned();
                assert(kept@ =~= s@.drop_last());
                *s = kept;
            }
        },
        TypedKey::Other => {},
    }
}

proof fn lemma_typed_chars(input: Seq<char>, text: Seq<char>, n: int, limit: int)
    requires
        0 <= n <= text.len(),
        input.len() <= limit,
    ensures
        typed_chars(input, text, n, limit).len() <= limit,
    decreases n,
{
    if n > 0 {
        lemma_typed_chars(input, text, n - 1, limit);
    }
}

/// Nothing that is typed takes an input beyond its limit.
pub proof fn inputs_keep_their_limit(input: Seq<char>, key: TypedKeyModel, limit: int)
    requires
        input.len() <= limit,
    ensures
        typed(input, key, limit).len() <= limit,
{
    if let TypedKeyModel::Text(text) = key {
        lemma_typed_chars(input, text, text.len() as int, limit);
    }
}

// ---- What lies over the table ----

/// What happens to a layer over the table.
#[derive(Debug, Clone, Copy, PartialEq, Eq, Structural)]
pub enum Layer {
    Keep,
    Open,
    Close,
}

/// A layer that should be there, or not, and is there, or not.
pub open spec fn layer_change(wanted: bool, there: bool) -> Layer {
    if wanted && !there {
        Layer::Open
    } else if !wanted && there {
        Layer::Close
    } else {
        Layer::Keep
    }
}

fn layer(wanted: bool, there: bool) -> (r: Layer)
    ensures
        r == layer_change(wanted, there),
{
    if wanted && !there {
        Layer::Open
    } else if !wanted && there {
        Layer::Close
    } else {
        Layer::Keep
    }
}

/// What happens to the result and to the picking of cards, as (result, picking).
pub fn overlays(view: &GameView, result_there: bool, picking_there: bool) -> (r: (Layer, Layer))
    ensures
        r.0 == layer_change(view@.result is Some, result_there),
        r.1 == layer_change(view@.need_select, picking_there),
{
    (layer(view.result.is_some(), result_there), layer(view.need_select, picking_there))
}

} // verus!
