use riverborn::client::{
    join_request, overlays, type_into, Layer, MpButton, MpScreen, MpText, Net, TypedKey,
};
use riverborn::game::{Action, Phase};
use riverborn::hud::Bet;
use riverborn::lobby::Lobby;
use riverborn::net::{CardView, ClientMsg, GameView, RoomInfo, ServerMsg};
use riverborn::slots::{mp_community_slot, mp_dungeon_slot, mp_hole_slot, Frame};

fn key(s: &str) -> TypedKey {
    TypedKey::Text(s.to_string())
}

#[test]
fn typing_stops_at_the_limit() {
    let mut s = String::new();
    type_into(&mut s, &key("ab\u{7}c"), 4);
    assert_eq!(s, "abc");
    type_into(&mut s, &key("夜场"), 4);
    assert_eq!(s, "abc夜");
    type_into(&mut s, &TypedKey::Space, 4);
    assert_eq!(s, "abc夜");
    type_into(&mut s, &TypedKey::Backspace, 4);
    type_into(&mut s, &TypedKey::Space, 4);
    assert_eq!(s, "abc ");
    type_into(&mut s, &TypedKey::Other, 4);
    assert_eq!(s, "abc ");
    let mut empty = String::new();
    type_into(&mut empty, &TypedKey::Backspace, 4);
    assert_eq!(empty, "");
}

#[test]
fn keys_go_to_the_input_of_the_screen() {
    let mut net = Net::new();
    net.type_key(&key("Ann"), MpScreen::NameEntry);
    net.type_key(&key("abcdefghijk"), MpScreen::Menu);
    net.type_key(&key("x"), MpScreen::Lobby);
    assert_eq!(net.text(MpText::NameInput), "名字: Ann_");
    assert_eq!(net.text(MpText::CodeInput), "房间号: abcdefgh_");
}

#[test]
fn buttons_ask_the_server() {
    let mut net = Net::new();
    net.name_input = "  ".to_string();
    let p = net.press(MpButton::Confirm);
    assert_eq!((net.name.as_str(), p.go), ("Player", Some(MpScreen::Menu)));
    assert!(p.send.is_none());
    net.name_input = " Ann ".to_string();
    net.press(MpButton::Confirm);
    assert_eq!(
        net.press(MpButton::Create(4)).send,
        Some(ClientMsg::CreateRoom {
            room_name: "Ann的房间".to_string(),
            max_players: 4,
            fill_ai: true,
        })
    );
    assert_eq!(net.press(MpButton::Refresh).send, Some(ClientMsg::ListRooms));
    assert_eq!(net.press(MpButton::Join).send, None);
    net.code_input = " abcß ".to_string();
    assert_eq!(
        net.press(MpButton::Join).send,
        Some(ClientMsg::JoinRoom { code: "ABCSS".to_string() })
    );
    assert_eq!(net.press(MpButton::Start).send, Some(ClientMsg::StartGame));
    assert_eq!(net.press(MpButton::Leave).send, Some(ClientMsg::LeaveRoom));
    assert_eq!(join_request(String::new()), None);
}

#[test]
fn a_greeting_is_sent_once() {
    let mut net = Net::new();
    assert_eq!(net.greet(true), None);
    net.name = "Ann".to_string();
    assert_eq!(net.greet(false), None);
    assert_eq!(net.greet(true), Some(ClientMsg::Hello { name: "Ann".to_string() }));
    assert_eq!(net.greet(true), None);
}

/// The messages that a client gets who opens a room and starts its game.
fn story() -> Vec<ServerMsg> {
    let mut lobby = Lobby::new();
    let mut out = lobby.on_connect(1);
    let msgs = [
        ClientMsg::ListRooms,
        ClientMsg::CreateRoom { room_name: "N".to_string(), max_players: 3, fill_ai: true },
        ClientMsg::StartGame,
    ];
    for (n, msg) in msgs.into_iter().enumerate() {
        out.extend(lobby.receive(1, msg, n as u64).unwrap().letters);
    }
    out.into_iter().map(|l| l.msg).collect()
}

#[test]
fn messages_change_what_a_client_knows() {
    let mut net = Net::new();
    let mut screen = MpScreen::Menu;
    for msg in story() {
        if let Some(next) = net.receive(msg, screen) {
            screen = next;
        }
    }
    assert_eq!(screen, MpScreen::InGame);
    assert_eq!(net.my_id, Some(1));
    assert!(net.view.is_some() && net.room.is_some());
    assert!(net.is_your_turn());
    assert_eq!(net.text(MpText::Status), "发牌中…");
    assert!(net.text(MpText::Lobby).contains("Player1  (房主)  ←你"));

    let msg = ServerMsg::Error { text: "房间已满".to_string() };
    assert_eq!(net.receive(msg, screen), None);
    assert_eq!(net.text(MpText::Status), "⚠ 房间已满");
    assert_eq!(net.receive(ServerMsg::GameEnded, screen), Some(MpScreen::Lobby));
    assert!(net.view.is_none() && !net.is_your_turn());
    assert_eq!(net.receive(ServerMsg::Left, screen), Some(MpScreen::Menu));
    assert!(net.room.is_none());
    let rooms = vec![RoomInfo {
        code: "ABCD".to_string(),
        name: "N".to_string(),
        players: 1,
        max_players: 2,
        in_game: false,
    }];
    assert_eq!(net.receive(ServerMsg::RoomList { rooms }, screen), None);
    assert!(net.text(MpText::RoomList).contains("[ABCD] N   1/2"));
}

fn first_view() -> GameView {
    let shown = story().into_iter().find_map(|m| match m {
        ServerMsg::View { view } => Some(view),
        _ => None,
    });
    shown.unwrap()
}

#[test]
fn a_shown_table_stays_on_its_screen() {
    let mut net = Net::new();
    let msg = ServerMsg::View { view: first_view() };
    assert_eq!(net.receive(msg.clone(), MpScreen::Lobby), Some(MpScreen::InGame));
    assert_eq!(net.receive(msg, MpScreen::InGame), None);
}

#[test]
fn layers_come_and_go() {
    let mut v = first_view();
    assert_eq!(overlays(&v, false, false), (Layer::Keep, Layer::Keep));
    assert_eq!(overlays(&v, true, true), (Layer::Close, Layer::Close));
    v.need_select = true;
    assert_eq!(overlays(&v, false, false), (Layer::Keep, Layer::Open));
    assert_eq!(overlays(&v, false, true), (Layer::Keep, Layer::Keep));
}

#[test]
fn controls_follow_a_view() {
    let mut v = first_view();
    let mut bet = Bet::new();
    assert!(Bet::can_follow(&v));
    bet.follow_view(&v);
    assert!(bet.active);
    assert_eq!((bet.current_bet, bet.min_raise), (10, 30));
    v.to_act_seat = Some(1);
    bet.follow_view(&v);
    assert!(!bet.active);
    v.to_act_seat = v.you_seat;
    v.current_bet = u32::MAX;
    assert!(!Bet::can_follow(&v));
}

#[test]
fn places_of_a_shown_table() {
    let mut v = first_view();
    assert_eq!(v.phase, Phase::PreFlop);
    let own = mp_hole_slot(&v, 0, 0);
    let card = &v.your_hole.as_ref().unwrap()[0];
    assert_eq!(own.picture.unwrap(), format!("cards/community/{}.png", card.art));
    assert_eq!((own.label, own.frame), (card.label.clone(), Frame::Active));
    assert!(mp_hole_slot(&v, 1, 0).picture.is_none());
    assert_eq!(mp_hole_slot(&v, 77, 0).frame, Frame::Hole);
    assert!(mp_community_slot(&v, 0).picture.is_none());
    let c = CardView { art: "Boss_1".to_string(), label: "T9  H9".to_string() };
    v.dungeon = vec![c.clone()];
    v.community = vec![c.clone()];
    v.revealed_holes[1] = Some([c.clone(), c]);
    assert_eq!(mp_dungeon_slot(&v, 0).picture.unwrap(), "cards/dungeon/Boss_1.png");
    assert_eq!(mp_dungeon_slot(&v, 1).frame, Frame::Dim);
    assert_eq!(mp_community_slot(&v, 0).frame, Frame::Gold);
    assert_eq!(mp_hole_slot(&v, 1, 1).label, "T9  H9");
}

#[test]
fn a_client_can_play_through_the_lobby() {
    let mut lobby = Lobby::new();
    lobby.on_connect(1);
    let create =
        ClientMsg::CreateRoom { room_name: "N".to_string(), max_players: 2, fill_ai: true };
    lobby.receive(1, create, 1).unwrap();
    lobby.receive(1, ClientMsg::StartGame, 2).unwrap();
    let act = ClientMsg::Act { action: Action::Check };
    assert_eq!(lobby.receive(1, act, 3).unwrap().letters.len(), 1);
}
