use riverborn::ai::decide;
use riverborn::game::{Action, Phase};
use riverborn::lobby::{random_seed, sanitize_name, typed_code, Lobby};
use riverborn::net::{ClientMsg, GameView, Letter, RoomState, ServerMsg, DEFAULT_PORT, PROTOCOL_ID};
use riverborn::room::{advance_game, RoomGame, AI_DELAY, SELECT_TIMEOUT};
use riverborn::table::{Match, SeatDef};
use riverborn::table_view::{adv_view, build_view};

const SECOND: u64 = 1_000_000_000;

/// One player (client 1, seat 0) and the machine (seat 1).
fn make_game() -> RoomGame {
    let defs = vec![
        SeatDef::new("You".to_string(), false),
        SeatDef::new("AI-1".to_string(), true),
    ];
    RoomGame {
        mtch: Match::new(defs, 42),
        seat_clients: vec![Some(1u64), None],
        host: 1,
        ai_timer: 0,
        selections: vec![None; 2],
        select_timer: 0,
        settled: false,
    }
}

#[test]
fn view_redacts_opponent_holes_until_showdown() {
    let g = make_game();
    let v = build_view(&g, 1);
    assert_eq!(v.you_seat, Some(0));
    assert!(v.your_hole.is_some(), "应能看到自己的底牌");
    assert!(v.revealed_holes.iter().all(|h| h.is_none()), "摊牌前看不到任何人底牌");
    assert_eq!(v.seats.len(), 2);
}

#[test]
fn full_mixed_hand_settles_and_reveals() {
    let mut g = make_game();
    let mut guard = 0;
    while !g.mtch.hand_over() && guard < 500 {
        let to_act = g.mtch.hand.to_act;
        if g.seat_clients[to_act].is_some() {
            let a = decide(&g.mtch.hand, to_act);
            g.mtch.hand.apply(a).unwrap();
        } else {
            advance_game(&mut g, SECOND);
        }
        guard += 1;
    }
    assert!(g.mtch.hand_over(), "应推进到摊牌");

    let mut guard2 = 0;
    while !g.settled && guard2 < 50 {
        for i in 0..g.seat_clients.len() {
            if g.seat_clients[i].is_some()
                && g.mtch.hand.players[i].is_in_hand()
                && g.selections[i].is_none()
            {
                g.selections[i] = Some([0, 1, 2]);
            }
        }
        advance_game(&mut g, SECOND);
        guard2 += 1;
    }
    assert!(g.settled, "应完成结算");

    let v = build_view(&g, 1);
    assert!(v.result.is_some(), "结算后视图应带结果");
    assert!(v.revealed_holes.iter().any(|h| h.is_some()), "摊牌后在局玩家底牌应揭示");

    g.mtch.next_hand();
    g.settled = false;
    g.selections = vec![None; 2];
    assert_eq!(g.mtch.hand.phase, Phase::PreFlop);
}

// ---- The game of a room ----

#[test]
fn the_machine_waits_before_it_acts() {
    let mut g = make_game();
    g.mtch.hand.apply(Action::Check).unwrap();
    assert_eq!(g.mtch.hand.to_act, 1);
    assert!(!advance_game(&mut g, AI_DELAY - 1));
    assert_eq!(g.ai_timer, AI_DELAY - 1);
    assert_eq!(g.mtch.hand.to_act, 1);
    assert!(advance_game(&mut g, 1));
    assert_eq!(g.ai_timer, 0);
    assert!(g.mtch.hand.to_act == 0 || g.mtch.hand.phase != Phase::PreFlop);
}

#[test]
fn a_player_is_never_acted_for() {
    let mut g = make_game();
    assert_eq!(g.mtch.hand.to_act, 0);
    assert!(!advance_game(&mut g, 100 * SECOND));
    assert_eq!((g.ai_timer, g.mtch.hand.to_act), (0, 0));
}

#[test]
fn a_showdown_waits_for_picks_and_not_for_ever() {
    let mut g = make_game();
    g.mtch.hand.apply(Action::AllIn).unwrap();
    while !g.mtch.hand_over() {
        g.mtch.hand.apply(Action::Call).unwrap();
    }
    assert!(!advance_game(&mut g, SELECT_TIMEOUT - 1));
    assert!(!g.settled);
    assert!(advance_game(&mut g, 1));
    assert!(g.settled && g.mtch.settled);
    assert!(!advance_game(&mut g, SECOND));
}

#[test]
fn a_showdown_without_a_player_is_settled_at_once() {
    let mut g = make_game();
    g.mtch.hand.apply(Action::Fold).unwrap();
    assert!(g.mtch.hand_over());
    assert!(advance_game(&mut g, 0));
    assert!(g.settled);
}

// ---- Views ----

fn label_of(view: &GameView, seat: usize) -> Option<String> {
    view.revealed_holes[seat].as_ref().map(|h| h[0].label.clone())
}

#[test]
fn a_view_gives_away_nothing_of_other_hands() {
    let a = make_game();
    let mut b = make_game();
    b.mtch.hand.players[1].hole.reverse();
    b.selections[1] = Some([2, 3, 4]);
    let (va, vb) = (build_view(&a, 1), build_view(&b, 1));
    assert_eq!(format!("{va:?}"), format!("{vb:?}"));
    let spectator = build_view(&a, 99);
    assert_eq!(spectator.you_seat, None);
    assert!(spectator.your_hole.is_none() && !spectator.need_select && !spectator.low_chips);
}

#[test]
fn a_view_shows_the_table() {
    let mut g = make_game();
    let v = build_view(&g, 1);
    assert_eq!((v.pot, v.ante, v.current_bet, v.hand_no), (20, 10, 10, 0));
    assert_eq!(v.to_act_seat, Some(0));
    assert!(v.seats[0].is_turn && !v.seats[1].is_turn);
    assert!(!v.seats[0].is_ai && v.seats[1].is_ai);
    assert_eq!((v.seats[0].chips, v.seats[0].committed), (1000, 10));
    assert_eq!(v.scene_art, g.mtch.scene.art());
    let own = v.your_hole.unwrap();
    assert_eq!(own[0], adv_view(&g.mtch.hand.players[0].hole[0]));
    let a = g.mtch.hand.players[0].hole[0];
    assert_eq!(own[0].label, format!("P{}  H{}", a.power, a.health));

    g.mtch.hand.apply(Action::Fold).unwrap();
    let v = build_view(&g, 1);
    assert_eq!(v.to_act_seat, None);
    assert_eq!(v.dungeon.len(), 3);
    for (node, card) in g.mtch.hand.dungeon.iter().zip(&v.dungeon) {
        assert_eq!(card.label, format!("T{}  H{}", node.threat, node.health));
    }
    assert!(label_of(&v, 0).is_none());
    assert!(label_of(&v, 1).is_some());
    assert!(!v.can_next);
    advance_game(&mut g, SECOND);
    assert!(build_view(&g, 1).can_next);
    assert!(!build_view(&g, 2).can_next);
}

#[test]
fn low_chips_are_noticed() {
    let mut g = make_game();
    g.mtch.seats[0].chips = 100;
    assert!(!build_view(&g, 1).low_chips);
    g.mtch.seats[0].chips = 99;
    assert!(build_view(&g, 1).low_chips);
    g.mtch.seats[0].chips = 300;
    g.mtch.hand.current_bet = 500;
    assert!(build_view(&g, 1).low_chips);
}

// ---- The lobby ----

struct Post {
    lobby: Lobby,
    clock: u64,
}

impl Post {
    fn new(clients: &[u64]) -> Post {
        let mut lobby = Lobby::new();
        for &c in clients {
            let out = lobby.on_connect(c);
            assert_eq!(out.len(), 1);
            assert!(matches!(out[0].msg, ServerMsg::Welcome { your_id } if your_id == c));
        }
        Post { lobby, clock: 1 }
    }

    fn ask(&mut self, client: u64, msg: ClientMsg) -> Vec<Letter> {
        let mut letters = Vec::new();
        let mut next = Some(msg);
        while let Some(m) = next {
            self.clock += 1;
            let outcome = self.lobby.receive(client, m, self.clock).expect("can be carried out");
            letters.extend(outcome.letters);
            next = outcome.again;
        }
        letters
    }

    fn create(&mut self, client: u64, max_players: usize, fill_ai: bool) -> RoomState {
        let msg = ClientMsg::CreateRoom { room_name: "Night".to_string(), max_players, fill_ai };
        let out = self.ask(client, msg);
        match &out.last().unwrap().msg {
            ServerMsg::Joined { room } => room.clone(),
            other => panic!("{other:?}"),
        }
    }

    fn join(&mut self, client: u64, code: &str) -> Vec<Letter> {
        self.ask(client, ClientMsg::JoinRoom { code: code.to_string() })
    }
}

fn error_text(out: &[Letter]) -> Option<&str> {
    match out {
        [Letter { msg: ServerMsg::Error { text }, .. }] => Some(text),
        _ => None,
    }
}

#[test]
fn both_ends_speak_the_same_protocol() {
    assert_eq!(PROTOCOL_ID.to_be_bytes(), *b"RIVEBORN");
    assert_eq!(DEFAULT_PORT, 7777);
}

#[test]
fn names_are_cleaned() {
    assert_eq!(sanitize_name("  Ann \n"), "Ann");
    assert_eq!(sanitize_name("A\u{7}n\u{85}n"), "Ann");
    assert_eq!(sanitize_name(" \t "), "Player");
    assert_eq!(sanitize_name("\u{3000}夜场\u{2003}"), "夜场");
    assert_eq!(sanitize_name("abcdefghijklmnopqrst"), "abcdefghijklmnop");
    assert_eq!(sanitize_name("\u{1}\u{2}"), "Player");
}

#[test]
fn codes_are_looked_up_in_upper_case() {
    assert_eq!(typed_code("  abCd "), "ABCD");
    assert_eq!(typed_code("straße"), "STRASSE");
    assert_eq!(typed_code("7x-Z"), "7X-Z");
}

#[test]
fn seeds_follow_the_clock() {
    assert_eq!(random_seed(5), random_seed(5));
    assert_ne!(random_seed(5), random_seed(6));
}

#[test]
fn a_room_is_opened_listed_and_joined() {
    let mut p = Post::new(&[1, 2]);
    p.ask(1, ClientMsg::Hello { name: " Ann ".to_string() });
    let room = p.create(1, 99, true);
    assert_eq!(room.max_players, 6);
    assert_eq!(room.code.len(), 4);
    assert!(room.code.bytes().all(|b| b.is_ascii_uppercase()));
    assert_eq!((room.host, room.players[0].name.as_str()), (1, "Ann"));

    let list = p.ask(2, ClientMsg::ListRooms);
    match &list[0].msg {
        ServerMsg::RoomList { rooms } => {
            assert_eq!(rooms.len(), 1);
            assert_eq!((rooms[0].players, rooms[0].max_players), (1, 6));
            assert_eq!(rooms[0].code, room.code);
        }
        other => panic!("{other:?}"),
    }

    let out = p.join(2, &format!(" {} ", room.code.to_lowercase()));
    assert_eq!(out.iter().map(|l| l.to).collect::<Vec<_>>(), vec![2, 1]);
    assert!(matches!(out[0].msg, ServerMsg::Joined { .. }));
    match &out[1].msg {
        ServerMsg::RoomUpdate { room } => {
            assert_eq!(room.players.iter().map(|p| p.id).collect::<Vec<_>>(), vec![1, 2]);
            assert_eq!(room.players[1].name, "Player2");
        }
        other => panic!("{other:?}"),
    }
}

#[test]
fn joining_is_refused_with_its_reason() {
    let mut p = Post::new(&[1, 2, 3]);
    let room = p.create(1, 2, false);
    assert_eq!(error_text(&p.join(2, "nope")), Some("房间号不存在"));
    p.join(2, &room.code);
    assert_eq!(error_text(&p.join(3, &room.code)), Some("房间已满"));
    assert_eq!(p.lobby.rooms[0].members, vec![1, 2]);
    assert!(p.lobby.conns[&3].room.is_none());
    assert_eq!(
        error_text(&p.ask(2, ClientMsg::StartGame)),
        Some("只有房主能开始游戏")
    );
    p.ask(1, ClientMsg::StartGame);
    assert_eq!(error_text(&p.join(3, &room.code)), Some("该房间已开始游戏"));
    assert!(p.ask(1, ClientMsg::StartGame).is_empty());
}

#[test]
fn full_and_running_rooms_are_not_listed() {
    let mut p = Post::new(&[1, 2, 3]);
    let room = p.create(1, 2, true);
    p.join(2, &room.code);
    p.create(3, 3, true);
    let listed = |p: &mut Post| match &p.ask(1, ClientMsg::ListRooms)[0].msg {
        ServerMsg::RoomList { rooms } => rooms.len(),
        other => panic!("{other:?}"),
    };
    assert_eq!(listed(&mut p), 1);
    p.ask(3, ClientMsg::StartGame);
    assert_eq!(listed(&mut p), 0);
}

#[test]
fn rooms_are_at_least_for_two() {
    let mut p = Post::new(&[1]);
    assert_eq!(p.create(1, 0, false).max_players, 2);
}

#[test]
fn a_host_is_followed_by_the_longest_member() {
    let mut p = Post::new(&[1, 2, 3]);
    let room = p.create(1, 4, true);
    p.join(2, &room.code);
    p.join(3, &room.code);
    let out = p.ask(1, ClientMsg::LeaveRoom);
    assert_eq!(out.iter().map(|l| l.to).collect::<Vec<_>>(), vec![2, 3, 1]);
    match &out[0].msg {
        ServerMsg::RoomUpdate { room } => assert_eq!(room.host, 2),
        other => panic!("{other:?}"),
    }
    assert!(matches!(out[2].msg, ServerMsg::Left));
    p.ask(2, ClientMsg::LeaveRoom);
    p.ask(3, ClientMsg::LeaveRoom);
    assert!(p.lobby.rooms.is_empty());
}

#[test]
fn joining_the_room_one_is_alone_in_cannot_be_carried_out() {
    let mut p = Post::new(&[1, 2]);
    let room = p.create(1, 4, true);
    let msg = ClientMsg::JoinRoom { code: room.code.clone() };
    assert!(!p.lobby.fits(1, &msg));
    assert!(p.lobby.receive(1, msg, 5).is_none());
    assert_eq!(p.lobby.rooms.len(), 1);
    p.join(2, &room.code);
    let out = p.join(1, &room.code);
    assert_eq!(p.lobby.rooms[0].members, vec![2, 1]);
    assert_eq!(p.lobby.rooms[0].host, 2);
    assert!(matches!(out[0].msg, ServerMsg::RoomUpdate { .. }));
}

#[test]
fn a_taken_code_is_drawn_again() {
    let mut p = Post::new(&[1, 2]);
    p.lobby.seq = 7;
    let first = p.lobby.receive(
        1,
        ClientMsg::CreateRoom { room_name: "A".to_string(), max_players: 2, fill_ai: true },
        1234,
    );
    assert!(first.unwrap().again.is_none());
    p.lobby.seq = 7;
    let msg = ClientMsg::CreateRoom { room_name: "B".to_string(), max_players: 2, fill_ai: true };
    let second = p.lobby.receive(2, msg.clone(), 1234).unwrap();
    assert_eq!(second.again, Some(msg.clone()));
    assert!(second.letters.is_empty());
    assert_eq!(p.lobby.rooms.len(), 1);
    let third = p.lobby.receive(2, msg, 1235).unwrap();
    assert!(third.again.is_none());
    assert_eq!(p.lobby.rooms.len(), 2);
    assert_ne!(p.lobby.rooms[0].code, p.lobby.rooms[1].code);
}

fn views(out: &[Letter]) -> Vec<(u64, &GameView)> {
    out.iter()
        .filter_map(|l| match &l.msg {
            ServerMsg::View { view } => Some((l.to, view)),
            _ => None,
        })
        .collect()
}

#[test]
fn a_game_seats_members_and_machines() {
    let mut p = Post::new(&[1, 2]);
    let room = p.create(1, 4, true);
    p.join(2, &room.code);
    let out = p.ask(1, ClientMsg::StartGame);
    assert!(matches!(out[0].msg, ServerMsg::GameStarting));
    let shown = views(&out);
    assert_eq!(shown.iter().map(|v| v.0).collect::<Vec<_>>(), vec![1, 2]);
    let names: Vec<&str> = shown[0].1.seats.iter().map(|s| s.name.as_str()).collect();
    assert_eq!(names, vec!["Player1", "Player2", "AI-1", "AI-2"]);
    assert_eq!((shown[0].1.you_seat, shown[1].1.you_seat), (Some(0), Some(1)));
}

#[test]
fn a_lone_player_always_gets_an_opponent() {
    let mut p = Post::new(&[1]);
    p.create(1, 5, false);
    let out = p.ask(1, ClientMsg::StartGame);
    assert_eq!(views(&out)[0].1.seats.len(), 2);
}

#[test]
fn only_the_player_whose_turn_it_is_can_act() {
    let mut p = Post::new(&[1, 2]);
    let room = p.create(1, 2, false);
    p.join(2, &room.code);
    p.ask(1, ClientMsg::StartGame);
    assert!(p.ask(2, ClientMsg::Act { action: Action::Check }).is_empty());
    assert!(p.ask(1, ClientMsg::Act { action: Action::Raise { to: 5 } }).is_empty());
    let out = p.ask(1, ClientMsg::Act { action: Action::Check });
    assert_eq!(views(&out)[0].1.to_act_seat, Some(1));
}

#[test]
fn picks_loans_and_the_next_hand() {
    let mut p = Post::new(&[1, 2]);
    let room = p.create(1, 2, false);
    p.join(2, &room.code);
    p.ask(1, ClientMsg::StartGame);
    let out = p.ask(2, ClientMsg::Borrow);
    assert_eq!(views(&out)[0].1.seats[1].debt, 1000);

    // Too early for picks.
    p.ask(1, ClientMsg::SelectCards { picks: [0, 1, 2] });
    p.ask(1, ClientMsg::Act { action: Action::AllIn });
    // The loan leaves seat two with chips, so it is asked once in each round.
    let mut out = p.ask(2, ClientMsg::Act { action: Action::Call });
    for phase in [Phase::Flop, Phase::Turn, Phase::River] {
        assert_eq!((views(&out)[0].1.phase, views(&out)[0].1.to_act_seat), (phase, Some(1)));
        out = p.ask(2, ClientMsg::Act { action: Action::Check });
    }
    assert_eq!(views(&out)[0].1.phase, Phase::Showdown);
    assert!(views(&out)[0].1.need_select && views(&out)[1].1.need_select);

    // A card that does not lie open counts for nothing.
    let out = p.ask(1, ClientMsg::SelectCards { picks: [0, 1, 5] });
    assert!(views(&out)[0].1.need_select);
    let out = p.ask(1, ClientMsg::SelectCards { picks: [0, 1, 4] });
    assert!(!views(&out)[0].1.need_select);
    assert!(p.lobby.can_tick());
    assert!(p.lobby.tick_games(SECOND).is_empty());
    p.ask(2, ClientMsg::SelectCards { picks: [2, 3, 4] });
    let out = p.lobby.tick_games(SECOND);
    assert!(views(&out)[0].1.result.is_some());
    assert!(views(&out)[0].1.can_next && !views(&out)[1].1.can_next);
    assert_eq!(views(&out)[0].1.seats[1].debt, 1050);

    // Only the host goes on.
    let out = p.ask(2, ClientMsg::NextHand);
    assert_eq!(views(&out)[0].1.hand_no, 0);
    let out = p.ask(1, ClientMsg::NextHand);
    assert_eq!((views(&out)[0].1.hand_no, views(&out)[0].1.phase), (1, Phase::PreFlop));
    assert!(views(&out)[0].1.result.is_none());
}

#[test]
fn the_machine_takes_over_the_seat_of_who_leaves() {
    let mut p = Post::new(&[1, 2]);
    let room = p.create(1, 2, false);
    p.join(2, &room.code);
    p.ask(1, ClientMsg::StartGame);
    let out = p.lobby.on_disconnect(1);
    assert!(out.iter().all(|l| l.to == 2));
    let seats = &views(&out)[0].1.seats;
    assert!(seats[0].is_ai && !seats[1].is_ai);
    assert_eq!(p.lobby.rooms[0].game.as_ref().unwrap().host, 2);
    let out = p.lobby.tick_games(SECOND);
    assert_eq!(views(&out).len(), 1);
    assert!(!p.lobby.conns.contains_key(&1));
}

#[test]
fn requests_of_nobody_change_nothing() {
    let mut p = Post::new(&[1]);
    assert!(p.ask(1, ClientMsg::Borrow).is_empty());
    assert!(p.ask(1, ClientMsg::NextHand).is_empty());
    assert!(p.ask(1, ClientMsg::StartGame).is_empty());
    assert!(p.ask(9, ClientMsg::Hello { name: "X".to_string() }).is_empty());
    assert_eq!(p.ask(1, ClientMsg::LeaveRoom).len(), 1);
    assert!(p.lobby.rooms.is_empty() && p.lobby.conns.len() == 1);
}

#[test]
fn a_room_without_a_game_shows_no_table() {
    let mut p = Post::new(&[1]);
    p.create(1, 3, true);
    assert!(p.ask(1, ClientMsg::SelectCards { picks: [0, 1, 2] }).is_empty());
    assert!(p.lobby.tick_games(SECOND).is_empty());
}

#[test]
fn a_game_without_players_at_it_plays_itself_to_the_end_of_the_hand() {
    let mut p = Post::new(&[1, 2]);
    let room = p.create(1, 2, false);
    p.join(2, &room.code);
    p.ask(1, ClientMsg::StartGame);
    p.ask(2, ClientMsg::Act { action: Action::Check });
    let game = p.lobby.rooms[0].game.as_mut().unwrap();
    game.seat_clients = vec![None, None];
    let mut ticks = 0;
    while !game.settled {
        assert!(advance_game(game, AI_DELAY), "every tick moves the game on");
        ticks += 1;
        assert!(ticks < 1000);
    }
    assert_eq!(game.mtch.hand.phase, Phase::Done);
}

#[test]
fn members_sit_in_the_order_in_which_they_came() {
    let mut p = Post::new(&[7, 8, 9]);
    let room = p.create(9, 5, true);
    p.join(7, &room.code);
    p.join(8, &room.code);
    p.ask(9, ClientMsg::StartGame);
    let game = p.lobby.rooms[0].game.as_ref().unwrap();
    assert_eq!(game.seat_clients, vec![Some(9), Some(7), Some(8), None, None]);
}

#[test]
fn only_the_host_can_start_or_go_on() {
    let mut p = Post::new(&[1, 2]);
    let room = p.create(1, 2, false);
    p.join(2, &room.code);
    p.ask(2, ClientMsg::StartGame);
    assert!(p.lobby.rooms[0].game.is_none());
    p.ask(1, ClientMsg::StartGame);
    p.ask(1, ClientMsg::Act { action: Action::Fold });
    p.ask(1, ClientMsg::NextHand);
    assert_eq!(p.lobby.rooms[0].game.as_ref().unwrap().mtch.hand_no, 0);
    p.lobby.tick_games(SELECT_TIMEOUT);
    p.ask(2, ClientMsg::NextHand);
    assert_eq!(p.lobby.rooms[0].game.as_ref().unwrap().mtch.hand_no, 0);
    p.ask(1, ClientMsg::NextHand);
    assert_eq!(p.lobby.rooms[0].game.as_ref().unwrap().mtch.hand_no, 1);
}
