use riverborn::captions::{
    community_value, lobby_text, mp_seat_text, mp_status_text, rooms_text, seat_name_text,
    status_text,
};
use riverborn::cards::{
    Adventurer, Class, CommunityCard, ConsumKind, EquipKind, Monster, MonsterKind,
};
use riverborn::game::{Action, Phase, PlayerResult, Settlement};
use riverborn::net::{GameView, LobbyPlayer, RoomInfo, RoomState, SeatView};
use riverborn::player::{PlayerId, PlayerStatus};
use riverborn::scoreboard::{
    board_text, dungeon_text, ledger_body, mp_board_text, mp_dungeon_text, mp_winner_text,
    tier_name, winner_text, winners_line,
};
use riverborn::table::{Match, SeatDef};

fn table() -> Match {
    let defs = vec![
        SeatDef::new("You".to_string(), false),
        SeatDef::new("AI-1".to_string(), true),
    ];
    Match::new(defs, 42)
}

fn seat(name: &str, is_ai: bool, is_turn: bool) -> SeatView {
    SeatView {
        name: name.to_string(),
        chips: 990,
        committed: 10,
        status: PlayerStatus::Active,
        debt: 0,
        is_ai,
        is_turn,
        in_hand: true,
    }
}

fn view() -> GameView {
    GameView {
        phase: Phase::Flop,
        scene_art: "bkg_tomb".to_string(),
        scene_label: "S".to_string(),
        pot: 40,
        current_bet: 10,
        ante: 10,
        aggro: 3,
        boss_berserk: true,
        community: vec![],
        dungeon: vec![],
        dungeon_threats: vec![5, 7],
        seats: vec![seat("Ann", false, true), seat("Bo", true, false)],
        your_hole: None,
        revealed_holes: vec![None, None],
        you_seat: Some(0),
        to_act_seat: Some(0),
        hand_no: 2,
        low_chips: false,
        need_select: false,
        can_next: false,
        result: None,
    }
}

fn result(id: u32, cleared: bool) -> PlayerResult {
    PlayerResult {
        id: PlayerId(id),
        cleared,
        advantage: 9,
        remaining_health: 4,
        remaining_power: 5,
        team_power: 21,
        team_health: 7,
    }
}

#[test]
fn a_seat_shows_name_chips_and_debt() {
    let mut m = table();
    assert_eq!(seat_name_text(&m, 0), "You *\nChips 990\nin 10 | Active");
    assert_eq!(seat_name_text(&m, 1), "AI-1\nChips 990\nin 10 | Active");
    assert_eq!(seat_name_text(&m, 2), "(empty seat)");
    m.borrow(0);
    assert_eq!(seat_name_text(&m, 0), "You *\nChips 1990\nin 10 | Active\nDebt 1000");
    m.hand.apply(Action::Fold).unwrap();
    assert!(seat_name_text(&m, 0).ends_with("| Folded\nDebt 1000"));
}

#[test]
fn the_status_of_a_local_match() {
    let mut m = table();
    let scene = m.scene.label();
    assert_eq!(
        status_text(&m),
        format!(
            "Hand #1\n{scene}\nPot: 20   Bet: 10\n惊动 0.0\nP=战力 H=生命 T=威胁\nTo act: You\n\
             [Q]Check [W]Call\n[E]Raise [R]Fold\n[Tab]账本 [Esc]菜单"
        )
    );
    m.hand.apply(Action::AllIn).unwrap();
    assert!(status_text(&m).contains("惊动 3.0  狂暴!\n"));
    m.hand.apply(Action::Fold).unwrap();
    assert!(status_text(&m).ends_with("T=威胁\n\n=== 摊牌结算见面板 ==="));
}

#[test]
fn the_status_of_a_table_on_a_server() {
    let mut v = view();
    let head = "联机 · 第 3 手\nS\nPot: 40   Bet: 10\n惊动 1.5  狂暴!\nP=战力 H=生命 T=威胁\n";
    assert_eq!(
        mp_status_text(&v),
        format!("{head}轮到你：[Q]过 [W]跟 [E]加20 [R]弃 [T]全下")
    );
    v.to_act_seat = Some(1);
    assert_eq!(mp_status_text(&v), format!("{head}等待 Bo 行动…"));
    v.to_act_seat = Some(9);
    assert_eq!(mp_status_text(&v), format!("{head}等待 - 行动…"));
    v.to_act_seat = None;
    assert_eq!(mp_status_text(&v), format!("{head}=== 摊牌结算 ==="));
}

#[test]
fn seats_of_a_table_on_a_server() {
    let v = view();
    assert_eq!(mp_seat_text(&v, 0), "Ann (你) *\nChips 990\nin 10 | Active");
    assert_eq!(mp_seat_text(&v, 1), "Bo (AI)\nChips 990\nin 10 | Active");
    assert_eq!(mp_seat_text(&v, 2), "");
}

#[test]
fn notes_on_community_cards() {
    let a = Adventurer::new(Class::Mage, 7, 3, "x");
    assert_eq!(community_value(&CommunityCard::Unit(a)), "P7  H3");
    assert_eq!(
        community_value(&CommunityCard::Equip(EquipKind::Dagger)),
        EquipKind::Dagger.tag()
    );
    assert_eq!(
        community_value(&CommunityCard::Consum(ConsumKind::Fireball)),
        ConsumKind::Fireball.tag()
    );
}

#[test]
fn rooms_are_listed_line_by_line() {
    assert_eq!(rooms_text(&[]), "（暂无公开房间，点「刷新列表」或「创建房间」）");
    let room = |code: &str, players| RoomInfo {
        code: code.to_string(),
        name: "夜场".to_string(),
        players,
        max_players: 4,
        in_game: false,
    };
    assert_eq!(
        rooms_text(&[room("ABCD", 1), room("WXYZ", 3)]),
        "公开房间（输入房间号加入）:\n  [ABCD] 夜场   1/4\n  [WXYZ] 夜场   3/4\n"
    );
}

#[test]
fn a_room_lists_its_members() {
    assert_eq!(lobby_text(&None, Some(1)), "");
    let mut room = RoomState {
        code: "ABCD".to_string(),
        name: "夜场".to_string(),
        players: vec![
            LobbyPlayer { id: 1, name: "Ann".to_string() },
            LobbyPlayer { id: 2, name: "Bo".to_string() },
        ],
        host: 1,
        max_players: 4,
        fill_ai: true,
        in_game: false,
    };
    assert_eq!(
        lobby_text(&Some(room.clone()), Some(2)),
        "房间 [ABCD]  夜场\n人数 2/4\n\n· Ann  (房主)\n· Bo  ←你\n\n（开局将补 2 个 AI 凑满 4 人）"
    );
    room.fill_ai = false;
    assert_eq!(
        lobby_text(&Some(room), None),
        "房间 [ABCD]  夜场\n人数 2/4\n\n· Ann  (房主)\n· Bo\n"
    );
}

#[test]
fn winners_take_the_pot_or_leave_it() {
    let names = |list: &[&str]| list.iter().map(|s| s.to_string()).collect::<Vec<_>>();
    assert_eq!(winners_line(&names(&[]), 60), "无人通关，底池 60 滚入下一手");
    assert_eq!(winners_line(&names(&["Ann"]), 60), "赢家：Ann    底池 60");
    assert_eq!(
        winners_line(&names(&["Ann", "Bo", "Cy"]), 100),
        "平局均分：Ann、Bo、Cy    底池 100 ÷ 3 = 33/人"
    );
}

#[test]
fn the_board_lists_who_stayed() {
    let m = table();
    let s = Settlement {
        winner: Some(PlayerId(1)),
        results: vec![result(0, false), result(1, true), result(7, true)],
        pot: 20,
    };
    assert_eq!(
        board_text(&m, &s),
        "You         队伍 P21  H7   →  团灭\n\
         AI-1        队伍 P21  H7   →  通关  余血4 战力5   优势 9\n\
         ?           队伍 P21  H7   →  通关  余血4 战力5   优势 9\n"
    );
    assert_eq!(winner_text(&m, &s), "赢家：AI-1    底池 20");
    let v = view();
    assert_eq!(
        mp_board_text(&v, &s),
        "Ann         队伍 P21  H7   →  团灭\n\
         Bo          队伍 P21  H7   →  通关  余血4 战力5  优势 9\n\
         ?           队伍 P21  H7   →  通关  余血4 战力5  优势 9\n"
    );
    assert_eq!(mp_winner_text(&v, &s), "赢家：Bo    底池 40");
    let none = Settlement { winner: None, results: vec![], pot: 20 };
    assert_eq!(winner_text(&m, &none), "无人通关，底池 20 滚入下一手");
    assert_eq!(mp_winner_text(&v, &none), "无人通关，底池 40 滚入下一手");
}

#[test]
fn the_dungeon_sums_its_threats() {
    let mut m = table();
    m.hand.dungeon = vec![
        Monster::new(MonsterKind::Goblin, 4, 5, "x"),
        Monster::new(MonsterKind::PoisonSwamp, 8, 12, "x"),
        Monster::new(MonsterKind::Boss, 13, 20, "x"),
    ];
    assert_eq!(
        dungeon_text(&m),
        "地牢  小怪 T4  |  精英 T8  |  Boss T13     威胁合计 25   生命合计 37"
    );
    m.hand.aggro = 9;
    m.hand.boss_berserk = true;
    assert_eq!(
        dungeon_text(&m),
        "地牢  小怪 T4  |  精英 T9  |  Boss T24     威胁合计 37   生命合计 37   惊动 4.5 狂暴!"
    );
    let mut v = view();
    assert_eq!(mp_dungeon_text(&v).unwrap(), "地牢威胁合计 12   惊动 1.5  狂暴!");
    v.boss_berserk = false;
    v.dungeon_threats = vec![];
    assert_eq!(mp_dungeon_text(&v).unwrap(), "地牢威胁合计 0   惊动 1.5");
    v.dungeon_threats = vec![u32::MAX, 1];
    assert!(mp_dungeon_text(&v).is_none());
}

#[test]
fn every_node_has_a_tier() {
    assert_eq!(tier_name(MonsterKind::Goblin), "小怪");
    assert_eq!(tier_name(MonsterKind::Elite), "精英");
    assert_eq!(tier_name(MonsterKind::PoisonSwamp), "精英");
    assert_eq!(tier_name(MonsterKind::Boss), "Boss");
    assert_eq!(tier_name(MonsterKind::Treasure), "宝箱");
}

#[test]
fn the_accounts_are_ranked() {
    let mut m = table();
    m.seats[0].chips = 700;
    m.seats[1].chips = 1300;
    assert_eq!(
        ledger_body(&m),
        "  名字            筹码     负债   净身价    水位\n\
         1. AI-1            1300       0     1300   +300 水上\n\
         2. You              700       0      700   -300 水下\n"
    );
    m.seats[0].chips = 2300;
    m.seats[0].debt = 2000;
    m.seats[1].chips = 1000;
    assert_eq!(
        ledger_body(&m),
        "  名字            筹码     负债   净身价    水位\n\
         1. AI-1            1000       0     1000   持平\n\
         2. You             2300    2000      300   -700 水下\n"
    );
}
