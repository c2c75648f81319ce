use riverborn::game::{Action, Phase};
use riverborn::hud::{effect_text, intent_for, key_intent, Bet, BetButton, BetKeys, RAISE_NOTCH};
use riverborn::icon::{icon_from_file, make_icon};
use riverborn::pot::{
    chip_count, chip_place, pot_change, pot_chips, PotChange, COLOURS, MAX_CHIPS,
};
use riverborn::screens::{
    escape_in_match, escape_target, menu_target, pause_target, MenuButton, Pause, PauseButton,
    Screen,
};
use riverborn::seating::{
    avatar_file, mp_avatar_file, new_session, opponent_positions, pick, seat_layout,
    seed_from_clock, PLAYER_AVATAR_X, PLAYER_AVATAR_Y,
};
use riverborn::session::{can_borrow, can_go_on, debts_can_grow};
use riverborn::slots::{community_slot, dungeon_slot, hole_slot, Frame, RevealCount};
use riverborn::solo::{
    ai_auto_play, apply_bet, confirm_selection, direct_showdown, low_chips, press_borrow,
    Selection, ShowdownStep, LOCAL_AI_DELAY,
};
use riverborn::table::Match;

// ---- Seats ----

#[test]
fn a_session_has_the_player_and_machines() {
    let names = |m: &Match| m.seats.iter().map(|s| s.name.clone()).collect::<Vec<_>>();
    let m = new_session(6, 5);
    assert_eq!(
        names(&m),
        vec!["You", "AI-Gambler", "AI-Rookie", "AI-Veteran", "AI-Gambler 2", "AI-Rookie 2"]
    );
    assert!(!m.seats[0].is_ai && m.seats[1..].iter().all(|s| s.is_ai));
    assert_eq!(names(&new_session(0, 5)).len(), 3);
    assert_eq!(names(&new_session(99, 5)).len(), 6);
}

#[test]
fn sessions_follow_the_clock() {
    assert_eq!(seed_from_clock(1), seed_from_clock(1));
    assert_ne!(seed_from_clock(1), seed_from_clock(2));
    let (a, b) = (new_session(4, 9), new_session(4, 9));
    assert_eq!(format!("{:?}", a.hand.players), format!("{:?}", b.hand.players));
}

#[test]
fn pictures_of_seats() {
    assert_eq!(avatar_file(0), "avatars/player.png");
    assert_eq!(avatar_file(1), "avatars/AI-Gambler.png");
    assert_eq!(avatar_file(5), "avatars/AI-Rookie.png");
    assert_eq!(mp_avatar_file(2, 2), "avatars/player.png");
    assert_eq!(mp_avatar_file(2, 0), "avatars/AI-Veteran.png");
}

#[test]
fn a_pick_is_one_of_the_list() {
    let list = ["a", "b", "c"];
    let picked: Vec<&str> = (0..60).map(|n| pick(&list, n, 7)).collect();
    for x in list {
        assert!(picked.contains(&x));
    }
    assert_eq!(pick(&["only"], 3, 4), "only");
}

#[test]
fn everyone_has_a_place_at_the_table() {
    assert!(seat_layout(0, 0).is_empty());
    for count in 1..=6 {
        for local in 0..8 {
            let places = seat_layout(count, local);
            assert_eq!(places[0], (local.min(count - 1), PLAYER_AVATAR_X, PLAYER_AVATAR_Y));
            let mut seats: Vec<usize> = places.iter().map(|p| p.0).collect();
            seats.sort();
            assert_eq!(seats, (0..count).collect::<Vec<_>>());
        }
    }
    assert_eq!(seat_layout(9, 0).len(), 6);
    assert_eq!(opponent_positions(2), vec![(24, 260), (1700, 260)]);
    assert_eq!(opponent_positions(5)[4], (1700, 560));
    assert_eq!(opponent_positions(4)[0], (520, 56));
}

// ---- Controls ----

fn turned(m: &Match) -> Bet {
    let mut bet = Bet::new();
    bet.follow_match(m);
    bet
}

#[test]
fn controls_follow_the_turn() {
    let mut m = new_session(3, 11);
    let mut bet = Bet::new();
    assert!(!bet.active && !bet.can_slide());
    bet.follow_match(&m);
    assert!(bet.active && bet.can_check);
    assert_eq!((bet.current_bet, bet.committed, bet.chips), (10, 10, 990));
    assert_eq!((bet.min_raise, bet.max_raise, bet.raise_to), (30, 1000, 30));
    bet.raise_to = 500;
    bet.follow_match(&m);
    assert_eq!(bet.raise_to, 500);
    apply_bet(&mut m, Action::Raise { to: 100 });
    bet.follow_match(&m);
    assert!(!bet.active);
}

#[test]
fn the_slider_has_ends() {
    let mut bet = turned(&new_session(3, 11));
    bet.scroll(2);
    assert_eq!(bet.raise_to, 30 + 2 * RAISE_NOTCH);
    bet.scroll(-100);
    assert_eq!(bet.raise_to, 30);
    bet.scroll(1000);
    assert_eq!(bet.raise_to, 1000);
    bet.scroll(0);
    assert_eq!(bet.raise_to, 1000);
    bet.slide_to(7);
    assert_eq!(bet.raise_to, 37);
    bet.slide_to(u32::MAX);
    assert_eq!(bet.raise_to, 1000);
}

#[test]
fn buttons_stand_for_actions() {
    let mut bet = turned(&new_session(3, 11));
    assert_eq!(intent_for(BetButton::Check, &bet), Some(Action::Check));
    assert_eq!(intent_for(BetButton::Call, &bet), Some(Action::Call));
    assert_eq!(intent_for(BetButton::Fold, &bet), Some(Action::Fold));
    assert_eq!(intent_for(BetButton::Raise, &bet), Some(Action::Raise { to: 30 }));
    assert!(!bet.enabled(BetButton::Call) && bet.enabled(BetButton::Raise));
    assert_eq!(bet.label(BetButton::Call).unwrap(), "跟注");
    assert_eq!(bet.label(BetButton::Raise).unwrap(), "加注到 30");
    assert_eq!(bet.label(BetButton::Fold), None);
    bet.scroll(1000);
    assert_eq!(intent_for(BetButton::Raise, &bet), Some(Action::AllIn));
    assert_eq!(bet.label(BetButton::Raise).unwrap(), "全下 1000");
    bet.current_bet = 60;
    bet.can_check = false;
    assert_eq!(bet.need(), 50);
    assert_eq!(bet.label(BetButton::Call).unwrap(), "跟注 50");
    assert_eq!(intent_for(BetButton::Check, &bet), None);
    assert!(!bet.enabled(BetButton::Check) && bet.enabled(BetButton::Fold));
    bet.chips = 50;
    bet.recompute(true);
    assert!(!bet.can_raise());
    assert_eq!(intent_for(BetButton::Raise, &bet), None);
}

#[test]
fn keys_stand_for_buttons() {
    let none = BetKeys { check: false, call: false, raise: false, fold: false, all_in: false };
    let bet = turned(&new_session(3, 11));
    assert_eq!(key_intent(&none, &bet), None);
    let keys = BetKeys { raise: true, fold: true, ..none };
    assert_eq!(
        key_intent(&keys, &bet),
        Some((Action::Raise { to: 30 }, BetButton::Raise))
    );
    let keys = BetKeys { all_in: true, ..none };
    assert_eq!(key_intent(&keys, &bet), Some((Action::AllIn, BetButton::Raise)));
    let keys = BetKeys { check: true, ..none };
    assert_eq!(key_intent(&keys, &bet), Some((Action::Check, BetButton::Check)));
    assert_eq!(key_intent(&keys, &Bet::new()), None);
}

#[test]
fn words_rise_from_the_table() {
    assert_eq!(effect_text(BetButton::Check, Action::Check), "过牌");
    assert_eq!(effect_text(BetButton::Call, Action::Call), "跟注!");
    assert_eq!(effect_text(BetButton::Fold, Action::Fold), "弃牌");
    assert_eq!(effect_text(BetButton::Raise, Action::AllIn), "全下!!");
    assert_eq!(effect_text(BetButton::Raise, Action::Raise { to: 30 }), "加注!");
}

#[test]
fn offered_actions_are_always_accepted() {
    for nanos in 0..40 {
        let mut m = new_session(4, nanos);
        let mut clock = 0;
        for step in 0..200u64 {
            if m.hand_over() {
                break;
            }
            if m.hand.players[m.hand.to_act].is_ai {
                ai_auto_play(&mut m, &mut clock, LOCAL_AI_DELAY);
                continue;
            }
            let mut bet = turned(&m);
            bet.scroll((step % 5) as i32);
            let kinds = [BetButton::Check, BetButton::Raise, BetButton::Call];
            let first = ((step + nanos) % 3) as usize;
            let action = intent_for(kinds[first], &bet).unwrap_or(Action::Call);
            assert_eq!(m.hand.apply(action), Ok(()));
        }
        assert!(m.hand_over());
    }
}

// ---- A local match ----

#[test]
fn the_machine_acts_after_a_while() {
    let mut m = new_session(3, 11);
    let mut clock = 5;
    ai_auto_play(&mut m, &mut clock, LOCAL_AI_DELAY);
    assert_eq!((clock, m.hand.to_act), (0, 0));
    apply_bet(&mut m, Action::Check);
    assert_eq!(m.hand.to_act, 1);
    apply_bet(&mut m, Action::Fold);
    assert_eq!(m.hand.to_act, 1);
    ai_auto_play(&mut m, &mut clock, LOCAL_AI_DELAY - 1);
    assert_eq!((clock, m.hand.to_act), (LOCAL_AI_DELAY - 1, 1));
    ai_auto_play(&mut m, &mut clock, 1);
    assert_eq!(clock, 0);
    assert_ne!(m.hand.to_act, 1);
}

#[test]
fn picks_are_taken_and_put_back() {
    let mut s = Selection::new();
    assert_eq!(s.caption(), "点选 3 张公共牌组队  (已选 0/3)");
    s.toggle(4);
    s.toggle(1);
    s.toggle(4);
    assert_eq!(s.picks, vec![1]);
    assert!(s.complete().is_none());
    s.toggle(0);
    s.toggle(2);
    s.toggle(3);
    assert_eq!(s.complete(), Some([1, 0, 2]));
    assert!(s.contains(2) && !s.contains(3));
    assert_eq!(s.caption(), "点选 3 张公共牌组队  (已选 3/3)");
}

fn to_showdown(m: &mut Match, first: Action) {
    apply_bet(m, first);
    let mut clock = 0;
    while !m.hand_over() {
        ai_auto_play(m, &mut clock, LOCAL_AI_DELAY);
        apply_bet(m, Action::Call);
    }
}

#[test]
fn a_player_who_stayed_picks_first() {
    let mut m = new_session(3, 11);
    assert_eq!(direct_showdown(&mut m, false), ShowdownStep::Nothing);
    to_showdown(&mut m, Action::Check);
    assert_eq!(direct_showdown(&mut m, false), ShowdownStep::Pick);
    assert!(!m.settled);
    assert!(debts_can_grow(&m));
    confirm_selection(&mut m, [0, 1, 2]);
    assert!(m.settled);
    assert_eq!(direct_showdown(&mut m, false), ShowdownStep::Show);
    assert_eq!(direct_showdown(&mut m, true), ShowdownStep::Nothing);
    assert!(can_go_on(&m));
    m.next_hand();
    assert_eq!((m.hand_no, m.hand.phase), (1, Phase::PreFlop));
}

#[test]
fn a_folded_player_only_watches() {
    let mut m = new_session(3, 11);
    to_showdown(&mut m, Action::Fold);
    assert_eq!(direct_showdown(&mut m, false), ShowdownStep::Show);
    assert!(m.settled);
}

#[test]
fn a_loan_is_for_the_short() {
    let mut m = new_session(3, 11);
    assert!(!low_chips(&m));
    press_borrow(&mut m, true, false);
    assert_eq!(m.seats[0].debt, 0);
    m.seats[0].chips = 99;
    assert!(low_chips(&m));
    assert!(can_borrow(&m, 0));
    press_borrow(&mut m, true, true);
    assert_eq!(m.seats[0].debt, 0);
    press_borrow(&mut m, true, false);
    assert_eq!((m.seats[0].debt, m.seats[0].chips), (1000, 1099));
}

// ---- Places ----

#[test]
fn places_show_cards_or_backs() {
    let mut m = new_session(3, 11);
    let own = hole_slot(&m, 0, 1);
    let a = m.hand.players[0].hole[1];
    assert_eq!(own.picture.unwrap(), format!("cards/community/{}.png", a.art));
    assert_eq!(own.label, format!("P{}  H{}", a.power, a.health));
    assert_eq!(own.frame, Frame::Active);
    let other = hole_slot(&m, 1, 0);
    assert!(other.picture.is_none() && other.label.is_empty());
    assert_eq!(other.frame, Frame::Hole);
    assert_eq!(hole_slot(&m, 9, 0).frame, Frame::Dim);
    assert_eq!(community_slot(&m, 0).frame, Frame::Dim);
    assert_eq!(dungeon_slot(&m, 0).frame, Frame::Dim);

    to_showdown(&mut m, Action::Fold);
    assert!(hole_slot(&m, 1, 0).picture.is_some());
    let card = community_slot(&m, 4);
    assert_eq!(
        card.picture.unwrap(),
        format!("cards/community/{}.png", m.hand.community[4].art())
    );
    assert_eq!(card.frame, Frame::Gold);
    let node = dungeon_slot(&m, 2);
    let n = m.hand.dungeon[2];
    assert_eq!(node.picture.unwrap(), format!("cards/dungeon/{}.png", n.art));
    assert_eq!(node.label, format!("T{}  H{}", n.threat, n.health));
    assert_eq!(node.frame, Frame::Red);
}

#[test]
fn reveals_are_noticed_once() {
    let mut r = RevealCount { seen: 0 };
    assert!(r.note(3));
    assert!(!r.note(3));
    assert!(!r.note(0));
    assert!(r.note(1));
}

// ---- Screens ----

#[test]
fn screens_lead_to_screens() {
    assert_eq!(menu_target(MenuButton::SinglePlayer), Some(Screen::SinglePlayerSetup));
    assert_eq!(menu_target(MenuButton::Multiplayer), Some(Screen::Multiplayer));
    assert_eq!(menu_target(MenuButton::Settings), Some(Screen::Settings));
    assert_eq!(menu_target(MenuButton::Exit), None);
    assert_eq!(escape_target(Screen::Settings), Some(Screen::MainMenu));
    assert_eq!(escape_target(Screen::SinglePlayer), None);
    assert_eq!(escape_in_match(Pause::Running), Pause::Paused);
    assert_eq!(escape_in_match(escape_in_match(Pause::Settings)), Pause::Running);
    assert_eq!(pause_target(PauseButton::Settings), Some(Pause::Settings));
    assert_eq!(pause_target(PauseButton::Resume), Some(Pause::Running));
    assert_eq!(pause_target(PauseButton::MainMenu), None);
}

// ---- The pot ----

#[test]
fn chips_show_the_pot() {
    assert_eq!(chip_count(0), 0);
    assert_eq!(chip_count(1), 1);
    assert_eq!(chip_count(99), 1);
    assert_eq!(chip_count(100), 2);
    assert_eq!(chip_count(1699), 17);
    assert_eq!(chip_count(1700), 18);
    assert_eq!(chip_count(u32::MAX), MAX_CHIPS);
    let p = chip_place(13);
    assert_eq!((p.column, p.row, p.colour), (2, 1, 1));
    assert_eq!(pot_change(5, 5), PotChange::Same);
    assert_eq!(pot_change(5, 6), PotChange::Rise);
    assert_eq!(pot_change(6, 5), PotChange::Drop);
}

#[test]
fn chips_fall_within_bounds() {
    let chips = pot_chips(77);
    assert_eq!(chips.len(), 5);
    for c in &chips {
        assert!((-70..70).contains(&c.aside) && c.above < 50 && c.below < 34);
        assert!(c.colour < COLOURS);
    }
    assert_eq!(chips, pot_chips(77));
    assert_ne!(chips, pot_chips(78));
}

// ---- The icon ----

/// A picture of two pixels, red and half-clear blue, in a plain format.
fn picture() -> Vec<u8> {
    let mut out = Vec::new();
    let pixels: [u8; 8] = [255, 0, 0, 255, 0, 0, 255, 128];
    let encoder = image::codecs::png::PngEncoder::new(&mut out);
    image::ImageEncoder::write_image(encoder, &pixels, 2, 1, image::ExtendedColorType::Rgba8)
        .unwrap();
    out
}

#[test]
fn an_icon_is_read_from_a_file() {
    let icon = icon_from_file(&picture()).unwrap();
    assert_eq!((icon.width, icon.height), (2, 1));
    assert_eq!(icon.rgba, vec![255, 0, 0, 255, 0, 0, 255, 128]);
}

#[test]
fn a_grey_picture_becomes_four_bytes_a_pixel() {
    let mut out = Vec::new();
    let encoder = image::codecs::png::PngEncoder::new(&mut out);
    image::ImageEncoder::write_image(encoder, &[9, 200], 1, 2, image::ExtendedColorType::L8)
        .unwrap();
    let icon = icon_from_file(&out).unwrap();
    assert_eq!((icon.width, icon.height), (1, 2));
    assert_eq!(icon.rgba, vec![9, 9, 9, 255, 200, 200, 200, 255]);
}

#[test]
fn what_is_no_picture_makes_no_icon() {
    assert!(icon_from_file(&[]).is_none());
    assert!(icon_from_file(b"not a picture").is_none());
    let mut broken = picture();
    broken.truncate(30);
    assert!(icon_from_file(&broken).is_none());
}

#[test]
fn pixels_have_to_fill_the_icon() {
    assert!(make_icon(vec![0; 8], 2, 1).is_some());
    assert!(make_icon(vec![0; 7], 2, 1).is_none());
    assert!(make_icon(vec![0; 8], 1, 1).is_none());
    assert!(make_icon(vec![], 0, 9).is_some());
    assert!(make_icon(vec![], u32::MAX, 2).is_none());
}
