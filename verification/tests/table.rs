use riverborn::ai::decide;
use riverborn::cards::Scene;
use riverborn::game::{Action, Phase};
use riverborn::player::{PlayerId, PlayerStatus};
use riverborn::session::{can_borrow, can_go_on, debts_can_grow};
use riverborn::table::{Match, SeatDef, BASE_ANTE, BUY_IN, INTEREST_PCT};

fn defs() -> Vec<SeatDef> {
    vec![
        SeatDef::new("You".to_string(), false),
        SeatDef::new("AI-1".to_string(), true),
        SeatDef::new("AI-2".to_string(), true),
    ]
}

fn play_out(m: &mut Match, limit: u32) {
    let mut guard = 0;
    while !m.hand_over() && guard < limit {
        let idx = m.hand.to_act;
        let action = decide(&m.hand, idx);
        m.hand.apply(action).unwrap();
        guard += 1;
    }
}

#[test]
fn everyone_buys_in_one_pot() {
    let m = Match::new(defs(), 1);
    assert_eq!(m.seats.len(), 3);
    assert!(m.seats.iter().all(|s| s.chips == BUY_IN && s.debt == 0));
    assert!(m.hand.players.iter().all(|p| p.chips == BUY_IN - m.ante));
    assert_eq!(m.hand.pot, m.ante * 3);
}

#[test]
fn borrow_adds_chips_and_debt() {
    let mut m = Match::new(defs(), 2);
    let before = m.seats[0].chips;
    m.borrow(0);
    assert_eq!(m.seats[0].chips, before + BUY_IN);
    assert_eq!(m.seats[0].debt, BUY_IN);
    assert_eq!(m.seats[0].loans, 1);
    assert_eq!(m.seats[0].net_worth(), before as i64);
    assert_eq!(m.seats[0].profit(), before as i64 - BUY_IN as i64);
}

#[test]
fn settle_awards_pot_and_is_idempotent() {
    let mut m = Match::new(defs(), 3);
    play_out(&mut m, 200);
    assert!(m.hand_over());
    let pot = m.hand.pot;
    let s1 = m.settle_hand(&[]);
    let total_after: u32 = m.seats.iter().map(|x| x.chips).sum();
    let s2 = m.settle_hand(&[]);
    assert_eq!(s1.winner, s2.winner);
    let total_again: u32 = m.seats.iter().map(|x| x.chips).sum();
    assert_eq!(total_after, total_again);
    if s1.winner.is_some() {
        assert!(pot > 0);
    } else {
        assert_eq!(m.carry, pot);
    }
}

#[test]
fn interest_accrues_on_debt() {
    let mut m = Match::new(defs(), 4);
    m.borrow(1);
    let debt0 = m.seats[1].debt;
    play_out(&mut m, 200);
    m.settle_hand(&[]);
    assert!(m.seats[1].debt > debt0, "负债应因计息增长");
}

#[test]
fn clear_rate_is_reasonable() {
    let (mut hands, mut cleared) = (0u32, 0u32);
    for seed in 0..150u64 {
        let mut m = Match::new(defs(), seed);
        for _ in 0..3 {
            play_out(&mut m, 300);
            let s = m.settle_hand(&[]);
            hands += 1;
            if s.winner.is_some() {
                cleared += 1;
            }
            m.next_hand();
        }
    }
    let rate = cleared as f32 / hands as f32;
    println!("clear rate = {:.0}% ({}/{})", rate * 100.0, cleared, hands);
    assert!(rate > 0.5, "通关率过低 {:.0}%，地牢太难", rate * 100.0);
}

#[test]
fn next_hand_rotates_and_redeals() {
    let mut m = Match::new(defs(), 5);
    let btn0 = m.button;
    let hole0 = m.hand.players[0].hole;
    play_out(&mut m, 200);
    m.settle_hand(&[]);
    m.next_hand();
    assert_eq!(m.hand_no, 1);
    assert_eq!(m.button, (btn0 + 1) % m.seats.len());
    assert_eq!(m.hand.phase, Phase::PreFlop);
    let _ = hole0;
}

#[test]
fn interest_is_five_percent_and_at_least_one() {
    let mut m = Match::new(defs(), 4);
    m.borrow(1);
    m.seats[2].debt = 3;
    play_out(&mut m, 200);
    m.settle_hand(&[]);
    assert_eq!(INTEREST_PCT, 5);
    assert_eq!((m.seats[0].debt, m.seats[1].debt, m.seats[2].debt), (0, 1050, 4));
}

#[test]
fn nothing_is_booked_while_the_hand_goes_on() {
    let mut m = Match::new(defs(), 4);
    m.borrow(1);
    let s = m.settle_hand(&[]);
    assert_eq!(s.pot, m.hand.pot);
    assert!(!m.settled && m.last.is_none());
    assert_eq!(m.seats[1].debt, 1000);
    assert_eq!(m.hand.phase, Phase::PreFlop);
}

#[test]
fn a_pot_that_nobody_wins_is_carried_over() {
    let mut m = Match::new(defs(), 3);
    m.hand.apply(Action::Fold).unwrap();
    m.hand.apply(Action::Fold).unwrap();
    m.hand.dungeon[2].threat = 900;
    let s = m.settle_hand(&[]);
    assert_eq!(s.winner, None);
    assert_eq!(m.carry, 30);
    assert_eq!(m.hand.phase, Phase::Done);
    let chips: u32 = m.seats.iter().map(|s| s.chips).sum();
    assert_eq!(chips + m.carry, 3000);
    m.next_hand();
    assert_eq!(m.carry, 0);
    assert_eq!(m.hand.pot, 30 + 30);
}

#[test]
fn the_winner_gets_the_pot() {
    let mut m = Match::new(defs(), 3);
    m.hand.apply(Action::Fold).unwrap();
    m.hand.apply(Action::Fold).unwrap();
    m.hand.dungeon.clear();
    let s = m.settle_hand(&[]);
    assert_eq!(s.winner, Some(PlayerId(2)));
    assert_eq!(
        m.seats.iter().map(|s| s.chips).collect::<Vec<_>>(),
        vec![990, 990, 1020]
    );
    assert_eq!(m.carry, 0);
}

#[test]
fn the_ante_rises_every_five_hands() {
    let mut m = Match::new(defs(), 9);
    let mut antes = vec![m.ante];
    for _ in 0..10 {
        play_out(&mut m, 300);
        m.settle_hand(&[]);
        m.next_hand();
        antes.push(m.ante);
    }
    assert_eq!(BASE_ANTE, 10);
    assert_eq!(antes, vec![10, 10, 10, 10, 10, 20, 20, 20, 20, 20, 30]);
}

#[test]
fn broke_machines_are_staked_and_players_are_not() {
    let mut m = Match::new(defs(), 9);
    m.hand.apply(Action::Fold).unwrap();
    m.hand.apply(Action::Fold).unwrap();
    m.hand.players[0].chips = 3;
    m.hand.players[1].chips = 3;
    m.settle_hand(&[]);
    m.next_hand();
    assert_eq!((m.seats[0].chips, m.seats[0].debt, m.seats[0].loans), (3, 0, 0));
    assert_eq!((m.seats[1].chips, m.seats[1].debt, m.seats[1].loans), (1003, 1000, 1));
    assert_eq!(m.hand.players[0].committed, 3);
}

#[test]
fn seats_are_ranked_by_net_worth_and_ties_keep_their_order() {
    let mut m = Match::new(defs(), 9);
    assert_eq!(m.ranking(), vec![0, 1, 2]);
    m.seats[2].chips = 1500;
    m.seats[0].chips = 4000;
    m.seats[0].debt = 3000;
    assert_eq!(m.seats[0].net_worth(), 1000);
    assert_eq!(m.ranking(), vec![2, 0, 1]);
    m.seats[1].debt = 1200;
    assert_eq!(m.seats[1].profit(), -1200);
    assert_eq!(m.ranking(), vec![2, 0, 1]);
}

#[test]
fn a_loan_beyond_the_table_is_ignored() {
    let mut m = Match::new(defs(), 9);
    m.borrow(7);
    assert!(m.seats.iter().all(|s| s.debt == 0 && s.chips == 1000));
}

#[test]
fn equal_seeds_give_equal_matches() {
    let a = Match::new(defs(), 77);
    let b = Match::new(defs(), 77);
    assert_eq!(a.scene, b.scene);
    for i in 0..3 {
        assert_eq!(a.hand.players[i].hole, b.hand.players[i].hole);
    }
    assert_eq!(a.hand.scene, a.scene);
    assert!(Scene::ALL.contains(&a.scene));
}

#[test]
fn all_hole_cards_come_from_one_deck() {
    let m = Match::new((0..12).map(|i| SeatDef::new(format!("S{i}"), true)).collect(), 5);
    let mut seen: Vec<(u32, u32)> =
        m.hand.players.iter().flat_map(|p| p.hole.iter().map(|a| (a.power, a.health))).collect();
    seen.sort();
    let mut deck: Vec<(u32, u32)> = riverborn::game::sample_adventurer_deck()
        .iter()
        .map(|a| (a.power, a.health))
        .collect();
    deck.sort();
    assert_eq!(seen, deck);
    // A thirteenth seat finds the deck empty.
    let more = Match::new((0..13).map(|i| SeatDef::new(format!("S{i}"), true)).collect(), 5);
    let last = &more.hand.players[12];
    assert_eq!((last.hole[0].power, last.hole[0].health), (3, 9));
    assert_eq!((last.hole[1].power, last.hole[1].health), (6, 3));
}

#[test]
fn limits_are_found_before_they_are_reached() {
    let mut m = Match::new(defs(), 9);
    assert!(debts_can_grow(&m) && can_borrow(&m, 0) && can_go_on(&m));
    m.seats[1].debt = 858_993_459;
    assert!(debts_can_grow(&m));
    m.seats[1].debt = 858_993_460;
    assert!(!debts_can_grow(&m));
    m.seats[0].loans = u32::MAX;
    assert!(!can_borrow(&m, 0) && can_borrow(&m, 2));
    m.hand_no = u32::MAX;
    assert!(!can_go_on(&m));
}

#[test]
fn folded_players_keep_what_they_have() {
    let mut m = Match::new(defs(), 12);
    m.hand.apply(Action::Fold).unwrap();
    assert_eq!(m.hand.players[0].status, PlayerStatus::Folded);
    play_out(&mut m, 200);
    m.settle_hand(&[(PlayerId(1), [0, 1, 2])]);
    assert_eq!(m.seats[0].chips, 990);
}

#[test]
fn a_loan_after_the_settlement_leaves_the_hand_alone() {
    let mut m = Match::new(defs(), 3);
    play_out(&mut m, 200);
    let at_showdown = m.hand.players[0].chips;
    m.borrow(0);
    assert_eq!(m.hand.players[0].chips, at_showdown + BUY_IN);
    m.settle_hand(&[]);
    assert_eq!(m.hand.phase, Phase::Done);
    let (hand, seat) = (m.hand.players[0].chips, m.seats[0].chips);
    let (debt, worth) = (m.seats[0].debt, m.seats[0].net_worth());
    assert!(can_borrow(&m, 0));
    m.borrow(0);
    assert_eq!(m.hand.players[0].chips, hand);
    assert_eq!((m.seats[0].chips, m.seats[0].debt), (seat + BUY_IN, debt + BUY_IN));
    assert_eq!((m.seats[0].loans, m.seats[0].net_worth()), (2, worth));
    m.next_hand();
    assert_eq!(m.hand.players[0].chips + m.hand.players[0].committed, seat + BUY_IN);
}
