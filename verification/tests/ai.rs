use riverborn::ai::{decide, strength_to_raise_chance};
use riverborn::cards::{Adventurer, Class, Monster, MonsterKind};
use riverborn::game::{Action, Game, Phase};
use riverborn::player::Player;

fn players() -> Vec<Player> {
    vec![
        Player::new(
            0,
            "AI0".to_string(),
            true,
            200,
            [
                Adventurer::new(Class::Warrior, 4, 9, "Warrior"),
                Adventurer::new(Class::Cleric, 2, 6, "Cleric"),
            ],
        ),
        Player::new(
            1,
            "AI1".to_string(),
            true,
            200,
            [
                Adventurer::new(Class::Mage, 6, 3, "Mage"),
                Adventurer::new(Class::Rogue, 5, 4, "Rogue"),
            ],
        ),
        Player::new(
            2,
            "AI2".to_string(),
            true,
            200,
            [
                Adventurer::new(Class::Ranger, 4, 5, "Archer"),
                Adventurer::new(Class::Warrior, 3, 8, "Knight"),
            ],
        ),
    ]
}

#[test]
fn weak_hand_folds_to_a_real_bet() {
    let mut g = Game::new(players(), 10, 1);
    g.players[0].hole = [
        Adventurer::new(Class::Mage, 0, 0, "Mage"),
        Adventurer::new(Class::Mage, 0, 0, "Mage"),
    ];
    g.community = vec![];
    g.dungeon = vec![Monster::new(MonsterKind::Boss, 50, 50, "Boss")];
    g.current_bet = 60;
    g.players[0].committed = 0;
    g.to_act = 0;
    assert!(!g.simulate_clear(&g.players[0].hole).cleared, "构造应使其打不过");
    assert_eq!(decide(&g, 0), Action::Fold, "打不过又面对大注，应弃牌");
}

#[test]
fn ai_only_table_reaches_showdown_with_legal_actions() {
    let mut g = Game::new(players(), 10, 2024);
    let mut guard = 0;
    while g.phase != Phase::Showdown && guard < 200 {
        let idx = g.to_act;
        let action = decide(&g, idx);
        g.apply(action).expect("AI 给出的动作必须合法");
        guard += 1;
    }
    assert_eq!(g.phase, Phase::Showdown, "AI 对局应能推进到摊牌");
    let s = g.settle();
    assert_eq!(s.pot, g.pot);
}

#[test]
fn stronger_hands_raise_more_often() {
    let chances: Vec<u64> =
        [0, 11, 12, 24, 25, 39, 40, 59, 60, 1000].iter().map(|a| strength_to_raise_chance(*a)).collect();
    assert_eq!(chances, vec![8, 8, 22, 22, 42, 42, 60, 60, 72, 72]);
}

#[test]
fn a_strong_hand_calls_with_everything_it_has() {
    let mut g = Game::new(players(), 10, 1);
    g.players[0].hole = [
        Adventurer::new(Class::Mage, 60, 60, "Mage"),
        Adventurer::new(Class::Mage, 60, 60, "Mage"),
    ];
    g.dungeon = vec![Monster::new(MonsterKind::Boss, 20, 20, "Boss")];
    g.current_bet = 500;
    g.to_act = 0;
    assert_eq!(decide(&g, 0), Action::AllIn);
}

#[test]
fn a_losing_hand_checks_for_free_before_the_flop() {
    let mut g = Game::new(players(), 10, 1);
    g.players[0].hole = [
        Adventurer::new(Class::Mage, 0, 0, "Mage"),
        Adventurer::new(Class::Rogue, 0, 0, "Rogue"),
    ];
    g.dungeon = vec![Monster::new(MonsterKind::Boss, 50, 50, "Boss")];
    g.to_act = 0;
    assert_eq!(decide(&g, 0), Action::Check);
}

#[test]
fn every_decision_is_accepted_and_every_hand_ends() {
    for seed in 0..200u64 {
        let mut g = Game::new(players(), 10, seed);
        let mut steps = 0;
        while g.phase != Phase::Showdown {
            let action = decide(&g, g.to_act);
            assert!(g.apply(action).is_ok());
            steps += 1;
            assert!(steps < 500);
        }
        assert_eq!((g.community.len(), g.dungeon.len()), (5, 3));
    }
}

#[test]
fn raise_chances_grow_with_the_hand() {
    for adv in 0..200 {
        assert!(strength_to_raise_chance(adv) <= strength_to_raise_chance(adv + 1));
    }
}

#[test]
fn what_costs_nothing_is_not_folded() {
    for seed in 0..60 {
        let g = Game::new(players(), 10, seed);
        assert_ne!(decide(&g, g.to_act), Action::Fold);
    }
}

#[test]
fn the_machine_never_raises_with_its_last_chips() {
    let decisions = |chips: u32| -> Vec<Action> {
        (0..200)
            .map(|pot| {
                let mut g = Game::new(players(), 10, 1);
                g.players[0].hole = [
                    Adventurer::new(Class::Mage, 60, 60, "Mage"),
                    Adventurer::new(Class::Mage, 60, 60, "Mage"),
                ];
                g.dungeon = vec![Monster::new(MonsterKind::Boss, 20, 20, "Boss")];
                g.phase = Phase::Flop;
                g.pot = pot;
                g.current_bet = 0;
                g.players[0].committed = 0;
                g.players[0].chips = chips;
                g.to_act = 0;
                decide(&g, 0)
            })
            .collect()
    };
    assert!(decisions(20).iter().all(|a| *a == Action::Check));
    assert!(decisions(21).contains(&Action::Raise { to: 20 }));
}
