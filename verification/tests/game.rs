use riverborn::cards::{
    Adventurer, Class, CommunityCard, ConsumKind, EquipKind, Monster, MonsterKind, Scene,
};
use riverborn::game::{
    sample_adventurer_deck, sample_community_deck, sample_dungeon_decks, Action, ActionError, Game,
    Phase,
};
use riverborn::player::{Player, PlayerId, PlayerStatus};

fn demo_players(n: u32, chips: u32) -> Vec<Player> {
    (0..n)
        .map(|i| {
            Player::new(
                i,
                format!("P{i}"),
                i != 0,
                chips,
                [
                    Adventurer::new(Class::Warrior, 4, 9, "Warrior"),
                    Adventurer::new(Class::Mage, 6, 3, "Mage"),
                ],
            )
        })
        .collect()
}

#[test]
fn ante_collected_into_pot() {
    let g = Game::new(demo_players(3, 100), 5, 42);
    assert_eq!(g.pot, 15);
    assert!(g.players.iter().all(|p| p.chips == 95));
    assert_eq!(g.phase, Phase::PreFlop);
}

#[test]
fn checking_around_advances_phase_and_deals() {
    // After the ante everyone has matched the line of 5, so everyone can check.
    let mut g = Game::new(demo_players(3, 100), 5, 1);
    for _ in 0..3 {
        g.apply(Action::Check).unwrap();
    }
    assert_eq!(g.phase, Phase::Flop);
    assert_eq!(g.community.len(), 3);
    assert_eq!(g.dungeon.len(), 1);
}

#[test]
fn raise_forces_others_to_respond() {
    let mut g = Game::new(demo_players(3, 100), 5, 7);
    g.apply(Action::Raise { to: 20 }).unwrap();
    assert_eq!(g.phase, Phase::PreFlop);
    g.apply(Action::Call).unwrap();
    g.apply(Action::Fold).unwrap();
    assert_eq!(g.phase, Phase::Flop);
    assert_eq!(g.players_in_hand(), 2);
    // Three antes of 5, and 15 more from each of two players.
    assert_eq!(g.pot, 45);
}

#[test]
fn everyone_folds_to_one_goes_to_showdown() {
    let mut g = Game::new(demo_players(3, 100), 5, 3);
    g.apply(Action::Raise { to: 30 }).unwrap();
    g.apply(Action::Fold).unwrap();
    g.apply(Action::Fold).unwrap();
    // The last player still has to clear the dungeon to win.
    assert_eq!(g.phase, Phase::Showdown);
    assert_eq!(g.players_in_hand(), 1);
}

#[test]
fn team_caps_at_three_community_cards() {
    let hole = [
        Adventurer::new(Class::Warrior, 0, 0, "Warrior"),
        Adventurer::new(Class::Warrior, 0, 0, "Warrior"),
    ];
    let mut g = Game::new(demo_players(2, 200), 10, 5);
    g.community = (0..5)
        .map(|_| CommunityCard::Unit(Adventurer::new(Class::Warrior, 5, 5, "Warrior")))
        .collect();
    g.dungeon = vec![Monster::new(MonsterKind::Boss, 20, 20, "Boss")];
    g.scene = Scene::StoneArena;
    // Power 15 + 12 + 2, health 15 + 12, less the boss's 20.
    let o = g.simulate_clear(&hole);
    assert!(o.cleared);
    assert_eq!(o.remaining_health, 7, "用 4/5 张会让余血更高，余血=7 证明只取了 3 张");
    assert_eq!(o.remaining_power, 29);
}

#[test]
fn class_pair_and_triple_synergy() {
    let hole = [
        Adventurer::new(Class::Mage, 5, 2, "Mage"),
        Adventurer::new(Class::Mage, 5, 2, "Mage"),
    ];
    let mut g = Game::new(demo_players(2, 200), 10, 1);
    g.community = vec![];
    g.dungeon = vec![];
    g.scene = Scene::StoneArena;
    let o = g.simulate_clear(&hole);
    assert_eq!(o.team_power, 18);
    assert_eq!(o.team_health, 10);
}

#[test]
fn equipment_needs_bound_class() {
    let mut g = Game::new(demo_players(2, 200), 10, 1);
    g.dungeon = vec![];
    g.scene = Scene::Tomb;
    let warriors = [
        Adventurer::new(Class::Warrior, 3, 5, "Warrior"),
        Adventurer::new(Class::Rogue, 3, 5, "Rogue"),
    ];
    g.community = vec![CommunityCard::Equip(EquipKind::ArcaneStaff)];
    let no = g.simulate_clear(&warriors);
    assert_eq!(no.team_power, 7);
    let mage = [
        Adventurer::new(Class::Mage, 3, 5, "Mage"),
        Adventurer::new(Class::Rogue, 3, 5, "Rogue"),
    ];
    let yes = g.simulate_clear(&mage);
    assert_eq!(yes.team_power, 7 + 6, "队伍有法师，法杖应生效 +6 战力");
}

#[test]
fn allin_berserk_adds_boss_threat() {
    let hole = [
        Adventurer::new(Class::Warrior, 50, 45, "Warrior"),
        Adventurer::new(Class::Warrior, 0, 0, "Warrior"),
    ];
    let mut g = Game::new(demo_players(2, 200), 10, 1);
    g.community = vec![];
    g.scene = Scene::StoneArena;
    g.dungeon = vec![Monster::new(MonsterKind::Boss, 20, 100, "Boss")];
    let calm = g.simulate_clear(&hole);
    g.boss_berserk = true;
    let rage = g.simulate_clear(&hole);
    assert!(calm.cleared && rage.cleared);
    assert_eq!(
        calm.remaining_health - rage.remaining_health,
        10,
        "狂暴让 Boss 威胁 +10(20→30)"
    );
}

#[test]
fn small_allin_does_not_trigger_berserk() {
    let mut g = Game::new(demo_players(2, 1000), 10, 1);
    g.players[0].chips = 20;
    g.to_act = 0;
    g.apply(Action::AllIn).unwrap();
    assert!(!g.boss_berserk, "小额 all-in 不该触发狂暴");

    let mut g2 = Game::new(demo_players(2, 1000), 10, 2);
    g2.to_act = 0;
    g2.apply(Action::AllIn).unwrap();
    assert!(g2.boss_berserk, "大额 all-in 应触发狂暴");
}

#[test]
fn early_allfold_runs_out_full_board() {
    let mut g = Game::new(demo_players(3, 200), 10, 3);
    g.apply(Action::Raise { to: 40 }).unwrap();
    g.apply(Action::Fold).unwrap();
    g.apply(Action::Fold).unwrap();
    assert_eq!(g.phase, Phase::Showdown);
    assert_eq!(g.community.len(), 5, "早摊牌应补满 5 张公共牌");
    assert_eq!(g.dungeon.len(), 3, "早摊牌应补齐完整地牢三档");
    assert_eq!(g.dungeon[0].kind, MonsterKind::Goblin);
    assert_eq!(g.dungeon[2].kind, MonsterKind::Boss);
    let _ = g.settle();
}

#[test]
fn full_hand_reaches_showdown_and_settles() {
    let mut g = Game::new(demo_players(2, 200), 10, 99);
    let mut guard = 0;
    while g.phase != Phase::Showdown && guard < 50 {
        let p = g.active_player().unwrap();
        let act = if p.committed >= g.current_bet { Action::Check } else { Action::Call };
        g.apply(act).unwrap();
        guard += 1;
    }
    assert_eq!(g.phase, Phase::Showdown);
    assert_eq!(g.community.len(), 5);
    assert_eq!(g.dungeon.len(), 3);

    let s = g.settle();
    assert_eq!(s.pot, g.pot);
    assert_eq!(s.results.len(), 2);
}

#[test]
fn every_refusal_has_its_reason_and_changes_nothing() {
    let mut g = Game::new(demo_players(3, 100), 5, 7);
    g.apply(Action::Raise { to: 20 }).unwrap();
    let (pot, turn, aggro) = (g.pot, g.to_act, g.aggro);
    assert_eq!(g.apply(Action::Check), Err(ActionError::CannotCheck));
    assert_eq!(g.apply(Action::Raise { to: 20 }), Err(ActionError::RaiseTooSmall));
    assert_eq!(g.apply(Action::Raise { to: 101 }), Err(ActionError::NotEnoughChips));
    assert_eq!((g.pot, g.to_act, g.aggro), (pot, turn, aggro));
    g.players[turn].status = PlayerStatus::Folded;
    assert_eq!(g.apply(Action::Call), Err(ActionError::NotPlayersTurn));
    g.finish();
    assert_eq!(g.apply(Action::Call), Err(ActionError::HandOver));
}

#[test]
fn aggro_counts_half_points() {
    let mut g = Game::new(demo_players(3, 1000), 5, 7);
    g.apply(Action::Raise { to: 20 }).unwrap();
    assert_eq!(g.aggro, 2);
    g.apply(Action::Call).unwrap();
    assert_eq!(g.aggro, 3);
    g.apply(Action::AllIn).unwrap();
    assert_eq!(g.aggro, 9);
    assert!(g.boss_berserk);
}

#[test]
fn a_volcano_heats_up_with_every_round() {
    let mut g = Game::new(demo_players(2, 100), 5, 7);
    g.set_scene(Scene::Volcano);
    for _ in 0..2 {
        g.apply(Action::Check).unwrap();
    }
    assert_eq!(g.aggro, 2);
    for _ in 0..4 {
        g.apply(Action::Check).unwrap();
    }
    assert_eq!((g.aggro, g.phase), (6, Phase::River));
    for _ in 0..2 {
        g.apply(Action::Check).unwrap();
    }
    assert_eq!((g.aggro, g.phase), (6, Phase::Showdown));
}

#[test]
fn money_is_neither_made_nor_lost() {
    let mut g = Game::new(demo_players(4, 300), 10, 11);
    let worth = |g: &Game| g.pot + g.players.iter().map(|p| p.chips).sum::<u32>();
    assert_eq!(worth(&g), 1200);
    for action in [
        Action::Raise { to: 50 },
        Action::Call,
        Action::Fold,
        Action::AllIn,
        Action::Call,
        Action::Fold,
    ] {
        g.apply(action).unwrap();
        assert_eq!(worth(&g), 1200);
    }
    assert_eq!(g.phase, Phase::Showdown);
}

#[test]
fn everyone_all_in_deals_the_rest_at_once() {
    let mut g = Game::new(demo_players(2, 100), 10, 4);
    g.apply(Action::AllIn).unwrap();
    g.apply(Action::Call).unwrap();
    assert_eq!(g.phase, Phase::Showdown);
    assert_eq!((g.community.len(), g.dungeon.len()), (5, 3));
    assert!(g.players.iter().all(|p| p.status == PlayerStatus::AllIn && p.chips == 0));
    assert_eq!(g.pot, 200);
}

#[test]
fn equal_seeds_deal_equal_boards() {
    let board = |seed: u64| {
        let mut g = Game::new(demo_players(2, 100), 10, seed);
        g.apply(Action::Fold).unwrap();
        (g.community, g.dungeon)
    };
    assert_eq!(board(17), board(17));
    assert_ne!(board(17), board(18));
}

#[test]
fn a_short_stack_antes_what_it_has() {
    let mut players = demo_players(2, 100);
    players[1].chips = 3;
    let g = Game::new(players, 5, 1);
    assert_eq!(g.pot, 8);
    assert_eq!((g.players[1].chips, g.players[1].committed), (0, 3));
}

#[test]
fn picks_by_hand_replace_the_best_team() {
    let mut g = Game::new(demo_players(2, 100), 10, 1);
    let weak = CommunityCard::Consum(ConsumKind::Purify);
    let strong = CommunityCard::Unit(Adventurer::new(Class::Warrior, 50, 50, "Knight"));
    g.community = vec![weak, weak, weak, strong, weak];
    g.dungeon = vec![Monster::new(MonsterKind::Boss, 30, 20, "Boss")];
    let all = g.settle();
    assert!(all.results.iter().all(|r| r.cleared));
    let one = g.settle_with_selection(PlayerId(0), [0, 1, 2]);
    assert!(!one.results[0].cleared);
    assert_eq!(one.winner, Some(PlayerId(1)));
    assert_eq!((one.results[0].advantage, one.results[0].remaining_health), (0, 0));
}

#[test]
fn the_last_of_equal_winners_takes_the_pot() {
    let mut g = Game::new(demo_players(3, 100), 10, 1);
    g.dungeon = vec![];
    assert_eq!(g.settle().winner, Some(PlayerId(2)));
    g.players[2].status = PlayerStatus::Folded;
    let s = g.settle();
    assert_eq!((s.winner, s.results.len()), (Some(PlayerId(1)), 2));
}

#[test]
fn nobody_wins_where_nobody_clears() {
    let mut g = Game::new(demo_players(2, 100), 10, 1);
    g.dungeon = vec![Monster::new(MonsterKind::Boss, 900, 900, "Boss")];
    let s = g.settle();
    assert_eq!(s.winner, None);
    assert!(s.results.iter().all(|r| !r.cleared && r.team_power > 0));
}

#[test]
fn indices_beyond_the_pool_name_nothing() {
    let mut g = Game::new(demo_players(2, 100), 10, 1);
    let unit = Adventurer::new(Class::Rogue, 5, 5, "Rogue");
    g.community = vec![CommunityCard::Unit(unit)];
    g.dungeon = vec![];
    let hole = [unit, Adventurer::new(Class::Mage, 1, 1, "Mage")];
    let r = g.clear_with_selection(&hole, &[9, 0, 7]);
    // Two rogues: 5 + 5 + 1 + 6 for the pair + 2 for the arena.
    assert_eq!((r.team_power, r.team_health), (19, 17));
}

#[test]
fn the_decks_hold_what_they_should() {
    let community = sample_community_deck();
    assert_eq!(community.len(), 24);
    assert_eq!(community.iter().filter(|c| matches!(c, CommunityCard::Unit(_))).count(), 15);
    let holes = sample_adventurer_deck();
    assert_eq!(holes.len(), 24);
    assert_eq!(holes[0], holes[8]);
    assert_eq!(holes[3].power, 10);
    let (small, elite, boss) = sample_dungeon_decks();
    assert_eq!((small.len(), elite.len(), boss.len()), (3, 3, 4));
    assert!(boss.iter().all(|m| m.kind == MonsterKind::Boss));
}

#[test]
fn no_picks_by_hand_beat_the_best_team() {
    for seed in 0..20u64 {
        let mut g = Game::new(demo_players(3, 100), 10, seed);
        g.apply(Action::Fold).unwrap();
        g.apply(Action::Fold).unwrap();
        assert_eq!(g.community.len(), 5);
        let hole = g.players[2].hole;
        let best = g.simulate_clear(&hole).pick_score();
        let mut highest = 0;
        for a in 0..5 {
            for b in 0..5 {
                for c in 0..5 {
                    if a != b && b != c && a != c {
                        let score = g.clear_with_selection(&hole, &[a, b, c]).pick_score();
                        let padded = g.clear_with_selection(&hole, &[9, a, b, 5, c]).pick_score();
                        assert!(score <= best && padded == score);
                        highest = highest.max(score);
                    }
                }
            }
        }
        assert_eq!(highest, best);
    }
}
