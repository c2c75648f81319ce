use riverborn::cards::{
    Adventurer, Class, CommunityCard, ConsumKind, EquipKind, Monster, MonsterKind, Scene,
};
use riverborn::combat::{
    build_squad, class_synergy, node_threat, resolve, run_dungeon, Report, Squad,
};

fn unit(class: Class, power: u32, health: u32) -> Adventurer {
    Adventurer::new(class, power, health, "x")
}

fn node(kind: MonsterKind, threat: u32, health: u32) -> Monster {
    Monster::new(kind, threat, health, "x")
}

fn squad(power: u32, health: u32) -> Squad {
    Squad { power, health, has_cleanse: false, has_fireball: false, has_smoke: false }
}

#[test]
fn synergy_counts_each_class_on_its_own() {
    let units = vec![
        unit(Class::Mage, 0, 0),
        unit(Class::Mage, 0, 0),
        unit(Class::Rogue, 0, 0),
        unit(Class::Rogue, 0, 0),
        unit(Class::Rogue, 0, 0),
    ];
    assert_eq!(class_synergy(&units), (18, 18));
    assert_eq!(class_synergy(&vec![unit(Class::Mage, 0, 0), unit(Class::Rogue, 0, 0)]), (0, 0));
}

#[test]
fn a_team_is_put_together() {
    let hole = [unit(Class::Ranger, 4, 5), unit(Class::Mage, 6, 3)];
    let picks = [
        CommunityCard::Unit(unit(Class::Ranger, 7, 7)),
        CommunityCard::Equip(EquipKind::Longbow),
        CommunityCard::Consum(ConsumKind::HealingPotion),
    ];
    let s = build_squad(&hole, &picks, Scene::WheatField);
    // 17 of the units, 9 of the field, 6 of the pair, 5 of the bow.
    assert_eq!(s.power, 37);
    // 15 of the units, 6 of the pair, 6 of the potion.
    assert_eq!(s.health, 27);
    assert!(s.has_cleanse && !s.has_fireball && !s.has_smoke);
}

#[test]
fn a_team_never_falls_below_zero() {
    let hole = [unit(Class::Ranger, 0, 0), unit(Class::Mage, 1, 0)];
    let s = build_squad(&hole, &[], Scene::IceField);
    assert_eq!((s.power, s.health), (0, 0));
    let s = build_squad(&hole, &[], Scene::Tomb);
    assert_eq!((s.power, s.health), (2, 0));
}

#[test]
fn a_cleric_heals_too() {
    let hole = [unit(Class::Cleric, 1, 1), unit(Class::Mage, 1, 1)];
    assert!(build_squad(&hole, &[], Scene::Marsh).has_cleanse);
    let bare = [unit(Class::Rogue, 1, 1), unit(Class::Mage, 1, 1)];
    assert!(!build_squad(&bare, &[], Scene::Marsh).has_cleanse);
    let purify = [CommunityCard::Consum(ConsumKind::Purify)];
    assert!(build_squad(&bare, &purify, Scene::Marsh).has_cleanse);
}

#[test]
fn aggro_stirs_elites_and_bosses_only() {
    for (kind, grows) in [
        (MonsterKind::Goblin, false),
        (MonsterKind::Treasure, false),
        (MonsterKind::Elite, true),
        (MonsterKind::PoisonSwamp, true),
        (MonsterKind::Boss, true),
    ] {
        let n = node(kind, 5, 5);
        assert_eq!(node_threat(&n, 7, false), 5);
        assert_eq!(node_threat(&n, 8, false), if grows { 6 } else { 5 });
        assert_eq!(node_threat(&n, 25, false), if grows { 8 } else { 5 });
    }
}

#[test]
fn rage_adds_ten_to_a_boss() {
    assert_eq!(node_threat(&node(MonsterKind::Boss, 5, 5), 0, true), 15);
    assert_eq!(node_threat(&node(MonsterKind::Elite, 5, 5), 0, true), 5);
}

#[test]
fn a_team_needs_power_for_and_more_health_than_the_threat() {
    let dungeon = [node(MonsterKind::Goblin, 5, 5)];
    let run = |p, h| run_dungeon(&squad(p, h), Scene::StoneArena, &dungeon, 0, false);
    assert_eq!(run(5, 6), Some((1, 5)));
    assert_eq!(run(4, 60), None);
    assert_eq!(run(50, 5), None);
}

#[test]
fn fireball_and_smoke_weaken_nodes() {
    let dungeon = [node(MonsterKind::Goblin, 10, 5), node(MonsterKind::Goblin, 10, 5)];
    let bare = squad(20, 50);
    let fire = Squad { has_fireball: true, ..squad(20, 50) };
    let smoke = Squad { has_smoke: true, ..squad(20, 50) };
    let left = |s: &Squad| run_dungeon(s, Scene::Tomb, &dungeon, 0, false).unwrap().0;
    assert_eq!(left(&bare), 30);
    assert_eq!(left(&fire), 38);
    assert_eq!(left(&smoke), 34);
}

#[test]
fn the_marsh_poisons_without_healing() {
    let dungeon = [
        node(MonsterKind::Treasure, 9, 9),
        node(MonsterKind::Treasure, 9, 9),
        node(MonsterKind::Treasure, 9, 9),
    ];
    let sick = run_dungeon(&squad(20, 20), Scene::Marsh, &dungeon, 0, false);
    assert_eq!(sick, Some((14, 14)));
    let well = Squad { has_cleanse: true, ..squad(20, 20) };
    assert_eq!(run_dungeon(&well, Scene::Marsh, &dungeon, 0, false), Some((20, 20)));
    assert_eq!(run_dungeon(&well, Scene::Tomb, &dungeon, 0, false), Some((20, 20)));
}

#[test]
fn a_swamp_costs_weak_teams_half_its_threat() {
    let dungeon = [node(MonsterKind::PoisonSwamp, 9, 30)];
    assert_eq!(run_dungeon(&squad(50, 29), Scene::Tomb, &dungeon, 0, false), Some((16, 50)));
    assert_eq!(run_dungeon(&squad(50, 30), Scene::Tomb, &dungeon, 0, false), Some((21, 50)));
}

#[test]
fn a_wiped_team_still_has_a_report() {
    let hole = [unit(Class::Ranger, 4, 5), unit(Class::Mage, 6, 3)];
    let dungeon = [node(MonsterKind::Boss, 100, 5)];
    let r = resolve(&hole, &[], Scene::Volcano, &dungeon, 0, false);
    assert!(!r.cleared);
    assert_eq!((r.team_power, r.team_health), (10, 8));
    assert_eq!((r.advantage(), r.pick_score()), (0, 18));
}

#[test]
fn cleared_runs_score_above_wiped_ones() {
    let cleared = Report {
        team_power: 1,
        team_health: 1,
        cleared: true,
        remaining_health: 2,
        remaining_power: 3,
    };
    assert_eq!((cleared.advantage(), cleared.pick_score()), (5, 1_000_005));
    let wiped = Report { cleared: false, team_power: 500, team_health: 400, ..cleared };
    assert!(wiped.pick_score() < cleared.pick_score());
}

#[test]
fn more_aggro_never_helps() {
    let hole = [unit(Class::Warrior, 20, 30), unit(Class::Warrior, 20, 30)];
    let dungeon = [
        node(MonsterKind::Goblin, 5, 5),
        node(MonsterKind::PoisonSwamp, 8, 12),
        node(MonsterKind::Boss, 13, 20),
    ];
    let mut last = u32::MAX;
    for aggro in 0..300 {
        let r = resolve(&hole, &[], Scene::Volcano, &dungeon, aggro, false);
        assert!(r.remaining_health <= last);
        last = r.remaining_health;
    }
    assert_eq!(last, 0);
}

#[test]
fn equipment_tags_name_class_and_bonus() {
    assert_eq!(EquipKind::IronShield.tag(), "战专 +0P7H");
    assert_eq!(EquipKind::ArcaneStaff.tag(), "法专 +6P0H");
    assert_eq!(EquipKind::Dagger.tag(), "盗专 +5P0H");
    assert_eq!(EquipKind::Longbow.tag(), "游专 +5P0H");
    assert_eq!(EquipKind::HolyChalice.tag(), "神专 +0P6H");
    assert_eq!(ConsumKind::SmokeBomb.tag(), "烟雾·首节减伤");
    assert_eq!(CommunityCard::Equip(EquipKind::HolyChalice).art(), "Holy_Chalice");
    assert_eq!(Scene::Volcano.label(), "火山 (每轮 Boss 惊动 +1)");
    assert_eq!(Scene::Marsh.art(), "bkg_marsh");
    assert_eq!(Scene::Tomb.flat_buff(), (1, -1));
}
