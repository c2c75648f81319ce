//! What holds of teams and their walk: what each card, each class and each scene adds, and what
//! each node of the dungeon takes.
use crate::cards::{
    Adventurer, Class, CommunityCard, ConsumKind, EquipKind, Monster, MonsterKind, Scene,
};
use crate::combat::{
    as_i32, battle, class_count, has_class, picked_units, raw_health, raw_power, run_from, run_start,
    squad_of, synergy, synergy_bonus, team_units, threat_of, total_gear_health, total_gear_power,
    units_health, units_power, Report, RunState, Squad,
};
use crate::picking_laws::lemma_has_class;
use vstd::prelude::*;

verus! {

// ---- Terms ----

/// The unit card is of the class.
pub open spec fn is_unit_of(card: CommunityCard, class: Class) -> bool {
    match card {
        CommunityCard::Unit(a) => a.class == class,
        _ => false,
    }
}

/// How many units of the class are among the hole cards and the picked cards.
pub open spec fn units_of(hole: Seq<Adventurer>, picks: Seq<CommunityCard>, class: Class) -> int {
    hole.filter(|u: Adventurer| u.class == class).len() as int + picks.filter(
        |card: CommunityCard| is_unit_of(card, class),
    ).len()
}

/// What a unit that joins `n` of its own class adds by standing beside them: it makes a pair, or
/// three of a kind.
pub open spec fn company_bonus(n: int) -> int {
    if n == 1 || n == 2 {
        6
    } else {
        0
    }
}

/// A card whose numbers are in the range that cards have.
pub open spec fn plain_unit(a: Adventurer) -> bool {
    a.power <= i32::MAX && a.health <= i32::MAX
}

/// What a field of wheat adds to the power of a unit.
pub open spec fn harvest(scene: Scene, class: Class) -> int {
    if scene == Scene::WheatField && (class == Class::Ranger || class == Class::Mage) {
        3
    } else {
        0
    }
}

// ---- Synergy ----

proof fn lemma_count_of_push(units: Seq<Adventurer>, u: Adventurer, class: Class)
    ensures
        class_count(units.push(u), class) == class_count(units, class) + (if u.class == class {
            1int
        } else {
            0int
        }),
{
    reveal(Seq::filter);
    assert(units.push(u).drop_last() =~= units);
}

/// For every class alike: a unit that joins exactly one of its class, or exactly two, adds six;
/// one that joins none, or three and more, adds nothing. Without units there is no synergy.
pub proof fn company_makes_synergy(units: Seq<Adventurer>, u: Adventurer)
    ensures
        synergy(Seq::empty()) == 0,
        synergy(units.push(u)) == synergy(units) + company_bonus(
            units.filter(|v: Adventurer| v.class == u.class).len() as int,
        ),
{
    reveal(Seq::filter);
    let none = Seq::<Adventurer>::empty();
    assert(class_count(none, Class::Warrior) == 0);
    assert(class_count(none, Class::Cleric) == 0);
    assert(class_count(none, Class::Mage) == 0);
    assert(class_count(none, Class::Rogue) == 0);
    assert(class_count(none, Class::Ranger) == 0);
    lemma_count_of_push(units, u, Class::Warrior);
    lemma_count_of_push(units, u, Class::Cleric);
    lemma_count_of_push(units, u, Class::Mage);
    lemma_count_of_push(units, u, Class::Rogue);
    lemma_count_of_push(units, u, Class::Ranger);
    assert(class_count(units, u.class) == units.filter(
        |v: Adventurer| v.class == u.class,
    ).len());
}

/// The unit under another name for its class.
pub open spec fn renamed(u: Adventurer, name: spec_fn(Class) -> Class) -> Adventurer {
    Adventurer { class: name(u.class), ..u }
}

proof fn lemma_renamed_count(units: Seq<Adventurer>, name: spec_fn(Class) -> Class, class: Class)
    requires
        forall|a: Class, b: Class| #[trigger] name(a) == #[trigger] name(b) ==> a == b,
    ensures
        class_count(units.map_values(|u: Adventurer| renamed(u, name)), name(class))
            == class_count(units, class),
    decreases units.len(),
{
    reveal(Seq::filter);
    let f = |u: Adventurer| renamed(u, name);
    if units.len() > 0 {
        lemma_renamed_count(units.drop_last(), name, class);
        assert(units.map_values(f).drop_last() =~= units.drop_last().map_values(f));
    }
}

/// No class counts more than another: under other names for the classes, a different one for
/// each, a team has the same synergy.
pub proof fn synergy_knows_no_favourites(units: Seq<Adventurer>, name: spec_fn(Class) -> Class)
    requires
        forall|a: Class, b: Class| #[trigger] name(a) == #[trigger] name(b) ==> a == b,
    ensures
        synergy(units.map_values(|u: Adventurer| renamed(u, name))) == synergy(units),
{
    let other = units.map_values(|u: Adventurer| renamed(u, name));
    lemma_renamed_count(units, name, Class::Warrior);
    lemma_renamed_count(units, name, Class::Cleric);
    lemma_renamed_count(units, name, Class::Mage);
    lemma_renamed_count(units, name, Class::Rogue);
    lemma_renamed_count(units, name, Class::Ranger);
    let bonus = |c: Class| synergy_bonus(class_count(other, c));
    lemma_all_names(
        bonus,
        name(Class::Warrior),
        name(Class::Cleric),
        name(Class::Mage),
        name(Class::Rogue),
        name(Class::Ranger),
    );
}

proof fn lemma_all_names(f: spec_fn(Class) -> int, a: Class, b: Class, c: Class, d: Class, e: Class)
    requires
        a != b && a != c && a != d && a != e,
        b != c && b != d && b != e,
        c != d && c != e,
        d != e,
    ensures
        f(a) + f(b) + f(c) + f(d) + f(e) == f(Class::Warrior) + f(Class::Cleric) + f(Class::Mage)
            + f(Class::Rogue) + f(Class::Ranger),
{
}

// ---- What a team is made of ----

proof fn lemma_units_of(hole: Seq<Adventurer>, picks: Seq<CommunityCard>, class: Class)
    ensures
        class_count(team_units(hole, picks), class) == units_of(hole, picks, class),
    decreases picks.len(),
{
    reveal(Seq::filter);
    if picks.len() == 0 {
        assert(team_units(hole, picks) =~= hole);
    } else {
        let rest = picks.drop_last();
        lemma_units_of(hole, rest, class);
        match picks.last() {
            CommunityCard::Unit(a) => {
                assert(team_units(hole, picks) =~= team_units(hole, rest).push(a));
                lemma_count_of_push(team_units(hole, rest), a, class);
            },
            _ => {
                assert(team_units(hole, picks) =~= team_units(hole, rest));
            },
        }
    }
}

proof fn lemma_synergy_of_push(units: Seq<Adventurer>, u: Adventurer)
    ensures
        synergy(units.push(u)) == synergy(units) + company_bonus(
            class_count(units, u.class) as int,
        ),
{
    company_makes_synergy(units, u);
    assert(class_count(units, u.class) == units.filter(
        |v: Adventurer| v.class == u.class,
    ).len());
}

/// Two hole cards on their own bring their numbers, six more of each if they are of one class,
/// and what the scene does to everyone: the ice takes two power, the arena gives two, the tomb
/// gives one and takes one health, and wheat gives three power to each ranger and mage.
pub proof fn hole_cards_bring_their_numbers(a: Adventurer, b: Adventurer, scene: Scene)
    requires
        plain_unit(a),
        plain_unit(b),
    ensures
        raw_power(seq![a, b], Seq::empty(), scene) == a.power + b.power + (if a.class == b.class {
            6int
        } else {
            0
        }) + harvest(scene, a.class) + harvest(scene, b.class) + (match scene {
            Scene::IceField => -2int,
            Scene::StoneArena => 2,
            Scene::Tomb => 1,
            _ => 0,
        }),
        raw_health(seq![a, b], Seq::empty(), scene) == a.health + b.health + (if a.class
            == b.class {
            6int
        } else {
            0
        }) - (if scene == Scene::Tomb {
            1int
        } else {
            0
        }),
{
    let picks = Seq::<CommunityCard>::empty();
    let hole = seq![a, b];
    assert(picked_units(picks) =~= Seq::empty());
    assert(team_units(hole, picks) =~= hole);
    lemma_sums_of_two(a, b, scene);
    lemma_synergy_of_two(a, b);
    assert(total_gear_power(picks, hole) == 0);
    assert(total_gear_health(picks, hole) == 0);
}

proof fn lemma_sums_of_two(a: Adventurer, b: Adventurer, scene: Scene)
    requires
        plain_unit(a),
        plain_unit(b),
    ensures
        units_power(seq![a, b], scene) == a.power + b.power + harvest(scene, a.class) + harvest(
            scene,
            b.class,
        ),
        units_health(seq![a, b]) == a.health + b.health,
{
    let one = seq![a];
    let two = seq![a, b];
    assert(two.drop_last() =~= one);
    assert(one.drop_last() =~= Seq::empty());
    assert(units_power(one.drop_last(), scene) == 0);
    assert(units_health(one.drop_last()) == 0);
    assert(units_power(one, scene) == a.power + harvest(scene, a.class));
    assert(units_health(one) == a.health);
}

proof fn lemma_synergy_of_two(a: Adventurer, b: Adventurer)
    ensures
        synergy(seq![a, b]) == (if a.class == b.class {
            6int
        } else {
            0
        }),
{
    let none = Seq::<Adventurer>::empty();
    let one = none.push(a);
    assert(class_count(none, a.class) == 0 && class_count(none, b.class) == 0) by {
        reveal(Seq::filter);
    }
    company_makes_synergy(none, a);
    lemma_synergy_of_push(none, a);
    lemma_synergy_of_push(one, b);
    lemma_count_of_push(none, a, b.class);
    assert(one.push(b) =~= seq![a, b]);
}

proof fn lemma_gear_with_same_classes(
    picks: Seq<CommunityCard>,
    a: Seq<Adventurer>,
    b: Seq<Adventurer>,
    class: Class,
)
    requires
        forall|c: Class| c != class ==> #[trigger] has_class(a, c) == has_class(b, c),
        has_class(a, class) == has_class(b, class) || forall|i: int|
            0 <= i < picks.len() ==> match #[trigger] picks[i] {
                CommunityCard::Equip(k) => k.spec_class() != class,
                _ => true,
            },
    ensures
        total_gear_power(picks, a) == total_gear_power(picks, b),
        total_gear_health(picks, a) == total_gear_health(picks, b),
    decreases picks.len(),
{
    if picks.len() > 0 {
        lemma_gear_with_same_classes(picks.drop_last(), a, b, class);
        assert(picks.last() == picks[picks.len() - 1]);
        match picks.last() {
            CommunityCard::Equip(k) => {
                assert(k.spec_class() == class || has_class(a, k.spec_class()) == has_class(
                    b,
                    k.spec_class(),
                ));
            },
            _ => {},
        }
    }
}

/// The class that a piece of equipment is made for.
pub open spec fn made_for(kind: EquipKind) -> Class {
    match kind {
        EquipKind::IronShield => Class::Warrior,
        EquipKind::Longbow => Class::Ranger,
        EquipKind::HolyChalice => Class::Cleric,
        EquipKind::Dagger => Class::Rogue,
        EquipKind::ArcaneStaff => Class::Mage,
    }
}

/// A picked unit brings its numbers, the company of its class and its share of the wheat. The
/// law is stated where the unit is not the first to lift equipment that lay idle.
pub proof fn picked_units_bring_their_numbers(
    hole: Seq<Adventurer>,
    picks: Seq<CommunityCard>,
    u: Adventurer,
    scene: Scene,
)
    requires
        plain_unit(u),
        units_of(hole, picks, u.class) > 0 || forall|i: int|
            0 <= i < picks.len() ==> match #[trigger] picks[i] {
                CommunityCard::Equip(k) => made_for(k) != u.class,
                _ => true,
            },
    ensures
        raw_power(hole, picks.push(CommunityCard::Unit(u)), scene) == raw_power(hole, picks, scene)
            + u.power + harvest(scene, u.class) + company_bonus(units_of(hole, picks, u.class)),
        raw_health(hole, picks.push(CommunityCard::Unit(u)), scene) == raw_health(
            hole,
            picks,
            scene,
        ) + u.health + company_bonus(units_of(hole, picks, u.class)),
{
    let more = picks.push(CommunityCard::Unit(u));
    let units = team_units(hole, picks);
    assert(more.drop_last() =~= picks);
    assert(team_units(hole, more) =~= units.push(u));
    assert(units.push(u).drop_last() =~= units);
    lemma_synergy_of_push(units, u);
    lemma_units_of(hole, picks, u.class);
    assert forall|c: Class| c != u.class || has_class(units, u.class) implies #[trigger] has_class(
        units,
        c,
    ) == has_class(units.push(u), c) by {
        lemma_has_class(units, c);
        lemma_has_class(units.push(u), c);
        lemma_count_of_push(units, u, c);
    }
    lemma_has_class(units, u.class);
    lemma_gear_with_same_classes(picks, units, units.push(u), u.class);
}

/// Equipment helps a team that has its class and no other: shields give seven health, chalices
/// six, bows and daggers five power, staffs six.
pub proof fn equipment_helps_its_class(
    hole: Seq<Adventurer>,
    picks: Seq<CommunityCard>,
    kind: EquipKind,
    scene: Scene,
)
    ensures
        ({
            let more = picks.push(CommunityCard::Equip(kind));
            let power = raw_power(hole, more, scene) - raw_power(hole, picks, scene);
            let health = raw_health(hole, more, scene) - raw_health(hole, picks, scene);
            if units_of(hole, picks, made_for(kind)) == 0 {
                power == 0 && health == 0
            } else {
                match kind {
                    EquipKind::IronShield => power == 0 && health == 7,
                    EquipKind::Longbow => power == 5 && health == 0,
                    EquipKind::HolyChalice => power == 0 && health == 6,
                    EquipKind::Dagger => power == 5 && health == 0,
                    EquipKind::ArcaneStaff => power == 6 && health == 0,
                }
            }
        }),
{
    let more = picks.push(CommunityCard::Equip(kind));
    assert(more.drop_last() =~= picks);
    assert(picked_units(more) == picked_units(picks));
    lemma_units_of(hole, picks, made_for(kind));
    lemma_has_class(team_units(hole, picks), made_for(kind));
}

/// It does not matter whether a unit or its equipment is picked first.
pub proof fn equipment_may_wait_for_its_unit(
    hole: Seq<Adventurer>,
    picks: Seq<CommunityCard>,
    u: Adventurer,
    kind: EquipKind,
    scene: Scene,
)
    ensures
        raw_power(
            hole,
            picks.push(CommunityCard::Equip(kind)).push(CommunityCard::Unit(u)),
            scene,
        ) == raw_power(
            hole,
            picks.push(CommunityCard::Unit(u)).push(CommunityCard::Equip(kind)),
            scene,
        ),
        raw_health(
            hole,
            picks.push(CommunityCard::Equip(kind)).push(CommunityCard::Unit(u)),
            scene,
        ) == raw_health(
            hole,
            picks.push(CommunityCard::Unit(u)).push(CommunityCard::Equip(kind)),
            scene,
        ),
{
    let equipped = picks.push(CommunityCard::Equip(kind));
    let manned = picks.push(CommunityCard::Unit(u));
    let a = equipped.push(CommunityCard::Unit(u));
    let b = manned.push(CommunityCard::Equip(kind));
    assert(equipped.drop_last() =~= picks);
    assert(manned.drop_last() =~= picks);
    assert(a.drop_last() =~= equipped);
    assert(b.drop_last() =~= manned);
    reveal_with_fuel(picked_units, 3);
    assert(team_units(hole, a) =~= team_units(hole, b));
    reveal_with_fuel(total_gear_power, 3);
    reveal_with_fuel(total_gear_health, 3);
}

/// A healing potion adds six health. No consumable adds anything else to the numbers.
pub proof fn potions_add_health(
    hole: Seq<Adventurer>,
    picks: Seq<CommunityCard>,
    kind: ConsumKind,
    scene: Scene,
)
    ensures
        raw_power(hole, picks.push(CommunityCard::Consum(kind)), scene) == raw_power(
            hole,
            picks,
            scene,
        ),
        raw_health(hole, picks.push(CommunityCard::Consum(kind)), scene) == raw_health(
            hole,
            picks,
            scene,
        ) + (if kind == ConsumKind::HealingPotion {
            6int
        } else {
            0
        }),
{
    let more = picks.push(CommunityCard::Consum(kind));
    assert(more.drop_last() =~= picks);
    assert(picked_units(more) == picked_units(picks));
}

/// A team starts with the sum of its numbers, or with nothing where the sum is below zero. It is
/// safe from the marsh with a cleric, a potion or a purification, and carries fireballs and smoke
/// bombs as they were picked.
pub proof fn teams_start_with_what_they_bring(
    hole: Seq<Adventurer>,
    picks: Seq<CommunityCard>,
    scene: Scene,
)
    requires
        raw_power(hole, picks, scene) <= i32::MAX,
        raw_health(hole, picks, scene) <= i32::MAX,
    ensures
        ({
            let squad = squad_of(hole, picks, scene);
            let power = raw_power(hole, picks, scene);
            let health = raw_health(hole, picks, scene);
            &&& power >= 0 ==> squad.power == power
            &&& power < 0 ==> squad.power == 0
            &&& health >= 0 ==> squad.health == health
            &&& health < 0 ==> squad.health == 0
            &&& squad.has_cleanse <==> units_of(hole, picks, Class::Cleric) > 0 || picks.contains(
                CommunityCard::Consum(ConsumKind::HealingPotion),
            ) || picks.contains(CommunityCard::Consum(ConsumKind::Purify))
            &&& squad.has_fireball <==> picks.contains(CommunityCard::Consum(ConsumKind::Fireball))
            &&& squad.has_smoke <==> picks.contains(CommunityCard::Consum(ConsumKind::SmokeBomb))
        }),
{
    lemma_units_of(hole, picks, Class::Cleric);
    lemma_has_class(team_units(hole, picks), Class::Cleric);
}

// ---- The walk ----

/// The threat of a node: its own, one more for every eight half points of aggro where it is an
/// elite, a swamp or a boss, and ten more for a berserk boss.
pub proof fn threats_add_up(node: Monster, aggro: u32, berserk: bool)
    requires
        node.threat <= i32::MAX,
    ensures
        node.kind == MonsterKind::Goblin || node.kind == MonsterKind::Treasure ==> threat_of(
            node,
            aggro,
            berserk,
        ) == node.threat,
        node.kind == MonsterKind::Elite || node.kind == MonsterKind::PoisonSwamp ==> threat_of(
            node,
            aggro,
            berserk,
        ) == node.threat + aggro as int / 8,
        node.kind == MonsterKind::Boss ==> threat_of(node, aggro, berserk) == node.threat
            + aggro as int / 8 + (if berserk {
            10int
        } else {
            0
        }),
{
}

/// The threat of a node to a team that may burn or blind what it meets.
pub open spec fn threat_met(
    squad: Squad,
    node: Monster,
    first: bool,
    aggro: u32,
    berserk: bool,
) -> int {
    let own = node.threat + (if node.kind == MonsterKind::Goblin {
        0
    } else {
        aggro as int / 8
    }) + (if node.kind == MonsterKind::Boss && berserk {
        10int
    } else {
        0
    }) - (if node.kind == MonsterKind::Goblin && squad.has_fireball {
        4int
    } else {
        0
    }) - (if first && squad.has_smoke {
        4int
    } else {
        0
    });
    if own < 0 {
        0
    } else {
        own
    }
}

proof fn lemma_one_more_node(
    s: RunState,
    squad: Squad,
    scene: Scene,
    dungeon: Seq<Monster>,
    node: Monster,
    i: int,
    aggro: u32,
    berserk: bool,
)
    requires
        0 <= i <= dungeon.len(),
    ensures
        run_from(s, squad, scene, dungeon.push(node), i, aggro, berserk) == (match run_from(
            s,
            squad,
            scene,
            dungeon,
            i,
            aggro,
            berserk,
        ) {
            Some(t) => crate::combat::passing(
                t,
                squad,
                scene,
                node,
                dungeon.len() == 0,
                aggro,
                berserk,
            ),
            None => None,
        }),
    decreases dungeon.len() - i,
{
    let longer = dungeon.push(node);
    if i < dungeon.len() {
        assert(longer[i] == dungeon[i]);
        match crate::combat::passing(s, squad, scene, dungeon[i], i == 0, aggro, berserk) {
            Some(t) => {
                lemma_one_more_node(t, squad, scene, dungeon, node, i + 1, aggro, berserk);
            },
            None => {},
        }
    } else {
        assert(longer[i] == node);
        match crate::combat::passing(s, squad, scene, node, i == 0, aggro, berserk) {
            Some(t) => {
                assert(run_from(t, squad, scene, longer, i + 1, aggro, berserk) == Some(t));
            },
            None => {},
        }
    }
}

/// A dungeon with one more node is walked like the dungeon without it, and then the node. A team
/// that was wiped stays wiped. In the marsh, a team that is not safe is poisoned once more: each
/// layer costs one power and one health at every node. A treasure costs nothing else. At any
/// other node the team needs the power of the threat and more health than the threat, and loses
/// that much health; where it has less health than a swamp, the swamp takes half its own threat
/// from it first.
pub proof fn one_more_node_takes_its_toll(
    squad: Squad,
    scene: Scene,
    dungeon: Seq<Monster>,
    node: Monster,
    aggro: u32,
    berserk: bool,
)
    requires
        node.threat <= i32::MAX,
        node.health <= i32::MAX,
    ensures
        ({
            let before = run_from(run_start(squad), squad, scene, dungeon, 0, aggro, berserk);
            let now = run_from(run_start(squad), squad, scene, dungeon.push(node), 0, aggro, berserk);
            &&& before is None ==> now is None
            &&& before matches Some(s) ==> {
                let sick = scene == Scene::Marsh && !squad.has_cleanse;
                let poison = if sick {
                    s.poison + 1
                } else {
                    s.poison
                };
                let power = if sick {
                    s.power - poison
                } else {
                    s.power
                };
                let come = if sick {
                    s.health - poison
                } else {
                    s.health
                };
                if node.kind == MonsterKind::Treasure {
                    now == Some(RunState { power, health: come, poison })
                } else {
                    let threat = threat_met(squad, node, dungeon.len() == 0, aggro, berserk);
                    let health = if node.kind == MonsterKind::PoisonSwamp && come < node.health {
                        come - node.threat as int / 2
                    } else {
                        come
                    };
                    &&& now is Some <==> power >= threat && health > threat
                    &&& now is Some ==> now == Some(
                        (RunState { power, health: health - threat, poison }),
                    )
                }
            }
        }),
{
    lemma_one_more_node(run_start(squad), squad, scene, dungeon, node, 0, aggro, berserk);
}

/// The walk starts with the numbers of the team and without poison, and an empty dungeon leaves
/// them as they are.
pub proof fn empty_dungeons_take_nothing(squad: Squad, scene: Scene, aggro: u32, berserk: bool)
    ensures
        run_from(run_start(squad), squad, scene, Seq::empty(), 0, aggro, berserk) == Some(
            (RunState { power: squad.power as int, health: squad.health as int, poison: 0 }),
        ),
{
}

/// The report of a battle shows the team that started and, where the walk came to its end, what
/// was left of it: nothing below zero, and nothing at all of a team that was wiped.
pub proof fn reports_show_what_was_left(
    hole: Seq<Adventurer>,
    picks: Seq<CommunityCard>,
    scene: Scene,
    dungeon: Seq<Monster>,
    aggro: u32,
    berserk: bool,
)
    ensures
        ({
            let r = battle(hole, picks, scene, dungeon, aggro, berserk);
            let squad = squad_of(hole, picks, scene);
            let end = run_from(run_start(squad), squad, scene, dungeon, 0, aggro, berserk);
            &&& r.team_power == squad.power
            &&& r.team_health == squad.health
            &&& r.cleared <==> end is Some
            &&& !r.cleared ==> r.remaining_power == 0 && r.remaining_health == 0
            &&& end matches Some(s) ==> {
                &&& 0 <= s.power <= u32::MAX ==> r.remaining_power == s.power
                &&& s.power < 0 ==> r.remaining_power == 0
                &&& 0 <= s.health <= u32::MAX ==> r.remaining_health == s.health
                &&& s.health < 0 ==> r.remaining_health == 0
            }
        }),
{
}

/// Teams are ranked by whether they clear the dungeon, then by the power and health that are
/// left; those that are wiped by the power and health they started with.
pub proof fn teams_are_ranked_by_what_is_left(a: Report, b: Report)
    ensures
        a.cleared && b.cleared ==> (a.spec_pick_score() < b.spec_pick_score() <==> a.remaining_power
            + a.remaining_health < b.remaining_power + b.remaining_health),
        !a.cleared && !b.cleared ==> (a.spec_pick_score() < b.spec_pick_score() <==> a.team_power
            + a.team_health < b.team_power + b.team_health),
        a.cleared && !b.cleared && b.team_power + b.team_health < 1_000_000
            ==> b.spec_pick_score() < a.spec_pick_score(),
        a.cleared ==> a.spec_advantage() == a.remaining_power + a.remaining_health
            && a.spec_pick_score() == 1_000_000 + a.remaining_power + a.remaining_health,
        !a.cleared ==> a.spec_advantage() == 0 && a.spec_pick_score() == a.team_power
            + a.team_health,
{
}

/// A number on a card counts as it is while it is in the range of cards; beyond, it counts as the
/// number in the range below that differs from it by a full turn of 32 bits.
pub proof fn numbers_beyond_the_range_wrap(x: u32)
    ensures
        i32::MIN <= as_i32(x) <= i32::MAX,
        x <= i32::MAX ==> as_i32(x) == x,
        x > i32::MAX ==> as_i32(x) + 0x1_0000_0000 == x,
{
}

} // verus!
