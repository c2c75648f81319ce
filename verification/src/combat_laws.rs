//! What holds of every battle.
use crate::cards::{Adventurer, CommunityCard, EquipKind, Monster, MonsterKind, Scene};
use crate::combat::{
    entering, has_class, health_after_swamp, passing, picked_units, raw_health, raw_power, run_from,
    run_start, team_units, threat_of, Report, RunState, Squad, BERSERK_THREAT_BONUS, CLEARED_SCORE,
};
use crate::playable::{modest_node, modest_nodes};
use vstd::prelude::*;

verus! {

/// A piece of equipment does nothing for a team without a unit of its class.
pub proof fn equipment_needs_its_class(
    hole: Seq<Adventurer>,
    picks: Seq<CommunityCard>,
    kind: EquipKind,
    scene: Scene,
)
    requires
        !has_class(team_units(hole, picks), kind.spec_class()),
    ensures
        raw_power(hole, picks.push(CommunityCard::Equip(kind)), scene) == raw_power(
            hole,
            picks,
            scene,
        ),
        raw_health(hole, picks.push(CommunityCard::Equip(kind)), scene) == raw_health(
            hole,
            picks,
            scene,
        ),
{
    let more = picks.push(CommunityCard::Equip(kind));
    assert(more.drop_last() =~= picks);
    assert(picked_units(more) == picked_units(picks));
}

/// A piece of equipment gives a team with a unit of its class its bonus, and no more.
pub proof fn equipment_gives_its_bonus(
    hole: Seq<Adventurer>,
    picks: Seq<CommunityCard>,
    kind: EquipKind,
    scene: Scene,
)
    requires
        has_class(team_units(hole, picks), kind.spec_class()),
    ensures
        raw_power(hole, picks.push(CommunityCard::Equip(kind)), scene) == raw_power(
            hole,
            picks,
            scene,
        ) + kind.spec_bonus().0,
        raw_health(hole, picks.push(CommunityCard::Equip(kind)), scene) == raw_health(
            hole,
            picks,
            scene,
        ) + kind.spec_bonus().1,
{
    let more = picks.push(CommunityCard::Equip(kind));
    assert(more.drop_last() =~= picks);
    assert(picked_units(more) == picked_units(picks));
}

/// Rage makes a boss more threatening by a fixed amount and leaves every other node alone.
pub proof fn rage_is_for_bosses(node: Monster, aggro: u32)
    requires
        modest_node(node),
    ensures
        threat_of(node, aggro, true) == threat_of(node, aggro, false) + (if node.kind
            == MonsterKind::Boss {
            BERSERK_THREAT_BONUS as int
        } else {
            0
        }),
{
}

/// More aggro never makes a node less threatening, and goblins do not care.
pub proof fn aggro_only_adds_threat(node: Monster, less: u32, more: u32, berserk: bool)
    requires
        less <= more,
    ensures
        threat_of(node, less, berserk) <= threat_of(node, more, berserk),
        node.kind == MonsterKind::Goblin ==> threat_of(node, less, berserk) == threat_of(
            node,
            more,
            berserk,
        ),
{
    assert(less as int / 8 <= more as int / 8);
}

proof fn lemma_aggro_never_helps(
    a: RunState,
    b: RunState,
    squad: Squad,
    scene: Scene,
    dungeon: Seq<Monster>,
    i: int,
    less: u32,
    more: u32,
    berserk: bool,
)
    requires
        less <= more,
        modest_nodes(dungeon),
        a.power == b.power,
        a.poison == b.poison,
        a.health >= b.health,
        0 <= i,
    ensures
        match run_from(b, squad, scene, dungeon, i, more, berserk) {
            Some(t) => match run_from(a, squad, scene, dungeon, i, less, berserk) {
                Some(s) => s.health >= t.health && s.power == t.power,
                None => false,
            },
            None => true,
        },
    decreases dungeon.len() - i,
{
    if i < dungeon.len() {
        let node = dungeon[i];
        assert(modest_node(node));
        aggro_only_adds_threat(node, less, more, berserk);
        let ta = entering(a, squad, scene);
        let tb = entering(b, squad, scene);
        assert(health_after_swamp(ta.health, node) >= health_after_swamp(tb.health, node));
        match passing(b, squad, scene, node, i == 0, more, berserk) {
            Some(nb) => {
                match passing(a, squad, scene, node, i == 0, less, berserk) {
                    Some(na) => {
                        lemma_aggro_never_helps(
                            na,
                            nb,
                            squad,
                            scene,
                            dungeon,
                            i + 1,
                            less,
                            more,
                            berserk,
                        );
                    },
                    None => {},
                }
            },
            None => {},
        }
    }
}

/// Stirring the dungeon never helps: a team that clears it under more aggro also clears it
/// under less, with at least as much health and the same power left.
pub proof fn aggro_never_helps(
    squad: Squad,
    scene: Scene,
    dungeon: Seq<Monster>,
    less: u32,
    more: u32,
    berserk: bool,
)
    requires
        less <= more,
        modest_nodes(dungeon),
    ensures
        match run_from(run_start(squad), squad, scene, dungeon, 0, more, berserk) {
            Some(t) => match run_from(run_start(squad), squad, scene, dungeon, 0, less, berserk) {
                Some(s) => s.health >= t.health && s.power == t.power,
                None => false,
            },
            None => true,
        },
{
    let s = run_start(squad);
    lemma_aggro_never_helps(s, s, squad, scene, dungeon, 0, less, more, berserk);
}

/// A team with healing walks through the marsh as through any other scene.
pub proof fn healing_protects_from_the_marsh(
    s: RunState,
    squad: Squad,
    other: Scene,
    dungeon: Seq<Monster>,
    i: int,
    aggro: u32,
    berserk: bool,
)
    requires
        squad.has_cleanse,
        0 <= i,
    ensures
        run_from(s, squad, Scene::Marsh, dungeon, i, aggro, berserk) == run_from(
            s,
            squad,
            other,
            dungeon,
            i,
            aggro,
            berserk,
        ),
    decreases dungeon.len() - i,
{
    if i < dungeon.len() {
        match passing(s, squad, Scene::Marsh, dungeon[i], i == 0, aggro, berserk) {
            Some(t) => {
                healing_protects_from_the_marsh(t, squad, other, dungeon, i + 1, aggro, berserk);
            },
            None => {},
        }
    }
}

/// When a player picks among teams, one that clears the dungeon comes before every one that
/// does not, as long as no team is as strong as the score that lifts cleared runs.
pub proof fn clearing_comes_first(cleared: Report, wiped: Report)
    requires
        cleared.cleared,
        !wiped.cleared,
        wiped.team_power + wiped.team_health < CLEARED_SCORE,
    ensures
        wiped.spec_pick_score() < cleared.spec_pick_score(),
{
}

/// A treasure threatens nobody.
pub proof fn treasures_are_harmless(
    s: RunState,
    squad: Squad,
    scene: Scene,
    node: Monster,
    first: bool,
    aggro: u32,
    berserk: bool,
)
    requires
        node.kind == MonsterKind::Treasure,
    ensures
        passing(s, squad, scene, node, first, aggro, berserk) == Some(entering(s, squad, scene)),
{
}

} // verus!
