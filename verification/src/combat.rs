//! Combat: a team is put together, then walks through the dungeon.
//!
//! A team is two hole cards, the community cards picked for it, and the effect of the scene.
//! Building it settles class synergy, bound equipment and consumables. The walk settles
//! aggro (elites and bosses grow with it, a berserk boss grows further), fireball, smoke bomb
//! and poison. Everything is deterministic.
//!
//! Aggro is counted in half points: a call adds one, a raise two, a big all-in six.
use crate::cards::{Adventurer, Class, CommunityCard, ConsumKind, Monster, MonsterKind, Scene};
use vstd::prelude::*;

verus! {

/// Bonus for two units of one class, to power and to health.
pub const PAIR_BONUS: i32 = 6;

/// Bonus for three or more units of one class, to power and to health.
pub const TRIPLE_BONUS: i32 = 12;

/// Wheat field: extra power for each ranger.
pub const WHEAT_RANGER_P: i32 = 3;

/// Wheat field: extra power for each mage.
pub const WHEAT_MAGE_P: i32 = 3;

/// Health that a healing potion adds.
pub const HEAL_POTION_H: i32 = 6;

/// Half points of aggro for each point of threat that elites and bosses gain.
pub const AGGRO_PER_THREAT: u32 = 8;

/// Threat that a fireball takes off a goblin node.
pub const FIREBALL_REDUCE: i32 = 4;

/// Threat that a smoke bomb takes off the first node.
pub const SMOKE_REDUCE: i32 = 4;

/// How much poison a marsh adds at each node.
pub const POISON_PER_STACK: i32 = 1;

/// Threat that a berserk boss gains.
pub const BERSERK_THREAT_BONUS: i32 = 10;

/// Score that lifts every cleared run above every wiped one.
pub const CLEARED_SCORE: u64 = 1_000_000;

/// The report of one run: the team it started with, whether it cleared the dungeon, and what
/// was left of it. A wiped team has a report too, so that a scoreboard can show how it fell.
#[derive(Debug, Clone, Copy)]
pub struct Report {
    pub team_power: u32,
    pub team_health: u32,
    pub cleared: bool,
    pub remaining_health: u32,
    pub remaining_power: u32,
}

impl Report {
    /// What is left after the run: health plus power, nothing for a wiped team.
    pub open spec fn spec_advantage(self) -> int {
        if self.cleared {
            self.remaining_health + self.remaining_power
        } else {
            0
        }
    }

    /// Orders the reports of several picks: cleared runs first, by advantage, then wiped ones
    /// by the strength they started with.
    pub open spec fn spec_pick_score(self) -> int {
        if self.cleared {
            CLEARED_SCORE + self.spec_advantage()
        } else {
            self.team_power + self.team_health
        }
    }

    pub fn advantage(&self) -> (r: u32)
        requires
            self.spec_advantage() <= u32::MAX,
        ensures
            r == self.spec_advantage(),
    {
        if self.cleared {
            self.remaining_health + self.remaining_power
        } else {
            0
        }
    }

    pub fn pick_score(&self) -> (r: u64)
        requires
            self.spec_advantage() <= u32::MAX,
            !self.cleared ==> self.team_power + self.team_health <= u32::MAX,
        ensures
            r == self.spec_pick_score(),
    {
        if self.cleared {
            CLEARED_SCORE + self.advantage() as u64
        } else {
            (self.team_power + self.team_health) as u64
        }
    }
}

/// A number that a signed 32-bit register can hold.
pub open spec fn in_i32(x: int) -> bool {
    i32::MIN <= x <= i32::MAX
}

/// A card's number read as a signed 32-bit one: it wraps from two to the thirty-first on.
pub open spec fn as_i32(x: u32) -> int {
    if x < 0x8000_0000 {
        x as int
    } else {
        x - 0x1_0000_0000
    }
}

/// `x`, but not below zero.
pub open spec fn at_least_zero(x: int) -> int {
    if x < 0 {
        0
    } else {
        x
    }
}

fn wrap_i32(x: u32) -> (r: i32)
    ensures
        r == as_i32(x),
{
    let r: i32 = x as i32;
    assert(x < 0x8000_0000 ==> x as i32 == x) by (bit_vector);
    assert(x >= 0x8000_0000 ==> x as i32 == x - 0x1_0000_0000) by (bit_vector);
    r
}

// ---- Building a team ----

/// The units among `picks`, in order.
pub open spec fn picked_units(picks: Seq<CommunityCard>) -> Seq<Adventurer>
    decreases picks.len(),
{
    if picks.len() == 0 {
        Seq::empty()
    } else {
        match picks.last() {
            CommunityCard::Unit(a) => picked_units(picks.drop_last()).push(a),
            _ => picked_units(picks.drop_last()),
        }
    }
}

/// The units of a team: the hole cards, then the picked units.
pub open spec fn team_units(hole: Seq<Adventurer>, picks: Seq<CommunityCard>) -> Seq<Adventurer> {
    hole + picked_units(picks)
}

/// How many units of a class there are.
pub open spec fn class_count(units: Seq<Adventurer>, class: Class) -> nat {
    units.filter(|u: Adventurer| u.class == class).len()
}

/// A team has a unit of the class.
pub open spec fn has_class(units: Seq<Adventurer>, class: Class) -> bool {
    exists|i: int| 0 <= i < units.len() && (#[trigger] units[i]).class == class
}

/// Synergy bonus of one class with `n` units, the same for power and health.
pub open spec fn synergy_bonus(n: nat) -> int {
    if n >= 3 {
        TRIPLE_BONUS as int
    } else if n == 2 {
        PAIR_BONUS as int
    } else {
        0
    }
}

/// Synergy bonus of a team, each class on its own.
pub open spec fn synergy(units: Seq<Adventurer>) -> int {
    synergy_bonus(class_count(units, Class::Warrior)) + synergy_bonus(
        class_count(units, Class::Cleric),
    ) + synergy_bonus(class_count(units, Class::Mage)) + synergy_bonus(
        class_count(units, Class::Rogue),
    ) + synergy_bonus(class_count(units, Class::Ranger))
}

/// Extra power that the scene gives one unit.
pub open spec fn scene_power(class: Class, scene: Scene) -> int {
    if scene == Scene::WheatField {
        match class {
            Class::Ranger => WHEAT_RANGER_P as int,
            Class::Mage => WHEAT_MAGE_P as int,
            _ => 0,
        }
    } else {
        0
    }
}

/// Power of the units themselves.
pub open spec fn units_power(units: Seq<Adventurer>, scene: Scene) -> int
    decreases units.len(),
{
    if units.len() == 0 {
        0
    } else {
        units_power(units.drop_last(), scene) + as_i32(units.last().power) + scene_power(
            units.last().class,
            scene,
        )
    }
}

/// Health of the units themselves.
pub open spec fn units_health(units: Seq<Adventurer>) -> int
    decreases units.len(),
{
    if units.len() == 0 {
        0
    } else {
        units_health(units.drop_last()) + as_i32(units.last().health)
    }
}

/// Power that one picked card adds beside the units.
pub open spec fn gear_power(card: CommunityCard, units: Seq<Adventurer>) -> int {
    match card {
        CommunityCard::Equip(k) => if has_class(units, k.spec_class()) {
            k.spec_bonus().0 as int
        } else {
            0
        },
        _ => 0,
    }
}

/// Health that one picked card adds beside the units.
pub open spec fn gear_health(card: CommunityCard, units: Seq<Adventurer>) -> int {
    match card {
        CommunityCard::Equip(k) => if has_class(units, k.spec_class()) {
            k.spec_bonus().1 as int
        } else {
            0
        },
        CommunityCard::Consum(ConsumKind::HealingPotion) => HEAL_POTION_H as int,
        _ => 0,
    }
}

/// Power that the picked cards add beside the units.
pub open spec fn total_gear_power(picks: Seq<CommunityCard>, units: Seq<Adventurer>) -> int
    decreases picks.len(),
{
    if picks.len() == 0 {
        0
    } else {
        total_gear_power(picks.drop_last(), units) + gear_power(picks.last(), units)
    }
}

/// Health that the picked cards add beside the units.
pub open spec fn total_gear_health(picks: Seq<CommunityCard>, units: Seq<Adventurer>) -> int
    decreases picks.len(),
{
    if picks.len() == 0 {
        0
    } else {
        total_gear_health(picks.drop_last(), units) + gear_health(picks.last(), units)
    }
}

/// Power of a team before it is cut off at zero.
pub open spec fn raw_power(hole: Seq<Adventurer>, picks: Seq<CommunityCard>, scene: Scene) -> int {
    let units = team_units(hole, picks);
    units_power(units, scene) + synergy(units) + total_gear_power(picks, units)
        + scene.spec_flat_buff().0
}

/// Health of a team before it is cut off at zero.
pub open spec fn raw_health(hole: Seq<Adventurer>, picks: Seq<CommunityCard>, scene: Scene) -> int {
    let units = team_units(hole, picks);
    units_health(units) + synergy(units) + total_gear_health(picks, units)
        + scene.spec_flat_buff().1
}

/// The picks hold the consumable.
pub open spec fn carries(picks: Seq<CommunityCard>, kind: ConsumKind) -> bool {
    picks.contains(CommunityCard::Consum(kind))
}

/// A team that is ready for the dungeon, with what it carries.
pub struct Squad {
    pub power: u32,
    pub health: u32,
    /// A cleric, a purification or a potion: immune to the marsh.
    pub has_cleanse: bool,
    pub has_fireball: bool,
    pub has_smoke: bool,
}

/// The totals of the team fit the registers they are kept in.
pub open spec fn squad_fits(hole: Seq<Adventurer>, picks: Seq<CommunityCard>, scene: Scene) -> bool {
    in_i32(raw_power(hole, picks, scene)) && in_i32(raw_health(hole, picks, scene))
}

/// The team of `hole` and `picks` in `scene`.
pub open spec fn squad_of(hole: Seq<Adventurer>, picks: Seq<CommunityCard>, scene: Scene) -> Squad {
    Squad {
        power: at_least_zero(raw_power(hole, picks, scene)) as u32,
        health: at_least_zero(raw_health(hole, picks, scene)) as u32,
        has_cleanse: has_class(team_units(hole, picks), Class::Cleric) || carries(
            picks,
            ConsumKind::HealingPotion,
        ) || carries(picks, ConsumKind::Purify),
        has_fireball: carries(picks, ConsumKind::Fireball),
        has_smoke: carries(picks, ConsumKind::SmokeBomb),
    }
}

fn count_class(units: &Vec<Adventurer>, class: Class) -> (r: usize)
    ensures
        r == class_count(units@, class),
{
    let mut n: usize = 0;
    let mut i: usize = 0;
    let ghost is_of = |u: Adventurer| u.class == class;
    while i < units.len()
        invariant
            i <= units@.len(),
            n <= i,
            is_of == (|u: Adventurer| u.class == class),
            n == units@.take(i as int).filter(is_of).len(),
        decreases units@.len() - i,
    {
        proof {
            assert(units@.take(i + 1).drop_last() =~= units@.take(i as int));
            reveal_with_fuel(Seq::filter, 2);
        }
        if units[i].class == class {
            n = n + 1;
        }
        i = i + 1;
    }
    assert(units@.take(i as int) =~= units@);
    n
}

fn find_class(units: &Vec<Adventurer>, class: Class) -> (r: bool)
    ensures
        r == has_class(units@, class),
{
    let mut i: usize = 0;
    while i < units.len()
        invariant
            i <= units@.len(),
            forall|j: int| 0 <= j < i ==> (#[trigger] units@[j]).class != class,
        decreases units@.len() - i,
    {
        if units[i].class == class {
            return true;
        }
        i = i + 1;
    }
    false
}

fn bonus_of(n: usize) -> (r: i32)
    ensures
        r == synergy_bonus(n as nat),
{
    if n >= 3 {
        TRIPLE_BONUS
    } else if n == 2 {
        PAIR_BONUS
    } else {
        0
    }
}

/// Class synergy of a team, as (power, health).
pub fn class_synergy(units: &Vec<Adventurer>) -> (r: (i32, i32))
    ensures
        r.0 == synergy(units@),
        r.1 == synergy(units@),
{
    let b: i32 = bonus_of(count_class(units, Class::Warrior)) + bonus_of(
        count_class(units, Class::Cleric),
    ) + bonus_of(count_class(units, Class::Mage)) + bonus_of(count_class(units, Class::Rogue))
        + bonus_of(count_class(units, Class::Ranger));
    (b, b)
}

/// A bound on a total of `n` card numbers.
spec fn total_limit(n: int) -> int {
    n * 0x1_0000_0000
}

/// The units of a team.
fn gather_units(hole: &[Adventurer; 2], picks: &[CommunityCard]) -> (units: Vec<Adventurer>)
    ensures
        units@ == team_units(hole@, picks@),
{
    let mut units: Vec<Adventurer> = Vec::new();
    units.push(hole[0]);
    units.push(hole[1]);
    let mut i: usize = 0;
    assert(units@ =~= hole@ + picked_units(picks@.take(0)));
    while i < picks.len()
        invariant
            i <= picks@.len(),
            units@ == hole@ + picked_units(picks@.take(i as int)),
        decreases picks@.len() - i,
    {
        assert(picks@.take(i + 1).drop_last() =~= picks@.take(i as int));
        if let CommunityCard::Unit(a) = picks[i] {
            units.push(a);
        }
        assert(units@ =~= hole@ + picked_units(picks@.take(i + 1)));
        i = i + 1;
    }
    assert(picks@.take(i as int) =~= picks@);
    units
}

/// Power and health of the units themselves.
fn unit_totals(units: &Vec<Adventurer>, scene: Scene) -> (r: (i128, i128))
    ensures
        r.0 == units_power(units@, scene),
        r.1 == units_health(units@),
        -total_limit(units@.len() as int) <= r.0 <= total_limit(units@.len() as int),
        -total_limit(units@.len() as int) <= r.1 <= total_limit(units@.len() as int),
{
    let mut power: i128 = 0;
    let mut health: i128 = 0;
    let mut k: usize = 0;
    while k < units.len()
        invariant
            k <= units@.len(),
            power == units_power(units@.take(k as int), scene),
            health == units_health(units@.take(k as int)),
            -total_limit(k as int) <= power <= total_limit(k as int),
            -total_limit(k as int) <= health <= total_limit(k as int),
        decreases units@.len() - k,
    {
        assert(units@.take(k + 1).drop_last() =~= units@.take(k as int));
        let u = units[k];
        power = power + wrap_i32(u.power) as i128;
        health = health + wrap_i32(u.health) as i128;
        if scene == Scene::WheatField {
            match u.class {
                Class::Ranger => {
                    power = power + WHEAT_RANGER_P as i128;
                },
                Class::Mage => {
                    power = power + WHEAT_MAGE_P as i128;
                },
                _ => {},
            }
        }
        k = k + 1;
    }
    assert(units@.take(k as int) =~= units@);
    (power, health)
}

/// Power and health that the picked cards add beside the units.
fn gear_totals(units: &Vec<Adventurer>, picks: &[CommunityCard]) -> (r: (i128, i128))
    ensures
        r.0 == total_gear_power(picks@, units@),
        r.1 == total_gear_health(picks@, units@),
        0 <= r.0 <= 7 * picks@.len(),
        0 <= r.1 <= 7 * picks@.len(),
{
    let mut power: i128 = 0;
    let mut health: i128 = 0;
    let mut j: usize = 0;
    while j < picks.len()
        invariant
            j <= picks@.len(),
            power == total_gear_power(picks@.take(j as int), units@),
            health == total_gear_health(picks@.take(j as int), units@),
            0 <= power <= 7 * j,
            0 <= health <= 7 * j,
        decreases picks@.len() - j,
    {
        assert(picks@.take(j + 1).drop_last() =~= picks@.take(j as int));
        match picks[j] {
            CommunityCard::Equip(k) => {
                if find_class(units, k.class()) {
                    let (p, h) = k.bonus();
                    power = power + p as i128;
                    health = health + h as i128;
                }
            },
            CommunityCard::Consum(ConsumKind::HealingPotion) => {
                health = health + HEAL_POTION_H as i128;
            },
            _ => {},
        }
        j = j + 1;
    }
    assert(picks@.take(j as int) =~= picks@);
    (power, health)
}

fn find_consumable(picks: &[CommunityCard], kind: ConsumKind) -> (r: bool)
    ensures
        r == carries(picks@, kind),
{
    let mut i: usize = 0;
    while i < picks.len()
        invariant
            i <= picks@.len(),
            forall|j: int| 0 <= j < i ==> picks@[j] != CommunityCard::Consum(kind),
        decreases picks@.len() - i,
    {
        if let CommunityCard::Consum(k) = picks[i] {
            if k == kind {
                assert(picks@[i as int] == CommunityCard::Consum(kind));
                return true;
            }
        }
        i = i + 1;
    }
    false
}

/// Puts the team of `hole` and `picks` together.
pub fn build_squad(hole: &[Adventurer; 2], picks: &[CommunityCard], scene: Scene) -> (r: Squad)
    requires
        squad_fits(hole@, picks@, scene),
    ensures
        r == squad_of(hole@, picks@, scene),
{
    let units = gather_units(hole, picks);
    let (up, uh) = unit_totals(&units, scene);
    let (sp, sh) = class_synergy(&units);
    let (gp, gh) = gear_totals(&units, picks);
    let (dp, dh) = scene.flat_buff();
    let power: i128 = up + sp as i128 + gp + dp as i128;
    let health: i128 = uh + sh as i128 + gh + dh as i128;
    let has_cleanse = find_class(&units, Class::Cleric) || find_consumable(
        picks,
        ConsumKind::HealingPotion,
    ) || find_consumable(picks, ConsumKind::Purify);
    let has_fireball = find_consumable(picks, ConsumKind::Fireball);
    let has_smoke = find_consumable(picks, ConsumKind::SmokeBomb);
    Squad {
        power: if power < 0 {
            0
        } else {
            power as u32
        },
        health: if health < 0 {
            0
        } else {
            health as u32
        },
        has_cleanse,
        has_fireball,
        has_smoke,
    }
}

// ---- The dungeon ----

/// A node that grows with aggro.
pub open spec fn is_aggressive(kind: MonsterKind) -> bool {
    kind == MonsterKind::Elite || kind == MonsterKind::PoisonSwamp || kind == MonsterKind::Boss
}

/// Threat of a node with aggro and rage, before it is cut off at zero.
pub open spec fn raw_threat(node: Monster, aggro: u32, berserk: bool) -> int {
    as_i32(node.threat) + (if is_aggressive(node.kind) {
        aggro as int / AGGRO_PER_THREAT as int
    } else {
        0
    }) + (if node.kind == MonsterKind::Boss && berserk {
        BERSERK_THREAT_BONUS as int
    } else {
        0
    })
}

/// The threat that a node poses, before what a team carries against it.
pub open spec fn threat_of(node: Monster, aggro: u32, berserk: bool) -> int {
    at_least_zero(raw_threat(node, aggro, berserk))
}

/// The threats of all nodes fit the register they are kept in.
pub open spec fn threats_fit(nodes: Seq<Monster>, aggro: u32, berserk: bool) -> bool {
    forall|i: int|
        0 <= i < nodes.len() ==> raw_threat(#[trigger] nodes[i], aggro, berserk) <= i32::MAX
}

/// The threat of a node under the given aggro (in half points) and rage. The run and the
/// scoreboard share it.
pub fn node_threat(node: &Monster, aggro: u32, berserk: bool) -> (r: u32)
    requires
        raw_threat(*node, aggro, berserk) <= i32::MAX,
    ensures
        r == threat_of(*node, aggro, berserk),
{
    let mut t: i64 = wrap_i32(node.threat) as i64;
    if node.kind == MonsterKind::Elite || node.kind == MonsterKind::PoisonSwamp || node.kind
        == MonsterKind::Boss {
        t = t + (aggro / AGGRO_PER_THREAT) as i64;
    }
    if node.kind == MonsterKind::Boss && berserk {
        t = t + BERSERK_THREAT_BONUS as i64;
    }
    if t < 0 {
        0
    } else {
        t as u32
    }
}

/// Where a team stands between two nodes.
pub struct RunState {
    pub power: int,
    pub health: int,
    /// Layers of poison so far.
    pub poison: int,
}

/// What entering a node does: in a marsh, a team without healing takes another layer of poison
/// and loses as many points of power and of health as there are layers.
pub open spec fn entering(s: RunState, squad: Squad, scene: Scene) -> RunState {
    if scene == Scene::Marsh && !squad.has_cleanse {
        let poison = s.poison + POISON_PER_STACK;
        RunState { power: s.power - poison, health: s.health - poison, poison }
    } else {
        s
    }
}

/// The threat that a node poses to a team, with fireball and smoke bomb taken off.
pub open spec fn faced_threat(
    squad: Squad,
    node: Monster,
    first: bool,
    aggro: u32,
    berserk: bool,
) -> int {
    at_least_zero(
        threat_of(node, aggro, berserk) - (if squad.has_fireball && node.kind
            == MonsterKind::Goblin {
            FIREBALL_REDUCE as int
        } else {
            0
        }) - (if squad.has_smoke && first {
            SMOKE_REDUCE as int
        } else {
            0
        }),
    )
}

/// Half of a number, rounded towards zero.
pub open spec fn half(x: int) -> int {
    if x >= 0 {
        x / 2
    } else {
        -((-x) / 2)
    }
}

/// Health after the swamp: a swamp costs a team with less health than its own half its threat.
pub open spec fn health_after_swamp(health: int, node: Monster) -> int {
    if node.kind == MonsterKind::PoisonSwamp && health < as_i32(node.health) {
        health - half(as_i32(node.threat))
    } else {
        health
    }
}

/// The fight at a node that is no treasure. A team survives with power that reaches the threat
/// and more health than the threat, and loses that much health; otherwise it is wiped.
pub open spec fn fighting(s: RunState, node: Monster, threat: int) -> Option<RunState> {
    let health = health_after_swamp(s.health, node);
    if s.power < threat || health <= threat {
        None
    } else {
        Some(RunState { health: health - threat, ..s })
    }
}

/// One node, from its entrance to its end.
pub open spec fn passing(
    s: RunState,
    squad: Squad,
    scene: Scene,
    node: Monster,
    first: bool,
    aggro: u32,
    berserk: bool,
) -> Option<RunState> {
    let t = entering(s, squad, scene);
    if node.kind == MonsterKind::Treasure {
        Some(t)
    } else {
        fighting(t, node, faced_threat(squad, node, first, aggro, berserk))
    }
}

/// The run from node `i` on; `None` when the team is wiped on the way.
pub open spec fn run_from(
    s: RunState,
    squad: Squad,
    scene: Scene,
    dungeon: Seq<Monster>,
    i: int,
    aggro: u32,
    berserk: bool,
) -> Option<RunState>
    decreases dungeon.len() - i,
{
    if i < 0 || i >= dungeon.len() {
        Some(s)
    } else {
        match passing(s, squad, scene, dungeon[i], i == 0, aggro, berserk) {
            None => None,
            Some(t) => run_from(t, squad, scene, dungeon, i + 1, aggro, berserk),
        }
    }
}

/// The numbers of one node fit the registers they are kept in.
pub open spec fn node_fits(
    s: RunState,
    squad: Squad,
    scene: Scene,
    node: Monster,
    aggro: u32,
    berserk: bool,
) -> bool {
    let t = entering(s, squad, scene);
    &&& in_i32(t.power)
    &&& in_i32(t.health)
    &&& node.kind != MonsterKind::Treasure ==> raw_threat(node, aggro, berserk) <= i32::MAX
        && in_i32(health_after_swamp(t.health, node))
}

/// The numbers of the run from node `i` on fit, as far as the team gets.
pub open spec fn run_fits(
    s: RunState,
    squad: Squad,
    scene: Scene,
    dungeon: Seq<Monster>,
    i: int,
    aggro: u32,
    berserk: bool,
) -> bool
    decreases dungeon.len() - i,
{
    if i < 0 || i >= dungeon.len() {
        true
    } else {
        &&& node_fits(s, squad, scene, dungeon[i], aggro, berserk)
        &&& match passing(s, squad, scene, dungeon[i], i == 0, aggro, berserk) {
            None => true,
            Some(t) => run_fits(t, squad, scene, dungeon, i + 1, aggro, berserk),
        }
    }
}

/// Where a team stands before the first node.
pub open spec fn run_start(squad: Squad) -> RunState {
    RunState { power: squad.power as int, health: squad.health as int, poison: 0 }
}

fn team_threat(squad: &Squad, node: &Monster, first: bool, aggro: u32, berserk: bool) -> (r: i64)
    requires
        raw_threat(*node, aggro, berserk) <= i32::MAX,
    ensures
        r == faced_threat(*squad, *node, first, aggro, berserk),
        0 <= r <= i32::MAX,
{
    let mut threat: i64 = node_threat(node, aggro, berserk) as i64;
    if squad.has_fireball && node.kind == MonsterKind::Goblin {
        threat = threat - FIREBALL_REDUCE as i64;
    }
    if squad.has_smoke && first {
        threat = threat - SMOKE_REDUCE as i64;
    }
    if threat < 0 {
        0
    } else {
        threat
    }
}

fn swamp_health(health: i64, node: &Monster) -> (r: i64)
    requires
        in_i32(health as int),
    ensures
        r == health_after_swamp(health as int, *node),
{
    if node.kind == MonsterKind::PoisonSwamp && health < wrap_i32(node.health) as i64 {
        let loss: i64 = wrap_i32(node.threat) as i64;
        if loss >= 0 {
            health - loss / 2
        } else {
            health + (-loss) / 2
        }
    } else {
        health
    }
}

/// Walks a team through the dungeon. Gives what is left of it, as (health, power), or `None`
/// when it is wiped.
pub fn run_dungeon(
    squad: &Squad,
    scene: Scene,
    dungeon: &[Monster],
    aggro: u32,
    berserk: bool,
) -> (r: Option<(u32, u32)>)
    requires
        squad.power <= i32::MAX,
        squad.health <= i32::MAX,
        run_fits(run_start(*squad), *squad, scene, dungeon@, 0, aggro, berserk),
    ensures
        match run_from(run_start(*squad), *squad, scene, dungeon@, 0, aggro, berserk) {
            None => r is None,
            Some(t) => r == Some((at_least_zero(t.health) as u32, at_least_zero(t.power) as u32))
                && t.health <= i32::MAX && t.power <= i32::MAX,
        },
{
    let mut power: i64 = squad.power as i64;
    let mut health: i64 = squad.health as i64;
    let mut poison: i64 = 0;
    let mut i: usize = 0;
    let ghost whole = run_from(run_start(*squad), *squad, scene, dungeon@, 0, aggro, berserk);
    let ghost mut s = run_start(*squad);
    while i < dungeon.len()
        invariant
            i <= dungeon@.len(),
            s == (RunState { power: power as int, health: health as int, poison: poison as int }),
            in_i32(power as int),
            in_i32(health as int),
            0 <= poison <= 0x1_0000_0000,
            run_fits(s, *squad, scene, dungeon@, i as int, aggro, berserk),
            whole == run_from(s, *squad, scene, dungeon@, i as int, aggro, berserk),
            whole == run_from(run_start(*squad), *squad, scene, dungeon@, 0, aggro, berserk),
        decreases dungeon@.len() - i,
    {
        let node = dungeon[i];
        let ghost t = entering(s, *squad, scene);
        assert(node_fits(s, *squad, scene, node, aggro, berserk));
        if scene == Scene::Marsh && !squad.has_cleanse {
            poison = poison + POISON_PER_STACK as i64;
            power = power - poison;
            health = health - poison;
        }
        assert(t == (RunState { power: power as int, health: health as int, poison: poison as int }));
        let ghost next = passing(s, *squad, scene, node, i == 0, aggro, berserk);
        if node.kind != MonsterKind::Treasure {
            let threat: i64 = team_threat(squad, &node, i == 0, aggro, berserk);
            health = swamp_health(health, &node);
            assert(next == fighting(t, node, threat as int));
            if power < threat || health <= threat {
                assert(next is None);
                assert(whole is None);
                return None;
            }
            health = health - threat;
        }
        proof {
            assert(next is Some);
            s = next->0;
        }
        i = i + 1;
    }
    let left_health: u32 = if health < 0 {
        0
    } else {
        health as u32
    };
    let left_power: u32 = if power < 0 {
        0
    } else {
        power as u32
    };
    Some((left_health, left_power))
}

/// The numbers of the whole battle fit the registers they are kept in.
pub open spec fn battle_fits(
    hole: Seq<Adventurer>,
    picks: Seq<CommunityCard>,
    scene: Scene,
    dungeon: Seq<Monster>,
    aggro: u32,
    berserk: bool,
) -> bool {
    let squad = squad_of(hole, picks, scene);
    squad_fits(hole, picks, scene) && run_fits(
        run_start(squad),
        squad,
        scene,
        dungeon,
        0,
        aggro,
        berserk,
    )
}

/// The report of the battle: the team that started, and what the run left of it.
pub open spec fn battle(
    hole: Seq<Adventurer>,
    picks: Seq<CommunityCard>,
    scene: Scene,
    dungeon: Seq<Monster>,
    aggro: u32,
    berserk: bool,
) -> Report {
    let squad = squad_of(hole, picks, scene);
    match run_from(run_start(squad), squad, scene, dungeon, 0, aggro, berserk) {
        Some(t) => Report {
            team_power: squad.power,
            team_health: squad.health,
            cleared: true,
            remaining_health: at_least_zero(t.health) as u32,
            remaining_power: at_least_zero(t.power) as u32,
        },
        None => Report {
            team_power: squad.power,
            team_health: squad.health,
            cleared: false,
            remaining_health: 0,
            remaining_power: 0,
        },
    }
}

/// A report whose sums fit: what `resolve` gives.
pub open spec fn report_fits(r: Report) -> bool {
    &&& r.team_power <= i32::MAX
    &&& r.team_health <= i32::MAX
    &&& r.remaining_health <= i32::MAX
    &&& r.remaining_power <= i32::MAX
}

/// Puts a team together and walks it through the dungeon.
pub fn resolve(
    hole: &[Adventurer; 2],
    picks: &[CommunityCard],
    scene: Scene,
    dungeon: &[Monster],
    aggro: u32,
    berserk: bool,
) -> (r: Report)
    requires
        battle_fits(hole@, picks@, scene, dungeon@, aggro, berserk),
    ensures
        r == battle(hole@, picks@, scene, dungeon@, aggro, berserk),
        report_fits(r),
{
    let squad = build_squad(hole, picks, scene);
    let team_power: u32 = squad.power;
    let team_health: u32 = squad.health;
    match run_dungeon(&squad, scene, dungeon, aggro, berserk) {
        Some((h, p)) => Report {
            team_power,
            team_health,
            cleared: true,
            remaining_health: h,
            remaining_power: p,
        },
        None => Report {
            team_power,
            team_health,
            cleared: false,
            remaining_health: 0,
            remaining_power: 0,
        },
    }
}

} // verus!
