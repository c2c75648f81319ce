//! Cards and units: the plain data of the game.
//!
//! Every card carries an `art` mark, the stem of the picture that shows it.
//! Numbers and pictures are independent: one `Class` may have several pictures.
use crate::text::{dec, decimal};
use vstd::prelude::*;

verus! {

/// The profession of an adventurer.
#[derive(Debug, Clone, Copy, PartialEq, Eq, Structural)]
pub enum Class {
    Warrior,
    Cleric,
    Mage,
    Rogue,
    Ranger,
}

/// One adventurer. A player's two hole cards are adventurers.
#[derive(Debug, Clone, Copy, PartialEq, Eq)]
pub struct Adventurer {
    pub class: Class,
    /// What the adventurer adds to the strength of a team.
    pub power: u32,
    /// What the adventurer adds to the health of a team.
    pub health: u32,
    /// Picture: `assets/cards/community/<art>.png`.
    pub art: &'static str,
}

impl Adventurer {
    pub fn new(class: Class, power: u32, health: u32, art: &'static str) -> (r: Self)
        ensures
            r == (Adventurer { class, power, health, art }),
    {
        Self { class, power, health, art }
    }
}

/// Equipment. It is bound to a class and does nothing in a team without that class.
#[derive(Debug, Clone, Copy, PartialEq, Eq, Structural)]
pub enum EquipKind {
    IronShield,
    Longbow,
    HolyChalice,
    Dagger,
    ArcaneStaff,
}

impl EquipKind {
    /// The class that the piece is bound to.
    pub open spec fn spec_class(self) -> Class {
        match self {
            EquipKind::IronShield => Class::Warrior,
            EquipKind::Longbow => Class::Ranger,
            EquipKind::HolyChalice => Class::Cleric,
            EquipKind::Dagger => Class::Rogue,
            EquipKind::ArcaneStaff => Class::Mage,
        }
    }

    /// What the piece adds to a team that has its class, as (power, health).
    pub open spec fn spec_bonus(self) -> (u32, u32) {
        match self {
            EquipKind::IronShield => (0, 7),
            EquipKind::Longbow => (5, 0),
            EquipKind::HolyChalice => (0, 6),
            EquipKind::Dagger => (5, 0),
            EquipKind::ArcaneStaff => (6, 0),
        }
    }

    /// The picture of the piece.
    pub open spec fn spec_art(self) -> Seq<char> {
        match self {
            EquipKind::IronShield => "Iron_Shield"@,
            EquipKind::Longbow => "Longbow"@,
            EquipKind::HolyChalice => "Holy_Chalice"@,
            EquipKind::Dagger => "Dagger"@,
            EquipKind::ArcaneStaff => "Arcane_Staff"@,
        }
    }

    /// The short note on the card: the bound class, then the bonus.
    pub open spec fn spec_tag(self) -> Seq<char> {
        class_mark(self.spec_class()) + "专 +"@ + dec(self.spec_bonus().0 as nat) + "P"@ + dec(
            self.spec_bonus().1 as nat,
        ) + "H"@
    }

    pub fn class(&self) -> (r: Class)
        ensures
            r == self.spec_class(),
    {
        match self {
            EquipKind::IronShield => Class::Warrior,
            EquipKind::Longbow => Class::Ranger,
            EquipKind::HolyChalice => Class::Cleric,
            EquipKind::Dagger => Class::Rogue,
            EquipKind::ArcaneStaff => Class::Mage,
        }
    }

    pub fn bonus(&self) -> (r: (u32, u32))
        ensures
            r == self.spec_bonus(),
    {
        match self {
            EquipKind::IronShield => (0, 7),
            EquipKind::Longbow => (5, 0),
            EquipKind::HolyChalice => (0, 6),
            EquipKind::Dagger => (5, 0),
            EquipKind::ArcaneStaff => (6, 0),
        }
    }

    pub fn art(&self) -> (r: &'static str)
        ensures
            r@ == self.spec_art(),
    {
        match self {
            EquipKind::IronShield => "Iron_Shield",
            EquipKind::Longbow => "Longbow",
            EquipKind::HolyChalice => "Holy_Chalice",
            EquipKind::Dagger => "Dagger",
            EquipKind::ArcaneStaff => "Arcane_Staff",
        }
    }

    pub fn tag(&self) -> (r: String)
        ensures
            r@ == self.spec_tag(),
    {
        let (p, h) = self.bonus();
        let mark = match self.class() {
            Class::Warrior => "战",
            Class::Cleric => "神",
            Class::Mage => "法",
            Class::Rogue => "盗",
            Class::Ranger => "游",
        };
        let mut r = mark.to_owned();
        r.append("专 +");
        r.append(decimal(p as u64).as_str());
        r.append("P");
        r.append(decimal(h as u64).as_str());
        r.append("H");
        r
    }
}

/// One character that stands for a class on an equipment card.
pub open spec fn class_mark(class: Class) -> Seq<char> {
    match class {
        Class::Warrior => "战"@,
        Class::Cleric => "神"@,
        Class::Mage => "法"@,
        Class::Rogue => "盗"@,
        Class::Ranger => "游"@,
    }
}

/// Tactics and consumables: each has an effect of its own on the way through the dungeon.
#[derive(Debug, Clone, Copy, PartialEq, Eq, Structural)]
pub enum ConsumKind {
    /// Weakens goblin nodes.
    Fireball,
    /// Adds health, and counts as healing against the marsh.
    HealingPotion,
    /// Protects against the marsh.
    Purify,
    /// Weakens the first node.
    SmokeBomb,
}

impl ConsumKind {
    pub open spec fn spec_art(self) -> Seq<char> {
        match self {
            ConsumKind::Fireball => "Fireball"@,
            ConsumKind::HealingPotion => "Healing_Potion"@,
            ConsumKind::Purify => "Purify"@,
            ConsumKind::SmokeBomb => "Smoke_Bomb"@,
        }
    }

    pub open spec fn spec_tag(self) -> Seq<char> {
        match self {
            ConsumKind::Fireball => "火球·削小怪"@,
            ConsumKind::HealingPotion => "药剂·+生命"@,
            ConsumKind::Purify => "净化·免毒"@,
            ConsumKind::SmokeBomb => "烟雾·首节减伤"@,
        }
    }

    pub fn art(&self) -> (r: &'static str)
        ensures
            r@ == self.spec_art(),
    {
        match self {
            ConsumKind::Fireball => "Fireball",
            ConsumKind::HealingPotion => "Healing_Potion",
            ConsumKind::Purify => "Purify",
            ConsumKind::SmokeBomb => "Smoke_Bomb",
        }
    }

    pub fn tag(&self) -> (r: &'static str)
        ensures
            r@ == self.spec_tag(),
    {
        match self {
            ConsumKind::Fireball => "火球·削小怪",
            ConsumKind::HealingPotion => "药剂·+生命",
            ConsumKind::Purify => "净化·免毒",
            ConsumKind::SmokeBomb => "烟雾·首节减伤",
        }
    }
}

/// A card of the community pool.
#[derive(Debug, Clone, Copy, PartialEq, Eq)]
pub enum CommunityCard {
    Unit(Adventurer),
    Equip(EquipKind),
    Consum(ConsumKind),
}

impl CommunityCard {
    pub open spec fn spec_art(self) -> Seq<char> {
        match self {
            CommunityCard::Unit(a) => a.art@,
            CommunityCard::Equip(k) => k.spec_art(),
            CommunityCard::Consum(c) => c.spec_art(),
        }
    }

    /// The picture of the card, in the `community` directory.
    pub fn art(&self) -> (r: &'static str)
        ensures
            r@ == self.spec_art(),
    {
        match self {
            CommunityCard::Unit(a) => a.art,
            CommunityCard::Equip(k) => k.art(),
            CommunityCard::Consum(c) => c.art(),
        }
    }
}

/// The kind of a dungeon node.
#[derive(Debug, Clone, Copy, PartialEq, Eq, Structural)]
pub enum MonsterKind {
    Goblin,
    /// Costs teams of low health extra health.
    PoisonSwamp,
    Elite,
    /// No threat at all.
    Treasure,
    Boss,
}

/// One node of the dungeon.
#[derive(Debug, Clone, Copy, PartialEq, Eq)]
pub struct Monster {
    pub kind: MonsterKind,
    /// What the power of a team has to reach.
    pub threat: u32,
    pub health: u32,
    /// Picture: `assets/cards/dungeon/<art>.png`.
    pub art: &'static str,
}

impl Monster {
    pub fn new(kind: MonsterKind, threat: u32, health: u32, art: &'static str) -> (r: Self)
        ensures
            r == (Monster { kind, threat, health, art }),
    {
        Self { kind, threat, health, art }
    }
}

/// The place a hand is played at. Each hand draws one, and each has its own effect on teams.
#[derive(Debug, Clone, Copy, PartialEq, Eq, Structural)]
pub enum Scene {
    IceField,
    StoneArena,
    Marsh,
    Tomb,
    Volcano,
    WheatField,
}

impl Scene {
    pub const ALL: [Scene; 6] = [
        Scene::IceField,
        Scene::StoneArena,
        Scene::Marsh,
        Scene::Tomb,
        Scene::Volcano,
        Scene::WheatField,
    ];

    pub open spec fn spec_art(self) -> Seq<char> {
        match self {
            Scene::IceField => "bkg_Ice_field"@,
            Scene::StoneArena => "bkg_Stone_arena"@,
            Scene::Marsh => "bkg_marsh"@,
            Scene::Tomb => "bkg_tomb"@,
            Scene::Volcano => "bkg_volcano"@,
            Scene::WheatField => "bkg_wheat_field"@,
        }
    }

    pub open spec fn spec_label(self) -> Seq<char> {
        match self {
            Scene::IceField => "冰原 (战力 -2)"@,
            Scene::StoneArena => "竞技场 (战力 +2)"@,
            Scene::Marsh => "毒沼 (无治疗则逐节点叠毒)"@,
            Scene::Tomb => "墓地 (战力 +1, 生命 -1)"@,
            Scene::Volcano => "火山 (每轮 Boss 惊动 +1)"@,
            Scene::WheatField => "麦田 (弓手/法师 +战力)"@,
        }
    }

    /// What the scene adds to every team, as (power, health). Volcano, marsh and wheat field
    /// act in other ways.
    pub open spec fn spec_flat_buff(self) -> (int, int) {
        match self {
            Scene::IceField => (-2, 0),
            Scene::StoneArena => (2, 0),
            Scene::Tomb => (1, -1),
            Scene::Volcano | Scene::Marsh | Scene::WheatField => (0, 0),
        }
    }

    /// The background picture: `assets/table/<art>.png`.
    pub fn art(&self) -> (r: &'static str)
        ensures
            r@ == self.spec_art(),
    {
        match self {
            Scene::IceField => "bkg_Ice_field",
            Scene::StoneArena => "bkg_Stone_arena",
            Scene::Marsh => "bkg_marsh",
            Scene::Tomb => "bkg_tomb",
            Scene::Volcano => "bkg_volcano",
            Scene::WheatField => "bkg_wheat_field",
        }
    }

    /// Name and effect of the scene, as players read it.
    pub fn label(&self) -> (r: &'static str)
        ensures
            r@ == self.spec_label(),
    {
        match self {
            Scene::IceField => "冰原 (战力 -2)",
            Scene::StoneArena => "竞技场 (战力 +2)",
            Scene::Marsh => "毒沼 (无治疗则逐节点叠毒)",
            Scene::Tomb => "墓地 (战力 +1, 生命 -1)",
            Scene::Volcano => "火山 (每轮 Boss 惊动 +1)",
            Scene::WheatField => "麦田 (弓手/法师 +战力)",
        }
    }

    pub fn flat_buff(&self) -> (r: (i32, i32))
        ensures
            (r.0 as int, r.1 as int) == self.spec_flat_buff(),
    {
        match self {
            Scene::IceField => (-2, 0),
            Scene::StoneArena => (2, 0),
            Scene::Tomb => (1, -1),
            Scene::Volcano | Scene::Marsh | Scene::WheatField => (0, 0),
        }
    }
}

} // verus!
