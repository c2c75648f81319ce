//! What holds of the community cards that a team takes: their order does not matter, indices
//! beyond the pool do not either, and nobody picks better by hand than the best team.
use crate::cards::{Adventurer, Class, CommunityCard, ConsumKind, Scene};
use crate::combat::{
    as_i32, carries, class_count, gear_health, gear_power, has_class, raw_health, raw_power,
    scene_power, squad_of, synergy, team_units, total_gear_health, total_gear_power, units_health,
    units_power,
};
use crate::game_model::{cards_at, comes_before, is_triple, selected, GameModel};
use vstd::prelude::*;

verus! {

// ---- Order ----

/// The power that a picked card brings as a unit.
spec fn card_power(card: CommunityCard, scene: Scene) -> int {
    match card {
        CommunityCard::Unit(a) => as_i32(a.power) + scene_power(a.class, scene),
        _ => 0,
    }
}

/// The health that a picked card brings as a unit.
spec fn card_health(card: CommunityCard) -> int {
    match card {
        CommunityCard::Unit(a) => as_i32(a.health),
        _ => 0,
    }
}

/// The units of a class that a picked card brings.
spec fn card_count(card: CommunityCard, class: Class) -> nat {
    match card {
        CommunityCard::Unit(a) if a.class == class => 1,
        _ => 0,
    }
}

/// What the units of a team come to, one picked card more at a time.
proof fn lemma_one_more(
    hole: Seq<Adventurer>,
    picks: Seq<CommunityCard>,
    card: CommunityCard,
    scene: Scene,
    class: Class,
)
    ensures
        units_power(team_units(hole, picks.push(card)), scene) == units_power(
            team_units(hole, picks),
            scene,
        ) + card_power(card, scene),
        units_health(team_units(hole, picks.push(card))) == units_health(team_units(hole, picks))
            + card_health(card),
        class_count(team_units(hole, picks.push(card)), class) == class_count(
            team_units(hole, picks),
            class,
        ) + card_count(card, class),
{
    let units = team_units(hole, picks);
    let more = team_units(hole, picks.push(card));
    assert(picks.push(card).drop_last() =~= picks);
    match card {
        CommunityCard::Unit(a) => {
            assert(more =~= units.push(a));
            assert(more.drop_last() =~= units);
            reveal(Seq::filter);
        },
        _ => {
            assert(more =~= units);
        },
    }
}

proof fn lemma_three(
    hole: Seq<Adventurer>,
    a: CommunityCard,
    b: CommunityCard,
    c: CommunityCard,
    scene: Scene,
    class: Class,
)
    ensures
        ({
            let units = team_units(hole, seq![a, b, c]);
            let bare = team_units(hole, Seq::empty());
            &&& units_power(units, scene) == units_power(bare, scene) + card_power(a, scene)
                + card_power(b, scene) + card_power(c, scene)
            &&& units_health(units) == units_health(bare) + card_health(a) + card_health(b)
                + card_health(c)
            &&& class_count(units, class) == class_count(bare, class) + card_count(a, class)
                + card_count(b, class) + card_count(c, class)
        }),
{
    let none = Seq::<CommunityCard>::empty();
    lemma_one_more(hole, none, a, scene, class);
    lemma_one_more(hole, none.push(a), b, scene, class);
    lemma_one_more(hole, none.push(a).push(b), c, scene, class);
    assert(none.push(a).push(b).push(c) =~= seq![a, b, c]);
}

/// A class is there exactly where its units can be counted.
pub(crate) proof fn lemma_has_class(units: Seq<Adventurer>, class: Class)
    ensures
        has_class(units, class) == (class_count(units, class) > 0),
    decreases units.len(),
{
    reveal(Seq::filter);
    if units.len() > 0 {
        let rest = units.drop_last();
        lemma_has_class(rest, class);
        if has_class(rest, class) {
            let i = choose|i: int| 0 <= i < rest.len() && (#[trigger] rest[i]).class == class;
            assert(units[i].class == class);
        }
        if has_class(units, class) && units.last().class != class {
            let i = choose|i: int| 0 <= i < units.len() && (#[trigger] units[i]).class == class;
            assert(rest[i].class == class);
        }
        if units.last().class == class {
            assert(units[units.len() - 1].class == class);
        }
    }
}

proof fn lemma_gear_of_three(
    a: CommunityCard,
    b: CommunityCard,
    c: CommunityCard,
    units: Seq<Adventurer>,
)
    ensures
        total_gear_power(seq![a, b, c], units) == gear_power(a, units) + gear_power(b, units)
            + gear_power(c, units),
        total_gear_health(seq![a, b, c], units) == gear_health(a, units) + gear_health(b, units)
            + gear_health(c, units),
{
    let three = seq![a, b, c];
    let two = three.drop_last();
    let one = two.drop_last();
    assert(one.drop_last() =~= Seq::empty());
    reveal_with_fuel(total_gear_power, 4);
    reveal_with_fuel(total_gear_health, 4);
}

/// Two sequences of three cards that hold the same cards in another order.
spec fn reordered(s: Seq<CommunityCard>, t: Seq<CommunityCard>) -> bool {
    &&& s.len() == 3
    &&& t.len() == 3
    &&& {
        ||| s[0] == t[0] && s[1] == t[1] && s[2] == t[2]
        ||| s[0] == t[0] && s[1] == t[2] && s[2] == t[1]
        ||| s[0] == t[1] && s[1] == t[0] && s[2] == t[2]
        ||| s[0] == t[1] && s[1] == t[2] && s[2] == t[0]
        ||| s[0] == t[2] && s[1] == t[0] && s[2] == t[1]
        ||| s[0] == t[2] && s[1] == t[1] && s[2] == t[0]
    }
}

proof fn lemma_carried(s: Seq<CommunityCard>, t: Seq<CommunityCard>, kind: ConsumKind)
    requires
        reordered(s, t),
    ensures
        carries(s, kind) == carries(t, kind),
{
    let card = CommunityCard::Consum(kind);
    assert(s.contains(card) == (s[0] == card || s[1] == card || s[2] == card));
    assert(t.contains(card) == (t[0] == card || t[1] == card || t[2] == card));
}

proof fn lemma_order_does_not_matter(
    hole: Seq<Adventurer>,
    s: Seq<CommunityCard>,
    t: Seq<CommunityCard>,
    scene: Scene,
)
    requires
        reordered(s, t),
    ensures
        squad_of(hole, s, scene) == squad_of(hole, t, scene),
{
    let us = team_units(hole, s);
    let ut = team_units(hole, t);
    assert(s =~= seq![s[0], s[1], s[2]]);
    assert(t =~= seq![t[0], t[1], t[2]]);
    assert forall|class: Class| #[trigger] class_count(us, class) == class_count(ut, class) by {
        lemma_three(hole, s[0], s[1], s[2], scene, class);
        lemma_three(hole, t[0], t[1], t[2], scene, class);
    }
    lemma_three(hole, s[0], s[1], s[2], scene, Class::Mage);
    lemma_three(hole, t[0], t[1], t[2], scene, Class::Mage);
    assert forall|class: Class| #[trigger] has_class(us, class) == has_class(ut, class) by {
        lemma_has_class(us, class);
        lemma_has_class(ut, class);
        assert(class_count(us, class) == class_count(ut, class));
    }
    assert(synergy(us) == synergy(ut));
    lemma_gear_of_three(s[0], s[1], s[2], us);
    lemma_gear_of_three(t[0], t[1], t[2], ut);
    assert forall|card: CommunityCard|
        #[trigger] gear_power(card, us) == gear_power(card, ut) && gear_health(card, us)
            == gear_health(card, ut) by {}
    assert(gear_power(s[0], us) == gear_power(s[0], ut));
    assert(gear_power(s[1], us) == gear_power(s[1], ut));
    assert(gear_power(s[2], us) == gear_power(s[2], ut));
    assert(raw_power(hole, s, scene) == raw_power(hole, t, scene));
    assert(raw_health(hole, s, scene) == raw_health(hole, t, scene));
    lemma_carried(s, t, ConsumKind::HealingPotion);
    lemma_carried(s, t, ConsumKind::Purify);
    lemma_carried(s, t, ConsumKind::Fireball);
    lemma_carried(s, t, ConsumKind::SmokeBomb);
}

// ---- The best team ----

/// `at` is the best of the first triple and of all triples that come before `end`.
spec fn best_before(
    g: GameModel,
    hole: Seq<Adventurer>,
    at: (int, int, int),
    end: (int, int, int),
) -> bool {
    let n = g.community.len() as int;
    &&& is_triple(at, n)
    &&& at == (0int, 1int, 2int) || comes_before(at, end)
    &&& forall|u: (int, int, int)|
        is_triple(u, n) && comes_before(u, end) ==> #[trigger] g.triple_score(hole, u)
            <= g.triple_score(hole, at)
    &&& forall|u: (int, int, int)|
        is_triple(u, n) && comes_before(u, at) ==> #[trigger] g.triple_score(hole, u)
            < g.triple_score(hole, at)
}

proof fn lemma_best_before(g: GameModel, hole: Seq<Adventurer>, i: int, j: int, k: int) -> (at: (
    int,
    int,
    int,
))
    requires
        g.community.len() >= 3,
        0 <= i < j < k,
        i <= g.community.len(),
        j <= g.community.len() + 1,
        k <= g.community.len() + 2,
    ensures
        best_before(g, hole, at, (i, j, k)),
    decreases i, j, k,
{
    let n = g.community.len() as int;
    if k > j + 1 {
        let at = lemma_best_before(g, hole, i, j, k - 1);
        let here = (i, j, k - 1);
        assert forall|u: (int, int, int)|
            #[trigger] comes_before(u, (i, j, k)) == (comes_before(u, here) || u == here) by {}
        if is_triple(here, n) && g.triple_score(hole, here) > g.triple_score(hole, at) {
            here
        } else {
            at
        }
    } else if j > i + 1 {
        lemma_best_before(g, hole, i, j - 1, n + 2)
    } else if i > 0 {
        lemma_best_before(g, hole, i - 1, n + 1, n + 2)
    } else {
        (0, 1, 2)
    }
}

/// Of three or more open cards there are always three that make the best team.
pub proof fn a_best_triple_exists(g: GameModel, hole: Seq<Adventurer>)
    requires
        g.community.len() >= 3,
    ensures
        exists|t: (int, int, int)| #[trigger] g.is_best_triple(hole, t),
{
    let n = g.community.len() as int;
    let at = lemma_best_before(g, hole, n, n + 1, n + 2);
    assert forall|u: (int, int, int)| is_triple(u, n) implies comes_before(
        u,
        (n, n + 1, n + 2),
    ) by {}
    assert(g.is_best_triple(hole, at));
}

// ---- Picks by hand ----

/// Whatever three open cards a player picks by hand, and in whatever order, the best team scores
/// at least as high.
pub proof fn hand_picks_never_beat_the_best_team(
    g: GameModel,
    hole: Seq<Adventurer>,
    indices: Seq<usize>,
)
    requires
        indices.len() == 3,
        indices.no_duplicates(),
        forall|i: int| 0 <= i < 3 ==> (#[trigger] indices[i]) < g.community.len(),
    ensures
        g.report(hole, selected(g.community, indices)).spec_pick_score() <= g.best_report(
            hole,
        ).spec_pick_score(),
{
    let a = indices[0] as int;
    let b = indices[1] as int;
    let c = indices[2] as int;
    let n = g.community.len() as int;
    assert(a != b && b != c && a != c);
    let picks = selected(g.community, indices);
    assert(picks =~= seq![g.community[a], g.community[b], g.community[c]]) by {
        let two = indices.drop_last();
        let one = two.drop_last();
        assert(one.drop_last() =~= Seq::empty());
        reveal_with_fuel(selected, 4);
    }
    let t = if a < b {
        if b < c {
            (a, b, c)
        } else if a < c {
            (a, c, b)
        } else {
            (c, a, b)
        }
    } else {
        if a < c {
            (b, a, c)
        } else if b < c {
            (b, c, a)
        } else {
            (c, b, a)
        }
    };
    assert(is_triple(t, n));
    lemma_order_does_not_matter(hole, picks, cards_at(g.community, t), g.scene);
    assert(g.report(hole, picks).spec_pick_score() == g.triple_score(hole, t));
    if n == 3 {
        assert(cards_at(g.community, t) =~= g.community);
    } else {
        a_best_triple_exists(g, hole);
        let best = choose|t: (int, int, int)| g.is_best_triple(hole, t);
        assert(g.is_best_triple(hole, best));
        assert(g.triple_score(hole, t) <= g.triple_score(hole, best));
    }
}

/// Indices beyond the pool name nothing: without them the same cards are picked.
pub proof fn indices_beyond_the_pool_do_not_count(
    community: Seq<CommunityCard>,
    indices: Seq<usize>,
)
    ensures
        selected(community, indices) == selected(
            community,
            indices.filter(|i: usize| i < community.len()),
        ),
    decreases indices.len(),
{
    reveal(Seq::filter);
    let keep = |i: usize| i < community.len();
    if indices.len() > 0 {
        let rest = indices.drop_last();
        indices_beyond_the_pool_do_not_count(community, rest);
        let kept = rest.filter(keep);
        if indices.last() < community.len() {
            assert(indices.filter(keep) == kept.push(indices.last()));
            assert(kept.push(indices.last()).drop_last() =~= kept);
        }
    }
}

} // verus!
