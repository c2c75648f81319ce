//! Who sits where: the seats of a local match, their pictures, and their places on the screen.
use crate::game_model::least;
use crate::rng::{first_draw, Rng};
use crate::session::in_session;
use crate::table::{def_models, Match, MatchModel, SeatDef, SeatDefModel};
use crate::text::{count_text, dec};
use vstd::prelude::*;

verus! {

/// The smallest and the largest local match.
pub const MIN_LOCAL: usize = 3;

pub const MAX_LOCAL: usize = 6;

/// What the clock is mixed with for the seed of a local match.
pub const LOCAL_SEED_MIX: u64 = 0xA5A5_5A5A_1234_ABCD;

/// The place of the local player's picture, in pixels.
pub const PLAYER_AVATAR_X: u32 = 36;

pub const PLAYER_AVATAR_Y: u32 = 927;

/// The picture of the machine's player number `k`. There are three, which take turns.
pub open spec fn machine_picture(k: int) -> Seq<char> {
    if k % 3 == 0 {
        "AI-Gambler"@
    } else if k % 3 == 1 {
        "AI-Rookie"@
    } else {
        "AI-Veteran"@
    }
}

fn picture_of(k: usize) -> (r: &'static str)
    ensures
        r@ == machine_picture(k as int),
{
    if k % 3 == 0 {
        "AI-Gambler"
    } else if k % 3 == 1 {
        "AI-Rookie"
    } else {
        "AI-Veteran"
    }
}

/// The name of the machine's player number `k`: that of its picture, numbered from the second
/// turn on.
pub open spec fn machine_player(k: int) -> Seq<char> {
    if k < 3 {
        machine_picture(k)
    } else {
        machine_picture(k) + " "@ + dec((k / 3 + 1) as nat)
    }
}

fn player_name(k: usize) -> (r: String)
    ensures
        r@ == machine_player(k as int),
{
    let mut r = picture_of(k).to_owned();
    if k >= 3 {
        r.append(" ");
        r.append(count_text(k / 3 + 1).as_str());
    }
    r
}

/// How many seats a local match gets.
pub open spec fn local_size(count: int) -> int {
    if count < MIN_LOCAL {
        MIN_LOCAL as int
    } else if count > MAX_LOCAL {
        MAX_LOCAL as int
    } else {
        count
    }
}

/// The seats of a local match: the player, then the machine.
pub open spec fn local_defs(count: int) -> Seq<SeatDefModel> {
    Seq::new(
        local_size(count) as nat,
        |i: int|
            if i == 0 {
                SeatDefModel { name: "You"@, is_ai: false }
            } else {
                SeatDefModel { name: machine_player(i - 1), is_ai: true }
            },
    )
}

fn seat_defs(count: usize) -> (r: Vec<SeatDef>)
    ensures
        def_models(r@) == local_defs(count as int),
        3 <= r@.len() <= 6,
{
    let n: usize = if count < MIN_LOCAL {
        MIN_LOCAL
    } else if count > MAX_LOCAL {
        MAX_LOCAL
    } else {
        count
    };
    let mut defs: Vec<SeatDef> = Vec::new();
    defs.push(SeatDef::new("You".to_owned(), false));
    let mut k: usize = 1;
    while k < n
        invariant
            1 <= k <= n,
            n == local_size(count as int),
            defs@.len() == k,
            forall|j: int| 0 <= j < k ==> (#[trigger] defs@[j])@ == local_defs(count as int)[j],
        decreases n - k,
    {
        defs.push(SeatDef::new(player_name(k - 1), true));
        k = k + 1;
    }
    assert(def_models(defs@) =~= local_defs(count as int));
    defs
}

/// The seed of a local match that starts at the given time.
pub open spec fn local_seed(nanos: u64) -> u64 {
    first_draw(nanos ^ LOCAL_SEED_MIX)
}

pub fn seed_from_clock(nanos: u64) -> (r: u64)
    ensures
        r == local_seed(nanos),
{
    let mut rng = Rng::new(nanos ^ LOCAL_SEED_MIX);
    rng.next_u64()
}

/// Opens a local match of one player and the machine, at the given time.
pub fn new_session(count: usize, nanos: u64) -> (r: Match)
    ensures
        r@ == MatchModel::fresh(local_defs(count as int), local_seed(nanos)).dealt(),
        r.wf(),
        in_session(r@),
{
    proof {
        crate::session::matches_open_in_session(local_defs(count as int), local_seed(nanos));
    }
    Match::new(seat_defs(count), seed_from_clock(nanos))
}

// ---- Pictures ----

/// The file of a picture.
pub open spec fn picture_path(name: Seq<char>) -> Seq<char> {
    "avatars/"@ + name + ".png"@
}

fn picture_file(name: &str) -> (r: String)
    ensures
        r@ == picture_path(name@),
{
    let mut r = "avatars/".to_owned();
    r.append(name);
    r.append(".png");
    r
}

/// The file of the picture at a seat of a local match.
pub fn avatar_file(seat: usize) -> (r: String)
    ensures
        r@ == (if seat == 0 {
            picture_path("player"@)
        } else {
            picture_path(machine_picture(seat - 1))
        }),
{
    if seat == 0 {
        picture_file("player")
    } else {
        picture_file(picture_of(seat - 1))
    }
}

/// The file of the picture at a seat of a table on a server.
pub fn mp_avatar_file(seat: usize, you_seat: usize) -> (r: String)
    ensures
        r@ == (if seat == you_seat {
            picture_path("player"@)
        } else {
            picture_path(machine_picture(seat as int))
        }),
{
    if seat == you_seat {
        picture_file("player")
    } else {
        picture_file(picture_of(seat))
    }
}

/// Which of `n` things the clock and a number that tells lists apart pick.
pub open spec fn picked(nanos: u64, mark: u64, n: int) -> int {
    (first_draw(nanos ^ mark) as usize) as int % n
}

/// Picks one of a list by the clock. `mark` tells lists apart that are picked from at once.
pub fn pick(list: &[&'static str], nanos: u64, mark: u64) -> (r: &'static str)
    requires
        list@.len() > 0,
    ensures
        r == list@[picked(nanos, mark, list@.len() as int)],
{
    let mut rng = Rng::new(nanos ^ mark);
    let draw: usize = rng.next_u64() as usize;
    list[draw % list.len()]
}

// ---- Places ----

/// The places of so many opponents around the table, in pixels. There are never more than five.
pub open spec fn places(count: int) -> Seq<(u32, u32)> {
    if count <= 0 {
        Seq::empty()
    } else if count == 1 {
        seq![(1000u32, 28u32)]
    } else if count == 2 {
        seq![(24u32, 260u32), (1700u32, 260u32)]
    } else if count == 3 {
        seq![(1000u32, 28u32), (24u32, 260u32), (1700u32, 260u32)]
    } else if count == 4 {
        seq![(520u32, 56u32), (1390u32, 56u32), (24u32, 260u32), (1700u32, 260u32)]
    } else {
        seq![
            (1000u32, 28u32),
            (520u32, 56u32),
            (1390u32, 56u32),
            (24u32, 560u32),
            (1700u32, 560u32),
        ]
    }
}

pub fn opponent_positions(count: usize) -> (r: Vec<(u32, u32)>)
    ensures
        r@ == places(count as int),
{
    let top: (u32, u32) = (1000, 28);
    let top_left: (u32, u32) = (520, 56);
    let top_right: (u32, u32) = (1390, 56);
    let mid_left: (u32, u32) = (24, 260);
    let mid_right: (u32, u32) = (1700, 260);
    let low_left: (u32, u32) = (24, 560);
    let low_right: (u32, u32) = (1700, 560);
    let r: Vec<(u32, u32)> = if count == 0 {
        Vec::new()
    } else if count == 1 {
        vec![top]
    } else if count == 2 {
        vec![mid_left, mid_right]
    } else if count == 3 {
        vec![top, mid_left, mid_right]
    } else if count == 4 {
        vec![top_left, top_right, mid_left, mid_right]
    } else {
        vec![top, top_left, top_right, low_left, low_right]
    };
    assert(r@ =~= places(count as int));
    r
}

/// The seat of the local player: a seat beyond the table is the last one.
pub open spec fn own_seat(count: int, local: int) -> int {
    least(local, count - 1)
}

/// The `k`th of the other seats.
pub open spec fn other_seat(own: int, k: int) -> int {
    if k < own {
        k
    } else {
        k + 1
    }
}

/// Where every seat is shown: the local player at the bottom, the others around the table.
pub open spec fn layout(count: int, local: int) -> Seq<(usize, u32, u32)> {
    if count <= 0 {
        Seq::empty()
    } else {
        let own = own_seat(count, local);
        let around = places(count - 1);
        seq![(own as usize, PLAYER_AVATAR_X, PLAYER_AVATAR_Y)] + Seq::new(
            least(count - 1, around.len() as int) as nat,
            |k: int| (other_seat(own, k) as usize, around[k].0, around[k].1),
        )
    }
}

/// The places of all seats, as (seat, x, y).
pub fn seat_layout(count: usize, local_seat: usize) -> (r: Vec<(usize, u32, u32)>)
    ensures
        r@ == layout(count as int, local_seat as int),
{
    let mut r: Vec<(usize, u32, u32)> = Vec::new();
    if count == 0 {
        return r;
    }
    let own: usize = if local_seat < count - 1 {
        local_seat
    } else {
        count - 1
    };
    let ghost goal = layout(count as int, local_seat as int);
    r.push((own, PLAYER_AVATAR_X, PLAYER_AVATAR_Y));
    let around = opponent_positions(count - 1);
    let mut k: usize = 0;
    assert(r@ =~= goal.take(1));
    while k < around.len() && k < count - 1
        invariant
            count > 0,
            own == own_seat(count as int, local_seat as int),
            around@ == places(count - 1),
            k <= around@.len(),
            k <= count - 1,
            goal == layout(count as int, local_seat as int),
            r@ == goal.take(k + 1),
        decreases around@.len() - k,
    {
        let seat: usize = if k < own {
            k
        } else {
            k + 1
        };
        r.push((seat, around[k].0, around[k].1));
        k = k + 1;
        assert(r@ =~= goal.take(k + 1));
    }
    assert(goal.take(k + 1) =~= goal);
    r
}

/// At a table of up to six, every seat has exactly one place.
pub proof fn everyone_has_a_place(count: int, local: int)
    requires
        1 <= count <= 6,
        0 <= local,
    ensures
        layout(count, local).len() == count,
        forall|i: int|
            0 <= i < count ==> 0 <= (#[trigger] layout(count, local)[i]).0 < count,
        forall|i: int, j: int|
            0 <= i < j < count ==> (#[trigger] layout(count, local)[i]).0 != (
            #[trigger] layout(count, local)[j]).0,
{
    let own = own_seat(count, local);
    let all = layout(count, local);
    assert(places(count - 1).len() == count - 1);
    assert forall|i: int| 1 <= i < count implies (#[trigger] all[i]).0 == other_seat(own, i - 1) by {}
    assert(all[0].0 == own);
}

} // verus!
