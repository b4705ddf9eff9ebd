//! Boid flock logic: random friend/enemy assignment and the per-frame
//! movement rules.
//!
//! Entities are plain `u64` ids; positions are three fixed-point
//! coordinates in thousandths of a pixel.

use vstd::prelude::*;
use crate::abs_of;
use crate::rng::{rand_below, rand_range_i64, rand_ratio};

verus! {

/// How many boids the flock demo spawns.
pub const BOID_COUNT: usize = 1000;

/// Chance, per boid and frame, of re-drawing its relationships: 1 in 100.
pub const RELATION_REDRAW_NUM: u32 = 1;
pub const RELATION_REDRAW_DEN: u32 = 100;

/// Social relationships of one flock member.
#[derive(Clone, Copy, PartialEq, Eq, Structural, Debug)]
pub struct Boid {
    pub friend: Option<u64>,
    pub enemy: Option<u64>,
}

/// A three-component position or displacement in thousandths of a pixel.
#[derive(Clone, Copy, PartialEq, Eq, Structural, Debug)]
pub struct Vec3Fx {
    pub x: i64,
    pub y: i64,
    pub z: i64,
}

/// The predicate that keeps every id other than `me`.
pub open spec fn other_than(me: u64) -> spec_fn(u64) -> bool {
    |x: u64| x != me
}

/// The ids a boid may pick a relationship from: every flock id but its own.
pub open spec fn peers_of(ids: Seq<u64>, me: u64) -> Seq<u64> {
    ids.filter(other_than(me))
}

/// A boid's relationships are sound for a flock: friend and enemy, where
/// set, name another member of the flock, never the boid itself, and never
/// the same member twice.
pub open spec fn boid_ok(b: Boid, me: u64, ids: Seq<u64>) -> bool {
    &&& (b.friend matches Some(f) ==> ids.contains(f) && f != me)
    &&& (b.enemy matches Some(e) ==> ids.contains(e) && e != me)
    &&& (b.friend is Some && b.enemy is Some ==> b.friend != b.enemy)
}

/// Every element of a filtered sequence comes from the sequence itself.
pub proof fn lemma_filter_subset<A>(s: Seq<A>, pred: spec_fn(A) -> bool)
    ensures
        forall|x: A| s.filter(pred).contains(x) ==> s.contains(x),
    decreases s.len(),
{
    reveal(Seq::filter);
    if s.len() != 0 {
        lemma_filter_subset(s.drop_last(), pred);
        assert forall|x: A| s.filter(pred).contains(x) implies s.contains(x) by {
            let sub = s.drop_last().filter(pred);
            if pred(s.last()) && x == s.last() {
                assert(s[s.len() - 1] == x);
            } else {
                assert(sub.contains(x));
                assert(s.drop_last().contains(x));
                let j = choose|j: int| 0 <= j < s.drop_last().len() && s.drop_last()[j] == x;
                assert(s[j] == x);
            }
        }
    }
}

/// Filtering a sequence without duplicates leaves no duplicates.
pub proof fn lemma_filter_no_duplicates<A>(s: Seq<A>, pred: spec_fn(A) -> bool)
    requires
        s.no_duplicates(),
    ensures
        s.filter(pred).no_duplicates(),
    decreases s.len(),
{
    reveal(Seq::filter);
    if s.len() != 0 {
        let d = s.drop_last();
        assert(d.no_duplicates());
        lemma_filter_no_duplicates(d, pred);
        lemma_filter_subset(d, pred);
        if pred(s.last()) {
            let sub = d.filter(pred);
            assert(!sub.contains(s.last())) by {
                if sub.contains(s.last()) {
                    assert(d.contains(s.last()));
                    let j = choose|j: int| 0 <= j < d.len() && d[j] == s.last();
                    assert(s[j] == s[s.len() - 1]);
                }
            }
            assert forall|a: int, b: int|
                0 <= a < b < sub.push(s.last()).len() implies sub.push(s.last())[a] != sub.push(
                s.last(),
            )[b] by {
                if b < sub.len() {
                    assert(sub[a] != sub[b]);
                } else {
                    assert(sub.contains(sub[a]));
                }
            }
        }
    }
}

/// Collects every id in `ids` other than `me`, in order.
pub fn peers(ids: &Vec<u64>, me: u64) -> (r: Vec<u64>)
    ensures
        r@ == peers_of(ids@, me),
        ids@.no_duplicates() ==> r@.no_duplicates(),
        forall|x: u64| r@.contains(x) ==> ids@.contains(x),
{
    let mut r: Vec<u64> = Vec::new();
    let mut i: usize = 0;
    proof {
        reveal(Seq::filter);
        assert(ids@.take(0int) =~= Seq::<u64>::empty());
    }
    while i < ids.len()
        invariant
            i <= ids@.len(),
            r@ == peers_of(ids@.take(i as int), me),
        decreases ids@.len() - i,
    {
        let v = ids[i];
        proof {
            reveal(Seq::filter);
            let t1 = ids@.take(i as int + 1);
            assert(t1.drop_last() =~= ids@.take(i as int));
            assert(t1.last() == ids@[i as int]);
        }
        if v != me {
            r.push(v);
        }
        i += 1;
    }
    proof {
        assert(ids@.take(ids@.len() as int) =~= ids@);
        let pred = other_than(me);
        assert(r@ == ids@.filter(pred));
        if ids@.no_duplicates() {
            lemma_filter_no_duplicates(ids@, pred);
            assert(r@.no_duplicates());
        }
        lemma_filter_subset(ids@, pred);
        assert forall|x: u64| r@.contains(x) implies ids@.contains(x) by {
            assert(ids@.filter(pred).contains(x));
        }
    }
    r
}

/// Draws a fresh friend and enemy for the boid with id `me`, as the flock
/// setup does: with two or more other boids present, friend and enemy are
/// picked at random among them and are always distinct; with exactly one
/// other boid, it becomes the friend and the enemy is cleared; with no
/// other boid, or fewer than two boids in total, nothing changes.
pub fn find_friend_and_enemy(me: u64, ids: &Vec<u64>, boid: &mut Boid)
    requires
        ids@.no_duplicates(),
    ensures
        ids@.len() < 2 || peers_of(ids@, me).len() == 0 ==> *final(boid) == *old(boid),
        ids@.len() >= 2 && peers_of(ids@, me).len() == 1 ==> *final(boid) == (Boid {
            friend: Some(peers_of(ids@, me)[0]),
            enemy: None,
        }),
        ids@.len() >= 2 && peers_of(ids@, me).len() >= 2 ==> {
            &&& final(boid).friend matches Some(f) && peers_of(ids@, me).contains(f)
            &&& final(boid).enemy matches Some(e) && peers_of(ids@, me).contains(e)
            &&& final(boid).friend != final(boid).enemy
        },
        ids@.len() >= 2 && peers_of(ids@, me).len() >= 1 ==> boid_ok(*final(boid), me, ids@),
{
    if ids.len() >= 2 {
        let available = peers(ids, me);
        if available.len() >= 2 {
            let n = available.len();
            let (friend_idx, enemy_idx) = distinct_pair(n);
            let friend = available[friend_idx];
            let enemy = available[enemy_idx];
            proof {
                broadcast use vstd::seq_lib::group_filter_ensures;

                assert(available@.contains(available@[friend_idx as int]));
                assert(available@.contains(available@[enemy_idx as int]));
                assert(peers_of(ids@, me)[friend_idx as int] != me);
                assert(peers_of(ids@, me)[enemy_idx as int] != me);
            }
            boid.friend = Some(friend);
            boid.enemy = Some(enemy);
        } else if available.len() == 1 {
            proof {
                broadcast use vstd::seq_lib::group_filter_ensures;

                assert(available@.contains(available@[0]));
                assert(peers_of(ids@, me)[0] != me);
            }
            boid.friend = Some(available[0]);
            boid.enemy = None;
        }
    }
}

/// With no duplicate ids, dropping `me` shortens the list by exactly one
/// when `me` is present, and not at all otherwise.
pub proof fn lemma_peers_len(ids: Seq<u64>, me: u64)
    requires
        ids.no_duplicates(),
    ensures
        peers_of(ids, me).len() == if ids.contains(me) {
            ids.len() - 1
        } else {
            ids.len() as int
        },
    decreases ids.len(),
{
    reveal(Seq::filter);
    if ids.len() == 0 {
        assert(!ids.contains(me));
    } else {
        let d = ids.drop_last();
        assert(d.no_duplicates());
        lemma_peers_len(d, me);
        if ids.last() == me {
            assert(ids.contains(me)) by {
                assert(ids[ids.len() - 1] == me);
            }
            assert(!d.contains(me)) by {
                if d.contains(me) {
                    let j = choose|j: int| 0 <= j < d.len() && d[j] == me;
                    assert(ids[j] == ids[ids.len() - 1]);
                }
            }
        } else {
            assert(ids.contains(me) <==> d.contains(me)) by {
                if ids.contains(me) {
                    let j = choose|j: int| 0 <= j < ids.len() && ids[j] == me;
                    assert(d[j] == me);
                }
                if d.contains(me) {
                    let j = choose|j: int| 0 <= j < d.len() && d[j] == me;
                    assert(ids[j] == me);
                }
            }
        }
    }
}

/// A whole flock's relationships are sound: boid `i` carries id `ids[i]`,
/// and its friend and enemy, where set, are other flock members, distinct
/// from each other.
pub open spec fn flock_ok(ids: Seq<u64>, boids: Seq<Boid>) -> bool {
    &&& boids.len() == ids.len()
    &&& forall|i: int| 0 <= i < boids.len() ==> boid_ok(#[trigger] boids[i], ids[i], ids)
}

/// Assigns fresh relationships to every boid, as the flock setup does.
/// With two or more boids, every boid ends with sound relationships:
/// friend and enemy are other flock members and differ from each other.
pub fn assign_all(ids: &Vec<u64>, boids: &mut Vec<Boid>)
    requires
        ids@.no_duplicates(),
        old(boids)@.len() == ids@.len(),
    ensures
        final(boids)@.len() == ids@.len(),
        ids@.len() >= 2 ==> flock_ok(ids@, final(boids)@),
        ids@.len() < 2 ==> final(boids)@ == old(boids)@,
{
    let n = ids.len();
    let mut out: Vec<Boid> = Vec::new();
    let mut i: usize = 0;
    while i < n
        invariant
            n == ids@.len(),
            boids@.len() == n,
            ids@.no_duplicates(),
            i <= n,
            out@.len() == i,
            forall|j: int| 0 <= j < i && n >= 2 ==> boid_ok(#[trigger] out@[j], ids@[j], ids@),
            forall|j: int| 0 <= j < i && n < 2 ==> out@[j] == boids@[j],
        decreases n - i,
    {
        let mut b = boids[i];
        proof {
            lemma_peers_len(ids@, ids@[i as int]);
            assert(ids@.contains(ids@[i as int]));
        }
        find_friend_and_enemy(ids[i], ids, &mut b);
        out.push(b);
        i += 1;
    }
    proof {
        if n < 2 {
            assert(out@ =~= boids@);
        }
    }
    *boids = out;
}

/// Any relationship value the per-frame update newly wrote names a
/// current peer of the boid: a friend field is either untouched or a peer,
/// an enemy field is untouched, cleared, or a peer.
pub open spec fn update_writes_peers(before: Boid, after: Boid, me: u64, ids: Seq<u64>) -> bool {
    &&& (after.friend == before.friend || (after.friend matches Some(f) && peers_of(
        ids,
        me,
    ).contains(f) && f != me))
    &&& (after.enemy == before.enemy || after.enemy is None || (after.enemy matches Some(e)
        && peers_of(ids, me).contains(e) && e != me))
}

/// Occasionally re-draws one boid's relationships, as the per-frame update
/// does: nothing changes with fewer than two boids; whatever the dice
/// decide, sound relationships stay sound, and any value the call newly
/// assigned names another current flock member.
pub fn update_relationships(me: u64, ids: &Vec<u64>, boid: &mut Boid)
    requires
        ids@.no_duplicates(),
    ensures
        ids@.len() < 2 ==> *final(boid) == *old(boid),
        boid_ok(*old(boid), me, ids@) ==> boid_ok(*final(boid), me, ids@),
        update_writes_peers(*old(boid), *final(boid), me, ids@),
{
    if ids.len() < 2 {
        return ;
    }
    if rand_ratio(RELATION_REDRAW_NUM, RELATION_REDRAW_DEN) {
        let available = peers(ids, me);
        if available.len() >= 2 {
            let choice = rand_below(3);
            if choice == 0 {
                // re-draw the friend only, unless the draw collides with
                // the current enemy
                let idx = rand_below(available.len());
                let new_friend = available[idx];
                proof {
                    broadcast use vstd::seq_lib::group_filter_ensures;

                    assert(available@.contains(available@[idx as int]));
                    assert(peers_of(ids@, me)[idx as int] != me);
                }
                let collides = match boid.enemy {
                    Some(e) => e == new_friend,
                    None => false,
                };
                if !collides {
                    boid.friend = Some(new_friend);
                }
            } else if choice == 1 {
                // re-draw the enemy only, unless the draw collides with
                // the current friend
                let idx = rand_below(available.len());
                let new_enemy = available[idx];
                proof {
                    broadcast use vstd::seq_lib::group_filter_ensures;

                    assert(available@.contains(available@[idx as int]));
                    assert(peers_of(ids@, me)[idx as int] != me);
                }
                let collides = match boid.friend {
                    Some(f) => f == new_enemy,
                    None => false,
                };
                if !collides {
                    boid.enemy = Some(new_enemy);
                }
            } else {
                // re-draw both, always distinct
                let (friend_idx, enemy_idx) = distinct_pair(available.len());
                proof {
                    broadcast use vstd::seq_lib::group_filter_ensures;

                    assert(available@.contains(available@[friend_idx as int]));
                    assert(available@.contains(available@[enemy_idx as int]));
                    assert(peers_of(ids@, me)[friend_idx as int] != me);
                    assert(peers_of(ids@, me)[enemy_idx as int] != me);
                }
                boid.friend = Some(available[friend_idx]);
                boid.enemy = Some(available[enemy_idx]);
            }
        } else if available.len() == 1 {
            proof {
                broadcast use vstd::seq_lib::group_filter_ensures;

                assert(available@.contains(available@[0]));
                assert(peers_of(ids@, me)[0] != me);
            }
            boid.friend = Some(available[0]);
            boid.enemy = None;
        }
    }
}

/// Runs the per-frame relationship update over the whole flock: soundness
/// is preserved, and every newly assigned value names a current peer.
pub fn update_all_relationships(ids: &Vec<u64>, boids: &mut Vec<Boid>)
    requires
        ids@.no_duplicates(),
        old(boids)@.len() == ids@.len(),
    ensures
        final(boids)@.len() == ids@.len(),
        flock_ok(ids@, old(boids)@) ==> flock_ok(ids@, final(boids)@),
        forall|j: int|
            0 <= j < ids@.len() ==> update_writes_peers(
                old(boids)@[j],
                #[trigger] final(boids)@[j],
                ids@[j],
                ids@,
            ),
{
    let n = ids.len();
    let mut out: Vec<Boid> = Vec::new();
    let mut i: usize = 0;
    while i < n
        invariant
            n == ids@.len(),
            boids@.len() == n,
            ids@.no_duplicates(),
            i <= n,
            out@.len() == i,
            forall|j: int|
                0 <= j < i && boid_ok(boids@[j], ids@[j], ids@) ==> boid_ok(
                    #[trigger] out@[j],
                    ids@[j],
                    ids@,
                ),
            forall|j: int|
                0 <= j < i ==> update_writes_peers(boids@[j], #[trigger] out@[j], ids@[j], ids@),
        decreases n - i,
    {
        let mut b = boids[i];
        update_relationships(ids[i], ids, &mut b);
        out.push(b);
        i += 1;
    }
    *boids = out;
}

/// In a sound flock of two or more boids, every boid's assigned friend
/// and enemy are distinct from the boid itself, and, when both are set,
/// distinct from each other.
pub proof fn lemma_relationships_distinct(ids: Seq<u64>, boids: Seq<Boid>, i: int)
    requires
        flock_ok(ids, boids),
        0 <= i < boids.len(),
    ensures
        boids[i].friend matches Some(f) ==> f != ids[i],
        boids[i].enemy matches Some(e) ==> e != ids[i],
        boids[i].friend is Some && boids[i].enemy is Some ==> boids[i].friend != boids[i].enemy,
{
    assert(boid_ok(boids[i], ids[i], ids));
}

/// Two distinct indices below `n`, each drawn at random.
fn distinct_pair(n: usize) -> (r: (usize, usize))
    requires
        2 <= n,
    ensures
        r.0 < n,
        r.1 < n,
        r.0 != r.1,
{
    let first = rand_below(n);
    let raw = rand_below(n - 1);
    let second = if raw >= first {
        raw + 1
    } else {
        raw
    };
    (first, second)
}

/// How strongly boids move, in thousandths: the pull toward the flock
/// center, toward the friend, and away from the enemy.
pub const SPEED_TO_CENTER: u64 = 5_000;
pub const SPEED_TO_FRIEND: u64 = 100_000;
pub const SPEED_TO_ENEMY: u64 = 20_000;

/// Positions the movement functions accept, in thousandths of a pixel.
pub const COORD_LIMIT: i64 = 1_000_000_000;

/// A frame may span at most an hour, in milliseconds.
pub const DT_LIMIT: u32 = 3_600_000;

/// Accumulated per-frame movement stays below this bound.
pub const MOVE_LIMIT: i64 = 8_300_000_000_000_000_000;

/// What one pair may add to one boid's movement along one axis in one
/// frame: one friend and one enemy contribution.
pub const PAIR_LIMIT: i64 = 8_000_000_000_000;

/// A position within the world the movement functions work in.
pub open spec fn in_world(v: Vec3Fx) -> bool {
    &&& -COORD_LIMIT <= v.x <= COORD_LIMIT
    &&& -COORD_LIMIT <= v.y <= COORD_LIMIT
    &&& -COORD_LIMIT <= v.z <= COORD_LIMIT
}

/// `v * num / den`, rounded toward zero.
pub open spec fn scaled_ratio(v: int, num: int, den: int) -> int {
    if v >= 0 {
        v * num / den
    } else {
        -((-v) * num / den)
    }
}

/// Multiplies a signed value by `num / den`, rounding toward zero.
fn scale_signed(c: i64, num: u64, den: u64) -> (r: i64)
    requires
        1 <= den,
        abs_of(c as int) * num <= den * 9_000_000_000_000_000_000,
    ensures
        r == scaled_ratio(c as int, num as int, den as int),
        abs_of(r as int) <= abs_of(c as int) * (num as int) / (den as int),
{
    let mag: u128 = if c >= 0 {
        c as u128
    } else {
        (-(c as i128)) as u128
    };
    let q = mag * (num as u128) / (den as u128);
    proof {
        vstd::arithmetic::div_mod::lemma_div_is_ordered(
            (mag as int) * (num as int),
            (den as int) * 9_000_000_000_000_000_000,
            den as int,
        );
        vstd::arithmetic::div_mod::lemma_div_multiples_vanish(
            9_000_000_000_000_000_000,
            den as int,
        );
        vstd::arithmetic::div_mod::lemma_div_pos_is_pos((mag as int) * (num as int), den as int);
    }
    if c >= 0 {
        q as i64
    } else {
        -(q as i64)
    }
}

/// The squared length of a vector.
pub open spec fn norm_sq(v: Vec3Fx) -> int {
    v.x * v.x + v.y * v.y + v.z * v.z
}

/// The integer square root: the largest `r` with `r * r <= n`.
pub open spec fn sqrt_floor(n: nat) -> nat
    decreases n,
{
    if n == 0 {
        0
    } else {
        let r = sqrt_floor((n - 1) as nat);
        if (r + 1) * (r + 1) <= n {
            r + 1
        } else {
            r
        }
    }
}

/// The integer square root is bracketed by the two neighbouring squares.
pub proof fn lemma_sqrt_floor_bounds(n: nat)
    ensures
        sqrt_floor(n) * sqrt_floor(n) <= n < (sqrt_floor(n) + 1) * (sqrt_floor(n) + 1),
    decreases n,
{
    if n != 0 {
        lemma_sqrt_floor_bounds((n - 1) as nat);
        let r = sqrt_floor((n - 1) as nat);
        if (r + 1) * (r + 1) <= n {
            assert(sqrt_floor(n) == r + 1);
            assert(n <= (r + 1) * (r + 1)) by (nonlinear_arith)
                requires
                    n - 1 < (r + 1) * (r + 1),
            ;
            assert(n < (r + 2) * (r + 2)) by (nonlinear_arith)
                requires
                    n <= (r + 1) * (r + 1),
                    r >= 0,
            ;
            assert((sqrt_floor(n) + 1) * (sqrt_floor(n) + 1) == (r + 2) * (r + 2));
        } else {
            assert(sqrt_floor(n) == r);
            assert(n < (r + 1) * (r + 1));
        }
    } else {
        assert(sqrt_floor(n) == 0);
        assert((0 + 1) * (0 + 1) == 1) by (nonlinear_arith);
    }
}

/// Only one value sits between the two neighbouring squares.
pub proof fn lemma_sqrt_unique(n: nat, r: nat)
    requires
        r * r <= n < (r + 1) * (r + 1),
    ensures
        r == sqrt_floor(n),
{
    let b = sqrt_floor(n);
    lemma_sqrt_floor_bounds(n);
    assert(r < b + 1) by (nonlinear_arith)
        requires
            r * r <= n,
            n < (b + 1) * (b + 1),
    ;
    assert(b < r + 1) by (nonlinear_arith)
        requires
            b * b <= n,
            n < (r + 1) * (r + 1),
    ;
}

/// Computes the integer square root by bisection.
pub fn isqrt(x: u64) -> (r: u64)
    ensures
        r == sqrt_floor(x as nat),
{
    let mut lo: u64 = 0;
    let mut hi: u64 = 4_294_967_296;
    proof {
        assert((x as int) < 4_294_967_296int * 4_294_967_296int) by (nonlinear_arith)
            requires
                x <= 0xFFFF_FFFF_FFFF_FFFFint,
        ;
    }
    while lo + 1 < hi
        invariant
            lo < hi <= 4_294_967_296,
            (lo as int) * (lo as int) <= x as int,
            (x as int) < (hi as int) * (hi as int),
        decreases hi - lo,
    {
        let mid = lo + (hi - lo) / 2;
        proof {
            assert((mid as int) * (mid as int) <= 4_294_967_295int * 4_294_967_295int)
                by (nonlinear_arith)
                requires
                    0 <= mid <= 4_294_967_295int,
            ;
        }
        if mid * mid <= x {
            lo = mid;
        } else {
            hi = mid;
        }
    }
    proof {
        lemma_sqrt_unique(x as nat, lo as nat);
    }
    lo
}

/// One component of the unit direction of `v`, in thousandths: the
/// component scaled by one thousand over the vector's length, or zero for
/// the zero vector.
pub open spec fn unit_x(v: Vec3Fx) -> int {
    if norm_sq(v) == 0 {
        0
    } else {
        scaled_ratio(v.x as int, 1000, sqrt_floor(norm_sq(v) as nat) as int)
    }
}

pub open spec fn unit_y(v: Vec3Fx) -> int {
    if norm_sq(v) == 0 {
        0
    } else {
        scaled_ratio(v.y as int, 1000, sqrt_floor(norm_sq(v) as nat) as int)
    }
}

pub open spec fn unit_z(v: Vec3Fx) -> int {
    if norm_sq(v) == 0 {
        0
    } else {
        scaled_ratio(v.z as int, 1000, sqrt_floor(norm_sq(v) as nat) as int)
    }
}

/// The vector components the movement rules accept: twice the world
/// bound, since they work on differences of positions.
pub open spec fn diff_bounded(v: Vec3Fx) -> bool {
    &&& -2 * COORD_LIMIT <= v.x <= 2 * COORD_LIMIT
    &&& -2 * COORD_LIMIT <= v.y <= 2 * COORD_LIMIT
    &&& -2 * COORD_LIMIT <= v.z <= 2 * COORD_LIMIT
}

/// The unit direction of `v` in thousandths, or zero for the zero vector.
pub fn normalize_or_zero(v: Vec3Fx) -> (r: Vec3Fx)
    requires
        diff_bounded(v),
    ensures
        r.x == unit_x(v),
        r.y == unit_y(v),
        r.z == unit_z(v),
        -1000 <= r.x <= 1000,
        -1000 <= r.y <= 1000,
        -1000 <= r.z <= 1000,
{
    let sq = square_sum(v);
    if sq == 0 {
        proof {
            lemma_zero_norm(v);
        }
        Vec3Fx { x: 0, y: 0, z: 0 }
    } else {
        let len = isqrt(sq);
        proof {
            lemma_square_bound(v.x as int);
            lemma_square_bound(v.y as int);
            lemma_square_bound(v.z as int);
            lemma_sqrt_floor_bounds(sq as nat);
            assert(len >= 1) by (nonlinear_arith)
                requires
                    (len as int + 1) * (len as int + 1) > sq as int,
                    sq >= 1,
                    len >= 0,
            ;
            lemma_unit_bound(v.x as int, len as int, sq as int, v.x as int * v.x);
            lemma_unit_bound(v.y as int, len as int, sq as int, v.y as int * v.y);
            lemma_unit_bound(v.z as int, len as int, sq as int, v.z as int * v.z);
        }
        let x = scale_signed(v.x, 1000, len);
        let y = scale_signed(v.y, 1000, len);
        let z = scale_signed(v.z, 1000, len);
        Vec3Fx { x, y, z }
    }
}

/// The squared length of a bounded vector, exactly.
fn square_sum(v: Vec3Fx) -> (r: u64)
    requires
        diff_bounded(v),
    ensures
        r == norm_sq(v),
{
    proof {
        lemma_square_bound(v.x as int);
        lemma_square_bound(v.y as int);
        lemma_square_bound(v.z as int);
    }
    let xm: u64 = if v.x >= 0 {
        v.x as u64
    } else {
        (-v.x) as u64
    };
    let ym: u64 = if v.y >= 0 {
        v.y as u64
    } else {
        (-v.y) as u64
    };
    let zm: u64 = if v.z >= 0 {
        v.z as u64
    } else {
        (-v.z) as u64
    };
    proof {
        assert((xm as int) * (xm as int) == (v.x as int) * (v.x as int)) by (nonlinear_arith)
            requires
                xm == abs_of(v.x as int),
        ;
        assert((ym as int) * (ym as int) == (v.y as int) * (v.y as int)) by (nonlinear_arith)
            requires
                ym == abs_of(v.y as int),
        ;
        assert((zm as int) * (zm as int) == (v.z as int) * (v.z as int)) by (nonlinear_arith)
            requires
                zm == abs_of(v.z as int),
        ;
    }
    xm * xm + ym * ym + zm * zm
}

/// The square of a bounded value fits comfortably in 64 bits.
proof fn lemma_square_bound(c: int)
    requires
        -2 * COORD_LIMIT <= c <= 2 * COORD_LIMIT,
    ensures
        0 <= c * c <= 4_000_000_000_000_000_000,
{
    assert(0 <= c * c <= 4_000_000_000_000_000_000int) by (nonlinear_arith)
        requires
            -2_000_000_000 <= c <= 2_000_000_000,
    ;
}

/// A vector with zero squared length is the zero vector.
proof fn lemma_zero_norm(v: Vec3Fx)
    requires
        norm_sq(v) == 0,
    ensures
        v.x == 0 && v.y == 0 && v.z == 0,
{
    assert(v.x == 0 && v.y == 0 && v.z == 0) by (nonlinear_arith)
        requires
            v.x * v.x + v.y * v.y + v.z * v.z == 0,
    ;
}

/// A component scaled by one thousand over the vector's length stays
/// within one thousand, and the scaling precondition holds.
proof fn lemma_unit_bound(c: int, len: int, sq: int, csq: int)
    requires
        1 <= len,
        csq == c * c,
        csq <= sq,
        len * len <= sq < (len + 1) * (len + 1),
        sq <= 12_000_000_000_000_000_000,
    ensures
        abs_of(c) * 1000 <= len * 9_000_000_000_000_000_000,
        abs_of(c) * 1000 / len <= 1000,
{
    let a = abs_of(c);
    assert(a * a == csq) by (nonlinear_arith)
        requires
            a == abs_of(c),
            csq == c * c,
    ;
    // |c| <= len since |c|^2 <= sq < (len+1)^2
    assert(a <= len) by (nonlinear_arith)
        requires
            a >= 0,
            len >= 1,
            a * a <= sq,
            sq < (len + 1) * (len + 1),
    ;
    assert(a * 1000 <= len * 1000) by (nonlinear_arith)
        requires
            a <= len,
    ;
    assert(len * 1000 <= len * 9_000_000_000_000_000_000) by (nonlinear_arith)
        requires
            len >= 1,
    ;
    vstd::arithmetic::div_mod::lemma_div_is_ordered(a * 1000, len * 1000, len);
    assert(len * 1000 == 1000 * len) by (nonlinear_arith);
    vstd::arithmetic::div_mod::lemma_div_multiples_vanish(1000, len);
}

/// One movement contribution along one axis: the unit component times the
/// speed, integrated over the frame, all in thousandths of a pixel.
pub open spec fn axis_delta(unit_c: int, speed: int, dt_ms: int) -> int {
    scaled_ratio(unit_c, speed * dt_ms, 1_000_000)
}

/// Scales a unit component by a speed over one frame.
fn contribution(unit_c: i64, speed: u64, dt_ms: u32) -> (r: i64)
    requires
        -1000 <= unit_c <= 1000,
        speed <= 1_000_000,
        dt_ms <= DT_LIMIT,
    ensures
        r == axis_delta(unit_c as int, speed as int, dt_ms as int),
        -4_000_000_000_000 <= r <= 4_000_000_000_000,
{
    proof {
        assert(abs_of(unit_c as int) * ((speed as int) * (dt_ms as int)) <= 1_000_000int
            * 9_000_000_000_000_000_000) by (nonlinear_arith)
            requires
                -1000 <= unit_c <= 1000,
                0 <= speed <= 1_000_000,
                0 <= dt_ms <= 3_600_000,
        ;
        assert(abs_of(unit_c as int) * ((speed as int) * (dt_ms as int)) <= 4_000_000_000_000int
            * 1_000_000) by (nonlinear_arith)
            requires
                -1000 <= unit_c <= 1000,
                0 <= speed <= 1_000_000,
                0 <= dt_ms <= 3_600_000,
        ;
        vstd::arithmetic::div_mod::lemma_div_is_ordered(
            abs_of(unit_c as int) * ((speed as int) * (dt_ms as int)),
            4_000_000_000_000int * 1_000_000,
            1_000_000,
        );
        vstd::arithmetic::div_mod::lemma_div_multiples_vanish(4_000_000_000_000, 1_000_000);
        assert(4_000_000_000_000int * 1_000_000 == 1_000_000int * 4_000_000_000_000)
            by (nonlinear_arith);
        lemma_speed_product(speed as int, dt_ms as int);
    }
    scale_signed(unit_c, speed * (dt_ms as u64), 1_000_000)
}

/// A movement delta one pair hand-over can produce: each component within
/// the per-pair limit.
pub open spec fn pair_bounded(v: Vec3Fx) -> bool {
    &&& -PAIR_LIMIT <= v.x <= PAIR_LIMIT
    &&& -PAIR_LIMIT <= v.y <= PAIR_LIMIT
    &&& -PAIR_LIMIT <= v.z <= PAIR_LIMIT
}

/// What one pair of boids does to each other's pending movement in one
/// frame: a boid steps toward its friend and away from its enemy, each
/// step along the unit direction from the boid to the other, scaled by
/// the matching speed and the frame time.
pub fn interact_pair(
    e1: u64,
    e2: u64,
    p1: Vec3Fx,
    p2: Vec3Fx,
    b1: &Boid,
    b2: &Boid,
    dt_ms: u32,
) -> (r: (Vec3Fx, Vec3Fx))
    requires
        in_world(p1),
        in_world(p2),
        dt_ms <= DT_LIMIT,
    ensures
        pair_bounded(r.0),
        pair_bounded(r.1),
        ({
            let to2 = Vec3Fx {
                x: (p2.x - p1.x) as i64,
                y: (p2.y - p1.y) as i64,
                z: (p2.z - p1.z) as i64,
            };
            let to1 = Vec3Fx {
                x: (p1.x - p2.x) as i64,
                y: (p1.y - p2.y) as i64,
                z: (p1.z - p2.z) as i64,
            };
            let f1: int = if b1.friend == Some(e2) {
                1
            } else {
                0
            };
            let f2: int = if b2.friend == Some(e1) {
                1
            } else {
                0
            };
            let n1: int = if b1.enemy == Some(e2) {
                1
            } else {
                0
            };
            let n2: int = if b2.enemy == Some(e1) {
                1
            } else {
                0
            };
            &&& r.0.x == f1 * axis_delta(unit_x(to2), SPEED_TO_FRIEND as int, dt_ms as int) - n1
                * axis_delta(unit_x(to2), SPEED_TO_ENEMY as int, dt_ms as int)
            &&& r.0.y == f1 * axis_delta(unit_y(to2), SPEED_TO_FRIEND as int, dt_ms as int) - n1
                * axis_delta(unit_y(to2), SPEED_TO_ENEMY as int, dt_ms as int)
            &&& r.0.z == f1 * axis_delta(unit_z(to2), SPEED_TO_FRIEND as int, dt_ms as int) - n1
                * axis_delta(unit_z(to2), SPEED_TO_ENEMY as int, dt_ms as int)
            &&& r.1.x == f2 * axis_delta(unit_x(to1), SPEED_TO_FRIEND as int, dt_ms as int) - n2
                * axis_delta(unit_x(to1), SPEED_TO_ENEMY as int, dt_ms as int)
            &&& r.1.y == f2 * axis_delta(unit_y(to1), SPEED_TO_FRIEND as int, dt_ms as int) - n2
                * axis_delta(unit_y(to1), SPEED_TO_ENEMY as int, dt_ms as int)
            &&& r.1.z == f2 * axis_delta(unit_z(to1), SPEED_TO_FRIEND as int, dt_ms as int) - n2
                * axis_delta(unit_z(to1), SPEED_TO_ENEMY as int, dt_ms as int)
        }),
{
    let to2 = Vec3Fx { x: p2.x - p1.x, y: p2.y - p1.y, z: p2.z - p1.z };
    let to1 = Vec3Fx { x: p1.x - p2.x, y: p1.y - p2.y, z: p1.z - p2.z };
    let u_to2 = normalize_or_zero(to2);
    let u_to1 = normalize_or_zero(to1);
    let mut m1 = Vec3Fx { x: 0, y: 0, z: 0 };
    let mut m2 = Vec3Fx { x: 0, y: 0, z: 0 };
    if b1.friend == Some(e2) {
        m1 = Vec3Fx {
            x: m1.x + contribution(u_to2.x, SPEED_TO_FRIEND, dt_ms),
            y: m1.y + contribution(u_to2.y, SPEED_TO_FRIEND, dt_ms),
            z: m1.z + contribution(u_to2.z, SPEED_TO_FRIEND, dt_ms),
        };
    }
    if b2.friend == Some(e1) {
        m2 = Vec3Fx {
            x: m2.x + contribution(u_to1.x, SPEED_TO_FRIEND, dt_ms),
            y: m2.y + contribution(u_to1.y, SPEED_TO_FRIEND, dt_ms),
            z: m2.z + contribution(u_to1.z, SPEED_TO_FRIEND, dt_ms),
        };
    }
    if b1.enemy == Some(e2) {
        m1 = Vec3Fx {
            x: m1.x - contribution(u_to2.x, SPEED_TO_ENEMY, dt_ms),
            y: m1.y - contribution(u_to2.y, SPEED_TO_ENEMY, dt_ms),
            z: m1.z - contribution(u_to2.z, SPEED_TO_ENEMY, dt_ms),
        };
    }
    if b2.enemy == Some(e1) {
        m2 = Vec3Fx {
            x: m2.x - contribution(u_to1.x, SPEED_TO_ENEMY, dt_ms),
            y: m2.y - contribution(u_to1.y, SPEED_TO_ENEMY, dt_ms),
            z: m2.z - contribution(u_to1.z, SPEED_TO_ENEMY, dt_ms),
        };
    }
    (m1, m2)
}

/// The per-component sum of a list of positions.
pub open spec fn sum_x(s: Seq<Vec3Fx>) -> int
    decreases s.len(),
{
    if s.len() == 0 {
        0
    } else {
        sum_x(s.drop_last()) + s.last().x
    }
}

pub open spec fn sum_y(s: Seq<Vec3Fx>) -> int
    decreases s.len(),
{
    if s.len() == 0 {
        0
    } else {
        sum_y(s.drop_last()) + s.last().y
    }
}

pub open spec fn sum_z(s: Seq<Vec3Fx>) -> int
    decreases s.len(),
{
    if s.len() == 0 {
        0
    } else {
        sum_z(s.drop_last()) + s.last().z
    }
}

/// The geometric center of the flock: the per-component mean of all
/// positions, rounded toward zero.
pub fn centroid(positions: &Vec<Vec3Fx>) -> (r: Vec3Fx)
    requires
        1 <= positions@.len() <= 1_000_000,
        forall|i: int| 0 <= i < positions@.len() ==> in_world(#[trigger] positions@[i]),
    ensures
        r.x == scaled_ratio(sum_x(positions@), 1, positions@.len() as int),
        r.y == scaled_ratio(sum_y(positions@), 1, positions@.len() as int),
        r.z == scaled_ratio(sum_z(positions@), 1, positions@.len() as int),
        in_world(r),
{
    let n = positions.len();
    let mut sx: i64 = 0;
    let mut sy: i64 = 0;
    let mut sz: i64 = 0;
    let mut i: usize = 0;
    proof {
        assert(positions@.take(0) =~= Seq::<Vec3Fx>::empty());
    }
    while i < n
        invariant
            n == positions@.len(),
            1 <= n <= 1_000_000,
            forall|k: int| 0 <= k < n ==> in_world(#[trigger] positions@[k]),
            i <= n,
            sx == sum_x(positions@.take(i as int)),
            sy == sum_y(positions@.take(i as int)),
            sz == sum_z(positions@.take(i as int)),
            -1_000_000_000int * (i as int) <= sx <= 1_000_000_000int * (i as int),
            -1_000_000_000int * (i as int) <= sy <= 1_000_000_000int * (i as int),
            -1_000_000_000int * (i as int) <= sz <= 1_000_000_000int * (i as int),
        decreases n - i,
    {
        proof {
            let t1 = positions@.take(i as int + 1);
            assert(t1.drop_last() =~= positions@.take(i as int));
            assert(t1.last() == positions@[i as int]);
            assert(1_000_000_000int * (i as int) + 1_000_000_000 == 1_000_000_000int * (i as int
                + 1)) by (nonlinear_arith);
            assert(0 <= 1_000_000_000int * (i as int) <= 1_000_000_000_000_000int
                && 1_000_000_000int * (i as int + 1) <= 1_000_000_000_000_000int)
                by (nonlinear_arith)
                requires
                    0 <= i as int,
                    i as int + 1 <= 1_000_000,
            ;
            assert(in_world(positions@[i as int]));
        }
        let p = positions[i];
        sx = sx + p.x;
        sy = sy + p.y;
        sz = sz + p.z;
        i += 1;
    }
    proof {
        assert(positions@.take(n as int) =~= positions@);
        assert(1_000_000_000int * (n as int) <= 1_000_000_000_000_000int) by (nonlinear_arith)
            requires
                n as int <= 1_000_000,
        ;
        lemma_centroid_in_world(sum_x(positions@), n as int);
        lemma_centroid_in_world(sum_y(positions@), n as int);
        lemma_centroid_in_world(sum_z(positions@), n as int);
    }
    let x = scale_signed(sx, 1, n as u64);
    let y = scale_signed(sy, 1, n as u64);
    let z = scale_signed(sz, 1, n as u64);
    Vec3Fx { x, y, z }
}

/// The mean of values inside the world stays inside the world.
proof fn lemma_centroid_in_world(s: int, n: int)
    requires
        1 <= n <= 1_000_000,
        -COORD_LIMIT * n <= s <= COORD_LIMIT * n,
    ensures
        abs_of(s) * 1 <= n * 9_000_000_000_000_000_000,
        -COORD_LIMIT <= scaled_ratio(s, 1, n) <= COORD_LIMIT,
{
    let a = abs_of(s);
    assert(a <= COORD_LIMIT * n) by (nonlinear_arith)
        requires
            -COORD_LIMIT * n <= s <= COORD_LIMIT * n,
            a == abs_of(s),
    ;
    assert(a * 1 == a);
    assert(a <= n * 9_000_000_000_000_000_000) by (nonlinear_arith)
        requires
            a <= 1_000_000_000int * n,
            n >= 1,
    ;
    assert(COORD_LIMIT * n == n * COORD_LIMIT) by (nonlinear_arith);
    vstd::arithmetic::div_mod::lemma_div_is_ordered(a, n * (COORD_LIMIT as int), n);
    vstd::arithmetic::div_mod::lemma_div_multiples_vanish(COORD_LIMIT as int, n);
    vstd::arithmetic::div_mod::lemma_div_pos_is_pos(a, n);
}

/// One Euler step of a boid: its position moves by its accumulated
/// movement plus a pull toward the flock center of a quarter of the
/// distance per second.
pub fn move_step(pos: Vec3Fx, movement: Vec3Fx, center: Vec3Fx, dt_ms: u32) -> (r: Vec3Fx)
    requires
        in_world(pos),
        in_world(center),
        dt_ms <= DT_LIMIT,
        -MOVE_LIMIT <= movement.x <= MOVE_LIMIT,
        -MOVE_LIMIT <= movement.y <= MOVE_LIMIT,
        -MOVE_LIMIT <= movement.z <= MOVE_LIMIT,
    ensures
        r.x == pos.x + movement.x + scaled_ratio(center.x - pos.x, dt_ms as int, 4000),
        r.y == pos.y + movement.y + scaled_ratio(center.y - pos.y, dt_ms as int, 4000),
        r.z == pos.z + movement.z + scaled_ratio(center.z - pos.z, dt_ms as int, 4000),
{
    let px = center_pull(center.x - pos.x, dt_ms);
    let py = center_pull(center.y - pos.y, dt_ms);
    let pz = center_pull(center.z - pos.z, dt_ms);
    Vec3Fx { x: pos.x + movement.x + px, y: pos.y + movement.y + py, z: pos.z + movement.z + pz }
}

/// The pull toward the flock center along one axis over one frame: a
/// quarter of the distance per second of frame time.
fn center_pull(diff: i64, dt_ms: u32) -> (r: i64)
    requires
        -2 * COORD_LIMIT <= diff <= 2 * COORD_LIMIT,
        dt_ms <= DT_LIMIT,
    ensures
        r == scaled_ratio(diff as int, dt_ms as int, 4000),
        -2_000_000_000_000_000 <= r <= 2_000_000_000_000_000,
{
    proof {
        assert(abs_of(diff as int) * (dt_ms as int) <= 4000int * 9_000_000_000_000_000_000)
            by (nonlinear_arith)
            requires
                -2_000_000_000 <= diff <= 2_000_000_000,
                0 <= dt_ms <= 3_600_000,
        ;
        assert(abs_of(diff as int) * (dt_ms as int) <= 2_000_000_000_000_000int * 4000)
            by (nonlinear_arith)
            requires
                -2_000_000_000 <= diff <= 2_000_000_000,
                0 <= dt_ms <= 3_600_000,
        ;
        vstd::arithmetic::div_mod::lemma_div_is_ordered(
            abs_of(diff as int) * (dt_ms as int),
            2_000_000_000_000_000int * 4000,
            4000,
        );
        vstd::arithmetic::div_mod::lemma_div_multiples_vanish(2_000_000_000_000_000, 4000);
        assert(2_000_000_000_000_000int * 4000 == 4000int * 2_000_000_000_000_000)
            by (nonlinear_arith);
    }
    scale_signed(diff, dt_ms as u64, 4000)
}

/// The frame-scaled speed fits comfortably in 64 bits.
proof fn lemma_speed_product(speed: int, dt_ms: int)
    requires
        0 <= speed <= 1_000_000,
        0 <= dt_ms <= 3_600_000,
    ensures
        0 <= speed * dt_ms <= 3_600_000_000_000,
{
    assert(0 <= speed * dt_ms <= 3_600_000_000_000int) by (nonlinear_arith)
        requires
            0 <= speed <= 1_000_000,
            0 <= dt_ms <= 3_600_000,
    ;
}

/// An accumulated movement within the frame movement limit.
pub open spec fn move_bounded(v: Vec3Fx) -> bool {
    &&& -MOVE_LIMIT <= v.x <= MOVE_LIMIT
    &&& -MOVE_LIMIT <= v.y <= MOVE_LIMIT
    &&& -MOVE_LIMIT <= v.z <= MOVE_LIMIT
}

/// A movement vector within `k` per-pair steps of zero.
pub open spec fn within_steps(v: Vec3Fx, k: int) -> bool {
    &&& -PAIR_LIMIT * k <= v.x <= PAIR_LIMIT * k
    &&& -PAIR_LIMIT * k <= v.y <= PAIR_LIMIT * k
    &&& -PAIR_LIMIT * k <= v.z <= PAIR_LIMIT * k
}

/// What the pair `(a, b)` hands to boid `a`: `interact_pair`'s first
/// result, written out per axis.
pub open spec fn pair_delta_first(
    ids: Seq<u64>,
    ps: Seq<Vec3Fx>,
    bs: Seq<Boid>,
    dt: int,
    a: int,
    b: int,
) -> (int, int, int) {
    let to_other = Vec3Fx {
        x: (ps[b].x - ps[a].x) as i64,
        y: (ps[b].y - ps[a].y) as i64,
        z: (ps[b].z - ps[a].z) as i64,
    };
    let f1: int = if bs[a].friend == Some(ids[b]) {
        1
    } else {
        0
    };
    let n1: int = if bs[a].enemy == Some(ids[b]) {
        1
    } else {
        0
    };
    (
        f1 * axis_delta(unit_x(to_other), SPEED_TO_FRIEND as int, dt) - n1 * axis_delta(
            unit_x(to_other),
            SPEED_TO_ENEMY as int,
            dt,
        ),
        f1 * axis_delta(unit_y(to_other), SPEED_TO_FRIEND as int, dt) - n1 * axis_delta(
            unit_y(to_other),
            SPEED_TO_ENEMY as int,
            dt,
        ),
        f1 * axis_delta(unit_z(to_other), SPEED_TO_FRIEND as int, dt) - n1 * axis_delta(
            unit_z(to_other),
            SPEED_TO_ENEMY as int,
            dt,
        ),
    )
}

/// What the pair `(a, b)` hands to boid `b`: `interact_pair`'s second
/// result, along the direction from `b` toward `a`.
pub open spec fn pair_delta_second(
    ids: Seq<u64>,
    ps: Seq<Vec3Fx>,
    bs: Seq<Boid>,
    dt: int,
    a: int,
    b: int,
) -> (int, int, int) {
    let to_other = Vec3Fx {
        x: (ps[a].x - ps[b].x) as i64,
        y: (ps[a].y - ps[b].y) as i64,
        z: (ps[a].z - ps[b].z) as i64,
    };
    let f2: int = if bs[b].friend == Some(ids[a]) {
        1
    } else {
        0
    };
    let n2: int = if bs[b].enemy == Some(ids[a]) {
        1
    } else {
        0
    };
    (
        f2 * axis_delta(unit_x(to_other), SPEED_TO_FRIEND as int, dt) - n2 * axis_delta(
            unit_x(to_other),
            SPEED_TO_ENEMY as int,
            dt,
        ),
        f2 * axis_delta(unit_y(to_other), SPEED_TO_FRIEND as int, dt) - n2 * axis_delta(
            unit_y(to_other),
            SPEED_TO_ENEMY as int,
            dt,
        ),
        f2 * axis_delta(unit_z(to_other), SPEED_TO_FRIEND as int, dt) - n2 * axis_delta(
            unit_z(to_other),
            SPEED_TO_ENEMY as int,
            dt,
        ),
    )
}

/// What boid `k` receives from the pair it forms with boid `i`.
pub open spec fn received(
    ids: Seq<u64>,
    ps: Seq<Vec3Fx>,
    bs: Seq<Boid>,
    dt: int,
    k: int,
    i: int,
) -> (int, int, int) {
    if i < k {
        pair_delta_second(ids, ps, bs, dt, i, k)
    } else {
        pair_delta_first(ids, ps, bs, dt, k, i)
    }
}

/// The total movement boid `k` receives from its pairs with the first `m`
/// boids.
pub open spec fn received_sum(
    ids: Seq<u64>,
    ps: Seq<Vec3Fx>,
    bs: Seq<Boid>,
    dt: int,
    k: int,
    m: int,
) -> (int, int, int)
    decreases m,
{
    if m <= 0 {
        (0, 0, 0)
    } else {
        let prev = received_sum(ids, ps, bs, dt, k, m - 1);
        if m - 1 == k {
            prev
        } else {
            let d = received(ids, ps, bs, dt, k, m - 1);
            (prev.0 + d.0, prev.1 + d.1, prev.2 + d.2)
        }
    }
}

/// The movement boid `k` holds mid-frame: rows before `a` are fully
/// processed, and row `a` has processed partners below `b`.
spec fn staged_sum(
    ids: Seq<u64>,
    ps: Seq<Vec3Fx>,
    bs: Seq<Boid>,
    dt: int,
    k: int,
    a: int,
    b: int,
    n: int,
) -> (int, int, int) {
    if k < a {
        received_sum(ids, ps, bs, dt, k, n)
    } else if k == a {
        received_sum(ids, ps, bs, dt, k, b)
    } else if k < b {
        received_sum(ids, ps, bs, dt, k, a + 1)
    } else {
        received_sum(ids, ps, bs, dt, k, a)
    }
}

/// One frame of pairwise interaction over the whole flock: every pair of
/// boids exchanges the movement deltas of `interact_pair`, checked for all
/// combinations. Each boid's movement ends as the sum of what its pairs
/// hand it, and, starting from cleared movements, stays within the frame
/// movement limit.
pub fn interact_all(
    ids: &Vec<u64>,
    positions: &Vec<Vec3Fx>,
    boids: &Vec<Boid>,
    movements: &mut Vec<Vec3Fx>,
    dt_ms: u32,
)
    requires
        ids@.len() == positions@.len(),
        ids@.len() == boids@.len(),
        old(movements)@.len() == ids@.len(),
        ids@.len() <= 1000,
        forall|i: int| 0 <= i < positions@.len() ==> in_world(#[trigger] positions@[i]),
        forall|i: int|
            0 <= i < old(movements)@.len() ==> #[trigger] old(movements)@[i] == (Vec3Fx {
                x: 0,
                y: 0,
                z: 0,
            }),
        dt_ms <= DT_LIMIT,
    ensures
        final(movements)@.len() == ids@.len(),
        forall|i: int|
            0 <= i < final(movements)@.len() ==> move_bounded(#[trigger] final(movements)@[i]),
        forall|k: int|
            0 <= k < ids@.len() ==> {
                let t = received_sum(
                    ids@,
                    positions@,
                    boids@,
                    dt_ms as int,
                    k,
                    ids@.len() as int,
                );
                &&& (#[trigger] final(movements)@[k]).x == t.0
                &&& final(movements)@[k].y == t.1
                &&& final(movements)@[k].z == t.2
            },
{
    let n = ids.len();
    let ghost gids = ids@;
    let ghost gps = positions@;
    let ghost gbs = boids@;
    let ghost gdt = dt_ms as int;
    let mut a: usize = 0;
    proof {
        assert(forall|k: int|
            0 <= k < movements@.len() ==> within_steps(#[trigger] movements@[k], 0));
        assert forall|k: int| 0 <= k < n implies {
            let t = staged_sum(gids, gps, gbs, gdt, k, 0, 0, n as int);
            &&& (#[trigger] movements@[k]).x == t.0
            &&& movements@[k].y == t.1
            &&& movements@[k].z == t.2
        } by {
            assert(received_sum(gids, gps, gbs, gdt, k, 0) == (0int, 0int, 0int));
        }
    }
    while a < n
        invariant
            n == ids@.len(),
            n == positions@.len(),
            n == boids@.len(),
            n <= 1000,
            movements@.len() == n,
            forall|i: int| 0 <= i < n ==> in_world(#[trigger] positions@[i]),
            dt_ms <= DT_LIMIT,
            a <= n,
            gids == ids@ && gps == positions@ && gbs == boids@ && gdt == dt_ms as int,
            forall|k: int|
                0 <= k < n ==> within_steps(#[trigger] movements@[k], a as int * n as int),
            forall|k: int|
                0 <= k < n ==> {
                    let t = staged_sum(gids, gps, gbs, gdt, k, a as int, a as int, n as int);
                    &&& (#[trigger] movements@[k]).x == t.0
                    &&& movements@[k].y == t.1
                    &&& movements@[k].z == t.2
                },
        decreases n - a,
    {
        let mut b: usize = a + 1;
        proof {
            lemma_step_bound_monotone(a as int * n as int, a as int * n as int + b as int);
            assert forall|k: int| 0 <= k < n implies within_steps(
                #[trigger] movements@[k],
                a as int * n as int + b as int,
            ) by {
                lemma_within_steps_widen(
                    movements@[k],
                    a as int * n as int,
                    a as int * n as int + b as int,
                );
            }
            // moving from marker (a, a) to (a, a + 1) only touches boid a,
            // whose sum skips its own index
            assert(received_sum(gids, gps, gbs, gdt, a as int, a as int + 1) == received_sum(
                gids,
                gps,
                gbs,
                gdt,
                a as int,
                a as int,
            ));
        }
        while b < n
            invariant
                n == ids@.len(),
                n == positions@.len(),
                n == boids@.len(),
                n <= 1000,
                movements@.len() == n,
                forall|i: int| 0 <= i < n ==> in_world(#[trigger] positions@[i]),
                dt_ms <= DT_LIMIT,
                a < n,
                a + 1 <= b <= n,
                gids == ids@ && gps == positions@ && gbs == boids@ && gdt == dt_ms as int,
                forall|k: int|
                    0 <= k < n ==> within_steps(
                        #[trigger] movements@[k],
                        a as int * n as int + b as int,
                    ),
                forall|k: int|
                    0 <= k < n ==> {
                        let t = staged_sum(gids, gps, gbs, gdt, k, a as int, b as int, n as int);
                        &&& (#[trigger] movements@[k]).x == t.0
                        &&& movements@[k].y == t.1
                        &&& movements@[k].z == t.2
                    },
            decreases n - b,
        {
            proof {
                lemma_pair_index_bound(a as int, b as int, n as int);
            }
            let (d1, d2) = interact_pair(
                ids[a],
                ids[b],
                positions[a],
                positions[b],
                &boids[a],
                &boids[b],
                dt_ms,
            );
            let ma = movements[a];
            let slot_a = vstd::std_specs::vec::vec_index_mut(movements, a);
            *slot_a = Vec3Fx { x: ma.x + d1.x, y: ma.y + d1.y, z: ma.z + d1.z };
            let mb = movements[b];
            let slot_b = vstd::std_specs::vec::vec_index_mut(movements, b);
            *slot_b = Vec3Fx { x: mb.x + d2.x, y: mb.y + d2.y, z: mb.z + d2.z };
            proof {
                assert forall|k: int| 0 <= k < n implies within_steps(
                    #[trigger] movements@[k],
                    a as int * n as int + b as int + 1,
                ) by {
                    if k != a && k != b {
                        lemma_within_steps_widen(
                            movements@[k],
                            a as int * n as int + b as int,
                            a as int * n as int + b as int + 1,
                        );
                    }
                }
                // the pair's deltas are exactly what the sums expect
                assert(d1.x == pair_delta_first(gids, gps, gbs, gdt, a as int, b as int).0);
                assert(d1.y == pair_delta_first(gids, gps, gbs, gdt, a as int, b as int).1);
                assert(d1.z == pair_delta_first(gids, gps, gbs, gdt, a as int, b as int).2);
                assert(d2.x == pair_delta_second(gids, gps, gbs, gdt, a as int, b as int).0);
                assert(d2.y == pair_delta_second(gids, gps, gbs, gdt, a as int, b as int).1);
                assert(d2.z == pair_delta_second(gids, gps, gbs, gdt, a as int, b as int).2);
                assert forall|k: int| 0 <= k < n implies {
                    let t = staged_sum(gids, gps, gbs, gdt, k, a as int, b as int + 1, n as int);
                    &&& (#[trigger] movements@[k]).x == t.0
                    &&& movements@[k].y == t.1
                    &&& movements@[k].z == t.2
                } by {
                    if k == a {
                        assert(received(gids, gps, gbs, gdt, a as int, b as int)
                            == pair_delta_first(gids, gps, gbs, gdt, a as int, b as int));
                        assert(received_sum(gids, gps, gbs, gdt, a as int, b as int + 1)
                            == ({
                            let prev = received_sum(gids, gps, gbs, gdt, a as int, b as int);
                            let d = received(gids, gps, gbs, gdt, a as int, b as int);
                            (prev.0 + d.0, prev.1 + d.1, prev.2 + d.2)
                        }));
                    } else if k == b {
                        assert(received(gids, gps, gbs, gdt, b as int, a as int)
                            == pair_delta_second(gids, gps, gbs, gdt, a as int, b as int));
                        assert(received_sum(gids, gps, gbs, gdt, b as int, a as int + 1)
                            == ({
                            let prev = received_sum(gids, gps, gbs, gdt, b as int, a as int);
                            let d = received(gids, gps, gbs, gdt, b as int, a as int);
                            (prev.0 + d.0, prev.1 + d.1, prev.2 + d.2)
                        }));
                    }
                }
            }
            b += 1;
        }
        proof {
            assert(a as int * n as int + n as int == (a as int + 1) * n as int)
                by (nonlinear_arith);
            assert forall|k: int| 0 <= k < n implies {
                let t = staged_sum(gids, gps, gbs, gdt, k, a as int + 1, a as int + 1, n as int);
                &&& (#[trigger] movements@[k]).x == t.0
                &&& movements@[k].y == t.1
                &&& movements@[k].z == t.2
            } by {
                assert({
                    let t0 = staged_sum(gids, gps, gbs, gdt, k, a as int, n as int, n as int);
                    &&& movements@[k].x == t0.0
                    &&& movements@[k].y == t0.1
                    &&& movements@[k].z == t0.2
                });
            }
        }
        a += 1;
    }
    proof {
        lemma_final_steps(n as int);
        assert forall|k: int| 0 <= k < n implies move_bounded(#[trigger] movements@[k]) by {
            lemma_within_steps_widen(movements@[k], n as int * n as int, 1_037_500);
        }
    }
}

/// A movement within `j` steps is within `k` steps for any larger `k`.
proof fn lemma_within_steps_widen(v: Vec3Fx, j: int, k: int)
    requires
        within_steps(v, j),
        j <= k,
    ensures
        within_steps(v, k),
{
    assert(8_000_000_000_000int * j <= 8_000_000_000_000int * k) by (nonlinear_arith)
        requires
            j <= k,
    ;
}

/// Widening a bound index never shrinks it.
proof fn lemma_step_bound_monotone(j: int, k: int)
    requires
        j <= k,
    ensures
        PAIR_LIMIT * j <= PAIR_LIMIT * k,
{
    assert(8_000_000_000_000int * j <= 8_000_000_000_000int * k) by (nonlinear_arith)
        requires
            j <= k,
    ;
}

/// The running pair index stays below the square of the flock size.
proof fn lemma_pair_index_bound(a: int, b: int, n: int)
    requires
        0 <= a < n,
        a < b <= n,
        n <= 1000,
    ensures
        a * n + b <= n * n,
        n * n <= 1_000_000,
        PAIR_LIMIT * (a * n + b) <= 8_000_000_000_000_000_000,
{
    assert(a * n + b <= n * n && n * n <= 1_000_000) by (nonlinear_arith)
        requires
            0 <= a < n,
            a < b <= n,
            n <= 1000,
    ;
    assert(8_000_000_000_000int * (a * n + b) <= 8_000_000_000_000_000_000int)
        by (nonlinear_arith)
        requires
            0 <= a * n + b <= 1_000_000,
    ;
}

/// After every pair is processed, the movements are within the limit.
proof fn lemma_final_steps(n: int)
    requires
        0 <= n <= 1000,
    ensures
        n * n <= 1_037_500,
        PAIR_LIMIT * 1_037_500int <= MOVE_LIMIT,
{
    assert(n * n <= 1_037_500int) by (nonlinear_arith)
        requires
            0 <= n <= 1000,
    ;
}

/// One frame of flock movement: each boid's position advances by its
/// accumulated movement plus the pull toward the flock's center; the
/// movement resets to zero and the previous position is remembered.
pub fn move_all(
    positions: &mut Vec<Vec3Fx>,
    movements: &mut Vec<Vec3Fx>,
    last_positions: &mut Vec<Vec3Fx>,
    dt_ms: u32,
)
    requires
        1 <= old(positions)@.len() <= 1_000_000,
        old(movements)@.len() == old(positions)@.len(),
        old(last_positions)@.len() == old(positions)@.len(),
        forall|i: int| 0 <= i < old(positions)@.len() ==> in_world(#[trigger] old(positions)@[i]),
        forall|i: int|
            0 <= i < old(movements)@.len() ==> move_bounded(#[trigger] old(movements)@[i]),
        dt_ms <= DT_LIMIT,
    ensures
        final(positions)@.len() == old(positions)@.len(),
        final(movements)@.len() == old(positions)@.len(),
        final(last_positions)@.len() == old(positions)@.len(),
        ({
            let ps = old(positions)@;
            let cn = ps.len() as int;
            let cx = scaled_ratio(sum_x(ps), 1, cn);
            let cy = scaled_ratio(sum_y(ps), 1, cn);
            let cz = scaled_ratio(sum_z(ps), 1, cn);
            forall|i: int|
                0 <= i < ps.len() ==> #[trigger] final(positions)@[i] == (Vec3Fx {
                    x: (ps[i].x + old(movements)@[i].x + scaled_ratio(
                        cx - ps[i].x,
                        dt_ms as int,
                        4000,
                    )) as i64,
                    y: (ps[i].y + old(movements)@[i].y + scaled_ratio(
                        cy - ps[i].y,
                        dt_ms as int,
                        4000,
                    )) as i64,
                    z: (ps[i].z + old(movements)@[i].z + scaled_ratio(
                        cz - ps[i].z,
                        dt_ms as int,
                        4000,
                    )) as i64,
                })
        }),
        forall|i: int|
            0 <= i < old(positions)@.len() ==> #[trigger] final(movements)@[i] == (Vec3Fx {
                x: 0,
                y: 0,
                z: 0,
            }),
        forall|i: int|
            0 <= i < old(positions)@.len() ==> #[trigger] final(last_positions)@[i] == old(
                positions,
            )@[i],
{
    let ghost ps = positions@;
    let center = centroid(positions);
    let n = positions.len();
    let mut new_positions: Vec<Vec3Fx> = Vec::new();
    let mut new_movements: Vec<Vec3Fx> = Vec::new();
    let mut new_last: Vec<Vec3Fx> = Vec::new();
    let mut i: usize = 0;
    while i < n
        invariant
            n == ps.len(),
            positions@ == ps,
            movements@.len() == n,
            1 <= n <= 1_000_000,
            forall|k: int| 0 <= k < n ==> in_world(#[trigger] ps[k]),
            forall|k: int| 0 <= k < n ==> move_bounded(#[trigger] movements@[k]),
            dt_ms <= DT_LIMIT,
            in_world(center),
            center.x == scaled_ratio(sum_x(ps), 1, n as int),
            center.y == scaled_ratio(sum_y(ps), 1, n as int),
            center.z == scaled_ratio(sum_z(ps), 1, n as int),
            i <= n,
            new_positions@.len() == i,
            new_movements@.len() == i,
            new_last@.len() == i,
            forall|k: int|
                0 <= k < i ==> #[trigger] new_positions@[k] == (Vec3Fx {
                    x: (ps[k].x + movements@[k].x + scaled_ratio(
                        center.x - ps[k].x,
                        dt_ms as int,
                        4000,
                    )) as i64,
                    y: (ps[k].y + movements@[k].y + scaled_ratio(
                        center.y - ps[k].y,
                        dt_ms as int,
                        4000,
                    )) as i64,
                    z: (ps[k].z + movements@[k].z + scaled_ratio(
                        center.z - ps[k].z,
                        dt_ms as int,
                        4000,
                    )) as i64,
                }),
            forall|k: int|
                0 <= k < i ==> #[trigger] new_movements@[k] == (Vec3Fx { x: 0, y: 0, z: 0 }),
            forall|k: int| 0 <= k < i ==> #[trigger] new_last@[k] == ps[k],
        decreases n - i,
    {
        let pos = positions[i];
        let movement = movements[i];
        let next = move_step(pos, movement, center, dt_ms);
        new_positions.push(next);
        new_movements.push(Vec3Fx { x: 0, y: 0, z: 0 });
        new_last.push(pos);
        i += 1;
    }
    *positions = new_positions;
    *movements = new_movements;
    *last_positions = new_last;
}

/// Where new boids may appear, in thousandths of a pixel.
pub const SPAWN_X_MIN: i64 = -400_000;
pub const SPAWN_X_MAX: i64 = -100_000;
pub const SPAWN_Y_MIN: i64 = -300_000;
pub const SPAWN_Y_MAX: i64 = -200_000;
pub const SPAWN_Z: i64 = 1_000;

/// Everything one freshly spawned boid carries.
#[derive(Clone, Copy, PartialEq, Eq, Structural, Debug)]
pub struct SpawnedBoid {
    pub position: Vec3Fx,
    pub boid: Boid,
    pub movement: Vec3Fx,
    pub last_position: Vec3Fx,
}

/// A freshly spawned boid: random position inside the spawn box, no
/// relationships yet, no pending movement, and its last position equal to
/// where it stands.
pub open spec fn spawned_ok(s: SpawnedBoid) -> bool {
    &&& s.boid == (Boid { friend: None, enemy: None })
    &&& SPAWN_X_MIN <= s.position.x < SPAWN_X_MAX
    &&& SPAWN_Y_MIN <= s.position.y < SPAWN_Y_MAX
    &&& s.position.z == SPAWN_Z
    &&& s.movement == (Vec3Fx { x: 0, y: 0, z: 0 })
    &&& s.last_position == s.position
}

/// Spawns `count` boids at random positions inside the spawn box.
pub fn spawn_boids(count: usize) -> (r: Vec<SpawnedBoid>)
    ensures
        r@.len() == count,
        forall|i: int| 0 <= i < count ==> spawned_ok(#[trigger] r@[i]),
{
    let mut r: Vec<SpawnedBoid> = Vec::new();
    let mut i: usize = 0;
    while i < count
        invariant
            i <= count,
            r@.len() == i,
            forall|j: int| 0 <= j < i ==> spawned_ok(#[trigger] r@[j]),
        decreases count - i,
    {
        let x = rand_range_i64(SPAWN_X_MIN, SPAWN_X_MAX);
        let y = rand_range_i64(SPAWN_Y_MIN, SPAWN_Y_MAX);
        let position = Vec3Fx { x, y, z: SPAWN_Z };
        r.push(
            SpawnedBoid {
                position,
                boid: Boid { friend: None, enemy: None },
                movement: Vec3Fx { x: 0, y: 0, z: 0 },
                last_position: position,
            },
        );
        i += 1;
    }
    r
}

} // verus!
