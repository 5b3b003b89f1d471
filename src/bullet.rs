//! Projectiles: flight, lifetime and hits.
use vstd::prelude::*;

use crate::geometry::{
    clamp_coord, clamp_spec, dist_sq3, distance_squared, floor_sqrt, isqrt, len_sq3,
    scale_component, scale_spec, square, Vec3,
};
use crate::player::{credited, KILL_REWARD};
use crate::seqs::{lemma_filter_all_but_one, lemma_filter_take_step};
use crate::target::{alive_targets, deaths_in, step_distance, step_len, Target, MAX_SPEED, MAX_TICK_NS};
use crate::timer::{tick_spec, Timer, TimerMode};

verus! {

/// Distance below which a projectile hits an enemy: half a world unit.
pub const COLLISION_RADIUS: u128 = 500;

/// Largest absolute component of a projectile's direction.
pub const DIRECTION_LIMIT: i64 = 2_000_000_000;

/// The countdown after which a projectile is removed without hitting anything.
#[derive(Clone, Copy, Debug)]
pub struct Lifetime {
    pub timer: Timer,
}

/// A projectile in flight.
#[derive(Clone, Copy, Debug)]
pub struct Bullet {
    pub id: u64,
    /// The tower that fired it, if any.
    pub owner: Option<u64>,
    pub position: Vec3,
    /// Direction of flight, fixed when fired: a tower fires along a fixed-point
    /// unit vector, `UNIT` long. Flight scales it to the step each tick.
    pub direction: Vec3,
    /// Steps per second.
    pub speed: u64,
    pub damage: u32,
    pub lifetime: Lifetime,
}

pub open spec fn direction_ok(c: int) -> bool {
    -DIRECTION_LIMIT <= c <= DIRECTION_LIMIT
}

impl Bullet {
    pub open spec fn wf(self) -> bool {
        &&& self.position.wf()
        &&& direction_ok(self.direction.x as int)
        &&& direction_ok(self.direction.y as int)
        &&& direction_ok(self.direction.z as int)
        &&& self.speed <= MAX_SPEED
        &&& self.lifetime.timer.wf()
        &&& self.lifetime.timer.mode == TimerMode::Once
    }
}

/// What one tick of flight does to a projectile: it moves `speed * dt` along its
/// direction, held inside the world. A projectile with no direction stays put.
pub open spec fn move_bullet_spec(b: Bullet, dt: int) -> Bullet {
    let d = b.direction;
    let len = floor_sqrt(len_sq3(d.x as int, d.y as int, d.z as int));
    let step = step_distance(b.speed as int, dt);
    if len == 0 {
        b
    } else {
        Bullet {
            position: Vec3 {
                x: clamp_spec(b.position.x + scale_spec(d.x as int, step, len)) as i64,
                y: clamp_spec(b.position.y + scale_spec(d.y as int, step, len)) as i64,
                z: clamp_spec(b.position.z + scale_spec(d.z as int, step, len)) as i64,
            },
            ..b
        }
    }
}

/// Moves one projectile for a tick of `dt_ns` nanoseconds.
pub fn move_bullet(b: &Bullet, dt_ns: u64) -> (r: Bullet)
    requires
        b.wf(),
        dt_ns <= MAX_TICK_NS,
    ensures
        r == move_bullet_spec(*b, dt_ns as int),
        r.wf(),
{
    let d = b.direction;
    let sx = square(d.x);
    let sy = square(d.y);
    let sz = square(d.z);
    let len = isqrt(sx + sy + sz);
    if len == 0 {
        return *b;
    }
    let step = step_len(b.speed, dt_ns);
    proof {
        let n = sx + sy + sz;
        assert(-(len as int) <= d.x <= len && -(len as int) <= d.y <= len && -(len as int) <= d.z
            <= len) by (nonlinear_arith)
            requires
                n == d.x * d.x + d.y * d.y + d.z * d.z,
                0 <= d.x * d.x,
                0 <= d.y * d.y,
                0 <= d.z * d.z,
                n < (len + 1) * (len + 1),
                0 <= len,
        ;
    }
    let mx = scale_component(d.x, step, len);
    let my = scale_component(d.y, step, len);
    let mz = scale_component(d.z, step, len);
    Bullet {
        position: Vec3 {
            x: clamp_coord(b.position.x + mx),
            y: clamp_coord(b.position.y + my),
            z: clamp_coord(b.position.z + mz),
        },
        ..*b
    }
}

/// Moves every projectile for one tick; the order is kept.
pub fn move_bullets(bullets: &mut Vec<Bullet>, dt_ns: u64)
    requires
        forall|i: int| 0 <= i < old(bullets)@.len() ==> (#[trigger] old(bullets)@[i]).wf(),
        dt_ns <= MAX_TICK_NS,
    ensures
        final(bullets)@ == old(bullets)@.map_values(|b: Bullet| move_bullet_spec(b, dt_ns as int)),
        forall|i: int| 0 <= i < final(bullets)@.len() ==> (#[trigger] final(bullets)@[i]).wf(),
{
    let mut moved: Vec<Bullet> = Vec::new();
    let mut i: usize = 0;
    while i < bullets.len()
        invariant
            i <= bullets@.len(),
            forall|j: int| 0 <= j < bullets@.len() ==> (#[trigger] bullets@[j]).wf(),
            dt_ns <= MAX_TICK_NS,
            moved@ == bullets@.take(i as int).map_values(
                |b: Bullet| move_bullet_spec(b, dt_ns as int),
            ),
            forall|j: int| 0 <= j < i ==> (#[trigger] moved@[j]).wf(),
        decreases bullets@.len() - i,
    {
        let b = move_bullet(&bullets[i], dt_ns);
        moved.push(b);
        proof {
            assert(bullets@.take(i + 1).map_values(|b: Bullet| move_bullet_spec(b, dt_ns as int))
                =~= moved@);
        }
        i += 1;
    }
    assert(bullets@.take(bullets@.len() as int) =~= bullets@);
    *bullets = moved;
}

/// A projectile after its lifetime has counted down for a tick.
pub open spec fn age_bullet(b: Bullet, dt: int) -> Bullet {
    Bullet { lifetime: Lifetime { timer: tick_spec(b.lifetime.timer, dt) }, ..b }
}

/// The projectiles whose lifetime has not just run out, after aging them.
pub open spec fn unexpired(s: Seq<Bullet>, dt: int) -> Seq<Bullet> {
    s.map_values(|b: Bullet| age_bullet(b, dt)).filter(
        |b: Bullet| b.lifetime.timer.times_finished_this_tick == 0,
    )
}

/// Counts every lifetime down by `dt_ns` nanoseconds and removes the projectiles
/// whose lifetime ran out on this tick; returns how many were removed.
pub fn bullet_despawn(bullets: &mut Vec<Bullet>, dt_ns: u64) -> (expired: u64)
    requires
        forall|i: int| 0 <= i < old(bullets)@.len() ==> (#[trigger] old(bullets)@[i]).wf(),
    ensures
        final(bullets)@ == unexpired(old(bullets)@, dt_ns as int),
        expired == old(bullets)@.len() - final(bullets)@.len(),
        forall|i: int| 0 <= i < final(bullets)@.len() ==> (#[trigger] final(bullets)@[i]).wf(),
{
    let ghost pred = |b: Bullet| b.lifetime.timer.times_finished_this_tick == 0;
    let ghost age = |b: Bullet| age_bullet(b, dt_ns as int);
    let mut kept: Vec<Bullet> = Vec::new();
    let mut expired: u64 = 0;
    let mut i: usize = 0;
    while i < bullets.len()
        invariant
            i <= bullets@.len(),
            forall|j: int| 0 <= j < bullets@.len() ==> (#[trigger] bullets@[j]).wf(),
            pred == (|b: Bullet| b.lifetime.timer.times_finished_this_tick == 0),
            age == (|b: Bullet| age_bullet(b, dt_ns as int)),
            kept@ == bullets@.take(i as int).map_values(age).filter(pred),
            expired == i - kept@.len(),
            forall|j: int| 0 <= j < kept@.len() ==> (#[trigger] kept@[j]).wf(),
        decreases bullets@.len() - i,
    {
        let mut b = bullets[i];
        b.lifetime.timer.tick(dt_ns);
        proof {
            reveal(Seq::filter);
            let m = bullets@.take(i + 1).map_values(age);
            assert(m.drop_last() =~= bullets@.take(i as int).map_values(age));
            assert(m.last() == b);
            bullets@.take(i as int).map_values(age).lemma_filter_len(pred);
        }
        if !b.lifetime.timer.just_finished() {
            kept.push(b);
        } else {
            expired = expired + 1;
        }
        i += 1;
    }
    assert(bullets@.take(bullets@.len() as int) =~= bullets@);
    *bullets = kept;
    expired
}

} // verus!

verus! {

/// Whether a projectile is close enough to an enemy to hit it.
pub open spec fn in_reach(b: Bullet, t: Target) -> bool {
    dist_sq3(b.position, t.position) < COLLISION_RADIUS * COLLISION_RADIUS
}

/// Index of the first enemy the projectile hits; the number of enemies when it
/// hits none.
pub open spec fn first_hit(b: Bullet, ts: Seq<Target>) -> int
    decreases ts.len(),
{
    if ts.len() == 0 {
        0
    } else if in_reach(b, ts[0]) {
        0
    } else {
        1 + first_hit(b, ts.subrange(1, ts.len() as int))
    }
}

/// The first enemy in reach is the one hit: every enemy before it is out of
/// reach.
pub proof fn lemma_first_hit(b: Bullet, ts: Seq<Target>)
    ensures
        0 <= first_hit(b, ts) <= ts.len(),
        forall|k: int| 0 <= k < first_hit(b, ts) ==> !in_reach(b, #[trigger] ts[k]),
        first_hit(b, ts) < ts.len() ==> in_reach(b, ts[first_hit(b, ts)]),
    decreases ts.len(),
{
    if ts.len() > 0 && !in_reach(b, ts[0]) {
        let rest = ts.subrange(1, ts.len() as int);
        lemma_first_hit(b, rest);
        assert forall|k: int| 0 <= k < first_hit(b, ts) implies !in_reach(b, #[trigger] ts[k]) by {
            if k > 0 {
                assert(ts[k] == rest[k - 1]);
            }
        }
    }
}

proof fn lemma_first_hit_is(b: Bullet, ts: Seq<Target>, j: int)
    requires
        0 <= j <= ts.len(),
        forall|k: int| 0 <= k < j ==> !in_reach(b, #[trigger] ts[k]),
        j < ts.len() ==> in_reach(b, ts[j]),
    ensures
        first_hit(b, ts) == j,
{
    lemma_first_hit(b, ts);
}

/// The two lists hold the same enemies, but for their health.
pub open spec fn same_but_health(a: Seq<Target>, c: Seq<Target>) -> bool {
    a.len() == c.len() && forall|k: int| 0 <= k < a.len() ==> #[trigger] a[k] == (Target {
        health: a[k].health,
        ..c[k]
    })
}

proof fn lemma_first_hit_positions(b: Bullet, a: Seq<Target>, c: Seq<Target>)
    requires
        same_but_health(a, c),
    ensures
        first_hit(b, a) == first_hit(b, c),
{
    lemma_first_hit(b, a);
    lemma_first_hit(b, c);
    let fa = first_hit(b, a);
    let fc = first_hit(b, c);
    if fa < fc {
        assert(a[fa].position == c[fa].position);
    } else if fc < fa {
        assert(a[fc].position == c[fc].position);
    }
}

/// Health after a hit of `damage`, held at the smallest value an `i64` holds.
pub open spec fn damaged(health: int, damage: int) -> int {
    if health - damage < i64::MIN {
        i64::MIN as int
    } else {
        health - damage
    }
}

/// An enemy after a hit from a projectile.
pub open spec fn hit_target(t: Target, damage: int) -> Target {
    Target { health: damaged(t.health as int, damage) as i64, ..t }
}

/// The enemies after the given projectiles, in order, hit what they reach:
/// each projectile takes its damage off the first enemy in reach, if any.
pub open spec fn collide_targets(bs: Seq<Bullet>, ts: Seq<Target>) -> Seq<Target>
    decreases bs.len(),
{
    if bs.len() == 0 {
        ts
    } else {
        let prev = collide_targets(bs.drop_last(), ts);
        let j = first_hit(bs.last(), ts);
        if j < ts.len() {
            prev.update(j, hit_target(prev[j], bs.last().damage as int))
        } else {
            prev
        }
    }
}

/// The projectiles that hit nothing.
pub open spec fn missed_bullets(bs: Seq<Bullet>, ts: Seq<Target>) -> Seq<Bullet> {
    bs.filter(|b: Bullet| first_hit(b, ts) == ts.len())
}

pub proof fn lemma_collide_positions(bs: Seq<Bullet>, ts: Seq<Target>)
    ensures
        same_but_health(collide_targets(bs, ts), ts),
    decreases bs.len(),
{
    if bs.len() > 0 {
        lemma_collide_positions(bs.drop_last(), ts);
        let prev = collide_targets(bs.drop_last(), ts);
        let cur = collide_targets(bs, ts);
        let j = first_hit(bs.last(), ts);
        lemma_first_hit(bs.last(), ts);
        if j < ts.len() {
            assert(cur == prev.update(j, hit_target(prev[j], bs.last().damage as int)));
        } else {
            assert(cur == prev);
        }
        assert(cur.len() == prev.len());
        assert forall|k: int| 0 <= k < cur.len() implies #[trigger] cur[k] == (Target {
            health: cur[k].health,
            ..ts[k]
        }) by {
            assert(prev[k] == (Target { health: prev[k].health, ..ts[k] }));
        }
    }
}

/// Index of the first enemy in reach of `b`; `targets.len()` when none is.
pub fn find_hit(b: &Bullet, targets: &Vec<Target>) -> (r: usize)
    requires
        b.wf(),
        forall|k: int| 0 <= k < targets@.len() ==> (#[trigger] targets@[k]).wf(),
    ensures
        r == first_hit(*b, targets@),
{
    let mut j: usize = 0;
    while j < targets.len()
        invariant
            j <= targets@.len(),
            b.wf(),
            forall|k: int| 0 <= k < targets@.len() ==> (#[trigger] targets@[k]).wf(),
            forall|k: int| 0 <= k < j ==> !in_reach(*b, #[trigger] targets@[k]),
        decreases targets@.len() - j,
    {
        let t = targets[j];
        assert(t.wf());
        if distance_squared(&b.position, &t.position) < COLLISION_RADIUS * COLLISION_RADIUS {
            proof {
                lemma_first_hit_is(*b, targets@, j as int);
            }
            return j;
        }
        j += 1;
    }
    proof {
        lemma_first_hit_is(*b, targets@, j as int);
    }
    j
}

/// Resolves hits: each projectile that is in reach of an enemy is removed and
/// takes its damage off the first such enemy only. Returns how many hit.
pub fn bullet_collision(bullets: &mut Vec<Bullet>, targets: &mut Vec<Target>) -> (hits: u64)
    requires
        forall|i: int| 0 <= i < old(bullets)@.len() ==> (#[trigger] old(bullets)@[i]).wf(),
        forall|i: int| 0 <= i < old(targets)@.len() ==> (#[trigger] old(targets)@[i]).wf(),
    ensures
        final(targets)@ == collide_targets(old(bullets)@, old(targets)@),
        same_but_health(final(targets)@, old(targets)@),
        final(bullets)@ == missed_bullets(old(bullets)@, old(targets)@),
        hits == old(bullets)@.len() - final(bullets)@.len(),
        forall|i: int| 0 <= i < final(bullets)@.len() ==> (#[trigger] final(bullets)@[i]).wf(),
        forall|i: int| 0 <= i < final(targets)@.len() ==> (#[trigger] final(targets)@[i]).wf(),
{
    let ghost ts0 = targets@;
    let ghost pred = |b: Bullet| first_hit(b, ts0) == ts0.len();
    let mut kept: Vec<Bullet> = Vec::new();
    let mut hits: u64 = 0;
    let mut i: usize = 0;
    while i < bullets.len()
        invariant
            i <= bullets@.len(),
            forall|k: int| 0 <= k < bullets@.len() ==> (#[trigger] bullets@[k]).wf(),
            forall|k: int| 0 <= k < ts0.len() ==> (#[trigger] ts0[k]).wf(),
            pred == (|b: Bullet| first_hit(b, ts0) == ts0.len()),
            targets@ == collide_targets(bullets@.take(i as int), ts0),
            kept@ == bullets@.take(i as int).filter(pred),
            hits == i - kept@.len(),
            forall|k: int| 0 <= k < kept@.len() ==> (#[trigger] kept@[k]).wf(),
        decreases bullets@.len() - i,
    {
        let b = bullets[i];
        proof {
            lemma_collide_positions(bullets@.take(i as int), ts0);
            lemma_first_hit_positions(b, targets@, ts0);
            assert forall|k: int| 0 <= k < targets@.len() implies (#[trigger] targets@[k]).wf() by {
                assert(targets@[k] == (Target { health: targets@[k].health, ..ts0[k] }));
            }
            lemma_filter_take_step(bullets@, i as int, pred);
            assert(pred(b) == (first_hit(b, ts0) == ts0.len()));
            lemma_first_hit(b, ts0);
            assert(bullets@.take(i + 1).drop_last() =~= bullets@.take(i as int));
            assert(bullets@.take(i + 1).last() == b);
        }
        let j = find_hit(&b, targets);
        if j < targets.len() {
            let mut t = targets[j];
            if t.health >= i64::MIN + (b.damage as i64) {
                t.health = t.health - b.damage as i64;
            } else {
                t.health = i64::MIN;
            }
            targets.set(j, t);
            hits = hits + 1;
        } else {
            kept.push(b);
        }
        i += 1;
    }
    assert(bullets@.take(bullets@.len() as int) =~= bullets@);
    proof {
        lemma_collide_positions(bullets@, ts0);
        assert forall|k: int| 0 <= k < targets@.len() implies (#[trigger] targets@[k]).wf() by {
            assert(targets@[k] == (Target { health: targets@[k].health, ..ts0[k] }));
        }
    }
    *bullets = kept;
    hits
}

} // verus!

verus! {

/// A projectile in reach of enemies hits exactly one of them: the first in
/// reach loses the projectile's damage, every other enemy keeps its health,
/// even one that is also in reach, and the projectile is used up.
pub proof fn lemma_single_hit(b: Bullet, ts: Seq<Target>, j: int)
    requires
        0 <= j < ts.len(),
        in_reach(b, ts[j]),
    ensures
        first_hit(b, ts) <= j,
        in_reach(b, ts[first_hit(b, ts)]),
        collide_targets(seq![b], ts)[first_hit(b, ts)] == hit_target(
            ts[first_hit(b, ts)],
            b.damage as int,
        ),
        forall|k: int|
            0 <= k < ts.len() && k != first_hit(b, ts) ==> #[trigger] collide_targets(
                seq![b],
                ts,
            )[k] == ts[k],
        collide_targets(seq![b], ts).len() == ts.len(),
        missed_bullets(seq![b], ts).len() == 0,
{
    lemma_first_hit(b, ts);
    let bs = seq![b];
    assert(bs.drop_last() =~= Seq::<Bullet>::empty());
    assert(collide_targets(bs.drop_last(), ts) == ts);
    reveal(Seq::filter);
    assert(Seq::<Bullet>::empty().filter(|b: Bullet| first_hit(b, ts) == ts.len()) =~= Seq::<
        Bullet,
    >::empty());
}

/// An enemy with one health left that takes one damage dies of it: the death
/// pass removes exactly that enemy and counts exactly one death, for which the
/// ledger credits exactly one reward.
pub proof fn lemma_kill_pays_reward(ts: Seq<Target>, j: int, money: int)
    requires
        0 <= j < ts.len(),
        ts[j].health == 1,
        forall|k: int| 0 <= k < ts.len() && k != j ==> #[trigger] ts[k].health > 0,
        0 <= money <= u32::MAX - KILL_REWARD,
    ensures
        deaths_in(ts.update(j, hit_target(ts[j], 1))) == 1,
        alive_targets(ts.update(j, hit_target(ts[j], 1))) == ts.remove(j),
        credited(money, deaths_in(ts.update(j, hit_target(ts[j], 1)))) == money + KILL_REWARD,
{
    let hit = ts.update(j, hit_target(ts[j], 1));
    let p = |t: Target| t.health > 0;
    assert forall|k: int| 0 <= k < hit.len() && k != j implies p(#[trigger] hit[k]) by {
        assert(hit[k] == ts[k]);
    }
    lemma_filter_all_but_one(hit, p, j);
    assert(hit.remove(j) =~= ts.remove(j));
}

} // verus!
