//! Towers: their kinds, target choice and firing.
use vstd::prelude::*;

use crate::bullet::{Bullet, Lifetime};
use crate::geometry::{
    clamp_coord, clamp_spec, dist_sq3, distance_squared, normalize, unit_of, Vec3, UNIT,
};
use crate::target::{Target, MAX_TICK_NS};
use crate::timer::{tick_spec, total_ns, Timer, TimerMode};

verus! {

/// Shortest cooldown a tower may have, in nanoseconds.
pub const MIN_COOLDOWN_NS: u64 = 1_000_000;

/// Cooldown of the towers players build, in nanoseconds.
pub const TOWER_COOLDOWN_NS: u64 = 500_000_000;

/// Height of the muzzle above a built tower's base.
pub const TOWER_MUZZLE_HEIGHT: i64 = 600;

/// How long a projectile flies before it is removed, in nanoseconds.
pub const BULLET_LIFETIME_NS: u64 = 10_000_000_000;

/// Damage of one projectile.
pub const BULLET_DAMAGE: u32 = 1;

/// The kinds of tower a player can build.
#[derive(Clone, Copy, Debug, PartialEq, Eq, Structural)]
pub enum TowerType {
    Tomato,
    Potato,
    Cabbage,
}

/// A tower that fires at the nearest enemy whenever its cooldown elapses.
#[derive(Clone, Copy, Debug)]
pub struct Tower {
    pub id: u64,
    pub position: Vec3,
    pub kind: TowerType,
    pub shooting_timer: Timer,
    /// Where projectiles leave the tower, relative to its position.
    pub bullet_offset: Vec3,
    /// Farthest an enemy may be from the muzzle to be fired at; no limit when absent.
    pub range: Option<u64>,
}

/// A tower's request to fire a projectile.
#[derive(Clone, Copy, Debug, PartialEq, Eq, Structural)]
pub struct Shot {
    /// The tower that fires.
    pub tower: u64,
    pub kind: TowerType,
    /// The muzzle the projectile leaves from.
    pub origin: Vec3,
    /// Fixed-point unit vector (`UNIT` long) from the muzzle toward the enemy fired at.
    pub direction: Vec3,
}

pub open spec fn bullet_speed_of(kind: TowerType) -> u64 {
    match kind {
        TowerType::Tomato => 3500,
        TowerType::Potato => 6500,
        TowerType::Cabbage => 2500,
    }
}

pub open spec fn cost_of(kind: TowerType) -> u32 {
    match kind {
        TowerType::Tomato => 50,
        TowerType::Potato => 80,
        TowerType::Cabbage => 110,
    }
}

impl TowerType {
    /// Speed of this kind's projectiles, in steps per second.
    pub fn bullet_speed(&self) -> (r: u64)
        ensures
            r == bullet_speed_of(*self),
    {
        match self {
            TowerType::Tomato => 3500,
            TowerType::Potato => 6500,
            TowerType::Cabbage => 2500,
        }
    }

    /// What building this kind costs.
    pub fn cost(&self) -> (r: u32)
        ensures
            r == cost_of(*self),
    {
        match self {
            TowerType::Tomato => 50,
            TowerType::Potato => 80,
            TowerType::Cabbage => 110,
        }
    }

    /// A new tower of this kind at `position`, its cooldown just started.
    pub fn get_tower(&self, id: u64, position: Vec3) -> (r: Tower)
        ensures
            r.id == id,
            r.position == position,
            r.kind == *self,
            r.shooting_timer == Timer::spec_new(TOWER_COOLDOWN_NS, TimerMode::Repeating),
            r.bullet_offset == (Vec3 { x: 0, y: TOWER_MUZZLE_HEIGHT, z: 0 }),
            r.range.is_none(),
    {
        Tower {
            id,
            position,
            kind: *self,
            shooting_timer: Timer::new(TOWER_COOLDOWN_NS, TimerMode::Repeating),
            bullet_offset: Vec3 { x: 0, y: TOWER_MUZZLE_HEIGHT, z: 0 },
            range: None,
        }
    }

    /// A projectile of this kind, fired by `owner` from `shot.origin` along
    /// `shot.direction`, with its full lifetime ahead.
    pub fn get_bullet(&self, id: u64, shot: &Shot) -> (r: Bullet)
        ensures
            r.id == id,
            r.owner == Some(shot.tower),
            r.position == shot.origin,
            r.direction == shot.direction,
            r.speed == bullet_speed_of(*self),
            r.damage == BULLET_DAMAGE,
            r.lifetime.timer == Timer::spec_new(BULLET_LIFETIME_NS, TimerMode::Once),
            r == bullet_of(Shot { kind: *self, ..*shot }, id as int),
    {
        Bullet {
            id,
            owner: Some(shot.tower),
            position: shot.origin,
            direction: shot.direction,
            speed: self.bullet_speed(),
            damage: BULLET_DAMAGE,
            lifetime: Lifetime { timer: Timer::new(BULLET_LIFETIME_NS, TimerMode::Once) },
        }
    }
}

impl Tower {
    pub open spec fn wf(self) -> bool {
        &&& self.position.wf()
        &&& self.bullet_offset.wf()
        &&& self.shooting_timer.wf()
        &&& self.shooting_timer.duration_ns >= MIN_COOLDOWN_NS
        &&& self.shooting_timer.mode == TimerMode::Repeating
    }
}

/// Where a tower's projectiles leave from, held inside the world.
pub open spec fn muzzle_of(t: Tower) -> Vec3 {
    Vec3 {
        x: clamp_spec(t.position.x + t.bullet_offset.x) as i64,
        y: clamp_spec(t.position.y + t.bullet_offset.y) as i64,
        z: clamp_spec(t.position.z + t.bullet_offset.z) as i64,
    }
}

pub fn muzzle(t: &Tower) -> (r: Vec3)
    requires
        t.wf(),
    ensures
        r == muzzle_of(*t),
        r.wf(),
{
    Vec3 {
        x: clamp_coord(t.position.x + t.bullet_offset.x),
        y: clamp_coord(t.position.y + t.bullet_offset.y),
        z: clamp_coord(t.position.z + t.bullet_offset.z),
    }
}

/// Whether an enemy may be fired at from `muzzle`.
pub open spec fn qualifies(muzzle: Vec3, t: Target, range: Option<u64>) -> bool {
    match range {
        None => true,
        Some(r) => dist_sq3(t.position, muzzle) < r * r,
    }
}

/// The nearest qualifying enemy; of equally near ones, the first.
pub open spec fn nearest(muzzle: Vec3, ts: Seq<Target>, range: Option<u64>) -> Option<int>
    decreases ts.len(),
{
    if ts.len() == 0 {
        None
    } else {
        let prev = nearest(muzzle, ts.drop_last(), range);
        let last = ts.len() - 1;
        if !qualifies(muzzle, ts[last], range) {
            prev
        } else {
            match prev {
                None => Some(last),
                Some(i) => if dist_sq3(ts[last].position, muzzle) < dist_sq3(
                    ts[i].position,
                    muzzle,
                ) {
                    Some(last)
                } else {
                    Some(i)
                },
            }
        }
    }
}

/// The choice is the nearest qualifying enemy, and the first of the nearest.
pub proof fn lemma_nearest(muzzle: Vec3, ts: Seq<Target>, range: Option<u64>)
    ensures
        nearest(muzzle, ts, range) is None <==> forall|k: int|
            0 <= k < ts.len() ==> !qualifies(muzzle, #[trigger] ts[k], range),
        nearest(muzzle, ts, range) matches Some(i) ==> {
            &&& 0 <= i < ts.len()
            &&& qualifies(muzzle, ts[i], range)
            &&& forall|k: int|
                0 <= k < ts.len() && qualifies(muzzle, #[trigger] ts[k], range) ==> dist_sq3(
                    ts[i].position,
                    muzzle,
                ) <= dist_sq3(ts[k].position, muzzle)
            &&& forall|k: int|
                0 <= k < i && qualifies(muzzle, #[trigger] ts[k], range) ==> dist_sq3(
                    ts[i].position,
                    muzzle,
                ) < dist_sq3(ts[k].position, muzzle)
        },
    decreases ts.len(),
{
    if ts.len() > 0 {
        let p = ts.drop_last();
        let last = ts.len() - 1;
        lemma_nearest(muzzle, p, range);
        assert forall|k: int| 0 <= k < p.len() implies #[trigger] p[k] == ts[k] by {}
        let prev = nearest(muzzle, p, range);
        if !qualifies(muzzle, ts[last], range) {
            if prev is None {
                assert forall|k: int| 0 <= k < ts.len() implies !qualifies(
                    muzzle,
                    #[trigger] ts[k],
                    range,
                ) by {
                    if k < last {
                        assert(p[k] == ts[k]);
                    }
                }
            } else {
                let i = prev->0;
                assert(p[i] == ts[i]);
                assert forall|k: int|
                    0 <= k < ts.len() && qualifies(muzzle, #[trigger] ts[k], range) implies dist_sq3(
                    ts[i].position,
                    muzzle,
                ) <= dist_sq3(ts[k].position, muzzle) by {
                    assert(p[k] == ts[k]);
                }
                assert forall|k: int|
                    0 <= k < i && qualifies(muzzle, #[trigger] ts[k], range) implies dist_sq3(
                    ts[i].position,
                    muzzle,
                ) < dist_sq3(ts[k].position, muzzle) by {
                    assert(p[k] == ts[k]);
                }
            }
        } else {
            if prev is None {
                assert forall|k: int|
                    0 <= k < ts.len() && qualifies(muzzle, #[trigger] ts[k], range) implies k
                    == last by {
                    if k < last {
                        assert(p[k] == ts[k]);
                    }
                }
            } else {
                let i = prev->0;
                assert(p[i] == ts[i]);
                if dist_sq3(ts[last].position, muzzle) < dist_sq3(ts[i].position, muzzle) {
                    assert forall|k: int|
                        0 <= k < last && qualifies(muzzle, #[trigger] ts[k], range) implies dist_sq3(
                        ts[last].position,
                        muzzle,
                    ) < dist_sq3(ts[k].position, muzzle) by {
                        assert(p[k] == ts[k]);
                    }
                } else {
                    assert forall|k: int|
                        0 <= k < ts.len() && qualifies(muzzle, #[trigger] ts[k], range) implies dist_sq3(
                        ts[i].position,
                        muzzle,
                    ) <= dist_sq3(ts[k].position, muzzle) by {
                        if k < last {
                            assert(p[k] == ts[k]);
                        }
                    }
                    assert forall|k: int|
                        0 <= k < i && qualifies(muzzle, #[trigger] ts[k], range) implies dist_sq3(
                        ts[i].position,
                        muzzle,
                    ) < dist_sq3(ts[k].position, muzzle) by {
                        assert(p[k] == ts[k]);
                    }
                }
            }
        }
    }
}

/// Picks the enemy to fire at from `muzzle`: among those within `range` (all,
/// when there is no range), the nearest; of equally near ones, the first.
pub fn select_target(muzzle: &Vec3, targets: &Vec<Target>, range: Option<u64>) -> (r: Option<
    usize,
>)
    requires
        muzzle.wf(),
        forall|k: int| 0 <= k < targets@.len() ==> (#[trigger] targets@[k]).wf(),
    ensures
        r is None <==> forall|k: int|
            0 <= k < targets@.len() ==> !qualifies(*muzzle, #[trigger] targets@[k], range),
        r matches Some(i) ==> {
            &&& i < targets@.len()
            &&& qualifies(*muzzle, targets@[i as int], range)
            &&& forall|k: int|
                0 <= k < targets@.len() && qualifies(*muzzle, #[trigger] targets@[k], range)
                    ==> dist_sq3(targets@[i as int].position, *muzzle) <= dist_sq3(
                    targets@[k].position,
                    *muzzle,
                )
            &&& forall|k: int|
                0 <= k < i && qualifies(*muzzle, #[trigger] targets@[k], range) ==> dist_sq3(
                    targets@[i as int].position,
                    *muzzle,
                ) < dist_sq3(targets@[k].position, *muzzle)
        },
        r matches Some(i) ==> nearest(*muzzle, targets@, range) == Some(i as int),
        r is None ==> nearest(*muzzle, targets@, range) is None,
{
    let mut best: Option<usize> = None;
    let mut best_d: u128 = 0;
    let mut j: usize = 0;
    while j < targets.len()
        invariant
            j <= targets@.len(),
            muzzle.wf(),
            forall|k: int| 0 <= k < targets@.len() ==> (#[trigger] targets@[k]).wf(),
            best matches Some(i) ==> nearest(*muzzle, targets@.take(j as int), range) == Some(
                i as int,
            ) && i < j && best_d == dist_sq3(targets@[i as int].position, *muzzle),
            best is None ==> nearest(*muzzle, targets@.take(j as int), range) is None,
        decreases targets@.len() - j,
    {
        let t = targets[j];
        let d = distance_squared(&t.position, muzzle);
        let ok = match range {
            None => true,
            Some(r) => {
                assert((r as int) * (r as int) <= u128::MAX) by (nonlinear_arith)
                    requires
                        0 <= r <= u64::MAX,
                ;
                d < (r as u128) * (r as u128)
            },
        };
        proof {
            let s = targets@.take(j + 1);
            assert(s.drop_last() =~= targets@.take(j as int));
            assert(s[j as int] == t);
            assert forall|k: int| 0 <= k < j implies #[trigger] s[k] == targets@[k] by {}
        }
        if ok {
            match best {
                None => {
                    best = Some(j);
                    best_d = d;
                },
                Some(_) => {
                    if d < best_d {
                        best = Some(j);
                        best_d = d;
                    }
                },
            }
        }
        j += 1;
    }
    proof {
        assert(targets@.take(targets@.len() as int) =~= targets@);
        lemma_nearest(*muzzle, targets@, range);
    }
    best
}

} // verus!

verus! {

/// A cooldown that finished on its last tick starts its next period from
/// zero: time past the period boundary is dropped, so that firings stay at
/// least a full period apart.
pub open spec fn restarted(t: Timer) -> Timer {
    if t.times_finished_this_tick > 0 {
        Timer { elapsed_ns: 0, ..t }
    } else {
        t
    }
}

/// A tower after its cooldown has counted for a tick.
pub open spec fn tick_tower(t: Tower, dt: int) -> Tower {
    Tower { shooting_timer: restarted(tick_spec(t.shooting_timer, dt)), ..t }
}

/// From `from` to `to`.
pub open spec fn offset_between(from: Vec3, to: Vec3) -> Vec3 {
    Vec3 { x: (to.x - from.x) as i64, y: (to.y - from.y) as i64, z: (to.z - from.z) as i64 }
}

/// The shot a tower takes, its cooldown already ticked: none unless the
/// cooldown finished on this tick and some enemy qualifies; else one from the
/// muzzle along the unit vector toward the nearest qualifying enemy.
pub open spec fn shot_of(t: Tower, targets: Seq<Target>) -> Option<Shot> {
    if t.shooting_timer.times_finished_this_tick == 0 {
        None
    } else {
        match nearest(muzzle_of(t), targets, t.range) {
            None => None,
            Some(i) => Some(
                Shot {
                    tower: t.id,
                    kind: t.kind,
                    origin: muzzle_of(t),
                    direction: unit_of(offset_between(muzzle_of(t), targets[i].position)),
                },
            ),
        }
    }
}

/// The shots of the given towers, in tower order.
pub open spec fn shots_of(ts: Seq<Tower>, targets: Seq<Target>) -> Seq<Shot>
    decreases ts.len(),
{
    if ts.len() == 0 {
        Seq::empty()
    } else {
        match shot_of(ts.last(), targets) {
            Some(s) => shots_of(ts.drop_last(), targets).push(s),
            None => shots_of(ts.drop_last(), targets),
        }
    }
}

/// The projectile a shot makes, numbered `id`: it leaves the muzzle with the
/// speed of the tower's kind and its full lifetime ahead.
pub open spec fn bullet_of(s: Shot, id: int) -> Bullet {
    Bullet {
        id: id as u64,
        owner: Some(s.tower),
        position: s.origin,
        direction: s.direction,
        speed: bullet_speed_of(s.kind),
        damage: BULLET_DAMAGE,
        lifetime: Lifetime { timer: Timer::spec_new(BULLET_LIFETIME_NS, TimerMode::Once) },
    }
}

/// Projectiles made from shots, numbered from `next_id` on.
pub open spec fn spawned(shots: Seq<Shot>, next_id: int) -> Seq<Bullet> {
    Seq::new(shots.len(), |k: int| bullet_of(shots[k], next_id + k))
}

impl Shot {
    pub open spec fn wf(self) -> bool {
        &&& self.origin.wf()
        &&& -UNIT <= self.direction.x <= UNIT
        &&& -UNIT <= self.direction.y <= UNIT
        &&& -UNIT <= self.direction.z <= UNIT
    }
}

/// Counts every tower's cooldown down by `dt_ns` nanoseconds; each tower whose
/// cooldown finished on this tick restarts it from zero and fires at the
/// nearest enemy it may fire at. Returns the projectiles fired, in tower
/// order, numbered from `next_id` on: at most one per tower.
pub fn tower_shooting(
    towers: &mut Vec<Tower>,
    targets: &Vec<Target>,
    dt_ns: u64,
    next_id: u64,
) -> (bullets: Vec<Bullet>)
    requires
        forall|i: int| 0 <= i < old(towers)@.len() ==> (#[trigger] old(towers)@[i]).wf(),
        forall|i: int| 0 <= i < targets@.len() ==> (#[trigger] targets@[i]).wf(),
        dt_ns <= MAX_TICK_NS,
        next_id + old(towers)@.len() <= u64::MAX,
    ensures
        final(towers)@ == old(towers)@.map_values(|t: Tower| tick_tower(t, dt_ns as int)),
        bullets@ == spawned(shots_of(final(towers)@, targets@), next_id as int),
        bullets@.len() <= old(towers)@.len(),
        forall|i: int| 0 <= i < final(towers)@.len() ==> (#[trigger] final(towers)@[i]).wf(),
        forall|i: int| 0 <= i < bullets@.len() ==> (#[trigger] bullets@[i]).wf(),
{
    let ghost tick = |t: Tower| tick_tower(t, dt_ns as int);
    let mut ticked: Vec<Tower> = Vec::new();
    let mut bullets: Vec<Bullet> = Vec::new();
    let mut i: usize = 0;
    while i < towers.len()
        invariant
            i <= towers@.len(),
            forall|k: int| 0 <= k < towers@.len() ==> (#[trigger] towers@[k]).wf(),
            forall|k: int| 0 <= k < targets@.len() ==> (#[trigger] targets@[k]).wf(),
            dt_ns <= MAX_TICK_NS,
            next_id + towers@.len() <= u64::MAX,
            tick == (|t: Tower| tick_tower(t, dt_ns as int)),
            ticked@ == towers@.take(i as int).map_values(tick),
            bullets@ == spawned(shots_of(ticked@, targets@), next_id as int),
            shots_of(ticked@, targets@).len() <= i,
            forall|k: int| 0 <= k < ticked@.len() ==> (#[trigger] ticked@[k]).wf(),
            forall|k: int| 0 <= k < bullets@.len() ==> (#[trigger] bullets@[k]).wf(),
        decreases towers@.len() - i,
    {
        let mut t = towers[i];
        assert(t.wf());
        proof {
            let e = t.shooting_timer.elapsed_ns as int;
            let d = t.shooting_timer.duration_ns as int;
            assert((e + dt_ns) / d <= u32::MAX) by (nonlinear_arith)
                requires
                    0 <= e <= d,
                    1_000_000 <= d,
                    0 <= dt_ns <= 1_000_000_000_000,
            ;
        }
        t.shooting_timer.tick(dt_ns);
        let ghost shots_before = shots_of(ticked@, targets@);
        if t.shooting_timer.just_finished() {
            t.shooting_timer.elapsed_ns = 0;
            let m = muzzle(&t);
            match select_target(&m, targets, t.range) {
                Some(j) => {
                    let p = targets[j].position;
                    assert(p.wf());
                    let offset = Vec3 { x: p.x - m.x, y: p.y - m.y, z: p.z - m.z };
                    let shot = Shot { tower: t.id, kind: t.kind, origin: m, direction: normalize(&offset) };
                    let id = next_id + bullets.len() as u64;
                    let b = t.kind.get_bullet(id, &shot);
                    proof {
                        assert(shot == (Shot { kind: t.kind, ..shot }));
                        assert(spawned(shots_before.push(shot), next_id as int) =~= spawned(
                            shots_before,
                            next_id as int,
                        ).push(b));
                    }
                    bullets.push(b);
                },
                None => {},
            }
        }
        proof {
            let prev = ticked@;
            assert(ticked@.push(t).drop_last() =~= prev);
            assert(towers@.take(i + 1).map_values(tick) =~= prev.push(t));
        }
        ticked.push(t);
        i += 1;
    }
    assert(towers@.take(towers@.len() as int) =~= towers@);
    *towers = ticked;
    bullets
}

/// At most one shot per tower.
pub proof fn lemma_shots_len(ts: Seq<Tower>, targets: Seq<Target>)
    ensures
        shots_of(ts, targets).len() <= ts.len(),
    decreases ts.len(),
{
    if ts.len() > 0 {
        lemma_shots_len(ts.drop_last(), targets);
    }
}

/// A tower after ticks of the given lengths, in order.
pub open spec fn tick_tower_all(t: Tower, deltas: Seq<u64>) -> Tower
    decreases deltas.len(),
{
    if deltas.len() == 0 {
        t
    } else {
        tick_tower(tick_tower_all(t, deltas.drop_last()), deltas.last() as int)
    }
}

proof fn lemma_cooldown_bounded(t: Tower, deltas: Seq<u64>)
    requires
        t.wf(),
    ensures
        tick_tower_all(t, deltas).wf(),
        tick_tower_all(t, deltas).shooting_timer.duration_ns == t.shooting_timer.duration_ns,
        tick_tower_all(t, deltas).shooting_timer.elapsed_ns <= t.shooting_timer.elapsed_ns
            + total_ns(deltas),
    decreases deltas.len(),
{
    if deltas.len() > 0 {
        let prev = tick_tower_all(t, deltas.drop_last());
        lemma_cooldown_bounded(t, deltas.drop_last());
        let total = prev.shooting_timer.elapsed_ns + deltas.last();
        let d = prev.shooting_timer.duration_ns as int;
        if total >= d {
            assert(total % d <= total && total % d < d) by (nonlinear_arith)
                requires
                    d > 0,
                    total >= 0,
            ;
        }
    }
}

/// A tower never fires twice within one cooldown period: after a tick on which
/// it fires, the ticks up to and including the next one on which it fires add
/// up to at least its cooldown's duration, however long each tick is.
pub proof fn lemma_tower_fire_interval(
    t: Tower,
    dt: u64,
    deltas: Seq<u64>,
    before: Seq<Target>,
    after: Seq<Target>,
)
    requires
        t.wf(),
        shot_of(tick_tower(t, dt as int), before) is Some,
        deltas.len() > 0,
        shot_of(tick_tower_all(tick_tower(t, dt as int), deltas), after) is Some,
    ensures
        total_ns(deltas) >= t.shooting_timer.duration_ns,
{
    let fired = tick_tower(t, dt as int);
    assert(deltas == deltas.drop_last().push(deltas.last()));
    lemma_cooldown_bounded(t, seq![dt]);
    assert(seq![dt].drop_last() =~= Seq::<u64>::empty());
    assert(tick_tower_all(t, Seq::<u64>::empty()) == t);
    assert(tick_tower_all(t, seq![dt]) == fired);
    assert(fired.shooting_timer.elapsed_ns == 0);
    lemma_cooldown_bounded(fired, deltas.drop_last());
}

} // verus!
