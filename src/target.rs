//! Enemies ("targets") and the path they walk.
use vstd::prelude::*;

use crate::player::{debited, Player};
use crate::seqs::{lemma_filter_all_but_one, lemma_filter_idempotent};
use crate::geometry::{
    floor_sqrt, isqrt, len_sq2, scale_component, scale_spec, Vec2, Vec3, MAX_STEP,
    NANOS_PER_SECOND,
};

verus! {

/// Fastest speed of anything that moves, in fixed-point steps per second.
pub const MAX_SPEED: u64 = 1_000_000_000;

/// Longest tick the simulation accepts, in nanoseconds.
pub const MAX_TICK_NS: u64 = 1_000_000_000_000;

/// An enemy walking the path toward the defended point.
#[derive(Clone, Copy, Debug)]
pub struct Target {
    pub id: u64,
    pub position: Vec3,
    /// Steps per second.
    pub speed: u64,
    /// Index of the waypoint being walked to; the path's length once the goal is reached.
    pub path_index: usize,
    pub health: i64,
    /// Direction of travel on the ground plane (yaw only), not normalized.
    pub heading: Vec2,
}

/// The waypoints every enemy walks, in order.
#[derive(Clone, Debug)]
pub struct TargetPath {
    pub waypoints: Vec<Vec2>,
}

impl Target {
    pub open spec fn wf(self) -> bool {
        self.position.wf() && self.speed <= MAX_SPEED
    }

    /// An enemy at the start of its path, facing nowhere yet.
    pub fn new(id: u64, position: Vec3, speed: u64, health: i64) -> (r: Target)
        ensures
            r.id == id,
            r.position == position,
            r.speed == speed,
            r.path_index == 0,
            r.health == health,
            r.heading == (Vec2 { x: 0, y: 0 }),
    {
        Target { id, position, speed, path_index: 0, health, heading: Vec2 { x: 0, y: 0 } }
    }
}

pub open spec fn path_wf(path: Seq<Vec2>) -> bool {
    forall|i: int| 0 <= i < path.len() ==> #[trigger] path[i].wf()
}

impl TargetPath {
    pub open spec fn wf(&self) -> bool {
        path_wf(self.waypoints@)
    }
}

/// Distance covered at `speed` steps per second in `dt` nanoseconds, rounded down.
pub open spec fn step_distance(speed: int, dt: int) -> int {
    speed * dt / (NANOS_PER_SECOND as int)
}

pub fn step_len(speed: u64, dt_ns: u64) -> (r: u128)
    requires
        speed <= MAX_SPEED,
        dt_ns <= MAX_TICK_NS,
    ensures
        r == step_distance(speed as int, dt_ns as int),
        r <= MAX_STEP,
{
    assert((speed as int) * (dt_ns as int) <= (MAX_SPEED as int) * (MAX_TICK_NS as int))
        by (nonlinear_arith)
        requires
            speed <= MAX_SPEED,
            dt_ns <= MAX_TICK_NS,
    ;
    let r: u128 = (speed as u128) * (dt_ns as u128) / (NANOS_PER_SECOND as u128);
    assert(r <= MAX_STEP) by (nonlinear_arith)
        requires
            r == (speed as int) * (dt_ns as int) / 1_000_000_000int,
            0 <= (speed as int) * (dt_ns as int) <= 1_000_000_000int * 1_000_000_000_000int,
    ;
    r
}

/// What one tick of movement does to an enemy.
///
/// An enemy whose step reaches its current waypoint lands on it and turns to
/// the next one; the rest of the step is dropped. Otherwise it moves the whole
/// step toward the waypoint and faces it. An enemy past the last waypoint
/// stands still.
pub open spec fn move_target_spec(t: Target, path: Seq<Vec2>, dt: int) -> Target {
    if t.path_index >= path.len() {
        t
    } else {
        let wp = path[t.path_index as int];
        let dx = wp.x - t.position.x;
        let dz = wp.y - t.position.z;
        let step = step_distance(t.speed as int, dt);
        if len_sq2(dx, dz) > step * step {
            let len = floor_sqrt(len_sq2(dx, dz));
            Target {
                position: Vec3 {
                    x: (t.position.x + scale_spec(dx, step, len)) as i64,
                    y: t.position.y,
                    z: (t.position.z + scale_spec(dz, step, len)) as i64,
                },
                heading: Vec2 { x: dx as i64, y: dz as i64 },
                ..t
            }
        } else {
            Target {
                position: Vec3 { x: wp.x, y: t.position.y, z: wp.y },
                path_index: (t.path_index + 1) as usize,
                ..t
            }
        }
    }
}

/// Moves one enemy for a tick of `dt_ns` nanoseconds along `path`.
pub fn move_target(t: &Target, path: &Vec<Vec2>, dt_ns: u64) -> (r: Target)
    requires
        t.wf(),
        path_wf(path@),
        dt_ns <= MAX_TICK_NS,
    ensures
        r == move_target_spec(*t, path@, dt_ns as int),
        r.wf(),
{
    if t.path_index >= path.len() {
        return *t;
    }
    let wp = path[t.path_index];
    assert(wp.wf());
    let dx: i64 = wp.x - t.position.x;
    let dz: i64 = wp.y - t.position.z;
    let step = step_len(t.speed, dt_ns);
    assert(dx * dx <= 0x1_0000_0000_0000_0000_0000 && dz * dz <= 0x1_0000_0000_0000_0000_0000)
        by (nonlinear_arith)
        requires
            -2_000_000_000 <= dx <= 2_000_000_000,
            -2_000_000_000 <= dz <= 2_000_000_000,
    ;
    assert(0 <= dx * dx && 0 <= dz * dz) by (nonlinear_arith);
    let len_sq: u128 = ((dx as i128) * (dx as i128) + (dz as i128) * (dz as i128)) as u128;
    assert(step * step <= MAX_STEP * MAX_STEP) by (nonlinear_arith)
        requires
            step <= MAX_STEP,
    ;
    if len_sq > step * step {
        let len = isqrt(len_sq);
        proof {
            assert(step < len + 1) by (nonlinear_arith)
                requires
                    step * step < len_sq < (len + 1) * (len + 1),
                    0 <= step,
                    0 <= len,
            ;
            assert(-(len as int) <= dx <= len && -(len as int) <= dz <= len) by (nonlinear_arith)
                requires
                    len_sq == dx * dx + dz * dz,
                    0 <= dx * dx,
                    0 <= dz * dz,
                    len_sq < (len + 1) * (len + 1),
                    0 <= len,
            ;
            assert(0 < len) by (nonlinear_arith)
                requires
                    0 <= len,
                    0 <= step * step < len_sq < (len + 1) * (len + 1),
            ;
        }
        let mx = scale_component(dx, step, len);
        let mz = scale_component(dz, step, len);
        Target {
            position: Vec3 { x: t.position.x + mx, y: t.position.y, z: t.position.z + mz },
            heading: Vec2 { x: dx, y: dz },
            ..*t
        }
    } else {
        Target {
            position: Vec3 { x: wp.x, y: t.position.y, z: wp.y },
            path_index: t.path_index + 1,
            ..*t
        }
    }
}

/// Moves every enemy for one tick; the order of the enemies is kept.
pub fn move_targets(targets: &mut Vec<Target>, path: &TargetPath, dt_ns: u64)
    requires
        forall|i: int| 0 <= i < old(targets)@.len() ==> (#[trigger] old(targets)@[i]).wf(),
        path.wf(),
        dt_ns <= MAX_TICK_NS,
    ensures
        final(targets)@.len() == old(targets)@.len(),
        forall|i: int|
            0 <= i < old(targets)@.len() ==> #[trigger] final(targets)@[i] == move_target_spec(
                old(targets)@[i],
                path.waypoints@,
                dt_ns as int,
            ),
        forall|i: int| 0 <= i < final(targets)@.len() ==> (#[trigger] final(targets)@[i]).wf(),
{
    let mut moved: Vec<Target> = Vec::new();
    let mut i: usize = 0;
    while i < targets.len()
        invariant
            i <= targets@.len(),
            moved@.len() == i,
            forall|j: int| 0 <= j < targets@.len() ==> (#[trigger] targets@[j]).wf(),
            path.wf(),
            dt_ns <= MAX_TICK_NS,
            forall|j: int|
                0 <= j < i ==> #[trigger] moved@[j] == move_target_spec(
                    targets@[j],
                    path.waypoints@,
                    dt_ns as int,
                ),
            forall|j: int| 0 <= j < i ==> (#[trigger] moved@[j]).wf(),
        decreases targets@.len() - i,
    {
        let t = move_target(&targets[i], &path.waypoints, dt_ns);
        moved.push(t);
        i += 1;
    }
    *targets = moved;
}

/// In one tick the waypoint index stays or goes up by one: it never goes
/// back, and never goes past the path's length, which marks an enemy that
/// has reached the goal.
pub proof fn lemma_path_index_monotone(t: Target, path: Seq<Vec2>, dt: int)
    requires
        t.path_index <= path.len() <= usize::MAX,
    ensures
        t.path_index <= move_target_spec(t, path, dt).path_index <= path.len(),
        move_target_spec(t, path, dt).path_index == t.path_index || move_target_spec(
            t,
            path,
            dt,
        ).path_index == t.path_index + 1,
{
}

} // verus!

verus! {

/// The enemies that are still alive, in order.
pub open spec fn alive_targets(s: Seq<Target>) -> Seq<Target> {
    s.filter(|t: Target| t.health > 0)
}

/// How many enemies have no health left.
pub open spec fn deaths_in(s: Seq<Target>) -> int {
    s.len() - alive_targets(s).len()
}

/// The enemies that have not reached the end of a path of `path_len` waypoints.
pub open spec fn walking_targets(s: Seq<Target>, path_len: int) -> Seq<Target> {
    s.filter(|t: Target| t.path_index < path_len)
}

/// Removes every enemy with no health left and returns how many died: one
/// death event each.
pub fn target_death(targets: &mut Vec<Target>) -> (deaths: u64)
    ensures
        final(targets)@ == alive_targets(old(targets)@),
        deaths == deaths_in(old(targets)@),
{
    let mut kept: Vec<Target> = Vec::new();
    let mut deaths: u64 = 0;
    let mut i: usize = 0;
    while i < targets.len()
        invariant
            i <= targets@.len(),
            kept@ == alive_targets(targets@.take(i as int)),
            deaths == deaths_in(targets@.take(i as int)),
        decreases targets@.len() - i,
    {
        let t = targets[i];
        proof {
            reveal(Seq::filter);
            assert(targets@.take(i + 1).drop_last() =~= targets@.take(i as int));
            assert(targets@.take(i + 1).last() == t);
            targets@.take(i as int).lemma_filter_len(|t: Target| t.health > 0);
        }
        if t.health > 0 {
            kept.push(t);
        } else {
            deaths = deaths + 1;
        }
        i += 1;
    }
    assert(targets@.take(targets@.len() as int) =~= targets@);
    *targets = kept;
    deaths
}

/// What the goal pass did.
#[derive(Clone, Copy, Debug, PartialEq, Eq, Structural)]
pub struct GoalReport {
    /// Enemies that reached the goal and were removed.
    pub reached: u64,
    /// The player's health ran out during this pass.
    pub game_over: bool,
}

/// Removes every enemy that has walked past the last of `path_len` waypoints
/// and takes one health from the player for each, never going below zero.
pub fn hurt_player(targets: &mut Vec<Target>, path_len: usize, player: &mut Player) -> (r:
    GoalReport)
    ensures
        final(targets)@ == walking_targets(old(targets)@, path_len as int),
        r.reached == old(targets)@.len() - final(targets)@.len(),
        final(player).health == debited(old(player).health as int, r.reached as int),
        final(player).money == old(player).money,
        r.game_over == (r.reached > 0 && final(player).health == 0),
{
    let mut kept: Vec<Target> = Vec::new();
    let mut reached: u64 = 0;
    let mut i: usize = 0;
    while i < targets.len()
        invariant
            i <= targets@.len(),
            kept@ == walking_targets(targets@.take(i as int), path_len as int),
            reached == i - kept@.len(),
        decreases targets@.len() - i,
    {
        let t = targets[i];
        proof {
            reveal(Seq::filter);
            assert(targets@.take(i + 1).drop_last() =~= targets@.take(i as int));
            assert(targets@.take(i + 1).last() == t);
            targets@.take(i as int).lemma_filter_len(|t: Target| t.path_index < path_len);
        }
        if t.path_index < path_len {
            kept.push(t);
        } else {
            reached = reached + 1;
        }
        i += 1;
    }
    assert(targets@.take(targets@.len() as int) =~= targets@);
    *targets = kept;
    if (player.health as u64) > reached {
        player.health = player.health - reached as u32;
    } else {
        player.health = 0;
    }
    GoalReport { reached, game_over: reached > 0 && player.health == 0 }
}

/// An enemy reaching the goal costs the player exactly one health (none once
/// it is at zero), and only once: after the goal pass no enemy is left at the
/// goal, so a second pass removes nothing and takes nothing.
pub proof fn lemma_goal_debits_once(s: Seq<Target>, path_len: int, health: int, j: int)
    requires
        0 <= j < s.len(),
        s[j].path_index >= path_len,
        forall|k: int| 0 <= k < s.len() && k != j ==> #[trigger] s[k].path_index < path_len,
        0 <= health,
    ensures
        s.len() - walking_targets(s, path_len).len() == 1,
        debited(health, 1) == if health > 0 {
            health - 1
        } else {
            0
        },
        walking_targets(walking_targets(s, path_len), path_len) == walking_targets(s, path_len),
        debited(debited(health, 1), 0) == debited(health, 1),
{
    let p = |t: Target| t.path_index < path_len;
    lemma_filter_all_but_one(s, p, j);
    lemma_filter_idempotent(s, p);
}

} // verus!
