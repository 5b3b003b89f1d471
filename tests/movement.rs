use tower_defense::bullet::move_bullet;
use tower_defense::target::{move_target, move_targets};
use tower_defense::{Bullet, Lifetime, Target, TargetPath, Timer, TimerMode, Vec2, Vec3};

fn bullet_at(position: Vec3, direction: Vec3, speed: u64, lifetime_ns: u64) -> Bullet {
    Bullet {
        id: 1,
        owner: None,
        position,
        direction,
        speed,
        damage: 1,
        lifetime: Lifetime { timer: Timer::new(lifetime_ns, TimerMode::Once) },
    }
}

#[test]
fn enemy_moves_a_full_step_toward_its_waypoint() {
    let t = Target::new(1, Vec3::new(0, 200, 0), 1000, 3);
    let path = vec![Vec2::new(3000, 4000)];
    let m = move_target(&t, &path, 1_000_000_000);
    assert_eq!(m.position, Vec3::new(600, 200, 800));
    assert_eq!(m.heading, Vec2::new(3000, 4000));
    assert_eq!(m.path_index, 0);
}

#[test]
fn enemy_lands_on_waypoint_and_drops_the_overshoot() {
    let t = Target::new(1, Vec3::new(0, 200, 0), 1000, 3);
    let path = vec![Vec2::new(300, 400), Vec2::new(300, 10_000)];
    let m = move_target(&t, &path, 1_000_000_000);
    assert_eq!(m.position, Vec3::new(300, 200, 400));
    assert_eq!(m.path_index, 1);
}

#[test]
fn enemy_past_the_last_waypoint_stands_still() {
    let mut t = Target::new(1, Vec3::new(5, 6, 7), 1000, 3);
    t.path_index = 1;
    let m = move_target(&t, &vec![Vec2::new(0, 0)], 1_000_000_000);
    assert_eq!(m.position, Vec3::new(5, 6, 7));
    assert_eq!(m.path_index, 1);
}

#[test]
fn waypoint_index_never_decreases_nor_passes_the_path_length() {
    let path = TargetPath {
        waypoints: vec![Vec2::new(6000, 2000), Vec2::new(6000, 6000), Vec2::new(9000, 9000)],
    };
    let mut targets = vec![
        Target::new(1, Vec3::new(-2000, 200, 1500), 300, 3),
        Target::new(2, Vec3::new(-4000, 200, 1500), 700, 3),
    ];
    let mut last = vec![0usize, 0usize];
    for _ in 0..2000 {
        move_targets(&mut targets, &path, 100_000_000);
        for (k, t) in targets.iter().enumerate() {
            assert!(t.path_index >= last[k]);
            assert!(t.path_index <= path.waypoints.len());
            last[k] = t.path_index;
        }
    }
    assert_eq!(last, vec![3, 3]);
}

#[test]
fn bullet_moves_along_its_direction() {
    let b = bullet_at(Vec3::new(0, 0, 0), Vec3::new(3000, 0, 4000), 3500, 10_000_000_000);
    let m = move_bullet(&b, 1_000_000_000);
    assert_eq!(m.position, Vec3::new(2100, 0, 2800));
    assert_eq!(m.direction, Vec3::new(3000, 0, 4000));
}

#[test]
fn bullet_without_direction_stays_put() {
    let b = bullet_at(Vec3::new(10, 20, 30), Vec3::new(0, 0, 0), 3500, 10_000_000_000);
    let m = move_bullet(&b, 1_000_000_000);
    assert_eq!(m.position, Vec3::new(10, 20, 30));
}

#[test]
fn bullet_is_held_inside_the_world() {
    let b = bullet_at(Vec3::new(999_999_000, 0, 0), Vec3::new(1, 0, 0), 1_000_000_000, 10_000_000_000);
    let m = move_bullet(&b, 1_000_000_000);
    assert_eq!(m.position, Vec3::new(1_000_000_000, 0, 0));
}
