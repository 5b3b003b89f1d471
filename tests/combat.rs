use tower_defense::bullet::bullet_collision;
use tower_defense::player::give_money_on_kill;
use tower_defense::target::{hurt_player, target_death};
use tower_defense::tower::{select_target, tower_shooting};
use tower_defense::{
    bullet_despawn, Bullet, Lifetime, Player, Target, Timer, TimerMode, Tower, TowerType, Vec3,
};

fn bullet_at(position: Vec3, lifetime_ns: u64) -> Bullet {
    Bullet {
        id: 100,
        owner: None,
        position,
        direction: Vec3::new(1000, 0, 0),
        speed: 3500,
        damage: 1,
        lifetime: Lifetime { timer: Timer::new(lifetime_ns, TimerMode::Once) },
    }
}

fn target_at(id: u64, x: i64, health: i64) -> Target {
    Target::new(id, Vec3::new(x, 0, 0), 0, health)
}

#[test]
fn nearest_enemy_in_range_is_chosen() {
    let muzzle = Vec3::new(0, 0, 0);
    let targets = vec![target_at(1, 5000, 3), target_at(2, 2000, 3), target_at(3, 8000, 3)];
    assert_eq!(select_target(&muzzle, &targets, Some(10_000)), Some(1));
    assert_eq!(select_target(&muzzle, &targets, None), Some(1));
}

#[test]
fn enemies_out_of_range_are_ignored() {
    let muzzle = Vec3::new(0, 0, 0);
    let targets = vec![target_at(1, 5000, 3), target_at(2, 2000, 3), target_at(3, 8000, 3)];
    assert_eq!(select_target(&muzzle, &targets, Some(1500)), None);
    // The range is strict: an enemy exactly at the range is out of it.
    assert_eq!(select_target(&muzzle, &targets, Some(2000)), None);
    assert_eq!(select_target(&muzzle, &targets, Some(2001)), Some(1));
    assert_eq!(select_target(&muzzle, &Vec::new(), None), None);
}

#[test]
fn equally_near_enemies_go_to_the_first() {
    let muzzle = Vec3::new(0, 0, 0);
    let targets = vec![target_at(1, 5000, 3), target_at(2, -3000, 3), target_at(3, 3000, 3)];
    assert_eq!(select_target(&muzzle, &targets, None), Some(1));
}

#[test]
fn tower_fires_once_per_cooldown_at_the_nearest_enemy() {
    let mut towers = vec![TowerType::Potato.get_tower(7, Vec3::new(0, 0, 0))];
    let targets = vec![target_at(1, 5000, 3), target_at(2, 2000, 3)];
    let mut fired_at = Vec::new();
    for k in 1..=10u64 {
        let bullets = tower_shooting(&mut towers, &targets, 100_000_000, 40 + k);
        assert!(bullets.len() <= 1);
        if let Some(b) = bullets.first() {
            assert_eq!(b.id, 40 + k);
            assert_eq!(b.owner, Some(7));
            assert_eq!(b.position, Vec3::new(0, 600, 0));
            // The unit vector toward (2000, -600, 0), in thousandths.
            assert_eq!(b.direction, Vec3::new(957, -287, 0));
            assert_eq!(b.speed, 6500);
            assert_eq!(b.damage, 1);
            assert_eq!(b.lifetime.timer.duration_ns, 10_000_000_000);
            assert_eq!(b.lifetime.timer.mode, TimerMode::Once);
            assert_eq!(b.lifetime.timer.elapsed_ns, 0);
            fired_at.push(k);
        }
    }
    assert_eq!(fired_at, vec![5, 10]);
}

fn open_tower(cooldown_ns: u64, range: Option<u64>) -> Tower {
    Tower {
        id: 7,
        position: Vec3::new(0, 0, 0),
        kind: TowerType::Tomato,
        shooting_timer: Timer::new(cooldown_ns, TimerMode::Repeating),
        bullet_offset: Vec3::new(0, 0, 0),
        range,
    }
}

#[test]
fn shot_direction_is_a_unit_vector_toward_the_nearest_enemy() {
    let mut towers = vec![open_tower(500_000_000, Some(10_000))];
    let targets = vec![target_at(1, 5000, 3), target_at(2, 2000, 3), target_at(3, 8000, 3)];
    let bullets = tower_shooting(&mut towers, &targets, 500_000_000, 0);
    assert_eq!(bullets.len(), 1);
    assert_eq!(bullets[0].direction, Vec3::new(1000, 0, 0));
}

#[test]
fn uneven_ticks_never_fire_twice_within_a_period() {
    let mut towers = vec![open_tower(1_000_000_000, None)];
    let targets = vec![target_at(1, 2000, 3)];
    let fired: Vec<usize> = [990_000_000u64, 990_000_000, 20_000_000, 970_000_000, 10_000_000]
        .iter()
        .map(|dt| tower_shooting(&mut towers, &targets, *dt, 0).len())
        .collect();
    assert_eq!(fired, vec![0, 1, 0, 0, 1]);
}

#[test]
fn idle_cooldown_does_not_pile_up_shots() {
    let mut towers = vec![open_tower(500_000_000, None)];
    let targets = vec![target_at(1, 2000, 3)];
    assert_eq!(tower_shooting(&mut towers, &targets, 5_000_000_000, 0).len(), 1);
    assert_eq!(towers[0].shooting_timer.elapsed_ns, 0);
    assert_eq!(tower_shooting(&mut towers, &targets, 100_000_000, 1).len(), 0);
}

#[test]
fn tower_with_no_enemy_does_not_fire() {
    let mut towers = vec![TowerType::Tomato.get_tower(7, Vec3::new(0, 0, 0))];
    let bullets = tower_shooting(&mut towers, &Vec::new(), 600_000_000, 0);
    assert!(bullets.is_empty());
    assert!(towers[0].shooting_timer.just_finished());
    assert_eq!(towers[0].shooting_timer.elapsed_ns, 0);
}

#[test]
fn bullet_stats_follow_the_tower_kind() {
    let tower = TowerType::Cabbage.get_tower(3, Vec3::new(0, 0, 0));
    assert_eq!(tower.shooting_timer.duration_ns, 500_000_000);
    assert_eq!(tower.range, None);
    assert_eq!(TowerType::Tomato.bullet_speed(), 3500);
    assert_eq!(TowerType::Potato.bullet_speed(), 6500);
    assert_eq!(TowerType::Cabbage.bullet_speed(), 2500);
    assert_eq!(TowerType::Tomato.cost(), 50);
    assert_eq!(TowerType::Potato.cost(), 80);
    assert_eq!(TowerType::Cabbage.cost(), 110);
}

#[test]
fn projectile_expires_after_its_lifetime_without_hitting() {
    let mut bullets = vec![bullet_at(Vec3::new(0, 0, 0), 500_000_000)];
    let mut targets = vec![target_at(1, 900_000, 3)];
    assert_eq!(bullet_collision(&mut bullets, &mut targets), 0);
    assert_eq!(bullet_despawn(&mut bullets, 250_000_000), 0);
    assert_eq!(bullets.len(), 1);
    assert_eq!(bullet_collision(&mut bullets, &mut targets), 0);
    assert_eq!(bullet_despawn(&mut bullets, 250_000_000), 1);
    assert!(bullets.is_empty());
    assert_eq!(targets[0].health, 3);
}

#[test]
fn projectile_hits_only_the_first_enemy_in_reach() {
    let mut bullets = vec![bullet_at(Vec3::new(0, 0, 0), 10_000_000_000)];
    let mut targets = vec![target_at(1, 100, 3), target_at(2, 200, 3), target_at(3, 5000, 3)];
    assert_eq!(bullet_collision(&mut bullets, &mut targets), 1);
    assert!(bullets.is_empty());
    assert_eq!(targets[0].health, 2);
    assert_eq!(targets[1].health, 3);
    assert_eq!(targets[2].health, 3);
}

#[test]
fn collision_radius_is_strict() {
    let mut bullets = vec![bullet_at(Vec3::new(0, 0, 0), 10_000_000_000)];
    let mut targets = vec![target_at(1, 500, 3)];
    assert_eq!(bullet_collision(&mut bullets, &mut targets), 0);
    assert_eq!(bullets.len(), 1);
    assert_eq!(targets[0].health, 3);
}

#[test]
fn two_projectiles_on_one_enemy_both_hit() {
    let mut bullets = vec![bullet_at(Vec3::new(0, 0, 0), 1), bullet_at(Vec3::new(10, 0, 0), 1)];
    let mut targets = vec![target_at(1, 100, 3)];
    assert_eq!(bullet_collision(&mut bullets, &mut targets), 2);
    assert_eq!(targets[0].health, 1);
}

#[test]
fn killed_enemy_is_reaped_once_and_pays_the_reward() {
    let mut bullets = vec![bullet_at(Vec3::new(0, 0, 0), 10_000_000_000)];
    let mut targets = vec![target_at(1, 100, 1), target_at(2, 9000, 3)];
    bullet_collision(&mut bullets, &mut targets);
    assert_eq!(targets[0].health, 0);
    let deaths = target_death(&mut targets);
    assert_eq!(deaths, 1);
    assert_eq!(targets.len(), 1);
    assert_eq!(targets[0].id, 2);
    let mut player = Player { money: 100, health: 10 };
    give_money_on_kill(&mut player, deaths);
    assert_eq!(player.money, 110);
    assert_eq!(player.health, 10);
    assert_eq!(target_death(&mut targets), 0);
}

#[test]
fn money_is_held_at_its_largest_value() {
    let mut player = Player { money: u32::MAX - 5, health: 10 };
    give_money_on_kill(&mut player, 1);
    assert_eq!(player.money, u32::MAX);
    let mut player = Player { money: 0, health: 10 };
    give_money_on_kill(&mut player, 3);
    assert_eq!(player.money, 30);
}

#[test]
fn enemy_at_the_goal_costs_one_health_once() {
    let mut done = target_at(1, 0, 3);
    done.path_index = 3;
    let mut walking = target_at(2, 0, 3);
    walking.path_index = 2;
    let mut targets = vec![done, walking];
    let mut player = Player { money: 100, health: 10 };
    let r = hurt_player(&mut targets, 3, &mut player);
    assert_eq!(r.reached, 1);
    assert!(!r.game_over);
    assert_eq!(player.health, 9);
    assert_eq!(player.money, 100);
    assert_eq!(targets.len(), 1);
    assert_eq!(targets[0].id, 2);
    let again = hurt_player(&mut targets, 3, &mut player);
    assert_eq!(again.reached, 0);
    assert_eq!(player.health, 9);
}

#[test]
fn goal_damage_stops_at_zero_and_ends_the_game() {
    let mut t = target_at(1, 0, 3);
    t.path_index = 3;
    let mut targets = vec![t, t];
    let mut player = Player { money: 0, health: 1 };
    let r = hurt_player(&mut targets, 3, &mut player);
    assert_eq!(r.reached, 2);
    assert!(r.game_over);
    assert_eq!(player.health, 0);
    let mut targets = vec![t];
    let r = hurt_player(&mut targets, 3, &mut player);
    assert_eq!(player.health, 0);
    assert!(r.game_over);
    assert!(targets.is_empty());
}

#[test]
fn tower_keeps_its_offset_muzzle() {
    let t: Tower = TowerType::Tomato.get_tower(1, Vec3::new(1000, 0, 2000));
    assert_eq!(tower_defense::tower::muzzle(&t), Vec3::new(1000, 600, 2000));
}
