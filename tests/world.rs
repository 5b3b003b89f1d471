use tower_defense::game::{toggle_inspector_egui, tower_ui_action, TowerUiAction};
use tower_defense::{
    Bullet, GameError, GameState, InspectorState, Lifetime, Player, Target, TargetPath, Timer,
    TimerMode, TowerType, Vec2, Vec3, World,
};

fn gameplay_world() -> World {
    let mut w = World::new();
    w.state = GameState::Gameplay;
    w.path = TargetPath { waypoints: vec![Vec2::new(0, 100_000)] };
    w.player = Some(Player { money: 100, health: 10 });
    w.next_id = 50;
    w
}

fn still_target(id: u64, position: Vec3, health: i64) -> Target {
    Target::new(id, position, 0, health)
}

#[test]
fn new_world_is_empty_at_the_main_menu() {
    let w = World::new();
    assert_eq!(w.state, GameState::MainMenu);
    assert!(w.towers.is_empty() && w.targets.is_empty() && w.bullets.is_empty());
    assert!(w.player.is_none());
    assert_eq!(w.player(), Err(GameError::MissingPlayer));
}

#[test]
fn starting_lays_out_the_basic_level() {
    let mut w = World::new();
    assert_eq!(w.start_game(), Ok(()));
    assert_eq!(w.state, GameState::Gameplay);
    assert_eq!(
        w.path.waypoints,
        vec![Vec2::new(6000, 2000), Vec2::new(6000, 6000), Vec2::new(9000, 9000)]
    );
    assert_eq!(w.towers.len(), 1);
    assert_eq!(w.towers[0].id, 0);
    assert_eq!(w.towers[0].shooting_timer.duration_ns, 1_000_000_000);
    assert_eq!(w.towers[0].bullet_offset, Vec3::new(0, 200, 500));
    assert_eq!(w.targets.len(), 2);
    assert_eq!(w.targets[0].position, Vec3::new(-2000, 200, 1500));
    assert_eq!(w.targets[1].position, Vec3::new(-4000, 200, 1500));
    assert_eq!(w.targets[0].health, 3);
    assert_eq!(w.targets[0].speed, 300);
    assert_eq!(w.player(), Ok(Player { money: 100, health: 10 }));
    assert_eq!(w.next_id, 3);
    assert_eq!(w.start_game(), Err(GameError::WrongState));
}

#[test]
fn starting_without_free_identities_is_refused() {
    let mut w = World::new();
    w.next_id = u64::MAX - 2;
    assert_eq!(w.start_game(), Err(GameError::IdsExhausted));
    assert_eq!(w.state, GameState::MainMenu);
}

#[test]
fn main_menu_tick_does_nothing() {
    let mut w = World::new();
    w.targets.push(still_target(1, Vec3::new(0, 0, 0), 0));
    let r = w.tick(100_000_000);
    assert_eq!(r.deaths, 0);
    assert_eq!(w.targets.len(), 1);
}

#[test]
fn expired_projectile_changes_no_health() {
    let mut w = gameplay_world();
    w.targets.push(still_target(1, Vec3::new(-50_000, 0, -50_000), 3));
    w.bullets.push(Bullet {
        id: 9,
        owner: None,
        position: Vec3::new(0, 0, 0),
        direction: Vec3::new(1, 0, 0),
        speed: 3500,
        damage: 1,
        lifetime: Lifetime { timer: Timer::new(500_000_000, TimerMode::Once) },
    });
    let r = w.tick(250_000_000);
    assert_eq!(r.expired, 0);
    assert_eq!(w.bullets.len(), 1);
    assert_eq!(w.bullets[0].position, Vec3::new(875, 0, 0));
    let r = w.tick(250_000_000);
    assert_eq!(r.expired, 1);
    assert_eq!(r.hits, 0);
    assert!(w.bullets.is_empty());
    assert_eq!(w.targets[0].health, 3);
    assert_eq!(w.player().unwrap().health, 10);
}

#[test]
fn hit_enemy_dies_next_tick_and_pays_out() {
    let mut w = gameplay_world();
    w.targets.push(still_target(1, Vec3::new(100, 0, 0), 1));
    w.bullets.push(Bullet {
        id: 9,
        owner: None,
        position: Vec3::new(0, 0, 0),
        direction: Vec3::new(0, 0, 0),
        speed: 0,
        damage: 1,
        lifetime: Lifetime { timer: Timer::new(10_000_000_000, TimerMode::Once) },
    });
    let r = w.tick(10_000_000);
    assert_eq!(r.hits, 1);
    assert_eq!(r.deaths, 0);
    assert_eq!(w.targets[0].health, 0);
    let r = w.tick(10_000_000);
    assert_eq!(r.deaths, 1);
    assert_eq!(r.paid, 1);
    assert!(w.targets.is_empty());
    assert_eq!(w.player().unwrap().money, 110);
    let r = w.tick(10_000_000);
    assert_eq!(r.deaths, 0);
    assert_eq!(w.player().unwrap().money, 110);
}

#[test]
fn deaths_wait_for_a_missing_player() {
    let mut w = gameplay_world();
    w.player = None;
    w.targets.push(still_target(1, Vec3::new(100, 0, 0), 0));
    let r = w.tick(10_000_000);
    assert!(r.missing_player);
    assert_eq!(r.deaths, 1);
    assert_eq!(r.paid, 0);
    assert_eq!(w.pending_deaths, 1);
    w.player = Some(Player { money: 0, health: 10 });
    let r = w.tick(10_000_000);
    assert_eq!(r.paid, 1);
    assert_eq!(w.pending_deaths, 0);
    assert_eq!(w.player().unwrap().money, 10);
}

#[test]
fn empty_path_is_reported() {
    let mut w = gameplay_world();
    w.path = TargetPath { waypoints: Vec::new() };
    w.targets.push(still_target(1, Vec3::new(100, 0, 0), 3));
    let r = w.tick(10_000_000);
    assert!(r.missing_path);
    assert_eq!(r.reached_goal, 0);
    assert_eq!(w.targets.len(), 1);
    assert_eq!(w.player().unwrap().health, 10);
}

#[test]
fn enemy_reaching_the_goal_hurts_the_player_in_a_tick() {
    let mut w = gameplay_world();
    w.path = TargetPath {
        waypoints: vec![Vec2::new(0, 0), Vec2::new(0, 10), Vec2::new(0, 20)],
    };
    let mut t = still_target(1, Vec3::new(0, 0, 20), 3);
    t.path_index = 2;
    t.speed = 1000;
    w.targets.push(t);
    let r = w.tick(100_000_000);
    assert_eq!(r.reached_goal, 1);
    assert!(w.targets.is_empty());
    assert_eq!(w.player().unwrap().health, 9);
    let r = w.tick(100_000_000);
    assert_eq!(r.reached_goal, 0);
    assert_eq!(w.player().unwrap().health, 9);
}

#[test]
fn towers_fire_projectiles_with_fresh_identities() {
    let mut w = World::new();
    w.start_game().unwrap();
    let mut fired = 0u64;
    for _ in 0..10 {
        let r = w.tick(100_000_000);
        fired += r.shots;
    }
    assert_eq!(fired, 1);
    assert_eq!(w.bullets.len(), 1);
    assert_eq!(w.bullets[0].id, 3);
    assert_eq!(w.bullets[0].owner, Some(0));
    assert_eq!(w.bullets[0].speed, 3500);
    assert_eq!(w.next_id, 4);
}

#[test]
fn teardown_removes_every_entity() {
    let mut w = World::new();
    w.start_game().unwrap();
    assert!(w.build_tower(TowerType::Tomato, Vec3::new(3000, 0, 3000)).is_ok());
    for _ in 0..10 {
        w.tick(100_000_000);
    }
    assert!(!w.bullets.is_empty());
    w.exit_gameplay();
    assert_eq!(w.state, GameState::MainMenu);
    assert!(w.towers.is_empty());
    assert!(w.targets.is_empty());
    assert!(w.bullets.is_empty());
    assert!(w.player.is_none());
    assert!(w.path.waypoints.is_empty());
    let ids = w.next_id;
    w.exit_gameplay();
    assert_eq!(w.next_id, ids);
}

#[test]
fn building_charges_the_cost() {
    let mut w = World::new();
    w.start_game().unwrap();
    assert_eq!(w.build_tower(TowerType::Tomato, Vec3::new(1000, 0, 1000)), Ok(3));
    assert_eq!(w.player().unwrap().money, 50);
    assert_eq!(w.towers.len(), 2);
    assert_eq!(w.towers[1].kind, TowerType::Tomato);
    assert_eq!(w.towers[1].position, Vec3::new(1000, 0, 1000));
    assert_eq!(w.build_tower(TowerType::Potato, Vec3::new(0, 0, 0)), Err(GameError::CannotAfford));
    assert_eq!(w.player().unwrap().money, 50);
    assert_eq!(w.towers.len(), 2);
}

#[test]
fn building_errors() {
    let mut w = World::new();
    assert_eq!(w.build_tower(TowerType::Tomato, Vec3::new(0, 0, 0)), Err(GameError::WrongState));
    let mut w = gameplay_world();
    assert_eq!(
        w.build_tower(TowerType::Tomato, Vec3::new(2_000_000_000, 0, 0)),
        Err(GameError::OutOfWorld)
    );
    w.next_id = u64::MAX;
    assert_eq!(w.build_tower(TowerType::Tomato, Vec3::new(0, 0, 0)), Err(GameError::IdsExhausted));
    w.player = None;
    assert_eq!(w.build_tower(TowerType::Tomato, Vec3::new(0, 0, 0)), Err(GameError::MissingPlayer));
}

#[test]
fn affordability_follows_the_cost() {
    let p = Player { money: 80, health: 1 };
    assert!(p.can_afford(TowerType::Tomato));
    assert!(p.can_afford(TowerType::Potato));
    assert!(!p.can_afford(TowerType::Cabbage));
}

#[test]
fn inspector_toggles_on_key_press() {
    assert_eq!(toggle_inspector_egui(InspectorState::On, true), InspectorState::Off);
    assert_eq!(toggle_inspector_egui(InspectorState::Off, true), InspectorState::On);
    assert_eq!(toggle_inspector_egui(InspectorState::On, false), InspectorState::On);
}

#[test]
fn tower_menu_follows_the_selection() {
    assert_eq!(tower_ui_action(true, false), TowerUiAction::Remove);
    assert_eq!(tower_ui_action(false, true), TowerUiAction::Create);
    assert_eq!(tower_ui_action(true, true), TowerUiAction::Keep);
    assert_eq!(tower_ui_action(false, false), TowerUiAction::Keep);
}
