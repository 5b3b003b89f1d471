//! The game world: scene state, setup and teardown, and the per-tick pipeline.
use vstd::prelude::*;

use crate::bullet::{
    bullet_collision, bullet_despawn, collide_targets, missed_bullets, move_bullet_spec,
    move_bullets, unexpired, Bullet,
};
use crate::geometry::{Vec2, Vec3};
use crate::player::{credited, debited, give_money_on_kill, lemma_credited_twice, Player};
use crate::target::{
    alive_targets, deaths_in, hurt_player, move_target_spec, move_targets, path_wf, target_death,
    walking_targets, Target, TargetPath, MAX_TICK_NS,
};
use crate::tower::{shots_of, spawned, tick_tower, tower_shooting, Shot, Tower, TowerType};

verus! {

/// The coarse scene the game is in.
#[derive(Clone, Copy, Debug, PartialEq, Eq, Structural)]
pub enum GameState {
    MainMenu,
    Gameplay,
}

/// Whether the debug inspector is shown.
#[derive(Clone, Copy, Debug, PartialEq, Eq, Structural)]
pub enum InspectorState {
    On,
    Off,
}

/// The inspector's state after a frame in which its key was or was not pressed.
pub fn toggle_inspector_egui(current: InspectorState, key_pressed: bool) -> (r: InspectorState)
    ensures
        !key_pressed ==> r == current,
        key_pressed ==> r != current,
{
    if !key_pressed {
        current
    } else {
        match current {
            InspectorState::On => InspectorState::Off,
            InspectorState::Off => InspectorState::On,
        }
    }
}

/// Everything the simulation holds.
pub struct World {
    pub state: GameState,
    pub path: TargetPath,
    pub towers: Vec<Tower>,
    pub targets: Vec<Target>,
    pub bullets: Vec<Bullet>,
    /// The single player; absent outside a game.
    pub player: Option<Player>,
    /// Deaths not yet paid out to the player.
    pub pending_deaths: u64,
    /// The identity the next spawned entity gets.
    pub next_id: u64,
}

/// The world as values.
pub struct WorldView {
    pub state: GameState,
    pub path: Seq<Vec2>,
    pub towers: Seq<Tower>,
    pub targets: Seq<Target>,
    pub bullets: Seq<Bullet>,
    pub player: Option<Player>,
    pub pending_deaths: u64,
    pub next_id: u64,
}

impl View for World {
    type V = WorldView;

    open spec fn view(&self) -> WorldView {
        WorldView {
            state: self.state,
            path: self.path.waypoints@,
            towers: self.towers@,
            targets: self.targets@,
            bullets: self.bullets@,
            player: self.player,
            pending_deaths: self.pending_deaths,
            next_id: self.next_id,
        }
    }
}

impl WorldView {
    pub open spec fn wf(self) -> bool {
        &&& path_wf(self.path)
        &&& forall|i: int| 0 <= i < self.towers.len() ==> (#[trigger] self.towers[i]).wf()
        &&& forall|i: int|
            0 <= i < self.targets.len() ==> (#[trigger] self.targets[i]).wf()
                && self.targets[i].path_index <= self.path.len()
        &&& forall|i: int| 0 <= i < self.bullets.len() ==> (#[trigger] self.bullets[i]).wf()
    }
}

/// What a tick did, for the presentation layer.
#[derive(Clone, Copy, Debug, PartialEq, Eq, Structural)]
pub struct TickReport {
    /// Enemies reaped for having no health left.
    pub deaths: u64,
    /// Enemies that reached the goal and hurt the player.
    pub reached_goal: u64,
    /// The player's health ran out on this tick.
    pub game_over: bool,
    /// Projectiles fired.
    pub shots: u64,
    /// Projectiles that hit an enemy.
    pub hits: u64,
    /// Projectiles whose lifetime ran out.
    pub expired: u64,
    /// Death events paid out to the player.
    pub paid: u64,
    /// The player was missing: the goal pass and the payout were skipped.
    pub missing_player: bool,
    /// The path has no waypoint: movement and the goal pass were skipped.
    pub missing_path: bool,
}

/// Enemies after moving, when there is a path to move along.
pub open spec fn moved_targets(v: WorldView, dt: int) -> Seq<Target> {
    if v.path.len() == 0 {
        v.targets
    } else {
        v.targets.map_values(|t: Target| move_target_spec(t, v.path, dt))
    }
}

/// Enemies after the death pass and, when there are a player and a path, the goal pass.
pub open spec fn surviving_targets(v: WorldView, dt: int) -> Seq<Target> {
    let alive = alive_targets(moved_targets(v, dt));
    if v.player is Some && v.path.len() > 0 {
        walking_targets(alive, v.path.len() as int)
    } else {
        alive
    }
}

pub open spec fn ticked_towers(v: WorldView, dt: int) -> Seq<Tower> {
    v.towers.map_values(|t: Tower| tick_tower(t, dt))
}

pub open spec fn tick_shots(v: WorldView, dt: int) -> Seq<Shot> {
    shots_of(ticked_towers(v, dt), surviving_targets(v, dt))
}

pub open spec fn flown_bullets(v: WorldView, dt: int) -> Seq<Bullet> {
    v.bullets.map_values(|b: Bullet| move_bullet_spec(b, dt))
}

/// Whether a tick can number every projectile it might fire.
pub open spec fn ids_available(v: WorldView) -> bool {
    v.next_id + v.towers.len() <= u64::MAX
}

/// The world after one tick of `dt` nanoseconds of gameplay, in the order:
/// movement, deaths, goal, target choice and firing, projectile flight, hits
/// and expiry, new projectiles, payout.
pub open spec fn tick_view(v: WorldView, dt: int) -> WorldView {
    let deaths = deaths_in(moved_targets(v, dt));
    let alive = alive_targets(moved_targets(v, dt));
    let targets = surviving_targets(v, dt);
    let player = match v.player {
        Some(p) => {
            let reached = alive.len() - targets.len();
            let hurt = Player { health: debited(p.health as int, reached) as u32, ..p };
            Some(
                Player {
                    money: credited(hurt.money as int, v.pending_deaths + deaths) as u32,
                    ..hurt
                },
            )
        },
        None => None,
    };
    let shots = tick_shots(v, dt);
    let flown = flown_bullets(v, dt);
    WorldView {
        state: v.state,
        path: v.path,
        towers: ticked_towers(v, dt),
        targets: collide_targets(flown, targets),
        bullets: unexpired(missed_bullets(flown, targets), dt) + spawned(shots, v.next_id as int),
        player,
        pending_deaths: if v.player is Some {
            0
        } else if v.pending_deaths + deaths > u64::MAX {
            u64::MAX
        } else {
            (v.pending_deaths + deaths) as u64
        },
        next_id: (v.next_id + shots.len()) as u64,
    }
}

} // verus!

verus! {

pub open spec fn empty_report() -> TickReport {
    TickReport {
        deaths: 0,
        reached_goal: 0,
        game_over: false,
        shots: 0,
        hits: 0,
        expired: 0,
        paid: 0,
        missing_player: false,
        missing_path: false,
    }
}

proof fn lemma_targets_wf(s: Seq<Target>, p: spec_fn(Target) -> bool, n: int)
    requires
        forall|i: int| 0 <= i < s.len() ==> (#[trigger] s[i]).wf() && s[i].path_index <= n,
    ensures
        forall|i: int|
            0 <= i < s.filter(p).len() ==> (#[trigger] s.filter(p)[i]).wf() && s.filter(p)[i].path_index
                <= n,
{
    let q = |t: Target| t.wf() && t.path_index <= n;
    assert forall|i: int| 0 <= i < s.len() implies q(#[trigger] s[i]) by {}
    crate::seqs::lemma_filter_all(s, p, q);
    assert forall|i: int| 0 <= i < s.filter(p).len() implies (#[trigger] s.filter(p)[i]).wf()
        && s.filter(p)[i].path_index <= n by {
        assert(q(s.filter(p)[i]));
    }
}

impl World {
    /// Runs one tick of `dt_ns` nanoseconds. Outside gameplay nothing runs.
    /// A missing player or an empty path is reported, and only the passes
    /// that need them are skipped; deaths that cannot be paid out yet wait
    /// for a later tick.
    pub fn tick(&mut self, dt_ns: u64) -> (r: TickReport)
        requires
            old(self)@.wf(),
            dt_ns <= MAX_TICK_NS,
            ids_available(old(self)@),
        ensures
            final(self)@.wf(),
            old(self).state == GameState::MainMenu ==> final(self)@ == old(self)@ && r
                == empty_report(),
            old(self).state == GameState::Gameplay ==> {
                &&& final(self)@ == tick_view(old(self)@, dt_ns as int)
                &&& r.deaths == deaths_in(moved_targets(old(self)@, dt_ns as int))
                &&& r.reached_goal == alive_targets(moved_targets(old(self)@, dt_ns as int)).len()
                    - surviving_targets(old(self)@, dt_ns as int).len()
                &&& r.game_over == (r.reached_goal > 0 && final(self).player is Some
                    && final(self).player->0.health == 0)
                &&& r.shots == tick_shots(old(self)@, dt_ns as int).len()
                &&& r.hits == old(self).bullets@.len() - missed_bullets(
                    flown_bullets(old(self)@, dt_ns as int),
                    surviving_targets(old(self)@, dt_ns as int),
                ).len()
                &&& r.expired == missed_bullets(
                    flown_bullets(old(self)@, dt_ns as int),
                    surviving_targets(old(self)@, dt_ns as int),
                ).len() - unexpired(
                    missed_bullets(
                        flown_bullets(old(self)@, dt_ns as int),
                        surviving_targets(old(self)@, dt_ns as int),
                    ),
                    dt_ns as int,
                ).len()
                &&& r.paid == if old(self).player is Some {
                    if old(self).pending_deaths + r.deaths > u64::MAX {
                        u64::MAX as int
                    } else {
                        old(self).pending_deaths + r.deaths
                    }
                } else {
                    0
                }
                &&& r.missing_player == old(self).player is None
                &&& r.missing_path == (old(self).path.waypoints@.len() == 0)
            },
    {
        if self.state != GameState::Gameplay {
            return TickReport {
                deaths: 0,
                reached_goal: 0,
                game_over: false,
                shots: 0,
                hits: 0,
                expired: 0,
                paid: 0,
                missing_player: false,
                missing_path: false,
            };
        }
        let ghost v0 = self@;
        let path_len = self.path.waypoints.len();
        let missing_path = path_len == 0;
        let missing_player = self.player.is_none();
        // Movement.
        if !missing_path {
            move_targets(&mut self.targets, &self.path, dt_ns);
            proof {
                assert(self.targets@ =~= v0.targets.map_values(
                    |t: Target| move_target_spec(t, v0.path, dt_ns as int),
                ));
                assert forall|i: int| 0 <= i < self.targets@.len() implies self.targets@[i].path_index
                    <= path_len by {
                    crate::target::lemma_path_index_monotone(v0.targets[i], v0.path, dt_ns as int);
                }
            }
        }
        assert(self.targets@ == moved_targets(v0, dt_ns as int));
        // Deaths.
        proof {
            lemma_targets_wf(self.targets@, |t: Target| t.health > 0, path_len as int);
        }
        let deaths = target_death(&mut self.targets);
        // Goal.
        let mut reached: u64 = 0;
        let mut game_over = false;
        if !missing_path {
            match self.player {
                Some(p0) => {
                    let mut p = p0;
                    proof {
                        lemma_targets_wf(
                            self.targets@,
                            |t: Target| t.path_index < path_len,
                            path_len as int,
                        );
                    }
                    let g = hurt_player(&mut self.targets, path_len, &mut p);
                    self.player = Some(p);
                    reached = g.reached;
                    game_over = g.game_over;
                },
                None => {},
            }
        }
        assert(self.targets@ == surviving_targets(v0, dt_ns as int));
        // Target choice and firing.
        let mut fired = tower_shooting(&mut self.towers, &self.targets, dt_ns, self.next_id);
        assert(self.towers@ =~= ticked_towers(v0, dt_ns as int));
        // Projectiles.
        move_bullets(&mut self.bullets, dt_ns);
        let ghost before_hits = self.targets@;
        let hits = bullet_collision(&mut self.bullets, &mut self.targets);
        assert forall|i: int| 0 <= i < self.targets@.len() implies self.targets@[i].path_index
            <= path_len by {
            assert(self.targets@[i] == (Target { health: self.targets@[i].health, ..before_hits[i] }));
        }
        let expired = bullet_despawn(&mut self.bullets, dt_ns);
        let shots = fired.len() as u64;
        self.bullets.append(&mut fired);
        self.next_id = self.next_id + shots;
        // Payout.
        let mut paid: u64 = 0;
        match self.player {
            Some(p0) => {
                let mut p = p0;
                give_money_on_kill(&mut p, self.pending_deaths);
                give_money_on_kill(&mut p, deaths);
                proof {
                    lemma_credited_twice(p0.money as int, v0.pending_deaths as int, deaths as int);
                }
                self.player = Some(p);
                paid = self.pending_deaths.saturating_add(deaths);
                self.pending_deaths = 0;
            },
            None => {
                self.pending_deaths = self.pending_deaths.saturating_add(deaths);
            },
        }
        proof {
            let w = tick_view(v0, dt_ns as int);
            assert(self@.towers == w.towers);
            assert(self@.targets == w.targets);
            assert(self@.bullets == w.bullets);
            assert(self@.player == w.player);
            assert(self@.pending_deaths == w.pending_deaths);
            assert(self@.next_id == w.next_id);
            assert(self@ == w);
        }
        TickReport {
            deaths,
            reached_goal: reached,
            game_over,
            shots,
            hits,
            expired,
            paid,
            missing_player,
            missing_path,
        }
    }
}

} // verus!

verus! {

/// Why a command was refused.
#[derive(Clone, Copy, Debug, PartialEq, Eq, Structural)]
pub enum GameError {
    /// The command does not apply in the current scene.
    WrongState,
    /// There is no player.
    MissingPlayer,
    /// The player cannot pay for the tower.
    CannotAfford,
    /// The position lies outside the world.
    OutOfWorld,
    /// Every entity identity has been used.
    IdsExhausted,
}

/// Waypoints of the basic level.
pub open spec fn basic_path() -> Seq<Vec2> {
    seq![Vec2 { x: 6000, y: 2000 }, Vec2 { x: 6000, y: 6000 }, Vec2 { x: 9000, y: 9000 }]
}

/// Cooldown of the basic level's tower, in nanoseconds.
pub const BASIC_TOWER_COOLDOWN_NS: u64 = 1_000_000_000;

/// Speed of the basic level's enemies, in steps per second.
pub const BASIC_TARGET_SPEED: u64 = 300;

/// Health of the basic level's enemies.
pub const BASIC_TARGET_HEALTH: i64 = 3;

pub open spec fn basic_tower(id: u64) -> Tower {
    Tower {
        id,
        position: Vec3 { x: 0, y: 0, z: 0 },
        kind: TowerType::Tomato,
        shooting_timer: crate::timer::Timer::spec_new(
            BASIC_TOWER_COOLDOWN_NS,
            crate::timer::TimerMode::Repeating,
        ),
        bullet_offset: Vec3 { x: 0, y: 200, z: 500 },
        range: None,
    }
}

pub open spec fn basic_target(id: u64, x: i64) -> Target {
    Target {
        id,
        position: Vec3 { x, y: 200, z: 1500 },
        speed: BASIC_TARGET_SPEED,
        path_index: 0,
        health: BASIC_TARGET_HEALTH,
        heading: Vec2 { x: 0, y: 0 },
    }
}

/// The basic level as the game starts, its entities numbered from `next_id` on.
pub open spec fn basic_scene(next_id: u64) -> WorldView {
    WorldView {
        state: GameState::Gameplay,
        path: basic_path(),
        towers: seq![basic_tower(next_id)],
        targets: seq![
            basic_target((next_id + 1) as u64, -2000i64),
            basic_target((next_id + 2) as u64, -4000i64),
        ],
        bullets: Seq::empty(),
        player: Some(Player { money: crate::player::STARTING_MONEY, health: crate::player::STARTING_HEALTH }),
        pending_deaths: 0,
        next_id: (next_id + 3) as u64,
    }
}

/// The world with nothing in it, where `next_id` is where numbering goes on.
pub open spec fn torn_down(v: WorldView, state: GameState) -> WorldView {
    WorldView {
        state,
        path: Seq::empty(),
        towers: Seq::empty(),
        targets: Seq::empty(),
        bullets: Seq::empty(),
        player: None,
        pending_deaths: 0,
        next_id: v.next_id,
    }
}

impl World {
    /// An empty world at the main menu.
    pub fn new() -> (r: World)
        ensures
            r@ == torn_down(r@, GameState::MainMenu),
            r.next_id == 0,
            r@.wf(),
    {
        World {
            state: GameState::MainMenu,
            path: TargetPath { waypoints: Vec::new() },
            towers: Vec::new(),
            targets: Vec::new(),
            bullets: Vec::new(),
            player: None,
            pending_deaths: 0,
            next_id: 0,
        }
    }

    /// Lays out the basic level: its path, its tower, two enemies and the
    /// player, replacing whatever the world held.
    pub fn spawn_basic_scene(&mut self)
        requires
            old(self).next_id + 3 <= u64::MAX,
        ensures
            final(self)@ == basic_scene(old(self).next_id),
            final(self)@.wf(),
    {
        let id = self.next_id;
        let mut waypoints: Vec<Vec2> = Vec::new();
        waypoints.push(Vec2 { x: 6000, y: 2000 });
        waypoints.push(Vec2 { x: 6000, y: 6000 });
        waypoints.push(Vec2 { x: 9000, y: 9000 });
        let mut towers: Vec<Tower> = Vec::new();
        towers.push(
            Tower {
                id,
                position: Vec3 { x: 0, y: 0, z: 0 },
                kind: TowerType::Tomato,
                shooting_timer: crate::timer::Timer::new(
                    BASIC_TOWER_COOLDOWN_NS,
                    crate::timer::TimerMode::Repeating,
                ),
                bullet_offset: Vec3 { x: 0, y: 200, z: 500 },
                range: None,
            },
        );
        let mut targets: Vec<Target> = Vec::new();
        targets.push(
            Target::new(id + 1, Vec3 { x: -2000, y: 200, z: 1500 }, BASIC_TARGET_SPEED, BASIC_TARGET_HEALTH),
        );
        targets.push(
            Target::new(id + 2, Vec3 { x: -4000, y: 200, z: 1500 }, BASIC_TARGET_SPEED, BASIC_TARGET_HEALTH),
        );
        self.state = GameState::Gameplay;
        self.path = TargetPath { waypoints };
        self.towers = towers;
        self.targets = targets;
        self.bullets = Vec::new();
        self.player = Some(Player::new());
        self.pending_deaths = 0;
        self.next_id = id + 3;
        assert(self@.path =~= basic_path());
        assert(self@.towers =~= seq![basic_tower(id)]);
        assert(self@.targets =~= seq![basic_target((id + 1) as u64, -2000i64), basic_target((id + 2) as u64, -4000i64)]);
        assert(self@.bullets =~= Seq::<Bullet>::empty());
    }

    /// Starts a game from the main menu: the basic level is laid out and the
    /// world enters gameplay.
    pub fn start_game(&mut self) -> (r: Result<(), GameError>)
        ensures
            old(self).state != GameState::MainMenu ==> r == Err::<(), GameError>(
                GameError::WrongState,
            ) && final(self)@ == old(self)@,
            old(self).state == GameState::MainMenu && old(self).next_id + 3 > u64::MAX ==> r
                == Err::<(), GameError>(GameError::IdsExhausted) && final(self)@ == old(self)@,
            old(self).state == GameState::MainMenu && old(self).next_id + 3 <= u64::MAX ==> r
                == Ok::<(), GameError>(()) && final(self)@ == basic_scene(old(self).next_id),
            r is Ok ==> final(self)@.wf(),
    {
        if self.state != GameState::MainMenu {
            return Err(GameError::WrongState);
        }
        if self.next_id > u64::MAX - 3 {
            return Err(GameError::IdsExhausted);
        }
        self.spawn_basic_scene();
        Ok(())
    }

    /// Leaves gameplay for the main menu: every tower, enemy, projectile and
    /// the player are removed, whatever they were doing, and the path is
    /// dropped. Outside gameplay nothing changes.
    pub fn exit_gameplay(&mut self)
        ensures
            old(self).state == GameState::Gameplay ==> final(self)@ == torn_down(
                old(self)@,
                GameState::MainMenu,
            ),
            old(self).state != GameState::Gameplay ==> final(self)@ == old(self)@,
            old(self).state == GameState::Gameplay ==> final(self).towers@.len() == 0
                && final(self).targets@.len() == 0 && final(self).bullets@.len() == 0
                && final(self).player is None,
    {
        if self.state != GameState::Gameplay {
            return;
        }
        self.towers.clear();
        self.targets.clear();
        self.bullets.clear();
        self.path.waypoints.clear();
        self.player = None;
        self.pending_deaths = 0;
        self.state = GameState::MainMenu;
        assert(self@ =~= torn_down(old(self)@, GameState::MainMenu));
    }

    /// The player, or an error when there is none.
    pub fn player(&self) -> (r: Result<Player, GameError>)
        ensures
            self.player matches Some(p) ==> r == Ok::<Player, GameError>(p),
            self.player is None ==> r == Err::<Player, GameError>(GameError::MissingPlayer),
    {
        match self.player {
            Some(p) => Ok(p),
            None => Err(GameError::MissingPlayer),
        }
    }
}

} // verus!

verus! {

/// What to do with the tower-building menu after a frame.
#[derive(Clone, Copy, Debug, PartialEq, Eq, Structural)]
pub enum TowerUiAction {
    Keep,
    Create,
    Remove,
}

/// The menu is shown exactly while some building spot is selected: it is
/// created when a spot gets selected and removed when none is.
pub fn tower_ui_action(menu_shown: bool, any_selected: bool) -> (r: TowerUiAction)
    ensures
        menu_shown && !any_selected ==> r == TowerUiAction::Remove,
        !menu_shown && any_selected ==> r == TowerUiAction::Create,
        menu_shown == any_selected ==> r == TowerUiAction::Keep,
{
    if menu_shown && !any_selected {
        TowerUiAction::Remove
    } else if !menu_shown && any_selected {
        TowerUiAction::Create
    } else {
        TowerUiAction::Keep
    }
}

impl Player {
    /// Whether the player has the money for a tower of this kind.
    pub fn can_afford(&self, kind: TowerType) -> (r: bool)
        ensures
            r == (self.money >= crate::tower::cost_of(kind)),
    {
        self.money >= kind.cost()
    }
}

impl World {
    /// Builds a tower of `kind` at `position`, charging its cost, and returns
    /// the new tower's identity.
    pub fn build_tower(&mut self, kind: TowerType, position: Vec3) -> (r: Result<u64, GameError>)
        requires
            old(self)@.wf(),
        ensures
            final(self)@.wf(),
            old(self).state != GameState::Gameplay ==> r == Err::<u64, GameError>(
                GameError::WrongState,
            ),
            old(self).state == GameState::Gameplay && old(self).player is None ==> r == Err::<
                u64,
                GameError,
            >(GameError::MissingPlayer),
            old(self).state == GameState::Gameplay && old(self).player is Some && !position.wf()
                ==> r == Err::<u64, GameError>(GameError::OutOfWorld),
            old(self).state == GameState::Gameplay && old(self).player is Some && position.wf()
                && old(self).player->0.money < crate::tower::cost_of(kind) ==> r == Err::<
                u64,
                GameError,
            >(GameError::CannotAfford),
            old(self).state == GameState::Gameplay && old(self).player is Some && position.wf()
                && old(self).player->0.money >= crate::tower::cost_of(kind) && old(self).next_id
                == u64::MAX ==> r == Err::<u64, GameError>(GameError::IdsExhausted),
            old(self).state == GameState::Gameplay && old(self).player is Some && position.wf()
                && old(self).player->0.money >= crate::tower::cost_of(kind) && old(self).next_id
                < u64::MAX ==> r is Ok,
            r is Err ==> final(self)@ == old(self)@,
            r matches Ok(id) ==> {
                &&& id == old(self).next_id
                &&& final(self)@ == (WorldView {
                    towers: old(self)@.towers.push(
                        Tower {
                            id,
                            position,
                            kind,
                            shooting_timer: crate::timer::Timer::spec_new(
                                crate::tower::TOWER_COOLDOWN_NS,
                                crate::timer::TimerMode::Repeating,
                            ),
                            bullet_offset: Vec3 { x: 0, y: crate::tower::TOWER_MUZZLE_HEIGHT, z: 0 },
                            range: None,
                        },
                    ),
                    player: Some(
                        Player {
                            money: (old(self).player->0.money - crate::tower::cost_of(kind)) as u32,
                            ..old(self).player->0
                        },
                    ),
                    next_id: (id + 1) as u64,
                    ..old(self)@
                })
            },
    {
        if self.state != GameState::Gameplay {
            return Err(GameError::WrongState);
        }
        let mut p = match self.player {
            Some(p) => p,
            None => {
                return Err(GameError::MissingPlayer);
            },
        };
        let w: i64 = crate::geometry::WORLD_LIMIT;
        if position.x < -w || position.x > w || position.y < -w || position.y > w || position.z
            < -w || position.z > w {
            return Err(GameError::OutOfWorld);
        }
        if !p.can_afford(kind) {
            return Err(GameError::CannotAfford);
        }
        if self.next_id == u64::MAX {
            return Err(GameError::IdsExhausted);
        }
        let id = self.next_id;
        let t = kind.get_tower(id, position);
        self.towers.push(t);
        p.money = p.money - kind.cost();
        self.player = Some(p);
        self.next_id = id + 1;
        proof {
            assert(self@ =~= (WorldView {
                towers: old(self)@.towers.push(t),
                player: Some(p),
                next_id: (id + 1) as u64,
                ..old(self)@
            }));
        }
        Ok(id)
    }
}

} // verus!

verus! {

proof fn lemma_filter_within(s: Seq<Target>, p: spec_fn(Target) -> bool, k: int)
    requires
        0 <= k < s.filter(p).len(),
    ensures
        exists|i: int| 0 <= i < s.len() && s[i] == s.filter(p)[k],
{
    let q = |x: Target| s.contains(x);
    assert forall|i: int| 0 <= i < s.len() implies q(#[trigger] s[i]) by {
        assert(s.contains(s[i]));
    }
    crate::seqs::lemma_filter_all(s, p, q);
    assert(q(s.filter(p)[k]));
}

/// Across a tick, no enemy's waypoint index goes back or past the path's
/// length: every enemy left after the tick was, before it, an enemy of the
/// same identity whose index was the same or one less. With a player and a
/// path, every enemy left is short of the goal: those that reached it were
/// removed.
pub proof fn lemma_tick_path_index(v: WorldView, dt: int, k: int)
    requires
        v.wf(),
        v.path.len() <= usize::MAX,
        0 <= k < tick_view(v, dt).targets.len(),
    ensures
        tick_view(v, dt).targets[k].path_index <= v.path.len(),
        v.player is Some && v.path.len() > 0 ==> tick_view(v, dt).targets[k].path_index
            < v.path.len(),
        exists|i: int|
            0 <= i < v.targets.len() && v.targets[i].id == tick_view(v, dt).targets[k].id && (
            v.targets[i].path_index == tick_view(v, dt).targets[k].path_index
                || v.targets[i].path_index + 1 == tick_view(v, dt).targets[k].path_index),
{
    let moved = moved_targets(v, dt);
    let alive = alive_targets(moved);
    let surv = surviving_targets(v, dt);
    let fin = tick_view(v, dt).targets;
    crate::bullet::lemma_collide_positions(flown_bullets(v, dt), surv);
    assert(fin[k] == (Target { health: fin[k].health, ..surv[k] }));
    let a: int;
    if v.player is Some && v.path.len() > 0 {
        lemma_filter_within(alive, |t: Target| t.path_index < v.path.len() as int, k);
        alive.lemma_filter_pred(|t: Target| t.path_index < v.path.len() as int, k);
        a = choose|i: int| 0 <= i < alive.len() && alive[i] == surv[k];
    } else {
        a = k;
    }
    assert(alive[a] == surv[k]);
    lemma_filter_within(moved, |t: Target| t.health > 0, a);
    let m = choose|i: int| 0 <= i < moved.len() && moved[i] == alive[a];
    assert(v.targets[m].path_index <= v.path.len());
    if v.path.len() > 0 {
        crate::target::lemma_path_index_monotone(v.targets[m], v.path, dt);
    }
    assert(v.targets[m].id == fin[k].id);
}

} // verus!
