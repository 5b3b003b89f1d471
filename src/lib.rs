//! Simulation core of a small tower-defense game.
//!
//! Positions are fixed-point integers (`UNIT` steps per world unit) and time
//! is counted in nanoseconds, so that every rule of the game is exact and
//! proved: enemies follow a waypoint path, towers pick the nearest enemy in
//! range when their cooldown elapses, projectiles fly, hit at most one enemy
//! and expire, and deaths and goal arrivals drive the player's ledger.
pub mod bullet;
pub mod game;
pub mod geometry;
pub mod player;
pub mod seqs;
pub mod target;
pub mod timer;
pub mod tower;

pub use bullet::{bullet_collision, bullet_despawn, move_bullets, Bullet, Lifetime};
pub use game::{GameError, GameState, InspectorState, TickReport, World};
pub use geometry::{Vec2, Vec3};
pub use player::Player;
pub use target::{Target, TargetPath};
pub use timer::{Timer, TimerMode};
pub use tower::{Shot, Tower, TowerType};
