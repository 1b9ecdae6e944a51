//! Core of a real-time combat simulation.
//!
//! The world is an arena of entities (`entity`) advanced by a fixed
//! per-tick pipeline (`engine`): cooldown timers expire (`cooldown`),
//! directional input becomes movement (`movement`), the player's combo
//! state machine triggers and performs attacks (`shield`, with the
//! high-priority counter strike in `counter_attack`), projectiles collide
//! (`projectile`), pending area attacks resolve against exact integer
//! geometry (`geom`, `attack`) into per-entity hits, and damage, the
//! health lock and death are applied in a fixed order (`health`, `soul`).
//!
//! Every stage is specified as a function of the arena and the executable
//! pipeline is proved equal to the composition of those functions; the
//! properties the pipeline is built around (self-exclusion of attackers,
//! at most one hit per entity and attack, the damage floor, locked health
//! never dying, combo windows expiring) are stated and proved alongside
//! the stages they concern.
//!
//! `saves` and `crypto` hold the snapshot a save subsystem persists and
//! the cipher that seals it.

pub mod attack;
pub mod cooldown;
pub mod counter_attack;
pub mod crypto;
pub mod engine;
pub mod entity;
pub mod geom;
pub mod health;
pub mod movement;
pub mod projectile;
pub mod saves;
pub mod shield;
pub mod soul;
