//! Entity kinds.

use vstd::prelude::*;

verus! {

/// Entity id type.
pub type EntityId = i32;

/// Entity types.
#[derive(Debug, Clone, Copy, PartialEq, Eq, Structural)]
pub enum EntityType {
    /// Player entity.
    Player,
    /// Generic mob.
    Mob(MobType),
    /// Item entity.
    Item,
    /// Experience orb.
    ExperienceOrb,
    /// Projectile.
    Projectile(ProjectileType),
}

/// Mob types.
#[derive(Debug, Clone, Copy, PartialEq, Eq, Structural)]
pub enum MobType {
    /// Zombie.
    Zombie,
    /// Skeleton.
    Skeleton,
    /// Creeper.
    Creeper,
    /// Spider.
    Spider,
    /// Cow.
    Cow,
    /// Pig.
    Pig,
    /// Sheep.
    Sheep,
    /// Chicken.
    Chicken,
}

/// Projectile types.
#[derive(Debug, Clone, Copy, PartialEq, Eq, Structural)]
pub enum ProjectileType {
    /// Arrow.
    Arrow,
    /// Snowball.
    Snowball,
    /// Fireball.
    Fireball,
}

} // verus!
