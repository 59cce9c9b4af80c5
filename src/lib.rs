//! Spell composition and resolution for a rune-casting action game.
//!
//! Runes queued by a caster compile into a tree of spell layers; the layers
//! become projectiles whose collisions with enemies apply damage, knockback
//! and chained sub-spells. Every quantity is held in exact integer units.

pub mod numeric;
pub mod runes;
pub mod element;
pub mod spells;
pub mod queue;
pub mod theorems;
pub mod combat;
pub mod launch;
pub mod player;
pub mod collision;
pub mod knockback;
pub mod animation;
pub mod sprites;
pub mod inventory;

pub use collision::{Collider, Point, resolve_collisions, resolve_collisions_symmetric};
pub use combat::{
    ChainRequest, EnemyHealth, HitReport, despawn_spells, process_spell_enemy_collisions,
};
pub use knockback::{EnemyKnockbackComponent, Vector, knockback_post_update, knockback_pre_update};
pub use launch::{Heading, ProjectileSpawn, create_projectiles};
pub use player::{
    CastInput, CastOutcome, PlayerHealth, PlayerMana, PlayerState, update_spell_casting,
};
pub use queue::{EquippedRunes, RuneCastQueue};
pub use runes::{Rune, SpellElement, SpellShape, SpellSize};
pub use spells::{ROOT_POWER, SpellData, compile};
