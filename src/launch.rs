use vstd::prelude::*;
use crate::runes::SpellShape;
use crate::spells::SpellData;

verus! {

/// Which way a projectile leaves the caster, relative to the aim direction.
#[derive(Clone, Copy, Debug, PartialEq, Eq, Structural)]
pub enum Heading {
    /// Along the aim direction.
    Aim,
    /// The aim direction turned by this many steps of 30 degrees.
    Turned(i32),
    /// A uniformly random heading scaled by 0.9, plus the aim direction,
    /// renormalised.
    RandomAroundAim,
}

/// One projectile to spawn for a spell.
#[derive(Debug)]
pub struct ProjectileSpawn {
    pub heading: Heading,
    /// Speed in thousandths of a unit per second.
    pub speed: u64,
    /// Radius of the projectile's collision circle, in units.
    pub radius: u32,
    /// The spell the projectile carries.
    pub spell: SpellData,
}

/// Heading of the projectile in slot `idx` of a spell of shape `shape`: a
/// Burst fans out in 30-degree steps around the aim, a Scatter sprays at
/// random, the others follow the aim.
pub open spec fn heading_of(shape: SpellShape, idx: int) -> Heading {
    match shape {
        SpellShape::Burst => Heading::Turned((idx - 1) as i32),
        SpellShape::Scatter => Heading::RandomAroundAim,
        _ => Heading::Aim,
    }
}

/// Speed, in thousandths, of the projectile in slot `idx` for a spell speed
/// in tenths. A Line trails: each slot is 0.8 times as fast as the one
/// before, the middle slot at the spell's speed.
pub open spec fn launch_speed(shape: SpellShape, speed: u32, idx: int) -> nat {
    let base = speed as nat * 100;
    if shape == SpellShape::Line {
        if idx == 0 {
            base * 5 / 4
        } else if idx == 1 {
            base
        } else {
            base * 4 / 5
        }
    } else {
        base
    }
}

/// The projectiles one spell spawns: as many as its shape calls for, each
/// with its heading and speed, the collision radius of the spell's size, and
/// a copy of the spell.
pub fn create_projectiles(spell: &SpellData) -> (r: Vec<ProjectileSpawn>)
    ensures
        r@.len() == spell.shape.spec_num_projectiles(),
        forall|i: int|
            0 <= i < r@.len() ==> {
                &&& (#[trigger] r@[i]).heading == heading_of(spell.shape, i)
                &&& r@[i].speed == launch_speed(spell.shape, spell.speed, i)
                &&& r@[i].radius == spell.size.spec_collide_radius()
                &&& r@[i].spell == *spell
            },
{
    let n = spell.shape.num_projectiles();
    let radius = spell.size.collide_radius();
    let base = spell.speed as u64 * 100;
    let mut out: Vec<ProjectileSpawn> = Vec::new();
    let mut idx: u32 = 0;
    while idx < n
        invariant
            n == spell.shape.spec_num_projectiles(),
            n <= 7,
            idx <= n,
            radius == spell.size.spec_collide_radius(),
            base == spell.speed as nat * 100,
            out@.len() == idx,
            forall|i: int|
                0 <= i < idx ==> {
                    &&& (#[trigger] out@[i]).heading == heading_of(spell.shape, i)
                    &&& out@[i].speed == launch_speed(spell.shape, spell.speed, i)
                    &&& out@[i].radius == radius
                    &&& out@[i].spell == *spell
                },
        decreases n - idx,
    {
        let heading = match spell.shape {
            SpellShape::Burst => Heading::Turned(idx as i32 - 1),
            SpellShape::Scatter => Heading::RandomAroundAim,
            _ => Heading::Aim,
        };
        let speed = match spell.shape {
            SpellShape::Line => {
                if idx == 0 {
                    base * 5 / 4
                } else if idx == 1 {
                    base
                } else {
                    base * 4 / 5
                }
            },
            _ => base,
        };
        out.push(ProjectileSpawn { heading, speed, radius, spell: spell.duplicate() });
        idx = idx + 1;
    }
    out
}

} // verus!
