use vstd::prelude::*;

verus! {

/// One of the ten spell elements: four primary, four blends, and the two
/// that sit at the origin of elemental space.
#[derive(Clone, Copy, Debug, PartialEq, Eq, Hash, Structural)]
pub enum SpellElement {
    Neutral,
    Fire,
    Water,
    Earth,
    Air,
    Metal,
    Plant,
    Electric,
    Ice,
    Light,
}

/// How a spell layer is delivered.
#[derive(Clone, Copy, Debug, PartialEq, Eq, Hash, Structural)]
pub enum SpellShape {
    NoShape,
    Orb,
    Line,
    Burst,
    Scatter,
}

/// Size class of a projectile, from its size factor.
#[derive(Clone, Copy, Debug, PartialEq, Eq, Hash, Structural)]
pub enum SpellSize {
    Tiny,
    Small,
    Normal,
    Large,
}

/// A symbolic token queued by a caster.
#[derive(Clone, Copy, Debug, PartialEq, Eq, Hash, Structural)]
pub enum Rune {
    ElementRune(SpellElement),
    ShapeRune(SpellShape),
}

impl SpellElement {
    /// Fire, Water, Earth and Air: the elements a rune may carry.
    pub open spec fn is_primary(self) -> bool {
        self == SpellElement::Fire || self == SpellElement::Water || self == SpellElement::Earth
            || self == SpellElement::Air
    }

    /// The eight elements with a direction in elemental space.
    pub open spec fn is_compass(self) -> bool {
        self != SpellElement::Neutral && self != SpellElement::Light
    }

    /// Position in the fixed element order, which breaks ties.
    pub open spec fn order(self) -> int {
        match self {
            SpellElement::Neutral => 0,
            SpellElement::Fire => 1,
            SpellElement::Water => 2,
            SpellElement::Earth => 3,
            SpellElement::Air => 4,
            SpellElement::Metal => 5,
            SpellElement::Plant => 6,
            SpellElement::Electric => 7,
            SpellElement::Ice => 8,
            SpellElement::Light => 9,
        }
    }

    /// The anchor of the element in elemental space, before normalisation:
    /// Water along `+x`, Air along `+y`, the blends on the diagonals.
    pub open spec fn anchor(self) -> (int, int) {
        match self {
            SpellElement::Neutral => (0, 0),
            SpellElement::Light => (0, 0),
            SpellElement::Fire => (-1, 0),
            SpellElement::Water => (1, 0),
            SpellElement::Earth => (0, -1),
            SpellElement::Air => (0, 1),
            SpellElement::Metal => (-1, -1),
            SpellElement::Plant => (1, -1),
            SpellElement::Electric => (-1, 1),
            SpellElement::Ice => (1, 1),
        }
    }

    /// Speed multiplier, in tenths.
    pub open spec fn spec_speed_multiplier(self) -> u32 {
        match self {
            SpellElement::Neutral => 10,
            SpellElement::Fire => 10,
            SpellElement::Water => 5,
            SpellElement::Earth => 20,
            SpellElement::Air => 15,
            SpellElement::Metal => 20,
            SpellElement::Plant => 8,
            SpellElement::Electric => 30,
            SpellElement::Ice => 10,
            SpellElement::Light => 30,
        }
    }

    /// Damage multiplier, in tenths.
    pub open spec fn spec_damage_multiplier(self) -> u32 {
        match self {
            SpellElement::Neutral => 0,
            SpellElement::Fire => 10,
            SpellElement::Water => 8,
            SpellElement::Earth => 8,
            SpellElement::Air => 5,
            SpellElement::Metal => 14,
            SpellElement::Plant => 8,
            SpellElement::Electric => 20,
            SpellElement::Ice => 14,
            SpellElement::Light => 50,
        }
    }

    /// Knockback multiplier, in tenths.
    pub open spec fn spec_knockback_multiplier(self) -> u32 {
        match self {
            SpellElement::Neutral => 1,
            SpellElement::Fire => 7,
            SpellElement::Water => 15,
            SpellElement::Earth => 10,
            SpellElement::Air => 18,
            SpellElement::Metal => 10,
            SpellElement::Plant => 25,
            SpellElement::Electric => 1,
            SpellElement::Ice => 18,
            SpellElement::Light => 4,
        }
    }

    /// Speed multiplier, in tenths.
    #[verifier::when_used_as_spec(spec_speed_multiplier)]
    pub fn speed_multiplier(self) -> (r: u32)
        ensures
            r == self.spec_speed_multiplier(),
    {
        match self {
            SpellElement::Neutral => 10,
            SpellElement::Fire => 10,
            SpellElement::Water => 5,
            SpellElement::Earth => 20,
            SpellElement::Air => 15,
            SpellElement::Metal => 20,
            SpellElement::Plant => 8,
            SpellElement::Electric => 30,
            SpellElement::Ice => 10,
            SpellElement::Light => 30,
        }
    }

    /// Damage multiplier, in tenths.
    #[verifier::when_used_as_spec(spec_damage_multiplier)]
    pub fn damage_multiplier(self) -> (r: u32)
        ensures
            r == self.spec_damage_multiplier(),
    {
        match self {
            SpellElement::Neutral => 0,
            SpellElement::Fire => 10,
            SpellElement::Water => 8,
            SpellElement::Earth => 8,
            SpellElement::Air => 5,
            SpellElement::Metal => 14,
            SpellElement::Plant => 8,
            SpellElement::Electric => 20,
            SpellElement::Ice => 14,
            SpellElement::Light => 50,
        }
    }

    /// Knockback multiplier, in tenths.
    #[verifier::when_used_as_spec(spec_knockback_multiplier)]
    pub fn knockback_multiplier(self) -> (r: u32)
        ensures
            r == self.spec_knockback_multiplier(),
    {
        match self {
            SpellElement::Neutral => 1,
            SpellElement::Fire => 7,
            SpellElement::Water => 15,
            SpellElement::Earth => 10,
            SpellElement::Air => 18,
            SpellElement::Metal => 10,
            SpellElement::Plant => 25,
            SpellElement::Electric => 1,
            SpellElement::Ice => 18,
            SpellElement::Light => 4,
        }
    }
}

impl SpellShape {
    /// Damage multiplier of the layer itself, in tenths.
    pub open spec fn spec_damage_multiplier(self) -> u32 {
        match self {
            SpellShape::NoShape => 10,
            SpellShape::Orb => 10,
            SpellShape::Line => 10,
            SpellShape::Burst => 7,
            SpellShape::Scatter => 5,
        }
    }

    /// Multiplier on the mana cost of the layer below, in tenths.
    pub open spec fn spec_cost_multiplier(self) -> u32 {
        match self {
            SpellShape::NoShape => 10,
            SpellShape::Orb => 11,
            SpellShape::Line => 13,
            SpellShape::Burst => 12,
            SpellShape::Scatter => 13,
        }
    }

    /// Multiplier on the power factor of the layer below, in tenths.
    pub open spec fn spec_power_multiplier(self) -> u32 {
        match self {
            SpellShape::NoShape => 12,
            SpellShape::Orb => 10,
            SpellShape::Line => 6,
            SpellShape::Burst => 6,
            SpellShape::Scatter => 3,
        }
    }

    /// Base projectile speed of the layer, in units per second.
    pub open spec fn spec_base_speed(self) -> u32 {
        match self {
            SpellShape::NoShape => 0,
            SpellShape::Orb => 100,
            SpellShape::Line => 0,
            SpellShape::Burst => 200,
            SpellShape::Scatter => 200,
        }
    }

    /// Base knockback of the layer, in units.
    pub open spec fn spec_base_knockback(self) -> u32 {
        match self {
            SpellShape::NoShape => 120,
            _ => 100,
        }
    }

    /// Number of projectiles one cast of the layer spawns.
    pub open spec fn spec_num_projectiles(self) -> u32 {
        match self {
            SpellShape::NoShape | SpellShape::Orb => 1,
            SpellShape::Line | SpellShape::Burst => 3,
            SpellShape::Scatter => 7,
        }
    }

    /// Shapes that chain their sub-spell on impact; the others chain it when
    /// the projectile ends.
    pub open spec fn chains_on_collide(self) -> bool {
        self == SpellShape::NoShape || self == SpellShape::Line
    }

    /// Damage multiplier of the layer itself, in tenths.
    #[verifier::when_used_as_spec(spec_damage_multiplier)]
    pub fn damage_multiplier(self) -> (r: u32)
        ensures
            r == self.spec_damage_multiplier(),
    {
        match self {
            SpellShape::NoShape => 10,
            SpellShape::Orb => 10,
            SpellShape::Line => 10,
            SpellShape::Burst => 7,
            SpellShape::Scatter => 5,
        }
    }

    /// Multiplier on the mana cost of the layer below, in tenths.
    #[verifier::when_used_as_spec(spec_cost_multiplier)]
    pub fn cost_multiplier(self) -> (r: u32)
        ensures
            r == self.spec_cost_multiplier(),
    {
        match self {
            SpellShape::NoShape => 10,
            SpellShape::Orb => 11,
            SpellShape::Line => 13,
            SpellShape::Burst => 12,
            SpellShape::Scatter => 13,
        }
    }

    /// Multiplier on the power factor of the layer below, in tenths.
    #[verifier::when_used_as_spec(spec_power_multiplier)]
    pub fn power_multiplier(self) -> (r: u32)
        ensures
            r == self.spec_power_multiplier(),
    {
        match self {
            SpellShape::NoShape => 12,
            SpellShape::Orb => 10,
            SpellShape::Line => 6,
            SpellShape::Burst => 6,
            SpellShape::Scatter => 3,
        }
    }

    /// Base projectile speed of the layer, in units per second.
    #[verifier::when_used_as_spec(spec_base_speed)]
    pub fn base_speed(self) -> (r: u32)
        ensures
            r == self.spec_base_speed(),
    {
        match self {
            SpellShape::NoShape => 0,
            SpellShape::Orb => 100,
            SpellShape::Line => 0,
            SpellShape::Burst => 200,
            SpellShape::Scatter => 200,
        }
    }

    /// Base knockback of the layer, in units.
    #[verifier::when_used_as_spec(spec_base_knockback)]
    pub fn base_knockback(self) -> (r: u32)
        ensures
            r == self.spec_base_knockback(),
    {
        match self {
            SpellShape::NoShape => 120,
            _ => 100,
        }
    }

    /// Number of projectiles one cast of the layer spawns.
    #[verifier::when_used_as_spec(spec_num_projectiles)]
    pub fn num_projectiles(self) -> (r: u32)
        ensures
            r == self.spec_num_projectiles(),
    {
        match self {
            SpellShape::NoShape | SpellShape::Orb => 1,
            SpellShape::Line | SpellShape::Burst => 3,
            SpellShape::Scatter => 7,
        }
    }
}

impl SpellSize {
    /// Radius of the projectile's collision circle, in units.
    pub open spec fn spec_collide_radius(self) -> u32 {
        match self {
            SpellSize::Tiny => 4,
            SpellSize::Small => 6,
            SpellSize::Normal => 8,
            SpellSize::Large => 12,
        }
    }

    /// Which of the three shadow sprites the projectile casts.
    pub open spec fn spec_shadow_index(self) -> usize {
        match self {
            SpellSize::Tiny | SpellSize::Small => 0,
            SpellSize::Normal => 1,
            SpellSize::Large => 2,
        }
    }

    /// Radius of the projectile's collision circle, in units.
    #[verifier::when_used_as_spec(spec_collide_radius)]
    pub fn collide_radius(self) -> (r: u32)
        ensures
            r == self.spec_collide_radius(),
    {
        match self {
            SpellSize::Tiny => 4,
            SpellSize::Small => 6,
            SpellSize::Normal => 8,
            SpellSize::Large => 12,
        }
    }

    /// Which of the three shadow sprites the projectile casts.
    #[verifier::when_used_as_spec(spec_shadow_index)]
    pub fn shadow_index(self) -> (r: usize)
        ensures
            r == self.spec_shadow_index(),
    {
        match self {
            SpellSize::Tiny | SpellSize::Small => 0,
            SpellSize::Normal => 1,
            SpellSize::Large => 2,
        }
    }
}

impl Rune {
    pub open spec fn is_shape(self) -> bool {
        self is ShapeRune
    }

    /// A rune is well formed when an element it carries is primary.
    pub open spec fn well_formed(self) -> bool {
        match self {
            Rune::ElementRune(e) => e.is_primary(),
            Rune::ShapeRune(_) => true,
        }
    }

    /// Whether the rune is well formed.
    #[verifier::when_used_as_spec(well_formed)]
    pub fn is_well_formed(self) -> (r: bool)
        ensures
            r == self.well_formed(),
    {
        match self {
            Rune::ElementRune(e) => match e {
                SpellElement::Fire | SpellElement::Water | SpellElement::Earth | SpellElement::Air => true,
                _ => false,
            },
            Rune::ShapeRune(_) => true,
        }
    }

    #[verifier::when_used_as_spec(is_shape)]
    pub fn is_shape_rune(self) -> (r: bool)
        ensures
            r == self.is_shape(),
    {
        match self {
            Rune::ShapeRune(_) => true,
            Rune::ElementRune(_) => false,
        }
    }
}

} // verus!
