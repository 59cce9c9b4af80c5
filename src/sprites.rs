use vstd::prelude::*;
use vstd::string::StringExecFns;
use crate::runes::{SpellElement, SpellSize};

verus! {

/// Layout of a projectile sprite sheet: tile width and height in pixels,
/// then columns and rows of tiles.
#[derive(Clone, Copy, Debug, PartialEq, Eq, Structural)]
pub struct SpellSpriteDimensions(pub usize, pub usize, pub usize, pub usize);

/// Sheet layout for each element and size: 16 by 16 tiles, four across and
/// one down, but for a few larger or shorter sheets.
pub open spec fn spec_sprite_dimensions(element: SpellElement, size: SpellSize) -> SpellSpriteDimensions {
    match (element, size) {
        (SpellElement::Fire, SpellSize::Tiny) => SpellSpriteDimensions(8, 8, 4, 1),
        (SpellElement::Fire, SpellSize::Normal) => SpellSpriteDimensions(16, 24, 4, 1),
        (SpellElement::Fire, SpellSize::Large) => SpellSpriteDimensions(16, 32, 4, 1),
        (SpellElement::Metal, SpellSize::Normal) => SpellSpriteDimensions(16, 16, 2, 1),
        (SpellElement::Plant, SpellSize::Normal) => SpellSpriteDimensions(20, 20, 4, 1),
        (SpellElement::Light, SpellSize::Normal) => SpellSpriteDimensions(20, 20, 4, 1),
        _ => SpellSpriteDimensions(16, 16, 4, 1),
    }
}

/// The sheet layout of the projectile sprite for an element and size.
pub fn get_spell_sprite_dimensions(element: SpellElement, size: SpellSize) -> (r:
    SpellSpriteDimensions)
    ensures
        r == spec_sprite_dimensions(element, size),
{
    match (element, size) {
        (SpellElement::Fire, SpellSize::Tiny) => SpellSpriteDimensions(8, 8, 4, 1),
        (SpellElement::Fire, SpellSize::Normal) => SpellSpriteDimensions(16, 24, 4, 1),
        (SpellElement::Fire, SpellSize::Large) => SpellSpriteDimensions(16, 32, 4, 1),
        (SpellElement::Metal, SpellSize::Normal) => SpellSpriteDimensions(16, 16, 2, 1),
        (SpellElement::Plant, SpellSize::Normal) => SpellSpriteDimensions(20, 20, 4, 1),
        (SpellElement::Light, SpellSize::Normal) => SpellSpriteDimensions(20, 20, 4, 1),
        _ => SpellSpriteDimensions(16, 16, 4, 1),
    }
}

/// The name of an element in asset file names.
pub open spec fn element_asset_name(element: SpellElement) -> Seq<char> {
    match element {
        SpellElement::Neutral => "neutral"@,
        SpellElement::Fire => "fire"@,
        SpellElement::Water => "water"@,
        SpellElement::Earth => "earth"@,
        SpellElement::Air => "air"@,
        SpellElement::Metal => "metal"@,
        SpellElement::Plant => "plant"@,
        SpellElement::Electric => "electricity"@,
        SpellElement::Ice => "ice"@,
        SpellElement::Light => "light"@,
    }
}

/// The name of a size in asset file names.
pub open spec fn size_asset_name(size: SpellSize) -> Seq<char> {
    match size {
        SpellSize::Tiny => "tiny"@,
        SpellSize::Small => "small"@,
        SpellSize::Normal => "normal"@,
        SpellSize::Large => "large"@,
    }
}

/// The asset path of a projectile sprite sheet: `spells/<element>-<size>.png`.
pub open spec fn spec_sprite_asset_path(element: SpellElement, size: SpellSize) -> Seq<char> {
    "spells/"@ + element_asset_name(element) + "-"@ + size_asset_name(size) + ".png"@
}

fn element_name(element: SpellElement) -> (r: &'static str)
    ensures
        r@ == element_asset_name(element),
{
    match element {
        SpellElement::Neutral => {
            proof {
                reveal_strlit("neutral");
            }
            "neutral"
        },
        SpellElement::Fire => {
            proof {
                reveal_strlit("fire");
            }
            "fire"
        },
        SpellElement::Water => {
            proof {
                reveal_strlit("water");
            }
            "water"
        },
        SpellElement::Earth => {
            proof {
                reveal_strlit("earth");
            }
            "earth"
        },
        SpellElement::Air => {
            proof {
                reveal_strlit("air");
            }
            "air"
        },
        SpellElement::Metal => {
            proof {
                reveal_strlit("metal");
            }
            "metal"
        },
        SpellElement::Plant => {
            proof {
                reveal_strlit("plant");
            }
            "plant"
        },
        SpellElement::Electric => {
            proof {
                reveal_strlit("electricity");
            }
            "electricity"
        },
        SpellElement::Ice => {
            proof {
                reveal_strlit("ice");
            }
            "ice"
        },
        SpellElement::Light => {
            proof {
                reveal_strlit("light");
            }
            "light"
        },
    }
}

fn size_name(size: SpellSize) -> (r: &'static str)
    ensures
        r@ == size_asset_name(size),
{
    match size {
        SpellSize::Tiny => {
            proof {
                reveal_strlit("tiny");
            }
            "tiny"
        },
        SpellSize::Small => {
            proof {
                reveal_strlit("small");
            }
            "small"
        },
        SpellSize::Normal => {
            proof {
                reveal_strlit("normal");
            }
            "normal"
        },
        SpellSize::Large => {
            proof {
                reveal_strlit("large");
            }
            "large"
        },
    }
}

/// The asset path of the projectile sprite sheet for an element and size.
pub fn get_sprite_asset_path(element: SpellElement, size: SpellSize) -> (r: String)
    ensures
        r@ == spec_sprite_asset_path(element, size),
{
    let mut path = String::from_str("spells/");
    path.append(element_name(element));
    path.append("-");
    path.append(size_name(size));
    path.append(".png");
    path
}

} // verus!
