use rune_spells::player::{update_take_damage, ContactHit};
use rune_spells::sprites::{get_spell_sprite_dimensions, get_sprite_asset_path, SpellSpriteDimensions};
use rune_spells::{PlayerHealth, SpellElement, SpellSize};

#[test]
fn sprite_sheets_by_element_and_size() {
    assert_eq!(
        get_spell_sprite_dimensions(SpellElement::Fire, SpellSize::Large),
        SpellSpriteDimensions(16, 32, 4, 1)
    );
    assert_eq!(
        get_spell_sprite_dimensions(SpellElement::Metal, SpellSize::Normal),
        SpellSpriteDimensions(16, 16, 2, 1)
    );
    assert_eq!(
        get_spell_sprite_dimensions(SpellElement::Ice, SpellSize::Tiny),
        SpellSpriteDimensions(16, 16, 4, 1)
    );
    assert_eq!(get_sprite_asset_path(SpellElement::Electric, SpellSize::Small), "spells/electricity-small.png");
    assert_eq!(get_sprite_asset_path(SpellElement::Neutral, SpellSize::Large), "spells/neutral-large.png");
}

#[test]
fn first_damaging_contact_hits_once() {
    let mut h = PlayerHealth::new(1);
    let hit = update_take_damage(false, true, &mut h, &vec![None, Some(0), Some(3), Some(2)]);
    assert_eq!(hit, Some(ContactHit { contact: 2, defeated: false }));
    assert_eq!(h.health, 1);
    let hit = update_take_damage(false, true, &mut h, &vec![Some(5)]);
    assert_eq!(hit, Some(ContactHit { contact: 0, defeated: true }));
    assert_eq!(h.health, -4);
    let hit = update_take_damage(false, true, &mut h, &vec![Some(5)]);
    assert_eq!(hit, Some(ContactHit { contact: 0, defeated: false }));
    assert_eq!(h.health, -9);
}

#[test]
fn intangible_or_paused_player_takes_nothing() {
    let mut h = PlayerHealth::new(2);
    assert_eq!(update_take_damage(false, false, &mut h, &vec![Some(5)]), None);
    assert_eq!(update_take_damage(true, true, &mut h, &vec![Some(5)]), None);
    assert_eq!(update_take_damage(false, true, &mut h, &vec![Some(-1), None]), None);
    assert_eq!(h.health, 8);
}
