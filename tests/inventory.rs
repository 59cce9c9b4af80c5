use rune_spells::inventory::{unequip_locked, update_spell_selection, MouseoverTarget, RuneInventorySlot};
use rune_spells::{EquippedRunes, Rune, SpellElement, SpellShape};

fn inventory() -> Vec<RuneInventorySlot> {
    vec![
        RuneInventorySlot { index: 0, rune: Rune::ElementRune(SpellElement::Fire), unlocked: true },
        RuneInventorySlot { index: 1, rune: Rune::ElementRune(SpellElement::Water), unlocked: false },
        RuneInventorySlot { index: 2, rune: Rune::ShapeRune(SpellShape::Line), unlocked: true },
    ]
}

#[test]
fn selecting_an_inventory_rune_equips_it_once() {
    let inv = inventory();
    let mut e = EquippedRunes::new();
    let mut pressed = vec![false; 5];
    pressed[1] = true;
    update_spell_selection(&pressed, Some(MouseoverTarget::SpellInventorySlot(0)), &inv, &mut e);
    assert_eq!(e.get(1), Some(Rune::ElementRune(SpellElement::Fire)));
    let mut pressed = vec![false; 5];
    pressed[0] = true;
    pressed[3] = true;
    update_spell_selection(&pressed, Some(MouseoverTarget::SpellInventorySlot(0)), &inv, &mut e);
    assert_eq!(e.get(1), None);
    assert_eq!(e.get(3), Some(Rune::ElementRune(SpellElement::Fire)));
    // locked runes cannot be picked
    update_spell_selection(&pressed, Some(MouseoverTarget::SpellInventorySlot(1)), &inv, &mut e);
    assert_eq!(e.get(3), Some(Rune::ElementRune(SpellElement::Fire)));
    // nothing pressed, nothing happens
    update_spell_selection(&vec![false; 5], Some(MouseoverTarget::SpellInventorySlot(2)), &inv, &mut e);
    assert_eq!(e.get(0), None);
}

#[test]
fn selecting_an_equipped_slot_swaps() {
    let inv = inventory();
    let mut e = EquippedRunes::new();
    e.set(4, Some(Rune::ShapeRune(SpellShape::Line)));
    let mut pressed = vec![false; 5];
    pressed[0] = true;
    update_spell_selection(&pressed, Some(MouseoverTarget::SpellSelectedSlot(4)), &inv, &mut e);
    assert_eq!(e.get(0), Some(Rune::ShapeRune(SpellShape::Line)));
    assert_eq!(e.get(4), None);
    update_spell_selection(&pressed, None, &inv, &mut e);
    assert_eq!(e.get(0), Some(Rune::ShapeRune(SpellShape::Line)));
}

#[test]
fn respawn_drops_locked_runes() {
    let inv = inventory();
    let mut e = EquippedRunes::new();
    e.set(0, Some(Rune::ElementRune(SpellElement::Water)));
    e.set(1, Some(Rune::ElementRune(SpellElement::Fire)));
    e.set(2, Some(Rune::ElementRune(SpellElement::Air)));
    unequip_locked(&mut e, &inv);
    assert_eq!(e.get(0), None);
    assert_eq!(e.get(1), Some(Rune::ElementRune(SpellElement::Fire)));
    assert_eq!(e.get(2), Some(Rune::ElementRune(SpellElement::Air)));
}
