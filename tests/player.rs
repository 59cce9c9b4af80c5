use rune_spells::{
    update_spell_casting, CastInput, CastOutcome, EquippedRunes, PlayerHealth, PlayerMana,
    PlayerState, Rune, RuneCastQueue, SpellElement, SpellShape,
};
use rune_spells::player::next_player_state;

fn idle_input() -> CastInput {
    CastInput {
        spell_ui_active: false,
        has_staff: true,
        knocked_back: false,
        pressed: vec![false; 5],
        cast_pressed: false,
        pointer_on_ui: false,
        cancel_pressed: false,
    }
}

fn equipped() -> EquippedRunes {
    let mut e = EquippedRunes::new();
    e.set(0, Some(Rune::ElementRune(SpellElement::Fire)));
    e.set(1, Some(Rune::ElementRune(SpellElement::Earth)));
    e.set(2, Some(Rune::ElementRune(SpellElement::Water)));
    e.set(3, Some(Rune::ElementRune(SpellElement::Air)));
    e.set(4, Some(Rune::ShapeRune(SpellShape::Scatter)));
    e
}

#[test]
fn hearts_and_orbs() {
    let mut h = PlayerHealth::new(4);
    assert_eq!(h.health, 16);
    assert_eq!(h.get_heart_count(), 4);
    h.health = 13;
    assert_eq!(h.get_filled_heart_count(), 3);
    assert_eq!(h.get_last_heart_state(), 1);
    h.health = -2;
    assert_eq!(h.get_filled_heart_count(), 0);
    assert_eq!(h.get_last_heart_state(), 0);
    let mut m = PlayerMana::new(4);
    assert_eq!(m.mana, 80);
    assert_eq!(m.get_orb_count(), 4);
    m.mana = 45;
    assert_eq!(m.get_filled_orb_count(), 2);
    assert_eq!(m.get_last_orb_state(5), 1);
    m.mana = 30;
    assert_eq!(m.get_last_orb_state(5), 2);
    assert_eq!(m.get_last_orb_state(2), 1);
    m.mana = 0;
    assert_eq!(m.get_last_orb_state(5), 0);
}

#[test]
fn equipped_slots_ignore_out_of_range() {
    let mut e = EquippedRunes::new();
    assert_eq!(e.get(0), None);
    e.set(7, Some(Rune::ElementRune(SpellElement::Fire)));
    for i in 0..6 {
        assert_eq!(e.get(i), None);
    }
    e.set(4, Some(Rune::ShapeRune(SpellShape::Orb)));
    assert_eq!(e.get(4), Some(Rune::ShapeRune(SpellShape::Orb)));
}

#[test]
fn empty_cast_keeps_mana_and_clears_queue() {
    let mut queue = RuneCastQueue::new();
    let mut mana = PlayerMana::new(4);
    let mut input = idle_input();
    input.cast_pressed = true;
    let out = update_spell_casting(&input, &PlayerHealth::new(4), &equipped(), &mut queue, &mut mana);
    assert!(matches!(out, CastOutcome::Idle));
    assert_eq!(mana.mana, 80);
    assert_eq!(queue.len(), 0);
}

#[test]
fn pressing_slots_queues_runes_then_cast_pays() {
    let mut queue = RuneCastQueue::new();
    let mut mana = PlayerMana::new(4);
    let eq = equipped();
    let health = PlayerHealth::new(4);
    let mut input = idle_input();
    input.pressed = vec![true, false, false, false, false];
    update_spell_casting(&input, &health, &eq, &mut queue, &mut mana);
    update_spell_casting(&input, &health, &eq, &mut queue, &mut mana);
    assert_eq!(queue.len(), 2);
    let mut cast = idle_input();
    cast.cast_pressed = true;
    match update_spell_casting(&cast, &health, &eq, &mut queue, &mut mana) {
        CastOutcome::Cast { spell, cost } => {
            assert_eq!(cost, 10);
            assert_eq!(spell.element, SpellElement::Fire);
        }
        other => panic!("expected a cast, got {:?}", other),
    }
    assert_eq!(mana.mana, 70);
    assert_eq!(queue.len(), 0);
}

#[test]
fn short_mana_fizzles() {
    let mut queue = RuneCastQueue::new();
    let mut mana = PlayerMana::new(1);
    mana.mana = 7;
    let mut input = idle_input();
    input.pressed = vec![true, true, true, true, true];
    input.cast_pressed = true;
    match update_spell_casting(&input, &PlayerHealth::new(4), &equipped(), &mut queue, &mut mana) {
        CastOutcome::Fizzled { cost } => assert_eq!(cost, 20),
        other => panic!("expected a fizzle, got {:?}", other),
    }
    assert_eq!(mana.mana, 0);
    assert_eq!(queue.len(), 0);
}

#[test]
fn blocked_and_interrupted_casting() {
    let mut queue = RuneCastQueue::new();
    queue.push(Rune::ElementRune(SpellElement::Air));
    let mut mana = PlayerMana::new(4);
    let mut input = idle_input();
    input.spell_ui_active = true;
    input.cast_pressed = true;
    update_spell_casting(&input, &PlayerHealth::new(4), &equipped(), &mut queue, &mut mana);
    assert_eq!(queue.len(), 1);
    let mut dead = PlayerHealth::new(4);
    dead.health = 0;
    update_spell_casting(&idle_input(), &dead, &equipped(), &mut queue, &mut mana);
    assert_eq!(queue.len(), 1);
    let mut hit = idle_input();
    hit.knocked_back = true;
    update_spell_casting(&hit, &PlayerHealth::new(4), &equipped(), &mut queue, &mut mana);
    assert_eq!(queue.len(), 0);
    queue.push(Rune::ElementRune(SpellElement::Air));
    let mut cancel = idle_input();
    cancel.cancel_pressed = true;
    update_spell_casting(&cancel, &PlayerHealth::new(4), &equipped(), &mut queue, &mut mana);
    assert_eq!(queue.len(), 0);
    assert_eq!(mana.mana, 80);
}

#[test]
fn player_state_transitions() {
    assert_eq!(next_player_state(PlayerState::Normal, false, 5, false), PlayerState::Casting);
    assert_eq!(next_player_state(PlayerState::Casting, true, 5, false), PlayerState::Normal);
    assert_eq!(next_player_state(PlayerState::Casting, false, 0, false), PlayerState::Normal);
    assert_eq!(next_player_state(PlayerState::Knockback, false, 5, false), PlayerState::Knockback);
    assert_eq!(next_player_state(PlayerState::Knockback, false, 5, true), PlayerState::Normal);
}
