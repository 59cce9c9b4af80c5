use rune_spells::animation::{
    get_animation_description, sprite_index, step_animation, AnimationState, Drift, FacingDir,
    PlayerAnimationState,
};
use rune_spells::combat::{clean_dead_enemies, notices_player};
use rune_spells::{EnemyHealth, EquippedRunes, PlayerState, Rune, SpellElement, SpellShape};

#[test]
fn equipping_moves_a_rune_between_slots() {
    let fire = Rune::ElementRune(SpellElement::Fire);
    let orb = Rune::ShapeRune(SpellShape::Orb);
    let mut e = EquippedRunes::new();
    e.equip(0, fire);
    e.equip(3, orb);
    assert_eq!(e.get(0), Some(fire));
    e.equip(2, fire);
    assert_eq!(e.get(0), None);
    assert_eq!(e.get(2), Some(fire));
    e.swap(2, 3);
    assert_eq!(e.get(2), Some(orb));
    assert_eq!(e.get(3), Some(fire));
    e.swap(1, 9);
    assert_eq!(e.get(1), None);
    e.equip(8, orb);
    assert_eq!(e.get(2), None);
}

#[test]
fn animation_table_and_sprite_index() {
    let d = get_animation_description(FacingDir::Left, AnimationState::Walk);
    assert_eq!((d.start_index, d.length, d.reversed, d.priority), (16, 8, true, 0));
    assert_eq!(sprite_index(0, d), 23);
    assert_eq!(sprite_index(7, d), 16);
    let c = get_animation_description(FacingDir::Right, AnimationState::Casting);
    assert_eq!((c.start_index, c.length, c.reversed, c.priority), (24, 3, false, 5));
    assert_eq!(sprite_index(2, c), 26);
    let k = get_animation_description(FacingDir::Right, AnimationState::Knockback);
    assert_eq!(k.priority, 10);
}

#[test]
fn higher_priority_animation_interrupts() {
    let walking = PlayerAnimationState {
        facing_dir: FacingDir::Right,
        anim_state: AnimationState::Walk,
        index: 4,
    };
    let step = step_animation(walking, Drift::Still, PlayerState::Casting, false, false);
    assert!(step.reset_timer);
    assert_eq!(step.state.anim_state, AnimationState::Casting);
    assert_eq!(step.state.index, 0);
    assert_eq!(step.sprite, Some(24));
    // a lower priority change waits for the timer
    let step = step_animation(walking, Drift::Left, PlayerState::Normal, true, false);
    assert_eq!(step.state, walking);
    assert_eq!(step.sprite, None);
    let step = step_animation(walking, Drift::Left, PlayerState::Normal, true, true);
    assert_eq!(step.state.facing_dir, FacingDir::Left);
    assert_eq!(step.sprite, Some(23));
    assert!(!step.reset_timer);
    // no change: the frame advances and wraps
    let last = PlayerAnimationState { index: 7, ..walking };
    let step = step_animation(last, Drift::Right, PlayerState::Normal, true, true);
    assert_eq!(step.state.index, 0);
    assert_eq!(step.sprite, Some(8));
}

#[test]
fn dead_enemies_are_collected() {
    let hs = vec![EnemyHealth(1, 3), EnemyHealth(0, 3), EnemyHealth(-4, 3), EnemyHealth(3, 3)];
    assert_eq!(clean_dead_enemies(&hs), vec![1, 2]);
    assert!(clean_dead_enemies(&vec![]).is_empty());
}

#[test]
fn enemies_notice_when_hurt_or_in_view() {
    assert!(!notices_player(false, false, EnemyHealth(3, 3)));
    assert!(notices_player(false, false, EnemyHealth(2, 3)));
    assert!(notices_player(false, true, EnemyHealth(3, 3)));
    assert!(notices_player(true, false, EnemyHealth(3, 3)));
}
