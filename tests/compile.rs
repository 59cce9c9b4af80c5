use rune_spells::numeric::isqrt;
use rune_spells::spells::MANA_COST_CAP;
use rune_spells::{
    compile, Rune, RuneCastQueue, SpellData, SpellElement, SpellShape, SpellSize, ROOT_POWER,
};

fn fire() -> Rune {
    Rune::ElementRune(SpellElement::Fire)
}
fn water() -> Rune {
    Rune::ElementRune(SpellElement::Water)
}
fn earth() -> Rune {
    Rune::ElementRune(SpellElement::Earth)
}
fn air() -> Rune {
    Rune::ElementRune(SpellElement::Air)
}
fn shape(s: SpellShape) -> Rune {
    Rune::ShapeRune(s)
}

fn bare(element: SpellElement, damage: u64, mana_cost: u64) -> SpellData {
    SpellData {
        element,
        shape: SpellShape::NoShape,
        size: SpellSize::Small,
        damage,
        mana_cost,
        speed: 0,
        knockback: 0,
        on_collide: None,
        on_end: None,
    }
}

#[test]
fn empty_queue_compiles_to_nothing() {
    assert!(compile(&[], ROOT_POWER).is_none());
    assert!(compile(&[], 0).is_none());
    assert!(compile(&[], u32::MAX).is_none());
}

#[test]
fn shape_runes_alone_compile_to_nothing() {
    assert!(compile(&[shape(SpellShape::Orb)], ROOT_POWER).is_none());
    assert!(compile(&[shape(SpellShape::Orb), shape(SpellShape::Line)], ROOT_POWER).is_none());
    assert!(compile(
        &[shape(SpellShape::Scatter), shape(SpellShape::Burst), shape(SpellShape::NoShape)],
        ROOT_POWER
    )
    .is_none());
}

#[test]
fn opposite_elements_cancel_to_neutral() {
    for power in [1u32, 300_000, ROOT_POWER, 5_000_000] {
        let s = compile(&[fire(), water()], power).expect("two element runes make a spell");
        assert_eq!(s.element, SpellElement::Neutral);
        assert_eq!(s.damage, 0);
        assert_eq!(s.get_damage(), 0);
        assert_eq!(s.get_mana_cost(), 10);
    }
    let s = compile(&[earth(), air(), earth(), air()], ROOT_POWER).unwrap();
    assert_eq!(s.element, SpellElement::Neutral);
    assert_eq!(s.get_damage(), 0);
}

#[test]
fn all_four_elements_make_light() {
    let s = compile(&[fire(), water(), earth(), air()], ROOT_POWER).unwrap();
    assert_eq!(s.element, SpellElement::Light);
    // magnitude 4 / 2.5 = 1.6; damage 5 * 1.6 * 1.0 * 5.0 = 40
    assert_eq!(s.get_damage(), 40);
    assert_eq!(s.size, SpellSize::Normal);
    assert_eq!(s.get_mana_cost(), 20);
    assert_eq!(s.knockback, 480);
    let s = compile(&[air(), air(), earth(), fire(), fire(), water()], ROOT_POWER).unwrap();
    assert_eq!(s.element, SpellElement::Light);
    let s = compile(&[shape(SpellShape::Orb), water(), air(), fire(), earth()], ROOT_POWER).unwrap();
    assert_eq!(s.element, SpellElement::Light);
}

#[test]
fn two_fire_runes_without_shape() {
    let s = compile(&[fire(), fire()], ROOT_POWER).unwrap();
    assert_eq!(s.element, SpellElement::Fire);
    assert_eq!(s.shape, SpellShape::NoShape);
    // 5 * 2 * 1.0 * 1.0 * sqrt(1.0)
    assert_eq!(s.get_damage(), 10);
    assert_eq!(s.size, SpellSize::Normal);
    assert_eq!(s.mana_cost, 10_000);
    assert_eq!(s.get_mana_cost(), 10);
    assert_eq!(s.speed, 0);
    assert_eq!(s.knockback, 840);
    assert!(s.on_collide.is_none());
    assert!(s.on_end.is_none());
}

#[test]
fn orb_with_cancelling_elements() {
    let s = compile(&[shape(SpellShape::Orb), fire(), water()], ROOT_POWER).unwrap();
    assert_eq!(s.shape, SpellShape::Orb);
    assert_eq!(s.element, SpellElement::Neutral);
    assert_eq!(s.get_damage(), 0);
    assert_eq!(s.mana_cost, 10_000);
    assert!(s.get_mana_cost() > 0);
    assert!(s.on_end.is_none());
    assert!(s.on_collide.is_none());
    assert_eq!(s.size, SpellSize::Tiny);
    assert_eq!(s.speed, 1000);
    assert_eq!(s.knockback, 100);
}

#[test]
fn blends_take_the_nearest_anchor() {
    let s = compile(&[fire(), earth()], ROOT_POWER).unwrap();
    assert_eq!(s.element, SpellElement::Metal);
    // 5 * sqrt(2) * 1.0 * 1.4 = 9.9
    assert_eq!(s.get_damage(), 10);
    assert_eq!(compile(&[fire(), fire(), earth()], ROOT_POWER).unwrap().element, SpellElement::Metal);
    assert_eq!(
        compile(&[fire(), fire(), fire(), earth()], ROOT_POWER).unwrap().element,
        SpellElement::Fire
    );
    assert_eq!(compile(&[water(), earth()], ROOT_POWER).unwrap().element, SpellElement::Plant);
    assert_eq!(compile(&[fire(), air()], ROOT_POWER).unwrap().element, SpellElement::Electric);
    assert_eq!(compile(&[water(), air()], ROOT_POWER).unwrap().element, SpellElement::Ice);
    assert_eq!(compile(&[air(), air()], ROOT_POWER).unwrap().element, SpellElement::Air);
    assert_eq!(compile(&[earth()], ROOT_POWER).unwrap().element, SpellElement::Earth);
    assert_eq!(compile(&[water(), water(), fire()], ROOT_POWER).unwrap().element, SpellElement::Water);
}

#[test]
fn no_shape_chains_on_collide_with_more_power() {
    let s = compile(&[fire(), shape(SpellShape::Line), water()], ROOT_POWER).unwrap();
    assert_eq!(s.element, SpellElement::Fire);
    assert!(s.on_end.is_none());
    let sub = s.on_collide.as_ref().expect("line layer chains on impact");
    assert_eq!(sub.shape, SpellShape::Line);
    assert_eq!(sub.element, SpellElement::Water);
    // 5 * 1 * 1.0 * 0.8 * sqrt(1.2) = 4.38
    assert_eq!(sub.get_damage(), 4);
    assert_eq!(sub.size, SpellSize::Normal);
    assert_eq!(sub.mana_cost, 5_000);
    // 5 + 1.0 * 5
    assert_eq!(s.get_mana_cost(), 10);
}

#[test]
fn orb_chains_on_end_and_compounds_cost() {
    let s = compile(&[shape(SpellShape::Orb), fire(), shape(SpellShape::Burst), earth()], ROOT_POWER)
        .unwrap();
    assert!(s.on_collide.is_none());
    let sub = s.on_end.as_ref().expect("orb layer chains on end");
    assert_eq!(sub.shape, SpellShape::Burst);
    assert_eq!(sub.element, SpellElement::Earth);
    // 5 * 1 * 0.7 * 0.8 = 2.8
    assert_eq!(sub.get_damage(), 3);
    // 5 + 1.1 * 5 = 10.5, rounded half up
    assert_eq!(s.mana_cost, 10_500);
    assert_eq!(s.get_mana_cost(), 11);
    assert_eq!(sub.speed, 4000);
}

#[test]
fn nesting_lowers_power_and_damage() {
    let s = compile(
        &[shape(SpellShape::Scatter), fire(), shape(SpellShape::Scatter), fire()],
        ROOT_POWER,
    )
    .unwrap();
    // 5 * 1 * 0.5 * 1.0 = 2.5
    assert_eq!(s.get_damage(), 3);
    let sub = s.on_end.as_ref().unwrap();
    // 2.5 * sqrt(0.3) = 1.37
    assert_eq!(sub.get_damage(), 1);
    assert_eq!(sub.size, SpellSize::Small);
    // 5 + 1.3 * 5
    assert_eq!(s.mana_cost, 11_500);
}

#[test]
fn sub_layer_without_effect_is_dropped() {
    let s = compile(&[fire(), shape(SpellShape::Orb)], ROOT_POWER).unwrap();
    assert!(s.on_collide.is_none());
    assert!(s.on_end.is_none());
    let s = compile(&[shape(SpellShape::Line), shape(SpellShape::Orb), fire()], ROOT_POWER).unwrap();
    assert_eq!(s.element, SpellElement::Neutral);
    assert_eq!(s.mana_cost, 6_500);
    assert!(s.on_collide.is_some());
}

#[test]
fn extra_rune_costs_more() {
    let one = compile(&[shape(SpellShape::Line), fire(), shape(SpellShape::Orb), air()], ROOT_POWER)
        .unwrap();
    let two = compile(
        &[shape(SpellShape::Line), fire(), water(), shape(SpellShape::Orb), air()],
        ROOT_POWER,
    )
    .unwrap();
    assert!(two.mana_cost > one.mana_cost);
    assert_eq!(two.mana_cost - one.mana_cost, 5_000);
}

#[test]
fn size_follows_magnitude_times_power() {
    assert_eq!(compile(&[fire()], 100_000).unwrap().size, SpellSize::Tiny);
    assert_eq!(compile(&[fire()], 500_000).unwrap().size, SpellSize::Small);
    assert_eq!(compile(&[fire()], ROOT_POWER).unwrap().size, SpellSize::Normal);
    assert_eq!(compile(&[fire(), fire(), fire(), fire()], ROOT_POWER).unwrap().size, SpellSize::Large);
    assert_eq!(compile(&[fire()], 900_000).unwrap().size, SpellSize::Normal);
    assert_eq!(compile(&[fire()], 200_000).unwrap().size, SpellSize::Small);
}

#[test]
fn damage_grows_with_power() {
    let low = compile(&[fire(), fire(), fire()], 250_000).unwrap();
    let high = compile(&[fire(), fire(), fire()], 4_000_000).unwrap();
    // 15 * sqrt(0.25) = 7.5 and 15 * sqrt(4) = 30
    assert_eq!(low.get_damage(), 8);
    assert_eq!(high.get_damage(), 30);
}

#[test]
fn mana_cost_rounds_with_a_floor_of_one() {
    assert_eq!(bare(SpellElement::Fire, 0, 0).get_mana_cost(), 1);
    assert_eq!(bare(SpellElement::Fire, 0, 1_000).get_mana_cost(), 1);
    assert_eq!(bare(SpellElement::Fire, 0, 1_499).get_mana_cost(), 1);
    assert_eq!(bare(SpellElement::Fire, 0, 2_500).get_mana_cost(), 3);
    assert_eq!(bare(SpellElement::Fire, 0, 2_499).get_mana_cost(), 2);
    assert_eq!(bare(SpellElement::Fire, 0, MANA_COST_CAP).get_mana_cost(), i32::MAX);
    assert_eq!(bare(SpellElement::Fire, u64::MAX, 0).get_damage(), i32::MAX);
    assert_eq!(bare(SpellElement::Fire, 7, 0).get_damage(), 7);
}

#[test]
fn queue_generates_at_full_power() {
    let mut q = RuneCastQueue::new();
    assert!(q.generate_spell().is_none());
    q.push(fire());
    q.push(fire());
    assert_eq!(q.len(), 2);
    assert_eq!(q.as_slice(), &[fire(), fire()]);
    let s = q.generate_spell().unwrap();
    assert_eq!(s.get_damage(), 10);
    q.clear();
    assert_eq!(q.len(), 0);
}

#[test]
fn duplicate_copies_the_whole_tree() {
    let s = compile(&[fire(), shape(SpellShape::Orb), water(), shape(SpellShape::Line), air()], ROOT_POWER)
        .unwrap();
    let d = s.duplicate();
    assert_eq!(d.mana_cost, s.mana_cost);
    let a = s.on_collide.as_ref().unwrap();
    let b = d.on_collide.as_ref().unwrap();
    assert_eq!(a.element, b.element);
    assert_eq!(a.on_end.as_ref().unwrap().element, SpellElement::Air);
    assert_eq!(b.on_end.as_ref().unwrap().element, SpellElement::Air);
}

#[test]
fn integer_square_root() {
    assert_eq!(isqrt(0), 0);
    assert_eq!(isqrt(1), 1);
    assert_eq!(isqrt(24), 4);
    assert_eq!(isqrt(25), 5);
    assert_eq!(isqrt(u128::MAX), u64::MAX);
}
