use rune_spells::{
    compile, create_projectiles, despawn_spells, process_spell_enemy_collisions, EnemyHealth,
    Heading, Rune, SpellData, SpellElement, SpellShape, ROOT_POWER,
};

fn element(e: SpellElement) -> Rune {
    Rune::ElementRune(e)
}
fn shape_rune(s: SpellShape) -> Rune {
    Rune::ShapeRune(s)
}

fn spell(runes: &[Rune]) -> SpellData {
    compile(runes, ROOT_POWER).expect("spell has an effect")
}

#[test]
fn first_contact_of_each_projectile_wins() {
    // damage 10, chains a Line layer on impact
    let a = spell(&[
        element(SpellElement::Fire),
        element(SpellElement::Fire),
        shape_rune(SpellShape::Line),
        element(SpellElement::Water),
    ]);
    // damage 4
    let b = spell(&[element(SpellElement::Water)]);
    let spells = vec![a, b];
    let mut healths = vec![EnemyHealth(20, 20), EnemyHealth(5, 5)];
    let contacts = vec![(0, 0), (0, 1), (1, 1), (5, 0), (1, 9), (1, 0)];
    let report = process_spell_enemy_collisions(&contacts, &spells, &mut healths);
    assert_eq!(report.hits, vec![(0, 0), (1, 1)]);
    assert_eq!(report.despawns, vec![0, 1]);
    assert_eq!(healths, vec![EnemyHealth(10, 20), EnemyHealth(1, 5)]);
    assert_eq!(report.chained.len(), 1);
    assert_eq!(report.chained[0].projectile, 0);
    assert_eq!(report.chained[0].spell.element, SpellElement::Water);
    assert_eq!(report.chained[0].spell.shape, SpellShape::Line);
}

#[test]
fn zero_damage_still_consumes_the_projectile() {
    let neutral = spell(&[element(SpellElement::Fire), element(SpellElement::Water)]);
    let spells = vec![neutral];
    let mut healths = vec![EnemyHealth(3, 3)];
    let report = process_spell_enemy_collisions(&vec![(0, 0), (0, 0)], &spells, &mut healths);
    assert_eq!(report.hits, vec![(0, 0)]);
    assert_eq!(report.despawns, vec![0]);
    assert_eq!(healths, vec![EnemyHealth(3, 3)]);
    assert!(report.chained.is_empty());
}

#[test]
fn health_may_go_negative() {
    let strong = spell(&[
        element(SpellElement::Fire),
        element(SpellElement::Water),
        element(SpellElement::Earth),
        element(SpellElement::Air),
    ]);
    let spells = vec![strong.duplicate(), strong];
    let mut healths = vec![EnemyHealth(50, 50)];
    let report = process_spell_enemy_collisions(&vec![(0, 0), (1, 0)], &spells, &mut healths);
    assert_eq!(report.hits.len(), 2);
    assert_eq!(healths[0], EnemyHealth(-30, 50));
}

#[test]
fn no_contacts_change_nothing() {
    let spells = vec![spell(&[element(SpellElement::Fire)])];
    let mut healths = vec![EnemyHealth(4, 4)];
    let report = process_spell_enemy_collisions(&vec![], &spells, &mut healths);
    assert!(report.hits.is_empty());
    assert!(report.despawns.is_empty());
    assert_eq!(healths, vec![EnemyHealth(4, 4)]);
}

#[test]
fn despawn_chains_end_spells() {
    let orb = spell(&[
        shape_rune(SpellShape::Orb),
        element(SpellElement::Fire),
        shape_rune(SpellShape::Burst),
        element(SpellElement::Earth),
    ]);
    let plain = spell(&[element(SpellElement::Air)]);
    let spells = vec![plain, orb];
    let chained = despawn_spells(&vec![0, 1, 7], &spells);
    assert_eq!(chained.len(), 1);
    assert_eq!(chained[0].projectile, 1);
    assert_eq!(chained[0].spell.shape, SpellShape::Burst);
    assert_eq!(chained[0].spell.element, SpellElement::Earth);
}

#[test]
fn scatter_spawns_seven_random_projectiles() {
    let s = spell(&[shape_rune(SpellShape::Scatter), element(SpellElement::Fire)]);
    let spawns = create_projectiles(&s);
    assert_eq!(spawns.len(), 7);
    for p in &spawns {
        assert_eq!(p.heading, Heading::RandomAroundAim);
        assert_eq!(p.spell.element, s.element);
        assert_eq!(p.spell.shape, s.shape);
        assert_eq!(p.spell.damage, s.damage);
        assert_eq!(p.spell.mana_cost, s.mana_cost);
        assert_eq!(p.spell.size, s.size);
        assert_eq!(p.radius, 8);
        // 200 * 1.0 units per second
        assert_eq!(p.speed, 200_000);
    }
}

#[test]
fn burst_fans_out_and_line_trails() {
    let burst = spell(&[shape_rune(SpellShape::Burst), element(SpellElement::Earth)]);
    let spawns = create_projectiles(&burst);
    let headings: Vec<Heading> = spawns.iter().map(|p| p.heading).collect();
    assert_eq!(headings, vec![Heading::Turned(-1), Heading::Turned(0), Heading::Turned(1)]);
    let mut line = spell(&[shape_rune(SpellShape::Line), element(SpellElement::Fire)]);
    line.speed = 1000;
    let spawns = create_projectiles(&line);
    let speeds: Vec<u64> = spawns.iter().map(|p| p.speed).collect();
    assert_eq!(speeds, vec![125_000, 100_000, 80_000]);
    assert!(spawns.iter().all(|p| p.heading == Heading::Aim));
    let orb = spell(&[shape_rune(SpellShape::Orb), element(SpellElement::Water)]);
    let spawns = create_projectiles(&orb);
    assert_eq!(spawns.len(), 1);
    assert_eq!(spawns[0].speed, 50_000);
}
