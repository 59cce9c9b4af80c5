use vstd::prelude::*;
use vstd::arithmetic::div_mod::lemma_div_is_ordered;
use crate::element::{element_of_counts, element_of_vector};
use crate::numeric::{lemma_sqrt_floor_bounds, sqrt_floor};
use crate::runes::{Rune, SpellElement, SpellShape};
use crate::spells::{
    MANA_COST_CAP, SpellData, child_power, cost_of, count_of, damage_of, layer_count, layer_end,
    layer_shape, layer_spell, layer_start, rounded_root, shape_index_from, spell_of, sub_spell_of,
};

verus! {

/// An empty rune sequence compiles to nothing, at any power.
pub proof fn lemma_empty_compiles_to_none(power: nat)
    ensures
        spell_of(Seq::<Rune>::empty(), power) is None,
{
}

proof fn lemma_count_of_empty(s: Seq<Rune>, e: SpellElement)
    requires
        s.len() == 0,
    ensures
        count_of(s, e) == 0,
{
}

/// A sequence of shape runes alone, with no element rune anywhere, has no
/// effect at any layer and compiles to nothing.
pub proof fn lemma_shapes_only_compile_to_none(runes: Seq<Rune>, power: nat)
    requires
        forall|i: int| 0 <= i < runes.len() ==> (#[trigger] runes[i]).is_shape(),
    ensures
        spell_of(runes, power) is None,
    decreases runes.len(),
{
    if runes.len() > 0 {
        let end = layer_end(runes);
        if runes.len() > 1 {
            assert(runes[1].is_shape());
        }
        assert(end == if runes.len() > 1 { 1 } else { runes.len() as int });
        assert(layer_start(runes) == 1);
        let body = runes.subrange(1, end);
        lemma_count_of_empty(body, SpellElement::Fire);
        lemma_count_of_empty(body, SpellElement::Water);
        lemma_count_of_empty(body, SpellElement::Earth);
        lemma_count_of_empty(body, SpellElement::Air);
        if 1 <= end < runes.len() {
            let rest = runes.subrange(end, runes.len() as int);
            assert forall|i: int| 0 <= i < rest.len() implies (#[trigger] rest[i]).is_shape() by {
                assert(rest[i] == runes[end + i]);
            }
            lemma_shapes_only_compile_to_none(rest, child_power(power, layer_shape(runes)));
        }
        assert(sub_spell_of(runes, power) is None);
    }
}

/// A layer whose Fire and Water counts cancel, and whose Earth and Air
/// counts cancel, is Neutral with zero damage; it still exists when it holds
/// an element rune, since its runes still cost mana.
pub proof fn lemma_cancelling_layer_is_neutral(runes: Seq<Rune>, power: nat)
    requires
        runes.len() > 0,
        layer_count(runes, SpellElement::Fire) == layer_count(runes, SpellElement::Water),
        layer_count(runes, SpellElement::Earth) == layer_count(runes, SpellElement::Air),
        !(layer_count(runes, SpellElement::Fire) > 0 && layer_count(runes, SpellElement::Earth) > 0),
        layer_count(runes, SpellElement::Fire) > 0 || layer_count(runes, SpellElement::Earth) > 0,
    ensures
        spell_of(runes, power) matches Some(s) && s.element == SpellElement::Neutral && s.damage
            == 0 && s.mana_cost > 0,
{
    let f = layer_count(runes, SpellElement::Fire);
    let w = layer_count(runes, SpellElement::Water);
    let e = layer_count(runes, SpellElement::Earth);
    let a = layer_count(runes, SpellElement::Air);
    assert(element_of_counts(f, w, e, a) == element_of_vector(0, 0));
    lemma_sqrt_floor_bounds(0);
    assert(sqrt_floor(0) == 0) by (nonlinear_arith)
        requires
            sqrt_floor(0) * sqrt_floor(0) <= 0,
    ;
    assert(rounded_root(0) == 0);
    assert(damage_of(0, layer_shape(runes), SpellElement::Neutral, power) == 0);
}

/// A layer holding at least one Fire, one Water, one Earth and one Air rune
/// is Light, whatever the order and the other runes of the layer.
pub proof fn lemma_all_four_elements_make_light(runes: Seq<Rune>, power: nat)
    requires
        runes.len() > 0,
        layer_count(runes, SpellElement::Fire) > 0,
        layer_count(runes, SpellElement::Water) > 0,
        layer_count(runes, SpellElement::Earth) > 0,
        layer_count(runes, SpellElement::Air) > 0,
    ensures
        spell_of(runes, power) matches Some(s) && s.element == SpellElement::Light,
{
}

/// A nested layer that compiles chains on impact under a NoShape or Line
/// layer, and when the projectile ends under an Orb, Burst or Scatter layer;
/// never both, and nothing chains where nothing nested compiles.
pub proof fn lemma_chain_slot(runes: Seq<Rune>, power: nat)
    requires
        spell_of(runes, power) is Some,
    ensures
        ({
            let s = spell_of(runes, power)->Some_0;
            let sub = sub_spell_of(runes, power);
            &&& !(s.on_collide is Some && s.on_end is Some)
            &&& (s.shape == SpellShape::NoShape || s.shape == SpellShape::Line) ==> s.on_end is None
                && match sub {
                Some(t) => s.on_collide == Some(Box::new(t)),
                None => s.on_collide is None,
            }
            &&& (s.shape == SpellShape::Orb || s.shape == SpellShape::Burst || s.shape
                == SpellShape::Scatter) ==> s.on_collide is None && match sub {
                Some(t) => s.on_end == Some(Box::new(t)),
                None => s.on_end is None,
            }
        }),
{
}

/// With the shape and the nested layer held fixed, one more element rune in
/// a layer raises its mana cost, until the cost saturates.
pub proof fn lemma_extra_rune_costs_more(
    shape: SpellShape,
    fire: nat,
    water: nat,
    earth: nat,
    air: nat,
    more_fire: nat,
    more_water: nat,
    more_earth: nat,
    more_air: nat,
    power: nat,
    sub: Option<SpellData>,
)
    requires
        more_fire + more_water + more_earth + more_air == fire + water + earth + air + 1,
        more_fire >= fire,
        more_water >= water,
        more_earth >= earth,
        more_air >= air,
        layer_spell(shape, fire, water, earth, air, power, sub) matches Some(s) ==> s.mana_cost
            < MANA_COST_CAP,
    ensures
        layer_spell(shape, more_fire, more_water, more_earth, more_air, power, sub) matches Some(
            t,
        ) && match layer_spell(shape, fire, water, earth, air, power, sub) {
            Some(s) => s.mana_cost < t.mana_cost,
            None => t.mana_cost > 0,
        },
{
    let total = fire + water + earth + air;
    let sub_cost: nat = match sub {
        Some(s) => s.mana_cost as nat,
        None => 0,
    };
    assert(cost_of(total + 1, shape, sub_cost) > 0);
    if layer_spell(shape, fire, water, earth, air, power, sub) is Some {
        assert(cost_of(total, shape, sub_cost) < MANA_COST_CAP);
        assert(cost_of(total + 1, shape, sub_cost) > cost_of(total, shape, sub_cost));
    }
}

/// Under a Line, Burst or Scatter layer the nested layer is compiled at a
/// strictly lower power than its parent.
pub proof fn lemma_nesting_lowers_power(runes: Seq<Rune>, power: nat)
    requires
        power > 0,
        layer_shape(runes) == SpellShape::Line || layer_shape(runes) == SpellShape::Burst
            || layer_shape(runes) == SpellShape::Scatter,
        1 <= layer_end(runes) < runes.len(),
    ensures
        child_power(power, layer_shape(runes)) < power,
        sub_spell_of(runes, power) == spell_of(
            runes.subrange(layer_end(runes), runes.len() as int),
            child_power(power, layer_shape(runes)),
        ),
{
    let m = layer_shape(runes).spec_power_multiplier() as nat;
    assert(m <= 6);
    assert(power * m / 10 < power) by (nonlinear_arith)
        requires
            power > 0,
            m <= 6,
    ;
}

proof fn lemma_sqrt_floor_monotone(a: nat, b: nat)
    requires
        a <= b,
    ensures
        sqrt_floor(a) <= sqrt_floor(b),
{
    lemma_sqrt_floor_bounds(a);
    lemma_sqrt_floor_bounds(b);
    let (sa, sb) = (sqrt_floor(a), sqrt_floor(b));
    if sa > sb {
        assert((sb + 1) * (sb + 1) <= sa * sa) by (nonlinear_arith)
            requires
                sb + 1 <= sa,
        ;
    }
}

/// Damage grows with the power a layer is compiled at.
pub proof fn lemma_damage_monotone_in_power(
    mkey: nat,
    shape: SpellShape,
    element: SpellElement,
    low: nat,
    high: nat,
)
    requires
        low <= high,
    ensures
        damage_of(mkey, shape, element, low) <= damage_of(mkey, shape, element, high),
{
    let sm = shape.spec_damage_multiplier() as nat;
    let em = element.spec_damage_multiplier() as nat;
    let base = mkey * (sm * sm) * (em * em);
    assert(base * low <= base * high) by (nonlinear_arith)
        requires
            low <= high,
    ;
    lemma_div_is_ordered(4 * (base * low) as int, 4 * (base * high) as int, 10_000_000_000);
    lemma_sqrt_floor_monotone(
        (4 * (base * low) / 10_000_000_000) as nat,
        (4 * (base * high) / 10_000_000_000) as nat,
    );
}

proof fn lemma_count_prepend(s: Seq<Rune>, x: Rune, e: SpellElement)
    ensures
        count_of(seq![x] + s, e) == count_of(s, e) + if x == Rune::ElementRune(e) {
            1nat
        } else {
            0nat
        },
    decreases s.len(),
{
    let t = seq![x] + s;
    let bump = |r: Rune| if r == Rune::ElementRune(e) {
        1nat
    } else {
        0nat
    };
    assert(t.len() > 0);
    assert(count_of(t, e) == count_of(t.drop_last(), e) + bump(t.last()));
    if s.len() == 0 {
        assert(t.drop_last() =~= Seq::<Rune>::empty());
        assert(t.last() == x);
        assert(count_of(Seq::<Rune>::empty(), e) == 0);
    } else {
        assert(t.drop_last() =~= seq![x] + s.drop_last());
        assert(t.last() == s.last());
        lemma_count_prepend(s.drop_last(), x, e);
        assert(count_of(s, e) == count_of(s.drop_last(), e) + bump(s.last()));
    }
}

proof fn lemma_shape_index_shift(runes: Seq<Rune>, p: int, x: Rune, i: int)
    requires
        0 <= p <= i,
        p <= runes.len(),
        !x.is_shape(),
    ensures
        shape_index_from(runes.insert(p, x), i + 1) == shape_index_from(runes, i) + 1,
    decreases runes.len() - i,
{
    let r2 = runes.insert(p, x);
    if i < runes.len() {
        assert(r2[i + 1] == runes[i]);
        if !runes[i].is_shape() {
            lemma_shape_index_shift(runes, p, x, i + 1);
        }
    }
}

proof fn lemma_shape_index_at_least(runes: Seq<Rune>, i: int)
    requires
        0 <= i <= runes.len(),
    ensures
        i <= shape_index_from(runes, i) <= runes.len(),
    decreases runes.len() - i,
{
    if i < runes.len() && !runes[i].is_shape() {
        lemma_shape_index_at_least(runes, i + 1);
    }
}

/// One more element rune in the outer layer of a rune sequence, put where
/// the layer's elements begin, raises the mana cost of the compiled spell,
/// until the cost saturates; the layer's shape and nested layers stay as
/// they were.
pub proof fn lemma_added_rune_costs_more(runes: Seq<Rune>, e: SpellElement, power: nat)
    requires
        e.is_primary(),
        spell_of(runes, power) matches Some(s) ==> s.mana_cost < MANA_COST_CAP,
    ensures
        ({
            let more = runes.insert(layer_start(runes), Rune::ElementRune(e));
            spell_of(more, power) matches Some(t) && match spell_of(runes, power) {
                Some(s) => s.mana_cost < t.mana_cost,
                None => t.mana_cost > 0,
            }
        }),
{
    let st = layer_start(runes);
    let x = Rune::ElementRune(e);
    let more = runes.insert(st, x);
    let end = layer_end(runes);
    lemma_shape_index_at_least(runes, if runes.len() == 0 { 0 } else { 1 });
    if runes.len() == 0 {
        assert(end == 0);
    }
    assert(more[st] == x);
    assert(layer_start(more) == st);
    assert(layer_shape(more) == layer_shape(runes));
    if st == 1 {
        lemma_shape_index_shift(runes, 1, x, 1);
        assert(shape_index_from(more, 1) == shape_index_from(more, 2));
    } else {
        lemma_shape_index_shift(runes, 0, x, 0);
        assert(shape_index_from(runes, 0) == shape_index_from(runes, 1));
    }
    assert(layer_end(more) == end + 1);
    assert(more.subrange(st, end + 1) =~= seq![x] + runes.subrange(st, end));
    assert(more.subrange(end + 1, more.len() as int) =~= runes.subrange(end, runes.len() as int));
    assert(sub_spell_of(more, power) == sub_spell_of(runes, power));
    let body = runes.subrange(st, end);
    lemma_count_prepend(body, x, SpellElement::Fire);
    lemma_count_prepend(body, x, SpellElement::Water);
    lemma_count_prepend(body, x, SpellElement::Earth);
    lemma_count_prepend(body, x, SpellElement::Air);
    let shape = layer_shape(runes);
    let f = layer_count(runes, SpellElement::Fire);
    let w = layer_count(runes, SpellElement::Water);
    let ea = layer_count(runes, SpellElement::Earth);
    let a = layer_count(runes, SpellElement::Air);
    let sub = sub_spell_of(runes, power);
    if runes.len() == 0 {
        lemma_count_of_empty(body, SpellElement::Fire);
        lemma_count_of_empty(body, SpellElement::Water);
        lemma_count_of_empty(body, SpellElement::Earth);
        lemma_count_of_empty(body, SpellElement::Air);
        assert(layer_spell(shape, f, w, ea, a, power, sub) is None);
    }
    lemma_extra_rune_costs_more(
        shape,
        f,
        w,
        ea,
        a,
        layer_count(more, SpellElement::Fire),
        layer_count(more, SpellElement::Water),
        layer_count(more, SpellElement::Earth),
        layer_count(more, SpellElement::Air),
        power,
        sub,
    );
}

} // verus!
