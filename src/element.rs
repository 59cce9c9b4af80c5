use vstd::prelude::*;
use crate::runes::SpellElement;

verus! {

/// Largest count of runes of one element that a layer may hold.
pub const MAX_COUNT: u64 = 0xFFFF_FFFF;

/// The dot product of `(x, y)` with the anchor of `e`.
pub open spec fn projection(x: int, y: int, e: SpellElement) -> int {
    match e {
        SpellElement::Neutral | SpellElement::Light => 0,
        SpellElement::Fire => -x,
        SpellElement::Water => x,
        SpellElement::Earth => -y,
        SpellElement::Air => y,
        SpellElement::Metal => -x - y,
        SpellElement::Plant => x - y,
        SpellElement::Electric => -x + y,
        SpellElement::Ice => x + y,
    }
}

/// How closely the direction of `(x, y)` points at the anchor of `e`.
///
/// For a unit vector `v` and a unit anchor `u`, `|v - u|^2 = 2 - 2 v.u`, so the
/// nearest anchor is the one with the largest cosine `p / |a|`, where `p` is
/// the dot product with the raw anchor `a`. This key orders anchors as that
/// cosine does: it is `p * |p|` scaled by `2 / |a|^2`, exact in integers.
pub open spec fn alignment(x: int, y: int, e: SpellElement) -> int {
    let p = projection(x, y, e);
    let s = if p >= 0 {
        p * p
    } else {
        -(p * p)
    };
    if e.anchor().0 != 0 && e.anchor().1 != 0 {
        s
    } else {
        2 * s
    }
}

/// `e` is the compass element nearest to the direction of `(x, y)`; of
/// equally near ones, the first in the element order.
pub open spec fn is_nearest_compass(x: int, y: int, e: SpellElement) -> bool {
    &&& e.is_compass()
    &&& forall|o: SpellElement|
        o.is_compass() ==> {
            &&& #[trigger] alignment(x, y, o) <= alignment(x, y, e)
            &&& (o.order() < e.order() ==> alignment(x, y, o) < alignment(x, y, e))
        }
}

/// The element whose anchor is nearest to the normalised vector `(x, y)`;
/// the zero vector resolves to Neutral.
pub open spec fn element_of_vector(x: int, y: int) -> SpellElement {
    if x == 0 && y == 0 {
        SpellElement::Neutral
    } else {
        choose|e: SpellElement| is_nearest_compass(x, y, e)
    }
}

/// The element of a layer with the given rune counts: Light when all four
/// primary elements are present, else the element nearest to the net vector
/// `(water - fire, air - earth)`.
pub open spec fn element_of_counts(fire: nat, water: nat, earth: nat, air: nat) -> SpellElement {
    if fire > 0 && water > 0 && earth > 0 && air > 0 {
        SpellElement::Light
    } else {
        element_of_vector(water - fire, air - earth)
    }
}

/// At most one element is the nearest.
pub proof fn lemma_nearest_unique(x: int, y: int, e1: SpellElement, e2: SpellElement)
    requires
        is_nearest_compass(x, y, e1),
        is_nearest_compass(x, y, e2),
    ensures
        e1 == e2,
{
    assert(alignment(x, y, e1) <= alignment(x, y, e2));
    assert(alignment(x, y, e2) <= alignment(x, y, e1));
    assert(e1.order() == e2.order());
}

fn alignment_of(x: i64, y: i64, e: SpellElement) -> (r: i128)
    requires
        -(MAX_COUNT as int) <= x <= MAX_COUNT,
        -(MAX_COUNT as int) <= y <= MAX_COUNT,
    ensures
        r == alignment(x as int, y as int, e),
{
    let (xw, yw) = (x as i128, y as i128);
    let (p, diagonal): (i128, bool) = match e {
        SpellElement::Neutral => (0, false),
        SpellElement::Light => (0, false),
        SpellElement::Fire => (-xw, false),
        SpellElement::Water => (xw, false),
        SpellElement::Earth => (-yw, false),
        SpellElement::Air => (yw, false),
        SpellElement::Metal => (-xw - yw, true),
        SpellElement::Plant => (xw - yw, true),
        SpellElement::Electric => (-xw + yw, true),
        SpellElement::Ice => (xw + yw, true),
    };
    assert(-0x2_0000_0000 <= p <= 0x2_0000_0000);
    assert(p * p <= 0x4_0000_0000_0000_0000) by (nonlinear_arith)
        requires
            -0x2_0000_0000 <= p <= 0x2_0000_0000,
    ;
    assert(p * p >= 0) by (nonlinear_arith);
    let s: i128 = if p >= 0 {
        p * p
    } else {
        -(p * p)
    };
    if diagonal {
        s
    } else {
        2 * s
    }
}

/// The element nearest to the direction of `(x, y)`, found by comparing
/// against each compass anchor in the element order.
pub fn element_from_vector(x: i64, y: i64) -> (r: SpellElement)
    requires
        -(MAX_COUNT as int) <= x <= MAX_COUNT,
        -(MAX_COUNT as int) <= y <= MAX_COUNT,
    ensures
        r == element_of_vector(x as int, y as int),
{
    if x == 0 && y == 0 {
        return SpellElement::Neutral;
    }
    let mut best = SpellElement::Fire;
    let mut best_key = alignment_of(x, y, SpellElement::Fire);
    let k = alignment_of(x, y, SpellElement::Water);
    if k > best_key {
        best = SpellElement::Water;
        best_key = k;
    }
    let k = alignment_of(x, y, SpellElement::Earth);
    if k > best_key {
        best = SpellElement::Earth;
        best_key = k;
    }
    let k = alignment_of(x, y, SpellElement::Air);
    if k > best_key {
        best = SpellElement::Air;
        best_key = k;
    }
    let k = alignment_of(x, y, SpellElement::Metal);
    if k > best_key {
        best = SpellElement::Metal;
        best_key = k;
    }
    let k = alignment_of(x, y, SpellElement::Plant);
    if k > best_key {
        best = SpellElement::Plant;
        best_key = k;
    }
    let k = alignment_of(x, y, SpellElement::Electric);
    if k > best_key {
        best = SpellElement::Electric;
        best_key = k;
    }
    let k = alignment_of(x, y, SpellElement::Ice);
    if k > best_key {
        best = SpellElement::Ice;
        best_key = k;
    }
    proof {
        let (xi, yi) = (x as int, y as int);
        assert forall|o: SpellElement| o.is_compass() implies {
            &&& #[trigger] alignment(xi, yi, o) <= alignment(xi, yi, best)
            &&& (o.order() < best.order() ==> alignment(xi, yi, o) < alignment(xi, yi, best))
        } by {
            match o {
                SpellElement::Fire => {},
                SpellElement::Water => {},
                SpellElement::Earth => {},
                SpellElement::Air => {},
                SpellElement::Metal => {},
                SpellElement::Plant => {},
                SpellElement::Electric => {},
                SpellElement::Ice => {},
                _ => {},
            }
        }
        assert(is_nearest_compass(xi, yi, best));
        lemma_nearest_unique(xi, yi, best, choose|e: SpellElement| is_nearest_compass(xi, yi, e));
    }
    best
}

/// The element of a layer from its counts of Fire, Water, Earth and Air runes.
pub fn from_counts(fire: u32, water: u32, earth: u32, air: u32) -> (r: SpellElement)
    ensures
        r == element_of_counts(fire as nat, water as nat, earth as nat, air as nat),
{
    if fire > 0 && water > 0 && earth > 0 && air > 0 {
        return SpellElement::Light;
    }
    element_from_vector(water as i64 - fire as i64, air as i64 - earth as i64)
}

} // verus!
