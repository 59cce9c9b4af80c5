use vstd::prelude::*;
use vstd::slice::slice_subrange;
use crate::element::{MAX_COUNT, element_of_counts, from_counts};
use crate::numeric::{isqrt, sqrt_floor};
use crate::runes::{Rune, SpellElement, SpellShape, SpellSize};

verus! {

/// A power factor of 1.0, in millionths: the power of a cast's outer layer.
pub const ROOT_POWER: u32 = 1_000_000;

/// Mana costs are held in thousandths and saturate here, at the largest
/// whole cost a caster's mana can be compared with.
pub const MANA_COST_CAP: u64 = 2_147_483_647_000;

/// The squared damage of a layer is its damage key divided by this.
pub const DAMAGE_KEY_SCALE: u128 = 10_000_000_000;

/// One compiled spell layer and the layer it chains into, if any.
///
/// Units: `damage` is whole hit points, already rounded; `mana_cost` is in
/// thousandths of a mana point; `speed` is in tenths of a unit per second;
/// `knockback` is in tenths of a unit.
#[derive(Debug)]
pub struct SpellData {
    pub element: SpellElement,
    pub shape: SpellShape,
    pub size: SpellSize,
    pub damage: u64,
    pub mana_cost: u64,
    pub speed: u32,
    pub knockback: u32,
    pub on_collide: Option<Box<SpellData>>,
    pub on_end: Option<Box<SpellData>>,
}

/// Every rune of the sequence is well formed.
pub open spec fn runes_well_formed(runes: Seq<Rune>) -> bool {
    forall|i: int| 0 <= i < runes.len() ==> (#[trigger] runes[i]).well_formed()
}

/// The first index at or after `i` that holds a shape rune, or the length.
pub open spec fn shape_index_from(runes: Seq<Rune>, i: int) -> int
    decreases runes.len() - i,
{
    if i >= runes.len() {
        runes.len() as int
    } else if runes[i].is_shape() {
        i
    } else {
        shape_index_from(runes, i + 1)
    }
}

/// The shape of the outer layer: the first rune's, if it is a shape rune.
pub open spec fn layer_shape(runes: Seq<Rune>) -> SpellShape {
    if runes.len() > 0 && runes[0].is_shape() {
        runes[0]->ShapeRune_0
    } else {
        SpellShape::NoShape
    }
}

/// Where the outer layer's element runes begin.
pub open spec fn layer_start(runes: Seq<Rune>) -> int {
    if runes.len() > 0 && runes[0].is_shape() {
        1
    } else {
        0
    }
}

/// Where the outer layer ends: at the next shape rune, which opens the
/// nested layer, or at the end of the sequence.
pub open spec fn layer_end(runes: Seq<Rune>) -> int {
    shape_index_from(runes, 1)
}

/// How many runes of the sequence carry element `e`.
pub open spec fn count_of(s: Seq<Rune>, e: SpellElement) -> nat
    decreases s.len(),
{
    if s.len() == 0 {
        0
    } else {
        count_of(s.drop_last(), e) + if s.last() == Rune::ElementRune(e) {
            1nat
        } else {
            0nat
        }
    }
}

/// How many runes of element `e` the outer layer holds.
pub open spec fn layer_count(runes: Seq<Rune>, e: SpellElement) -> nat {
    count_of(runes.subrange(layer_start(runes), layer_end(runes)), e)
}

/// Twenty-five times the squared magnitude of a layer: for Light the
/// magnitude is `total / 2.5`, for Neutral zero, otherwise the length of
/// `(fire - water, earth - air)`.
pub open spec fn magnitude_key(
    fire: nat,
    water: nat,
    earth: nat,
    air: nat,
    element: SpellElement,
) -> nat {
    let total = fire + water + earth + air;
    let dx = fire - water;
    let dy = earth - air;
    match element {
        SpellElement::Light => 4 * total * total,
        SpellElement::Neutral => 0,
        _ => (25 * (dx * dx + dy * dy)) as nat,
    }
}

/// The nearest integer (halves up) to the square root of `key / DAMAGE_KEY_SCALE`.
pub open spec fn rounded_root(key: nat) -> nat {
    (sqrt_floor(4 * key / (DAMAGE_KEY_SCALE as nat)) + 1) / 2
}

/// Rounded damage of a layer:
/// `5 * magnitude * shape multiplier * element multiplier * sqrt(power)`,
/// with the multipliers in tenths and the power in millionths.
pub open spec fn damage_of(mkey: nat, shape: SpellShape, element: SpellElement, power: nat) -> nat {
    let sm = shape.spec_damage_multiplier() as nat;
    let em = element.spec_damage_multiplier() as nat;
    rounded_root(mkey * (sm * sm) * (em * em) * power)
}

/// Size class from the size factor `magnitude * power`: below 0.2 Tiny,
/// below 0.9 Small, below 4.0 Normal, else Large. Compared squared, with the
/// power in millionths.
pub open spec fn size_of(mkey: nat, power: nat) -> SpellSize {
    let q = mkey * (power * power);
    if q < 1_000_000_000_000 {
        SpellSize::Tiny
    } else if q < 20_250_000_000_000 {
        SpellSize::Small
    } else if q < 400_000_000_000_000 {
        SpellSize::Normal
    } else {
        SpellSize::Large
    }
}

/// The power factor handed to the layer nested under a layer of `shape`.
pub open spec fn child_power(power: nat, shape: SpellShape) -> nat {
    let p = power * (shape.spec_power_multiplier() as nat) / 10;
    if p > u32::MAX {
        u32::MAX as nat
    } else {
        p
    }
}

/// Mana cost of a layer in thousandths: five per element rune, plus the
/// nested layer's cost scaled by the shape's cost multiplier.
pub open spec fn cost_of(total: nat, shape: SpellShape, sub_cost: nat) -> nat {
    let c = 5000 * total + (shape.spec_cost_multiplier() as nat) * sub_cost / 10;
    if c > MANA_COST_CAP {
        MANA_COST_CAP as nat
    } else {
        c
    }
}

/// The nested layer, compiled from the runes after the outer layer.
pub open spec fn sub_spell_of(runes: Seq<Rune>, power: nat) -> Option<SpellData>
    decreases runes.len(), 0nat,
{
    let end = layer_end(runes);
    if 1 <= end < runes.len() {
        spell_of(runes.subrange(end, runes.len() as int), child_power(power, layer_shape(runes)))
    } else {
        None
    }
}

/// What a rune sequence compiles to at the given power (in millionths).
pub open spec fn spell_of(runes: Seq<Rune>, power: nat) -> Option<SpellData>
    decreases runes.len(), 1nat,
{
    if runes.len() == 0 {
        None
    } else {
        layer_spell(
            layer_shape(runes),
            layer_count(runes, SpellElement::Fire),
            layer_count(runes, SpellElement::Water),
            layer_count(runes, SpellElement::Earth),
            layer_count(runes, SpellElement::Air),
            power,
            sub_spell_of(runes, power),
        )
    }
}

/// One layer of shape `shape` with the given element rune counts, at the
/// given power, over the already compiled nested layer `sub`. A layer with
/// no element rune and nothing nested does nothing, and is `None`.
pub open spec fn layer_spell(
    shape: SpellShape,
    fire: nat,
    water: nat,
    earth: nat,
    air: nat,
    power: nat,
    sub: Option<SpellData>,
) -> Option<SpellData> {
    let total = fire + water + earth + air;
    if total == 0 && sub is None {
        None
    } else {
        let element = element_of_counts(fire, water, earth, air);
        let mkey = magnitude_key(fire, water, earth, air, element);
        let sub_cost: nat = match sub {
            Some(s) => s.mana_cost as nat,
            None => 0,
        };
        let boxed: Option<Box<SpellData>> = match sub {
            Some(s) => Some(Box::new(s)),
            None => None,
        };
        Some(
            SpellData {
                element,
                shape,
                size: size_of(mkey, power),
                damage: damage_of(mkey, shape, element, power) as u64,
                mana_cost: cost_of(total, shape, sub_cost) as u64,
                speed: (shape.spec_base_speed() * element.spec_speed_multiplier()) as u32,
                knockback: (shape.spec_base_knockback() * element.spec_knockback_multiplier()) as u32,
                on_collide: if shape.chains_on_collide() {
                    boxed
                } else {
                    None
                },
                on_end: if shape.chains_on_collide() {
                    None
                } else {
                    boxed
                },
            },
        )
    }
}

proof fn lemma_shape_index(s: Seq<Rune>, k: int, i: int)
    requires
        1 <= k <= i <= s.len(),
        forall|j: int| k <= j < i ==> !(#[trigger] s[j]).is_shape(),
        i == s.len() || s[i].is_shape(),
    ensures
        shape_index_from(s, k) == i,
    decreases i - k,
{
    if k < i {
        lemma_shape_index(s, k + 1, i);
    }
}

proof fn lemma_count_step(s: Seq<Rune>, start: int, i: int, e: SpellElement)
    requires
        0 <= start <= i < s.len(),
    ensures
        count_of(s.subrange(start, i + 1), e) == count_of(s.subrange(start, i), e) + if s[i]
            == Rune::ElementRune(e) {
            1nat
        } else {
            0nat
        },
{
    let t = s.subrange(start, i + 1);
    assert(t.drop_last() =~= s.subrange(start, i));
    assert(t.last() == s[i]);
}

proof fn lemma_magnitude_bound(fire: nat, water: nat, earth: nat, air: nat)
    requires
        fire + water + earth + air <= MAX_COUNT,
    ensures
        ({
            let dx = fire - water;
            let dy = earth - air;
            dx * dx + dy * dy <= 0x1_0000_0000_0000_0000
        }),
        4 * (fire + water + earth + air) * (fire + water + earth + air) <= 4 * 0x1_0000_0000_0000_0000,
{
    let t = fire + water + earth + air;
    let dx = fire - water;
    let dy = earth - air;
    let ax: int = if dx >= 0 { dx } else { -dx };
    let ay: int = if dy >= 0 { dy } else { -dy };
    assert(dx * dx == ax * ax) by (nonlinear_arith)
        requires
            ax == dx || ax == -dx,
    ;
    assert(dy * dy == ay * ay) by (nonlinear_arith)
        requires
            ay == dy || ay == -dy,
    ;
    assert(ax * ax + ay * ay <= t * t) by (nonlinear_arith)
        requires
            0 <= ax,
            0 <= ay,
            ax + ay <= t,
    ;
    assert(t * t <= 0x1_0000_0000_0000_0000) by (nonlinear_arith)
        requires
            0 <= t <= 0xFFFF_FFFF,
    ;
    assert(4 * t * t <= 4 * 0x1_0000_0000_0000_0000) by (nonlinear_arith)
        requires
            t * t <= 0x1_0000_0000_0000_0000,
    ;
}

/// Whole damage points applied by a hit: the rounded damage, saturated to `i32`.
pub open spec fn whole_damage(damage: u64) -> i32 {
    if damage > i32::MAX {
        i32::MAX
    } else {
        damage as i32
    }
}

/// Whole mana points a cast costs: the cost in thousandths rounded half up,
/// at least 1, saturated to `i32`.
pub open spec fn whole_mana_cost(cost: u64) -> i32 {
    if cost > 1000 {
        let c = (cost as nat + 500) / 1000;
        if c > i32::MAX {
            i32::MAX
        } else {
            c as i32
        }
    } else {
        1
    }
}

impl SpellData {
    /// Damage a hit of this spell applies.
    pub fn get_damage(&self) -> (r: i32)
        ensures
            r == whole_damage(self.damage),
    {
        if self.damage > i32::MAX as u64 {
            i32::MAX
        } else {
            self.damage as i32
        }
    }

    /// Mana this spell costs to cast.
    pub fn get_mana_cost(&self) -> (r: i32)
        ensures
            r == whole_mana_cost(self.mana_cost),
    {
        if self.mana_cost > 1000 {
            let c = self.mana_cost / 1000 + if self.mana_cost % 1000 >= 500 {
                1
            } else {
                0
            };
            assert(c == (self.mana_cost as nat + 500) / 1000);
            if c > i32::MAX as u64 {
                i32::MAX
            } else {
                c as i32
            }
        } else {
            1
        }
    }

    /// A deep copy of the spell tree.
    pub fn duplicate(&self) -> (r: SpellData)
        ensures
            r == *self,
        decreases self,
    {
        let on_collide = match &self.on_collide {
            Some(s) => Some(Box::new((**s).duplicate())),
            None => None,
        };
        let on_end = match &self.on_end {
            Some(s) => Some(Box::new((**s).duplicate())),
            None => None,
        };
        SpellData {
            element: self.element,
            shape: self.shape,
            size: self.size,
            damage: self.damage,
            mana_cost: self.mana_cost,
            speed: self.speed,
            knockback: self.knockback,
            on_collide,
            on_end,
        }
    }
}

fn magnitude_key_of(fire: u32, water: u32, earth: u32, air: u32, element: SpellElement) -> (r: u128)
    requires
        fire + water + earth + air <= MAX_COUNT,
    ensures
        r == magnitude_key(fire as nat, water as nat, earth as nat, air as nat, element),
        r <= 25 * 0x1_0000_0000_0000_0000,
{
    proof {
        lemma_magnitude_bound(fire as nat, water as nat, earth as nat, air as nat);
    }
    match element {
        SpellElement::Light => {
            let t = fire as u128 + water as u128 + earth as u128 + air as u128;
            4 * t * t
        },
        SpellElement::Neutral => 0,
        _ => {
            let dx: u128 = if fire >= water {
                (fire - water) as u128
            } else {
                (water - fire) as u128
            };
            let dy: u128 = if earth >= air {
                (earth - air) as u128
            } else {
                (air - earth) as u128
            };
            proof {
                let (fx, wx, ex, ax) = (fire as int, water as int, earth as int, air as int);
                assert(dx * dx == (fx - wx) * (fx - wx)) by (nonlinear_arith)
                    requires
                        dx == fx - wx || dx == wx - fx,
                ;
                assert(dy * dy == (ex - ax) * (ex - ax)) by (nonlinear_arith)
                    requires
                        dy == ex - ax || dy == ax - ex,
                ;
            }
            25 * (dx * dx + dy * dy)
        },
    }
}

fn damage_from(mkey: u128, shape: SpellShape, element: SpellElement, power: u32) -> (r: u64)
    requires
        mkey <= 25 * 0x1_0000_0000_0000_0000,
    ensures
        r == damage_of(mkey as nat, shape, element, power as nat),
{
    let sm = shape.damage_multiplier() as u128;
    let em = element.damage_multiplier() as u128;
    assert(sm * sm <= 100 && em * em <= 2500) by (nonlinear_arith)
        requires
            sm <= 10,
            em <= 50,
    ;
    let ghost b1: int = 25int * 0x1_0000_0000_0000_0000 * 100;
    let ghost b2: int = b1 * 2500;
    assert(mkey * (sm * sm) <= b1) by (nonlinear_arith)
        requires
            mkey <= 25 * 0x1_0000_0000_0000_0000,
            sm * sm <= 100,
            b1 == 25 * 0x1_0000_0000_0000_0000 * 100,
    ;
    let k1 = mkey * (sm * sm);
    assert(k1 * (em * em) <= b2) by (nonlinear_arith)
        requires
            k1 <= b1,
            em * em <= 2500,
            b2 == b1 * 2500,
    ;
    let k2 = k1 * (em * em);
    assert(k2 * power <= b2 * 0xFFFF_FFFF) by (nonlinear_arith)
        requires
            k2 <= b2,
            power <= 0xFFFF_FFFF,
    ;
    let key = k2 * power as u128;
    let root = isqrt(4 * key / DAMAGE_KEY_SCALE);
    ((root as u128 + 1) / 2) as u64
}

fn size_from(mkey: u128, power: u32) -> (r: SpellSize)
    ensures
        r == size_of(mkey as nat, power as nat),
{
    assert(power * power <= 0xFFFF_FFFF * 0xFFFF_FFFF) by (nonlinear_arith)
        requires
            power <= 0xFFFF_FFFF,
    ;
    let power_sq = power as u128 * power as u128;
    match mkey.checked_mul(power_sq) {
        Some(q) => {
            if q < 1_000_000_000_000 {
                SpellSize::Tiny
            } else if q < 20_250_000_000_000 {
                SpellSize::Small
            } else if q < 400_000_000_000_000 {
                SpellSize::Normal
            } else {
                SpellSize::Large
            }
        },
        None => SpellSize::Large,
    }
}

fn child_power_of(power: u32, shape: SpellShape) -> (r: u32)
    ensures
        r == child_power(power as nat, shape),
{
    let p = power as u64 * shape.power_multiplier() as u64 / 10;
    if p > u32::MAX as u64 {
        u32::MAX
    } else {
        p as u32
    }
}

fn cost_from(total: u64, shape: SpellShape, sub_cost: u64) -> (r: u64)
    requires
        total <= MAX_COUNT,
        sub_cost <= MANA_COST_CAP,
    ensures
        r == cost_of(total as nat, shape, sub_cost as nat),
        r <= MANA_COST_CAP,
{
    let m = shape.cost_multiplier() as u64;
    assert(m * sub_cost <= 13 * MANA_COST_CAP) by (nonlinear_arith)
        requires
            m <= 13,
            sub_cost <= MANA_COST_CAP,
    ;
    let c = 5000 * total + m * sub_cost / 10;
    if c > MANA_COST_CAP {
        MANA_COST_CAP
    } else {
        c
    }
}

/// Compiles one layer of a rune sequence at the given power (in millionths),
/// and the layers nested under it.
pub fn compile(runes: &[Rune], power: u32) -> (r: Option<SpellData>)
    requires
        runes@.len() <= MAX_COUNT,
        runes_well_formed(runes@),
    ensures
        r == spell_of(runes@, power as nat),
    decreases runes@.len(),
{
    let len = runes.len();
    if len == 0 {
        return None;
    }
    let (shape, start): (SpellShape, usize) = match runes[0] {
        Rune::ShapeRune(s) => (s, 1),
        Rune::ElementRune(_) => (SpellShape::NoShape, 0),
    };
    let ghost s = runes@;
    let mut fire: u32 = 0;
    let mut water: u32 = 0;
    let mut earth: u32 = 0;
    let mut air: u32 = 0;
    let mut i: usize = start;
    while i < len && !runes[i].is_shape_rune()
        invariant
            len == s.len(),
            s == runes@,
            s.len() <= MAX_COUNT,
            runes_well_formed(s),
            start == layer_start(s),
            start <= i <= len,
            i == 0 ==> !s[0].is_shape(),
            forall|j: int| 1 <= j < i ==> !(#[trigger] s[j]).is_shape(),
            fire == count_of(s.subrange(start as int, i as int), SpellElement::Fire),
            water == count_of(s.subrange(start as int, i as int), SpellElement::Water),
            earth == count_of(s.subrange(start as int, i as int), SpellElement::Earth),
            air == count_of(s.subrange(start as int, i as int), SpellElement::Air),
            fire + water + earth + air == i - start,
        decreases len - i,
    {
        proof {
            lemma_count_step(s, start as int, i as int, SpellElement::Fire);
            lemma_count_step(s, start as int, i as int, SpellElement::Water);
            lemma_count_step(s, start as int, i as int, SpellElement::Earth);
            lemma_count_step(s, start as int, i as int, SpellElement::Air);
            assert(s[i as int].well_formed());
        }
        match runes[i] {
            Rune::ElementRune(SpellElement::Fire) => {
                fire = fire + 1;
            },
            Rune::ElementRune(SpellElement::Water) => {
                water = water + 1;
            },
            Rune::ElementRune(SpellElement::Earth) => {
                earth = earth + 1;
            },
            Rune::ElementRune(SpellElement::Air) => {
                air = air + 1;
            },
            _ => {},
        }
        i = i + 1;
    }
    proof {
        assert(i >= 1);
        lemma_shape_index(s, 1, i as int);
        assert(layer_end(s) == i);
        assert(shape == layer_shape(s));
    }
    let sub = if i < len {
        let rest = slice_subrange(runes, i, len);
        proof {
            assert forall|j: int| 0 <= j < rest@.len() implies (#[trigger] rest@[j]).well_formed() by {
                assert(rest@[j] == s[i + j]);
            }
        }
        compile(rest, child_power_of(power, shape))
    } else {
        None
    };
    assemble_layer(shape, fire, water, earth, air, power, sub)
}

fn layer_speed(shape: SpellShape, element: SpellElement) -> (r: u32)
    ensures
        r == shape.spec_base_speed() * element.spec_speed_multiplier(),
{
    let b = shape.base_speed();
    let m = element.speed_multiplier();
    assert(b * m <= 200 * 30) by (nonlinear_arith)
        requires
            b <= 200,
            m <= 30,
    ;
    b * m
}

fn layer_knockback(shape: SpellShape, element: SpellElement) -> (r: u32)
    ensures
        r == shape.spec_base_knockback() * element.spec_knockback_multiplier(),
{
    let b = shape.base_knockback();
    let m = element.knockback_multiplier();
    assert(b * m <= 120 * 25) by (nonlinear_arith)
        requires
            b <= 120,
            m <= 25,
    ;
    b * m
}

fn assemble_layer(
    shape: SpellShape,
    fire: u32,
    water: u32,
    earth: u32,
    air: u32,
    power: u32,
    sub: Option<SpellData>,
) -> (r: Option<SpellData>)
    requires
        fire + water + earth + air <= MAX_COUNT,
        sub matches Some(sp) ==> sp.mana_cost <= MANA_COST_CAP,
    ensures
        r == layer_spell(shape, fire as nat, water as nat, earth as nat, air as nat, power as nat, sub),
{
    let total = fire as u64 + water as u64 + earth as u64 + air as u64;
    if total == 0 && sub.is_none() {
        return None;
    }
    let element = from_counts(fire, water, earth, air);
    let mkey = magnitude_key_of(fire, water, earth, air, element);
    let damage = damage_from(mkey, shape, element, power);
    let size = size_from(mkey, power);
    let sub_cost: u64 = match &sub {
        Some(sp) => sp.mana_cost,
        None => 0,
    };
    let mana_cost = cost_from(total, shape, sub_cost);
    let speed = layer_speed(shape, element);
    let knockback = layer_knockback(shape, element);
    let chains_on_collide = match shape {
        SpellShape::NoShape | SpellShape::Line => true,
        _ => false,
    };
    let (on_collide, on_end) = match sub {
        Some(sp) => {
            if chains_on_collide {
                (Some(Box::new(sp)), None)
            } else {
                (None, Some(Box::new(sp)))
            }
        },
        None => (None, None),
    };
    Some(
        SpellData {
            element,
            shape,
            size,
            damage,
            mana_cost,
            speed,
            knockback,
            on_collide,
            on_end,
        },
    )
}

} // verus!
