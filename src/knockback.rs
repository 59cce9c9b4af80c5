use vstd::prelude::*;

verus! {

/// Bound on the components of velocities and impulses, in absolute value.
pub const VELOCITY_LIMIT: i64 = 0x100_0000_0000;

/// Bound on knockback multipliers, in thousandths.
pub const MULTIPLIER_LIMIT: i64 = 0x10_0000;

/// A planar velocity or impulse, in thousandths of a unit per second.
#[derive(Clone, Copy, Debug, PartialEq, Eq, Structural)]
pub struct Vector {
    pub x: i64,
    pub y: i64,
}

/// A decaying knockback impulse and the enemy's multiplier for it, in
/// thousandths.
#[derive(Clone, Copy, Debug, PartialEq, Eq, Structural)]
pub struct EnemyKnockbackComponent {
    pub impulse: Vector,
    pub multiplier: i64,
}

pub open spec fn component_ok(v: int) -> bool {
    -VELOCITY_LIMIT <= v <= VELOCITY_LIMIT
}

pub open spec fn vector_ok(v: Vector) -> bool {
    component_ok(v.x as int) && component_ok(v.y as int)
}

impl EnemyKnockbackComponent {
    pub open spec fn wf(self) -> bool {
        vector_ok(self.impulse) && 0 <= self.multiplier <= MULTIPLIER_LIMIT
    }
}

/// `a / 1000`, rounded toward zero.
pub open spec fn thousandths(a: int) -> int {
    if a >= 0 {
        a / 1000
    } else {
        -((-a) / 1000)
    }
}

fn thousandths_of(a: i64) -> (r: i64)
    requires
        a > i64::MIN,
    ensures
        r == thousandths(a as int),
{
    if a >= 0 {
        a / 1000
    } else {
        -((-a) / 1000)
    }
}

/// How much one component of an impulse adds to the speed: the component
/// times the multiplier, in thousandths, rounded toward zero.
pub open spec fn push_of(v: int, multiplier: int) -> int {
    thousandths(v * multiplier)
}

/// The knockback's share of the speed.
pub open spec fn knockback_push(k: EnemyKnockbackComponent) -> (int, int) {
    (push_of(k.impulse.x as int, k.multiplier as int), push_of(k.impulse.y as int, k.multiplier as int))
}

/// An impulse after decaying by `decay` thousandths of itself being kept.
pub open spec fn decayed(k: EnemyKnockbackComponent, decay: int) -> EnemyKnockbackComponent {
    EnemyKnockbackComponent {
        impulse: Vector {
            x: thousandths(k.impulse.x * decay) as i64,
            y: thousandths(k.impulse.y * decay) as i64,
        },
        multiplier: k.multiplier,
    }
}

/// A speed with the knockback's share taken out (`sign == -1`) or put back
/// (`sign == 1`).
pub open spec fn with_push(speed: Vector, k: EnemyKnockbackComponent, sign: int) -> Vector {
    Vector {
        x: (speed.x + sign * knockback_push(k).0) as i64,
        y: (speed.y + sign * knockback_push(k).1) as i64,
    }
}

proof fn lemma_push_bound(v: int, m: int)
    requires
        component_ok(v),
        0 <= m <= MULTIPLIER_LIMIT,
    ensures
        -0x1000_0000_0000_0000 <= v * m <= 0x1000_0000_0000_0000,
        -VELOCITY_LIMIT * 0x1000 <= push_of(v, m) <= VELOCITY_LIMIT * 0x1000,
{
    assert(-0x1000_0000_0000_0000 <= v * m <= 0x1000_0000_0000_0000) by (nonlinear_arith)
        requires
            -0x100_0000_0000 <= v <= 0x100_0000_0000,
            0 <= m <= 0x10_0000,
    ;
}

fn push_component(v: i64, m: i64) -> (r: i64)
    requires
        component_ok(v as int),
        0 <= m <= MULTIPLIER_LIMIT,
    ensures
        r == push_of(v as int, m as int),
        -VELOCITY_LIMIT * 0x1000 <= r <= VELOCITY_LIMIT * 0x1000,
{
    proof {
        lemma_push_bound(v as int, m as int);
    }
    thousandths_of(v * m)
}

/// Decays the knockback by `decay` thousandths being kept, then takes its
/// share out of the speed, so that the AI that runs next sees only its own
/// intended velocity.
pub fn knockback_pre_update(knockback: &mut EnemyKnockbackComponent, speed: &mut Vector, decay: i64)
    requires
        old(knockback).wf(),
        0 <= decay <= 1000,
        vector_ok(*old(speed)),
    ensures
        *final(knockback) == decayed(*old(knockback), decay as int),
        final(knockback).wf(),
        *final(speed) == with_push(*old(speed), *final(knockback), -1),
{
    let k = *knockback;
    assert(-VELOCITY_LIMIT * 1000 <= k.impulse.x * decay <= VELOCITY_LIMIT * 1000) by (nonlinear_arith)
        requires
            component_ok(k.impulse.x as int),
            0 <= decay <= 1000,
    ;
    assert(-VELOCITY_LIMIT * 1000 <= k.impulse.y * decay <= VELOCITY_LIMIT * 1000) by (nonlinear_arith)
        requires
            component_ok(k.impulse.y as int),
            0 <= decay <= 1000,
    ;
    let nx = thousandths_of(k.impulse.x * decay);
    let ny = thousandths_of(k.impulse.y * decay);
    knockback.impulse = Vector { x: nx, y: ny };
    let px = push_component(nx, k.multiplier);
    let py = push_component(ny, k.multiplier);
    *speed = Vector { x: speed.x - px, y: speed.y - py };
}

/// Puts the knockback's share back into the speed, on top of whatever the
/// AI decided.
pub fn knockback_post_update(knockback: &EnemyKnockbackComponent, speed: &mut Vector)
    requires
        knockback.wf(),
        -VELOCITY_LIMIT * 0x2000 <= old(speed).x <= VELOCITY_LIMIT * 0x2000,
        -VELOCITY_LIMIT * 0x2000 <= old(speed).y <= VELOCITY_LIMIT * 0x2000,
    ensures
        *final(speed) == with_push(*old(speed), *knockback, 1),
{
    let px = push_component(knockback.impulse.x, knockback.multiplier);
    let py = push_component(knockback.impulse.y, knockback.multiplier);
    *speed = Vector { x: speed.x + px, y: speed.y + py };
}

/// Over a frame in which the AI leaves the speed alone, the knockback
/// brackets compose additively: the speed changes by exactly the
/// knockback's share after the frame's impulses less its share after the
/// decay. With no impulse in between, the speed comes back unchanged.
pub proof fn lemma_knockback_frame(
    speed: Vector,
    knockback: EnemyKnockbackComponent,
    decay: int,
    impulse: Vector,
)
    requires
        knockback.wf(),
        0 <= decay <= 1000,
        vector_ok(speed),
        vector_ok(impulse),
        vector_ok(
            Vector {
                x: (decayed(knockback, decay).impulse.x + impulse.x) as i64,
                y: (decayed(knockback, decay).impulse.y + impulse.y) as i64,
            },
        ),
    ensures
        ({
            let pre = decayed(knockback, decay);
            let after_pre = with_push(speed, pre, -1);
            let post = EnemyKnockbackComponent {
                impulse: Vector {
                    x: (pre.impulse.x + impulse.x) as i64,
                    y: (pre.impulse.y + impulse.y) as i64,
                },
                multiplier: knockback.multiplier,
            };
            let after_post = with_push(after_pre, post, 1);
            &&& after_post.x - speed.x == knockback_push(post).0 - knockback_push(pre).0
            &&& after_post.y - speed.y == knockback_push(post).1 - knockback_push(pre).1
            &&& (impulse == Vector { x: 0, y: 0 } ==> after_post == speed)
        }),
{
    let pre = decayed(knockback, decay);
    assert(-VELOCITY_LIMIT * 1000 <= knockback.impulse.x * decay <= VELOCITY_LIMIT * 1000) by (nonlinear_arith)
        requires
            component_ok(knockback.impulse.x as int),
            0 <= decay <= 1000,
    ;
    assert(-VELOCITY_LIMIT * 1000 <= knockback.impulse.y * decay <= VELOCITY_LIMIT * 1000) by (nonlinear_arith)
        requires
            component_ok(knockback.impulse.y as int),
            0 <= decay <= 1000,
    ;
    assert(vector_ok(pre.impulse));
    let post = EnemyKnockbackComponent {
        impulse: Vector {
            x: (pre.impulse.x + impulse.x) as i64,
            y: (pre.impulse.y + impulse.y) as i64,
        },
        multiplier: knockback.multiplier,
    };
    lemma_push_bound(pre.impulse.x as int, knockback.multiplier as int);
    lemma_push_bound(pre.impulse.y as int, knockback.multiplier as int);
    lemma_push_bound(post.impulse.x as int, knockback.multiplier as int);
    lemma_push_bound(post.impulse.y as int, knockback.multiplier as int);
    if impulse == (Vector { x: 0, y: 0 }) {
        assert(post == pre);
    }
}

} // verus!
