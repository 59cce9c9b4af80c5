use vstd::prelude::*;
use crate::combat::take_damage;
use crate::element::MAX_COUNT;
use crate::queue::{EQUIPPED_SLOTS, EquippedRunes, RuneCastQueue};
use crate::runes::Rune;
use crate::spells::{ROOT_POWER, SpellData, spell_of, whole_mana_cost};

verus! {

/// Hit points shown by one heart.
pub const HEALTH_PER_HEART: i32 = 4;

/// Mana points shown by one orb.
pub const MANA_PER_ORB: i32 = 20;

/// The player's hit points.
#[derive(Clone, Copy, Debug, PartialEq, Eq, Structural)]
pub struct PlayerHealth {
    pub health: i32,
    pub max_health: i32,
}

/// The player's mana points.
#[derive(Clone, Copy, Debug, PartialEq, Eq, Structural)]
pub struct PlayerMana {
    pub mana: i32,
    pub max_mana: i32,
}

impl PlayerHealth {
    /// Full health of `n_hearts` hearts.
    pub fn new(n_hearts: u8) -> (r: PlayerHealth)
        ensures
            r.health == n_hearts * HEALTH_PER_HEART,
            r.max_health == r.health,
    {
        let health = n_hearts as i32 * HEALTH_PER_HEART;
        PlayerHealth { health, max_health: health }
    }

    /// Number of heart containers.
    pub fn get_heart_count(&self) -> (r: usize)
        requires
            self.max_health >= 0,
        ensures
            r == self.max_health / HEALTH_PER_HEART,
    {
        (self.max_health / HEALTH_PER_HEART) as usize
    }

    /// Number of completely filled hearts.
    pub fn get_filled_heart_count(&self) -> (r: usize)
        ensures
            self.health < 0 ==> r == 0,
            self.health >= 0 ==> r == self.health / HEALTH_PER_HEART,
    {
        if self.health < 0 {
            0
        } else {
            (self.health / HEALTH_PER_HEART) as usize
        }
    }

    /// Quarters filled in the partly filled heart.
    pub fn get_last_heart_state(&self) -> (r: usize)
        ensures
            self.health < 0 ==> r == 0,
            self.health >= 0 ==> r == self.health % HEALTH_PER_HEART,
    {
        if self.health < 0 {
            0
        } else {
            (self.health % HEALTH_PER_HEART) as usize
        }
    }
}

impl PlayerMana {
    /// Full mana of `n_orbs` orbs.
    pub fn new(n_orbs: u8) -> (r: PlayerMana)
        ensures
            r.mana == n_orbs * MANA_PER_ORB,
            r.max_mana == r.mana,
    {
        let mana = n_orbs as i32 * MANA_PER_ORB;
        PlayerMana { mana, max_mana: mana }
    }

    /// Number of orb containers.
    pub fn get_orb_count(&self) -> (r: usize)
        requires
            self.max_mana >= 0,
        ensures
            r == self.max_mana / MANA_PER_ORB,
    {
        (self.max_mana / MANA_PER_ORB) as usize
    }

    /// Number of completely filled orbs.
    pub fn get_filled_orb_count(&self) -> (r: usize)
        ensures
            self.mana < 0 ==> r == 0,
            self.mana >= 0 ==> r == self.mana / MANA_PER_ORB,
    {
        if self.mana < 0 {
            0
        } else {
            (self.mana / MANA_PER_ORB) as usize
        }
    }

    /// Which of `n_orb_states` fill images the partly filled orb shows: the
    /// leftover mana's share of an orb times `n_orb_states - 1`, rounded half up.
    pub fn get_last_orb_state(&self, n_orb_states: usize) -> (r: usize)
        requires
            n_orb_states >= 1,
        ensures
            self.mana <= 0 ==> r == 0,
            self.mana > 0 ==> r == (2 * (self.mana % MANA_PER_ORB) * (n_orb_states - 1) + MANA_PER_ORB)
                / (2 * MANA_PER_ORB),
    {
        if self.mana <= 0 {
            0
        } else {
            let leftover = (self.mana % MANA_PER_ORB) as u128;
            let steps = (n_orb_states - 1) as u128;
            assert(2 * leftover * steps <= 2 * 19 * 0xFFFF_FFFF_FFFF_FFFF) by (nonlinear_arith)
                requires
                    leftover <= 19,
                    steps <= 0xFFFF_FFFF_FFFF_FFFF,
            ;
            let r = (2 * leftover * steps + 20) / 40;
            assert(r <= steps) by (nonlinear_arith)
                requires
                    r == (2 * leftover * steps + 20) / 40,
                    leftover <= 19,
            ;
            r as usize
        }
    }
}

/// What the player is doing.
#[derive(Clone, Copy, Debug, PartialEq, Eq, Structural)]
pub enum PlayerState {
    Normal,
    Casting,
    Knockback,
}

/// The player's next state: knockback lasts until its timer runs out; a
/// player with queued runes and health left is casting.
pub fn next_player_state(
    state: PlayerState,
    queue_empty: bool,
    health: i32,
    knockback_finished: bool,
) -> (r: PlayerState)
    ensures
        state == PlayerState::Knockback ==> r == if knockback_finished {
            PlayerState::Normal
        } else {
            PlayerState::Knockback
        },
        state != PlayerState::Knockback ==> r == if queue_empty || health <= 0 {
            PlayerState::Normal
        } else {
            PlayerState::Casting
        },
{
    match state {
        PlayerState::Normal | PlayerState::Casting => {
            if queue_empty || health <= 0 {
                PlayerState::Normal
            } else {
                PlayerState::Casting
            }
        },
        PlayerState::Knockback => {
            if knockback_finished {
                PlayerState::Normal
            } else {
                PlayerState::Knockback
            }
        },
    }
}

/// A contact hit the player took.
#[derive(Clone, Copy, Debug, PartialEq, Eq, Structural)]
pub struct ContactHit {
    /// Index of the contact that hit.
    pub contact: usize,
    /// The hit took the player's last health.
    pub defeated: bool,
}

/// The contact deals positive damage.
pub open spec fn deals_damage(o: Option<i32>) -> bool {
    match o {
        Some(d) => d > 0,
        None => false,
    }
}

/// Index of the first contact that deals positive damage, if any.
pub open spec fn first_damaging(damages: Seq<Option<i32>>) -> Option<int> {
    if exists|k: int| 0 <= k < damages.len() && deals_damage(#[trigger] damages[k]) {
        Some(
            choose|k: int|
                0 <= k < damages.len() && deals_damage(#[trigger] damages[k]) && forall|j: int|
                    0 <= j < k ==> !deals_damage(damages[j]),
        )
    } else {
        None
    }
}

/// One tick of contact damage to the player.
///
/// `damages` holds, for each contact in the damages-player category, the
/// contact damage of its source, or `None` when the source deals none. While
/// the spell inventory is open or the player is intangible nothing happens.
/// Otherwise the first contact with positive damage hits, once: its damage
/// comes off the player's health, and the hit is reported, with whether it
/// took the last of the health.
pub fn update_take_damage(
    spell_ui_active: bool,
    tangible: bool,
    health: &mut PlayerHealth,
    damages: &Vec<Option<i32>>,
) -> (r: Option<ContactHit>)
    ensures
        final(health).max_health == old(health).max_health,
        spell_ui_active || !tangible ==> r is None && *final(health) == *old(health),
        !(spell_ui_active || !tangible) ==> match first_damaging(damages@) {
            None => r is None && *final(health) == *old(health),
            Some(k) => {
                let d = damages@[k]->Some_0;
                &&& r == Some(
                    ContactHit {
                        contact: k as usize,
                        defeated: final(health).health <= 0 && old(health).health > 0,
                    },
                )
                &&& final(health).health == take_damage(old(health).health, d)
            },
        },
{
    if spell_ui_active || !tangible {
        return None;
    }
    let mut k: usize = 0;
    while k < damages.len()
        invariant
            k <= damages@.len(),
            !spell_ui_active && tangible,
            *health == *old(health),
            forall|j: int| 0 <= j < k ==> !deals_damage(#[trigger] damages@[j]),
        decreases damages.len() - k,
    {
        match damages[k] {
            Some(d) => {
                if d > 0 {
                    let before = health.health;
                    health.health = if (before as i64) - (d as i64) < (i32::MIN as i64) {
                        i32::MIN
                    } else {
                        before - d
                    };
                    proof {
                        let w = k as int;
                        assert(deals_damage(damages@[w]));
                        let c = choose|c: int|
                            0 <= c < damages@.len() && deals_damage(#[trigger] damages@[c]) && forall|
                                j: int,
                            |
                                0 <= j < c ==> !deals_damage(damages@[j]);
                        assert(c == w) by {
                            if c < w {
                                assert(!deals_damage(damages@[c]));
                            } else if c > w {
                                assert(!deals_damage(damages@[w]));
                            }
                        }
                    }
                    return Some(ContactHit { contact: k, defeated: health.health <= 0 && before > 0 });
                }
            },
            None => {},
        }
        k = k + 1;
    }
    None
}

/// The input and situation of one tick of spell casting.
#[derive(Debug)]
pub struct CastInput {
    /// The spell inventory is open: casting is paused.
    pub spell_ui_active: bool,
    pub has_staff: bool,
    /// The player is being knocked back: the queue is lost.
    pub knocked_back: bool,
    /// Which rune slots were just pressed, by slot index.
    pub pressed: Vec<bool>,
    pub cast_pressed: bool,
    /// The pointer is over a UI element, so a cast press is not a cast.
    pub pointer_on_ui: bool,
    pub cancel_pressed: bool,
}

/// What a tick of spell casting did.
#[derive(Debug)]
pub enum CastOutcome {
    /// Nothing was cast.
    Idle,
    /// The spell was cast and its cost paid.
    Cast { spell: SpellData, cost: i32 },
    /// Mana fell short of the cost: the mana is gone and nothing was cast.
    Fizzled { cost: i32 },
}

/// The queue after the rune slots `0..n` were looked at in order, each
/// pressed slot holding a rune adding it.
pub open spec fn queue_after_presses(
    queue: Seq<Rune>,
    pressed: Seq<bool>,
    slots: Seq<Option<Rune>>,
    n: int,
) -> Seq<Rune>
    decreases n,
{
    if n <= 0 {
        queue
    } else {
        let prev = queue_after_presses(queue, pressed, slots, n - 1);
        let i = n - 1;
        if i < pressed.len() && pressed[i] && i < slots.len() && slots[i] is Some && prev.len()
            < MAX_COUNT {
            prev.push(slots[i]->Some_0)
        } else {
            prev
        }
    }
}

/// One tick of spell casting.
///
/// Nothing happens while the spell inventory is open, before the staff is
/// found, or once health is gone. Knockback empties the queue. Otherwise the
/// pressed rune slots add their runes, in slot order; then a cast compiles
/// the queue and empties it: a spell that does nothing costs nothing; one
/// that costs more than the mana left fizzles and drains the mana; else its
/// cost is paid and it is cast. A cancel empties the queue.
pub fn update_spell_casting(
    input: &CastInput,
    health: &PlayerHealth,
    equipped: &EquippedRunes,
    queue: &mut RuneCastQueue,
    mana: &mut PlayerMana,
) -> (r: CastOutcome)
    requires
        old(queue).wf(),
        equipped.wf(),
    ensures
        final(queue).wf(),
        final(mana).max_mana == old(mana).max_mana,
        ({
            let blocked = input.spell_ui_active || !input.has_staff || health.health <= 0;
            let pressed_queue = queue_after_presses(
                old(queue)@,
                input.pressed@,
                equipped@,
                EQUIPPED_SLOTS as int,
            );
            if blocked {
                &&& final(queue)@ == old(queue)@
                &&& *final(mana) == *old(mana)
                &&& r is Idle
            } else if input.knocked_back {
                &&& final(queue)@ == Seq::<Rune>::empty()
                &&& *final(mana) == *old(mana)
                &&& r is Idle
            } else if input.cast_pressed && !input.pointer_on_ui {
                &&& final(queue)@ == Seq::<Rune>::empty()
                &&& match spell_of(pressed_queue, ROOT_POWER as nat) {
                    None => *final(mana) == *old(mana) && r is Idle,
                    Some(s) => {
                        let cost = whole_mana_cost(s.mana_cost);
                        if old(mana).mana >= cost {
                            &&& r == (CastOutcome::Cast { spell: s, cost })
                            &&& final(mana).mana == old(mana).mana - cost
                        } else {
                            &&& r == (CastOutcome::Fizzled { cost })
                            &&& final(mana).mana == 0
                        }
                    },
                }
            } else if input.cancel_pressed {
                &&& final(queue)@ == Seq::<Rune>::empty()
                &&& *final(mana) == *old(mana)
                &&& r is Idle
            } else {
                &&& final(queue)@ == pressed_queue
                &&& *final(mana) == *old(mana)
                &&& r is Idle
            }
        }),
{
    if input.spell_ui_active || !input.has_staff || health.health <= 0 {
        return CastOutcome::Idle;
    }
    if input.knocked_back {
        queue.clear();
        return CastOutcome::Idle;
    }
    let ghost q0 = queue@;
    let mut idx: usize = 0;
    while idx < EQUIPPED_SLOTS
        invariant
            idx <= EQUIPPED_SLOTS,
            equipped.wf(),
            queue.wf(),
            queue@ == queue_after_presses(q0, input.pressed@, equipped@, idx as int),
        decreases EQUIPPED_SLOTS - idx,
    {
        if idx < input.pressed.len() && input.pressed[idx] {
            match equipped.get(idx) {
                Some(rune) => {
                    assert(equipped@[idx as int] matches Some(r) ==> r.well_formed());
                    queue.push(rune);
                },
                None => {},
            }
        }
        idx = idx + 1;
    }
    if input.cast_pressed && !input.pointer_on_ui {
        let spell = queue.generate_spell();
        queue.clear();
        match spell {
            Some(s) => {
                let cost = s.get_mana_cost();
                if mana.mana >= cost {
                    mana.mana = mana.mana - cost;
                    CastOutcome::Cast { spell: s, cost }
                } else {
                    mana.mana = 0;
                    CastOutcome::Fizzled { cost }
                }
            },
            None => CastOutcome::Idle,
        }
    } else {
        if input.cancel_pressed {
            queue.clear();
        }
        CastOutcome::Idle
    }
}

} // verus!
