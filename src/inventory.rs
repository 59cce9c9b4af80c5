use vstd::prelude::*;
use crate::queue::{EQUIPPED_SLOTS, EquippedRunes};
use crate::runes::Rune;

verus! {

/// A rune the player may own, and whether it has been unlocked.
#[derive(Clone, Copy, Debug, PartialEq, Eq, Structural)]
pub struct RuneInventorySlot {
    pub index: u32,
    pub rune: Rune,
    pub unlocked: bool,
}

/// What the pointer is over in the spell inventory screen.
#[derive(Clone, Copy, Debug, PartialEq, Eq, Structural)]
pub enum MouseoverTarget {
    /// One of the equipped rune slots.
    SpellSelectedSlot(usize),
    /// One of the inventory's rune slots.
    SpellInventorySlot(usize),
}

/// Every rune of the inventory is well formed.
pub open spec fn inventory_wf(inventory: Seq<RuneInventorySlot>) -> bool {
    forall|i: int| 0 <= i < inventory.len() ==> (#[trigger] inventory[i]).rune.well_formed()
}

/// The last of the first `n` rune keys that was pressed.
pub open spec fn last_pressed(pressed: Seq<bool>, n: int) -> Option<usize>
    decreases n,
{
    if n <= 0 {
        None
    } else if n - 1 < pressed.len() && pressed[n - 1] {
        Some((n - 1) as usize)
    } else {
        last_pressed(pressed, n - 1)
    }
}

/// Slots after swapping `a` and `b`, both in range.
pub open spec fn swapped(slots: Seq<Option<Rune>>, a: int, b: int) -> Seq<Option<Rune>> {
    slots.update(a, slots[b]).update(b, slots[a])
}

/// Slots after binding `rune` to slot `index`, taken out of any other slot.
pub open spec fn equipped_with(slots: Seq<Option<Rune>>, index: int, rune: Rune) -> Seq<Option<Rune>> {
    Seq::new(
        slots.len(),
        |j: int|
            if j == index {
                Some(rune)
            } else if slots[j] == Some(rune) {
                None
            } else {
                slots[j]
            },
    )
}

/// A rune key pressed while the pointer is over the inventory screen: over
/// an equipped slot, that slot and the key's slot swap runes; over an
/// unlocked inventory rune, the key's slot takes that rune, which leaves any
/// other slot. When several rune keys are pressed the last one counts.
pub fn update_spell_selection(
    pressed: &Vec<bool>,
    target: Option<MouseoverTarget>,
    inventory: &Vec<RuneInventorySlot>,
    equipped: &mut EquippedRunes,
)
    requires
        old(equipped).wf(),
        inventory_wf(inventory@),
    ensures
        final(equipped).wf(),
        ({
            let before = old(equipped)@;
            match (last_pressed(pressed@, EQUIPPED_SLOTS as int), target) {
                (Some(a), Some(MouseoverTarget::SpellSelectedSlot(i))) => if i < EQUIPPED_SLOTS {
                    final(equipped)@ == swapped(before, a as int, i as int)
                } else {
                    final(equipped)@ == before
                },
                (Some(a), Some(MouseoverTarget::SpellInventorySlot(i))) => if i < inventory@.len()
                    && inventory@[i as int].unlocked {
                    final(equipped)@ == equipped_with(before, a as int, inventory@[i as int].rune)
                } else {
                    final(equipped)@ == before
                },
                _ => final(equipped)@ == before,
            }
        }),
{
    let mut chosen: Option<usize> = None;
    let mut k: usize = 0;
    while k < EQUIPPED_SLOTS
        invariant
            k <= EQUIPPED_SLOTS,
            chosen == last_pressed(pressed@, k as int),
            chosen matches Some(c) ==> c < k,
        decreases EQUIPPED_SLOTS - k,
    {
        if k < pressed.len() && pressed[k] {
            chosen = Some(k);
        }
        k = k + 1;
    }
    match (chosen, target) {
        (Some(a), Some(MouseoverTarget::SpellSelectedSlot(i))) => {
            equipped.swap(a, i);
        },
        (Some(a), Some(MouseoverTarget::SpellInventorySlot(i))) => {
            if i < inventory.len() && inventory[i].unlocked {
                assert(inventory@[i as int].rune.well_formed());
                equipped.equip(a, inventory[i].rune);
                proof {
                    assert(final(equipped)@ =~= equipped_with(old(equipped)@, a as int, inventory@[i as int].rune));
                }
            }
        },
        _ => {},
    }
}

/// The inventory holds `rune` as a locked slot.
pub open spec fn locked_in(inventory: Seq<RuneInventorySlot>, rune: Rune) -> bool {
    exists|i: int| 0 <= i < inventory.len() && (#[trigger] inventory[i]).rune == rune && !inventory[i].unlocked
}

fn is_locked(inventory: &Vec<RuneInventorySlot>, rune: Rune) -> (r: bool)
    ensures
        r == locked_in(inventory@, rune),
{
    let mut i: usize = 0;
    while i < inventory.len()
        invariant
            i <= inventory@.len(),
            forall|j: int| 0 <= j < i ==> !((#[trigger] inventory@[j]).rune == rune && !inventory@[j].unlocked),
        decreases inventory.len() - i,
    {
        if inventory[i].rune == rune && !inventory[i].unlocked {
            return true;
        }
        i = i + 1;
    }
    false
}

/// Takes out of the equipped slots every rune that the inventory holds as
/// locked, as on a respawn from a save point.
pub fn unequip_locked(equipped: &mut EquippedRunes, inventory: &Vec<RuneInventorySlot>)
    requires
        old(equipped).wf(),
    ensures
        final(equipped).wf(),
        final(equipped)@ == Seq::new(
            EQUIPPED_SLOTS as nat,
            |j: int|
                match old(equipped)@[j] {
                    Some(r) => if locked_in(inventory@, r) {
                        None
                    } else {
                        Some(r)
                    },
                    None => None,
                },
        ),
{
    let ghost s0 = equipped@;
    let mut j: usize = 0;
    while j < EQUIPPED_SLOTS
        invariant
            j <= EQUIPPED_SLOTS,
            s0.len() == EQUIPPED_SLOTS,
            equipped.wf(),
            forall|q: int|
                0 <= q < EQUIPPED_SLOTS ==> #[trigger] equipped@[q] == if q < j {
                    match s0[q] {
                        Some(r) => if locked_in(inventory@, r) {
                            None
                        } else {
                            Some(r)
                        },
                        None => None,
                    }
                } else {
                    s0[q]
                },
        decreases EQUIPPED_SLOTS - j,
    {
        match equipped.get(j) {
            Some(rune) => {
                if is_locked(inventory, rune) {
                    equipped.set(j, None);
                }
            },
            None => {},
        }
        j = j + 1;
    }
    proof {
        assert(equipped@ =~= Seq::new(
            EQUIPPED_SLOTS as nat,
            |q: int|
                match s0[q] {
                    Some(r) => if locked_in(inventory@, r) {
                        None
                    } else {
                        Some(r)
                    },
                    None => None,
                },
        ));
    }
}

} // verus!
