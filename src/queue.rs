use vstd::prelude::*;
use crate::element::MAX_COUNT;
use crate::runes::Rune;
use crate::spells::{ROOT_POWER, SpellData, compile, runes_well_formed, spell_of};

verus! {

/// Number of equipped rune slots.
pub const EQUIPPED_SLOTS: usize = 5;

/// The runes a caster has queued, in the order they were pressed.
#[derive(Debug)]
pub struct RuneCastQueue {
    runes: Vec<Rune>,
}

impl View for RuneCastQueue {
    type V = Seq<Rune>;

    closed spec fn view(&self) -> Seq<Rune> {
        self.runes@
    }
}

impl RuneCastQueue {
    /// Every queued rune is well formed, and the queue fits the rune counters.
    pub open spec fn wf(&self) -> bool {
        self@.len() <= MAX_COUNT && runes_well_formed(self@)
    }

    pub fn new() -> (r: RuneCastQueue)
        ensures
            r@ == Seq::<Rune>::empty(),
            r.wf(),
    {
        RuneCastQueue { runes: Vec::new() }
    }

    /// Queues a well-formed rune; a queue already at the counters' limit is
    /// left as it is.
    pub fn push(&mut self, rune: Rune)
        requires
            old(self).wf(),
            rune.well_formed(),
        ensures
            final(self).wf(),
            old(self)@.len() < MAX_COUNT ==> final(self)@ == old(self)@.push(rune),
            old(self)@.len() >= MAX_COUNT ==> final(self)@ == old(self)@,
    {
        if (self.runes.len() as u64) < MAX_COUNT {
            self.runes.push(rune);
        }
    }

    /// Empties the queue.
    pub fn clear(&mut self)
        ensures
            final(self)@ == Seq::<Rune>::empty(),
            final(self).wf(),
    {
        self.runes.clear();
    }

    pub fn len(&self) -> (r: usize)
        ensures
            r == self@.len(),
    {
        self.runes.len()
    }

    /// The queued runes, oldest first.
    pub fn as_slice(&self) -> (r: &[Rune])
        ensures
            r@ == self@,
    {
        self.runes.as_slice()
    }

    /// Compiles the queued runes at full power.
    pub fn generate_spell(&self) -> (r: Option<SpellData>)
        requires
            self.wf(),
        ensures
            r == spell_of(self@, ROOT_POWER as nat),
    {
        compile(self.runes.as_slice(), ROOT_POWER)
    }
}

/// The rune bound to each of the caster's five rune slots.
#[derive(Debug)]
pub struct EquippedRunes {
    slots: Vec<Option<Rune>>,
}

impl View for EquippedRunes {
    type V = Seq<Option<Rune>>;

    closed spec fn view(&self) -> Seq<Option<Rune>> {
        self.slots@
    }
}

impl EquippedRunes {
    /// Five slots, each empty or holding a well-formed rune.
    pub open spec fn wf(&self) -> bool {
        &&& self@.len() == EQUIPPED_SLOTS
        &&& forall|i: int| 0 <= i < self@.len() ==> ((#[trigger] self@[i]) matches Some(r) ==> r.well_formed())
    }

    /// Five empty slots.
    pub fn new() -> (r: EquippedRunes)
        ensures
            r@ == Seq::new(EQUIPPED_SLOTS as nat, |i: int| None::<Rune>),
            r.wf(),
    {
        let mut slots: Vec<Option<Rune>> = Vec::new();
        let mut i: usize = 0;
        while i < EQUIPPED_SLOTS
            invariant
                i <= EQUIPPED_SLOTS,
                slots@ == Seq::new(i as nat, |j: int| None::<Rune>),
            decreases EQUIPPED_SLOTS - i,
        {
            slots.push(None);
            i = i + 1;
            assert(slots@ =~= Seq::new(i as nat, |j: int| None::<Rune>));
        }
        EquippedRunes { slots }
    }

    /// Binds `rune` to slot `index`; an index past the slots changes nothing.
    pub fn set(&mut self, index: usize, rune: Option<Rune>)
        requires
            old(self).wf(),
            rune matches Some(r) ==> r.well_formed(),
        ensures
            final(self).wf(),
            index < old(self)@.len() ==> final(self)@ == old(self)@.update(index as int, rune),
            index >= old(self)@.len() ==> final(self)@ == old(self)@,
    {
        if index < self.slots.len() {
            self.slots.set(index, rune);
        }
    }

    /// Exchanges the runes of two slots; an index past the slots changes nothing.
    pub fn swap(&mut self, a: usize, b: usize)
        requires
            old(self).wf(),
        ensures
            final(self).wf(),
            a < EQUIPPED_SLOTS && b < EQUIPPED_SLOTS ==> final(self)@ == old(self)@.update(
                a as int,
                old(self)@[b as int],
            ).update(b as int, old(self)@[a as int]),
            !(a < EQUIPPED_SLOTS && b < EQUIPPED_SLOTS) ==> final(self)@ == old(self)@,
    {
        if a < self.slots.len() && b < self.slots.len() {
            let ra = self.slots[a];
            let rb = self.slots[b];
            self.slots.set(a, rb);
            self.slots.set(b, ra);
        }
    }

    /// Binds `rune` to slot `index`, first taking it out of any other slot
    /// that holds it, so that a rune is equipped at most once.
    pub fn equip(&mut self, index: usize, rune: Rune)
        requires
            old(self).wf(),
            rune.well_formed(),
        ensures
            final(self).wf(),
            index < EQUIPPED_SLOTS ==> final(self)@ == Seq::new(
                EQUIPPED_SLOTS as nat,
                |j: int|
                    if j == index {
                        Some(rune)
                    } else if old(self)@[j] == Some(rune) {
                        None
                    } else {
                        old(self)@[j]
                    },
            ),
            index >= EQUIPPED_SLOTS ==> final(self)@ == Seq::new(
                EQUIPPED_SLOTS as nat,
                |j: int|
                    if old(self)@[j] == Some(rune) {
                        None
                    } else {
                        old(self)@[j]
                    },
            ),
    {
        let ghost s0 = self.slots@;
        let mut j: usize = 0;
        while j < EQUIPPED_SLOTS
            invariant
                j <= EQUIPPED_SLOTS,
                s0.len() == EQUIPPED_SLOTS,
                self.wf(),
                forall|q: int|
                    0 <= q < EQUIPPED_SLOTS ==> #[trigger] self.slots@[q] == if q < j && s0[q] == Some(
                        rune,
                    ) {
                        None
                    } else {
                        s0[q]
                    },
            decreases EQUIPPED_SLOTS - j,
        {
            if self.slots[j] == Some(rune) {
                self.slots.set(j, None);
            }
            j = j + 1;
        }
        if index < EQUIPPED_SLOTS {
            self.slots.set(index, Some(rune));
        }
        proof {
            if index < EQUIPPED_SLOTS {
                assert(self.slots@ =~= Seq::new(
                    EQUIPPED_SLOTS as nat,
                    |q: int|
                        if q == index {
                            Some(rune)
                        } else if s0[q] == Some(rune) {
                            None
                        } else {
                            s0[q]
                        },
                ));
            } else {
                assert(self.slots@ =~= Seq::new(
                    EQUIPPED_SLOTS as nat,
                    |q: int|
                        if s0[q] == Some(rune) {
                            None
                        } else {
                            s0[q]
                        },
                ));
            }
        }
    }

    /// The rune bound to slot `index`, if the slot exists and holds one.
    pub fn get(&self, index: usize) -> (r: Option<Rune>)
        ensures
            index < self@.len() ==> r == self@[index as int],
            index >= self@.len() ==> r is None,
    {
        if index < self.slots.len() {
            self.slots[index]
        } else {
            None
        }
    }
}

} // verus!
