use vstd::prelude::*;
use crate::spells::{SpellData, whole_damage};

verus! {

/// Health of an enemy: current and maximum hit points.
#[derive(Clone, Copy, Debug, PartialEq, Eq, Structural)]
pub struct EnemyHealth(pub i32, pub i32);

/// A request to spawn a chained spell where a projectile stands.
#[derive(Debug)]
pub struct ChainRequest {
    /// Index of the projectile whose position and heading the new spell takes.
    pub projectile: usize,
    pub spell: SpellData,
}

/// What one pass of combat resolution did.
#[derive(Debug)]
pub struct HitReport {
    /// The applied hits, as (projectile, enemy) pairs, in the order applied.
    pub hits: Vec<(usize, usize)>,
    /// Projectiles to despawn, one for each hit.
    pub despawns: Vec<usize>,
    /// Sub-spells chained on impact.
    pub chained: Vec<ChainRequest>,
}

/// Projectile `p` has a hit among `hits`.
pub open spec fn has_hit(hits: Seq<(usize, usize)>, p: usize) -> bool {
    exists|k: int| 0 <= k < hits.len() && (#[trigger] hits[k]).0 == p
}

/// The hits applied for a list of contacts: in order, each contact between
/// an existing projectile and an existing enemy, unless that projectile has
/// already hit this pass. The first contact of a projectile wins.
pub open spec fn applied_hits(contacts: Seq<(usize, usize)>, projectiles: nat, enemies: nat) -> Seq<
    (usize, usize),
>
    decreases contacts.len(),
{
    if contacts.len() == 0 {
        Seq::empty()
    } else {
        let prev = applied_hits(contacts.drop_last(), projectiles, enemies);
        let c = contacts.last();
        if c.0 < projectiles && c.1 < enemies && !has_hit(prev, c.0) {
            prev.push(c)
        } else {
            prev
        }
    }
}

/// Health after taking `d` damage; no clamping at zero, saturating at the
/// bottom of `i32`.
pub open spec fn take_damage(h: i32, d: i32) -> i32 {
    if h - d < i32::MIN {
        i32::MIN
    } else {
        (h - d) as i32
    }
}

/// Enemy health after the hits, applied in order.
pub open spec fn health_after(
    healths: Seq<EnemyHealth>,
    hits: Seq<(usize, usize)>,
    spells: Seq<SpellData>,
) -> Seq<EnemyHealth>
    decreases hits.len(),
{
    if hits.len() == 0 {
        healths
    } else {
        let h = health_after(healths, hits.drop_last(), spells);
        let (p, e) = hits.last();
        let d = whole_damage(spells[p as int].damage);
        if d > 0 {
            h.update(e as int, EnemyHealth(take_damage(h[e as int].0, d), h[e as int].1))
        } else {
            h
        }
    }
}

/// The spell chained by a projectile, with where it is spawned.
pub open spec fn chain_of(p: usize, slot: Option<Box<SpellData>>) -> Seq<ChainRequest> {
    match slot {
        Some(s) => seq![ChainRequest { projectile: p, spell: *s }],
        None => Seq::empty(),
    }
}

/// Sub-spells chained on impact by the hits, in order.
pub open spec fn impact_chains(hits: Seq<(usize, usize)>, spells: Seq<SpellData>) -> Seq<
    ChainRequest,
>
    decreases hits.len(),
{
    if hits.len() == 0 {
        Seq::empty()
    } else {
        let p = hits.last().0;
        impact_chains(hits.drop_last(), spells) + chain_of(p, spells[p as int].on_collide)
    }
}

/// Sub-spells chained when the projectiles end, in the order of the
/// despawn requests; requests naming no projectile are passed over.
pub open spec fn end_chains(despawns: Seq<usize>, spells: Seq<SpellData>) -> Seq<ChainRequest>
    decreases despawns.len(),
{
    if despawns.len() == 0 {
        Seq::empty()
    } else {
        let p = despawns.last();
        end_chains(despawns.drop_last(), spells) + if p < spells.len() {
            chain_of(p, spells[p as int].on_end)
        } else {
            Seq::empty()
        }
    }
}

proof fn lemma_has_hit_push(hits: Seq<(usize, usize)>, c: (usize, usize), p: usize)
    ensures
        has_hit(hits.push(c), p) == (has_hit(hits, p) || c.0 == p),
{
    let h2 = hits.push(c);
    if has_hit(hits, p) {
        let k = choose|k: int| 0 <= k < hits.len() && (#[trigger] hits[k]).0 == p;
        assert(h2[k] == hits[k]);
    }
    if c.0 == p {
        assert(h2[hits.len() as int] == c);
    }
    if has_hit(h2, p) {
        let k = choose|k: int| 0 <= k < h2.len() && (#[trigger] h2[k]).0 == p;
        if k < hits.len() {
            assert(hits[k] == h2[k]);
        }
    }
}

/// Every projectile with a contact against an existing enemy is hit, and so
/// despawned, in the pass; and no projectile is hit twice in one pass.
pub proof fn lemma_contacts_despawn_once(contacts: Seq<(usize, usize)>, projectiles: nat, enemies: nat)
    ensures
        ({
            let hits = applied_hits(contacts, projectiles, enemies);
            let despawns = hits.map_values(|h: (usize, usize)| h.0);
            &&& forall|k: int|
                0 <= k < contacts.len() && (#[trigger] contacts[k]).0 < projectiles && contacts[k].1
                    < enemies ==> despawns.contains(contacts[k].0)
            &&& forall|i: int, j: int|
                0 <= i < j < hits.len() ==> (#[trigger] hits[i]).0 != (#[trigger] hits[j]).0
        }),
    decreases contacts.len(),
{
    let hits = applied_hits(contacts, projectiles, enemies);
    let despawns = hits.map_values(|h: (usize, usize)| h.0);
    if contacts.len() > 0 {
        let init = contacts.drop_last();
        lemma_contacts_despawn_once(init, projectiles, enemies);
        let prev = applied_hits(init, projectiles, enemies);
        let c = contacts.last();
        assert forall|q: usize| has_hit(prev, q) implies has_hit(hits, q) by {
            let k = choose|k: int| 0 <= k < prev.len() && (#[trigger] prev[k]).0 == q;
            assert(hits[k] == prev[k]);
        }
        assert forall|k: int|
            0 <= k < contacts.len() && (#[trigger] contacts[k]).0 < projectiles && contacts[k].1
                < enemies implies despawns.contains(contacts[k].0) by {
            let q = contacts[k].0;
            if k < init.len() {
                assert(init[k] == contacts[k]);
                let pd = prev.map_values(|h: (usize, usize)| h.0);
                assert(pd.contains(q));
                let m = choose|m: int| 0 <= m < pd.len() && pd[m] == q;
                assert(prev[m].0 == q);
                assert(has_hit(prev, q));
            } else {
                assert(c == contacts[k]);
                if !has_hit(prev, q) {
                    assert(hits[prev.len() as int] == c);
                    assert(has_hit(hits, q));
                }
            }
            assert(has_hit(hits, q));
            let m = choose|m: int| 0 <= m < hits.len() && (#[trigger] hits[m]).0 == q;
            assert(despawns[m] == q);
        }
        assert forall|i: int, j: int| 0 <= i < j < hits.len() implies (#[trigger] hits[i]).0
            != (#[trigger] hits[j]).0 by {
            if j >= prev.len() {
                assert(hits[j] == c);
                assert(hits[i] == prev[i]);
                if hits[i].0 == c.0 {
                    assert(has_hit(prev, c.0));
                }
            } else {
                assert(hits[i] == prev[i]);
                assert(hits[j] == prev[j]);
            }
        }
    }
}

fn chain_request(p: usize, slot: &Option<Box<SpellData>>) -> (r: Option<ChainRequest>)
    ensures
        match r {
            Some(c) => chain_of(p, *slot) == seq![c],
            None => chain_of(p, *slot) == Seq::<ChainRequest>::empty(),
        },
{
    match slot {
        Some(s) => Some(ChainRequest { projectile: p, spell: (**s).duplicate() }),
        None => None,
    }
}

/// Resolves one tick of contacts between damaging projectiles and enemies.
///
/// Each contact names a projectile (an index into `spells`) and an enemy (an
/// index into `healths`); a contact naming neither an existing projectile nor
/// an existing enemy is passed over. A projectile hits at most once per call:
/// its first contact wins. Each hit subtracts the spell's damage from the
/// enemy, when positive, despawns the projectile, and chains the spell's
/// impact sub-spell.
pub fn process_spell_enemy_collisions(
    contacts: &Vec<(usize, usize)>,
    spells: &Vec<SpellData>,
    healths: &mut Vec<EnemyHealth>,
) -> (r: HitReport)
    ensures
        r.hits@ == applied_hits(contacts@, spells@.len(), old(healths)@.len()),
        r.despawns@ == r.hits@.map_values(|h: (usize, usize)| h.0),
        final(healths)@ == health_after(old(healths)@, r.hits@, spells@),
        r.chained@ == impact_chains(r.hits@, spells@),
{
    let ghost h0 = healths@;
    let mut hit_flags: Vec<bool> = Vec::new();
    let mut j: usize = 0;
    while j < spells.len()
        invariant
            j <= spells.len(),
            hit_flags@.len() == j,
            forall|q: int| 0 <= q < j ==> !(#[trigger] hit_flags@[q]),
        decreases spells.len() - j,
    {
        hit_flags.push(false);
        j = j + 1;
    }
    let mut hits: Vec<(usize, usize)> = Vec::new();
    let mut despawns: Vec<usize> = Vec::new();
    let mut chained: Vec<ChainRequest> = Vec::new();
    let mut k: usize = 0;
    while k < contacts.len()
        invariant
            k <= contacts.len(),
            hit_flags@.len() == spells@.len(),
            healths@.len() == h0.len(),
            hits@ == applied_hits(contacts@.subrange(0, k as int), spells@.len(), h0.len()),
            forall|q: usize| q < spells@.len() ==> hit_flags@[q as int] == has_hit(hits@, q),
            forall|i: int| 0 <= i < hits@.len() ==> (#[trigger] hits@[i]).0 < spells@.len() && hits@[i].1 < h0.len(),
            despawns@ == hits@.map_values(|h: (usize, usize)| h.0),
            healths@ == health_after(h0, hits@, spells@),
            chained@ == impact_chains(hits@, spells@),
        decreases contacts.len() - k,
    {
        let (p, e) = contacts[k];
        let ghost prev = hits@;
        proof {
            let sub = contacts@.subrange(0, k as int + 1);
            assert(sub.drop_last() =~= contacts@.subrange(0, k as int));
            assert(sub.last() == (p, e));
        }
        if p < spells.len() && e < healths.len() && !hit_flags[p] {
            hits.push((p, e));
            despawns.push(p);
            proof {
                assert forall|q: usize| q < spells@.len() implies #[trigger] hit_flags@.update(
                    p as int,
                    true,
                )[q as int] == has_hit(hits@, q) by {
                    lemma_has_hit_push(prev, (p, e), q);
                }
                assert(hits@.drop_last() =~= prev);
                assert(despawns@ =~= hits@.map_values(|h: (usize, usize)| h.0));
            }
            hit_flags.set(p, true);
            let d = spells[p].get_damage();
            if d > 0 {
                let old_h = healths[e];
                let nh = if (old_h.0 as i64) - (d as i64) < (i32::MIN as i64) {
                    i32::MIN
                } else {
                    old_h.0 - d
                };
                healths.set(e, EnemyHealth(nh, old_h.1));
            }
            let c = chain_request(p, &spells[p].on_collide);
            match c {
                Some(c) => {
                    chained.push(c);
                },
                None => {},
            }
            proof {
                assert(chained@ =~= impact_chains(hits@, spells@));
            }
        }
        k = k + 1;
    }
    proof {
        assert(contacts@.subrange(0, contacts@.len() as int) =~= contacts@);
    }
    HitReport { hits, despawns, chained }
}

/// Handles despawn requests: each projectile that carries a sub-spell for
/// when it ends chains that sub-spell. Requests naming no projectile are
/// passed over.
pub fn despawn_spells(despawns: &Vec<usize>, spells: &Vec<SpellData>) -> (r: Vec<ChainRequest>)
    ensures
        r@ == end_chains(despawns@, spells@),
{
    let mut chained: Vec<ChainRequest> = Vec::new();
    let mut k: usize = 0;
    while k < despawns.len()
        invariant
            k <= despawns.len(),
            chained@ == end_chains(despawns@.subrange(0, k as int), spells@),
        decreases despawns.len() - k,
    {
        let p = despawns[k];
        proof {
            let sub = despawns@.subrange(0, k as int + 1);
            assert(sub.drop_last() =~= despawns@.subrange(0, k as int));
            assert(sub.last() == p);
        }
        if p < spells.len() {
            match chain_request(p, &spells[p].on_end) {
                Some(c) => {
                    chained.push(c);
                },
                None => {},
            }
        }
        proof {
            assert(chained@ =~= end_chains(despawns@.subrange(0, k as int + 1), spells@));
        }
        k = k + 1;
    }
    proof {
        assert(despawns@.subrange(0, despawns@.len() as int) =~= despawns@);
    }
    chained
}

/// Indices of the enemies with no health left, in order.
pub open spec fn dead_among(healths: Seq<EnemyHealth>) -> Seq<usize>
    decreases healths.len(),
{
    if healths.len() == 0 {
        Seq::empty()
    } else {
        let prev = dead_among(healths.drop_last());
        if healths.last().0 <= 0 {
            prev.push((healths.len() - 1) as usize)
        } else {
            prev
        }
    }
}

/// The enemies to remove: those whose health is at or below zero.
pub fn clean_dead_enemies(healths: &Vec<EnemyHealth>) -> (r: Vec<usize>)
    ensures
        r@ == dead_among(healths@),
{
    let mut out: Vec<usize> = Vec::new();
    let mut i: usize = 0;
    while i < healths.len()
        invariant
            i <= healths@.len(),
            out@ == dead_among(healths@.subrange(0, i as int)),
        decreases healths.len() - i,
    {
        proof {
            let sub = healths@.subrange(0, i as int + 1);
            assert(sub.drop_last() =~= healths@.subrange(0, i as int));
        }
        if healths[i].0 <= 0 {
            out.push(i);
        }
        i = i + 1;
    }
    proof {
        assert(healths@.subrange(0, healths@.len() as int) =~= healths@);
    }
    out
}

/// An enemy notices the player once the player comes into view or the
/// enemy has been hurt, and then stays alert.
pub fn notices_player(noticed: bool, in_view: bool, health: EnemyHealth) -> (r: bool)
    ensures
        r == (noticed || in_view || health.0 < health.1),
{
    noticed || in_view || health.0 < health.1
}

} // verus!
