//! Choosing which particle slot a new particle takes.

use vstd::prelude::*;

verus! {

/// The first index in `from..to` whose particle is dead, if any.
pub open spec fn first_dead(dead: Seq<bool>, from: int, to: int) -> Option<int>
    decreases to - from,
{
    if from >= to {
        None
    } else if dead[from] {
        Some(from)
    } else {
        first_dead(dead, from + 1, to)
    }
}

/// The slot a new particle takes: the first dead particle at or after the last slot used,
/// else the first dead one before it, else slot 0 (overwriting a live particle).
pub open spec fn unused_slot(dead: Seq<bool>, last_used: int, amount: int) -> int {
    match first_dead(dead, last_used, amount) {
        Some(i) => i,
        None => match first_dead(dead, 0, last_used) {
            Some(i) => i,
            None => 0,
        },
    }
}

proof fn lemma_first_dead(dead: Seq<bool>, from: int, to: int)
    ensures
        first_dead(dead, from, to) matches Some(i) ==> from <= i < to && dead[i] && forall|j: int|
            from <= j < i ==> !dead[j],
        first_dead(dead, from, to) is None ==> forall|j: int| from <= j < to ==> !dead[j],
    decreases to - from,
{
    if from < to {
        lemma_first_dead(dead, from + 1, to);
    }
}

/// The slot a new particle takes is the first dead particle at or after the last slot used;
/// when there is none, the first dead particle before it; when there is none either, slot 0.
pub proof fn lemma_unused_slot_is_first_dead(dead: Seq<bool>, last_used: int, amount: int)
    requires
        0 <= last_used <= dead.len(),
        amount <= dead.len(),
    ensures
        (exists|k: int| last_used <= k < amount && #[trigger] dead[k]) ==> {
            let s = unused_slot(dead, last_used, amount);
            &&& last_used <= s < amount
            &&& dead[s]
            &&& forall|j: int| last_used <= j < s ==> !#[trigger] dead[j]
        },
        (forall|k: int| last_used <= k < amount ==> !#[trigger] dead[k]) && (exists|k: int|
            0 <= k < last_used && #[trigger] dead[k]) ==> {
            let s = unused_slot(dead, last_used, amount);
            &&& 0 <= s < last_used
            &&& dead[s]
            &&& forall|j: int| 0 <= j < s ==> !#[trigger] dead[j]
        },
        (forall|k: int| last_used <= k < amount ==> !#[trigger] dead[k]) && (forall|k: int|
            0 <= k < last_used ==> !#[trigger] dead[k]) ==> unused_slot(dead, last_used, amount)
            == 0,
{
    lemma_first_dead(dead, last_used, amount);
    lemma_first_dead(dead, 0, last_used);
}

/// Returns the slot for a new particle, where `dead[i]` tells whether particle `i` has no
/// life left, and records it in `last_used`.
pub fn first_unused_particle(dead: &Vec<bool>, last_used: &mut u32, amount: u32) -> (r: u32)
    requires
        amount <= dead@.len(),
        *old(last_used) > dead@.len() ==> exists|i: int| 0 <= i < dead@.len() && dead@[i],
    ensures
        r == unused_slot(dead@, *old(last_used) as int, amount as int),
        *final(last_used) == r,
        r == 0 || dead@[r as int],
        r < dead@.len() || dead@.len() == 0,
{
    let ghost start = *last_used as int;
    proof {
        lemma_first_dead(dead@, start, amount as int);
        lemma_first_dead(dead@, 0, start);
    }
    let mut i = *last_used;
    while i < amount
        invariant
            start <= i,
            i <= amount || i == start,
            start == *old(last_used),
            *last_used == start,
            amount <= dead@.len(),
            forall|j: int| start <= j < i ==> !dead@[j],
        decreases amount - i,
    {
        if dead[i as usize] {
            *last_used = i;
            proof {
                lemma_first_dead(dead@, start, amount as int);
            }
            return i;
        }
        i = i + 1;
    }
    let mut i: u32 = 0;
    while i < *last_used
        invariant
            0 <= i <= start,
            start == *last_used,
            start == *old(last_used),
            amount <= dead@.len(),
            start > dead@.len() ==> exists|k: int| 0 <= k < dead@.len() && dead@[k],
            forall|j: int| 0 <= j < i ==> !dead@[j],
            forall|j: int| start <= j < amount ==> !dead@[j],
        decreases start - i,
    {
        if dead[i as usize] {
            *last_used = i;
            proof {
                lemma_first_dead(dead@, start, amount as int);
                lemma_first_dead(dead@, 0, start);
            }
            return i;
        }
        i = i + 1;
    }
    proof {
        lemma_first_dead(dead@, start, amount as int);
        lemma_first_dead(dead@, 0, start);
    }
    *last_used = 0;
    0
}

} // verus!
