use vstd::prelude::*;

verus! {

/// How many ticks a generation lasts.
pub const GENERATION_LENGTH: usize = 2500;

/// The age that follows `age` after one tick, and whether that tick ends the
/// generation (the age then starts over from zero).
pub open spec fn next_age(age: nat) -> (nat, bool) {
    if age + 1 > GENERATION_LENGTH {
        (0, true)
    } else {
        (age + 1, false)
    }
}

/// The age after `k` ticks from `age`.
pub open spec fn age_after(age: nat, k: nat) -> nat
    decreases k,
{
    if k == 0 {
        age
    } else {
        next_age(age_after(age, (k - 1) as nat)).0
    }
}

/// Counts the ticks since the last generation boundary.
#[derive(Debug, Clone, Copy, PartialEq, Eq)]
pub struct GenerationClock {
    age: usize,
}

impl GenerationClock {
    pub fn new() -> (r: Self)
        ensures
            r.age() == 0,
    {
        GenerationClock { age: 0 }
    }

    pub closed spec fn age(&self) -> nat {
        self.age as nat
    }

    /// Ticks since the last generation boundary.
    pub fn get(&self) -> (r: usize)
        ensures
            r == self.age(),
    {
        self.age
    }

    /// Counts one tick; returns whether the generation has run out, in which
    /// case the age starts over from zero.
    pub fn tick(&mut self) -> (r: bool)
        ensures
            (final(self).age(), r) == next_age(old(self).age()),
    {
        if self.age >= GENERATION_LENGTH {
            self.age = 0;
            true
        } else {
            self.age = self.age + 1;
            false
        }
    }
}

/// From the start of a generation, the ticks one to `GENERATION_LENGTH` end
/// nothing, and the tick after them ends the generation and sets the age back
/// to zero.
pub proof fn lemma_generation_boundary(k: nat)
    requires
        1 <= k <= GENERATION_LENGTH + 1,
    ensures
        age_after(0, (k - 1) as nat) == k - 1,
        next_age(age_after(0, (k - 1) as nat)).1 == (k == GENERATION_LENGTH + 1),
        k == GENERATION_LENGTH + 1 ==> age_after(0, k) == 0,
    decreases k,
{
    if k > 1 {
        lemma_generation_boundary((k - 1) as nat);
    }
}

} // verus!
