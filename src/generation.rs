//! Counting the ticks of a generation.
use vstd::prelude::*;

verus! {

/// Ticks in one generation.
pub const GEN_LEN: usize = 2500;

/// The age of the current generation, in ticks; always below `GEN_LEN`.
#[derive(Clone, Copy, Debug, PartialEq, Eq, Structural)]
pub struct GenerationClock {
    age: usize,
}

/// One tick from age `age`: the new age, and whether the tick completed a generation.
pub open spec fn tick_spec(age: nat) -> (nat, bool) {
    if age + 1 >= GEN_LEN {
        (0, true)
    } else {
        (age + 1, false)
    }
}

/// The age after `n` ticks from a fresh clock.
pub open spec fn age_after(n: nat) -> nat
    decreases n,
{
    if n == 0 {
        0
    } else {
        tick_spec(age_after((n - 1) as nat)).0
    }
}

/// Whether tick number `n` (counting from one) of a fresh clock completes a generation.
pub open spec fn completes_on(n: nat) -> bool {
    n >= 1 && tick_spec(age_after((n - 1) as nat)).1
}

/// A fresh clock reports no completed generation on its first `GEN_LEN - 1`
/// ticks, reports one on tick `GEN_LEN`, and is then back at age zero.
pub proof fn lemma_generation_cadence(n: nat)
    requires
        1 <= n <= GEN_LEN,
    ensures
        n < GEN_LEN ==> !completes_on(n) && age_after(n) == n,
        n == GEN_LEN ==> completes_on(n) && age_after(n) == 0,
    decreases n,
{
    lemma_age_before_generation_end((n - 1) as nat);
}

proof fn lemma_age_before_generation_end(n: nat)
    requires
        n < GEN_LEN,
    ensures
        age_after(n) == n,
    decreases n,
{
    if n > 0 {
        lemma_age_before_generation_end((n - 1) as nat);
    }
}

impl GenerationClock {
    pub closed spec fn age_spec(&self) -> nat {
        self.age as nat
    }

    #[verifier::type_invariant]
    spec fn below_generation_length(&self) -> bool {
        self.age < GEN_LEN
    }

    pub fn new() -> (r: GenerationClock)
        ensures
            r.age_spec() == 0,
    {
        GenerationClock { age: 0 }
    }

    pub fn age(&self) -> (r: usize)
        ensures
            r == self.age_spec(),
            r < GEN_LEN,
    {
        proof {
            use_type_invariant(self);
        }
        self.age
    }

    /// Advances one tick; true when the tick completes a generation, which
    /// resets the age to zero.
    pub fn tick(&mut self) -> (done: bool)
        ensures
            (final(self).age_spec(), done) == tick_spec(old(self).age_spec()),
    {
        proof {
            use_type_invariant(&*self);
        }
        if self.age + 1 >= GEN_LEN {
            self.age = 0;
            true
        } else {
            self.age = self.age + 1;
            false
        }
    }
}

} // verus!
