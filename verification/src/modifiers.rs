use vstd::prelude::*;

use crate::arith::SCALE;

verus! {

/// How many counted turns an applied capacity modifier lasts.
pub const TOTAL_TURNS: u8 = 3;

/// A time-bounded multiplicative adjustment to a group's nominal capacity.
/// `factor` is a fixed-point multiplier (`SCALE` is the neutral factor 1);
/// factors below `SCALE` throttle, factors above boost.
#[derive(Clone, Copy, Debug, PartialEq, Eq, Structural)]
pub struct CapacityModifier {
    pub factor: u64,
    pub active: bool,
    pub just_applied: bool,
    pub turns: u8,
    pub remaining: u8,
}

impl CapacityModifier {
    /// An inactive modifier is at the baseline factor with no turns left;
    /// `just_applied` implies `active`; the countdown never exceeds the
    /// configured lifetime, which is at least one turn.
    pub open spec fn wf(self) -> bool {
        &&& !self.active ==> self.factor == SCALE && self.remaining == 0 && !self.just_applied
        &&& self.just_applied ==> self.active
        &&& self.remaining <= self.turns
        &&& self.turns >= 1
    }

    /// The inactive modifier with the given lifetime.
    pub open spec fn baseline(turns: u8) -> CapacityModifier {
        CapacityModifier {
            factor: SCALE,
            active: false,
            just_applied: false,
            turns: turns,
            remaining: 0,
        }
    }

    /// The multiplier the modifier currently contributes.
    pub open spec fn factor_spec(self) -> u64 {
        if self.active {
            self.factor
        } else {
            SCALE
        }
    }

    /// The state right after a successful `apply(f)`.
    pub open spec fn applied(self, f: u64) -> CapacityModifier {
        CapacityModifier {
            factor: f,
            active: true,
            just_applied: true,
            remaining: self.turns,
            ..self
        }
    }

    /// The state after one `tick`.
    pub open spec fn ticked(self) -> CapacityModifier {
        if !self.active {
            self
        } else if self.just_applied {
            CapacityModifier { just_applied: false, ..self }
        } else if self.remaining <= 1 {
            CapacityModifier::baseline(self.turns)
        } else {
            CapacityModifier { remaining: (self.remaining - 1) as u8, ..self }
        }
    }

    /// The state after `n` consecutive `tick`s.
    pub open spec fn ticked_n(self, n: nat) -> CapacityModifier
        decreases n,
    {
        if n == 0 {
            self
        } else {
            self.ticked().ticked_n((n - 1) as nat)
        }
    }

    pub fn new() -> (r: CapacityModifier)
        ensures
            r == CapacityModifier::baseline(TOTAL_TURNS),
            r.wf(),
    {
        CapacityModifier {
            factor: SCALE,
            active: false,
            just_applied: false,
            turns: TOTAL_TURNS,
            remaining: 0,
        }
    }

    pub fn factor(&self) -> (r: u64)
        ensures
            r == self.factor_spec(),
    {
        if self.active {
            self.factor
        } else {
            SCALE
        }
    }

    /// Refused while already active; otherwise installs the factor for a
    /// fresh lifetime, with the application turn itself not counted.
    pub fn apply(&mut self, factor: u64) -> (ok: bool)
        ensures
            ok == !old(self).active,
            *final(self) == if old(self).active {
                *old(self)
            } else {
                old(self).applied(factor)
            },
            old(self).wf() ==> final(self).wf(),
    {
        if self.is_active() {
            return false;
        }
        self.factor = factor;
        self.active = true;
        self.just_applied = true;
        self.remaining = self.turns;
        true
    }

    pub fn is_active(&self) -> (r: bool)
        ensures
            r == self.active,
    {
        self.active
    }

    fn deactivate(&mut self)
        ensures
            *final(self) == CapacityModifier::baseline(old(self).turns),
    {
        self.factor = SCALE;
        self.active = false;
        self.just_applied = false;
        self.remaining = 0;
    }

    pub fn is_just_applied(&self) -> (r: bool)
        ensures
            r == self.just_applied,
    {
        self.just_applied
    }

    /// Advance the lifecycle one turn: a no-op while inactive; the turn a
    /// modifier was applied in only clears `just_applied`; afterwards each
    /// tick counts down, and the modifier deactivates when the countdown
    /// ends.
    pub fn tick(&mut self)
        ensures
            *final(self) == old(self).ticked(),
            old(self).wf() ==> final(self).wf(),
    {
        if !self.is_active() {
            return;
        }

        if self.just_applied {
            self.just_applied = false;
            return;
        }

        if self.remaining > 0 {
            self.remaining = self.remaining - 1;
        }
        if self.remaining == 0 {
            self.deactivate();
        }
    }

    /// Runtime check of the lifecycle invariant.
    pub fn is_wf(&self) -> (r: bool)
        ensures
            r == self.wf(),
    {
        let inactive_ok = self.active || (self.factor == SCALE && self.remaining == 0
            && !self.just_applied);
        inactive_ok && (!self.just_applied || self.active) && self.remaining <= self.turns
            && self.turns >= 1
    }

    pub fn remaining_turns(&self) -> (r: u8)
        ensures
            r == self.remaining,
    {
        self.remaining
    }
}

/// One tick keeps a well-formed modifier well formed.
pub proof fn lemma_ticked_preserves_wf(m: CapacityModifier)
    ensures
        m.wf() ==> m.ticked().wf(),
{
}

/// An active modifier past its application turn deactivates after exactly
/// `remaining` more ticks.
pub proof fn lemma_modifier_drains(m: CapacityModifier)
    requires
        m.active,
        !m.just_applied,
        m.remaining >= 1,
    ensures
        m.ticked_n(m.remaining as nat) == CapacityModifier::baseline(m.turns),
    decreases m.remaining,
{
    assert(m.ticked_n(m.remaining as nat) == m.ticked().ticked_n((m.remaining - 1) as nat));
    if m.remaining == 1 {
        assert(m.ticked() == CapacityModifier::baseline(m.turns));
        assert(m.ticked().ticked_n(0) == m.ticked());
    } else {
        lemma_modifier_drains(m.ticked());
    }
}

/// After `apply(f)` and `turns + 1` consecutive ticks the modifier is
/// inactive again, back at the baseline factor.
pub proof fn lemma_modifier_expires(m: CapacityModifier, f: u64)
    requires
        m.wf(),
        !m.active,
    ensures
        m.applied(f).ticked_n((m.turns + 1) as nat) == CapacityModifier::baseline(m.turns),
        m.applied(f).ticked_n((m.turns + 1) as nat).factor_spec() == SCALE,
{
    let a = m.applied(f);
    assert(a.ticked() == CapacityModifier { just_applied: false, ..a });
    lemma_modifier_drains(a.ticked());
}

/// Applying a factor, letting it run out, and applying again leaves the
/// modifier exactly as a single fresh application would: an exhausted
/// lifecycle returns the modifier to its pre-application state.
pub proof fn lemma_modifier_reapply_round_trip(m: CapacityModifier, f1: u64, f2: u64)
    requires
        m.wf(),
        !m.active,
    ensures
        m.applied(f1).ticked_n((m.turns + 1) as nat) == m,
        m.applied(f1).ticked_n((m.turns + 1) as nat).applied(f2) == m.applied(f2),
{
    lemma_modifier_expires(m, f1);
    assert(CapacityModifier::baseline(m.turns) == m);
}

} // verus!
