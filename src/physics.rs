//! Character movement decisions: the jump budget a character spends while
//! airborne.
use vstd::prelude::*;

verus! {

/// Ticks of jump acceleration granted on take-off.
pub const JUMP_TICKS: u8 = 5;

/// Movement intent for one character, refreshed each tick by input handling.
#[derive(Copy, Clone, Debug, PartialEq, Eq)]
pub struct MovementState {
    /// True if this character is attempting to move forwards.
    pub forward: bool,
    /// True if this character is attempting to move backwards.
    pub backward: bool,
    /// True if this character is attempting to strafe left.
    pub left: bool,
    /// True if this character is attempting to strafe right.
    pub right: bool,
    /// True if this character is attempting to jump.
    pub jumping: bool,
    /// Number of ticks this character can continue to accelerate while
    /// jumping.
    pub can_jump: u8,
}

/// One tick of the jump rule for a character that is (`grounded`) or is not
/// on the ground: the remaining budget afterwards, and whether jump
/// acceleration applies this tick. Holding jump on the ground grants a fresh
/// budget and accelerates at once; holding it in the air spends one tick of
/// budget per accelerated tick.
pub open spec fn jump_rule(can_jump: int, jumping: bool, grounded: bool) -> (int, bool) {
    if jumping && grounded {
        (JUMP_TICKS as int, true)
    } else if jumping && can_jump > 0 {
        (can_jump - 1, true)
    } else {
        (can_jump, false)
    }
}

/// Remaining budget and number of accelerated ticks after `k` airborne ticks
/// with jump held, starting from budget `c`.
pub open spec fn airborne_budget(c: int, k: nat) -> (int, int)
    decreases k,
{
    if k == 0 {
        (c, 0)
    } else {
        let prev = airborne_budget(c, (k - 1) as nat);
        let step = jump_rule(prev.0, true, false);
        (step.0, prev.1 + if step.1 { 1int } else { 0int })
    }
}

impl MovementState {
    /// No movement intent and no jump budget.
    pub fn new() -> (r: MovementState)
        ensures
            !r.forward && !r.backward && !r.left && !r.right && !r.jumping,
            r.can_jump == 0,
    {
        MovementState {
            forward: false,
            backward: false,
            left: false,
            right: false,
            jumping: false,
            can_jump: 0,
        }
    }

    /// Apply the jump rule for one tick; returns whether jump acceleration
    /// applies this tick. Only the budget changes.
    pub fn jump_step(&mut self, grounded: bool) -> (r: bool)
        ensures
            final(self).can_jump as int == jump_rule(
                old(self).can_jump as int,
                old(self).jumping,
                grounded,
            ).0,
            r == jump_rule(old(self).can_jump as int, old(self).jumping, grounded).1,
            final(self).forward == old(self).forward,
            final(self).backward == old(self).backward,
            final(self).left == old(self).left,
            final(self).right == old(self).right,
            final(self).jumping == old(self).jumping,
    {
        if self.jumping {
            if grounded {
                self.can_jump = JUMP_TICKS;
                true
            } else if self.can_jump > 0 {
                self.can_jump = self.can_jump - 1;
                true
            } else {
                false
            }
        } else {
            false
        }
    }
}

/// The jump budget runs out exactly `JUMP_TICKS` ticks after take-off: with
/// jump held, after `k` airborne ticks the budget is `JUMP_TICKS - k` (never
/// below zero), and jump acceleration has applied on `min(k, JUMP_TICKS)` of them.
pub proof fn lemma_jump_budget(k: nat)
    ensures
        airborne_budget(JUMP_TICKS as int, k).0 == if k <= JUMP_TICKS as int {
            JUMP_TICKS as int - k
        } else {
            0
        },
        airborne_budget(JUMP_TICKS as int, k).1 == if k <= JUMP_TICKS as int {
            k as int
        } else {
            JUMP_TICKS as int
        },
    decreases k,
{
    if k > 0 {
        lemma_jump_budget((k - 1) as nat);
    }
}

} // verus!
