//! Experience and levels.
//!
//! A unit at level `n` needs `5 * n` experience to reach level `n + 1`.
//! Reaching a level costs that much experience, adds one point of
//! maximal health and one of damage, and heals the unit fully.

use vstd::prelude::*;

verus! {

/// The experience a unit at `level` needs for the next level.
pub open spec fn threshold(level: nat) -> nat {
    5 * level
}

/// How many levels a unit at `level` gains when it holds `xp` experience.
pub open spec fn level_ups(level: nat, xp: nat) -> nat
    decreases xp, (if level == 0 { 1nat } else { 0nat }),
{
    if xp >= threshold(level) {
        1 + level_ups(level + 1, (xp - threshold(level)) as nat)
    } else {
        0
    }
}

/// The experience a unit at `level` keeps once `xp` has paid for all the
/// levels it can reach.
pub open spec fn xp_left(level: nat, xp: nat) -> nat
    decreases xp, (if level == 0 { 1nat } else { 0nat }),
{
    if xp >= threshold(level) {
        xp_left(level + 1, (xp - threshold(level)) as nat)
    } else {
        xp
    }
}

/// The experience that `k` levels cost in a row, starting from `level`.
pub open spec fn xp_cost(level: nat, k: nat) -> nat
    decreases k,
{
    if k == 0 {
        0
    } else {
        threshold(level) + xp_cost(level + 1, (k - 1) as nat)
    }
}

/// The stats that experience changes.
#[derive(Clone, Copy, Debug, PartialEq, Eq, Structural)]
pub struct Progress {
    pub level: u32,
    pub xp: u32,
    pub health: u32,
    pub max_health: u32,
    pub damage: u32,
}

impl Progress {
    /// The levels gained when `amount` experience is added.
    pub open spec fn gained(self, amount: u32) -> nat {
        level_ups(self.level as nat, (self.xp + amount) as nat)
    }

    /// Whether every number stays in range while `amount` experience is
    /// added and the levels it pays for are taken.
    pub open spec fn fits(self, amount: u32) -> bool {
        &&& self.xp + amount <= u32::MAX
        &&& 5 * (self.level + self.gained(amount)) <= u32::MAX
        &&& self.max_health + self.gained(amount) <= u32::MAX
        &&& self.damage + self.gained(amount) <= u32::MAX
    }

    /// The stats after `amount` experience was added.
    pub open spec fn with_xp(self, amount: u32) -> Progress {
        let k = self.gained(amount);
        Progress {
            level: (self.level + k) as u32,
            xp: xp_left(self.level as nat, (self.xp + amount) as nat) as u32,
            health: if k > 0 { (self.max_health + k) as u32 } else { self.health },
            max_health: (self.max_health + k) as u32,
            damage: (self.damage + k) as u32,
        }
    }

    /// Adding experience raises the level by the largest number of levels
    /// that the experience pays for, each at the price of five times the
    /// level it is taken from, and keeps what is left over, which is less
    /// than the price of the next level. This asks only that the sum of the
    /// experience and the price of each level reached fit in 32 bits; it
    /// asks nothing of health or damage.
    pub proof fn lemma_with_xp_level(self, amount: u32)
        requires
            self.xp + amount <= u32::MAX,
            5 * (self.level + self.gained(amount)) <= u32::MAX,
        ensures
            self.with_xp(amount).level == self.level + self.gained(amount),
            xp_cost(self.level as nat, self.gained(amount)) <= self.xp + amount,
            self.xp + amount < xp_cost(self.level as nat, self.gained(amount) + 1),
            forall|k: nat| xp_cost(self.level as nat, k) <= self.xp + amount <==> k <= self.gained(amount),
            self.with_xp(amount).xp == self.xp + amount - xp_cost(self.level as nat, self.gained(amount)),
            self.with_xp(amount).xp < 5 * self.with_xp(amount).level,
    {
        let level = self.level as nat;
        let xp = (self.xp + amount) as nat;
        lemma_level_ups_is_largest(level, xp);
        lemma_xp_left_is_short(level, xp);
        assert forall|k: nat| xp_cost(level, k) <= xp <==> k <= level_ups(level, xp) by {
            lemma_level_ups_characterised(level, xp, k);
        }
    }

    /// Each level gained adds one point of maximal health and of damage.
    /// If a level was gained the unit is at full health; if none was, its
    /// health is as before. Either way health stays within its maximum if it
    /// was.
    pub proof fn lemma_with_xp(self, amount: u32)
        requires
            self.fits(amount),
        ensures
            self.with_xp(amount).max_health == self.max_health + self.gained(amount),
            self.with_xp(amount).damage == self.damage + self.gained(amount),
            self.gained(amount) > 0 ==> self.with_xp(amount).health == self.with_xp(amount).max_health,
            self.gained(amount) == 0 ==> self.with_xp(amount).health == self.health,
            self.health <= self.max_health ==> self.with_xp(amount).health <= self.with_xp(amount).max_health,
    {
    }

    /// Tests [`Progress::fits`] without leaving the range of the numbers.
    pub fn can_add_xp(self, amount: u32) -> (r: bool)
        ensures
            r == self.fits(amount),
    {
        let start: u64 = self.xp as u64 + amount as u64;
        if start > 0xffff_ffff {
            return false;
        }
        let mut xp: u64 = start;
        let mut level: u64 = self.level as u64;
        let mut k: u64 = 0;
        while xp >= 5 * level
            invariant
                xp <= start <= 0xffff_ffff,
                level == self.level + k,
                k <= start - xp + 1,
                k + level_ups(level as nat, xp as nat) == self.gained(amount),
            decreases xp, (if level == 0 { 1nat } else { 0nat }),
        {
            xp = xp - 5 * level;
            level = level + 1;
            k = k + 1;
        }
        5 * level <= 0xffff_ffff && self.max_health as u64 + k <= 0xffff_ffff && self.damage as u64 + k
            <= 0xffff_ffff
    }

    /// Adds `amount` experience and takes every level it pays for.
    pub fn add_xp(self, amount: u32) -> (r: Progress)
        requires
            self.fits(amount),
        ensures
            r == self.with_xp(amount),
    {
        let mut p = self;
        p.xp = p.xp + amount;
        let ghost total = self.gained(amount);
        let ghost mut done: nat = 0;
        while p.xp >= 5 * p.level
            invariant
                done + level_ups(p.level as nat, p.xp as nat) == total,
                xp_left(p.level as nat, p.xp as nat) == xp_left(self.level as nat, (self.xp + amount) as nat),
                p.level == self.level + done,
                p.max_health == self.max_health + done,
                p.damage == self.damage + done,
                p.health == (if done > 0 { p.max_health } else { self.health }),
                5 * (self.level + total) <= u32::MAX,
                self.max_health + total <= u32::MAX,
                self.damage + total <= u32::MAX,
            decreases p.xp, (if p.level == 0 { 1nat } else { 0nat }),
        {
            p.xp = p.xp - 5 * p.level;
            p.level = p.level + 1;
            p.max_health = p.max_health + 1;
            p.health = p.max_health;
            p.damage = p.damage + 1;
            proof {
                done = done + 1;
            }
        }
        p
    }
}

/// The levels gained are the most that the experience can pay for: their
/// cost is covered, what is left is the experience minus that cost, and one
/// level more would cost more than there is.
pub proof fn lemma_level_ups_is_largest(level: nat, xp: nat)
    ensures
        xp_cost(level, level_ups(level, xp)) <= xp,
        xp_left(level, xp) == xp - xp_cost(level, level_ups(level, xp)),
        xp_cost(level, level_ups(level, xp) + 1) > xp,
    decreases xp, (if level == 0 { 1nat } else { 0nat }),
{
    if xp >= threshold(level) {
        lemma_level_ups_is_largest(level + 1, (xp - threshold(level)) as nat);
    } else {
        assert(xp_cost(level + 1, 0) == 0);
        assert(xp_cost(level, 1) == threshold(level) + xp_cost(level + 1, 0));
    }
}

/// What is left over does not pay for the level that follows the last
/// one gained.
pub proof fn lemma_xp_left_is_short(level: nat, xp: nat)
    ensures
        xp_left(level, xp) < threshold(level + level_ups(level, xp)),
        xp_left(level, xp) <= xp,
    decreases xp, (if level == 0 { 1nat } else { 0nat }),
{
    if xp >= threshold(level) {
        lemma_xp_left_is_short(level + 1, (xp - threshold(level)) as nat);
    }
}

/// The cost of levels never falls as their number grows.
pub proof fn lemma_xp_cost_monotone(level: nat, j: nat, k: nat)
    requires
        j <= k,
    ensures
        xp_cost(level, j) <= xp_cost(level, k),
    decreases k,
{
    if j > 0 {
        lemma_xp_cost_monotone(level + 1, (j - 1) as nat, (k - 1) as nat);
    }
}

/// No number of levels above the one gained can be paid for, and every
/// number up to it can.
pub proof fn lemma_level_ups_characterised(level: nat, xp: nat, k: nat)
    ensures
        xp_cost(level, k) <= xp <==> k <= level_ups(level, xp),
{
    lemma_level_ups_is_largest(level, xp);
    if k <= level_ups(level, xp) {
        lemma_xp_cost_monotone(level, k, level_ups(level, xp));
    } else {
        lemma_xp_cost_monotone(level, level_ups(level, xp) + 1, k);
    }
}

} // verus!
