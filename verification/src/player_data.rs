//! The record a player keeps across boards.

use vstd::prelude::*;
use crate::constants::{MAX_ENERGY, TIME_TO_REFILL_ENERGY};
use crate::errors::GameErrorCode;
use crate::identity::Identity;
use crate::progression::Progress;
use crate::tile::TileData2;

verus! {

/// A player's progress and session state.
#[derive(Clone, Debug, PartialEq, Eq)]
pub struct PlayerData {
    pub authority: Identity,
    pub name: String,
    pub level: u32,
    pub xp: u32,
    pub health: u32,
    pub max_health: u32,
    pub damage: u32,
    pub defence: u32,
    pub swords: u32,
    pub shields: u32,
    pub energy: u32,
    /// The time up to which energy has been accounted for.
    pub last_login: i64,
    /// The number of the last request handled for this player.
    pub last_id: u16,
    /// The floor the player is on.
    pub current_floor: u16,
    /// A copy of the tile that stood where the player's last turn ended.
    pub tile_data: TileData2,
}

/// The points of energy gained over `elapsed` seconds by a player who
/// holds `energy`: one per full refill interval, up to the maximum.
pub open spec fn energy_ticks(energy: u32, elapsed: int) -> int {
    if energy >= MAX_ENERGY || elapsed < 0 {
        0
    } else if elapsed / (TIME_TO_REFILL_ENERGY as int) <= MAX_ENERGY - energy {
        elapsed / (TIME_TO_REFILL_ENERGY as int)
    } else {
        MAX_ENERGY - energy
    }
}

/// The energy and the accounting time of a player who held `energy` at
/// time `last_login`, brought up to date at time `now`.
pub open spec fn refilled(energy: u32, last_login: i64, now: i64) -> (u32, i64) {
    let ticks = energy_ticks(energy, now - last_login);
    let energy_now = (energy + ticks) as u32;
    (
        energy_now,
        if energy_now >= MAX_ENERGY {
            now
        } else {
            (last_login + ticks * TIME_TO_REFILL_ENERGY) as i64
        },
    )
}

/// Computes [`refilled`]: one point of energy for each full refill
/// interval since `last_login`, until the cap is reached.
pub fn refill(energy: u32, last_login: i64, now: i64) -> (r: (u32, i64))
    requires
        i64::MIN <= now - last_login <= i64::MAX,
    ensures
        r == refilled(energy, last_login, now),
{
    let mut energy_now: u32 = energy;
    let mut time_passed: i64 = now - last_login;
    let mut time_spent: i64 = 0;
    let ghost elapsed: int = time_passed as int;
    let ghost mut n: int = 0;
    while time_passed >= TIME_TO_REFILL_ENERGY && energy_now < MAX_ENERGY
        invariant
            0 <= n,
            time_passed == elapsed - n * 600,
            time_spent == n * 600,
            energy_now == energy + n,
            n > 0 ==> energy_now <= MAX_ENERGY,
            n > 0 ==> time_passed >= 0,
        decreases MAX_ENERGY - energy_now,
    {
        energy_now += 1;
        time_passed -= TIME_TO_REFILL_ENERGY;
        time_spent += TIME_TO_REFILL_ENERGY;
        proof {
            n = n + 1;
        }
    }
    assert(n == energy_ticks(energy, elapsed));
    if energy_now >= MAX_ENERGY {
        (energy_now, now)
    } else {
        (energy_now, last_login + time_spent)
    }
}

impl PlayerData {
    /// Health does not exceed its maximum, nor energy its cap.
    pub open spec fn wf(&self) -> bool {
        &&& self.health <= self.max_health
        &&& self.energy <= MAX_ENERGY
    }

    /// The stats that experience changes.
    pub open spec fn progress(&self) -> Progress {
        Progress {
            level: self.level,
            xp: self.xp,
            health: self.health,
            max_health: self.max_health,
            damage: self.damage,
        }
    }

    /// This record with the stats that experience changes replaced.
    pub open spec fn with_progress(self, p: Progress) -> PlayerData {
        PlayerData {
            level: p.level,
            xp: p.xp,
            health: p.health,
            max_health: p.max_health,
            damage: p.damage,
            ..self
        }
    }

    /// Whether each of damage, defence, health and maximal health can
    /// grow by one.
    pub open spec fn can_boost(self) -> bool {
        &&& self.damage < u32::MAX
        &&& self.defence < u32::MAX
        &&& self.health < u32::MAX
        &&& self.max_health < u32::MAX
    }

    /// This record with one more point of damage, defence, health and
    /// maximal health.
    pub open spec fn boosted(self) -> PlayerData {
        PlayerData {
            damage: (self.damage + 1) as u32,
            defence: (self.defence + 1) as u32,
            health: (self.health + 1) as u32,
            max_health: (self.max_health + 1) as u32,
            ..self
        }
    }

    /// This record after its player lost a fight: floor, experience and
    /// level are back to 0.
    pub open spec fn defeated(self) -> PlayerData {
        PlayerData { current_floor: 0, xp: 0, level: 0, ..self }
    }

    /// This record after its energy was brought up to date at time `now`.
    /// Time that paid for a point of energy is consumed; the rest is kept
    /// for later, unless the cap is reached, which consumes it all.
    pub open spec fn with_energy_at(self, now: i64) -> PlayerData {
        let (energy, last_login) = refilled(self.energy, self.last_login, now);
        PlayerData { energy, last_login, ..self }
    }

    /// Reads the stats that experience changes.
    pub fn read_progress(&self) -> (r: Progress)
        ensures
            r == self.progress(),
    {
        Progress {
            level: self.level,
            xp: self.xp,
            health: self.health,
            max_health: self.max_health,
            damage: self.damage,
        }
    }

    /// Tests [`PlayerData::can_boost`].
    pub fn has_room_to_boost(&self) -> (r: bool)
        ensures
            r == self.can_boost(),
    {
        self.damage < u32::MAX && self.defence < u32::MAX && self.health < u32::MAX && self.max_health < u32::MAX
    }

    /// What a grant of experience does to level and experience of the
    /// record: the level rises by the largest number of levels that the
    /// experience pays for, and what is left over stays, short of the price
    /// of the next level. This asks only that the sum of the experience and
    /// the price of each level reached fit in 32 bits.
    pub proof fn lemma_add_xp_level(self, amount: u32)
        requires
            self.xp + amount <= u32::MAX,
            5 * (self.level + self.progress().gained(amount)) <= u32::MAX,
        ensures
            self.with_progress(self.progress().with_xp(amount)).level == self.level + self.progress().gained(amount),
            forall|k: nat|
                crate::progression::xp_cost(self.level as nat, k) <= self.xp + amount <==> k <= self.progress().gained(
                    amount,
                ),
            self.with_progress(self.progress().with_xp(amount)).xp == self.xp + amount - crate::progression::xp_cost(
                self.level as nat,
                self.progress().gained(amount),
            ),
            self.with_progress(self.progress().with_xp(amount)).xp < 5 * self.with_progress(
                self.progress().with_xp(amount),
            ).level,
    {
        self.progress().lemma_with_xp_level(amount);
    }

    /// The experience needed for the next level: five times the level.
    pub fn xp_threshold(&self) -> (r: u32)
        requires
            5 * self.level <= u32::MAX,
        ensures
            r == 5 * self.level,
    {
        5 * self.level
    }

    /// Adds `amount` experience and takes every level it pays for.
    pub fn add_xp(&mut self, amount: u32)
        requires
            old(self).progress().fits(amount),
        ensures
            *final(self) == old(self).with_progress(old(self).progress().with_xp(amount)),
            old(self).wf() ==> final(self).wf(),
    {
        let after = self.read_progress().add_xp(amount);
        self.level = after.level;
        self.xp = after.xp;
        self.health = after.health;
        self.max_health = after.max_health;
        self.damage = after.damage;
    }

    /// Brings the energy up to date at time `current_timestamp`.
    pub fn update_energy(&mut self, current_timestamp: i64) -> (r: Result<(), GameErrorCode>)
        requires
            i64::MIN <= current_timestamp - old(self).last_login <= i64::MAX,
        ensures
            r is Ok,
            *final(self) == old(self).with_energy_at(current_timestamp),
            old(self).wf() ==> final(self).wf(),
    {
        let (energy, last_login) = refill(self.energy, self.last_login, current_timestamp);
        self.energy = energy;
        self.last_login = last_login;
        Ok(())
    }

    /// Notes a move on the record. The record keeps no position, so this
    /// changes nothing and always succeeds.
    pub fn move_to_tile(&mut self, x: u64, y: u64, player: Identity) -> (r: Result<(), GameErrorCode>)
        ensures
            r is Ok,
            *final(self) == *old(self),
    {
        Ok(())
    }
}

} // verus!
