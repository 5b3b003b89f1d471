//! The player's ledger: health and money.
use vstd::prelude::*;

verus! {

/// Money credited for each enemy that dies.
pub const KILL_REWARD: u32 = 10;

/// Money the player starts a game with.
pub const STARTING_MONEY: u32 = 100;

/// Health the player starts a game with.
pub const STARTING_HEALTH: u32 = 10;

/// The player's ledger.
#[derive(Clone, Copy, Debug, PartialEq, Eq, Structural)]
pub struct Player {
    pub money: u32,
    pub health: u32,
}

impl Player {
    /// The player as a game starts.
    pub fn new() -> (r: Player)
        ensures
            r.money == STARTING_MONEY,
            r.health == STARTING_HEALTH,
    {
        Player { money: STARTING_MONEY, health: STARTING_HEALTH }
    }
}

/// Money after `deaths` rewards, held at the largest balance a `u32` holds.
pub open spec fn credited(money: int, deaths: int) -> int {
    if money + KILL_REWARD * deaths > u32::MAX {
        u32::MAX as int
    } else {
        money + KILL_REWARD * deaths
    }
}

/// Health after `hits` debits of one each, never below zero.
pub open spec fn debited(health: int, hits: int) -> int {
    if health > hits {
        health - hits
    } else {
        0
    }
}

/// Credits the reward for each of `deaths` enemy deaths.
pub fn give_money_on_kill(player: &mut Player, deaths: u64)
    ensures
        final(player).money == credited(old(player).money as int, deaths as int),
        final(player).health == old(player).health,
{
    assert((KILL_REWARD as int) * (deaths as int) <= 10 * 0x1_0000_0000_0000_0000) by (nonlinear_arith)
        requires
            KILL_REWARD == 10,
            0 <= deaths < 0x1_0000_0000_0000_0000int,
    ;
    let reward: u128 = (KILL_REWARD as u128) * (deaths as u128);
    let total: u128 = (player.money as u128) + reward;
    if total > u32::MAX as u128 {
        player.money = u32::MAX;
    } else {
        player.money = total as u32;
    }
}

} // verus!

verus! {

/// Paying out in two parts is paying out the sum.
pub proof fn lemma_credited_twice(money: int, a: int, b: int)
    requires
        0 <= money <= u32::MAX,
        0 <= a,
        0 <= b,
    ensures
        credited(credited(money, a), b) == credited(money, a + b),
{
    assert(KILL_REWARD * (a + b) == KILL_REWARD * a + KILL_REWARD * b) by (nonlinear_arith);
    assert(0 <= KILL_REWARD * a && 0 <= KILL_REWARD * b) by (nonlinear_arith)
        requires
            0 <= a,
            0 <= b,
    ;
}

} // verus!
