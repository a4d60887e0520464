//! A greedy pulling strategy over a pool of red and green units: each pull
//! takes 8 red while red stays at least twice green, else 5 red + 1 green,
//! else 2 red + 2 green, until the pool is empty or no pull fits.
use vstd::prelude::*;

verus! {

#[derive(Debug, Clone, Copy, PartialEq, Eq, Structural)]
pub enum PullKind {
    EightRed,
    FiveRedOneGreen,
    TwoRedTwoGreen,
}

/// One pull and what remains after it.
#[derive(Debug, Clone, Copy, PartialEq, Eq, Structural)]
pub struct Pull {
    pub kind: PullKind,
    pub red_left: i32,
    pub green_left: i32,
}

#[derive(Debug, Clone, Copy, PartialEq, Eq, Structural)]
pub struct ResourcePool {
    pub red: i32,
    pub green: i32,
}

/// The pull the strategy makes on (red, green), if any.
pub open spec fn next_pull(red: int, green: int) -> Option<PullKind> {
    if red >= 8 && red - 8 >= green * 2 {
        Some(PullKind::EightRed)
    } else if red >= 5 && green >= 1 {
        Some(PullKind::FiveRedOneGreen)
    } else if red >= 2 && green >= 2 {
        Some(PullKind::TwoRedTwoGreen)
    } else {
        None
    }
}

pub open spec fn take_red(k: PullKind) -> int {
    match k {
        PullKind::EightRed => 8,
        PullKind::FiveRedOneGreen => 5,
        PullKind::TwoRedTwoGreen => 2,
    }
}

pub open spec fn take_green(k: PullKind) -> int {
    match k {
        PullKind::EightRed => 0,
        PullKind::FiveRedOneGreen => 1,
        PullKind::TwoRedTwoGreen => 2,
    }
}

/// Units that could still be pulled.
pub open spec fn remaining(red: int, green: int) -> nat {
    ((if red > 0 { red } else { 0 }) + (if green > 0 { green } else { 0 })) as nat
}

/// The whole run from (red, green): the pulls made, in order, and whether it
/// ended stuck (units left that no pull fits) rather than empty.
pub open spec fn strategy_run(red: int, green: int) -> (Seq<Pull>, bool)
    decreases remaining(red, green),
{
    if !(red > 0 || green > 0) {
        (Seq::empty(), false)
    } else {
        match next_pull(red, green) {
            None => (Seq::empty(), true),
            Some(k) => {
                let r = red - take_red(k);
                let g = green - take_green(k);
                let rest = strategy_run(r, g);
                (seq![Pull { kind: k, red_left: r as i32, green_left: g as i32 }] + rest.0, rest.1)
            },
        }
    }
}

/// Where the run from (red, green) ends.
pub open spec fn strategy_end(red: int, green: int) -> (int, int)
    decreases remaining(red, green),
{
    if !(red > 0 || green > 0) {
        (red, green)
    } else {
        match next_pull(red, green) {
            None => (red, green),
            Some(k) => strategy_end(red - take_red(k), green - take_green(k)),
        }
    }
}

/// What `apply_strategy` reports. `pulls` counts every attempt, including
/// the final one that found no fitting pull.
pub struct StrategyRun {
    pub pulls: usize,
    pub log: Vec<Pull>,
    pub stuck: bool,
}

impl ResourcePool {
    /// Pulls until the pool is empty or stuck; reports the number of
    /// attempts (the pulls made, plus one for the attempt that got stuck),
    /// each pull with the units left after it, and whether it got stuck.
    pub fn apply_strategy(&mut self) -> (r: StrategyRun)
        requires
            old(self).red >= 8 ==> i32::MIN <= old(self).green * 2 <= i32::MAX,
        ensures
            r.log@ == strategy_run(old(self).red as int, old(self).green as int).0,
            r.stuck == strategy_run(old(self).red as int, old(self).green as int).1,
            r.pulls == r.log@.len() + if r.stuck { 1int } else { 0int },
            (final(self).red as int, final(self).green as int) == strategy_end(
                old(self).red as int,
                old(self).green as int,
            ),
    {
        let mut log: Vec<Pull> = Vec::new();
        let mut pulls: usize = 0;
        let mut stuck = false;
        while self.red > 0 || self.green > 0
            invariant_except_break
                self.red <= old(self).red,
                old(self).red >= 8 ==> i32::MIN <= old(self).green * 2 <= i32::MAX,
                self.green == old(self).green || (0 <= self.green <= old(self).green),
                pulls == log@.len(),
                4 * pulls + remaining(self.red as int, self.green as int) <= remaining(
                    old(self).red as int,
                    old(self).green as int,
                ),
                log@ + strategy_run(self.red as int, self.green as int).0 == strategy_run(
                    old(self).red as int,
                    old(self).green as int,
                ).0,
                strategy_run(self.red as int, self.green as int).1 == strategy_run(
                    old(self).red as int,
                    old(self).green as int,
                ).1,
                strategy_end(self.red as int, self.green as int) == strategy_end(
                    old(self).red as int,
                    old(self).green as int,
                ),
                !stuck,
            ensures
                log@ + (if stuck { Seq::<Pull>::empty() } else { strategy_run(self.red as int, self.green as int).0 })
                    == strategy_run(old(self).red as int, old(self).green as int).0,
                stuck ==> strategy_run(old(self).red as int, old(self).green as int).1,
                !stuck ==> !(self.red > 0 || self.green > 0) && !strategy_run(
                    old(self).red as int,
                    old(self).green as int,
                ).1,
                pulls == log@.len() + if stuck { 1int } else { 0int },
                (self.red as int, self.green as int) == strategy_end(old(self).red as int, old(self).green as int),
            decreases remaining(self.red as int, self.green as int),
        {
            let kind = if self.red >= 8 && (self.red - 8) >= (self.green * 2) {
                PullKind::EightRed
            } else if self.red >= 5 && self.green >= 1 {
                PullKind::FiveRedOneGreen
            } else if self.red >= 2 && self.green >= 2 {
                PullKind::TwoRedTwoGreen
            } else {
                stuck = true;
                pulls = pulls + 1;
                assert(log@ + Seq::<Pull>::empty() =~= log@);
                break;
            };
            let ghost before = strategy_run(self.red as int, self.green as int);
            match kind {
                PullKind::EightRed => {
                    self.red = self.red - 8;
                },
                PullKind::FiveRedOneGreen => {
                    self.red = self.red - 5;
                    self.green = self.green - 1;
                },
                PullKind::TwoRedTwoGreen => {
                    self.red = self.red - 2;
                    self.green = self.green - 2;
                },
            }
            let p = Pull { kind, red_left: self.red, green_left: self.green };
            assert(before.0 =~= seq![p] + strategy_run(self.red as int, self.green as int).0);
            assert(log@.push(p) + strategy_run(self.red as int, self.green as int).0 =~= log@ + before.0);
            log.push(p);
            pulls = pulls + 1;
        }
        proof {
            if !stuck {
                assert(log@ + Seq::<Pull>::empty() =~= log@);
            }
        }
        StrategyRun { pulls, log, stuck }
    }
}

/// Every pull takes 8, 6 or 4 units, never takes more of a colour than is
/// there, so no colour that started non-negative ever goes negative.
pub proof fn lemma_pulls_never_overdraw(red: int, green: int)
    requires
        red > 0 || green > 0,
        next_pull(red, green) is Some,
    ensures
        ({
            let k = next_pull(red, green)->0;
            &&& red - take_red(k) >= 0
            &&& green >= 0 ==> green - take_green(k) >= 0
            &&& take_red(k) + take_green(k) >= 4
        }),
{
}

} // verus!
