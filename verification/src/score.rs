//! Score, difficulty level, and the timer speed-up that a new level brings.

use crate::timer::MoveTimer;
use vstd::prelude::*;

verus! {

/// Points earned for each food eaten.
pub const SCORE_DELTA: usize = 100;

/// Points needed for each difficulty level.
pub const SCORE_DIFFICULTY_THRESHOLD: usize = 500;

/// The difficulty level that belongs to a score: one level per full
/// threshold of points.
pub open spec fn difficulty_for(score: usize) -> usize {
    score / SCORE_DIFFICULTY_THRESHOLD
}

/// The player's score and the difficulty level in force.
#[derive(Clone, Copy, Debug, PartialEq, Eq, Structural)]
pub struct Scoreboard {
    pub score: usize,
    pub difficulty: usize,
}

impl Scoreboard {
    /// A scoreboard with no points at the lowest difficulty.
    pub fn new() -> (s: Scoreboard)
        ensures
            s == (Scoreboard { score: 0, difficulty: 0 }),
    {
        Scoreboard { score: 0, difficulty: 0 }
    }

    /// Whether the stored difficulty lags behind the score.
    pub open spec fn stale(self) -> bool {
        self.difficulty != difficulty_for(self.score)
    }

    /// The scoreboard after the difficulty was brought up to date.
    pub open spec fn refreshed(self) -> Scoreboard {
        Scoreboard { score: self.score, difficulty: difficulty_for(self.score) }
    }

    /// The scoreboard after one food was eaten.
    pub open spec fn spec_add_food(self) -> Scoreboard
        recommends
            self.score + SCORE_DELTA <= usize::MAX,
    {
        Scoreboard { score: (self.score + SCORE_DELTA) as usize, difficulty: self.difficulty }
    }

    /// Credits one food. The difficulty is left for the next update.
    pub fn add_food(&mut self)
        requires
            old(self).score + SCORE_DELTA <= usize::MAX,
        ensures
            *final(self) == old(self).spec_add_food(),
            final(self).score == old(self).score + SCORE_DELTA,
    {
        self.score = self.score + SCORE_DELTA;
    }

    /// Sets score and difficulty back to zero.
    pub fn reset(&mut self)
        ensures
            *final(self) == (Scoreboard { score: 0, difficulty: 0 }),
    {
        self.score = 0;
        self.difficulty = 0;
    }

    /// Recomputes the difficulty from the score. Where it differs from the
    /// stored level, stores it, shortens the timer once, and returns `true`
    /// so that the caller can signal the change; otherwise changes nothing.
    pub fn update_difficulty(&mut self, timer: &mut MoveTimer) -> (changed: bool)
        ensures
            changed == old(self).stale(),
            *final(self) == old(self).refreshed(),
            changed ==> *final(timer) == old(timer).spec_scale(),
            !changed ==> *final(timer) == *old(timer),
    {
        let difficulty: usize = self.score / SCORE_DIFFICULTY_THRESHOLD;
        if difficulty != self.difficulty {
            self.difficulty = difficulty;
            timer.scale();
            true
        } else {
            false
        }
    }
}

/// A higher score never has a lower difficulty level.
pub proof fn lemma_difficulty_monotonic(a: usize, b: usize)
    requires
        a <= b,
    ensures
        difficulty_for(a) <= difficulty_for(b),
{
}

/// Once the difficulty is up to date, updating again with the same score
/// changes nothing and signals nothing.
pub proof fn lemma_difficulty_idempotent(s: Scoreboard)
    ensures
        !s.refreshed().stale(),
        s.refreshed().refreshed() == s.refreshed(),
        !s.stale() ==> s.refreshed() == s,
{
}

} // verus!
