//! Score, best score and level of a session.

use vstd::prelude::*;

verus! {

/// Points that separate one level from the next.
pub const POINTS_PER_LEVEL: u32 = 1000;

/// The three counters of a session.
#[derive(Clone, Copy, Debug, PartialEq, Eq, Structural)]
pub struct Scoreboard {
    /// Points earned since the session began.
    pub score: u32,
    /// Best score seen since the process began, or loaded at its start.
    pub high_score: u32,
    /// Difficulty tier; starts at 1.
    pub level: u32,
}

/// The level that a score stands for.
pub open spec fn spec_level_for(score: u32) -> int {
    score / 1000 + 1
}

/// The sum of a list of awards.
pub open spec fn spec_total(awards: Seq<u32>) -> int
    decreases awards.len(),
{
    if awards.len() == 0 {
        0
    } else {
        spec_total(awards.drop_last()) + awards.last()
    }
}

impl Scoreboard {
    /// The level follows from the score, and the best score is at least the
    /// score.
    pub open spec fn wf(self) -> bool {
        &&& self.level == spec_level_for(self.score)
        &&& self.score <= self.high_score
    }

    /// A board at the start of a process that loaded `high_score`.
    pub open spec fn spec_new(high_score: u32) -> Scoreboard {
        Scoreboard { score: 0, high_score, level: 1 }
    }

    /// The board at the start of a new session: the best score stays.
    pub open spec fn spec_reset(self) -> Scoreboard {
        Scoreboard { score: 0, high_score: self.high_score, level: 1 }
    }

    /// The board after one hit worth `points`: the score grows by `points`
    /// and stops at the largest value it can hold; the level and the best
    /// score rise to follow it and never fall.
    pub open spec fn spec_after_hit(self, points: u32) -> Scoreboard {
        let score = if self.score + points > u32::MAX {
            u32::MAX
        } else {
            (self.score + points) as u32
        };
        Scoreboard {
            score,
            high_score: if score > self.high_score {
                score
            } else {
                self.high_score
            },
            level: if spec_level_for(score) > self.level {
                spec_level_for(score) as u32
            } else {
                self.level
            },
        }
    }

    /// The board after the hits of `awards`, recorded in order.
    pub open spec fn spec_after_hits(self, awards: Seq<u32>) -> Scoreboard
        decreases awards.len(),
    {
        if awards.len() == 0 {
            self
        } else {
            self.spec_after_hits(awards.drop_last()).spec_after_hit(awards.last())
        }
    }

    /// The session's score is at least as good as the best score.
    pub open spec fn spec_is_record(self) -> bool {
        self.score >= self.high_score
    }

    /// The board of a process that loaded `high_score`.
    pub fn new(high_score: u32) -> (board: Scoreboard)
        ensures
            board == Self::spec_new(high_score),
            board.wf(),
    {
        Scoreboard { score: 0, high_score, level: 1 }
    }

    /// Starts a new session: score and level start over, the best score
    /// stays.
    pub fn reset(&mut self)
        ensures
            *final(self) == old(self).spec_reset(),
            final(self).wf(),
            final(self).high_score >= old(self).high_score,
    {
        self.score = 0;
        self.level = 1;
    }

    /// The level that `score` stands for: one more than its thousands.
    pub fn level_for(score: u32) -> (level: u32)
        ensures
            level == spec_level_for(score),
            level >= 1,
    {
        score / POINTS_PER_LEVEL + 1
    }

    /// Records one hit worth `points`.
    pub fn record_hit(&mut self, points: u32)
        ensures
            *final(self) == old(self).spec_after_hit(points),
            final(self).score >= old(self).score,
            final(self).level >= old(self).level,
            final(self).high_score >= old(self).high_score,
            old(self).wf() ==> final(self).wf(),
    {
        self.score = self.score.saturating_add(points);
        let new_level: u32 = Self::level_for(self.score);
        if new_level > self.level {
            self.level = new_level;
        }
        if self.score > self.high_score {
            self.high_score = self.score;
        }
    }

    /// Tells whether the score is at least as good as the best score; a tie
    /// counts.
    pub fn is_record(&self) -> (record: bool)
        ensures
            record == self.spec_is_record(),
    {
        self.score >= self.high_score
    }
}

/// One hit never lowers a counter, and a board whose level follows from its
/// score keeps that property.
pub proof fn lemma_hit_is_monotonic(board: Scoreboard, points: u32)
    ensures
        board.spec_after_hit(points).score >= board.score,
        board.spec_after_hit(points).level >= board.level,
        board.spec_after_hit(points).high_score >= board.high_score,
        board.spec_after_hit(points).high_score >= board.spec_after_hit(points).score,
        board.level <= spec_level_for(board.score) ==> board.spec_after_hit(points).level
            == spec_level_for(board.spec_after_hit(points).score),
        board.wf() ==> board.spec_after_hit(points).wf(),
{
}

/// No run of hits lowers a counter, and a board whose level follows from its
/// score keeps that property through the whole run.
pub proof fn lemma_hits_are_monotonic(board: Scoreboard, awards: Seq<u32>)
    ensures
        board.spec_after_hits(awards).score >= board.score,
        board.spec_after_hits(awards).level >= board.level,
        board.spec_after_hits(awards).high_score >= board.high_score,
        board.wf() ==> board.spec_after_hits(awards).wf(),
    decreases awards.len(),
{
    if awards.len() > 0 {
        lemma_hits_are_monotonic(board, awards.drop_last());
        lemma_hit_is_monotonic(board.spec_after_hits(awards.drop_last()), awards.last());
    }
}

/// After a run of hits the score is the old score plus the sum of the
/// awards, stopped at the largest value it can hold. If the run is empty the
/// other counters are untouched; otherwise each is the larger of its old
/// value and the value that the new score stands for.
pub proof fn lemma_hits_add_up(board: Scoreboard, awards: Seq<u32>)
    ensures
        spec_total(awards) >= 0,
        board.spec_after_hits(awards).score == if board.score + spec_total(awards) > u32::MAX {
            u32::MAX as int
        } else {
            board.score + spec_total(awards)
        },
        awards.len() == 0 ==> board.spec_after_hits(awards) == board,
        awards.len() > 0 ==> board.spec_after_hits(awards).high_score == if board.spec_after_hits(
            awards,
        ).score > board.high_score {
            board.spec_after_hits(awards).score
        } else {
            board.high_score
        },
        awards.len() > 0 ==> board.spec_after_hits(awards).level == if spec_level_for(
            board.spec_after_hits(awards).score,
        ) > board.level {
            spec_level_for(board.spec_after_hits(awards).score)
        } else {
            board.level as int
        },
    decreases awards.len(),
{
    if awards.len() > 0 {
        lemma_hits_add_up(board, awards.drop_last());
        lemma_hits_are_monotonic(board, awards.drop_last());
    }
}

/// Starting a new session keeps the best score and leaves a board whose
/// level follows from its score.
pub proof fn lemma_reset_keeps_best(board: Scoreboard)
    ensures
        board.spec_reset().high_score == board.high_score,
        board.spec_reset().wf(),
{
}

} // verus!
