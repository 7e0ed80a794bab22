//! The quiz-session state machine: the final question sequence is walked in
//! order, each raw answer line is graded and recorded, and the running score
//! counts the correct ones. The only mutable state is the position and the
//! score.
use vstd::prelude::*;

use crate::grade::grade_spec;
use crate::model::QuizItem;
use crate::session::item_views;

verus! {

pub struct QuizSession {
    pub items: Vec<QuizItem>,
    pub position: usize,
    pub score: usize,
}

impl QuizSession {
    /// The position never passes the end, and the score never exceeds the
    /// number of questions answered.
    pub open spec fn wf(self) -> bool {
        self.position <= self.items@.len() && self.score <= self.position
    }

    /// A fresh session over the selected pool: nothing asked, nothing
    /// scored.
    pub fn new(items: Vec<QuizItem>) -> (r: Self)
        ensures
            r.items@ == items@,
            r.position == 0,
            r.score == 0,
            r.wf(),
    {
        QuizSession { items, position: 0, score: 0 }
    }

    pub fn total(&self) -> (r: usize)
        ensures
            r == self.items@.len(),
    {
        self.items.len()
    }

    pub fn done(&self) -> (r: bool)
        ensures
            r == (self.position == self.items@.len()),
    {
        self.position == self.items.len()
    }

    /// The question now due, with its chapter tag.
    pub fn current(&self) -> (r: &QuizItem)
        requires
            self.position < self.items@.len(),
        ensures
            *r == self.items@[self.position as int],
    {
        &self.items[self.position]
    }

    /// Grades the raw answer line against the question now due, advances
    /// past it, and adds one to the score exactly when the answer was
    /// correct. Returns that correctness; the item sequence itself never
    /// changes.
    pub fn answer(&mut self, input: &str) -> (correct: bool)
        requires
            old(self).wf(),
            old(self).position < old(self).items@.len(),
        ensures
            final(self).wf(),
            final(self).items@ == old(self).items@,
            final(self).position == old(self).position + 1,
            correct == grade_spec(
                item_views(old(self).items@)[old(self).position as int].question,
                input@,
            ),
            final(self).score == old(self).score + (if correct {
                1int
            } else {
                0int
            }),
    {
        let n: usize = self.items.len();
        let correct = self.items[self.position].question.grade(input);
        proof {
            assert(self.position < n);
            assert(item_views(self.items@)[self.position as int] == self.items@[
                self.position as int
            ]@);
        }
        self.position = self.position + 1;
        if correct {
            self.score = self.score + 1;
        }
        correct
    }

    /// The final tally: how many were answered correctly, out of how many
    /// asked so far.
    pub fn summary(&self) -> (r: (usize, usize))
        ensures
            r.0 == self.score,
            r.1 == self.position,
    {
        (self.score, self.position)
    }
}

} // verus!
