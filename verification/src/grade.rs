//! Grading semantics: what each question kind accepts as a correct answer.
//! Grading is a pure function of the question and the raw input line; all
//! invalid numeric input degrades to the sentinel index 0, which never
//! matches, so grading never fails.
use vstd::prelude::*;

use crate::model::{
    FibQView, FillInTheBlankQuestion, McQView, MultipleChoiceQuestion, Question, QuestionView,
    SingleMatchingQuestion, SmQView, SpQView, SpellingQuestion,
};
use crate::text::{
    chars_eq_ignore_case, chars_of, eq_ignore_case, is_single_char, parse_usize_chars,
    parse_usize_spec, trim_chars, trim_spec,
};

verus! {

/// A multiple-choice answer is correct when the trimmed input is exactly the
/// one-character answer selector, case-sensitively.
pub open spec fn mc_grade_spec(q: McQView, input: Seq<char>) -> bool {
    trim_spec(input) == seq![q.answer]
}

/// The 1-based index a raw answer line denotes: the trimmed input parsed as
/// a decimal number, and the sentinel 0 (which never matches) when it does
/// not parse.
pub open spec fn answer_index(input: Seq<char>) -> nat {
    match parse_usize_spec(trim_spec(input)) {
        Some(n) => n as nat,
        None => 0,
    }
}

/// A single-matching answer is correct when the input denotes a valid
/// 1-based position in the displayed definition list and the definition
/// there is the term's true definition.
pub open spec fn sm_grade_spec(q: SmQView, input: Seq<char>) -> bool {
    let idx = answer_index(input);
    1 <= idx && idx <= q.definition.len() && q.definition[idx - 1] == q.correct_answer
}

/// A fill-in-the-blank answer is correct when the trimmed input equals the
/// expected answer up to ASCII letter case.
pub open spec fn fib_grade_spec(q: FibQView, input: Seq<char>) -> bool {
    eq_ignore_case(trim_spec(input), q.answer)
}

/// A spelling answer is graded exactly as fill-in-the-blank; the displayed
/// options are distractors only.
pub open spec fn sp_grade_spec(q: SpQView, input: Seq<char>) -> bool {
    eq_ignore_case(trim_spec(input), q.answer)
}

/// Whether the raw input line answers the question correctly.
pub open spec fn grade_spec(q: QuestionView, input: Seq<char>) -> bool {
    match q {
        QuestionView::MultipleChoice(v) => mc_grade_spec(v, input),
        QuestionView::SingleMatching(v) => sm_grade_spec(v, input),
        QuestionView::FillInTheBlank(v) => fib_grade_spec(v, input),
        QuestionView::Spelling(v) => sp_grade_spec(v, input),
    }
}

impl MultipleChoiceQuestion {
    pub fn grade(&self, input: &str) -> (r: bool)
        ensures
            r == mc_grade_spec(self@, input@),
    {
        let cs = chars_of(input);
        let t = trim_chars(&cs);
        is_single_char(&t, self.answer)
    }
}

impl SingleMatchingQuestion {
    pub fn grade(&self, input: &str) -> (r: bool)
        ensures
            r == sm_grade_spec(self@, input@),
    {
        let cs = chars_of(input);
        let t = trim_chars(&cs);
        let idx: usize = match parse_usize_chars(&t) {
            Some(n) => n,
            None => 0,
        };
        if 1 <= idx && idx <= self.definition.len() {
            let r = self.definition[idx - 1] == self.correct_answer;
            proof {
                assert(self@.definition[idx - 1] == self.definition@[idx - 1]@);
            }
            r
        } else {
            false
        }
    }
}

impl FillInTheBlankQuestion {
    pub fn grade(&self, input: &str) -> (r: bool)
        ensures
            r == fib_grade_spec(self@, input@),
    {
        let cs = chars_of(input);
        let t = trim_chars(&cs);
        let answer = chars_of(self.answer.as_str());
        chars_eq_ignore_case(&t, &answer)
    }
}

impl SpellingQuestion {
    pub fn grade(&self, input: &str) -> (r: bool)
        ensures
            r == sp_grade_spec(self@, input@),
    {
        let cs = chars_of(input);
        let t = trim_chars(&cs);
        let answer = chars_of(self.answer.as_str());
        chars_eq_ignore_case(&t, &answer)
    }
}

impl Question {
    /// Grades the raw input line against this question. Correctness is a
    /// function of the question and the line alone: no session state enters.
    pub fn grade(&self, input: &str) -> (r: bool)
        ensures
            r == grade_spec(self@, input@),
    {
        match self {
            Question::MultipleChoice(q) => q.grade(input),
            Question::SingleMatching(q) => q.grade(input),
            Question::FillInTheBlank(q) => q.grade(input),
            Question::Spelling(q) => q.grade(input),
        }
    }
}

/// Grading is idempotent: two gradings of the same question against the same
/// stored input always agree, since correctness is a function of the pair
/// alone.
pub proof fn lemma_grading_idempotent(q: QuestionView, input: Seq<char>, r1: bool, r2: bool)
    requires
        r1 == grade_spec(q, input),
        r2 == grade_spec(q, input),
    ensures
        r1 == r2,
{
}

/// Case-insensitivity of the text-answer kinds: an input whose trimmed form
/// differs from the expected answer only in ASCII letter case grades as
/// correct, for fill-in-the-blank and for spelling alike.
pub proof fn lemma_case_insensitive(q: QuestionView, input: Seq<char>)
    requires
        q is FillInTheBlank || q is Spelling,
        match q {
            QuestionView::FillInTheBlank(v) => eq_ignore_case(trim_spec(input), v.answer),
            QuestionView::Spelling(v) => eq_ignore_case(trim_spec(input), v.answer),
            _ => false,
        },
    ensures
        grade_spec(q, input),
{
}

} // verus!
