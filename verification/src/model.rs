//! The question model: the four question kinds, the derived single-matching
//! question, the chapter that groups them, and the quiz item that ties a
//! question to its source chapter. Each executable type has a mathematical
//! view over character sequences, and a well-formedness predicate that the
//! bank loader must establish.
use vstd::prelude::*;

verus! {

/// A question with four options and a one-letter answer selector.
pub struct MultipleChoiceQuestion {
    pub question: String,
    pub options: Vec<String>,
    pub answer: char,
}

#[verifier::ext_equal]
pub struct McQView {
    pub question: Seq<char>,
    pub options: Seq<Seq<char>>,
    pub answer: char,
}

impl View for MultipleChoiceQuestion {
    type V = McQView;

    open spec fn view(&self) -> McQView {
        McQView {
            question: self.question@,
            options: self.options.deep_view(),
            answer: self.answer,
        }
    }
}

impl McQView {
    /// Exactly four options, and the selector is one of the four letters
    /// that index them.
    pub open spec fn wf(self) -> bool {
        self.options.len() == 4 && ('a' <= self.answer && self.answer <= 'd')
    }
}

/// One term together with its definition.
pub struct MatchingPair {
    pub term: String,
    pub definition: String,
}

#[verifier::ext_equal]
pub struct PairView {
    pub term: Seq<char>,
    pub definition: Seq<char>,
}

impl View for MatchingPair {
    type V = PairView;

    open spec fn view(&self) -> PairView {
        PairView { term: self.term@, definition: self.definition@ }
    }
}

/// A matching question: a prompt and an ordered list of term/definition
/// pairs, the terms unique within the question.
pub struct MatchingQuestion {
    pub question: String,
    pub pairs: Vec<MatchingPair>,
}

#[verifier::ext_equal]
pub struct MatchQView {
    pub question: Seq<char>,
    pub pairs: Seq<PairView>,
}

impl View for MatchingQuestion {
    type V = MatchQView;

    open spec fn view(&self) -> MatchQView {
        MatchQView {
            question: self.question@,
            pairs: self.pairs@.map_values(|p: MatchingPair| p@),
        }
    }
}

impl MatchQView {
    /// Terms are pairwise distinct.
    pub open spec fn wf(self) -> bool {
        forall|i: int, j: int|
            0 <= i < j < self.pairs.len() ==> self.pairs[i].term != self.pairs[j].term
    }
}

/// A question graded by case-insensitive comparison with one expected answer.
pub struct FillInTheBlankQuestion {
    pub question: String,
    pub answer: String,
}

#[verifier::ext_equal]
pub struct FibQView {
    pub question: Seq<char>,
    pub answer: Seq<char>,
}

impl View for FillInTheBlankQuestion {
    type V = FibQView;

    open spec fn view(&self) -> FibQView {
        FibQView { question: self.question@, answer: self.answer@ }
    }
}

/// A spelling question: three displayed distractor spellings and an expected
/// answer that need not be among them.
pub struct SpellingQuestion {
    pub question: String,
    pub options: Vec<String>,
    pub answer: String,
}

#[verifier::ext_equal]
pub struct SpQView {
    pub question: Seq<char>,
    pub options: Seq<Seq<char>>,
    pub answer: Seq<char>,
}

impl View for SpellingQuestion {
    type V = SpQView;

    open spec fn view(&self) -> SpQView {
        SpQView {
            question: self.question@,
            options: self.options.deep_view(),
            answer: self.answer@,
        }
    }
}

impl SpQView {
    pub open spec fn wf(self) -> bool {
        self.options.len() == 3
    }
}

/// A single-matching quiz item derived from a matching question: one term,
/// the full list of candidate definitions in pair order, and the one correct
/// definition.
pub struct SingleMatchingQuestion {
    pub term: String,
    pub definition: Vec<String>,
    pub correct_answer: String,
}

#[verifier::ext_equal]
pub struct SmQView {
    pub term: Seq<char>,
    pub definition: Seq<Seq<char>>,
    pub correct_answer: Seq<char>,
}

impl View for SingleMatchingQuestion {
    type V = SmQView;

    open spec fn view(&self) -> SmQView {
        SmQView {
            term: self.term@,
            definition: self.definition.deep_view(),
            correct_answer: self.correct_answer@,
        }
    }
}

/// A chapter: its identifier and its four ordered question lists.
pub struct Chapter {
    pub chapter: u32,
    pub multiple_choice: Vec<MultipleChoiceQuestion>,
    pub matching: Vec<MatchingQuestion>,
    pub fill_in_the_blanks: Vec<FillInTheBlankQuestion>,
    pub spelling: Vec<SpellingQuestion>,
}

#[verifier::ext_equal]
pub struct ChapterView {
    pub chapter: u32,
    pub multiple_choice: Seq<McQView>,
    pub matching: Seq<MatchQView>,
    pub fill_in_the_blanks: Seq<FibQView>,
    pub spelling: Seq<SpQView>,
}

impl View for Chapter {
    type V = ChapterView;

    open spec fn view(&self) -> ChapterView {
        ChapterView {
            chapter: self.chapter,
            multiple_choice: self.multiple_choice@.map_values(|q: MultipleChoiceQuestion| q@),
            matching: self.matching@.map_values(|q: MatchingQuestion| q@),
            fill_in_the_blanks: self.fill_in_the_blanks@.map_values(
                |q: FillInTheBlankQuestion| q@,
            ),
            spelling: self.spelling@.map_values(|q: SpellingQuestion| q@),
        }
    }
}

impl ChapterView {
    /// Every question of the chapter satisfies its kind's invariant.
    pub open spec fn wf(self) -> bool {
        &&& forall|i: int| 0 <= i < self.multiple_choice.len() ==> self.multiple_choice[i].wf()
        &&& forall|i: int| 0 <= i < self.matching.len() ==> self.matching[i].wf()
        &&& forall|i: int| 0 <= i < self.spelling.len() ==> self.spelling[i].wf()
    }
}

/// One of the four presentable question kinds.
pub enum Question {
    MultipleChoice(MultipleChoiceQuestion),
    SingleMatching(SingleMatchingQuestion),
    FillInTheBlank(FillInTheBlankQuestion),
    Spelling(SpellingQuestion),
}

#[verifier::ext_equal]
pub enum QuestionView {
    MultipleChoice(McQView),
    SingleMatching(SmQView),
    FillInTheBlank(FibQView),
    Spelling(SpQView),
}

impl View for Question {
    type V = QuestionView;

    open spec fn view(&self) -> QuestionView {
        match self {
            Question::MultipleChoice(q) => QuestionView::MultipleChoice(q@),
            Question::SingleMatching(q) => QuestionView::SingleMatching(q@),
            Question::FillInTheBlank(q) => QuestionView::FillInTheBlank(q@),
            Question::Spelling(q) => QuestionView::Spelling(q@),
        }
    }
}

/// A question tagged with the chapter it came from.
pub struct QuizItem {
    pub question: Question,
    pub chapter: u32,
}

#[verifier::ext_equal]
pub struct ItemView {
    pub question: QuestionView,
    pub chapter: u32,
}

impl View for QuizItem {
    type V = ItemView;

    open spec fn view(&self) -> ItemView {
        ItemView { question: self.question@, chapter: self.chapter }
    }
}

/// A copy of a string vector, element for element.
pub fn clone_strings(v: &Vec<String>) -> (r: Vec<String>)
    ensures
        r@ == v@,
{
    let mut r: Vec<String> = Vec::new();
    let n: usize = v.len();
    let mut i: usize = 0;
    while i < n
        invariant
            0 <= i <= n == v@.len(),
            r@.len() == i,
            forall|k: int| 0 <= k < i ==> r@[k] == v@[k],
        decreases n - i,
    {
        r.push(v[i].clone());
        i = i + 1;
    }
    proof {
        assert(r@ =~= v@);
    }
    r
}

impl Clone for MultipleChoiceQuestion {
    fn clone(&self) -> (r: Self)
        ensures
            r@ == self@,
    {
        let r = MultipleChoiceQuestion {
            question: self.question.clone(),
            options: clone_strings(&self.options),
            answer: self.answer,
        };
        proof {
            assert(r@.options =~= self@.options);
            assert(r@ =~= self@);
        }
        r
    }
}

impl Clone for MatchingPair {
    fn clone(&self) -> (r: Self)
        ensures
            r@ == self@,
    {
        MatchingPair { term: self.term.clone(), definition: self.definition.clone() }
    }
}

impl Clone for FillInTheBlankQuestion {
    fn clone(&self) -> (r: Self)
        ensures
            r@ == self@,
    {
        FillInTheBlankQuestion { question: self.question.clone(), answer: self.answer.clone() }
    }
}

impl Clone for SpellingQuestion {
    fn clone(&self) -> (r: Self)
        ensures
            r@ == self@,
    {
        let r = SpellingQuestion {
            question: self.question.clone(),
            options: clone_strings(&self.options),
            answer: self.answer.clone(),
        };
        proof {
            assert(r@.options =~= self@.options);
            assert(r@ =~= self@);
        }
        r
    }
}

impl Clone for SingleMatchingQuestion {
    fn clone(&self) -> (r: Self)
        ensures
            r@ == self@,
    {
        let r = SingleMatchingQuestion {
            term: self.term.clone(),
            definition: clone_strings(&self.definition),
            correct_answer: self.correct_answer.clone(),
        };
        proof {
            assert(r@.definition =~= self@.definition);
            assert(r@ =~= self@);
        }
        r
    }
}

/// Whether the terms of a matching question are pairwise distinct; the bank
/// loader must reject a question for which this fails.
pub fn matching_terms_distinct(q: &MatchingQuestion) -> (r: bool)
    ensures
        r == q@.wf(),
{
    let n: usize = q.pairs.len();
    let mut i: usize = 0;
    while i < n
        invariant
            0 <= i <= n == q.pairs@.len(),
            forall|a: int, b: int| 0 <= a < b < i ==> q@.pairs[a].term != q@.pairs[b].term,
        decreases n - i,
    {
        let mut j: usize = 0;
        while j < i
            invariant
                0 <= j <= i < n == q.pairs@.len(),
                forall|a: int, b: int| 0 <= a < b < i ==> q@.pairs[a].term != q@.pairs[b].term,
                forall|a: int| 0 <= a < j ==> q@.pairs[a].term != q@.pairs[i as int].term,
            decreases i - j,
        {
            if q.pairs[j].term == q.pairs[i].term {
                proof {
                    assert(q@.pairs[j as int].term == q@.pairs[i as int].term);
                    assert(!q@.wf());
                }
                return false;
            }
            j = j + 1;
        }
        i = i + 1;
    }
    true
}

/// Whether every question of the chapter satisfies its kind's invariant.
pub fn chapter_well_formed(c: &Chapter) -> (r: bool)
    ensures
        r == c@.wf(),
{
    let mut i: usize = 0;
    let n_mc: usize = c.multiple_choice.len();
    while i < n_mc
        invariant
            0 <= i <= n_mc == c.multiple_choice@.len(),
            forall|k: int| 0 <= k < i ==> c@.multiple_choice[k].wf(),
        decreases n_mc - i,
    {
        let q = &c.multiple_choice[i];
        if !(q.options.len() == 4 && 'a' <= q.answer && q.answer <= 'd') {
            proof {
                assert(c@.multiple_choice[i as int] == c.multiple_choice@[i as int]@);
                assert(c.multiple_choice@[i as int]@.options.len() == c.multiple_choice@[
                    i as int
                ].options@.len());
                assert(!c@.multiple_choice[i as int].wf());
            }
            return false;
        }
        i = i + 1;
    }
    let n_m: usize = c.matching.len();
    let mut j: usize = 0;
    while j < n_m
        invariant
            0 <= j <= n_m == c.matching@.len(),
            forall|k: int| 0 <= k < c@.multiple_choice.len() ==> c@.multiple_choice[k].wf(),
            forall|k: int| 0 <= k < j ==> c@.matching[k].wf(),
        decreases n_m - j,
    {
        if !matching_terms_distinct(&c.matching[j]) {
            proof {
                assert(c@.matching[j as int] == c.matching@[j as int]@);
                assert(!c@.matching[j as int].wf());
            }
            return false;
        }
        j = j + 1;
    }
    let n_sp: usize = c.spelling.len();
    let mut k: usize = 0;
    while k < n_sp
        invariant
            0 <= k <= n_sp == c.spelling@.len(),
            forall|a: int| 0 <= a < c@.multiple_choice.len() ==> c@.multiple_choice[a].wf(),
            forall|a: int| 0 <= a < c@.matching.len() ==> c@.matching[a].wf(),
            forall|a: int| 0 <= a < k ==> c@.spelling[a].wf(),
        decreases n_sp - k,
    {
        if !(c.spelling[k].options.len() == 3) {
            proof {
                assert(c@.spelling[k as int] == c.spelling@[k as int]@);
                assert(c.spelling@[k as int]@.options.len() == c.spelling@[
                    k as int
                ].options@.len());
                assert(!c@.spelling[k as int].wf());
            }
            return false;
        }
        k = k + 1;
    }
    true
}

} // verus!
