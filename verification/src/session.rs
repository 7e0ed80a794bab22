//! Session building: chapter selection, assembly of the question pool from
//! the selected chapters, and size selection with optional shuffling and
//! truncation.
use vstd::prelude::*;
use vstd::seq_lib::group_to_multiset_ensures;
use vstd::seq_lib::lemma_multiset_commutative;

use rand::seq::SliceRandom;

use crate::expand::{expand_matching, expand_view, sm_views};
use crate::model::{
    Chapter, ChapterView, FibQView, FillInTheBlankQuestion, ItemView, MatchQView,
    MatchingQuestion, McQView, MultipleChoiceQuestion, Question, QuestionView, QuizItem, SmQView,
    SpQView, SpellingQuestion,
};
use crate::text::{chars_of, is_single_char, parse_id_list, parse_ids_spec, parse_usize_chars, parse_usize_spec, trim_chars, trim_spec};

verus! {

pub open spec fn chapter_views(chs: Seq<Chapter>) -> Seq<ChapterView> {
    chs.map_values(|c: Chapter| c@)
}

pub open spec fn item_views(v: Seq<QuizItem>) -> Seq<ItemView> {
    v.map_values(|q: QuizItem| q@)
}

/// Every id of `sel` names a chapter of `avail`.
pub open spec fn id_subset(sel: Seq<u32>, avail: Seq<u32>) -> bool {
    forall|i: int| 0 <= i < sel.len() ==> avail.contains(sel[i])
}

/// The ids of the bank's chapters, in bank order.
pub fn chapter_ids(chapters: &Vec<Chapter>) -> (r: Vec<u32>)
    ensures
        r@ == chapters@.map_values(|c: Chapter| c.chapter),
{
    let mut r: Vec<u32> = Vec::new();
    let n: usize = chapters.len();
    let mut i: usize = 0;
    while i < n
        invariant
            0 <= i <= n == chapters@.len(),
            r@.len() == i,
            forall|k: int| 0 <= k < i ==> r@[k] == chapters@[k].chapter,
        decreases n - i,
    {
        r.push(chapters[i].chapter);
        i = i + 1;
    }
    proof {
        assert(r@ =~= chapters@.map_values(|c: Chapter| c.chapter));
    }
    r
}

pub fn contains_id(v: &Vec<u32>, x: u32) -> (r: bool)
    ensures
        r == v@.contains(x),
{
    let n: usize = v.len();
    let mut i: usize = 0;
    while i < n
        invariant
            0 <= i <= n == v@.len(),
            forall|k: int| 0 <= k < i ==> v@[k] != x,
        decreases n - i,
    {
        if v[i] == x {
            return true;
        }
        i = i + 1;
    }
    false
}

pub fn ids_subset(sel: &Vec<u32>, avail: &Vec<u32>) -> (r: bool)
    ensures
        r == id_subset(sel@, avail@),
{
    let n: usize = sel.len();
    let mut i: usize = 0;
    while i < n
        invariant
            0 <= i <= n == sel@.len(),
            forall|k: int| 0 <= k < i ==> avail@.contains(sel@[k]),
        decreases n - i,
    {
        if !contains_id(avail, sel[i]) {
            return false;
        }
        i = i + 1;
    }
    true
}

/// A copy of an id vector.
pub fn clone_ids(v: &Vec<u32>) -> (r: Vec<u32>)
    ensures
        r@ == v@,
{
    let mut r: Vec<u32> = Vec::new();
    let n: usize = v.len();
    let mut i: usize = 0;
    while i < n
        invariant
            0 <= i <= n == v@.len(),
            r@ == v@.subrange(0, i as int),
        decreases n - i,
    {
        r.push(v[i]);
        i = i + 1;
        assert(r@ =~= v@.subrange(0, i as int));
    }
    proof {
        assert(r@ =~= v@);
    }
    r
}

/// One round of chapter selection. The literal token `a` selects every
/// available chapter. Any other input is split at commas; tokens that do not
/// parse as decimal ids are dropped; the round succeeds exactly when the
/// surviving ids all name available chapters (an empty result is such a
/// subset and is accepted), and fails — asking for a re-prompt — otherwise.
/// On success the selection never holds an id absent from the bank.
pub fn chapter_selection_step(input: &str, available: &Vec<u32>) -> (r: Option<Vec<u32>>)
    ensures
        match r {
            Some(sel) => {
                &&& id_subset(sel@, available@)
                &&& if input@ == seq!['a'] {
                    sel@ == available@
                } else {
                    sel@ == parse_ids_spec(input@)
                }
            },
            None => input@ != seq!['a'] && !id_subset(parse_ids_spec(input@), available@),
        },
{
    let cs = chars_of(input);
    if is_single_char(&cs, 'a') {
        let all = clone_ids(available);
        proof {
            assert(forall|i: int|
                0 <= i < all@.len() ==> available@.contains(#[trigger] all@[i]));
        }
        Some(all)
    } else {
        let ids = parse_id_list(&cs);
        if ids_subset(&ids, available) {
            Some(ids)
        } else {
            None
        }
    }
}

/// How many questions the session should hold.
pub enum SizeChoice {
    /// The whole pool, in original order, unshuffled.
    All,
    /// A shuffled sample of the given size.
    Count(usize),
}

/// The literal token `a` selects the whole pool; anything else is parsed as
/// a decimal count after trimming, and a token that does not parse means the
/// default count of 5.
pub open spec fn size_choice_spec(input: Seq<char>) -> SizeChoice {
    if input == seq!['a'] {
        SizeChoice::All
    } else {
        match parse_usize_spec(trim_spec(input)) {
            Some(n) => SizeChoice::Count(n),
            None => SizeChoice::Count(5),
        }
    }
}

pub fn size_choice(input: &str) -> (r: SizeChoice)
    ensures
        r == size_choice_spec(input@),
{
    let cs = chars_of(input);
    if is_single_char(&cs, 'a') {
        SizeChoice::All
    } else {
        let t = trim_chars(&cs);
        match parse_usize_chars(&t) {
            Some(n) => SizeChoice::Count(n),
            None => SizeChoice::Count(5),
        }
    }
}

pub open spec fn mc_items(qs: Seq<McQView>, ch: u32) -> Seq<ItemView> {
    qs.map_values(|q: McQView| ItemView { question: QuestionView::MultipleChoice(q), chapter: ch })
}

pub open spec fn fib_items(qs: Seq<FibQView>, ch: u32) -> Seq<ItemView> {
    qs.map_values(|q: FibQView| ItemView { question: QuestionView::FillInTheBlank(q), chapter: ch })
}

pub open spec fn sp_items(qs: Seq<SpQView>, ch: u32) -> Seq<ItemView> {
    qs.map_values(|q: SpQView| ItemView { question: QuestionView::Spelling(q), chapter: ch })
}

/// The quiz items of one matching question: its expansion, tagged with the
/// chapter.
pub open spec fn expansion_items(m: MatchQView, ch: u32) -> Seq<ItemView> {
    expand_view(m).map_values(
        |s: SmQView| ItemView { question: QuestionView::SingleMatching(s), chapter: ch },
    )
}

pub open spec fn matching_items(ms: Seq<MatchQView>, ch: u32) -> Seq<ItemView>
    decreases ms.len(),
{
    if ms.len() == 0 {
        Seq::empty()
    } else {
        matching_items(ms.drop_last(), ch) + expansion_items(ms.last(), ch)
    }
}

/// The quiz items one chapter contributes, in presentation order:
/// multiple-choice, then the matching expansions pair by pair, then
/// fill-in-the-blank, then spelling.
pub open spec fn chapter_items(c: ChapterView) -> Seq<ItemView> {
    mc_items(c.multiple_choice, c.chapter) + matching_items(c.matching, c.chapter) + fib_items(
        c.fill_in_the_blanks,
        c.chapter,
    ) + sp_items(c.spelling, c.chapter)
}

/// The flattened pool: the items of every selected chapter, in bank order.
pub open spec fn pool_view(chapters: Seq<ChapterView>, selected: Seq<u32>) -> Seq<ItemView>
    decreases chapters.len(),
{
    if chapters.len() == 0 {
        Seq::empty()
    } else {
        pool_view(chapters.drop_last(), selected) + (if selected.contains(
            chapters.last().chapter,
        ) {
            chapter_items(chapters.last())
        } else {
            Seq::empty()
        })
    }
}

fn append_mc(r: &mut Vec<QuizItem>, qs: &Vec<MultipleChoiceQuestion>, ch: u32)
    ensures
        item_views(final(r)@) == item_views(old(r)@) + mc_items(
            qs@.map_values(|q: MultipleChoiceQuestion| q@),
            ch,
        ),
{
    let ghost base = item_views(r@);
    let ghost views = qs@.map_values(|q: MultipleChoiceQuestion| q@);
    let n: usize = qs.len();
    let mut i: usize = 0;
    while i < n
        invariant
            0 <= i <= n == qs@.len(),
            views == qs@.map_values(|q: MultipleChoiceQuestion| q@),
            item_views(r@) == base + mc_items(views.subrange(0, i as int), ch),
        decreases n - i,
    {
        let item = QuizItem { question: Question::MultipleChoice(qs[i].clone()), chapter: ch };
        proof {
            assert(views[i as int] == qs@[i as int]@);
            assert(item@ == ItemView {
                question: QuestionView::MultipleChoice(views[i as int]),
                chapter: ch,
            });
        }
        let ghost prev = r@;
        r.push(item);
        i = i + 1;
        proof {
            assert(mc_items(views.subrange(0, i as int), ch) =~= mc_items(
                views.subrange(0, i as int - 1),
                ch,
            ).push(item@));
            assert(item_views(r@) =~= item_views(prev).push(item@));
            assert(item_views(r@) =~= base + mc_items(views.subrange(0, i as int), ch));
        }
    }
    proof {
        assert(views.subrange(0, n as int) =~= views);
    }
}

fn append_fib(r: &mut Vec<QuizItem>, qs: &Vec<FillInTheBlankQuestion>, ch: u32)
    ensures
        item_views(final(r)@) == item_views(old(r)@) + fib_items(
            qs@.map_values(|q: FillInTheBlankQuestion| q@),
            ch,
        ),
{
    let ghost base = item_views(r@);
    let ghost views = qs@.map_values(|q: FillInTheBlankQuestion| q@);
    let n: usize = qs.len();
    let mut i: usize = 0;
    while i < n
        invariant
            0 <= i <= n == qs@.len(),
            views == qs@.map_values(|q: FillInTheBlankQuestion| q@),
            item_views(r@) == base + fib_items(views.subrange(0, i as int), ch),
        decreases n - i,
    {
        let item = QuizItem { question: Question::FillInTheBlank(qs[i].clone()), chapter: ch };
        proof {
            assert(views[i as int] == qs@[i as int]@);
            assert(item@ == ItemView {
                question: QuestionView::FillInTheBlank(views[i as int]),
                chapter: ch,
            });
        }
        let ghost prev = r@;
        r.push(item);
        i = i + 1;
        proof {
            assert(fib_items(views.subrange(0, i as int), ch) =~= fib_items(
                views.subrange(0, i as int - 1),
                ch,
            ).push(item@));
            assert(item_views(r@) =~= item_views(prev).push(item@));
            assert(item_views(r@) =~= base + fib_items(views.subrange(0, i as int), ch));
        }
    }
    proof {
        assert(views.subrange(0, n as int) =~= views);
    }
}

fn append_sp(r: &mut Vec<QuizItem>, qs: &Vec<SpellingQuestion>, ch: u32)
    ensures
        item_views(final(r)@) == item_views(old(r)@) + sp_items(
            qs@.map_values(|q: SpellingQuestion| q@),
            ch,
        ),
{
    let ghost base = item_views(r@);
    let ghost views = qs@.map_values(|q: SpellingQuestion| q@);
    let n: usize = qs.len();
    let mut i: usize = 0;
    while i < n
        invariant
            0 <= i <= n == qs@.len(),
            views == qs@.map_values(|q: SpellingQuestion| q@),
            item_views(r@) == base + sp_items(views.subrange(0, i as int), ch),
        decreases n - i,
    {
        let item = QuizItem { question: Question::Spelling(qs[i].clone()), chapter: ch };
        proof {
            assert(views[i as int] == qs@[i as int]@);
            assert(item@ == ItemView {
                question: QuestionView::Spelling(views[i as int]),
                chapter: ch,
            });
        }
        let ghost prev = r@;
        r.push(item);
        i = i + 1;
        proof {
            assert(sp_items(views.subrange(0, i as int), ch) =~= sp_items(
                views.subrange(0, i as int - 1),
                ch,
            ).push(item@));
            assert(item_views(r@) =~= item_views(prev).push(item@));
            assert(item_views(r@) =~= base + sp_items(views.subrange(0, i as int), ch));
        }
    }
    proof {
        assert(views.subrange(0, n as int) =~= views);
    }
}

fn append_matching(r: &mut Vec<QuizItem>, qs: &Vec<MatchingQuestion>, ch: u32)
    requires
        forall|i: int| 0 <= i < qs@.len() ==> (#[trigger] qs@[i])@.wf(),
    ensures
        item_views(final(r)@) == item_views(old(r)@) + matching_items(
            qs@.map_values(|q: MatchingQuestion| q@),
            ch,
        ),
{
    let ghost base = item_views(r@);
    let ghost views = qs@.map_values(|q: MatchingQuestion| q@);
    let n: usize = qs.len();
    let mut j: usize = 0;
    while j < n
        invariant
            0 <= j <= n == qs@.len(),
            views == qs@.map_values(|q: MatchingQuestion| q@),
            forall|i: int| 0 <= i < qs@.len() ==> (#[trigger] qs@[i])@.wf(),
            item_views(r@) == base + matching_items(views.subrange(0, j as int), ch),
        decreases n - j,
    {
        let expanded = expand_matching(&qs[j]);
        let ghost m = views[j as int];
        let ghost base2 = item_views(r@);
        let en: usize = expanded.len();
        proof {
            assert(sm_views(expanded@) == expand_view(m));
            assert(expanded@.len() == expand_view(m).len());
        }
        let mut t: usize = 0;
        while t < en
            invariant
                0 <= t <= en == expanded@.len(),
                sm_views(expanded@) == expand_view(m),
                item_views(r@) == base2 + expansion_items(m, ch).subrange(0, t as int),
                expansion_items(m, ch).len() == en,
            decreases en - t,
        {
            let item = QuizItem {
                question: Question::SingleMatching(expanded[t].clone()),
                chapter: ch,
            };
            proof {
                assert(sm_views(expanded@)[t as int] == expanded@[t as int]@);
                assert(expanded@[t as int]@ == expand_view(m)[t as int]);
                assert(item@ == expansion_items(m, ch)[t as int]);
            }
            let ghost prev = r@;
            r.push(item);
            t = t + 1;
            proof {
                assert(expansion_items(m, ch).subrange(0, t as int) =~= expansion_items(
                    m,
                    ch,
                ).subrange(0, t as int - 1).push(item@));
                assert(item_views(r@) =~= item_views(prev).push(item@));
                assert(item_views(r@) =~= base2 + expansion_items(m, ch).subrange(0, t as int));
            }
        }
        j = j + 1;
        proof {
            assert(expansion_items(m, ch).subrange(0, en as int) =~= expansion_items(m, ch));
            assert(views.subrange(0, j as int).drop_last() =~= views.subrange(0, j as int - 1));
            assert(item_views(r@) =~= base + matching_items(views.subrange(0, j as int), ch));
        }
    }
    proof {
        assert(views.subrange(0, n as int) =~= views);
    }
}

/// Assembles the pool: for every chapter whose id is selected, in bank
/// order, its questions are flattened into chapter-tagged quiz items —
/// multiple-choice first, then the matching expansions, then
/// fill-in-the-blank, then spelling.
pub fn build_pool(chapters: &Vec<Chapter>, selected: &Vec<u32>) -> (r: Vec<QuizItem>)
    requires
        forall|i: int| 0 <= i < chapters@.len() ==> (#[trigger] chapters@[i])@.wf(),
    ensures
        item_views(r@) == pool_view(chapter_views(chapters@), selected@),
{
    let mut r: Vec<QuizItem> = Vec::new();
    let ghost cviews = chapter_views(chapters@);
    let n: usize = chapters.len();
    proof {
        assert(item_views(r@) =~= Seq::<ItemView>::empty());
        assert(cviews.subrange(0, 0) =~= Seq::<ChapterView>::empty());
    }
    let mut ci: usize = 0;
    while ci < n
        invariant
            0 <= ci <= n == chapters@.len(),
            cviews == chapter_views(chapters@),
            forall|i: int| 0 <= i < chapters@.len() ==> (#[trigger] chapters@[i])@.wf(),
            item_views(r@) == pool_view(cviews.subrange(0, ci as int), selected@),
        decreases n - ci,
    {
        let c = &chapters[ci];
        let ghost before = item_views(r@);
        if contains_id(selected, c.chapter) {
            proof {
                assert(chapters@[ci as int]@.wf());
                assert forall|i: int| 0 <= i < c.matching@.len() implies (#[trigger] c.matching@[
                    i
                ])@.wf() by {
                    assert(c@.matching[i] == c.matching@[i]@);
                }
            }
            append_mc(&mut r, &c.multiple_choice, c.chapter);
            append_matching(&mut r, &c.matching, c.chapter);
            append_fib(&mut r, &c.fill_in_the_blanks, c.chapter);
            append_sp(&mut r, &c.spelling, c.chapter);
            proof {
                assert(item_views(r@) =~= before + chapter_items(cviews[ci as int]));
            }
        }
        ci = ci + 1;
        proof {
            assert(cviews.subrange(0, ci as int).drop_last() =~= cviews.subrange(
                0,
                ci as int - 1,
            ));
            assert(item_views(r@) =~= pool_view(cviews.subrange(0, ci as int), selected@));
        }
    }
    proof {
        assert(cviews.subrange(0, n as int) =~= cviews);
    }
    r
}

/// Relies on rand's `SliceRandom::shuffle` with the thread-local generator:
/// it permutes the slice in place, so the new contents are exactly the old
/// contents rearranged; which arrangement comes out is random.
#[verifier::external_body]
fn shuffle_items(v: &mut Vec<QuizItem>)
    ensures
        final(v)@.to_multiset() == old(v)@.to_multiset(),
        final(v)@.len() == old(v)@.len(),
{
    let mut generator = rand::rng();
    v.as_mut_slice().shuffle(&mut generator);
}

/// Applies the size choice to the assembled pool. Selecting the whole pool
/// keeps it exactly as assembled, in order and unshuffled. A numeric count
/// first shuffles the pool uniformly at random, then keeps its first
/// `count` items, so the result holds `count` items (each a distinct
/// position of the original pool) when `count` is at most the pool size; a
/// count beyond the pool size is clamped and keeps the whole shuffled pool.
pub fn select_pool(pool: Vec<QuizItem>, choice: SizeChoice) -> (r: Vec<QuizItem>)
    ensures
        match choice {
            SizeChoice::All => r@ == pool@,
            SizeChoice::Count(k) => {
                &&& r@.len() == (if k <= pool@.len() {
                    k as int
                } else {
                    pool@.len() as int
                })
                &&& r@.to_multiset().subset_of(pool@.to_multiset())
            },
        },
{
    match choice {
        SizeChoice::All => pool,  // the whole pool, original order, no shuffle
        SizeChoice::Count(k) => {
            let mut p = pool;
            let ghost original = p@;
            shuffle_items(&mut p);
            let ghost shuffled = p@;
            let n: usize = p.len();
            let keep: usize = if k <= n {
                k
            } else {
                n
            };
            p.truncate(keep);
            proof {
                assert(p@ == shuffled.subrange(0, keep as int));
                let pre = shuffled.subrange(0, keep as int);
                let suf = shuffled.subrange(keep as int, shuffled.len() as int);
                assert(shuffled =~= pre + suf);
                lemma_multiset_commutative(pre, suf);
                assert(forall|x: QuizItem|
                    pre.to_multiset().count(x) <= #[trigger] shuffled.to_multiset().count(x));
            }
            p
        },
    }
}

/// A sample whose multiset is contained in the pool's holds only items of
/// the pool: each sampled item occurs in the original pool, and no pool
/// position is used twice.
pub proof fn lemma_sample_within_pool(sample: Seq<QuizItem>, pool: Seq<QuizItem>)
    requires
        sample.to_multiset().subset_of(pool.to_multiset()),
    ensures
        forall|i: int| 0 <= i < sample.len() ==> pool.contains(#[trigger] sample[i]),
{
    broadcast use group_to_multiset_ensures;

    assert forall|i: int| 0 <= i < sample.len() implies pool.contains(#[trigger] sample[i]) by {
        assert(sample.contains(sample[i]));
        assert(sample.to_multiset().count(sample[i]) > 0);
        assert(pool.to_multiset().count(sample[i]) > 0);
    }
}

} // verus!
