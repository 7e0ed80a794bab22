//! Matching expansion: one matching question with n term/definition pairs
//! becomes n independent single-matching quiz items, each asking for a
//! different term's definition out of the same shared definition list.
use vstd::prelude::*;

use crate::model::{MatchQView, MatchingPair, MatchingQuestion, PairView, SingleMatchingQuestion, SmQView};

verus! {

/// The definitions of the pairs, in pair order.
pub open spec fn definitions_of(pairs: Seq<PairView>) -> Seq<Seq<char>> {
    pairs.map_values(|p: PairView| p.definition)
}

/// The single-matching item derived from pair `i`: that pair's term, the
/// full shared definition list, and that pair's definition as the correct
/// one.
pub open spec fn expansion_item(m: MatchQView, i: int) -> SmQView {
    SmQView {
        term: m.pairs[i].term,
        definition: definitions_of(m.pairs),
        correct_answer: m.pairs[i].definition,
    }
}

/// What expanding a matching question yields: one item per pair, in order.
pub open spec fn expand_view(m: MatchQView) -> Seq<SmQView> {
    Seq::new(m.pairs.len(), |i: int| expansion_item(m, i))
}

pub open spec fn sm_views(v: Seq<SingleMatchingQuestion>) -> Seq<SmQView> {
    v.map_values(|q: SingleMatchingQuestion| q@)
}

impl SingleMatchingQuestion {
    /// Derives the single-matching item for `term` from the pair list: the
    /// full definition list in pair order, and the definition of the first
    /// pair whose term equals `term` as the correct answer. The term must
    /// occur; a bank that requests an absent term is malformed and must be
    /// rejected before this point.
    pub fn new(term: String, pairs: &Vec<MatchingPair>) -> (r: Self)
        requires
            exists|j: int| 0 <= j < pairs@.len() && pairs@[j].term@ == term@,
        ensures
            r@.definition == definitions_of(pairs@.map_values(|p: MatchingPair| p@)),
            forall|j: int|
                (0 <= j < pairs@.len() && pairs@[j].term@ == term@ && (forall|k: int|
                    0 <= k < j ==> pairs@[k].term@ != term@)) ==> (r@.term == pairs@[j].term@
                    && r@.correct_answer == pairs@[j].definition@),
    {
        let n: usize = pairs.len();
        let mut j: usize = 0;
        while !(pairs[j].term == term)
            invariant
                0 <= j < n == pairs@.len(),
                forall|k: int| 0 <= k < j ==> pairs@[k].term@ != term@,
                exists|m: int| j <= m < n && pairs@[m].term@ == term@,
            decreases n - j,
    {
            j = j + 1;
        }
        let mut definition: Vec<String> = Vec::new();
        let mut k: usize = 0;
        while k < n
            invariant
                0 <= k <= n == pairs@.len(),
                definition@.len() == k,
                forall|a: int| 0 <= a < k ==> definition@[a]@ == pairs@[a].definition@,
            decreases n - k,
        {
            definition.push(pairs[k].definition.clone());
            k = k + 1;
        }
        let r = SingleMatchingQuestion {
            term: pairs[j].term.clone(),
            definition,
            correct_answer: pairs[j].definition.clone(),
        };
        proof {
            assert(r@.definition =~= definitions_of(pairs@.map_values(|p: MatchingPair| p@)));
        }
        r
    }
}

/// Expands a matching question into one single-matching item per pair, each
/// carrying the full definition list and the definition of its source pair.
pub fn expand_matching(q: &MatchingQuestion) -> (r: Vec<SingleMatchingQuestion>)
    requires
        q@.wf(),
    ensures
        sm_views(r@) == expand_view(q@),
{
    let n: usize = q.pairs.len();
    let mut r: Vec<SingleMatchingQuestion> = Vec::new();
    let mut i: usize = 0;
    while i < n
        invariant
            0 <= i <= n == q.pairs@.len(),
            q@.wf(),
            q@.pairs.len() == n,
            r@.len() == i,
            forall|a: int| 0 <= a < i ==> r@[a]@ == expansion_item(q@, a),
        decreases n - i,
    {
        proof {
            assert(q@.pairs[i as int].term == q.pairs@[i as int].term@);
            assert(forall|k: int|
                0 <= k < i ==> q@.pairs[k].term != q@.pairs[i as int].term);
        }
        let item = SingleMatchingQuestion::new(q.pairs[i].term.clone(), &q.pairs);
        proof {
            assert(item@.term == q@.pairs[i as int].term && item@.correct_answer == q@.pairs[
                i as int
            ].definition) by {
                assert forall|k: int| 0 <= k < i implies q.pairs@[k].term@ != q.pairs@[
                    i as int
                ].term@ by {
                    assert(q@.pairs[k].term == q.pairs@[k].term@);
                    assert(q@.pairs[k].term != q@.pairs[i as int].term);
                }
            }
            assert(item@ =~= expansion_item(q@, i as int));
        }
        r.push(item);
        i = i + 1;
    }
    proof {
        assert(sm_views(r@) =~= expand_view(q@));
    }
    r
}

/// Matching expansion yields exactly one item per pair: item `i` carries the
/// term and the correct definition of pair `i` and the full shared
/// definition list; and when the source definitions are pairwise distinct,
/// the items' correct definitions are pairwise distinct too.
pub proof fn lemma_expansion_shape(m: MatchQView)
    ensures
        expand_view(m).len() == m.pairs.len(),
        forall|i: int|
            0 <= i < m.pairs.len() ==> (#[trigger] expand_view(m)[i]).term == m.pairs[i].term,
        forall|i: int|
            0 <= i < m.pairs.len() ==> (#[trigger] expand_view(m)[i]).correct_answer
                == m.pairs[i].definition,
        forall|i: int|
            0 <= i < m.pairs.len() ==> (#[trigger] expand_view(m)[i]).definition
                == definitions_of(m.pairs),
        (forall|i: int, j: int|
            0 <= i < j < m.pairs.len() ==> m.pairs[i].definition != m.pairs[j].definition)
            ==> (forall|i: int, j: int|
            0 <= i < j < expand_view(m).len() ==> (#[trigger] expand_view(m)[i]).correct_answer
                != (#[trigger] expand_view(m)[j]).correct_answer),
{
}

} // verus!
