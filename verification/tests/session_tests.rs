use quiz_trainer::expand::expand_matching;
use quiz_trainer::model::{
    Chapter, FillInTheBlankQuestion, MatchingPair, MatchingQuestion, MultipleChoiceQuestion,
    Question, QuizItem, SingleMatchingQuestion, SpellingQuestion, chapter_well_formed,
    matching_terms_distinct,
};
use quiz_trainer::runner::QuizSession;
use quiz_trainer::session::{
    SizeChoice, build_pool, chapter_ids, chapter_selection_step, select_pool, size_choice,
};

fn pair(term: &str, definition: &str) -> MatchingPair {
    MatchingPair { term: term.to_string(), definition: definition.to_string() }
}

fn matching_three_pairs() -> MatchingQuestion {
    MatchingQuestion {
        question: "Match each term to its definition".to_string(),
        pairs: vec![
            pair("alpha", "the first letter"),
            pair("beta", "the second letter"),
            pair("gamma", "the third letter"),
        ],
    }
}

fn mc(question: &str) -> MultipleChoiceQuestion {
    MultipleChoiceQuestion {
        question: question.to_string(),
        options: vec![
            "one".to_string(),
            "two".to_string(),
            "three".to_string(),
            "four".to_string(),
        ],
        answer: 'a',
    }
}

fn empty_chapter(id: u32) -> Chapter {
    Chapter {
        chapter: id,
        multiple_choice: Vec::new(),
        matching: Vec::new(),
        fill_in_the_blanks: Vec::new(),
        spelling: Vec::new(),
    }
}

fn prompt_of(item: &QuizItem) -> String {
    match &item.question {
        Question::MultipleChoice(q) => q.question.clone(),
        Question::SingleMatching(q) => q.term.clone(),
        Question::FillInTheBlank(q) => q.question.clone(),
        Question::Spelling(q) => q.question.clone(),
    }
}

#[test]
fn expansion_yields_one_item_per_pair() {
    let m = matching_three_pairs();
    let items = expand_matching(&m);
    assert_eq!(items.len(), 3);
    for (i, item) in items.iter().enumerate() {
        assert_eq!(item.term, m.pairs[i].term);
        assert_eq!(item.correct_answer, m.pairs[i].definition);
        assert_eq!(item.definition.len(), 3);
        for (k, d) in item.definition.iter().enumerate() {
            assert_eq!(*d, m.pairs[k].definition);
        }
    }
}

#[test]
fn single_matching_new_uses_requested_term() {
    let m = matching_three_pairs();
    let item = SingleMatchingQuestion::new("beta".to_string(), &m.pairs);
    assert_eq!(item.term, "beta");
    assert_eq!(item.correct_answer, "the second letter");
    assert_eq!(
        item.definition,
        vec![
            "the first letter".to_string(),
            "the second letter".to_string(),
            "the third letter".to_string(),
        ]
    );
}

#[test]
fn selection_all_token_takes_every_chapter() {
    let available = vec![1u32, 2, 3];
    let sel = chapter_selection_step("a", &available).expect("the token a selects all");
    assert_eq!(sel, vec![1, 2, 3]);
}

#[test]
fn selection_accepts_a_valid_subset() {
    let available = vec![1u32, 2, 3];
    let sel = chapter_selection_step("1, 3", &available).expect("a subset is accepted");
    assert_eq!(sel, vec![1, 3]);
}

#[test]
fn selection_drops_tokens_that_do_not_parse() {
    let available = vec![1u32, 2, 3];
    let sel = chapter_selection_step("1, x, 2,", &available).expect("bad tokens are dropped");
    assert_eq!(sel, vec![1, 2]);
}

#[test]
fn selection_rejects_an_unknown_chapter() {
    let available = vec![1u32, 2];
    assert!(chapter_selection_step("3", &available).is_none());
    assert!(chapter_selection_step("1,3", &available).is_none());
}

#[test]
fn selection_empty_input_is_the_empty_subset() {
    // after dropping unparseable tokens an empty id set remains a subset
    let available = vec![1u32, 2];
    let sel = chapter_selection_step("", &available).expect("the empty selection is a subset");
    assert!(sel.is_empty());
}

#[test]
fn selection_token_beyond_u32_range_is_dropped() {
    let available = vec![1u32];
    let sel = chapter_selection_step("4294967296", &available).expect("overflowing token drops");
    assert!(sel.is_empty());
}

#[test]
fn size_tokens_parse_with_default_five() {
    assert!(matches!(size_choice("a"), SizeChoice::All));
    assert!(matches!(size_choice("7"), SizeChoice::Count(7)));
    assert!(matches!(size_choice(" 12 "), SizeChoice::Count(12)));
    assert!(matches!(size_choice("abc"), SizeChoice::Count(5)));
    assert!(matches!(size_choice(""), SizeChoice::Count(5)));
}

#[test]
fn chapter_ids_follow_bank_order() {
    let chapters = vec![empty_chapter(4), empty_chapter(1), empty_chapter(9)];
    assert_eq!(chapter_ids(&chapters), vec![4, 1, 9]);
}

#[test]
fn scenario_selecting_chapter_two_yields_its_expansion() {
    // chapter 1 holds two multiple-choice questions, chapter 2 one matching
    // question with three pairs; selecting "2" and size "a" yields exactly
    // the three expanded items, all tagged with chapter 2
    let mut one = empty_chapter(1);
    one.multiple_choice = vec![mc("first"), mc("second")];
    let mut two = empty_chapter(2);
    two.matching = vec![matching_three_pairs()];
    let chapters = vec![one, two];
    for c in &chapters {
        assert!(chapter_well_formed(c));
    }
    let available = chapter_ids(&chapters);
    let sel = chapter_selection_step("2", &available).expect("chapter 2 exists");
    let pool = build_pool(&chapters, &sel);
    assert_eq!(pool.len(), 3);
    for item in &pool {
        assert_eq!(item.chapter, 2);
        assert!(matches!(item.question, Question::SingleMatching(_)));
    }
    let kept = select_pool(pool, SizeChoice::All);
    assert_eq!(kept.len(), 3);
    assert_eq!(prompt_of(&kept[0]), "alpha");
    assert_eq!(prompt_of(&kept[1]), "beta");
    assert_eq!(prompt_of(&kept[2]), "gamma");
}

#[test]
fn pool_keeps_the_per_chapter_kind_order() {
    let mut c = empty_chapter(7);
    c.multiple_choice = vec![mc("mc q")];
    c.matching = vec![matching_three_pairs()];
    c.fill_in_the_blanks = vec![FillInTheBlankQuestion {
        question: "fib q".to_string(),
        answer: "x".to_string(),
    }];
    c.spelling = vec![SpellingQuestion {
        question: "sp q".to_string(),
        options: vec!["u".to_string(), "v".to_string(), "w".to_string()],
        answer: "y".to_string(),
    }];
    assert!(chapter_well_formed(&c));
    let chapters = vec![c];
    let pool = build_pool(&chapters, &vec![7]);
    assert_eq!(pool.len(), 6);
    assert!(matches!(pool[0].question, Question::MultipleChoice(_)));
    assert!(matches!(pool[1].question, Question::SingleMatching(_)));
    assert!(matches!(pool[2].question, Question::SingleMatching(_)));
    assert!(matches!(pool[3].question, Question::SingleMatching(_)));
    assert!(matches!(pool[4].question, Question::FillInTheBlank(_)));
    assert!(matches!(pool[5].question, Question::Spelling(_)));
}

#[test]
fn numeric_size_samples_exactly_that_many_pool_items() {
    let mut c = empty_chapter(3);
    c.multiple_choice = vec![mc("q0"), mc("q1"), mc("q2"), mc("q3"), mc("q4")];
    assert!(chapter_well_formed(&c));
    let chapters = vec![c];
    let pool = build_pool(&chapters, &vec![3]);
    let original: Vec<String> = pool.iter().map(prompt_of).collect();
    let sample = select_pool(pool, SizeChoice::Count(3));
    assert_eq!(sample.len(), 3);
    let mut seen: Vec<String> = Vec::new();
    for item in &sample {
        let p = prompt_of(item);
        assert!(original.contains(&p));
        // prompts are unique here, so no pool position may repeat
        assert!(!seen.contains(&p));
        seen.push(p);
    }
}

#[test]
fn size_beyond_the_pool_clamps_to_the_whole_pool() {
    let mut c = empty_chapter(3);
    c.multiple_choice = vec![mc("q0"), mc("q1"), mc("q2")];
    let chapters = vec![c];
    let pool = build_pool(&chapters, &vec![3]);
    let sample = select_pool(pool, SizeChoice::Count(10));
    assert_eq!(sample.len(), 3);
}

#[test]
fn runner_counts_correct_answers_in_order() {
    let items = vec![
        QuizItem { question: Question::MultipleChoice(mc("first")), chapter: 1 },
        QuizItem {
            question: Question::FillInTheBlank(FillInTheBlankQuestion {
                question: "say hi".to_string(),
                answer: "hi".to_string(),
            }),
            chapter: 2,
        },
    ];
    let mut session = QuizSession::new(items);
    assert_eq!(session.total(), 2);
    assert!(!session.done());
    assert_eq!(session.current().chapter, 1);
    assert!(session.answer("a"));
    assert_eq!(session.current().chapter, 2);
    assert!(!session.answer("wrong"));
    assert!(session.done());
    assert_eq!(session.summary(), (1, 2));
}

#[test]
fn well_formedness_checks_each_kind() {
    let mut good = empty_chapter(1);
    good.multiple_choice = vec![mc("fine")];
    good.matching = vec![matching_three_pairs()];
    assert!(chapter_well_formed(&good));

    let mut bad_options = empty_chapter(1);
    bad_options.multiple_choice = vec![MultipleChoiceQuestion {
        question: "too few".to_string(),
        options: vec!["one".to_string()],
        answer: 'a',
    }];
    assert!(!chapter_well_formed(&bad_options));

    let mut bad_selector = empty_chapter(1);
    bad_selector.multiple_choice = vec![MultipleChoiceQuestion {
        question: "selector out of range".to_string(),
        options: vec![
            "one".to_string(),
            "two".to_string(),
            "three".to_string(),
            "four".to_string(),
        ],
        answer: 'e',
    }];
    assert!(!chapter_well_formed(&bad_selector));

    let duplicated = MatchingQuestion {
        question: "twice the same term".to_string(),
        pairs: vec![pair("alpha", "one"), pair("alpha", "two")],
    };
    assert!(!matching_terms_distinct(&duplicated));
    let mut bad_matching = empty_chapter(1);
    bad_matching.matching = vec![duplicated];
    assert!(!chapter_well_formed(&bad_matching));

    let mut bad_spelling = empty_chapter(1);
    bad_spelling.spelling = vec![SpellingQuestion {
        question: "two options only".to_string(),
        options: vec!["u".to_string(), "v".to_string()],
        answer: "y".to_string(),
    }];
    assert!(!chapter_well_formed(&bad_spelling));
}
