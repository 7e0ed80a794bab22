use quiz_trainer::model::{
    FillInTheBlankQuestion, MultipleChoiceQuestion, SingleMatchingQuestion, SpellingQuestion,
};

fn mc_with_answer_b() -> MultipleChoiceQuestion {
    MultipleChoiceQuestion {
        question: "Which planet is closest to the sun?".to_string(),
        options: vec![
            "Venus".to_string(),
            "Mercury".to_string(),
            "Mars".to_string(),
            "Earth".to_string(),
        ],
        answer: 'b',
    }
}

fn sm_three_definitions() -> SingleMatchingQuestion {
    SingleMatchingQuestion {
        term: "osmosis".to_string(),
        definition: vec![
            "splitting of a cell".to_string(),
            "diffusion of water across a membrane".to_string(),
            "conversion of light to energy".to_string(),
        ],
        correct_answer: "diffusion of water across a membrane".to_string(),
    }
}

#[test]
fn mc_correct_is_case_sensitive() {
    let q = mc_with_answer_b();
    assert!(q.grade("b"));
    assert!(!q.grade("B"));
}

#[test]
fn mc_trims_surrounding_whitespace() {
    let q = mc_with_answer_b();
    assert!(q.grade("  b "));
    assert!(!q.grade("bb"));
    assert!(!q.grade(""));
}

#[test]
fn sm_valid_index_grades_by_position() {
    let q = sm_three_definitions();
    assert!(q.grade("2"));
    assert!(!q.grade("1"));
    assert!(!q.grade("3"));
}

#[test]
fn sm_invalid_input_is_sentinel_and_incorrect() {
    let q = sm_three_definitions();
    assert!(!q.grade("abc"));
    assert!(!q.grade(""));
    assert!(!q.grade("0"));
    assert!(!q.grade("4"));
    assert!(!q.grade("-1"));
    assert!(!q.grade("99999999999999999999999999"));
}

#[test]
fn sm_trims_before_parsing() {
    let q = sm_three_definitions();
    assert!(q.grade(" 2 "));
}

#[test]
fn fib_ignores_ascii_case_and_outer_whitespace() {
    let q = FillInTheBlankQuestion {
        question: "Capital of France?".to_string(),
        answer: "Paris".to_string(),
    };
    assert!(q.grade("Paris"));
    assert!(q.grade("paris"));
    assert!(q.grade("PARIS"));
    assert!(q.grade("  pArIs\t"));
    assert!(!q.grade("Pariss"));
    assert!(!q.grade("Pari"));
    assert!(!q.grade(""));
}

#[test]
fn spelling_grades_like_fill_in_the_blank() {
    let q = SpellingQuestion {
        question: "Pick the right spelling".to_string(),
        options: vec![
            "accomodate".to_string(),
            "acommodate".to_string(),
            "acomodate".to_string(),
        ],
        answer: "accommodate".to_string(),
    };
    assert!(q.grade("accommodate"));
    assert!(q.grade("ACCOMMODATE"));
    assert!(q.grade(" Accommodate "));
    // the displayed distractors are not accepted, even though they are shown
    assert!(!q.grade("accomodate"));
}

#[test]
fn grading_same_input_twice_agrees() {
    let mc = mc_with_answer_b();
    assert_eq!(mc.grade("b"), mc.grade("b"));
    assert_eq!(mc.grade("x"), mc.grade("x"));
    let sm = sm_three_definitions();
    assert_eq!(sm.grade("2"), sm.grade("2"));
    assert_eq!(sm.grade("nope"), sm.grade("nope"));
    let fib = FillInTheBlankQuestion {
        question: "q".to_string(),
        answer: "ans".to_string(),
    };
    assert_eq!(fib.grade("ANS"), fib.grade("ANS"));
}
