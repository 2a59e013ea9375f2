use uni_headless::answer::LlmAnswerResult;
use uni_headless::apply::{plan_actions, ApplyError, PageAction};
use uni_headless::question::{Choice, Question};

fn choice(name: &str, value: &str, text: &str, selected: bool) -> Choice {
    Choice {
        input_name: name.to_string(),
        input_value: value.to_string(),
        text: text.to_string(),
        selected,
        images: vec![],
    }
}

fn single_question(selected: [bool; 3]) -> Question {
    Question::SingleChoice {
        question_text: "pick one".to_string(),
        choices: vec![
            choice("q:answer", "0", "a", selected[0]),
            choice("q:answer", "1", "b", selected[1]),
            choice("q:answer", "2", "c", selected[2]),
        ],
        images: vec![],
    }
}

fn multi_question(selected: [bool; 3]) -> Question {
    Question::MultiChoice {
        question_text: "pick all".to_string(),
        choices: vec![
            choice("q:c0", "1", "a", selected[0]),
            choice("q:c1", "1", "b", selected[1]),
            choice("q:c2", "1", "c", selected[2]),
        ],
        images: vec![],
    }
}

#[test]
fn single_unselected_choice_gets_one_toggle() {
    let q = single_question([false, false, false]);
    let a = LlmAnswerResult::Single { idx: 1, text: "b".to_string() };
    let plan = plan_actions(&q, &a).unwrap();
    assert_eq!(
        plan,
        vec![PageAction::Toggle { input_name: "q:answer".to_string(), input_value: "1".to_string() }]
    );
}

#[test]
fn single_already_selected_plans_nothing() {
    let q = single_question([false, true, false]);
    let a = LlmAnswerResult::Single { idx: 1, text: "b".to_string() };
    assert_eq!(plan_actions(&q, &a).unwrap(), Vec::new());
}

#[test]
fn single_applied_twice_toggles_nothing_the_second_time() {
    let q = single_question([false, false, false]);
    let a = LlmAnswerResult::Single { idx: 2, text: "c".to_string() };
    let first = plan_actions(&q, &a).unwrap();
    assert_eq!(first.len(), 1);
    // The page now shows what the first application set.
    let q_after = single_question([false, false, true]);
    assert_eq!(plan_actions(&q_after, &a).unwrap(), Vec::new());
}

#[test]
fn single_out_of_range_is_rejected_not_panicking() {
    let q = single_question([false, false, false]);
    let a = LlmAnswerResult::Single { idx: 3, text: "d".to_string() };
    assert_eq!(plan_actions(&q, &a), Err(ApplyError::IndexOutOfRange));
}

#[test]
fn multi_toggles_only_differing_choices() {
    // Wants {0, 2}; page shows {1, 2}: toggle 0 on and 1 off, leave 2.
    let q = multi_question([false, true, true]);
    let a = LlmAnswerResult::Multi {
        indices: vec![0, 2],
        texts: vec!["a".to_string(), "c".to_string()],
    };
    let plan = plan_actions(&q, &a).unwrap();
    assert_eq!(
        plan,
        vec![
            PageAction::Toggle { input_name: "q:c0".to_string(), input_value: "1".to_string() },
            PageAction::Toggle { input_name: "q:c1".to_string(), input_value: "1".to_string() },
        ]
    );
}

#[test]
fn multi_applied_twice_toggles_nothing_the_second_time() {
    let q = multi_question([false, false, false]);
    let a = LlmAnswerResult::Multi {
        indices: vec![0, 2],
        texts: vec!["a".to_string(), "c".to_string()],
    };
    assert_eq!(plan_actions(&q, &a).unwrap().len(), 2);
    // The page now shows exactly the desired selections.
    let q_after = multi_question([true, false, true]);
    assert_eq!(plan_actions(&q_after, &a).unwrap(), Vec::new());
}

#[test]
fn multi_out_of_range_is_rejected_whole() {
    let q = multi_question([false, false, false]);
    let a = LlmAnswerResult::Multi { indices: vec![0, 7], texts: vec![] };
    assert_eq!(plan_actions(&q, &a), Err(ApplyError::IndexOutOfRange));
}

#[test]
fn text_answer_sets_the_short_answer_input() {
    let q = Question::ShortAnswer {
        question_text: "say it".to_string(),
        input_name: "q7:answer".to_string(),
        current_answer: String::new(),
        images: vec![],
    };
    let a = LlmAnswerResult::Text { answer: "42".to_string() };
    assert_eq!(
        plan_actions(&q, &a).unwrap(),
        vec![PageAction::SetText { input_name: "q7:answer".to_string(), value: "42".to_string() }]
    );
}

#[test]
fn text_answer_on_choice_question_is_a_variant_mismatch() {
    let q = single_question([false, false, false]);
    let a = LlmAnswerResult::Text { answer: "nope".to_string() };
    assert_eq!(plan_actions(&q, &a), Err(ApplyError::VariantMismatch));
}

#[test]
fn matching_with_unknown_selector_is_rejected() {
    let q = Question::Matching {
        question_text: "match".to_string(),
        items: vec![],
        images: vec![],
    };
    let a = LlmAnswerResult::Matching {
        selections: vec![("ghost".to_string(), "1".to_string())],
    };
    assert_eq!(plan_actions(&q, &a), Err(ApplyError::UnknownSelector));
}

#[test]
fn code_block_answer_sets_the_editor_field() {
    let q = Question::CodeBlock {
        question_text: "write it".to_string(),
        input_name: "q9:code".to_string(),
        language: "python".to_string(),
        current_code: String::new(),
        images: vec![],
    };
    let a = LlmAnswerResult::CodeBlock { code: "print(1)".to_string() };
    assert_eq!(
        plan_actions(&q, &a).unwrap(),
        vec![PageAction::SetCode { input_name: "q9:code".to_string(), code: "print(1)".to_string() }]
    );
}
