use uni_headless::question::{
    Blank, Choice, FillInBlanks, FillSegment, Image, MatchItem, Question, RequiredFile,
};

fn sample_choice(text: &str) -> Choice {
    Choice {
        input_name: "q:answer".to_string(),
        input_value: "0".to_string(),
        text: text.to_string(),
        selected: false,
        images: vec![],
    }
}

#[test]
fn accessors_answer_for_the_right_variant() {
    let q = Question::SingleChoice {
        question_text: "which?".to_string(),
        choices: vec![sample_choice("a"), sample_choice("b")],
        images: vec![Image { url: "https://x/i.png".to_string(), alt: None }],
    };
    assert_eq!(q.question_text(), "which?");
    assert_eq!(q.choices().len(), 2);
    assert_eq!(q.images().len(), 1);
    assert!(!q.is_multi());
    assert!(!q.is_code_submission());
    assert!(q.short_answer_input_name().is_none());
    assert!(q.module_id().is_none());
}

#[test]
fn accessors_answer_empty_or_none_for_the_wrong_variant() {
    let q = Question::ShortAnswer {
        question_text: "say".to_string(),
        input_name: "q2:answer".to_string(),
        current_answer: String::new(),
        images: vec![],
    };
    assert!(q.is_short_answer());
    assert_eq!(q.short_answer_input_name(), Some("q2:answer"));
    assert!(q.choices().is_empty());
    assert!(q.match_items().is_empty());
    assert!(q.required_files().is_empty());
    assert!(q.fill_in_blanks().is_none());
    assert!(q.drag_drop_into_text().is_none());
    assert!(q.code_block_input_name().is_none());
    assert!(q.code_block_language().is_none());
}

#[test]
fn code_submission_carries_files_and_module() {
    let q = Question::CodeSubmission {
        description: "do the thing".to_string(),
        required_files: vec![RequiredFile { name: "main.c".to_string(), content: String::new() }],
        module_id: "4242".to_string(),
        images: vec![],
    };
    assert!(q.is_code_submission());
    assert_eq!(q.question_text(), "do the thing");
    assert_eq!(q.required_files().len(), 1);
    assert_eq!(q.required_files()[0].name, "main.c");
    assert_eq!(q.module_id(), Some("4242"));
}

#[test]
fn fill_in_blanks_structure_is_reachable() {
    let fill = FillInBlanks {
        question_text: "cloze".to_string(),
        segments: vec![
            FillSegment::Text("the ".to_string()),
            FillSegment::Blank(0),
            FillSegment::Text(" sat".to_string()),
        ],
        blanks: vec![Blank::Text { input_name: "b0".to_string(), current_value: String::new() }],
        images: vec![],
    };
    let q = Question::FillInBlanks(fill);
    assert!(q.is_fill_in_blanks());
    let f = q.fill_in_blanks().unwrap();
    assert_eq!(f.segments.len(), 3);
    assert_eq!(f.blanks.len(), 1);
}

#[test]
fn code_block_carries_language_and_input() {
    let q = Question::CodeBlock {
        question_text: "inline".to_string(),
        input_name: "q3:code".to_string(),
        language: "java".to_string(),
        current_code: "class A {}".to_string(),
        images: vec![],
    };
    assert!(q.is_code_block());
    assert_eq!(q.code_block_input_name(), Some("q3:code"));
    assert_eq!(q.code_block_language(), Some("java"));
}

#[test]
fn matching_items_are_reachable() {
    let q = Question::Matching {
        question_text: "match up".to_string(),
        items: vec![MatchItem {
            prompt: "left".to_string(),
            select_name: "m0".to_string(),
            options: vec![],
            selected_value: "0".to_string(),
        }],
        images: vec![],
    };
    assert!(q.is_matching());
    assert_eq!(q.match_items().len(), 1);
    assert_eq!(q.match_items()[0].select_name, "m0");
}
