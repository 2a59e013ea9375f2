use uni_headless::answer::{
    resolve_drag_drop, resolve_fill_in_blanks, resolve_matching, resolve_multi_answer,
    resolve_single_answer, AnswerError, FillInBlanksAnswerItem, LlmAnswerResult,
};
use uni_headless::question::{Blank, DragChoice, DragDropIntoText, DropZone, MatchItem, MatchOption};

fn opt(value: &str, text: &str) -> MatchOption {
    MatchOption { value: value.to_string(), text: text.to_string() }
}

#[test]
fn single_answer_maps_one_based_number_to_index() {
    let r = resolve_single_answer(3, 2, "b".to_string()).unwrap();
    assert_eq!(r, LlmAnswerResult::Single { idx: 1, text: "b".to_string() });
}

#[test]
fn single_answer_out_of_range_is_rejected() {
    assert_eq!(resolve_single_answer(3, 0, "x".to_string()), Err(AnswerError::IndexOutOfRange));
    assert_eq!(resolve_single_answer(3, 4, "x".to_string()), Err(AnswerError::IndexOutOfRange));
    assert_eq!(resolve_single_answer(0, 1, "x".to_string()), Err(AnswerError::IndexOutOfRange));
}

#[test]
fn multi_answer_maps_all_numbers() {
    let nums = vec![1usize, 3];
    let texts = vec!["a".to_string(), "c".to_string()];
    let r = resolve_multi_answer(3, &nums, texts.clone()).unwrap();
    assert_eq!(r, LlmAnswerResult::Multi { indices: vec![0, 2], texts });
}

#[test]
fn multi_answer_with_one_bad_number_is_rejected_whole() {
    let nums = vec![1usize, 4];
    let r = resolve_multi_answer(3, &nums, vec!["a".to_string(), "d".to_string()]);
    assert_eq!(r, Err(AnswerError::IndexOutOfRange));
}

#[test]
fn matching_resolves_prompt_and_option_text() {
    let items = vec![
        MatchItem {
            prompt: "The capital of France".to_string(),
            select_name: "menu1".to_string(),
            options: vec![opt("0", "Choose..."), opt("1", "Paris"), opt("2", "Rome")],
            selected_value: "0".to_string(),
        },
        MatchItem {
            prompt: "The capital of Italy".to_string(),
            select_name: "menu2".to_string(),
            options: vec![opt("0", "Choose..."), opt("1", "Paris"), opt("2", "Rome")],
            selected_value: "0".to_string(),
        },
    ];
    let raw = vec![
        ("capital of Italy".to_string(), "Rome".to_string()),
        ("The capital of France".to_string(), "Paris".to_string()),
    ];
    let r = resolve_matching(&items, &raw);
    assert_eq!(
        r,
        vec![
            ("menu2".to_string(), "2".to_string()),
            ("menu1".to_string(), "1".to_string()),
        ]
    );
}

#[test]
fn matching_empty_prompt_goes_by_slot_number() {
    let items = vec![MatchItem {
        prompt: String::new(),
        select_name: "inline1".to_string(),
        options: vec![opt("7", "blue"), opt("8", "red")],
        selected_value: String::new(),
    }];
    let by_label = vec![("[1]".to_string(), "red".to_string())];
    assert_eq!(resolve_matching(&items, &by_label), vec![("inline1".to_string(), "8".to_string())]);
    let by_number = vec![("1".to_string(), "blue".to_string())];
    assert_eq!(
        resolve_matching(&items, &by_number),
        vec![("inline1".to_string(), "7".to_string())]
    );
}

#[test]
fn matching_unknown_prompt_or_option_is_dropped() {
    let items = vec![MatchItem {
        prompt: "alpha".to_string(),
        select_name: "m".to_string(),
        options: vec![opt("1", "one")],
        selected_value: "0".to_string(),
    }];
    let raw = vec![
        ("beta".to_string(), "one".to_string()),
        ("alpha".to_string(), "two".to_string()),
    ];
    assert_eq!(resolve_matching(&items, &raw), Vec::<(String, String)>::new());
}

#[test]
fn fill_in_blanks_resolves_text_and_select() {
    let blanks = vec![
        Blank::Text { input_name: "q1:a1".to_string(), current_value: String::new() },
        Blank::Select {
            select_name: "q1:a2".to_string(),
            options: vec![opt("3", "green")],
            selected_value: String::new(),
        },
    ];
    let raw = vec![(1usize, "hello".to_string()), (2usize, "green".to_string())];
    let r = resolve_fill_in_blanks(&blanks, &raw);
    assert_eq!(
        r,
        vec![
            FillInBlanksAnswerItem::Text {
                input_name: "q1:a1".to_string(),
                answer: "hello".to_string()
            },
            FillInBlanksAnswerItem::Select {
                select_name: "q1:a2".to_string(),
                value: "3".to_string()
            },
        ]
    );
}

#[test]
fn fill_in_blanks_drops_bad_numbers_and_unknown_options() {
    let blanks = vec![Blank::Select {
        select_name: "s".to_string(),
        options: vec![opt("1", "yes")],
        selected_value: String::new(),
    }];
    let raw = vec![(5usize, "yes".to_string()), (1usize, "maybe".to_string())];
    assert_eq!(resolve_fill_in_blanks(&blanks, &raw), Vec::new());
}

#[test]
fn drag_drop_resolves_zone_and_choice() {
    let dd = DragDropIntoText {
        question_text: "fill the gaps".to_string(),
        choices: vec![
            DragChoice { choice_number: 1, text: "cat".to_string() },
            DragChoice { choice_number: 2, text: "dog".to_string() },
        ],
        drop_zones: vec![
            DropZone { input_name: "q:p1".to_string(), place_number: 1, current_choice: 0 },
            DropZone { input_name: "q:p2".to_string(), place_number: 2, current_choice: 0 },
        ],
        images: vec![],
    };
    let raw = vec![(2usize, "cat".to_string()), (1usize, "dog".to_string())];
    let r = resolve_drag_drop(&dd, &raw);
    assert_eq!(r, vec![("q:p2".to_string(), 1usize), ("q:p1".to_string(), 2usize)]);
}

#[test]
fn drag_drop_drops_unknown_place_or_choice() {
    let dd = DragDropIntoText {
        question_text: String::new(),
        choices: vec![DragChoice { choice_number: 1, text: "cat".to_string() }],
        drop_zones: vec![DropZone {
            input_name: "q:p1".to_string(),
            place_number: 1,
            current_choice: 0,
        }],
        images: vec![],
    };
    let raw = vec![(9usize, "cat".to_string()), (1usize, "bird".to_string())];
    assert_eq!(resolve_drag_drop(&dd, &raw), Vec::new());
}
