use uni_headless::config::AppConfig;
use uni_headless::coordinator::{
    decide_submission, run_failure_events, ConfirmChoice, FailureTracker, QuizTotals, RaceWinner,
    SubmitDecision,
};
use uni_headless::grade::Grade;
use uni_headless::oracle::{
    is_transient_error, oracle_retry_delay_ms, should_retry_oracle, ChatRole, Conversation,
};
use uni_headless::vpl::{run_eval_script, should_retry_click, EvalObservation, EvalOutcome, EvalRun};

#[test]
fn failure_counter_resets_after_a_success() {
    // Four failures, one success, four more failures, threshold five: no trip.
    let events = vec![true, true, true, true, false, true, true, true, true];
    assert!(!run_failure_events(&events, 5));
}

#[test]
fn five_straight_failures_trip() {
    let events = vec![true, true, true, true, true];
    assert!(run_failure_events(&events, 5));
    let four = vec![true, true, true, true];
    assert!(!run_failure_events(&four, 5));
}

#[test]
fn tracker_counts_and_resets() {
    let mut t = FailureTracker::new(5);
    for _ in 0..4 {
        assert!(!t.record_failure());
    }
    t.record_success();
    assert_eq!(t.count, 0);
    for _ in 0..4 {
        assert!(!t.record_failure());
    }
    assert!(t.record_failure());
}

#[test]
fn page_change_during_race_means_no_submission() {
    // The page changed before the prompt resolved: the engine must not
    // apply or submit again.
    let d = decide_submission(false, RaceWinner::PageChanged);
    assert_eq!(d, SubmitDecision::AlreadySubmitted);
    assert!(!matches!(d, SubmitDecision::Submit { .. }));
}

#[test]
fn prompt_choices_decide_submission() {
    assert_eq!(
        decide_submission(false, RaceWinner::Prompt(ConfirmChoice::Yes)),
        SubmitDecision::Submit { set_auto: false }
    );
    assert_eq!(
        decide_submission(false, RaceWinner::Prompt(ConfirmChoice::All)),
        SubmitDecision::Submit { set_auto: true }
    );
    assert_eq!(
        decide_submission(false, RaceWinner::Prompt(ConfirmChoice::No)),
        SubmitDecision::WaitForManual
    );
}

#[test]
fn auto_submit_skips_the_race() {
    assert_eq!(
        decide_submission(true, RaceWinner::PageChanged),
        SubmitDecision::Submit { set_auto: false }
    );
}

#[test]
fn quiz_outcome_needs_a_submission_or_no_questions() {
    let mut t = QuizTotals::new();
    assert!(t.outcome());
    t.note_found(3);
    assert!(!t.outcome());
    t.note_submitted(3);
    assert!(t.outcome());
}

#[test]
fn config_defaults_and_auto_submit_toggle() {
    let mut c = AppConfig::default();
    assert_eq!(c.api_retries, 3);
    assert_eq!(c.api_retry_delay_ms, 1000);
    assert_eq!(c.max_consecutive_failures, 5);
    assert_eq!(c.button_click_retries, 5);
    assert!(!c.auto_submit);
    c.set_auto_submit(true);
    assert!(c.auto_submit);
}

#[test]
fn transient_errors_are_recognized() {
    assert!(is_transient_error("api_error: overloaded"));
    assert!(is_transient_error("request timeout"));
    assert!(is_transient_error("rate_limit reached"));
    assert!(is_transient_error("missing field `id` at line 1"));
    assert!(!is_transient_error("invalid api key"));
}

#[test]
fn oracle_retry_policy_and_backoff() {
    assert!(should_retry_oracle(0, 3, true));
    assert!(should_retry_oracle(1, 3, true));
    assert!(!should_retry_oracle(2, 3, true));
    assert!(!should_retry_oracle(0, 3, false));
    assert_eq!(oracle_retry_delay_ms(1000, 0), 1000);
    assert_eq!(oracle_retry_delay_ms(1000, 2), 3000);
    assert_eq!(oracle_retry_delay_ms(u64::MAX, 1), u64::MAX);
}

#[test]
fn conversation_is_append_only() {
    let mut c = Conversation::new();
    assert_eq!(c.len(), 0);
    c.add(ChatRole::User, "solve this".to_string());
    c.add(ChatRole::Assistant, "answer".to_string());
    c.add(ChatRole::User, "tests failed".to_string());
    assert_eq!(c.len(), 3);
    assert_eq!(c.messages[0].content, "solve this");
    assert_eq!(c.messages[2].content, "tests failed");
}

fn half_grade_with_feedback() -> EvalObservation {
    EvalObservation { grade: Some(Grade { num: 1, den: 2 }), has_feedback: true }
}

#[test]
fn retry_loop_performs_exactly_initial_plus_retries_attempts() {
    // A grader that always returns half marks: with three retries the loop
    // grades exactly four times and then fails, never more.
    let obs = vec![half_grade_with_feedback(); 10];
    let run = run_eval_script(&obs, 3);
    assert_eq!(run, EvalRun { attempts: 4, outcome: EvalOutcome::Exhausted });
}

#[test]
fn retry_loop_stops_at_full_marks() {
    let obs = vec![
        half_grade_with_feedback(),
        EvalObservation { grade: Some(Grade { num: 10, den: 10 }), has_feedback: false },
    ];
    let run = run_eval_script(&obs, 3);
    assert_eq!(run, EvalRun { attempts: 2, outcome: EvalOutcome::Success });
}

#[test]
fn missing_grade_is_fatal_not_zero() {
    let obs = vec![EvalObservation { grade: None, has_feedback: true }];
    let run = run_eval_script(&obs, 3);
    assert_eq!(run, EvalRun { attempts: 1, outcome: EvalOutcome::NoGrade });
}

#[test]
fn missing_feedback_stops_the_loop() {
    let obs = vec![EvalObservation { grade: Some(Grade { num: 1, den: 2 }), has_feedback: false }];
    let run = run_eval_script(&obs, 3);
    assert_eq!(run, EvalRun { attempts: 1, outcome: EvalOutcome::NoFeedback });
}

#[test]
fn click_retry_policy_counts_attempts() {
    assert!(should_retry_click(0, 5));
    assert!(should_retry_click(4, 5));
    assert!(!should_retry_click(5, 5));
}
