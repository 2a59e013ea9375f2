//! The code-evaluation retry loop: paste, save, evaluate, read the grade,
//! then stop with success, regenerate from test feedback, or give up. The
//! browser performs each step; the library decides, and its model of the
//! loop bounds the number of grading attempts.

use vstd::prelude::*;
use crate::grade::Grade;

verus! {

/// Whether a failed button click is tried again: only while attempts
/// remain before the cap.
pub fn should_retry_click(attempt: u32, max_retries: u32) -> (r: bool)
    ensures
        r == (attempt < max_retries),
{
    attempt < max_retries
}

/// What one grading attempt observed: the grade the page proposed, if
/// any, and whether parseable test-failure feedback was available.
#[derive(Clone, Copy, Debug, PartialEq)]
pub struct EvalObservation {
    /// The proposed grade, or nothing when no grade line was found.
    pub grade: Option<Grade>,
    /// Whether the page offered test-failure detail to regenerate from.
    pub has_feedback: bool,
}

/// How an evaluation run ended.
#[derive(Clone, Copy, Debug, PartialEq, Eq, Structural)]
pub enum EvalOutcome {
    /// Full marks: the proposed grade reached the maximum.
    Success,
    /// No grade could be parsed from the results: fatal, the loop cannot
    /// assume partial credit.
    NoGrade,
    /// The grade fell short and no parseable feedback was available to
    /// regenerate from.
    NoFeedback,
    /// The grade fell short on the last permitted attempt.
    Exhausted,
    /// The observation script ended before the loop decided.
    ScriptEnded,
}

/// An evaluation run: how many grading attempts it performed and how it
/// ended.
#[derive(Clone, Copy, Debug, PartialEq, Eq, Structural)]
pub struct EvalRun {
    /// Grading attempts performed.
    pub attempts: usize,
    /// How the run ended.
    pub outcome: EvalOutcome,
}

/// The retry loop over scripted observations: each iteration is one
/// grading attempt. A missing grade is fatal at once; full marks stop
/// with success; a short grade regenerates from feedback while retries
/// remain, and otherwise the run is exhausted or stuck without feedback.
pub open spec fn spec_run_eval(obs: Seq<EvalObservation>, retries_left: int) -> EvalRun
    decreases obs.len(),
{
    if obs.len() == 0 {
        EvalRun { attempts: 0, outcome: EvalOutcome::ScriptEnded }
    } else {
        match obs[0].grade {
            None => EvalRun { attempts: 1, outcome: EvalOutcome::NoGrade },
            Some(g) => if g.num >= g.den {
                EvalRun { attempts: 1, outcome: EvalOutcome::Success }
            } else if retries_left <= 0 {
                EvalRun { attempts: 1, outcome: EvalOutcome::Exhausted }
            } else if !obs[0].has_feedback {
                EvalRun { attempts: 1, outcome: EvalOutcome::NoFeedback }
            } else {
                let rest = spec_run_eval(obs.subrange(1, obs.len() as int), retries_left - 1);
                EvalRun { attempts: (rest.attempts + 1) as usize, outcome: rest.outcome }
            },
        }
    }
}

/// Run the retry loop over a scripted sequence of grading observations
/// with `max_retries` retries after the first attempt. The loop performs
/// at most `max_retries + 1` grading attempts, never more, and at most
/// one per observation.
pub fn run_eval_script(obs: &Vec<EvalObservation>, max_retries: u32) -> (r: EvalRun)
    ensures
        r == spec_run_eval(obs@, max_retries as int),
        r.attempts <= max_retries + 1,
        r.attempts <= obs@.len(),
{
    proof {
        assert(obs@.subrange(0, obs@.len() as int) =~= obs@);
    }
    run_eval_from(obs, 0, max_retries)
}

/// The retry loop from observation index `i` on, with `retries_left`
/// retries still permitted.
fn run_eval_from(obs: &Vec<EvalObservation>, i: usize, retries_left: u32) -> (r: EvalRun)
    requires
        i <= obs@.len(),
    ensures
        r == spec_run_eval(obs@.subrange(i as int, obs@.len() as int), retries_left as int),
        r.attempts <= retries_left + 1,
        i + r.attempts <= obs@.len(),
    decreases obs@.len() - i,
{
    let ghost suffix = obs@.subrange(i as int, obs@.len() as int);
    if i == obs.len() {
        return EvalRun { attempts: 0, outcome: EvalOutcome::ScriptEnded };
    }
    proof {
        assert(suffix[0] == obs@[i as int]);
        assert(suffix.subrange(1, suffix.len() as int) =~= obs@.subrange(
            i + 1,
            obs@.len() as int,
        ));
    }
    let o = obs[i];
    match o.grade {
        None => EvalRun { attempts: 1, outcome: EvalOutcome::NoGrade },
        Some(g) => {
            if g.is_perfect() {
                EvalRun { attempts: 1, outcome: EvalOutcome::Success }
            } else if retries_left == 0 {
                EvalRun { attempts: 1, outcome: EvalOutcome::Exhausted }
            } else if !o.has_feedback {
                EvalRun { attempts: 1, outcome: EvalOutcome::NoFeedback }
            } else {
                let rest = run_eval_from(obs, i + 1, retries_left - 1);
                EvalRun { attempts: rest.attempts + 1, outcome: rest.outcome }
            }
        },
    }
}

/// The retry loop never grades more than once per retry budget: with
/// `max_retries` retries and a grader that never awards full marks but
/// always leaves feedback, the loop performs exactly `max_retries + 1`
/// grading attempts — the initial one and one per retry — and then stops
/// exhausted.
pub proof fn lemma_retry_loop_bounded(obs: Seq<EvalObservation>, retries: int)
    requires
        0 <= retries,
        retries < obs.len(),
        forall|i: int|
            0 <= i < obs.len() ==> {
                &&& (#[trigger] obs[i].grade) is Some
                &&& !(obs[i].grade->0.num >= obs[i].grade->0.den)
                &&& obs[i].has_feedback
            },
        retries + 1 <= usize::MAX,
    ensures
        spec_run_eval(obs, retries) == (EvalRun {
            attempts: (retries + 1) as usize,
            outcome: EvalOutcome::Exhausted,
        }),
    decreases retries,
{
    assert(obs.len() > 0);
    if retries == 0 {
    } else {
        let rest = obs.subrange(1, obs.len() as int);
        assert(forall|i: int|
            0 <= i < rest.len() ==> #[trigger] rest[i] == obs[i + 1]);
        lemma_retry_loop_bounded(rest, retries - 1);
    }
}

} // verus!
