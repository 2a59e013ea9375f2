//! The submission coordinator's decisions: the consecutive-failure counter
//! that aborts a run when the answer oracle keeps failing, the outcome of
//! the race between the interactive confirmation prompt and an autonomous
//! page change, and the closing outcome of a quiz session.

use vstd::prelude::*;
use crate::grade::{digit_val, is_digit, lemma_mantissa_prefix, tok_mantissa};
use crate::text::{
    find_from, find_substring, find_substring_from, lemma_find_from_none, lemma_find_from_none_at,
    lemma_find_from_some, lemma_scan_unique, scan,
};

verus! {

/// Counts consecutive answer-oracle failures. Each failure increments the
/// counter and each success resets it to zero; reaching the threshold is
/// the signal to abort the whole run.
#[derive(Clone, Copy, Debug, PartialEq, Eq, Structural)]
pub struct FailureTracker {
    /// Consecutive failures since the last success.
    pub count: u32,
    /// Failure count at which the run aborts.
    pub threshold: u32,
}

impl FailureTracker {
    /// A fresh tracker with no failures recorded.
    pub fn new(threshold: u32) -> (r: Self)
        ensures
            r.count == 0,
            r.threshold == threshold,
    {
        FailureTracker { count: 0, threshold }
    }

    /// Record one oracle failure. Returns whether the threshold is now
    /// reached, which aborts the run.
    pub fn record_failure(&mut self) -> (tripped: bool)
        requires
            old(self).count < u32::MAX,
        ensures
            final(self).count == old(self).count + 1,
            final(self).threshold == old(self).threshold,
            tripped == (final(self).count >= final(self).threshold),
    {
        self.count = self.count + 1;
        self.count >= self.threshold
    }

    /// Record one oracle success: the consecutive-failure count starts
    /// over from zero.
    pub fn record_success(&mut self)
        ensures
            final(self).count == 0,
            final(self).threshold == old(self).threshold,
    {
        self.count = 0;
    }
}

/// The consecutive-failure count after a sequence of events, where `true`
/// is a failure and `false` a success.
pub open spec fn consecutive_failures(events: Seq<bool>) -> int
    decreases events.len(),
{
    if events.len() == 0 {
        0
    } else if events.last() {
        consecutive_failures(events.drop_last()) + 1
    } else {
        0
    }
}

/// Whether a sequence of events ever trips the threshold: some failure
/// brings the consecutive count to the threshold or beyond.
pub open spec fn spec_trips(events: Seq<bool>, threshold: int) -> bool
    decreases events.len(),
{
    if events.len() == 0 {
        false
    } else {
        spec_trips(events.drop_last(), threshold) || (events.last() && consecutive_failures(events)
            >= threshold)
    }
}

/// A history that trips keeps tripping, whatever follows.
proof fn lemma_trips_extend(events: Seq<bool>, j: int, threshold: int)
    requires
        0 <= j <= events.len(),
        spec_trips(events.subrange(0, j), threshold),
    ensures
        spec_trips(events, threshold),
    decreases events.len() - j,
{
    if j < events.len() {
        assert(events.subrange(0, j + 1).drop_last() =~= events.subrange(0, j));
        lemma_trips_extend(events, j + 1, threshold);
    } else {
        assert(events.subrange(0, j) =~= events);
    }
}

/// Replay a sequence of oracle outcomes through a failure tracker and
/// report whether it ever tripped.
pub fn run_failure_events(events: &Vec<bool>, threshold: u32) -> (r: bool)
    ensures
        r == spec_trips(events@, threshold as int),
{
    let mut tracker = FailureTracker::new(threshold);
    let mut i: usize = 0;
    while i < events.len()
        invariant
            i <= events@.len(),
            tracker.threshold == threshold,
            tracker.count == consecutive_failures(events@.subrange(0, i as int)),
            tracker.count < threshold || (threshold == 0 && tracker.count == 0),
            !spec_trips(events@.subrange(0, i as int), threshold as int),
        decreases events@.len() - i,
    {
        let ghost step = events@.subrange(0, i + 1);
        proof {
            assert(step.drop_last() =~= events@.subrange(0, i as int));
            assert(step.last() == events@[i as int]);
        }
        if events[i] {
            let tripped = tracker.record_failure();
            if tripped {
                proof {
                    assert(spec_trips(step, threshold as int));
                    lemma_trips_extend(events@, i + 1, threshold as int);
                }
                return true;
            }
        } else {
            tracker.record_success();
        }
        i = i + 1;
    }
    proof {
        assert(events@.subrange(0, events@.len() as int) =~= events@);
    }
    false
}

/// A run of `k` straight failures.
pub open spec fn failure_run(k: int) -> Seq<bool> {
    Seq::new(k as nat, |i: int| true)
}

/// The consecutive count after a success and then `k` failures is exactly
/// `k`.
proof fn lemma_count_after_reset(prefix: Seq<bool>, k: int)
    requires
        k >= 0,
    ensures
        consecutive_failures(prefix + seq![false] + failure_run(k)) == k,
    decreases k,
{
    if k == 0 {
        assert(prefix + seq![false] + failure_run(0) =~= prefix + seq![false]);
        assert((prefix + seq![false]).last() == false);
    } else {
        lemma_count_after_reset(prefix, k - 1);
        let s = prefix + seq![false] + failure_run(k);
        assert(s.last() == true);
        assert(s.drop_last() =~= prefix + seq![false] + failure_run(k - 1));
    }
}

/// A success resets the counter: after any history that has not tripped, a
/// success followed by fewer failures than the threshold still does not
/// trip. The counter never carries failures across a success.
pub proof fn lemma_success_resets(prefix: Seq<bool>, k: int, threshold: int)
    requires
        !spec_trips(prefix, threshold),
        0 <= k < threshold,
    ensures
        !spec_trips(prefix + seq![false] + failure_run(k), threshold),
    decreases k,
{
    if k == 0 {
        assert(prefix + seq![false] + failure_run(0) =~= prefix + seq![false]);
        assert((prefix + seq![false]).drop_last() =~= prefix);
        assert((prefix + seq![false]).last() == false);
    } else {
        lemma_success_resets(prefix, k - 1, threshold);
        let s = prefix + seq![false] + failure_run(k);
        assert(s.drop_last() =~= prefix + seq![false] + failure_run(k - 1));
        lemma_count_after_reset(prefix, k);
        assert(consecutive_failures(s) == k);
    }
}

/// The consecutive count only grows along a failure run.
proof fn lemma_count_after_failures(prefix: Seq<bool>, k: int)
    requires
        k >= 0,
    ensures
        consecutive_failures(prefix + failure_run(k)) >= k,
    decreases k,
{
    if k == 0 {
        assert(prefix + failure_run(0) =~= prefix);
        if prefix.len() > 0 && prefix.last() {
            assert(consecutive_failures(prefix) >= 0) by {
                lemma_count_nonneg(prefix);
            }
        } else {
            lemma_count_nonneg(prefix);
        }
    } else {
        lemma_count_after_failures(prefix, k - 1);
        let s = prefix + failure_run(k);
        assert(s.last() == true);
        assert(s.drop_last() =~= prefix + failure_run(k - 1));
    }
}

/// The consecutive count is never negative.
proof fn lemma_count_nonneg(events: Seq<bool>)
    ensures
        consecutive_failures(events) >= 0,
    decreases events.len(),
{
    if events.len() > 0 {
        lemma_count_nonneg(events.drop_last());
    }
}

/// Enough failures in a row always trip: any history followed by
/// `threshold` straight failures, with no intervening success, reaches the
/// threshold.
pub proof fn lemma_straight_failures_trip(prefix: Seq<bool>, threshold: int)
    requires
        threshold >= 1,
    ensures
        spec_trips(prefix + failure_run(threshold), threshold),
{
    let s = prefix + failure_run(threshold);
    lemma_count_after_failures(prefix, threshold);
    assert(s.len() > 0);
    assert(s.last() == true);
}

/// What the user answered at the confirmation prompt.
#[derive(Clone, Copy, Debug, PartialEq, Eq, Structural)]
pub enum ConfirmChoice {
    /// Submit this batch.
    Yes,
    /// Submit this batch and everything from now on.
    All,
    /// Do not submit; the user will act manually.
    No,
}

/// Which waiter of the confirmation race finished first.
#[derive(Clone, Copy, Debug, PartialEq, Eq, Structural)]
pub enum RaceWinner {
    /// The interactive prompt resolved with this choice.
    Prompt(ConfirmChoice),
    /// The page URL changed on its own: a human already submitted.
    PageChanged,
}

/// What the coordinator does with the answers of the current page.
#[derive(Clone, Copy, Debug, PartialEq, Eq, Structural)]
pub enum SubmitDecision {
    /// Apply all answers, then perform exactly one submission action;
    /// with `set_auto` the session switches to auto-submit from now on.
    Submit { set_auto: bool },
    /// Submission already happened elsewhere: apply nothing, submit
    /// nothing, count the answers as submitted.
    AlreadySubmitted,
    /// The user declined: touch nothing and wait for a manual page
    /// change.
    WaitForManual,
}

/// The decision for a page's answers, from the auto-submit setting and
/// the race outcome.
pub open spec fn spec_decide_submission(auto_submit: bool, winner: RaceWinner) -> SubmitDecision {
    if auto_submit {
        SubmitDecision::Submit { set_auto: false }
    } else {
        match winner {
            RaceWinner::Prompt(ConfirmChoice::Yes) => SubmitDecision::Submit { set_auto: false },
            RaceWinner::Prompt(ConfirmChoice::All) => SubmitDecision::Submit { set_auto: true },
            RaceWinner::Prompt(ConfirmChoice::No) => SubmitDecision::WaitForManual,
            RaceWinner::PageChanged => SubmitDecision::AlreadySubmitted,
        }
    }
}

/// Decide what to do with the answers of the current page. With
/// auto-submit on, no race happens and the answers are submitted at once.
/// Otherwise the race outcome decides: a yes submits this batch, an
/// answer of "all" submits and switches auto-submit on, a no leaves the
/// page to the user, and a page change that won the race means submission
/// already happened, so nothing is applied or submitted again.
pub fn decide_submission(auto_submit: bool, winner: RaceWinner) -> (r: SubmitDecision)
    ensures
        r == spec_decide_submission(auto_submit, winner),
{
    if auto_submit {
        SubmitDecision::Submit { set_auto: false }
    } else {
        match winner {
            RaceWinner::Prompt(ConfirmChoice::Yes) => SubmitDecision::Submit { set_auto: false },
            RaceWinner::Prompt(ConfirmChoice::All) => SubmitDecision::Submit { set_auto: true },
            RaceWinner::Prompt(ConfirmChoice::No) => SubmitDecision::WaitForManual,
            RaceWinner::PageChanged => SubmitDecision::AlreadySubmitted,
        }
    }
}

/// When the page change wins the race, the engine never applies or
/// submits afterward: the decision is `AlreadySubmitted`, never a
/// `Submit`, whatever the prompt would have answered. This rules out a
/// double submission.
pub proof fn lemma_no_double_submit()
    ensures
        forall|auto_submit: bool|
            !auto_submit ==> #[trigger] spec_decide_submission(auto_submit, RaceWinner::PageChanged)
                == SubmitDecision::AlreadySubmitted,
        !(spec_decide_submission(false, RaceWinner::PageChanged) is Submit),
{
}

/// Running totals of a quiz session.
#[derive(Clone, Copy, Debug, PartialEq, Eq, Structural)]
pub struct QuizTotals {
    /// Questions seen over all pages.
    pub found: usize,
    /// Answers submitted over all pages.
    pub submitted: usize,
}

impl QuizTotals {
    /// Fresh totals: nothing seen, nothing submitted.
    pub fn new() -> (r: Self)
        ensures
            r.found == 0,
            r.submitted == 0,
    {
        QuizTotals { found: 0, submitted: 0 }
    }

    /// Count questions found on a page.
    pub fn note_found(&mut self, n: usize)
        requires
            old(self).found + n <= usize::MAX,
        ensures
            final(self).found == old(self).found + n,
            final(self).submitted == old(self).submitted,
    {
        self.found = self.found + n;
    }

    /// Count answers submitted on a page.
    pub fn note_submitted(&mut self, n: usize)
        requires
            old(self).submitted + n <= usize::MAX,
        ensures
            final(self).submitted == old(self).submitted + n,
            final(self).found == old(self).found,
    {
        self.submitted = self.submitted + n;
    }

    /// The session result: success when at least one answer was
    /// submitted, or when there was nothing to answer at all.
    pub fn outcome(&self) -> (r: bool)
        ensures
            r == (self.submitted > 0 || self.found == 0),
    {
        self.submitted > 0 || self.found == 0
    }
}

/// The page number a quiz URL carries: the digits after its first
/// `page=` marker, up to the next `&`, marker or end. Anything but plain
/// digits there, or a value beyond the machine word, is no page number.
pub open spec fn spec_page_number(url: Seq<char>) -> Option<u32> {
    match find_from(url, "page="@, 0) {
        None => None,
        Some(a) => {
            let start = a + "page="@.len();
            let seg_end = match find_from(url, "page="@, start) {
                Some(b) => b,
                None => url.len() as int,
            };
            let amp = scan(url, start, |c: char| c == '&');
            let end = if amp < seg_end {
                amp
            } else {
                seg_end
            };
            if start < end && (forall|j: int| start <= j < end ==> is_digit(url[j]))
                && tok_mantissa(url.subrange(start, end)) <= u32::MAX {
                Some(tok_mantissa(url.subrange(start, end)) as u32)
            } else {
                None
            }
        },
    }
}

/// The first `'&'` at or after `i`, or the end of the URL.
fn first_amp_from(url: &str, i: usize) -> (r: usize)
    requires
        i <= url@.len(),
    ensures
        r == scan(url@, i as int, |c: char| c == '&'),
{
    let l: usize = url.unicode_len();
    let mut j: usize = i;
    while j < l
        invariant
            i <= j <= l,
            l == url@.len(),
            forall|k: int| i <= k < j ==> url@[k] != '&',
        decreases l - j,
    {
        if url.get_char(j) == '&' {
            proof {
                lemma_scan_unique(url@, i as int, |c: char| c == '&', j as int);
            }
            return j;
        }
        j = j + 1;
    }
    proof {
        lemma_scan_unique(url@, i as int, |c: char| c == '&', l as int);
    }
    l
}

/// The page number a quiz URL carries, for the page separators of the
/// quiz loop.
#[verifier::loop_isolation(false)]
pub fn page_number_of_url(url: &str) -> (r: Option<u32>)
    ensures
        r == spec_page_number(url@),
{
    proof {
        reveal_strlit("page=");
    }
    let l: usize = url.unicode_len();
    let a = match find_substring(url, "page=") {
        Some(a) => {
            proof {
                lemma_find_from_some(url@, "page="@, 0, a as int);
            }
            a
        },
        None => {
            proof {
                lemma_find_from_none(url@, "page="@, 0);
            }
            return None;
        },
    };
    let start = a + 5;
    let seg_end = match find_substring_from(url, "page=", start) {
        Some(b) => {
            proof {
                lemma_find_from_some(url@, "page="@, start as int, b as int);
            }
            b
        },
        None => {
            proof {
                lemma_find_from_none_at(url@, "page="@, start as int);
            }
            l
        },
    };
    let amp = first_amp_from(url, start);
    let end = if amp < seg_end {
        amp
    } else {
        seg_end
    };
    if start >= end {
        return None;
    }
    let ghost t = url@.subrange(start as int, end as int);
    let mut m: u32 = 0;
    let mut j: usize = start;
    while j < end
        invariant
            start <= j <= end <= l,
            l == url@.len(),
            t == url@.subrange(start as int, end as int),
            forall|k: int| start <= k < j ==> is_digit(url@[k]),
            m as int == tok_mantissa(t.subrange(0, j - start)),
        decreases end - j,
    {
        let c = url.get_char(j);
        proof {
            assert(t[j - start] == url@[j as int]);
            assert(t.subrange(0, j + 1 - start).drop_last() =~= t.subrange(0, j - start));
            assert(t.subrange(0, j + 1 - start).last() == url@[j as int]);
        }
        if !('0' <= c && c <= '9') {
            return None;
        }
        let d: u32 = (c as u32) - 48;
        proof {
            assert(is_digit(url@[j as int]));
            assert(d as int == digit_val(url@[j as int]));
        }
        let m10 = match m.checked_mul(10) {
            Some(v) => v,
            None => {
                proof {
                    lemma_mantissa_prefix(t, j + 1 - start);
                    lemma_mantissa_prefix(t.subrange(0, j + 1 - start), j - start);
                    assert(t.subrange(0, j + 1 - start).subrange(0, j - start) =~= t.subrange(
                        0,
                        j - start,
                    ));
                    assert(tok_mantissa(t) > u32::MAX);
                }
                return None;
            },
        };
        m = match m10.checked_add(d) {
            Some(v) => v,
            None => {
                proof {
                    lemma_mantissa_prefix(t, j + 1 - start);
                    assert(tok_mantissa(t) > u32::MAX);
                }
                return None;
            },
        };
        j = j + 1;
    }
    proof {
        assert(t.subrange(0, end - start) =~= t);
    }
    Some(m)
}

} // verus!
