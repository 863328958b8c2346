//! Giving up after too many failures in a row.
use vstd::prelude::*;
use vstd::string::*;

use crate::text;

verus! {

/// A loop gives up at this many failures in a row.
pub const MAX_CONSECUTIVE_ERRORS: u32 = 10;

/// The number of failures since the last success, in a loop that has not given up.
#[derive(Debug, PartialEq, Eq)]
pub struct FailureRun {
    count: u32,
}

impl View for FailureRun {
    type V = nat;

    closed spec fn view(&self) -> nat {
        self.count as nat
    }
}

/// The run after one more failure, or nothing where that is one too many.
pub open spec fn one_more_failure(run: nat) -> Option<nat> {
    if run + 1 < MAX_CONSECUTIVE_ERRORS {
        Some(run + 1)
    } else {
        None
    }
}

impl FailureRun {
    #[verifier::type_invariant]
    spec fn below_the_limit(self) -> bool {
        self.count < MAX_CONSECUTIVE_ERRORS
    }

    /// No failure yet, or a success just now.
    pub fn none() -> (r: FailureRun)
        ensures
            r@ == 0,
    {
        FailureRun { count: 0 }
    }

    /// The number of failures in the run, which is below the limit.
    pub fn count(&self) -> (r: u32)
        ensures
            r == self@,
            r < MAX_CONSECUTIVE_ERRORS,
    {
        proof {
            use_type_invariant(self);
        }
        self.count
    }

    /// Counts one more failure, or says to give up.
    pub fn failed(self) -> (r: Option<FailureRun>)
        ensures
            match r {
                Some(run) => one_more_failure(self@) == Some(run@),
                None => one_more_failure(self@) is None,
            },
    {
        proof {
            use_type_invariant(&self);
        }
        if self.count + 1 < MAX_CONSECUTIVE_ERRORS {
            Some(FailureRun { count: self.count + 1 })
        } else {
            None
        }
    }
}

/// How far a run of failures has come, as messages say it: its length and the limit.
pub open spec fn progress_words(count: u32) -> Seq<char> {
    "("@ + text::decimal(count as nat) + "/"@ + text::decimal(MAX_CONSECUTIVE_ERRORS as nat)
        + ")"@
}

/// Appends how far a run of failures has come.
pub fn push_progress(out: &mut String, count: u32)
    ensures
        final(out)@ == old(out)@ + progress_words(count),
{
    out.append("(");
    text::push_decimal(out, count as u64);
    out.append("/");
    text::push_decimal(out, MAX_CONSECUTIVE_ERRORS as u64);
    out.append(")");
    proof {
        assert(out@ =~= old(out)@ + progress_words(count));
    }
}

/// The number of failures at the end of a history of outcomes (`true` for success).
pub open spec fn trailing_failures(outcomes: Seq<bool>) -> nat
    decreases outcomes.len(),
{
    if outcomes.len() == 0 || outcomes.last() {
        0
    } else {
        trailing_failures(outcomes.drop_last()) + 1
    }
}

/// Whether somewhere in the history there are as many failures in a row as the limit.
pub open spec fn has_failure_streak(outcomes: Seq<bool>) -> bool {
    exists|from: int| #[trigger] is_failure_streak(outcomes, from)
}

/// Whether the outcomes from `from` on are as many failures in a row as the limit.
pub open spec fn is_failure_streak(outcomes: Seq<bool>, from: int) -> bool {
    &&& 0 <= from
    &&& from + MAX_CONSECUTIVE_ERRORS <= outcomes.len()
    &&& forall|i: int| from <= i < from + MAX_CONSECUTIVE_ERRORS ==> !outcomes[i]
}

/// The trailing failures are the last outcomes, and a success or nothing stands
/// before them.
pub proof fn trailing_failures_are_the_last(outcomes: Seq<bool>)
    ensures
        ({
            let n = trailing_failures(outcomes);
            &&& n <= outcomes.len()
            &&& forall|i: int| outcomes.len() - n <= i < outcomes.len() ==> !outcomes[i]
            &&& n < outcomes.len() ==> outcomes[outcomes.len() - n - 1]
        }),
    decreases outcomes.len(),
{
    if outcomes.len() > 0 && !outcomes.last() {
        let before = outcomes.drop_last();
        trailing_failures_are_the_last(before);
        assert forall|i: int|
            outcomes.len() - trailing_failures(outcomes) <= i < outcomes.len() implies !outcomes[i] by {
            if i < before.len() {
                assert(before[i] == outcomes[i]);
            }
        }
    }
}

/// A history without a streak of failures gets one with its next outcome exactly when
/// that outcome completes as many trailing failures as the limit.
pub proof fn streak_appears_at_the_limit(outcomes: Seq<bool>, next: bool)
    requires
        !has_failure_streak(outcomes),
    ensures
        has_failure_streak(outcomes.push(next)) <==> trailing_failures(outcomes.push(next))
            >= MAX_CONSECUTIVE_ERRORS,
{
    let all = outcomes.push(next);
    let n = trailing_failures(all);
    trailing_failures_are_the_last(all);
    if n >= MAX_CONSECUTIVE_ERRORS {
        assert(is_failure_streak(all, all.len() - MAX_CONSECUTIVE_ERRORS));
    }
    if has_failure_streak(all) {
        let from = choose|from: int| #[trigger] is_failure_streak(all, from);
        if from + MAX_CONSECUTIVE_ERRORS <= outcomes.len() {
            assert forall|i: int|
                from <= i < from + MAX_CONSECUTIVE_ERRORS implies !outcomes[i] by {
                assert(all[i] == outcomes[i]);
            }
            assert(is_failure_streak(outcomes, from));
        }
        if n < MAX_CONSECUTIVE_ERRORS {
            assert(all[all.len() - n - 1]);
        }
    }
}

/// A run is counted on up to nine failures, and given up at the tenth.
pub proof fn runs_are_given_up_at_the_tenth_failure(run: nat)
    ensures
        run < 9 ==> one_more_failure(run) == Some(run + 1),
        run >= 9 ==> one_more_failure(run) is None,
{
}

/// The progress of a run is its length and the limit, in brackets.
pub proof fn progress_names_length_and_limit(count: u32)
    ensures
        progress_words(count) == "("@ + text::decimal(count as nat) + "/"@ + text::decimal(10)
            + ")"@,
{
}

} // verus!
