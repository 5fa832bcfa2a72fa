//! Carrying out a plan of steps, one outcome at a time.
use vstd::prelude::*;

use crate::error::GpioError;
use crate::wire::Step;

verus! {

/// The abstract state of a [`Transfer`].
pub struct TransferView {
    /// Every step of the plan, in order.
    pub steps: Seq<Step>,
    /// How many steps have been performed.
    pub done: nat,
    /// The first failure reported, if any.
    pub error: Option<GpioError>,
    /// Whether steps keep being performed after a failure.
    pub best_effort: bool,
}

/// The first error among `outcomes`.
pub open spec fn first_error(outcomes: Seq<Result<(), GpioError>>) -> Option<GpioError>
    decreases outcomes.len(),
{
    if outcomes.len() == 0 {
        None
    } else if outcomes[0] is Err {
        Some(outcomes[0]->Err_0)
    } else {
        first_error(outcomes.drop_first())
    }
}

impl TransferView {
    /// A transfer of `steps` that has not begun.
    pub open spec fn start(steps: Seq<Step>, best_effort: bool) -> TransferView {
        TransferView { steps, done: 0, error: None, best_effort }
    }

    pub open spec fn is_finished(self) -> bool {
        self.done >= self.steps.len() || (!self.best_effort && self.error is Some)
    }

    /// The step to perform now, if any.
    pub open spec fn next_step(self) -> Option<Step> {
        if self.is_finished() {
            None
        } else {
            Some(self.steps[self.done as int])
        }
    }

    /// The state once the outcome of the current step is known.
    pub open spec fn after(self, outcome: Result<(), GpioError>) -> TransferView {
        if self.is_finished() {
            self
        } else {
            TransferView {
                done: self.done + 1,
                error: if self.error is Some {
                    self.error
                } else {
                    match outcome {
                        Ok(_) => None,
                        Err(e) => Some(e),
                    }
                },
                ..self
            }
        }
    }

    /// What the transfer reports: the first failure, else success.
    pub open spec fn result(self) -> Result<(), GpioError> {
        match self.error {
            Some(e) => Err(e),
            None => Ok(()),
        }
    }

    /// The steps performed, and the state reached, when the outcomes of the
    /// performed steps are `outcomes` in turn.
    pub open spec fn run(self, outcomes: Seq<Result<(), GpioError>>) -> (Seq<Step>, TransferView)
        decreases outcomes.len(),
    {
        if outcomes.len() == 0 || self.is_finished() {
            (seq![], self)
        } else {
            let rest = self.after(outcomes[0]).run(outcomes.drop_first());
            (seq![self.steps[self.done as int]] + rest.0, rest.1)
        }
    }
}

/// A plan of steps in progress.
pub struct Transfer {
    steps: Vec<Step>,
    done: usize,
    error: Option<GpioError>,
    best_effort: bool,
}

impl View for Transfer {
    type V = TransferView;

    closed spec fn view(&self) -> TransferView {
        TransferView {
            steps: self.steps@,
            done: self.done as nat,
            error: self.error,
            best_effort: self.best_effort,
        }
    }
}

impl Transfer {
    /// A transfer that stops at the first failed step.
    pub fn abort_on_error(steps: Vec<Step>) -> (r: Transfer)
        ensures
            r@ == TransferView::start(steps@, false),
    {
        Transfer { steps, done: 0, error: None, best_effort: false }
    }

    /// A transfer that performs every step whatever fails, and reports the
    /// first failure.
    pub fn best_effort(steps: Vec<Step>) -> (r: Transfer)
        ensures
            r@ == TransferView::start(steps@, true),
    {
        Transfer { steps, done: 0, error: None, best_effort: true }
    }

    /// The whole plan.
    pub fn steps(&self) -> (r: &[Step])
        ensures
            r@ == self@.steps,
    {
        self.steps.as_slice()
    }

    pub fn is_finished(&self) -> (r: bool)
        ensures
            r == self@.is_finished(),
    {
        self.done >= self.steps.len() || (!self.best_effort && self.error.is_some())
    }

    /// The step to perform now; `None` once the transfer is finished.
    pub fn next_step(&self) -> (r: Option<Step>)
        ensures
            r == self@.next_step(),
    {
        if self.is_finished() {
            None
        } else {
            Some(self.steps[self.done])
        }
    }

    /// Takes note of the outcome of the step that [`Transfer::next_step`]
    /// gave; does nothing once the transfer is finished.
    pub fn record(&mut self, outcome: Result<(), GpioError>)
        ensures
            final(self)@ == old(self)@.after(outcome),
    {
        if self.done < self.steps.len() && (self.best_effort || self.error.is_none()) {
            self.done = self.done + 1;
            if self.error.is_none() {
                match outcome {
                    Ok(()) => {},
                    Err(e) => {
                        self.error = Some(e);
                    },
                }
            }
        }
    }

    /// The first failure reported, else success.
    pub fn finish(self) -> (r: Result<(), GpioError>)
        ensures
            r == self@.result(),
    {
        match self.error {
            Some(e) => Err(e),
            None => Ok(()),
        }
    }
}

proof fn lemma_run_all_ok(t: TransferView, outcomes: Seq<Result<(), GpioError>>)
    requires
        t.done <= t.steps.len(),
        t.error is None,
        outcomes.len() == t.steps.len() - t.done,
        forall|i: int| 0 <= i < outcomes.len() ==> #[trigger] outcomes[i] is Ok,
    ensures
        t.run(outcomes).0 == t.steps.subrange(t.done as int, t.steps.len() as int),
        t.run(outcomes).1.done == t.steps.len(),
        t.run(outcomes).1.steps == t.steps,
        t.run(outcomes).1.error is None,
    decreases outcomes.len(),
{
    if outcomes.len() > 0 {
        let rest = outcomes.drop_first();
        assert forall|i: int| 0 <= i < rest.len() implies #[trigger] rest[i] is Ok by {
            assert(rest[i] == outcomes[i + 1]);
        }
        lemma_run_all_ok(t.after(outcomes[0]), rest);
        assert(t.run(outcomes).0 =~= t.steps.subrange(t.done as int, t.steps.len() as int));
    }
}

proof fn lemma_run_until_failure(t: TransferView, outcomes: Seq<Result<(), GpioError>>, k: int)
    requires
        !t.best_effort,
        t.error is None,
        t.done <= k < t.steps.len(),
        k - t.done < outcomes.len(),
        forall|i: int| 0 <= i < k - t.done ==> #[trigger] outcomes[i] is Ok,
        outcomes[k - t.done] is Err,
    ensures
        t.run(outcomes).0 == t.steps.subrange(t.done as int, k + 1),
        t.run(outcomes).1.is_finished(),
        t.run(outcomes).1.error == Some(outcomes[k - t.done]->Err_0),
    decreases outcomes.len(),
{
    let rest = outcomes.drop_first();
    if t.done < k {
        assert(outcomes[0] is Ok);
        assert forall|i: int| 0 <= i < k - (t.done + 1) implies #[trigger] rest[i] is Ok by {
            assert(rest[i] == outcomes[i + 1]);
        }
        assert(rest[k - (t.done + 1)] == outcomes[k - t.done]);
        lemma_run_until_failure(t.after(outcomes[0]), rest, k);
    } else {
        assert(t.after(outcomes[0]).is_finished());
        assert(t.after(outcomes[0]).run(rest).0 == Seq::<Step>::empty());
    }
    assert(t.run(outcomes).0 =~= t.steps.subrange(t.done as int, k + 1));
}

proof fn lemma_run_best_effort(t: TransferView, outcomes: Seq<Result<(), GpioError>>)
    requires
        t.best_effort,
        t.done <= t.steps.len(),
        outcomes.len() == t.steps.len() - t.done,
    ensures
        t.run(outcomes).0 == t.steps.subrange(t.done as int, t.steps.len() as int),
        t.run(outcomes).1.done == t.steps.len(),
        t.run(outcomes).1.steps == t.steps,
        t.run(outcomes).1.error == if t.error is Some {
            t.error
        } else {
            first_error(outcomes)
        },
    decreases outcomes.len(),
{
    if outcomes.len() > 0 {
        lemma_run_best_effort(t.after(outcomes[0]), outcomes.drop_first());
        assert(t.run(outcomes).0 =~= t.steps.subrange(t.done as int, t.steps.len() as int));
    }
}

/// When every step succeeds, a transfer performs its whole plan in order and
/// reports success.
pub proof fn lemma_success_runs_whole_plan(
    steps: Seq<Step>,
    best_effort: bool,
    outcomes: Seq<Result<(), GpioError>>,
)
    requires
        outcomes.len() == steps.len(),
        forall|i: int| 0 <= i < outcomes.len() ==> #[trigger] outcomes[i] is Ok,
    ensures
        TransferView::start(steps, best_effort).run(outcomes).0 == steps,
        TransferView::start(steps, best_effort).run(outcomes).1.is_finished(),
        TransferView::start(steps, best_effort).run(outcomes).1.result() == Ok::<(), GpioError>(()),
{
    lemma_run_all_ok(TransferView::start(steps, best_effort), outcomes);
    assert(steps.subrange(0, steps.len() as int) == steps);
}

/// A transfer that stops at the first failure, failing at step `k`, has
/// performed exactly the steps up to and including `k`, asks for no more,
/// and reports that failure.
pub proof fn lemma_failure_stops_transfer(
    steps: Seq<Step>,
    outcomes: Seq<Result<(), GpioError>>,
    k: int,
)
    requires
        0 <= k < steps.len(),
        k < outcomes.len(),
        forall|i: int| 0 <= i < k ==> #[trigger] outcomes[i] is Ok,
        outcomes[k] is Err,
    ensures
        TransferView::start(steps, false).run(outcomes).0 == steps.take(k + 1),
        TransferView::start(steps, false).run(outcomes).1.next_step() is None,
        TransferView::start(steps, false).run(outcomes).1.result() == Err::<(), GpioError>(
            outcomes[k]->Err_0,
        ),
{
    lemma_run_until_failure(TransferView::start(steps, false), outcomes, k);
}

/// A best-effort transfer attempts every step whatever fails, and reports
/// the first failure.
pub proof fn lemma_best_effort_attempts_all(steps: Seq<Step>, outcomes: Seq<Result<(), GpioError>>)
    requires
        outcomes.len() == steps.len(),
    ensures
        TransferView::start(steps, true).run(outcomes).0 == steps,
        TransferView::start(steps, true).run(outcomes).1.is_finished(),
        TransferView::start(steps, true).run(outcomes).1.error == first_error(outcomes),
{
    lemma_run_best_effort(TransferView::start(steps, true), outcomes);
    assert(steps.subrange(0, steps.len() as int) == steps);
}

} // verus!
