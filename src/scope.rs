//! Using the display between an initialization and a shutdown that always
//! follows it.
use vstd::prelude::*;

use crate::error::GpioError;

verus! {

/// What the owner of a [`Scope`] is asked to do next.
#[derive(Clone, Copy, Debug, PartialEq, Eq, Structural)]
pub enum ScopeStep {
    /// Initialize the display and report the outcome.
    Initialize,
    /// Run the caller's action and report its outcome.
    RunAction,
    /// Shut the display down and report the outcome.
    Shutdown,
    /// Nothing more: the result is ready.
    Done,
}

/// Progress through initialize, action, shutdown.
#[derive(Debug)]
pub enum Scope {
    Initializing,
    Acting,
    /// Shutting down after the action, whose outcome is kept.
    ShuttingDown(Result<(), GpioError>),
    Finished(Result<(), GpioError>),
}

impl Scope {
    pub open spec fn next_request(&self) -> ScopeStep {
        match self {
            Scope::Initializing => ScopeStep::Initialize,
            Scope::Acting => ScopeStep::RunAction,
            Scope::ShuttingDown(_) => ScopeStep::Shutdown,
            Scope::Finished(_) => ScopeStep::Done,
        }
    }

    /// The state once the outcome of the current request is known. A failed
    /// initialization ends the scope at once; once the action has run the
    /// shutdown always follows; the action's failure wins over the
    /// shutdown's.
    pub open spec fn after(self, outcome: Result<(), GpioError>) -> Scope {
        match self {
            Scope::Initializing => match outcome {
                Ok(_) => Scope::Acting,
                Err(e) => Scope::Finished(Err(e)),
            },
            Scope::Acting => Scope::ShuttingDown(outcome),
            Scope::ShuttingDown(acted) => Scope::Finished(
                if acted is Err {
                    acted
                } else {
                    outcome
                },
            ),
            Scope::Finished(r) => Scope::Finished(r),
        }
    }

    /// The requests made, in order, when the outcomes reported are
    /// `outcomes` in turn: each one answered, and the one still pending.
    pub open spec fn requests(self, outcomes: Seq<Result<(), GpioError>>) -> Seq<ScopeStep>
        decreases outcomes.len(),
    {
        if self is Finished {
            seq![]
        } else if outcomes.len() == 0 {
            seq![self.next_request()]
        } else {
            seq![self.next_request()] + self.after(outcomes[0]).requests(outcomes.drop_first())
        }
    }

    /// The state reached when the outcomes reported are `outcomes` in turn.
    pub open spec fn reached(self, outcomes: Seq<Result<(), GpioError>>) -> Scope
        decreases outcomes.len(),
    {
        if outcomes.len() == 0 || self is Finished {
            self
        } else {
            self.after(outcomes[0]).reached(outcomes.drop_first())
        }
    }

    /// A scope that has done nothing yet.
    pub fn new() -> (r: Scope)
        ensures
            r is Initializing,
    {
        Scope::Initializing
    }

    pub fn request(&self) -> (r: ScopeStep)
        ensures
            r == self.next_request(),
    {
        match self {
            Scope::Initializing => ScopeStep::Initialize,
            Scope::Acting => ScopeStep::RunAction,
            Scope::ShuttingDown(_) => ScopeStep::Shutdown,
            Scope::Finished(_) => ScopeStep::Done,
        }
    }

    /// Takes note of the outcome of the current request.
    pub fn record(self, outcome: Result<(), GpioError>) -> (r: Scope)
        ensures
            r == self.after(outcome),
    {
        match self {
            Scope::Initializing => match outcome {
                Ok(()) => Scope::Acting,
                Err(e) => Scope::Finished(Err(e)),
            },
            Scope::Acting => Scope::ShuttingDown(outcome),
            Scope::ShuttingDown(acted) => Scope::Finished(
                match acted {
                    Err(e) => Err(e),
                    Ok(()) => outcome,
                },
            ),
            Scope::Finished(r) => Scope::Finished(r),
        }
    }

    /// The result, once the scope is finished.
    pub fn into_result(self) -> (r: Option<Result<(), GpioError>>)
        ensures
            r == match self {
                Scope::Finished(res) => Some(res),
                _ => None,
            },
    {
        match self {
            Scope::Finished(res) => Some(res),
            _ => None,
        }
    }
}

/// How often `x` occurs in `s`.
pub open spec fn occurrences(s: Seq<ScopeStep>, x: ScopeStep) -> nat
    decreases s.len(),
{
    if s.len() == 0 {
        0
    } else {
        (if s[0] == x {
            1nat
        } else {
            0nat
        }) + occurrences(s.drop_first(), x)
    }
}

/// Shutdown is asked for exactly once when initialization succeeded (once
/// the action's outcome has been reported), and never when it failed; the
/// action runs only after a successful initialization; the action's failure
/// is the result, else the shutdown's outcome.
pub proof fn lemma_shutdown_follows_initialize(outcomes: Seq<Result<(), GpioError>>)
    requires
        outcomes.len() >= 1,
    ensures
        outcomes[0] is Err ==> {
            &&& occurrences(Scope::Initializing.requests(outcomes), ScopeStep::Shutdown) == 0
            &&& occurrences(Scope::Initializing.requests(outcomes), ScopeStep::RunAction) == 0
            &&& Scope::Initializing.reached(outcomes) == Scope::Finished(outcomes[0])
        },
        outcomes[0] is Ok ==> occurrences(Scope::Initializing.requests(outcomes), ScopeStep::Shutdown)
            <= 1,
        outcomes[0] is Ok && outcomes.len() >= 2 ==> occurrences(
            Scope::Initializing.requests(outcomes),
            ScopeStep::Shutdown,
        ) == 1,
        outcomes[0] is Ok && outcomes.len() >= 3 ==> {
            &&& occurrences(Scope::Initializing.requests(outcomes), ScopeStep::RunAction) == 1
            &&& Scope::Initializing.reached(outcomes) == Scope::Finished(
                if outcomes[1] is Err {
                    outcomes[1]
                } else {
                    outcomes[2]
                },
            )
        },
{
    let s0 = Scope::Initializing;
    let o1 = outcomes.drop_first();
    let s1 = s0.after(outcomes[0]);
    let init = ScopeStep::Initialize;
    let act = ScopeStep::RunAction;
    let shut = ScopeStep::Shutdown;
    reveal_with_fuel(occurrences, 4);
    if outcomes[0] is Err {
        assert(s1.requests(o1) == Seq::<ScopeStep>::empty());
        assert(s0.requests(outcomes) =~= seq![init]);
        assert(seq![init].drop_first() =~= Seq::<ScopeStep>::empty());
        assert(s1.reached(o1) == s1);
    } else if o1.len() == 0 {
        assert(s1.requests(o1) =~= seq![act]);
        assert(s0.requests(outcomes) =~= seq![init, act]);
        assert(seq![init, act].drop_first() =~= seq![act]);
        assert(seq![act].drop_first() =~= Seq::<ScopeStep>::empty());
    } else {
        let o2 = o1.drop_first();
        let s2 = s1.after(o1[0]);
        assert(o1[0] == outcomes[1]);
        let r = seq![init, act, shut];
        assert(r.drop_first() =~= seq![act, shut]);
        assert(r.drop_first().drop_first() =~= seq![shut]);
        assert(seq![shut].drop_first() =~= Seq::<ScopeStep>::empty());
        if o2.len() == 0 {
            assert(s2.requests(o2) =~= seq![shut]);
        } else {
            let o3 = o2.drop_first();
            let s3 = s2.after(o2[0]);
            assert(o2[0] == outcomes[2]);
            assert(s3 is Finished);
            assert(s3.requests(o3) == Seq::<ScopeStep>::empty());
            assert(s3.reached(o3) == s3);
            assert(s2.reached(o2) == s3);
            assert(s1.reached(o1) == s3);
            assert(s0.reached(outcomes) == s3);
            assert(s2.requests(o2) =~= seq![shut]);
        }
        assert(s1.requests(o1) =~= seq![act, shut]);
        assert(s0.requests(outcomes) =~= r);
    }
}

} // verus!
