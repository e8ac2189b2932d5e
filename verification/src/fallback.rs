//! Trying a second provider when the first refuses for quota or access.
//!
//! The strategies of a chain do network work, so the chain does not call them. It decides:
//! the caller runs the strategy that the chain names and hands back what came of it.

use vstd::prelude::*;
use crate::error::{Error, Failure};

verus! {

/// What running one strategy gave: the rows of its table, or why it has none.
pub type Attempt<T> = Result<Seq<T>, Failure>;

/// What running one strategy gave, as plain values.
pub open spec fn attempt_view<T>(outcome: Result<Vec<T>, Error>) -> Attempt<T> {
    match outcome {
        Ok(table) => Ok(table@),
        Err(e) => Err(e@),
    }
}

/// The views of recorded outcomes.
pub open spec fn attempt_views<T>(outcomes: Seq<Result<Vec<T>, Error>>) -> Seq<Attempt<T>> {
    outcomes.map_values(|o: Result<Vec<T>, Error>| attempt_view(o))
}

/// An attempt as its caller sees it: a table without rows counts as `NotFound`.
pub open spec fn settled<T>(attempt: Attempt<T>) -> Attempt<T> {
    match attempt {
        Ok(table) => if table.len() == 0 {
            Err(Failure::NotFound)
        } else {
            Ok(table)
        },
        Err(e) => Err(e),
    }
}

/// Whether an attempt is grounds for trying the next provider.
pub open spec fn escalates<T>(attempt: Attempt<T>) -> bool {
    attempt matches Err(e) && e.escalates()
}

/// What a chain returns when its strategies, run in order, would give `attempts`: the first
/// attempt that is no refusal for quota or access, or the last attempt where all refuse. A
/// chain without strategies finds nothing.
pub open spec fn chain_result<T>(attempts: Seq<Attempt<T>>) -> Attempt<T>
    decreases attempts.len(),
{
    if attempts.len() == 0 {
        Err(Failure::NotFound)
    } else if attempts.len() >= 2 && escalates(attempts[0]) {
        chain_result(attempts.skip(1))
    } else {
        settled(attempts[0])
    }
}

/// The position in the chain of the strategy whose attempt [`chain_result`] returns.
pub open spec fn chain_answerer<T>(attempts: Seq<Attempt<T>>) -> nat
    decreases attempts.len(),
{
    if attempts.len() >= 2 && escalates(attempts[0]) {
        1 + chain_answerer(attempts.skip(1))
    } else {
        0
    }
}

/// Where the primary strategy is rate limited and a secondary exists, the chain returns
/// what the chain of the remaining strategies returns: with one secondary, what that
/// strategy gives when invoked on its own.
pub proof fn lemma_rate_limited_primary_defers<T>(attempts: Seq<Attempt<T>>)
    requires
        attempts.len() >= 2,
        attempts[0] matches Err(e) && e is RateLimited,
    ensures
        chain_result(attempts) == chain_result(attempts.skip(1)),
        attempts.len() == 2 ==> chain_result(attempts) == settled(attempts[1]),
{
    if attempts.len() == 2 {
        assert(attempts.skip(1)[0] == attempts[1]);
    }
}

/// A failure that is no refusal for quota or access ends the chain at once.
pub proof fn lemma_other_failures_propagate<T>(attempts: Seq<Attempt<T>>)
    requires
        attempts.len() >= 1,
        !escalates(attempts[0]),
    ensures
        chain_result(attempts) == settled(attempts[0]),
        chain_answerer(attempts) == 0,
{
}

/// The result of a chain is the settled attempt of the strategy that answered, every
/// strategy before it refused for quota or access, and the answerer did not, unless it is the last.
pub proof fn lemma_chain_result<T>(attempts: Seq<Attempt<T>>)
    requires
        attempts.len() >= 1,
    ensures
        chain_answerer(attempts) < attempts.len(),
        chain_result(attempts) == settled(attempts[chain_answerer(attempts) as int]),
        forall|i: int| 0 <= i < chain_answerer(attempts) ==> escalates(#[trigger] attempts[i]),
        chain_answerer(attempts) + 1 < attempts.len() ==> !escalates(
            attempts[chain_answerer(attempts) as int],
        ),
    decreases attempts.len(),
{
    if attempts.len() >= 2 && escalates(attempts[0]) {
        let rest = attempts.skip(1);
        lemma_chain_result(rest);
        assert(forall|i: int| 0 <= i < rest.len() ==> rest[i] == attempts[i + 1]);
        assert forall|i: int| 0 <= i < chain_answerer(attempts) implies escalates(
            #[trigger] attempts[i],
        ) by {
            if i > 0 {
                assert(escalates(rest[i - 1]));
            }
        }
    }
}

/// What the chain asks of its caller next.
#[derive(Debug, PartialEq, Eq)]
pub enum FallbackStep<T> {
    /// Run the strategy at this position and report what it gives.
    Run(usize),
    /// The chain is done: the strategy at `by` answered with `result`.
    Done { by: usize, result: Result<Vec<T>, Error> },
}

/// A primary strategy followed by secondaries, tried in order.
#[derive(Debug)]
pub struct FallbackChain {
    secondaries: usize,
    current: usize,
}

impl FallbackChain {
    #[verifier::type_invariant]
    spec fn in_range(self) -> bool {
        self.current <= self.secondaries
    }

    /// How many strategies the chain holds.
    pub closed spec fn strategies(&self) -> nat {
        (self.secondaries + 1) as nat
    }

    /// The position of the strategy whose outcome the chain waits for.
    pub closed spec fn current(&self) -> nat {
        self.current as nat
    }

    /// A chain of a primary and `secondaries` further strategies, waiting for the primary.
    pub fn new(secondaries: usize) -> (chain: FallbackChain)
        ensures
            chain.strategies() == secondaries + 1,
            chain.current() == 0,
    {
        FallbackChain { secondaries, current: 0 }
    }

    /// The position of the strategy to run now.
    pub fn position(&self) -> (at: usize)
        ensures
            at == self.current(),
            at < self.strategies(),
    {
        proof {
            use_type_invariant(self);
        }
        self.current
    }

    /// Takes the outcome of the current strategy. A refusal for quota or access moves on to
    /// the next strategy while one is left; anything else ends the chain with that outcome,
    /// a table without rows counting as `NotFound`.
    pub fn step<T>(&mut self, outcome: Result<Vec<T>, Error>) -> (next: FallbackStep<T>)
        ensures
            final(self).strategies() == old(self).strategies(),
            final(self).current() < final(self).strategies(),
            escalates(attempt_view(outcome)) && old(self).current() + 1 < old(self).strategies()
                ==> next == FallbackStep::<T>::Run((old(self).current() + 1) as usize)
                && final(self).current() == old(self).current() + 1,
            !(escalates(attempt_view(outcome)) && old(self).current() + 1 < old(
                self,
            ).strategies()) ==> final(self).current() == old(self).current() && (
            next matches FallbackStep::Done { by, result } && by == old(self).current()
                && attempt_view(result) == settled(attempt_view(outcome))),
    {
        proof {
            use_type_invariant(&*self);
        }
        match outcome {
            Ok(table) => {
                if table.len() == 0 {
                    FallbackStep::Done { by: self.current, result: Err(Error::NotFound) }
                } else {
                    FallbackStep::Done { by: self.current, result: Ok(table) }
                }
            },
            Err(e) => {
                if e.is_retryable() && self.current < self.secondaries {
                    self.current = self.current + 1;
                    FallbackStep::Run(self.current)
                } else {
                    FallbackStep::Done { by: self.current, result: Err(e) }
                }
            },
        }
    }
}

/// Replays a chain over recorded outcomes, one per strategy in order, and returns what
/// the chain returns and the position of the strategy that answered.
pub fn resolve<T>(outcomes: Vec<Result<Vec<T>, Error>>) -> (answer: (
    usize,
    Result<Vec<T>, Error>,
))
    ensures
        attempt_view(answer.1) == chain_result(attempt_views(outcomes@)),
        answer.0 == chain_answerer(attempt_views(outcomes@)),
{
    let ghost all = attempt_views(outcomes@);
    let n = outcomes.len();
    if n == 0 {
        return (0, Err(Error::NotFound));
    }
    let mut chain = FallbackChain::new(n - 1);
    let mut outcomes = outcomes;
    let mut answer: Option<(usize, Result<Vec<T>, Error>)> = None;
    assert(all.skip(0) =~= all);
    while answer.is_none()
        invariant
            n == all.len(),
            chain.strategies() == n,
            chain.current() < n,
            answer is None ==> outcomes@.len() == n - chain.current(),
            answer is None ==> attempt_views(outcomes@) == all.skip(chain.current() as int),
            chain_result(all) == chain_result(all.skip(chain.current() as int)),
            chain_answerer(all) == chain.current() + chain_answerer(
                all.skip(chain.current() as int),
            ),
            answer matches Some(a) ==> attempt_view(a.1) == chain_result(all) && a.0
                == chain_answerer(all),
        decreases n - chain.current(), if answer is None { 1nat } else { 0nat },
    {
        let ghost rest = all.skip(chain.current() as int);
        let outcome = outcomes.remove(0);
        assert(attempt_view(outcome) == rest[0]);
        assert(attempt_views(outcomes@) =~= rest.skip(1));
        assert(rest.skip(1) =~= all.skip(chain.current() as int + 1));
        match chain.step(outcome) {
            FallbackStep::Run(_) => {},
            FallbackStep::Done { by, result } => {
                answer = Some((by, result));
            },
        }
    }
    answer.unwrap()
}

/// The table of a strategy as its caller sees it: one without rows is `NotFound`.
pub fn settle<T>(outcome: Result<Vec<T>, Error>) -> (out: Result<Vec<T>, Error>)
    ensures
        attempt_view(out) == settled(attempt_view(outcome)),
{
    match outcome {
        Ok(table) => if table.len() == 0 {
            Err(Error::NotFound)
        } else {
            Ok(table)
        },
        Err(e) => Err(e),
    }
}

} // verus!
