//! The ordered chain of autocomplete resolvers.
//!
//! A resolver is outside work (it inspects the request and may answer it over
//! the network), so the chain only decides: which resolver to invoke next,
//! and when to stop. The caller invokes and reports back each answer.
use vstd::prelude::*;

verus! {

/// What a resolver reported for one autocomplete request.
#[derive(Debug, Clone, Copy, PartialEq, Eq, Structural)]
pub enum ResolverOutcome {
    /// The request was its own, and it has answered it.
    Claimed,
    /// The request belongs to some other resolver; nothing was sent.
    NotMine,
    /// The resolver failed.
    Failed,
}

/// What to do next with an autocomplete request.
#[derive(Debug, Clone, Copy, PartialEq, Eq, Structural)]
pub enum ChainStep {
    /// Invoke the resolver at this position.
    Invoke(usize),
    /// The resolver at this position claimed and answered the request.
    Claimed(usize),
    /// The resolver at this position failed; no later resolver is asked.
    Failed(usize),
    /// Nobody claimed the request: answer it with an empty suggestion list.
    Unclaimed,
}

pub open spec fn first_step(n: nat) -> ChainStep {
    if n == 0 {
        ChainStep::Unclaimed
    } else {
        ChainStep::Invoke(0)
    }
}

pub open spec fn next_step(n: nat, i: usize, outcome: ResolverOutcome) -> ChainStep {
    match outcome {
        ResolverOutcome::Claimed => ChainStep::Claimed(i),
        ResolverOutcome::Failed => ChainStep::Failed(i),
        ResolverOutcome::NotMine => if i + 1 < n {
            ChainStep::Invoke((i + 1) as usize)
        } else {
            ChainStep::Unclaimed
        },
    }
}

/// Resolvers in registration order.
pub struct CompletionChain<R> {
    resolvers: Vec<R>,
}

impl<R> View for CompletionChain<R> {
    type V = Seq<R>;

    closed spec fn view(&self) -> Seq<R> {
        self.resolvers@
    }
}

impl<R> CompletionChain<R> {
    pub fn new() -> (c: Self)
        ensures
            c@ == Seq::<R>::empty(),
    {
        CompletionChain { resolvers: Vec::new() }
    }

    /// Appends a resolver; it is asked after every one registered before it.
    pub fn push(&mut self, r: R)
        ensures
            final(self)@ == old(self)@.push(r),
    {
        self.resolvers.push(r);
    }

    pub fn len(&self) -> (n: usize)
        ensures
            n == self@.len(),
    {
        self.resolvers.len()
    }

    /// The resolver at position `i`.
    pub fn get(&self, i: usize) -> (r: &R)
        requires
            i < self@.len(),
        ensures
            *r == self@[i as int],
    {
        &self.resolvers[i]
    }

    /// The first step for a new request.
    pub fn start(&self) -> (s: ChainStep)
        ensures
            s == first_step(self@.len()),
    {
        if self.resolvers.len() == 0 {
            ChainStep::Unclaimed
        } else {
            ChainStep::Invoke(0)
        }
    }

    /// The step after the resolver at position `i` reported `outcome`.
    pub fn advance(&self, i: usize, outcome: ResolverOutcome) -> (s: ChainStep)
        requires
            i < self@.len(),
        ensures
            s == next_step(self@.len(), i, outcome),
    {
        match outcome {
            ResolverOutcome::Claimed => ChainStep::Claimed(i),
            ResolverOutcome::Failed => ChainStep::Failed(i),
            ResolverOutcome::NotMine => if i < self.resolvers.len() - 1 {
                ChainStep::Invoke(i + 1)
            } else {
                ChainStep::Unclaimed
            },
        }
    }
}

/// Runs the chain from `step` on, the resolver at position `i` answering
/// `answers[i]`: the positions invoked, in order, and the final step.
pub open spec fn run_chain(n: nat, answers: Seq<ResolverOutcome>, step: ChainStep) -> (Seq<usize>, ChainStep)
    decreases
            (match step {
                ChainStep::Invoke(i) => n - i,
                _ => 0,
            }),
    when n <= usize::MAX && answers.len() == n && (match step {
        ChainStep::Invoke(i) => i < n,
        _ => true,
    })
{
    match step {
        ChainStep::Invoke(i) => {
            let rest = run_chain(n, answers, next_step(n, i, answers[i as int]));
            (seq![i].add(rest.0), rest.1)
        },
        _ => (Seq::empty(), step),
    }
}

/// The first position from `i` on whose resolver does not decline, or
/// `answers.len()` when all of them decline.
pub open spec fn first_answer(answers: Seq<ResolverOutcome>, i: int) -> int
    decreases answers.len() - i,
{
    if i < 0 || i >= answers.len() {
        answers.len() as int
    } else if answers[i] != ResolverOutcome::NotMine {
        i
    } else {
        first_answer(answers, i + 1)
    }
}

/// The step a chain ends on when the first answer that is not a refusal
/// stands at position `m` (`m == answers.len()`: none).
pub open spec fn final_step(answers: Seq<ResolverOutcome>, m: int) -> ChainStep {
    if m < answers.len() && answers[m] == ResolverOutcome::Claimed {
        ChainStep::Claimed(m as usize)
    } else if m < answers.len() {
        ChainStep::Failed(m as usize)
    } else {
        ChainStep::Unclaimed
    }
}

/// The positions `from, from + 1, ..., to - 1`.
pub open spec fn positions(from: int, to: int) -> Seq<usize> {
    Seq::new((to - from) as nat, |j: int| (from + j) as usize)
}

proof fn lemma_first_answer_bounds(answers: Seq<ResolverOutcome>, i: int)
    requires
        0 <= i <= answers.len(),
    ensures
        i <= first_answer(answers, i) <= answers.len(),
    decreases answers.len() - i,
{
    if i < answers.len() && answers[i] == ResolverOutcome::NotMine {
        lemma_first_answer_bounds(answers, i + 1);
    }
}

proof fn lemma_run_from(answers: Seq<ResolverOutcome>, i: int)
    requires
        answers.len() <= usize::MAX,
        0 <= i < answers.len(),
    ensures
        ({
            let n = answers.len();
            let m = first_answer(answers, i);
            let end = if m < n { m + 1 } else { n as int };
            run_chain(n, answers, ChainStep::Invoke(i as usize)) == (positions(i, end), final_step(answers, m))
        }),
    decreases answers.len() - i,
{
    let n = answers.len();
    let m = first_answer(answers, i);
    let end = if m < n { m + 1 } else { n as int };
    let r = run_chain(n, answers, ChainStep::Invoke(i as usize));
    let next = next_step(n, i as usize, answers[i]);
    let rest = run_chain(n, answers, next);
    assert(r == (seq![i as usize].add(rest.0), rest.1));
    if answers[i] != ResolverOutcome::NotMine {
        assert(rest == (Seq::<usize>::empty(), next));
        assert(r.0 =~= positions(i, end));
    } else if i + 1 < n {
        lemma_run_from(answers, i + 1);
        assert(next == ChainStep::Invoke((i + 1) as usize));
        assert(m == first_answer(answers, i + 1));
        lemma_first_answer_bounds(answers, i + 1);
        let tail = positions(i + 1, end);
        assert(rest.0 == tail);
        assert forall|k: int| 0 <= k < r.0.len() implies r.0[k] == positions(i, end)[k] by {
            if k > 0 {
                assert(r.0[k] == tail[k - 1]);
            }
        }
        assert(r.0 =~= positions(i, end));
    } else {
        assert(first_answer(answers, i + 1) == n);
        assert(rest == (Seq::<usize>::empty(), next));
        assert(r.0 =~= positions(i, end));
    }
}

/// Resolvers are invoked in registration order, starting from the first; the
/// chain stops at the first that does not decline, and when every resolver
/// declines the request still ends in an answer: the empty suggestion list.
pub proof fn lemma_resolve_in_order(answers: Seq<ResolverOutcome>)
    requires
        answers.len() <= usize::MAX,
    ensures
        ({
            let n = answers.len();
            let m = first_answer(answers, 0);
            let end = if m < n { m + 1 } else { n as int };
            &&& run_chain(n, answers, first_step(n)).0 == positions(0, end)
            &&& run_chain(n, answers, first_step(n)).1 == final_step(answers, m)
            &&& m == n ==> run_chain(n, answers, first_step(n)).1 == ChainStep::Unclaimed
        }),
{
    let n = answers.len();
    if n == 0 {
        assert(positions(0, 0) =~= Seq::<usize>::empty());
    } else {
        lemma_run_from(answers, 0);
    }
}

} // verus!
