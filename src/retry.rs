use vstd::prelude::*;

verus! {

/// The initial backoff delay, in seconds, of both network operations.
pub const RETRY_DELAY: u64 = 30;

/// Where one retry run stands. `tries` is the number of retries allowed after
/// the first attempt, `failures` the failed attempts so far that were followed
/// by a wait, and `delay` the wait that the next such failure brings.
#[derive(Clone, Copy, Debug)]
pub struct Backoff {
    pub tries: usize,
    pub failures: usize,
    pub delay: u64,
    pub finished: bool,
}

/// What the caller does after reporting an attempt's outcome.
#[derive(Debug)]
pub enum Step<T, E> {
    /// Sleep this many seconds, then invoke the operation again.
    Wait(u64),
    /// Stop: this is the run's result.
    Finish(Result<T, E>),
}

/// Twice `d`, held at `u64::MAX` where doubling would not fit.
pub open spec fn doubled(d: u64) -> u64 {
    if d <= u64::MAX / 2 {
        (2 * d) as u64
    } else {
        u64::MAX
    }
}

/// The wait before retry number `n + 1` when the first wait is `d`.
pub open spec fn backoff_delay(d: u64, n: nat) -> u64
    decreases n,
{
    if n == 0 {
        d
    } else {
        backoff_delay(doubled(d), (n - 1) as nat)
    }
}

impl Backoff {
    /// A run that has not started yet.
    pub open spec fn start(delay_seconds: u64, tries: usize) -> Backoff {
        Backoff { tries, failures: 0, delay: delay_seconds, finished: false }
    }

    pub open spec fn wf(self) -> bool {
        self.failures <= self.tries
    }

    /// The state after an attempt that succeeded (`ok`) or failed.
    pub open spec fn after(self, ok: bool) -> Backoff {
        if ok || self.failures >= self.tries {
            Backoff { finished: true, ..self }
        } else {
            Backoff { failures: (self.failures + 1) as usize, delay: doubled(self.delay), ..self }
        }
    }

    /// How many of the given attempt outcomes a run consumes before it stops.
    pub open spec fn attempts(self, outcomes: Seq<bool>) -> nat
        decreases outcomes.len(),
    {
        if self.finished || outcomes.len() == 0 {
            0
        } else {
            1 + self.after(outcomes[0]).attempts(outcomes.drop_first())
        }
    }

    /// The state in which the run stands once those outcomes are consumed.
    pub open spec fn end(self, outcomes: Seq<bool>) -> Backoff
        decreases outcomes.len(),
    {
        if self.finished || outcomes.len() == 0 {
            self
        } else {
            self.after(outcomes[0]).end(outcomes.drop_first())
        }
    }

    /// The waits, in seconds, that the run asks for along the way.
    pub open spec fn waits(self, outcomes: Seq<bool>) -> Seq<u64>
        decreases outcomes.len(),
    {
        if self.finished || outcomes.len() == 0 {
            Seq::empty()
        } else {
            let next = self.after(outcomes[0]);
            let w = if next.finished {
                Seq::empty()
            } else {
                seq![self.delay]
            };
            w + next.waits(outcomes.drop_first())
        }
    }

    /// Starts a run whose first wait is `delay_seconds` and that allows
    /// `tries` retries after the first attempt.
    pub fn new(delay_seconds: u64, tries: usize) -> (r: Backoff)
        ensures
            r == Backoff::start(delay_seconds, tries),
    {
        Backoff { tries, failures: 0, delay: delay_seconds, finished: false }
    }
}

/// Decides what follows an attempt. A success ends the run with its value. A
/// failure while retries remain asks for a wait of the current delay, which
/// then doubles; a failure once the retries are spent ends the run with that
/// error. Every error is treated alike.
pub fn retry<T, E>(state: &mut Backoff, outcome: Result<T, E>) -> (r: Step<T, E>)
    requires
        old(state).wf(),
        !old(state).finished,
    ensures
        *final(state) == old(state).after(outcome is Ok),
        final(state).wf(),
        (outcome is Ok || old(state).failures == old(state).tries) ==> r == Step::Finish(outcome),
        (outcome is Err && old(state).failures < old(state).tries) ==> r == Step::<T, E>::Wait(
            old(state).delay,
        ),
{
    match outcome {
        Ok(v) => {
            state.finished = true;
            Step::Finish(Ok(v))
        },
        Err(e) => {
            if state.failures < state.tries {
                let wait = state.delay;
                state.failures = state.failures + 1;
                state.delay = if state.delay <= u64::MAX / 2 {
                    2 * state.delay
                } else {
                    u64::MAX
                };
                Step::Wait(wait)
            } else {
                state.finished = true;
                Step::Finish(Err(e))
            }
        },
    }
}

proof fn lemma_fails_then_succeeds(s: Backoff, outcomes: Seq<bool>, k: nat)
    requires
        s.wf(),
        !s.finished,
        s.failures + k <= s.tries,
        k < outcomes.len(),
        forall|i: int| 0 <= i < k ==> !outcomes[i],
        outcomes[k as int],
    ensures
        s.attempts(outcomes) == k + 1,
        s.end(outcomes).finished,
        s.waits(outcomes) =~= Seq::new(k, |i: int| backoff_delay(s.delay, i as nat)),
    decreases k,
{
    let rest = outcomes.drop_first();
    let next = s.after(outcomes[0]);
    assert(s.attempts(outcomes) == 1 + next.attempts(rest));
    assert(s.end(outcomes) == next.end(rest));
    if next.finished {
        assert(next.attempts(rest) == 0);
        assert(next.waits(rest) =~= Seq::<u64>::empty());
        assert(s.waits(outcomes) =~= Seq::<u64>::empty());
    } else {
        assert(s.waits(outcomes) == seq![s.delay] + next.waits(rest));
    }
    if k > 0 {
        assert forall|i: int| 0 <= i < k - 1 implies !rest[i] by {
            assert(rest[i] == outcomes[i + 1]);
        }
        lemma_fails_then_succeeds(next, rest, (k - 1) as nat);
        assert forall|i: int| 0 <= i < k implies s.waits(outcomes)[i] == backoff_delay(
            s.delay,
            i as nat,
        ) by {
            if i > 0 {
                assert(s.waits(outcomes)[i] == next.waits(rest)[i - 1]);
                assert(backoff_delay(s.delay, i as nat) == backoff_delay(next.delay, (i - 1) as nat));
            }
        }
    }
}

proof fn lemma_fails_throughout(s: Backoff, outcomes: Seq<bool>)
    requires
        s.wf(),
        !s.finished,
        s.tries - s.failures < outcomes.len(),
        forall|i: int| 0 <= i <= s.tries - s.failures ==> !outcomes[i],
    ensures
        s.attempts(outcomes) == s.tries - s.failures + 1,
        s.end(outcomes).finished,
        s.waits(outcomes) =~= Seq::new(
            (s.tries - s.failures) as nat,
            |i: int| backoff_delay(s.delay, i as nat),
        ),
    decreases s.tries - s.failures,
{
    let rest = outcomes.drop_first();
    let next = s.after(outcomes[0]);
    assert(s.attempts(outcomes) == 1 + next.attempts(rest));
    assert(s.end(outcomes) == next.end(rest));
    if next.finished {
        assert(next.attempts(rest) == 0);
        assert(next.waits(rest) =~= Seq::<u64>::empty());
        assert(s.waits(outcomes) =~= Seq::<u64>::empty());
    } else {
        assert(s.waits(outcomes) == seq![s.delay] + next.waits(rest));
    }
    if s.failures < s.tries {
        assert forall|i: int| 0 <= i <= next.tries - next.failures implies !rest[i] by {
            assert(rest[i] == outcomes[i + 1]);
        }
        lemma_fails_throughout(next, rest);
        let n = s.tries - s.failures;
        assert forall|i: int| 0 <= i < n implies s.waits(outcomes)[i] == backoff_delay(
            s.delay,
            i as nat,
        ) by {
            if i > 0 {
                assert(s.waits(outcomes)[i] == next.waits(rest)[i - 1]);
                assert(backoff_delay(s.delay, i as nat) == backoff_delay(next.delay, (i - 1) as nat));
            }
        }
    }
}

/// An operation that fails `k` times and then succeeds, with `k` below the
/// number of retries, is invoked exactly `k + 1` times; the run ends on that
/// success, after `k` waits that double from the initial delay.
pub proof fn law_success_after_failures(
    delay_seconds: u64,
    tries: usize,
    outcomes: Seq<bool>,
    k: nat,
)
    requires
        k < tries,
        k < outcomes.len(),
        forall|i: int| 0 <= i < k ==> !outcomes[i],
        outcomes[k as int],
    ensures
        Backoff::start(delay_seconds, tries).attempts(outcomes) == k + 1,
        outcomes[Backoff::start(delay_seconds, tries).attempts(outcomes) - 1],
        Backoff::start(delay_seconds, tries).end(outcomes).finished,
        Backoff::start(delay_seconds, tries).waits(outcomes) =~= Seq::new(
            k,
            |i: int| backoff_delay(delay_seconds, i as nat),
        ),
{
    lemma_fails_then_succeeds(Backoff::start(delay_seconds, tries), outcomes, k);
}

/// An operation that always fails is invoked exactly `tries + 1` times: the run
/// ends on the failure of the last invocation, after `tries` waits.
pub proof fn law_always_failing(delay_seconds: u64, tries: usize, outcomes: Seq<bool>)
    requires
        tries < outcomes.len(),
        forall|i: int| 0 <= i < outcomes.len() ==> !outcomes[i],
    ensures
        Backoff::start(delay_seconds, tries).attempts(outcomes) == tries + 1,
        !outcomes[Backoff::start(delay_seconds, tries).attempts(outcomes) - 1],
        Backoff::start(delay_seconds, tries).end(outcomes).finished,
        Backoff::start(delay_seconds, tries).waits(outcomes) =~= Seq::new(
            tries as nat,
            |i: int| backoff_delay(delay_seconds, i as nat),
        ),
{
    lemma_fails_throughout(Backoff::start(delay_seconds, tries), outcomes);
}

/// An operation that succeeds at once is invoked exactly once, and no wait
/// happens.
pub proof fn law_immediate_success(delay_seconds: u64, tries: usize, outcomes: Seq<bool>)
    requires
        outcomes.len() > 0,
        outcomes[0],
    ensures
        Backoff::start(delay_seconds, tries).attempts(outcomes) == 1,
        Backoff::start(delay_seconds, tries).end(outcomes).finished,
        Backoff::start(delay_seconds, tries).waits(outcomes) =~= Seq::<u64>::empty(),
{
    lemma_fails_then_succeeds(Backoff::start(delay_seconds, tries), outcomes, 0);
}

} // verus!
