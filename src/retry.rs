use crate::error::Error;
use vstd::prelude::*;

verus! {

/// How one attempt ended.
#[derive(Debug, Clone, Copy, PartialEq, Eq, Structural)]
pub enum Outcome {
    /// A 2xx answer.
    Success(u16),
    /// A 5xx answer: worth another attempt.
    ServerError(u16),
    /// The server was not reached (connection, TLS, timeout): worth another
    /// attempt.
    TransportError,
    /// Any other answer: final.
    ClientError(u16),
}

/// What the caller does next.
#[derive(Debug, Clone, Copy, PartialEq, Eq, Structural)]
pub enum Action {
    /// Wait this many milliseconds, then make the request again.
    Retry(u64),
    /// Stop, with how the last attempt ended.
    Finish(Outcome),
}

/// The class of an attempt: `None` where no answer came back, else the
/// answer's status.
pub open spec fn classify_spec(status: Option<u16>) -> Outcome {
    match status {
        None => Outcome::TransportError,
        Some(s) => if 200 <= s && s <= 299 {
            Outcome::Success(s)
        } else if 500 <= s && s <= 599 {
            Outcome::ServerError(s)
        } else {
            Outcome::ClientError(s)
        },
    }
}

pub open spec fn is_retryable(o: Outcome) -> bool {
    o is ServerError || o is TransportError
}

/// The decision after an attempt that ended with `o`, `elapsed` milliseconds
/// after the call began, where the backoff policy proposes `delay`: another
/// attempt only on a retryable outcome, with a proposed delay that keeps the
/// call within `max_elapsed`.
pub open spec fn decide_spec(o: Outcome, elapsed: u64, max_elapsed: u64, delay: Option<u64>) -> Action {
    if is_retryable(o) && delay is Some && elapsed + delay->0 <= max_elapsed {
        Action::Retry(delay->0)
    } else {
        Action::Finish(o)
    }
}

/// Classifies the end of an attempt.
pub fn classify(status: Option<u16>) -> (r: Outcome)
    ensures
        r == classify_spec(status),
{
    match status {
        None => Outcome::TransportError,
        Some(s) => if 200 <= s && s <= 299 {
            Outcome::Success(s)
        } else if 500 <= s && s <= 599 {
            Outcome::ServerError(s)
        } else {
            Outcome::ClientError(s)
        },
    }
}

/// Decides what follows an attempt, given the delay the backoff policy
/// proposes.
pub fn decide(o: Outcome, elapsed: u64, max_elapsed: u64, delay: Option<u64>) -> (r: Action)
    ensures
        r == decide_spec(o, elapsed, max_elapsed, delay),
{
    let retryable = match o {
        Outcome::ServerError(_) | Outcome::TransportError => true,
        _ => false,
    };
    match delay {
        Some(d) => if retryable && d <= max_elapsed && elapsed <= max_elapsed - d {
            Action::Retry(d)
        } else {
            Action::Finish(o)
        },
        None => Action::Finish(o),
    }
}

/// The result of a call whose last attempt ended with `o`.
pub open spec fn final_result_spec(o: Outcome) -> Result<u16, Error> {
    match o {
        Outcome::Success(s) => Ok(s),
        Outcome::ServerError(s) => Err(Error::RetryBudgetExhausted(Some(s))),
        Outcome::TransportError => Err(Error::RetryBudgetExhausted(None)),
        Outcome::ClientError(s) => Err(Error::ClientError(s)),
    }
}

/// The result of a call whose last attempt ended with `o`: the status of a
/// success, or the error that the last failure makes.
pub fn final_result(o: Outcome) -> (r: Result<u16, Error>)
    ensures
        r == final_result_spec(o),
{
    match o {
        Outcome::Success(s) => Ok(s),
        Outcome::ServerError(s) => Err(Error::RetryBudgetExhausted(Some(s))),
        Outcome::TransportError => Err(Error::RetryBudgetExhausted(None)),
        Outcome::ClientError(s) => Err(Error::ClientError(s)),
    }
}

/// A retry is only ever scheduled after a retryable outcome, and only with a
/// delay that ends within the time budget; once the budget is spent the call
/// stops, with the last failure it observed.
pub proof fn lemma_retry_within_budget(o: Outcome, elapsed: u64, max_elapsed: u64, delay: Option<u64>)
    ensures
        decide_spec(o, elapsed, max_elapsed, delay) matches Action::Retry(d) ==> {
            &&& is_retryable(o)
            &&& elapsed + d <= max_elapsed
        },
        elapsed > max_elapsed ==> decide_spec(o, elapsed, max_elapsed, delay) == Action::Finish(o),
        decide_spec(o, elapsed, max_elapsed, delay) matches Action::Finish(last) ==> last == o,
        is_retryable(o) && decide_spec(o, elapsed, max_elapsed, delay) is Finish ==> final_result_spec(o) == Err::<u16, Error>(Error::RetryBudgetExhausted(
            match o {
                Outcome::ServerError(s) => Some(s),
                _ => None,
            },
        )),
{
}

/// One attempt of a call: how it ended, the milliseconds elapsed since the
/// call began when it ended, and the delay the backoff policy proposed.
pub type Attempt = (Outcome, u64, Option<u64>);

/// The delays that a call sleeps over a run of attempts: one for each
/// decision to retry, up to the first decision to finish.
pub open spec fn run_delays(run: Seq<Attempt>, max_elapsed: u64) -> Seq<u64>
    decreases run.len(),
{
    if run.len() == 0 {
        seq![]
    } else {
        match decide_spec(run[0].0, run[0].1, max_elapsed, run[0].2) {
            Action::Retry(d) => seq![d] + run_delays(run.drop_first(), max_elapsed),
            Action::Finish(_) => seq![],
        }
    }
}

pub open spec fn total(s: Seq<u64>) -> int
    decreases s.len(),
{
    if s.len() == 0 {
        0
    } else {
        s[0] + total(s.drop_first())
    }
}

/// Attempt `i + 1` of a run ends no sooner than attempt `i` plus the delay
/// slept after it.
pub open spec fn advances_at(run: Seq<Attempt>, i: int, max_elapsed: u64) -> bool {
    match decide_spec(run[i].0, run[i].1, max_elapsed, run[i].2) {
        Action::Retry(d) => run[i + 1].1 >= run[i].1 + d,
        Action::Finish(_) => true,
    }
}

/// Each attempt of a run ends no sooner than the previous one plus the
/// delay slept after it.
pub open spec fn clock_advances(run: Seq<Attempt>, max_elapsed: u64) -> bool {
    forall|i: int| 0 <= i < run.len() - 1 ==> #[trigger] advances_at(run, i, max_elapsed)
}

proof fn lemma_run_delays_from(run: Seq<Attempt>, max_elapsed: u64)
    requires
        clock_advances(run, max_elapsed),
    ensures
        total(run_delays(run, max_elapsed)) == 0 || run[0].1 + total(run_delays(run, max_elapsed))
            <= max_elapsed,
    decreases run.len(),
{
    if run.len() > 0 {
        let rest = run.drop_first();
        assert forall|i: int| 0 <= i < rest.len() - 1 implies #[trigger] advances_at(
            rest,
            i,
            max_elapsed,
        ) by {
            assert(advances_at(run, i + 1, max_elapsed));
            assert(rest[i] == run[i + 1]);
            assert(rest[i + 1] == run[i + 2]);
        }
        lemma_run_delays_from(rest, max_elapsed);
        match decide_spec(run[0].0, run[0].1, max_elapsed, run[0].2) {
            Action::Retry(d) => {
                let ds = run_delays(run, max_elapsed);
                assert(ds.drop_first() =~= run_delays(rest, max_elapsed));
                if rest.len() > 0 {
                    assert(advances_at(run, 0, max_elapsed));
                }
            },
            Action::Finish(_) => {},
        }
    }
}

/// Over any run of attempts on a clock that moves forward by at least each
/// delay slept, the delays that the call sleeps add up to no more than its
/// time budget.
pub proof fn lemma_run_within_budget(run: Seq<Attempt>, max_elapsed: u64)
    requires
        clock_advances(run, max_elapsed),
    ensures
        total(run_delays(run, max_elapsed)) <= max_elapsed,
{
    lemma_run_delays_from(run, max_elapsed);
}

/// The backoff policy proposed no delay, or one of at least a millisecond.
pub open spec fn proposes_positive(a: Attempt) -> bool {
    match a.2 {
        Some(d) => d >= 1,
        None => true,
    }
}

proof fn lemma_run_delays_positive(run: Seq<Attempt>, max_elapsed: u64)
    requires
        forall|i: int| 0 <= i < run.len() ==> proposes_positive(#[trigger] run[i]),
    ensures
        total(run_delays(run, max_elapsed)) >= run_delays(run, max_elapsed).len(),
    decreases run.len(),
{
    if run.len() > 0 {
        let rest = run.drop_first();
        assert forall|i: int| 0 <= i < rest.len() implies proposes_positive(#[trigger] rest[i]) by {
            assert(rest[i] == run[i + 1]);
        }
        lemma_run_delays_positive(rest, max_elapsed);
        match decide_spec(run[0].0, run[0].1, max_elapsed, run[0].2) {
            Action::Retry(d) => {
                let ds = run_delays(run, max_elapsed);
                assert(ds.drop_first() =~= run_delays(rest, max_elapsed));
                assert(run[0].2 == Some(d));
                assert(proposes_positive(run[0]));
            },
            Action::Finish(_) => {},
        }
    }
}

/// Where every delay the backoff policy proposes is at least a millisecond,
/// a call on a clock that moves forward by at least each delay slept
/// retries at most `max_elapsed` times: its attempts are finite in number.
pub proof fn lemma_run_retries_bounded(run: Seq<Attempt>, max_elapsed: u64)
    requires
        clock_advances(run, max_elapsed),
        forall|i: int| 0 <= i < run.len() ==> proposes_positive(#[trigger] run[i]),
    ensures
        run_delays(run, max_elapsed).len() <= max_elapsed,
{
    lemma_run_within_budget(run, max_elapsed);
    lemma_run_delays_positive(run, max_elapsed);
}

/// A 5xx answer is retried while the backoff policy proposes a delay that
/// fits the budget.
pub proof fn lemma_server_error_retried(status: u16, elapsed: u64, max_elapsed: u64, d: u64)
    requires
        500 <= status <= 599,
        elapsed + d <= max_elapsed,
    ensures
        decide_spec(classify_spec(Some(status)), elapsed, max_elapsed, Some(d)) == Action::Retry(d),
{
}

/// An answer outside 2xx and 5xx ends the call at once with a client error,
/// whatever the time left and the backoff policy.
pub proof fn lemma_client_error_final(status: u16, elapsed: u64, max_elapsed: u64, delay: Option<u64>)
    requires
        !(200 <= status <= 299),
        !(500 <= status <= 599),
    ensures
        decide_spec(classify_spec(Some(status)), elapsed, max_elapsed, delay) == Action::Finish(
            Outcome::ClientError(status),
        ),
        final_result_spec(Outcome::ClientError(status)) == Err::<u16, Error>(Error::ClientError(status)),
{
}

/// A 2xx answer ends the call at once with success, whatever the time left
/// and the backoff policy.
pub proof fn lemma_success_final(status: u16, elapsed: u64, max_elapsed: u64, delay: Option<u64>)
    requires
        200 <= status <= 299,
    ensures
        decide_spec(classify_spec(Some(status)), elapsed, max_elapsed, delay) == Action::Finish(
            Outcome::Success(status),
        ),
        final_result_spec(Outcome::Success(status)) == Ok::<u16, Error>(status),
{
}

/// The ceiling on the time a call spends, retries included, in milliseconds.
pub const MAX_ELAPSED_MS: u64 = 5000;

#[verifier::external_type_specification]
#[verifier::external_body]
#[verifier::reject_recursive_types(C)]
pub struct ExExponentialBackoff<C>(backoff::exponential::ExponentialBackoff<C>);

#[verifier::external_type_specification]
#[verifier::external_body]
pub struct ExSystemClock(backoff::SystemClock);

/// Relies on `backoff::ExponentialBackoff::default` with its
/// `max_elapsed_time` set to `max_ms` milliseconds, then `reset`, to start
/// an exponential backoff with jitter.
#[verifier::external_body]
fn start_backoff(max_ms: u64) -> (r: backoff::ExponentialBackoff) {
    let mut b = backoff::ExponentialBackoff::default();
    b.max_elapsed_time = Some(std::time::Duration::from_millis(max_ms));
    backoff::backoff::Backoff::reset(&mut b);
    b
}

/// Relies on `backoff::backoff::Backoff::next_backoff` of an exponential
/// backoff: the next randomised delay in milliseconds, or `None` once its
/// own clock says the time budget is spent.
#[verifier::external_body]
fn next_backoff_ms(b: &mut backoff::ExponentialBackoff) -> (r: Option<u64>) {
    backoff::backoff::Backoff::next_backoff(b).map(|d| d.as_millis() as u64)
}

/// The retry state of one call: its backoff policy and its time budget.
pub struct RetryLoop {
    backoff: backoff::ExponentialBackoff,
    max_elapsed_ms: u64,
}

impl RetryLoop {
    /// The time budget of the call, in milliseconds.
    pub closed spec fn budget(&self) -> u64 {
        self.max_elapsed_ms
    }

    pub fn max_elapsed_ms(&self) -> (r: u64)
        ensures
            r == self.budget(),
    {
        self.max_elapsed_ms
    }

    /// Starts the retry state of a call with the usual five-second budget.
    pub fn new() -> (r: RetryLoop)
        ensures
            r.budget() == MAX_ELAPSED_MS,
    {
        RetryLoop { backoff: start_backoff(MAX_ELAPSED_MS), max_elapsed_ms: MAX_ELAPSED_MS }
    }

    /// What follows an attempt that ended with `status` (`None`: no answer),
    /// `elapsed_ms` milliseconds after the call began. The backoff policy is
    /// asked for a delay only after a retryable outcome.
    pub fn next_action(&mut self, status: Option<u16>, elapsed_ms: u64) -> (r: Action)
        ensures
            final(self).budget() == old(self).budget(),
            !is_retryable(classify_spec(status)) ==> r == Action::Finish(classify_spec(status)),
            is_retryable(classify_spec(status)) ==> (r == Action::Finish(classify_spec(status))
                || exists|d: u64|
                r == decide_spec(classify_spec(status), elapsed_ms, old(self).budget(), Some(d))
                && r == Action::Retry(d)),
    {
        let o = classify(status);
        let max = self.max_elapsed_ms;
        assert(max == old(self).budget());
        match o {
            Outcome::ServerError(_) | Outcome::TransportError => {
                let delay = next_backoff_ms(&mut self.backoff);
                let r = decide(o, elapsed_ms, max, delay);
                proof {
                    if r is Retry {
                        let d = delay->0;
                        assert(r == decide_spec(o, elapsed_ms, max, Some(d)));
                        assert(r == Action::Retry(d));
                        assert(exists|d: u64|
                            r == decide_spec(o, elapsed_ms, max, Some(d)) && r
                                == Action::Retry(d));
                    }
                }
                r
            },
            _ => Action::Finish(o),
        }
    }
}

} // verus!
