use vstd::prelude::*;

verus! {

/// Why a fetch failed.
#[derive(Debug)]
pub enum HttpClientError {
    /// The request could not be sent, or the answer was not a success.
    RequestError(String),
    /// The body did not have the expected shape.
    DeserializationError(String),
    /// No attempt was made on the given URL.
    NoData(String),
}

impl Clone for HttpClientError {
    fn clone(&self) -> (r: Self)
        ensures
            r == *self,
    {
        match self {
            HttpClientError::RequestError(m) => HttpClientError::RequestError(m.clone()),
            HttpClientError::DeserializationError(m) => HttpClientError::DeserializationError(m.clone()),
            HttpClientError::NoData(m) => HttpClientError::NoData(m.clone()),
        }
    }
}

/// What the fetch loop does next.
#[derive(Debug)]
pub enum RetryAction {
    /// Send the request; `attempt` counts from 1.
    Attempt { attempt: u16 },
    /// Sleep for the delay before the next attempt.
    Wait { delay_ms: u64 },
    /// Stop, failing with this error.
    GiveUp(HttpClientError),
}

/// The decisions of a fetch that is retried up to `max_tries` times with a
/// fixed delay between attempts. The caller performs the actions, returns
/// at once on a success, and reports each failure with `failed`.
#[derive(Debug)]
pub struct RetryState {
    pub max_tries: u16,
    pub retry_delay_ms: u64,
    /// Attempts started so far.
    pub tries: u16,
    /// Whether the delay after the last failure has been waited.
    pub waited: bool,
    /// The error to give up with.
    pub last_error: HttpClientError,
}

impl RetryState {
    /// The state before the first attempt on `url`.
    pub open spec fn fresh(max_tries: u16, retry_delay_ms: u64, url: String) -> RetryState {
        RetryState {
            max_tries,
            retry_delay_ms,
            tries: 0,
            waited: false,
            last_error: HttpClientError::NoData(url),
        }
    }

    /// The next action, and the state after it: give up once the budget is
    /// spent, attempt at once the first time, and otherwise wait the delay
    /// before each new attempt.
    pub open spec fn step(self) -> (RetryState, RetryAction) {
        if self.tries >= self.max_tries {
            (self, RetryAction::GiveUp(self.last_error))
        } else if self.tries > 0 && !self.waited {
            (RetryState { waited: true, ..self }, RetryAction::Wait { delay_ms: self.retry_delay_ms })
        } else {
            (
                RetryState { tries: (self.tries + 1) as u16, waited: false, ..self },
                RetryAction::Attempt { attempt: (self.tries + 1) as u16 },
            )
        }
    }

    /// The state after the attempt in flight failed with `e`.
    pub open spec fn after_failure(self, e: HttpClientError) -> RetryState {
        RetryState { last_error: e, ..self }
    }

    pub fn new(max_tries: u16, retry_delay_ms: u64, url: String) -> (r: RetryState)
        ensures
            r == RetryState::fresh(max_tries, retry_delay_ms, url),
    {
        RetryState { max_tries, retry_delay_ms, tries: 0, waited: false, last_error: HttpClientError::NoData(url) }
    }

    /// Decides the next action.
    pub fn next(&mut self) -> (r: RetryAction)
        ensures
            *final(self) == old(self).step().0,
            r == old(self).step().1,
    {
        if self.tries >= self.max_tries {
            RetryAction::GiveUp(self.last_error.clone())
        } else if self.tries > 0 && !self.waited {
            self.waited = true;
            RetryAction::Wait { delay_ms: self.retry_delay_ms }
        } else {
            self.tries = self.tries + 1;
            self.waited = false;
            RetryAction::Attempt { attempt: self.tries }
        }
    }

    /// Records that the attempt in flight failed with `e`.
    pub fn failed(&mut self, e: HttpClientError)
        ensures
            *final(self) == old(self).after_failure(e),
    {
        self.last_error = e;
    }
}

/// How a run of the fetch loop ended: attempts made, delays waited, and the
/// outcome.
pub struct RetryRun {
    pub attempts: nat,
    pub waits: nat,
    pub result: Result<(), HttpClientError>,
}

pub open spec fn retry_measure(s: RetryState) -> nat {
    if s.tries >= s.max_tries {
        0
    } else {
        (2 * (s.max_tries - s.tries) + if s.waited {
            0int
        } else {
            1int
        }) as nat
    }
}

/// The fetch loop driven from state `s`, where attempt `k` (from 1) fails
/// with `outcomes[k - 1]` when that is `Some`, and succeeds otherwise.
pub open spec fn run(s: RetryState, outcomes: Seq<Option<HttpClientError>>) -> RetryRun
    decreases retry_measure(s),
{
    let (next, action) = s.step();
    match action {
        RetryAction::GiveUp(e) => RetryRun { attempts: 0, waits: 0, result: Err(e) },
        RetryAction::Wait { .. } => {
            if retry_measure(next) < retry_measure(s) {
                let rest = run(next, outcomes);
                RetryRun { waits: rest.waits + 1, ..rest }
            } else {
                RetryRun { attempts: 0, waits: 0, result: Err(s.last_error) }
            }
        },
        RetryAction::Attempt { .. } => {
            let outcome = if s.tries < outcomes.len() {
                outcomes[s.tries as int]
            } else {
                None
            };
            match outcome {
                None => RetryRun { attempts: 1, waits: 0, result: Ok(()) },
                Some(e) => {
                    if retry_measure(next.after_failure(e)) < retry_measure(s) {
                        let rest = run(next.after_failure(e), outcomes);
                        RetryRun { attempts: rest.attempts + 1, ..rest }
                    } else {
                        RetryRun { attempts: 1, waits: 0, result: Err(e) }
                    }
                },
            }
        },
    }
}

proof fn lemma_run_all_fail(s: RetryState, outcomes: Seq<Option<HttpClientError>>)
    requires
        1 <= s.tries <= s.max_tries,
        !s.waited,
        outcomes.len() >= s.max_tries,
        forall|i: int| 0 <= i < s.max_tries ==> (#[trigger] outcomes[i]) is Some,
        s.last_error == outcomes[s.tries - 1]->0,
    ensures
        run(s, outcomes) == (RetryRun {
            attempts: (s.max_tries - s.tries) as nat,
            waits: (s.max_tries - s.tries) as nat,
            result: Err(outcomes[s.max_tries - 1]->0),
        }),
    decreases s.max_tries - s.tries,
{
    if s.tries < s.max_tries {
        let w = s.step().0;
        let a = w.step().0;
        let e = outcomes[s.tries as int]->0;
        lemma_run_all_fail(a.after_failure(e), outcomes);
        assert(retry_measure(a.after_failure(e)) < retry_measure(w));
        assert(run(w, outcomes) == RetryRun { attempts: run(a.after_failure(e), outcomes).attempts + 1, ..run(a.after_failure(e), outcomes) });
        assert(retry_measure(w) < retry_measure(s));
        assert(run(s, outcomes) == RetryRun { waits: run(w, outcomes).waits + 1, ..run(w, outcomes) });
    }
}

proof fn lemma_run_success(s: RetryState, outcomes: Seq<Option<HttpClientError>>, k: int)
    requires
        1 <= s.tries < k <= s.max_tries,
        !s.waited,
        outcomes.len() >= k,
        forall|i: int| s.tries <= i < k - 1 ==> (#[trigger] outcomes[i]) is Some,
        outcomes[k - 1] is None,
    ensures
        run(s, outcomes) == (RetryRun { attempts: (k - s.tries) as nat, waits: (k - s.tries) as nat, result: Ok(()) }),
    decreases s.max_tries - s.tries,
{
    let w = s.step().0;
    let a = w.step().0;
    assert(retry_measure(w) < retry_measure(s));
    assert(run(s, outcomes) == RetryRun { waits: run(w, outcomes).waits + 1, ..run(w, outcomes) });
    if s.tries + 1 < k {
        let e = outcomes[s.tries as int]->0;
        lemma_run_success(a.after_failure(e), outcomes, k);
        assert(retry_measure(a.after_failure(e)) < retry_measure(w));
        assert(run(w, outcomes) == RetryRun { attempts: run(a.after_failure(e), outcomes).attempts + 1, ..run(a.after_failure(e), outcomes) });
    } else {
        assert(run(w, outcomes) == RetryRun { attempts: 1, waits: 0, result: Ok::<(), HttpClientError>(()) });
    }
}

/// Retry budget: with `max_tries = n` and every attempt failing, the loop
/// makes exactly `n` attempts with a delay between each two, then fails
/// with the last error (with the error naming the URL when `n` is 0).
pub proof fn law_retry_budget_spent(max_tries: u16, delay: u64, url: String, outcomes: Seq<Option<HttpClientError>>)
    requires
        outcomes.len() >= max_tries,
        forall|i: int| 0 <= i < max_tries ==> (#[trigger] outcomes[i]) is Some,
    ensures
        run(RetryState::fresh(max_tries, delay, url), outcomes).attempts == max_tries,
        max_tries > 0 ==> run(RetryState::fresh(max_tries, delay, url), outcomes).waits == max_tries - 1,
        run(RetryState::fresh(max_tries, delay, url), outcomes).result == if max_tries == 0 {
            Err::<(), HttpClientError>(HttpClientError::NoData(url))
        } else {
            Err(outcomes[max_tries - 1]->0)
        },
{
    let s = RetryState::fresh(max_tries, delay, url);
    if max_tries > 0 {
        let a = s.step().0;
        let e = outcomes[0]->0;
        lemma_run_all_fail(a.after_failure(e), outcomes);
    }
}

/// Retry budget: when attempt `k` is the first to succeed and `k` is within
/// the budget, exactly `k` attempts are made and the fetch succeeds.
pub proof fn law_retry_stops_at_success(
    max_tries: u16,
    delay: u64,
    url: String,
    outcomes: Seq<Option<HttpClientError>>,
    k: int,
)
    requires
        1 <= k <= max_tries,
        outcomes.len() >= k,
        forall|i: int| 0 <= i < k - 1 ==> (#[trigger] outcomes[i]) is Some,
        outcomes[k - 1] is None,
    ensures
        run(RetryState::fresh(max_tries, delay, url), outcomes).attempts == k,
        run(RetryState::fresh(max_tries, delay, url), outcomes).waits == k - 1,
        run(RetryState::fresh(max_tries, delay, url), outcomes).result == Ok::<(), HttpClientError>(()),
{
    let s = RetryState::fresh(max_tries, delay, url);
    let a = s.step().0;
    if k > 1 {
        let e = outcomes[0]->0;
        lemma_run_success(a.after_failure(e), outcomes, k);
    }
}

/// The first attempt is made at once, with no wait before it.
pub proof fn law_first_attempt_not_delayed(max_tries: u16, delay: u64, url: String)
    requires
        max_tries >= 1,
    ensures
        RetryState::fresh(max_tries, delay, url).step().1 == (RetryAction::Attempt { attempt: 1 }),
{
}

/// After attempt `i` fails with budget left, the loop first waits the retry
/// delay and only then makes attempt `i + 1`.
pub proof fn law_wait_before_retry(s: RetryState, e: HttpClientError)
    requires
        1 <= s.tries < s.max_tries,
        !s.waited,
    ensures
        s.after_failure(e).step().1 == (RetryAction::Wait { delay_ms: s.retry_delay_ms }),
        s.after_failure(e).step().0.step().1 == (RetryAction::Attempt { attempt: (s.tries + 1) as u16 }),
        s.after_failure(e).step().0.step().0.tries == s.tries + 1,
        !s.after_failure(e).step().0.step().0.waited,
{
}

/// What an attempt leaves behind: the attempt counter moved on and no wait
/// made yet, which is where `law_wait_before_retry` applies.
pub proof fn law_attempt_leaves_no_wait(s: RetryState)
    requires
        s.tries < s.max_tries,
        s.tries == 0 || s.waited,
    ensures
        s.step().1 == (RetryAction::Attempt { attempt: (s.tries + 1) as u16 }),
        s.step().0.tries == s.tries + 1,
        !s.step().0.waited,
{
}

} // verus!
