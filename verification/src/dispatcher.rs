//! The outbound dispatcher: what it sends for an event, and how it retries.
//!
//! One event is dispatched at a time. Each attempt either succeeds (a status
//! in the 2xx range) or fails (any other status, or no response at all); the
//! two kinds of failure are retried alike, whatever the method, so a target
//! may see a request more than once. After a failed attempt the dispatcher
//! waits for a time that grows linearly with the attempt's number, until the
//! configured number of retries is used up.

use crate::headers::{headers_view, Header};
use crate::json::{Json, JsonView};
use crate::request::{
    outcome_view, request_of, to_request, MissingTarget, RequestSpec, RequestSpecView,
};
use crate::text::{opt_str_view, opt_string_view};
use vstd::prelude::*;
use vstd::string::*;

verus! {

/// The settings of a dispatcher, fixed when it starts.
#[derive(Clone, Debug, PartialEq, Eq)]
pub struct DispatcherConfig {
    /// Prefix of the targets that are given by `path`.
    pub base_url: Option<String>,
    /// Time allowed for one attempt, in seconds.
    pub timeout_secs: u64,
    /// How often a failed request is tried again.
    pub retries: u32,
    /// Value of the `Authorization` header of every request.
    pub auth_header: Option<String>,
}

/// Where the dispatch of one event stands: the number of the attempt that is
/// due, counted from one, and the number of attempts allowed.
#[derive(Clone, Copy, Debug, PartialEq, Eq, Structural)]
pub struct RetryState {
    pub attempt: u64,
    pub max_attempts: u64,
}

/// How one attempt ended.
#[derive(Clone, Copy, Debug, PartialEq, Eq, Structural)]
pub enum AttemptOutcome {
    /// The target answered with this status.
    Status(u16),
    /// No answer came: the connection failed or the attempt timed out.
    TransportError,
}

/// Why a dispatch was given up.
#[derive(Clone, Copy, Debug, PartialEq, Eq, Structural)]
pub enum DispatchError {
    /// The last attempt was answered with this status, outside 2xx.
    UnsuccessfulStatus(u16),
    /// The last attempt got no answer.
    TransportError,
}

/// What follows an attempt.
#[derive(Clone, Copy, Debug, PartialEq, Eq, Structural)]
pub enum Step {
    /// The request went through; the event is done.
    Done,
    /// Wait `delay_ms` milliseconds, then make the attempt that `next` counts.
    Retry { delay_ms: u64, next: RetryState },
    /// No attempt is left; the event is dropped.
    GiveUp(DispatchError),
}

/// Whether a status is in the success range.
pub open spec fn is_success(status: u16) -> bool {
    200 <= status < 300
}

/// Whether an attempt went through.
pub open spec fn succeeded(outcome: AttemptOutcome) -> bool {
    match outcome {
        AttemptOutcome::Status(status) => is_success(status),
        AttemptOutcome::TransportError => false,
    }
}

/// The error that a failed attempt stands for.
pub open spec fn error_of(outcome: AttemptOutcome) -> DispatchError {
    match outcome {
        AttemptOutcome::Status(status) => DispatchError::UnsuccessfulStatus(status),
        AttemptOutcome::TransportError => DispatchError::TransportError,
    }
}

/// The wait after the failed attempt number `attempt`, in milliseconds.
pub open spec fn backoff_millis(attempt: int) -> int {
    100 * attempt
}

impl RetryState {
    /// Attempts are counted from one and never beyond the allowed number,
    /// which is one more than a retry count of 32 bits.
    pub open spec fn wf(self) -> bool {
        1 <= self.attempt <= self.max_attempts <= 0x1_0000_0000
    }

    /// The state before the first attempt.
    pub open spec fn initial(retries: u32) -> RetryState {
        RetryState { attempt: 1, max_attempts: (retries + 1) as u64 }
    }

    /// The state that follows a failed attempt.
    pub open spec fn advanced(self) -> RetryState {
        RetryState { attempt: (self.attempt + 1) as u64, max_attempts: self.max_attempts }
    }

    /// What follows an attempt that ended in `outcome`.
    pub open spec fn step(self, outcome: AttemptOutcome) -> Step {
        if succeeded(outcome) {
            Step::Done
        } else if self.attempt < self.max_attempts {
            Step::Retry {
                delay_ms: backoff_millis(self.attempt as int) as u64,
                next: self.advanced(),
            }
        } else {
            Step::GiveUp(error_of(outcome))
        }
    }

    /// The state before the first attempt of a dispatch with `retries`
    /// retries: `retries + 1` attempts are allowed.
    pub fn start(retries: u32) -> (state: RetryState)
        ensures
            state == RetryState::initial(retries),
            state.attempt == 1,
            state.max_attempts == retries + 1,
            state.wf(),
    {
        let retries: u64 = retries as u64;
        RetryState { attempt: 1, max_attempts: retries + 1 }
    }

    /// Whether the state is one that `start` and `after` can give.
    pub fn is_valid(&self) -> (ok: bool)
        ensures
            ok == self.wf(),
    {
        1 <= self.attempt && self.attempt <= self.max_attempts && self.max_attempts
            <= 0x1_0000_0000
    }

    /// Decides what follows the attempt that this state counts, given how it
    /// ended: done on success; on failure a retry after `100 * attempt`
    /// milliseconds while attempts are left, and giving up with the
    /// attempt's error when none is.
    pub fn after(&self, outcome: AttemptOutcome) -> (step: Step)
        requires
            self.wf(),
        ensures
            step == self.step(outcome),
            step matches Step::Retry { delay_ms, next } ==> next.wf() && next.attempt
                == self.attempt + 1 && next.max_attempts == self.max_attempts && delay_ms
                == 100 * self.attempt,
    {
        let success = match outcome {
            AttemptOutcome::Status(status) => 200 <= status && status < 300,
            AttemptOutcome::TransportError => false,
        };
        if success {
            Step::Done
        } else if self.attempt < self.max_attempts {
            Step::Retry {
                delay_ms: 100 * self.attempt,
                next: RetryState { attempt: self.attempt + 1, max_attempts: self.max_attempts },
            }
        } else {
            match outcome {
                AttemptOutcome::Status(status) => Step::GiveUp(
                    DispatchError::UnsuccessfulStatus(status),
                ),
                AttemptOutcome::TransportError => Step::GiveUp(DispatchError::TransportError),
            }
        }
    }
}

/// The headers of an outbound request: first the configured authorization,
/// if any, then the headers of the payload in their order. Nothing is
/// replaced: a payload header named `Authorization` is sent beside the
/// configured one, after it.
pub open spec fn outbound_headers(
    auth_header: Option<Seq<char>>,
    extra: Seq<(Seq<char>, Seq<char>)>,
) -> Seq<(Seq<char>, Seq<char>)> {
    match auth_header {
        Some(value) => seq![("Authorization"@, value)] + extra,
        None => extra,
    }
}

/// The request that the dispatcher sends for a payload, or `MissingTarget`.
pub open spec fn dispatch_of(
    payload: JsonView,
    base_url: Option<Seq<char>>,
    auth_header: Option<Seq<char>>,
) -> Result<RequestSpecView, MissingTarget> {
    match request_of(payload, base_url) {
        Ok(request) => Ok(
            RequestSpecView {
                url: request.url,
                method: request.method,
                headers: outbound_headers(auth_header, request.headers),
                body: request.body,
            },
        ),
        Err(e) => Err(e),
    }
}

/// Puts the configured authorization in front of the headers of a payload.
pub fn merge_headers(auth_header: Option<&str>, extra: Vec<Header>) -> (headers: Vec<Header>)
    ensures
        headers_view(headers@) == outbound_headers(opt_str_view(auth_header), headers_view(extra@)),
{
    match auth_header {
        Some(value) => {
            let mut headers: Vec<Header> = Vec::new();
            headers.push(
                Header { name: String::from_str("Authorization"), value: String::from_str(value) },
            );
            let mut extra = extra;
            let ghost given = extra@;
            headers.append(&mut extra);
            assert(headers_view(headers@) =~= outbound_headers(
                Some(value@),
                headers_view(given),
            ));
            headers
        },
        None => extra,
    }
}

/// Builds the request for one event: the translation of its payload, with
/// the configured authorization header in front. A payload without a target
/// gives `MissingTarget`; such an event is skipped, not retried.
pub fn prepare(payload: &Json, config: &DispatcherConfig) -> (out: Result<
    RequestSpec,
    MissingTarget,
>)
    ensures
        outcome_view(out) == dispatch_of(
            payload@,
            opt_string_view(config.base_url),
            opt_string_view(config.auth_header),
        ),
{
    let base_url: Option<&str> = match &config.base_url {
        Some(base) => Some(base.as_str()),
        None => None,
    };
    let auth_header: Option<&str> = match &config.auth_header {
        Some(value) => Some(value.as_str()),
        None => None,
    };
    match to_request(payload, base_url) {
        Ok(request) => {
            let RequestSpec { url, method, headers, body } = request;
            Ok(RequestSpec { url, method, headers: merge_headers(auth_header, headers), body })
        },
        Err(e) => Err(e),
    }
}

/// The course of one dispatch.
pub struct Course {
    /// How many attempts were made.
    pub attempts: nat,
    /// The waits between them, in milliseconds.
    pub delays: Seq<int>,
    /// How it ended; nothing while an attempt is still due.
    pub end: Option<Result<(), DispatchError>>,
}

/// The course that a dispatch takes from `state` when its attempts end as
/// `outcomes` says, one after the other.
pub open spec fn course(state: RetryState, outcomes: Seq<AttemptOutcome>) -> Course
    decreases outcomes.len(),
{
    if outcomes.len() == 0 {
        Course { attempts: 0, delays: Seq::empty(), end: None }
    } else {
        match state.step(outcomes[0]) {
            Step::Done => Course { attempts: 1, delays: Seq::empty(), end: Some(Ok(())) },
            Step::GiveUp(e) => Course { attempts: 1, delays: Seq::empty(), end: Some(Err(e)) },
            Step::Retry { delay_ms, next } => {
                let rest = course(next, outcomes.drop_first());
                Course {
                    attempts: 1 + rest.attempts,
                    delays: seq![delay_ms as int] + rest.delays,
                    end: rest.end,
                }
            },
        }
    }
}

/// Whether every one of `outcomes` is a failure.
pub open spec fn all_failed(outcomes: Seq<AttemptOutcome>) -> bool {
    forall|i: int| 0 <= i < outcomes.len() ==> !succeeded(#[trigger] outcomes[i])
}

/// From any state, a target that keeps failing is tried until the allowed
/// number of attempts is reached and no further; the waits grow by 100 ms
/// from one attempt to the next; and the error is that of the last attempt.
pub proof fn lemma_failing_course(state: RetryState, outcomes: Seq<AttemptOutcome>)
    requires
        state.wf(),
        all_failed(outcomes),
        outcomes.len() > state.max_attempts - state.attempt,
    ensures
        course(state, outcomes).attempts == state.max_attempts - state.attempt + 1,
        course(state, outcomes).end == Some(
            Err::<(), DispatchError>(error_of(outcomes[state.max_attempts - state.attempt])),
        ),
        course(state, outcomes).delays.len() == state.max_attempts - state.attempt,
        forall|i: int|
            0 <= i < state.max_attempts - state.attempt ==> course(state, outcomes).delays[i]
                == 100 * (state.attempt + i),
    decreases outcomes.len(),
{
    if state.attempt < state.max_attempts {
        let next = state.advanced();
        let rest = outcomes.drop_first();
        lemma_failing_course(next, rest);
        let tail = course(next, rest);
        let whole = course(state, outcomes);
        assert(whole.delays =~= seq![100 * state.attempt] + tail.delays);
        assert forall|i: int| 0 <= i < state.max_attempts - state.attempt implies whole.delays[i]
            == 100 * (state.attempt + i) by {
            if i > 0 {
                assert(whole.delays[i] == tail.delays[i - 1]);
            }
        }
    }
}

/// Whatever the attempts give, no more of them are made than the state
/// allows.
pub proof fn law_attempts_bounded(state: RetryState, outcomes: Seq<AttemptOutcome>)
    requires
        state.wf(),
    ensures
        course(state, outcomes).attempts <= state.max_attempts - state.attempt + 1,
        course(state, outcomes).attempts <= outcomes.len(),
    decreases outcomes.len(),
{
    if outcomes.len() > 0 && !succeeded(outcomes[0]) && state.attempt < state.max_attempts {
        law_attempts_bounded(state.advanced(), outcomes.drop_first());
    }
}

/// With `retries` retries, a target that fails every time is attempted
/// exactly `retries + 1` times, with waits of 100, 200, ... milliseconds in
/// between; then the dispatch is given up with the last attempt's error.
pub proof fn law_retry_bound(retries: u32, outcomes: Seq<AttemptOutcome>)
    requires
        all_failed(outcomes),
        outcomes.len() > retries,
    ensures
        course(RetryState::initial(retries), outcomes).attempts == retries + 1,
        course(RetryState::initial(retries), outcomes).end == Some(
            Err::<(), DispatchError>(error_of(outcomes[retries as int])),
        ),
        course(RetryState::initial(retries), outcomes).delays == Seq::new(
            retries as nat,
            |i: int| 100 * (i + 1),
        ),
{
    let state = RetryState::initial(retries);
    lemma_failing_course(state, outcomes);
    assert(course(state, outcomes).delays =~= Seq::new(retries as nat, |i: int| 100 * (i + 1)));
}

/// A dispatch ends with the first attempt that succeeds, if that attempt is
/// among those allowed: no attempt follows a success.
pub proof fn law_stops_at_first_success(state: RetryState, outcomes: Seq<AttemptOutcome>, k: int)
    requires
        state.wf(),
        0 <= k < outcomes.len(),
        k <= state.max_attempts - state.attempt,
        all_failed(outcomes.take(k)),
        succeeded(outcomes[k]),
    ensures
        course(state, outcomes).attempts == k + 1,
        course(state, outcomes).end == Some(Ok::<(), DispatchError>(())),
    decreases k,
{
    if k > 0 {
        assert(outcomes.take(k)[0] == outcomes[0]);
        let rest = outcomes.drop_first();
        assert(rest.take(k - 1) =~= outcomes.take(k).drop_first());
        assert forall|i: int| 0 <= i < rest.take(k - 1).len() implies !succeeded(
            #[trigger] rest.take(k - 1)[i],
        ) by {
            assert(rest.take(k - 1)[i] == outcomes.take(k)[i + 1]);
        }
        law_stops_at_first_success(state.advanced(), rest, k - 1);
    }
}

} // verus!
