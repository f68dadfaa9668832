//! What a bulk task does with each reply it gets: wait and send the batch again, or end
//! with a number of accepted documents.
use vstd::prelude::*;

use crate::bulk_response::{success_total, BulkResponse};

verus! {

/// The wait before the first resend of a throttled batch, in seconds.
pub const FIRST_BACKOFF_SECS: u64 = 1;

/// The longest wait between two sends of a throttled batch, in seconds.
pub const MAX_BACKOFF_SECS: u64 = 30;

/// The status with which the store rejects a request that cannot succeed.
pub const BAD_REQUEST: u16 = 400;

/// The status with which the store asks the caller to slow down.
pub const TOO_MANY_REQUESTS: u16 = 429;

/// What came back from one send of a batch.
#[derive(Clone, Debug, PartialEq, Eq)]
pub enum Reply {
    /// No usable response: the transport failed, or the body could not be read.
    Failed,
    /// A response with its HTTP status and its parsed body.
    Received { status: u16, response: BulkResponse },
}

/// What the task does next.
#[derive(Clone, Copy, Debug, PartialEq, Eq, Structural)]
pub enum TaskStep {
    /// Wait `delay_secs` seconds, then send the same batch again.
    Retry { delay_secs: u64 },
    /// End the task; `successes` documents of the batch were accepted.
    Finish { successes: usize },
}

/// The retry state of one bulk task: which send comes next, and how long the next
/// throttled reply makes it wait.
#[derive(Clone, Copy, Debug, PartialEq, Eq, Structural)]
pub struct RetryState {
    pub attempt: u64,
    pub backoff_secs: u64,
}

/// The wait after `b`: doubled, but never above the ceiling.
pub open spec fn next_backoff(b: u64) -> u64 {
    if 2 * b >= MAX_BACKOFF_SECS {
        MAX_BACKOFF_SECS
    } else {
        (2 * b) as u64
    }
}

/// The attempt after `a`; the count stops at the largest `u64`.
pub open spec fn next_attempt(a: u64) -> u64 {
    if a == u64::MAX {
        a
    } else {
        (a + 1) as u64
    }
}

/// The next state and step of a task in state `s` that gets `reply`: a throttled reply
/// makes it wait the current backoff and resend, a rejected request ends it with no
/// success and no resend, and any other response ends it with the response's count of
/// accepted operations, whatever errors the items report. A failed send ends it with no
/// success.
pub open spec fn step_of(s: RetryState, reply: Reply) -> (RetryState, TaskStep) {
    match reply {
        Reply::Failed => (s, TaskStep::Finish { successes: 0 }),
        Reply::Received { status, response } => if status == TOO_MANY_REQUESTS {
            (
                RetryState {
                    attempt: next_attempt(s.attempt),
                    backoff_secs: next_backoff(s.backoff_secs),
                },
                TaskStep::Retry { delay_secs: s.backoff_secs },
            )
        } else if status == BAD_REQUEST {
            (s, TaskStep::Finish { successes: 0 })
        } else {
            (s, TaskStep::Finish { successes: success_total(response) as usize })
        },
    }
}

impl RetryState {
    /// The state of a task before its first send.
    pub fn new() -> (r: Self)
        ensures
            r.attempt == 1,
            r.backoff_secs == FIRST_BACKOFF_SECS,
    {
        RetryState { attempt: 1, backoff_secs: FIRST_BACKOFF_SECS }
    }

    /// Takes the reply to the last send and says what to do next.
    pub fn step(&mut self, reply: &Reply) -> (r: TaskStep)
        ensures
            (*final(self), r) == step_of(*old(self), *reply),
    {
        match reply {
            Reply::Failed => TaskStep::Finish { successes: 0 },
            Reply::Received { status, response } => {
                if *status == TOO_MANY_REQUESTS {
                    let delay_secs = self.backoff_secs;
                    self.backoff_secs =
                        if self.backoff_secs >= MAX_BACKOFF_SECS / 2 {
                            MAX_BACKOFF_SECS
                        } else {
                            self.backoff_secs * 2
                        };
                    if self.attempt < u64::MAX {
                        self.attempt = self.attempt + 1;
                    }
                    TaskStep::Retry { delay_secs }
                } else if *status == BAD_REQUEST {
                    TaskStep::Finish { successes: 0 }
                } else {
                    TaskStep::Finish { successes: response.success_count() }
                }
            },
        }
    }
}

/// A response with `status` and `response`.
pub open spec fn received(status: u16, response: BulkResponse) -> Reply {
    Reply::Received { status, response }
}

/// A throttled response.
pub open spec fn throttled_reply(response: BulkResponse) -> Reply {
    received(TOO_MANY_REQUESTS, response)
}

/// The step that waits `delay_secs` and resends.
pub open spec fn retry_after(delay_secs: u64) -> TaskStep {
    TaskStep::Retry { delay_secs }
}

/// The step that ends a task with `successes`.
pub open spec fn finish_with(successes: usize) -> TaskStep {
    TaskStep::Finish { successes }
}

/// The backoff after `k` throttled replies.
pub open spec fn backoff_after(k: nat) -> u64
    decreases k,
{
    if k == 0 {
        FIRST_BACKOFF_SECS
    } else {
        next_backoff(backoff_after((k - 1) as nat))
    }
}

/// The state of a task after `k` throttled replies.
pub open spec fn throttled_state(k: nat) -> RetryState {
    RetryState {
        attempt: if k + 1 > u64::MAX {
            u64::MAX
        } else {
            (k + 1) as u64
        },
        backoff_secs: backoff_after(k),
    }
}

proof fn lemma_backoff_range(k: nat)
    ensures
        FIRST_BACKOFF_SECS <= backoff_after(k) <= MAX_BACKOFF_SECS,
        backoff_after(k) <= backoff_after(k + 1),
    decreases k,
{
    if k > 0 {
        lemma_backoff_range((k - 1) as nat);
    }
}

proof fn lemma_backoff_monotone(i: nat, j: nat)
    requires
        i <= j,
    ensures
        backoff_after(i) <= backoff_after(j),
    decreases j - i,
{
    if i < j {
        lemma_backoff_range(i);
        lemma_backoff_monotone(i + 1, j);
    }
}

/// However many throttled replies a batch gets before a `200` or `201` response, each one
/// makes the task wait and send the same batch again without ending it; the waits never
/// shrink and never exceed the ceiling; and the accepted response ends the task, once,
/// with that response's count of accepted operations.
pub proof fn lemma_throttled_then_accepted(
    throttled: Seq<BulkResponse>,
    status: u16,
    response: BulkResponse,
)
    requires
        status == 200 || status == 201,
    ensures
        forall|i: int|
            0 <= i < throttled.len() ==> step_of(
                throttled_state(i as nat),
                throttled_reply(#[trigger] throttled[i]),
            ) == (throttled_state((i + 1) as nat), retry_after(backoff_after(i as nat))),
        forall|i: nat, j: nat| i <= j ==> #[trigger] backoff_after(i) <= #[trigger] backoff_after(j),
        forall|i: nat| #[trigger] backoff_after(i) <= MAX_BACKOFF_SECS,
        step_of(throttled_state(throttled.len()), received(status, response)).1 == finish_with(
            success_total(response) as usize,
        ),
{
    assert forall|i: nat, j: nat| i <= j implies #[trigger] backoff_after(i) <= #[trigger] backoff_after(
        j,
    ) by {
        lemma_backoff_monotone(i, j);
    }
    assert forall|i: nat| #[trigger] backoff_after(i) <= MAX_BACKOFF_SECS by {
        lemma_backoff_range(i);
    }
    assert forall|i: int| 0 <= i < throttled.len() implies step_of(
        throttled_state(i as nat),
        throttled_reply(#[trigger] throttled[i]),
    ) == (throttled_state((i + 1) as nat), retry_after(backoff_after(i as nat))) by {
        assert(backoff_after((i + 1) as nat) == next_backoff(backoff_after(i as nat)));
    }
}

/// A request that the store rejects as bad ends its task at once: no success is counted
/// and the batch is not sent again.
pub proof fn lemma_rejected_not_retried(s: RetryState, response: BulkResponse)
    ensures
        step_of(s, received(BAD_REQUEST, response)) == (s, finish_with(0)),
{
}

} // verus!
