//! Pacing state of the rate-limited download client.
//!
//! Every outbound request of the pipeline goes through one shared
//! `DownloadWrapper`. The wrapper holds the completion time of the most
//! recent request and refuses to let a new one start until a configured
//! minimum interval has elapsed, whatever the outcome of the previous
//! request was. The clock is handed in by the caller as a millisecond
//! reading, so the pacing decisions themselves are fully verified; the
//! caller performs the actual waiting and the network transfer.

use vstd::prelude::*;

verus! {

/// Default minimum spacing between two outbound requests, in milliseconds.
pub const REQUEST_DELAY_MS: u64 = 200;

/// Pacing state shared by all network calls of the pipeline.
///
/// `last_request_ms` is the completion time of the most recent request,
/// as a millisecond clock reading; `min_interval_ms` is the configured
/// minimum spacing. A request may start at time `t` only when
/// `t >= last_request_ms + min_interval_ms`, and its completion time is
/// recorded unconditionally — a failed request still consumes pacing
/// budget.
pub struct DownloadWrapper {
    /// Completion time of the most recent request, in milliseconds.
    pub last_request_ms: u64,
    /// Configured minimum spacing between requests, in milliseconds.
    pub min_interval_ms: u64,
}

impl DownloadWrapper {
    /// A request may start at `now_ms` only when the full interval has
    /// elapsed since the last recorded completion.
    pub open spec fn permits(self, now_ms: u64) -> bool {
        now_ms >= self.last_request_ms + self.min_interval_ms
    }

    /// The pacing state after a request completing at `now_ms` has been
    /// recorded: the completion time moves, the interval is kept.
    pub open spec fn after_completion(self, now_ms: u64) -> DownloadWrapper {
        DownloadWrapper { last_request_ms: now_ms, ..self }
    }

    /// Fresh pacing state with the default interval. `now_ms` is the
    /// current clock reading, so the first request also waits out one
    /// full interval from construction.
    pub fn new(now_ms: u64) -> (c: Self)
        ensures
            c.last_request_ms == now_ms,
            c.min_interval_ms == REQUEST_DELAY_MS,
    {
        DownloadWrapper { last_request_ms: now_ms, min_interval_ms: REQUEST_DELAY_MS }
    }

    /// Fresh pacing state with a caller-chosen interval.
    pub fn with_interval(now_ms: u64, min_interval_ms: u64) -> (c: Self)
        ensures
            c.last_request_ms == now_ms,
            c.min_interval_ms == min_interval_ms,
    {
        DownloadWrapper { last_request_ms: now_ms, min_interval_ms }
    }

    /// Whether a request may start at `now_ms`. A clock reading earlier
    /// than the recorded completion never permits a start.
    pub fn may_start(&self, now_ms: u64) -> (r: bool)
        ensures
            r == self.permits(now_ms),
    {
        now_ms >= self.last_request_ms && now_ms - self.last_request_ms >= self.min_interval_ms
    }

    /// How many milliseconds remain until a request may start, saturated
    /// at `u64::MAX` in the (unreachable in practice) case where the
    /// target time does not fit in the clock's range.
    pub fn wait_ms(&self, now_ms: u64) -> (w: u64)
        ensures
            self.permits(now_ms) ==> w == 0,
            !self.permits(now_ms) ==> w == if self.last_request_ms + self.min_interval_ms
                - now_ms > u64::MAX { u64::MAX as int } else {
                self.last_request_ms + self.min_interval_ms - now_ms
            },
    {
        if self.may_start(now_ms) {
            0
        } else if now_ms >= self.last_request_ms {
            self.min_interval_ms - (now_ms - self.last_request_ms)
        } else {
            match (self.last_request_ms - now_ms).checked_add(self.min_interval_ms) {
                Some(w) => w,
                None => u64::MAX,
            }
        }
    }

    /// Record that a request completed at `now_ms`. Callers invoke this
    /// after every request, successful or failed, so that a failing
    /// endpoint is not hammered.
    pub fn record_completion(&mut self, now_ms: u64)
        ensures
            *final(self) == old(self).after_completion(now_ms),
    {
        self.last_request_ms = now_ms;
    }
}

/// The pacing state after a whole trace of calls has completed. Each call
/// is a pair of its start and completion clock readings; only the
/// completions move the state.
pub open spec fn state_after(c0: DownloadWrapper, calls: Seq<(u64, u64)>) -> DownloadWrapper
    decreases calls.len(),
{
    if calls.len() == 0 {
        c0
    } else {
        state_after(c0, calls.drop_last()).after_completion(calls.last().1)
    }
}

/// A trace is paced when every call started only once the state left by
/// the calls before it permitted a start.
pub open spec fn paced_trace(c0: DownloadWrapper, calls: Seq<(u64, u64)>) -> bool {
    forall|k: int|
        0 <= k < calls.len() ==> #[trigger] state_after(c0, calls.subrange(0, k)).permits(
            calls[k].0,
        )
}

/// Recording completions never changes the configured interval.
pub proof fn lemma_interval_preserved(c0: DownloadWrapper, calls: Seq<(u64, u64)>)
    ensures
        state_after(c0, calls).min_interval_ms == c0.min_interval_ms,
    decreases calls.len(),
{
    if calls.len() > 0 {
        lemma_interval_preserved(c0, calls.drop_last());
    }
}

/// Pacing invariant: in any paced trace of calls through one wrapper, the
/// start of each call lies at least the configured minimum interval after
/// the completion of the call before it.
pub proof fn lemma_pacing_invariant(c0: DownloadWrapper, calls: Seq<(u64, u64)>, k: int)
    requires
        paced_trace(c0, calls),
        0 <= k < calls.len() - 1,
    ensures
        calls[k + 1].0 >= calls[k].1 + c0.min_interval_ms,
{
    let upto = calls.subrange(0, k + 1);
    assert(upto.drop_last() =~= calls.subrange(0, k));
    lemma_interval_preserved(c0, calls.subrange(0, k));
    assert(state_after(c0, upto).permits(calls[k + 1].0));
}

} // verus!
