//! The supervisor's failover rule.
//!
//! Every task of a live session reports its first failure with the instant
//! it saw it. The first report only arms the debounce: a single transport
//! break tends to trip the reader and the writer together, so the supervisor
//! waits to see the second. A later report more than 100 ms after the one
//! before it rotates to the next host and reconnects; one within 100 ms is
//! the sibling task's duplicate and is ignored. The loop around this rule,
//! and the connections it governs, live outside the library.
use vstd::prelude::*;

verus! {

use vstd::arithmetic::div_mod::{
    lemma_add_mod_noop,
    lemma_mod_twice,
    lemma_small_mod,
};

/// What the supervisor decides on one failure report.
#[derive(Clone, Copy, Debug, PartialEq, Eq, Structural)]
pub enum FailureAction {
    /// First report ever: record it, do not reconnect yet.
    Armed,
    /// A debounced repeat: rotate the host index and reconnect.
    Reconnect,
    /// A duplicate within the debounce window: do nothing.
    Ignored,
}

/// The supervisor's state: whether the stream is open, which host of the
/// directory is active, and when the last failure was reported.
#[derive(Clone, Copy, Debug, PartialEq, Eq, Structural)]
pub struct SessionState {
    /// False once the stream is closed.
    pub active: bool,
    /// The index of the live host; failover walks the directory modulo its
    /// length.
    pub host_index: usize,
    /// The instant of the last failure report, in milliseconds.
    pub last_failure_at: Option<u64>,
    /// How many hosts the directory holds; at least one.
    pub hosts_len: usize,
}

impl SessionState {
    /// A well-formed state points at one of the directory's hosts.
    pub open spec fn wf(self) -> bool {
        &&& self.hosts_len >= 1
        &&& self.host_index < self.hosts_len
    }

    /// The state when a stream over a directory of `hosts_len` hosts opens:
    /// the first host, no failure seen.
    pub fn new(hosts_len: usize) -> (r: Self)
        requires
            hosts_len >= 1,
        ensures
            r == (SessionState {
                active: true,
                host_index: 0,
                last_failure_at: None,
                hosts_len,
            }),
            r.wf(),
    {
        SessionState { active: true, host_index: 0, last_failure_at: None, hosts_len }
    }

    /// Apply one failure report at instant `now`.
    pub open spec fn spec_on_failure(self, now: u64) -> (SessionState, FailureAction) {
        match self.last_failure_at {
            None => (
                SessionState { last_failure_at: Some(now), ..self },
                FailureAction::Armed,
            ),
            Some(prev) => if now - prev > 100 {
                (
                    SessionState {
                        last_failure_at: Some(now),
                        host_index: ((self.host_index + 1) % (self.hosts_len as int)) as usize,
                        ..self
                    },
                    FailureAction::Reconnect,
                )
            } else {
                (SessionState { last_failure_at: Some(now), ..self }, FailureAction::Ignored)
            },
        }
    }

    /// Take one failure report, at instant `now` (milliseconds, monotonic):
    /// record it, and say whether to reconnect. The very first report arms
    /// only; a repeat more than 100 ms after the one before rotates the host
    /// index; a duplicate within 100 ms is ignored.
    pub fn on_failure(&mut self, now: u64) -> (a: FailureAction)
        requires
            old(self).wf(),
            old(self).last_failure_at matches Some(prev) ==> prev <= now,
        ensures
            (*final(self), a) == old(self).spec_on_failure(now),
            final(self).wf(),
            final(self).last_failure_at == Some(now),
            final(self).hosts_len == old(self).hosts_len,
            final(self).active == old(self).active,
    {
        match self.last_failure_at {
            None => {
                self.last_failure_at = Some(now);
                FailureAction::Armed
            },
            Some(prev) => {
                self.last_failure_at = Some(now);
                if now - prev > 100 {
                    self.host_index = (self.host_index + 1) % self.hosts_len;
                    FailureAction::Reconnect
                } else {
                    FailureAction::Ignored
                }
            },
        }
    }

    /// The state with the stream closed.
    pub open spec fn spec_closed(self) -> SessionState {
        SessionState { active: false, ..self }
    }

    /// Close the stream. Closing an already closed stream changes nothing.
    pub fn close(&mut self)
        ensures
            *final(self) == old(self).spec_closed(),
    {
        self.active = false;
    }
}

/// Closing twice is a no-op the second time: the second close leaves the
/// state exactly where the first left it.
pub proof fn lemma_close_idempotent(s: SessionState)
    ensures
        s.spec_closed().spec_closed() == s.spec_closed(),
{
}

/// The state after a sequence of failure reports.
pub open spec fn spec_run_failures(s: SessionState, times: Seq<u64>) -> SessionState
    decreases times.len(),
{
    if times.len() == 0 {
        s
    } else {
        spec_run_failures(s.spec_on_failure(times[0]).0, times.drop_first())
    }
}

/// Failure reports each more than 100 ms after a recorded failure, and more
/// than 100 ms apart, each rotate the host index once.
proof fn lemma_failover_from_armed(s: SessionState, times: Seq<u64>)
    requires
        s.wf(),
        s.last_failure_at is Some,
        forall|i: int| 0 <= i < times.len() - 1 ==> #[trigger] times[i] + 100 < times[i + 1],
        times.len() >= 1 ==> s.last_failure_at->0 + 100 < times[0],
    ensures
        spec_run_failures(s, times).wf(),
        spec_run_failures(s, times).hosts_len == s.hosts_len,
        spec_run_failures(s, times).active == s.active,
        spec_run_failures(s, times).host_index == (s.host_index + times.len()) % (
        s.hosts_len as int),
    decreases times.len(),
{
    let n = s.hosts_len as int;
    if times.len() == 0 {
        lemma_small_mod(s.host_index as nat, s.hosts_len as nat);
    } else {
        let (s1, a) = s.spec_on_failure(times[0]);
        assert(a == FailureAction::Reconnect);
        assert(s1.host_index == (s.host_index + 1) % n);
        let tail = times.drop_first();
        assert(forall|i: int| 0 <= i < tail.len() - 1 ==> #[trigger] tail[i] + 100 < tail[i + 1])
            by {
            assert(forall|i: int| 0 <= i < tail.len() - 1 ==> #[trigger] tail[i] == times[i + 1]
                && tail[i + 1] == times[i + 2]);
        }
        if tail.len() >= 1 {
            assert(times[0] + 100 < times[1]);
        }
        lemma_failover_from_armed(s1, tail);
        let k = tail.len() as int;
        assert(spec_run_failures(s, times).host_index == ((s.host_index + 1) % n + k) % n);
        lemma_mod_twice(s.host_index + 1, n);
        lemma_add_mod_noop((s.host_index + 1) % n, k, n);
        lemma_add_mod_noop(s.host_index + 1, k, n);
        assert(((s.host_index + 1) % n + k) % n == (s.host_index + 1 + k) % n);
    }
}

/// After `k` failure reports, the first at any instant and each later one
/// more than 100 ms after the one before, the host index has advanced by
/// `k - 1` modulo the number of hosts: the first report arms, each later
/// one rotates.
pub proof fn lemma_failover_advances(s: SessionState, times: Seq<u64>)
    requires
        s.wf(),
        s.last_failure_at is None,
        times.len() >= 1,
        forall|i: int| 0 <= i < times.len() - 1 ==> #[trigger] times[i] + 100 < times[i + 1],
    ensures
        spec_run_failures(s, times).wf(),
        spec_run_failures(s, times).hosts_len == s.hosts_len,
        spec_run_failures(s, times).active == s.active,
        spec_run_failures(s, times).host_index == (s.host_index + times.len() - 1) % (
        s.hosts_len as int),
{
    let (s1, a) = s.spec_on_failure(times[0]);
    assert(a == FailureAction::Armed);
    assert(s1.host_index == s.host_index);
    let tail = times.drop_first();
    assert(forall|i: int| 0 <= i < tail.len() - 1 ==> #[trigger] tail[i] + 100 < tail[i + 1]) by {
        assert(forall|i: int| 0 <= i < tail.len() - 1 ==> #[trigger] tail[i] == times[i + 1]
            && tail[i + 1] == times[i + 2]);
    }
    if tail.len() >= 1 {
        assert(times[0] + 100 < times[1]);
    }
    lemma_failover_from_armed(s1, tail);
}

} // verus!
