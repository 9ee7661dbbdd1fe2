//! Readiness prober: the verdict on one status response, and the decision
//! taken after each probe of a bounded, polled wait.
use vstd::prelude::*;

verus! {

/// The marker that a status body holds once the service is ready.
pub open spec fn ready_marker() -> Seq<u8> {
    seq![0x72u8, 0x65u8, 0x61u8, 0x64u8, 0x79u8]
}

/// `pat` occurs in `s` as a contiguous run starting at `i`.
pub open spec fn occurs_at(s: Seq<u8>, pat: Seq<u8>, i: int) -> bool {
    0 <= i && i + pat.len() <= s.len() && s.subrange(i, i + pat.len()) == pat
}

/// `pat` occurs somewhere in `s`.
pub open spec fn contains_seq(s: Seq<u8>, pat: Seq<u8>) -> bool {
    exists|i: int| occurs_at(s, pat, i)
}

pub open spec fn is_success_spec(status: u16) -> bool {
    200 <= status && status < 300
}

/// A status response counts as ready when it is a 2xx and its body holds the
/// marker anywhere; every other response is "not yet".
pub open spec fn response_ready_spec(status: u16, body: Seq<u8>) -> bool {
    is_success_spec(status) && contains_seq(body, ready_marker())
}

/// True when `status` is in the 2xx range.
pub fn is_success_status(status: u16) -> (r: bool)
    ensures
        r == is_success_spec(status),
{
    200 <= status && status < 300
}

/// Whether the marker starts at byte `i` of `body`.
fn marker_at(body: &Vec<u8>, i: usize) -> (r: bool)
    requires
        i + 5 <= body@.len(),
    ensures
        r == occurs_at(body@, ready_marker(), i as int),
{
    let n: usize = body.len();
    assert(i + 5 <= n);
    let r = body[i] == 0x72u8 && body[i + 1] == 0x65u8 && body[i + 2] == 0x61u8
        && body[i + 3] == 0x64u8 && body[i + 4] == 0x79u8;
    assert(r ==> body@.subrange(i as int, i + 5) =~= ready_marker());
    r
}

/// Whether the body of a status response holds the ready marker.
pub fn body_has_ready_marker(body: &Vec<u8>) -> (r: bool)
    ensures
        r == contains_seq(body@, ready_marker()),
{
    if body.len() < 5 {
        assert forall|i: int| !occurs_at(body@, ready_marker(), i) by {}
        return false;
    }
    let n: usize = body.len();
    let last: usize = n - 5;
    let mut i: usize = 0;
    while i <= last
        invariant
            last + 5 == n,
            n == body@.len(),
            i <= last + 1,
            forall|j: int| 0 <= j < i ==> !occurs_at(body@, ready_marker(), j),
        decreases last + 1 - i,
    {
        if marker_at(body, i) {
            return true;
        }
        i = i + 1;
    }
    assert forall|j: int| !occurs_at(body@, ready_marker(), j) by {
        if occurs_at(body@, ready_marker(), j) {
            assert(j <= last);
        }
    }
    false
}

/// The verdict on one status response: a 2xx whose body holds the marker.
pub fn response_is_ready(status: u16, body: &Vec<u8>) -> (r: bool)
    ensures
        r == response_ready_spec(status, body@),
{
    is_success_status(status) && body_has_ready_marker(body)
}

/// The budget of one readiness wait: the overall timeout and the interval
/// between probes, both in milliseconds.
#[derive(Clone, Copy, Debug, PartialEq, Eq, Structural)]
pub struct WaitBudget {
    pub timeout_ms: u64,
    pub poll_ms: u64,
}

/// What the waiting side does after a probe.
#[derive(Clone, Copy, Debug, PartialEq, Eq, Structural)]
pub enum ProbeStep {
    /// The probe reported ready: the wait ends with success.
    Ready,
    /// The budget is spent: the wait ends without success.
    TimedOut,
    /// Sleep this many milliseconds, then probe again.
    Sleep(u64),
}

/// The decision after a probe that completed `elapsed` ms into the wait. The
/// sleep never reaches past the timeout, so the next probe starts within it.
pub open spec fn probe_step_spec(b: WaitBudget, elapsed: int, probe_ready: bool) -> ProbeStep {
    if probe_ready {
        ProbeStep::Ready
    } else if elapsed >= b.timeout_ms {
        ProbeStep::TimedOut
    } else if b.poll_ms <= b.timeout_ms - elapsed {
        ProbeStep::Sleep(b.poll_ms)
    } else {
        ProbeStep::Sleep((b.timeout_ms - elapsed) as u64)
    }
}

/// Decides what follows a probe that completed `elapsed_ms` into the wait.
pub fn next_probe_step(budget: &WaitBudget, elapsed_ms: u64, probe_ready: bool) -> (r: ProbeStep)
    ensures
        r == probe_step_spec(*budget, elapsed_ms as int, probe_ready),
        r matches ProbeStep::Sleep(d) ==> elapsed_ms + d <= budget.timeout_ms,
{
    if probe_ready {
        ProbeStep::Ready
    } else if elapsed_ms >= budget.timeout_ms {
        ProbeStep::TimedOut
    } else if budget.poll_ms <= budget.timeout_ms - elapsed_ms {
        ProbeStep::Sleep(budget.poll_ms)
    } else {
        ProbeStep::Sleep(budget.timeout_ms - elapsed_ms)
    }
}

/// The time, from `start`, at which a wait ends when no probe reports ready and
/// the k-th probe takes `costs[k]` ms; `None` while the probes in `costs` do
/// not yet reach the end.
pub open spec fn never_ready_end(b: WaitBudget, start: int, costs: Seq<int>) -> Option<int>
    decreases costs.len(),
{
    if costs.len() == 0 {
        None
    } else {
        let e = start + costs[0];
        match probe_step_spec(b, e, false) {
            ProbeStep::Sleep(d) => never_ready_end(b, e + d, costs.drop_first()),
            _ => Some(e),
        }
    }
}

proof fn lemma_never_ready_from(b: WaitBudget, start: int, costs: Seq<int>, max_cost: int)
    requires
        b.poll_ms > 0,
        0 <= start <= b.timeout_ms,
        forall|k: int| 0 <= k < costs.len() ==> 0 <= #[trigger] costs[k] <= max_cost,
    ensures
        never_ready_end(b, start, costs) matches Some(e) ==> e <= b.timeout_ms + max_cost,
        costs.len() >= 1 && b.poll_ms * (costs.len() - 1) >= b.timeout_ms - start
            ==> never_ready_end(b, start, costs) is Some,
    decreases costs.len(),
{
    if costs.len() > 0 {
        let e = start + costs[0];
        let rest = costs.drop_first();
        assert forall|k: int| 0 <= k < rest.len() implies 0 <= #[trigger] rest[k] <= max_cost by {
            assert(rest[k] == costs[k + 1]);
        }
        match probe_step_spec(b, e, false) {
            ProbeStep::Sleep(d) => {
                lemma_never_ready_from(b, e + d, rest, max_cost);
                let n = costs.len() - 1;
                if n >= 1 {
                    assert(b.poll_ms * n == b.poll_ms * (n - 1) + b.poll_ms) by (nonlinear_arith);
                }
                if costs.len() >= 1 && b.poll_ms * (costs.len() - 1) >= b.timeout_ms - start {
                    assert(n >= 1) by (nonlinear_arith)
                        requires
                            b.poll_ms * n >= b.timeout_ms - start,
                            b.timeout_ms - start > 0,
                            n >= 0,
                    ;
                }
            },
            _ => {},
        }
    }
}

/// A wait whose probes never report ready ends, timed out, no later than one
/// probe's duration past the timeout; and it has ended once `timeout / poll + 1`
/// probes have been made, so it never runs on indefinitely.
pub proof fn lemma_never_ready_wait_is_bounded(b: WaitBudget, costs: Seq<int>, max_cost: int)
    requires
        b.poll_ms > 0,
        forall|k: int| 0 <= k < costs.len() ==> 0 <= #[trigger] costs[k] <= max_cost,
    ensures
        never_ready_end(b, 0, costs) matches Some(e) ==> e <= b.timeout_ms + max_cost,
        costs.len() >= 1 && b.poll_ms * (costs.len() - 1) >= b.timeout_ms
            ==> never_ready_end(b, 0, costs) is Some,
{
    lemma_never_ready_from(b, 0, costs, max_cost);
}

} // verus!
