//! The scanning core's state: probe outcomes, the permit pool that bounds
//! how many probes run at once, and the orchestrator's aggregation of
//! results into a summary, with its fail-fast abort.
//!
//! The caller drives the actual connection attempts and feeds every
//! outcome back here in arrival order; everything this module decides —
//! counting, the concurrency bound, abort on a task failure — is verified.

use vstd::prelude::*;

use crate::portscan::{PortRange, PortScanError};

verus! {

/// The classified result of one probe. `Open`: the handshake completed in
/// time. `Closed`: refusal, unreachability and timeout, collapsed by
/// design. `Error`: the unit of work itself failed — a scheduling
/// failure, not a connection outcome.
#[derive(Debug, Clone)]
pub enum Outcome {
    Open,
    Closed,
    Error(String),
}

/// The outcome of probing one port.
#[derive(Debug, Clone)]
pub struct ProbeResult {
    pub port: u16,
    pub outcome: Outcome,
}

/// The aggregate of a completed scan. `open_ports` is in arrival order,
/// not numeric order.
#[derive(Debug, Clone)]
pub struct ScanSummary {
    pub total: usize,
    pub open_ports: Vec<u16>,
    pub closed_count: usize,
}

/// The ports of the `Open` results of `rs`, in order.
pub open spec fn open_ports_of(rs: Seq<ProbeResult>) -> Seq<u16>
    decreases rs.len(),
{
    if rs.len() <= 0 {
        Seq::empty()
    } else {
        let pre = open_ports_of(rs.drop_last());
        if rs.last().outcome is Open {
            pre.push(rs.last().port)
        } else {
            pre
        }
    }
}

/// How many results of `rs` are `Closed`.
pub open spec fn closed_count_of(rs: Seq<ProbeResult>) -> int
    decreases rs.len(),
{
    if rs.len() <= 0 {
        0
    } else {
        closed_count_of(rs.drop_last()) + if rs.last().outcome is Closed {
            1int
        } else {
            0int
        }
    }
}

/// A probe-level failure, as opposed to a connection outcome.
pub open spec fn is_failure(r: ProbeResult) -> bool {
    r.outcome is Error
}

/// The message carried by a failed result.
pub open spec fn failure_msg(r: ProbeResult) -> Seq<char> {
    match r.outcome {
        Outcome::Error(m) => m@,
        _ => Seq::empty(),
    }
}

/// Some result of `rs` is a probe-level failure.
pub open spec fn has_failure(rs: Seq<ProbeResult>) -> bool {
    exists|i: int| 0 <= i < rs.len() && is_failure(rs[i])
}

/// `k` is the position of the first failure in `rs`.
pub open spec fn failure_at(rs: Seq<ProbeResult>, k: int) -> bool {
    &&& 0 <= k < rs.len()
    &&& is_failure(rs[k])
    &&& forall|j: int| 0 <= j < k ==> !is_failure(rs[j])
}

/// A counting permit pool: at most `capacity` permits are ever out at
/// once. This is the concurrency limiter's ledger; the caller blocks on
/// its execution substrate while `try_acquire` reports no free permit.
#[derive(Clone, Copy, PartialEq, Eq, Structural, Debug)]
pub struct PermitPool {
    pub capacity: usize,
    pub in_flight: usize,
}

impl PermitPool {
    /// The pool's invariant: the permits out never exceed the capacity
    /// and never go negative (the count is unsigned), and the capacity
    /// is at least one.
    pub open spec fn wf(self) -> bool {
        1 <= self.capacity && self.in_flight <= self.capacity
    }

    pub fn new(capacity: usize) -> (p: Self)
        requires
            capacity >= 1,
        ensures
            p.wf(),
            p.capacity == capacity,
            p.in_flight == 0,
    {
        PermitPool { capacity, in_flight: 0 }
    }

    /// Takes a permit when one is free; a permit is free exactly when
    /// fewer than `capacity` are out.
    pub fn try_acquire(&mut self) -> (ok: bool)
        requires
            old(self).wf(),
        ensures
            final(self).wf(),
            final(self).capacity == old(self).capacity,
            ok == (old(self).in_flight < old(self).capacity),
            ok ==> final(self).in_flight == old(self).in_flight + 1,
            !ok ==> final(self).in_flight == old(self).in_flight,
            final(self).in_flight <= final(self).capacity,
    {
        if self.in_flight < self.capacity {
            self.in_flight = self.in_flight + 1;
            true
        } else {
            false
        }
    }

    /// Returns a held permit to the pool.
    pub fn release(&mut self)
        requires
            old(self).wf(),
            old(self).in_flight >= 1,
        ensures
            final(self).wf(),
            final(self).capacity == old(self).capacity,
            final(self).in_flight == old(self).in_flight - 1,
            final(self).in_flight <= final(self).capacity,
    {
        self.in_flight = self.in_flight - 1;
    }

    /// How many permits are still free.
    pub fn available(&self) -> (n: usize)
        requires
            self.wf(),
        ensures
            n == self.capacity - self.in_flight,
    {
        self.capacity - self.in_flight
    }
}

/// The concurrency bound: a well-formed pool never has more permits out
/// than its configured capacity, whatever the capacity and however many
/// acquisitions and releases led to this state.
pub proof fn lemma_concurrency_bounded(p: PermitPool)
    requires
        p.wf(),
    ensures
        p.in_flight <= p.capacity,
{
}

/// One orchestrator run: `Idle` (nothing recorded yet) becomes
/// `Scanning` as results arrive, then `Completed` once every port of the
/// range has reported, or `Aborted` on the first probe-level failure.
/// There is no way back.
#[derive(Debug, Clone)]
pub struct ScanState {
    pub range: PortRange,
    pub open_ports: Vec<u16>,
    pub closed_count: usize,
    pub total: usize,
    pub aborted: bool,
}

impl ScanState {
    /// The aggregation invariant: every result recorded is either an
    /// open port or a closed count, and no more results were recorded
    /// than the range has ports.
    pub open spec fn wf(self) -> bool {
        &&& self.range.wf()
        &&& self.open_ports@.len() + self.closed_count == self.total
        &&& self.total <= self.range.spec_size()
    }

    /// Every port of the range has reported and no failure occurred.
    pub open spec fn complete(self) -> bool {
        !self.aborted && self.total == self.range.spec_size()
    }

    pub fn new(range: PortRange) -> (s: Self)
        requires
            range.wf(),
        ensures
            s.wf(),
            s.range == range,
            s.open_ports@.len() == 0,
            s.closed_count == 0,
            s.total == 0,
            !s.aborted,
    {
        ScanState { range, open_ports: Vec::new(), closed_count: 0, total: 0, aborted: false }
    }

    /// Folds one probe result into the aggregate: an open port is
    /// appended in arrival order, a closed one is counted, and a
    /// probe-level failure aborts the run at once, yielding the error
    /// and freezing the counters.
    pub fn record(&mut self, r: &ProbeResult) -> (e: Option<PortScanError>)
        requires
            old(self).wf(),
            !old(self).aborted,
            old(self).total < old(self).range.spec_size(),
        ensures
            final(self).wf(),
            final(self).range == old(self).range,
            r.outcome is Open ==> final(self).open_ports@ == old(self).open_ports@.push(r.port)
                && final(self).closed_count == old(self).closed_count
                && final(self).total == old(self).total + 1
                && !final(self).aborted
                && e is None,
            r.outcome is Closed ==> final(self).open_ports@ == old(self).open_ports@
                && final(self).closed_count == old(self).closed_count + 1
                && final(self).total == old(self).total + 1
                && !final(self).aborted
                && e is None,
            is_failure(*r) ==> final(self).open_ports@ == old(self).open_ports@
                && final(self).closed_count == old(self).closed_count
                && final(self).total == old(self).total
                && final(self).aborted
                && (e matches Some(PortScanError::JoinError(m)) && m@ == failure_msg(*r)),
    {
        match &r.outcome {
            Outcome::Open => {
                self.open_ports.push(r.port);
                self.total = self.total + 1;
                None
            },
            Outcome::Closed => {
                self.closed_count = self.closed_count + 1;
                self.total = self.total + 1;
                None
            },
            Outcome::Error(m) => {
                self.aborted = true;
                Some(PortScanError::JoinError(m.clone()))
            },
        }
    }

    /// The final summary, owed exactly on completion: the total equals
    /// the size of the range, and the open ports and the closed count
    /// partition it. An aborted run never yields a summary.
    pub fn summary(&self) -> (r: Option<ScanSummary>)
        requires
            self.wf(),
        ensures
            r is Some <==> self.complete(),
            r matches Some(s) ==> s.total == self.range.end - self.range.start + 1
                && s.open_ports@ == self.open_ports@
                && s.closed_count == self.closed_count
                && s.open_ports@.len() + s.closed_count == s.total,
    {
        if !self.aborted && self.total == self.range.size() {
            let open_ports = self.open_ports.clone();
            proof {
                assert(open_ports@ =~= self.open_ports@);
            }
            Some(
                ScanSummary {
                    total: self.total,
                    open_ports,
                    closed_count: self.closed_count,
                },
            )
        } else {
            None
        }
    }
}

/// Aggregates the probe results of a whole range, in arrival order, as
/// the orchestrator's collection loop does: every port reported exactly
/// once. Without a failure the summary partitions the range into open
/// ports (arrival order) and a closed count; the first probe-level
/// failure aborts the run with its message, and no summary is produced.
pub fn scan_outcomes(range: PortRange, results: &Vec<ProbeResult>) -> (r: Result<
    ScanSummary,
    PortScanError,
>)
    requires
        range.wf(),
        results@.len() == range.spec_size(),
    ensures
        !has_failure(results@) ==> (r matches Ok(s) && s.total == range.end - range.start + 1
            && s.open_ports@ == open_ports_of(results@)
            && s.closed_count == closed_count_of(results@)
            && s.open_ports@.len() + s.closed_count == s.total),
        has_failure(results@) ==> (r matches Err(PortScanError::JoinError(m)) && exists|k: int|
            failure_at(results@, k) && m@ == failure_msg(results@[k])),
{
    let mut state = ScanState::new(range);
    let n = results.len();
    let mut i: usize = 0;
    while i < n
        invariant
            0 <= i <= n,
            n == results@.len(),
            n == range.spec_size(),
            state.wf(),
            state.range == range,
            !state.aborted,
            state.total == i,
            state.open_ports@ == open_ports_of(results@.take(i as int)),
            state.closed_count == closed_count_of(results@.take(i as int)),
            forall|j: int| 0 <= j < i ==> !is_failure(results@[j]),
        decreases n - i,
    {
        proof {
            assert(results@.take(i + 1).drop_last() =~= results@.take(i as int));
        }
        let e = state.record(&results[i]);
        match e {
            Some(err) => {
                proof {
                    assert(failure_at(results@, i as int));
                }
                return Err(err);
            },
            None => {},
        }
        i = i + 1;
    }
    proof {
        assert(results@.take(n as int) =~= results@);
    }
    match state.summary() {
        Some(s) => Ok(s),
        None => vstd::pervasive::unreached(),
    }
}

} // verus!

