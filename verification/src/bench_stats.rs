//! Counters shared by the benchmark workers, and the merge of their
//! latency samples.

use vstd::prelude::*;
use std::sync::atomic::{AtomicBool, AtomicU64, Ordering};
use std::time::{Duration, Instant};
use crate::clock::{instant_elapsed, instant_now};

verus! {

/// Calls `slice::sort_unstable` on the samples. Claims what the method's
/// documentation says: the result holds the same values, in ascending order
/// (the order of `u64`).
#[verifier::external_body]
fn sort_samples(samples: &mut Vec<u64>)
    ensures
        final(samples)@.to_multiset() == old(samples)@.to_multiset(),
        final(samples)@.len() == old(samples)@.len(),
        sorted(final(samples)@),
{
    samples.sort_unstable()
}

/// Whether the values are in ascending order.
pub open spec fn sorted(s: Seq<u64>) -> bool {
    forall|i: int, j: int| 0 <= i <= j < s.len() ==> s[i] <= s[j]
}

/// Counters updated concurrently by every worker of a benchmark run.
pub struct BenchStats {
    pub messages_sent: AtomicU64,
    pub messages_acked: AtomicU64,
    pub errors: AtomicU64,
    pub socket_errors: AtomicU64,
    pub connect_errors: AtomicU64,
    pub send_errors: AtomicU64,
    pub receive_errors: AtomicU64,
    pub mqtt_errors: AtomicU64,
    pub clients_connected: AtomicU64,
    pub clients_done: AtomicU64,
    pub start_time: Instant,
    pub stopped: AtomicBool,
}

/// The category of a benchmark error.
#[derive(Clone, Copy)]
pub enum ErrorKind {
    Socket,
    Connect,
    Send,
    Receive,
    Mqtt,
}

impl BenchStats {
    /// Fresh counters, all zero, with the clock started now.
    pub fn new() -> Self {
        BenchStats {
            messages_sent: AtomicU64::new(0),
            messages_acked: AtomicU64::new(0),
            errors: AtomicU64::new(0),
            socket_errors: AtomicU64::new(0),
            connect_errors: AtomicU64::new(0),
            send_errors: AtomicU64::new(0),
            receive_errors: AtomicU64::new(0),
            mqtt_errors: AtomicU64::new(0),
            clients_connected: AtomicU64::new(0),
            clients_done: AtomicU64::new(0),
            start_time: instant_now(),
            stopped: AtomicBool::new(false),
        }
    }

    /// The per-kind counter that an error of `kind` increments.
    pub fn counter_for(&self, kind: ErrorKind) -> (r: &AtomicU64)
        ensures
            *r == match kind {
                ErrorKind::Socket => self.socket_errors,
                ErrorKind::Connect => self.connect_errors,
                ErrorKind::Send => self.send_errors,
                ErrorKind::Receive => self.receive_errors,
                ErrorKind::Mqtt => self.mqtt_errors,
            },
    {
        match kind {
            ErrorKind::Socket => &self.socket_errors,
            ErrorKind::Connect => &self.connect_errors,
            ErrorKind::Send => &self.send_errors,
            ErrorKind::Receive => &self.receive_errors,
            ErrorKind::Mqtt => &self.mqtt_errors,
        }
    }

    /// Counts one error in the total and in the counter of its kind.
    pub fn record_error(&self, kind: ErrorKind) {
        self.errors.fetch_add(1, Ordering::Relaxed);
        self.counter_for(kind).fetch_add(1, Ordering::Relaxed);
    }

    /// Reads every counter and the time elapsed since the start.
    pub fn snapshot(&self) -> StatsSnapshot {
        StatsSnapshot {
            sent: self.messages_sent.load(Ordering::Relaxed),
            acked: self.messages_acked.load(Ordering::Relaxed),
            errors: self.errors.load(Ordering::Relaxed),
            socket_errors: self.socket_errors.load(Ordering::Relaxed),
            connect_errors: self.connect_errors.load(Ordering::Relaxed),
            send_errors: self.send_errors.load(Ordering::Relaxed),
            receive_errors: self.receive_errors.load(Ordering::Relaxed),
            mqtt_errors: self.mqtt_errors.load(Ordering::Relaxed),
            connected: self.clients_connected.load(Ordering::Relaxed),
            done: self.clients_done.load(Ordering::Relaxed),
            elapsed: instant_elapsed(&self.start_time),
        }
    }
}

/// A point-in-time copy of the counters.
pub struct StatsSnapshot {
    pub sent: u64,
    pub acked: u64,
    pub errors: u64,
    pub socket_errors: u64,
    pub connect_errors: u64,
    pub send_errors: u64,
    pub receive_errors: u64,
    pub mqtt_errors: u64,
    pub connected: u64,
    pub done: u64,
    pub elapsed: Duration,
}

/// The samples of every worker, one after another.
pub open spec fn concat_samples(workers: Seq<Vec<u64>>) -> Seq<u64>
    decreases workers.len(),
{
    if workers.len() == 0 {
        seq![]
    } else {
        concat_samples(workers.drop_last()) + workers.last()@
    }
}

/// All latency samples of all workers, in nanoseconds, sorted in
/// ascending order.
pub fn merge_latency_samples(worker_samples: Vec<Vec<u64>>) -> (r: Vec<u64>)
    ensures
        r@.to_multiset() == concat_samples(worker_samples@).to_multiset(),
        r@.len() == concat_samples(worker_samples@).len(),
        sorted(r@),
{
    let mut merged: Vec<u64> = Vec::new();
    let mut i: usize = 0;
    while i < worker_samples.len()
        invariant
            i <= worker_samples@.len(),
            merged@ == concat_samples(worker_samples@.take(i as int)),
        decreases worker_samples@.len() - i,
    {
        let mut j: usize = 0;
        while j < worker_samples[i].len()
            invariant
                i < worker_samples@.len(),
                j <= worker_samples@[i as int]@.len(),
                merged@ == concat_samples(worker_samples@.take(i as int))
                    + worker_samples@[i as int]@.take(j as int),
            decreases worker_samples@[i as int]@.len() - j,
        {
            merged.push(worker_samples[i][j]);
            proof {
                assert(worker_samples@[i as int]@.take(j + 1)
                    == worker_samples@[i as int]@.take(j as int).push(worker_samples@[i as int]@[j as int]));
            }
            j += 1;
        }
        proof {
            assert(worker_samples@.take(i + 1).drop_last() == worker_samples@.take(i as int));
            assert(worker_samples@[i as int]@.take(j as int) == worker_samples@[i as int]@);
        }
        i += 1;
    }
    assert(worker_samples@.take(i as int) == worker_samples@);
    sort_samples(&mut merged);
    merged
}

} // verus!
