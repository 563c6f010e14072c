use vstd::prelude::*;
use vstd::arithmetic::mul::lemma_mul_inequality;
use crate::arith::lemma_mean_fits;
use crate::arith::lemma_sum_seq_push;
use crate::arith::sat64;
use crate::arith::sum_seq;

verus! {

/// Where the total-progress reporter stands: created but not yet polling,
/// waiting for the first byte to arrive, sampling while the transfer runs,
/// or finished because the received total reached the expected total.
#[derive(Debug, Clone, Copy, PartialEq, Eq, Structural)]
pub enum ReporterState {
    Idle,
    Waiting,
    Reporting,
    Done,
}

/// What the reporter asks its driver to do after one step: sleep one poll
/// interval and step again, emit a speed sample and then do the same, or
/// stop polling altogether.
#[derive(Debug, Clone, Copy, PartialEq, Eq, Structural)]
pub enum ReporterAction {
    Sleep,
    Sample,
    Stop,
}

/// One step of the total-progress reporter, from its state and the counters
/// it polls. It stops as soon as the received total has reached the expected
/// total — at once, emitting no sample, if that already holds on its first
/// poll — and otherwise waits for the first byte to arrive, then emits one
/// sample per step while the received total is below the expected total.
pub fn reporter_step(state: ReporterState, received: u64, expected: u64) -> (r: (
    ReporterState,
    ReporterAction,
))
    ensures
        state is Idle ==> r.0 is Waiting && r.1 is Sleep,
        state is Waiting && received >= expected ==> r.0 is Done && r.1 is Stop,
        state is Waiting && received == 0 && received < expected ==> r.0 is Waiting
            && r.1 is Sleep,
        state is Waiting && 0 < received < expected ==> r.0 is Reporting && r.1 is Sleep,
        state is Reporting && received < expected ==> r.0 is Reporting && r.1 is Sample,
        state is Reporting && received >= expected ==> r.0 is Done && r.1 is Stop,
        state is Done ==> r.0 is Done && r.1 is Stop,
{
    match state {
        ReporterState::Idle => (ReporterState::Waiting, ReporterAction::Sleep),
        ReporterState::Waiting => {
            if received >= expected {
                (ReporterState::Done, ReporterAction::Stop)
            } else if received > 0 {
                (ReporterState::Reporting, ReporterAction::Sleep)
            } else {
                (ReporterState::Waiting, ReporterAction::Sleep)
            }
        },
        ReporterState::Reporting => {
            if received < expected {
                (ReporterState::Reporting, ReporterAction::Sample)
            } else {
                (ReporterState::Done, ReporterAction::Stop)
            }
        },
        ReporterState::Done => (ReporterState::Done, ReporterAction::Stop),
    }
}

/// An instantaneous throughput estimate in bytes per second, from the bytes
/// received so far and the wall-clock time elapsed since the transfer phase
/// began.
pub open spec fn speed_of(received: u64, elapsed_micros: u64) -> int {
    received * 1_000_000 / elapsed_micros as int
}

/// One speed sample: the received byte count scaled to bytes per second over
/// the elapsed time, clamped at the counter's range.
pub fn speed_sample(received: u64, elapsed_micros: u64) -> (r: u64)
    requires
        elapsed_micros > 0,
    ensures
        r == sat64(speed_of(received, elapsed_micros)),
{
    proof {
        lemma_mul_inequality(received as int, u64::MAX as int, 1_000_000);
    }
    let wide: u128 = (received as u128) * 1_000_000;
    let q: u128 = wide / (elapsed_micros as u128);
    if q > (u64::MAX as u128) {
        u64::MAX
    } else {
        q as u64
    }
}

/// The reduction at the end of a run: the arithmetic mean of all emitted
/// speed samples, truncating, and a defined zero — not a division error —
/// when no sample was emitted at all.
pub fn reduce_samples(samples: &Vec<u64>) -> (r: u64)
    ensures
        samples@.len() == 0 ==> r == 0,
        samples@.len() > 0 ==> r == sum_seq(samples@) / samples@.len() as int,
{
    if samples.len() == 0 {
        return 0;
    }
    let n: usize = samples.len();
    let mut acc: u128 = 0;
    let mut i: usize = 0;
    while i < n
        invariant
            i <= n,
            n == samples@.len(),
            acc == sum_seq(samples@.take(i as int)),
            acc <= i * (u64::MAX as int),
        decreases n - i,
    {
        let x: u64 = samples[i];
        proof {
            lemma_sum_seq_push(samples@.take(i as int), x);
            assert(samples@.take(i as int + 1) =~= samples@.take(i as int).push(x));
            assert((i as int) * (u64::MAX as int) + u64::MAX == (i as int + 1) * (
            u64::MAX as int)) by (nonlinear_arith);
            lemma_mul_inequality(i as int + 1, 0x1_0000_0000_0000_0000, u64::MAX as int);
        }
        acc = acc + (x as u128);
        i = i + 1;
    }
    proof {
        assert(samples@.take(n as int) =~= samples@);
        lemma_mean_fits(samples@);
    }
    let q: u128 = acc / (n as u128);
    q as u64
}

} // verus!
