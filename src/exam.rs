use vstd::prelude::*;

use crate::trial::{smooth, TrialMetrics};

verus! {

/// Averages are fixed-point numbers: this many units make one.
pub const SCALE: u128 = 0x1_0000_0000;

/// Microseconds in a second.
pub const MICROS_PER_SECOND: u128 = 1_000_000;

/// The placements per second of a trial whose average latency is
/// `avg_latency` microseconds, in units of `1 / SCALE`; `None` stands for
/// an unbounded rate, at zero latency.
pub open spec fn throughput_spec(avg_latency: u128) -> Option<u128> {
    if avg_latency == 0 {
        None
    } else {
        Some(((MICROS_PER_SECOND * SCALE) as int / avg_latency as int) as u128)
    }
}

/// The smoothed rate after a sample `x`, where `n` samples came before; an
/// unbounded rate stays unbounded.
pub open spec fn smooth_rate(avg: Option<u128>, n: nat, x: Option<u128>) -> Option<u128> {
    if n == 0 {
        x
    } else {
        match (avg, x) {
            (Some(a), Some(b)) => Some(((a + b) / 2) as u128),
            _ => None,
        }
    }
}

/// The running statistics of an exam: smoothed averages (in units of
/// `1 / SCALE`), maxima and minima of the pieces placed and of the elapsed
/// time, and the smoothed throughput.
#[derive(Clone, Copy, Debug, PartialEq, Eq, Structural)]
pub struct ExamSummary {
    pub trials: usize,
    pub avg_pieces: u128,
    pub max_pieces: u32,
    pub min_pieces: u32,
    pub avg_elapsed: u128,
    pub max_elapsed: u64,
    pub min_elapsed: u64,
    pub avg_throughput: Option<u128>,
}

/// The summary of an exam before its first trial.
pub open spec fn empty_summary() -> ExamSummary {
    ExamSummary {
        trials: 0,
        avg_pieces: 0,
        max_pieces: 0,
        min_pieces: 0,
        avg_elapsed: 0,
        max_elapsed: 0,
        min_elapsed: 0,
        avg_throughput: None,
    }
}

/// `s` with the metrics `m` of one more trial folded in.
pub open spec fn recorded(s: ExamSummary, m: TrialMetrics) -> ExamSummary {
    let first = s.trials == 0;
    ExamSummary {
        trials: (s.trials + 1) as usize,
        avg_pieces: smooth(s.avg_pieces as int, s.trials as nat, m.pieces_placed * SCALE) as u128,
        max_pieces: if first || m.pieces_placed > s.max_pieces {
            m.pieces_placed
        } else {
            s.max_pieces
        },
        min_pieces: if first || m.pieces_placed < s.min_pieces {
            m.pieces_placed
        } else {
            s.min_pieces
        },
        avg_elapsed: smooth(s.avg_elapsed as int, s.trials as nat, m.total_elapsed * SCALE) as u128,
        max_elapsed: if first || m.total_elapsed > s.max_elapsed {
            m.total_elapsed
        } else {
            s.max_elapsed
        },
        min_elapsed: if first || m.total_elapsed < s.min_elapsed {
            m.total_elapsed
        } else {
            s.min_elapsed
        },
        avg_throughput: smooth_rate(s.avg_throughput, s.trials as nat, throughput_spec(m.avg_latency)),
    }
}

/// The throughput of a trial whose average latency is `avg_latency`.
pub fn throughput(avg_latency: u128) -> (r: Option<u128>)
    ensures
        r == throughput_spec(avg_latency),
{
    if avg_latency == 0 {
        None
    } else {
        Some((MICROS_PER_SECOND * SCALE) / avg_latency)
    }
}

impl ExamSummary {
    pub open spec fn wf(&self) -> bool {
        &&& self.avg_pieces <= u32::MAX * SCALE
        &&& self.avg_elapsed <= u64::MAX * SCALE
        &&& (self.avg_throughput matches Some(v) ==> v <= MICROS_PER_SECOND * SCALE)
    }

    /// The summary before the first trial.
    pub fn new() -> (s: ExamSummary)
        ensures
            s == empty_summary(),
            s.wf(),
    {
        ExamSummary {
            trials: 0,
            avg_pieces: 0,
            max_pieces: 0,
            min_pieces: 0,
            avg_elapsed: 0,
            max_elapsed: 0,
            min_elapsed: 0,
            avg_throughput: None,
        }
    }

    /// Folds the metrics of one more trial in.
    pub fn record(&mut self, m: TrialMetrics)
        requires
            old(self).wf(),
            old(self).trials < usize::MAX,
        ensures
            final(self).wf(),
            *final(self) == recorded(*old(self), m),
    {
        let first = self.trials == 0;
        let pieces = m.pieces_placed as u128 * SCALE;
        let elapsed = m.total_elapsed as u128 * SCALE;
        let rate = throughput(m.avg_latency);
        assert(pieces <= u32::MAX * SCALE) by (nonlinear_arith)
            requires
                pieces == m.pieces_placed * SCALE,
                m.pieces_placed <= u32::MAX,
        ;
        assert(elapsed <= u64::MAX * SCALE) by (nonlinear_arith)
            requires
                elapsed == m.total_elapsed * SCALE,
                m.total_elapsed <= u64::MAX,
        ;
        self.avg_pieces = if first {
            pieces
        } else {
            (self.avg_pieces + pieces) / 2
        };
        self.avg_elapsed = if first {
            elapsed
        } else {
            (self.avg_elapsed + elapsed) / 2
        };
        if first || m.pieces_placed > self.max_pieces {
            self.max_pieces = m.pieces_placed;
        }
        if first || m.pieces_placed < self.min_pieces {
            self.min_pieces = m.pieces_placed;
        }
        if first || m.total_elapsed > self.max_elapsed {
            self.max_elapsed = m.total_elapsed;
        }
        if first || m.total_elapsed < self.min_elapsed {
            self.min_elapsed = m.total_elapsed;
        }
        self.avg_throughput = if first {
            rate
        } else {
            match (self.avg_throughput, rate) {
                (Some(a), Some(b)) => Some((a + b) / 2),
                _ => None,
            }
        };
        self.trials = self.trials + 1;
    }
}

/// An exam of a single trial sums that trial up exactly: each average, each
/// maximum and each minimum is the trial's own value.
pub proof fn lemma_single_trial_summary(m: TrialMetrics)
    ensures
        recorded(empty_summary(), m).trials == 1,
        recorded(empty_summary(), m).avg_pieces == m.pieces_placed * SCALE,
        recorded(empty_summary(), m).max_pieces == m.pieces_placed,
        recorded(empty_summary(), m).min_pieces == m.pieces_placed,
        recorded(empty_summary(), m).avg_elapsed == m.total_elapsed * SCALE,
        recorded(empty_summary(), m).max_elapsed == m.total_elapsed,
        recorded(empty_summary(), m).min_elapsed == m.total_elapsed,
        recorded(empty_summary(), m).avg_throughput == throughput_spec(m.avg_latency),
{
    assert(m.pieces_placed * SCALE <= u32::MAX * SCALE) by (nonlinear_arith)
        requires
            m.pieces_placed <= u32::MAX,
    ;
    assert(m.total_elapsed * SCALE <= u64::MAX * SCALE) by (nonlinear_arith)
        requires
            m.total_elapsed <= u64::MAX,
    ;
}

} // verus!
