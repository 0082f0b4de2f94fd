use vstd::prelude::*;

use crate::garbage::{cells_of, empty_cells, empty_rows, garbage_added, lemma_row_round_trip, in_sync, Board, CheeseGenerator, Field, ROWS};
use crate::piece::{all_pieces, fresh_bag, refill, PieceKind, QUEUE_FLOOR};

verus! {

/// The most garbage rows that stand on the field at once.
pub const MAX_CHEESE: usize = 10;

/// The largest goal a trial takes; its counters stay below `usize::MAX`.
pub const MAX_TARGET: usize = usize::MAX - MAX_CHEESE;

/// The search depth that the solver is asked for.
pub const SEARCH_DEPTH: u8 = 2;

/// Microseconds in one unit of the coarse elapsed-time total.
pub const TIME_UNIT_MICROS: u64 = 1_000_100;

/// Where a trial stands.
#[derive(Clone, Copy, Debug, PartialEq, Eq, Structural)]
pub enum Phase {
    Playing,
    Cleared,
    GameOver,
}

/// What a trial reports when it ends.
#[derive(Clone, Copy, Debug, PartialEq, Eq, Structural)]
pub struct TrialMetrics {
    pub pieces_placed: u32,
    pub total_elapsed: u64,
    pub avg_latency: u128,
}

/// What the caller does next.
#[derive(Clone, Copy, Debug, PartialEq, Eq, Structural)]
pub enum Action {
    /// Hand the field, the queue and the hold to the solver, and the outcome
    /// back to `Trial::step`.
    Solve,
    /// The trial is over; these are its metrics.
    Finish(TrialMetrics),
}

/// The solver's answer to one call: the position after its move, the rows
/// that the move cleared, and how long the call took.
#[derive(Debug)]
pub struct Placement {
    pub field: Field,
    pub pieces: Vec<PieceKind>,
    pub hold: PieceKind,
    /// Bit `y` is set when row `y` was cleared.
    pub clears: u32,
    /// The coloured board with the move drawn on it.
    pub board: Board,
    pub latency_micros: u64,
}

/// The smoothed average after a sample `x`, where `n` samples came before:
/// the first sample sets it, each later one halves the distance to itself.
pub open spec fn smooth(avg: int, n: nat, x: int) -> int {
    if n == 0 {
        x
    } else {
        (avg + x) / 2
    }
}

/// Whether `clears` marks row `y` as cleared.
pub open spec fn row_cleared(clears: u32, y: int) -> bool {
    clears & (1u32 << (y as u32)) != 0
}

/// The number of rows in `lo..hi` that `clears` marks as cleared.
pub open spec fn count_cleared(clears: u32, lo: int, hi: int) -> nat
    decreases hi - lo,
{
    if hi <= lo {
        0
    } else {
        count_cleared(clears, lo, hi - 1) + if row_cleared(clears, hi - 1) {
            1nat
        } else {
            0nat
        }
    }
}

/// The garbage rows that a placement clears: the cleared rows among the
/// bottom `cheese_row` rows.
pub open spec fn cheese_cleared(clears: u32, cheese_row: int) -> nat {
    count_cleared(clears, ROWS - cheese_row, ROWS as int)
}

proof fn lemma_count_cleared_bounds(clears: u32, lo: int, hi: int)
    requires
        lo <= hi,
    ensures
        count_cleared(clears, lo, hi) <= hi - lo,
        clears == 0 ==> count_cleared(clears, lo, hi) == 0,
    decreases hi - lo,
{
    if lo < hi {
        lemma_count_cleared_bounds(clears, lo, hi - 1);
        let s = (hi - 1) as u32;
        assert(0u32 & (1u32 << s) == 0) by (bit_vector);
    }
}

/// Counts the garbage rows that a placement cleared.
pub fn count_cheese_cleared(clears: u32, cheese_row: usize) -> (k: usize)
    requires
        cheese_row <= MAX_CHEESE,
    ensures
        k == cheese_cleared(clears, cheese_row as int),
        k <= cheese_row,
        clears == 0 ==> k == 0,
{
    let mut k: usize = 0;
    let mut y: usize = ROWS - cheese_row;
    proof {
        lemma_count_cleared_bounds(clears, ROWS - cheese_row, ROWS as int);
    }
    while y < ROWS
        invariant
            ROWS - cheese_row <= y <= ROWS,
            cheese_row <= MAX_CHEESE,
            k == count_cleared(clears, ROWS - cheese_row, y as int),
            k <= y - (ROWS - cheese_row),
        decreases ROWS - y,
    {
        if clears & (1u32 << (y as u32)) != 0 {
            k = k + 1;
        }
        y = y + 1;
    }
    k
}

/// Folds a latency sample into the smoothed average, where `samples` samples
/// came before.
pub fn fold_latency(avg: u128, samples: u32, dt: u64) -> (r: u128)
    requires
        avg <= u64::MAX,
    ensures
        r == smooth(avg as int, samples as nat, dt as int),
        r <= u64::MAX,
{
    if samples == 0 {
        dt as u128
    } else {
        (avg + dt as u128) / 2
    }
}

/// One trial of the cheese race: the position handed to the solver, the
/// coloured board, the garbage budget and the running measurements.
#[derive(Debug)]
pub struct Trial {
    pub target_lines: usize,
    /// Garbage rows at the bottom of the field not cleared yet.
    pub cheese_row: usize,
    /// Garbage rows cleared so far.
    pub cheese_clears: usize,
    pub pieces_placed: u32,
    pub total_elapsed: u64,
    pub avg_latency: u128,
    pub phase: Phase,
    pub field: Field,
    pub board: Board,
    pub pieces: Vec<PieceKind>,
    pub hold: PieceKind,
    pub bag: Vec<PieceKind>,
    pub generator: CheeseGenerator,
}

/// The action that stands for a trial in phase `phase` with metrics `m`.
pub open spec fn action_for(phase: Phase, m: TrialMetrics) -> Action {
    if phase == Phase::Playing {
        Action::Solve
    } else {
        Action::Finish(m)
    }
}

/// The phase once `cheese_clears` garbage rows are cleared of a goal of
/// `target_lines`.
pub open spec fn phase_for(cheese_clears: int, target_lines: int) -> Phase {
    if cheese_clears < target_lines {
        Phase::Playing
    } else {
        Phase::Cleared
    }
}

/// Whether a placement with these clears tops the garbage up: it cleared no
/// row, fewer than `MAX_CHEESE` garbage rows stand, and the goal leaves room
/// for more.
pub open spec fn tops_up(clears: u32, cheese_row: int, cheese_clears: int, target_lines: int) -> bool {
    clears == 0 && cheese_row < MAX_CHEESE && cheese_clears + cheese_row < target_lines
}

/// `t1` is `t0` after the solver answered with placement `p`.
pub open spec fn placed(t0: Trial, p: Placement, t1: Trial) -> bool {
    let k = cheese_cleared(p.clears, t0.cheese_row as int);
    let clears = t0.cheese_clears + k;
    let row = t0.cheese_row - k;
    let added = if tops_up(p.clears, row, clears, t0.target_lines as int) {
        MAX_CHEESE - row
    } else {
        0
    };
    &&& t1.target_lines == t0.target_lines
    &&& t1.cheese_clears == clears
    &&& t1.cheese_row == row + added
    &&& t1.pieces_placed == t0.pieces_placed + 1
    &&& t1.total_elapsed == t0.total_elapsed + p.latency_micros / TIME_UNIT_MICROS
    &&& t1.avg_latency == smooth(t0.avg_latency as int, t0.pieces_placed as nat, p.latency_micros as int)
    &&& t1.phase == phase_for(clears, t0.target_lines as int)
    &&& t1.hold == p.hold
    &&& garbage_added(p.field.rows@, p.board.cells(), t1.field.rows@, t1.board.cells(), added)
    &&& t1.pieces@.subrange(0, p.pieces.len() as int) == p.pieces@
    &&& (p.pieces.len() >= QUEUE_FLOOR || t1.phase != Phase::Playing ==> t1.pieces@ == p.pieces@)
    &&& all_pieces(t1.pieces@.subrange(p.pieces.len() as int, t1.pieces.len() as int))
}

impl Trial {
    pub open spec fn wf(&self) -> bool {
        &&& self.target_lines <= MAX_TARGET
        &&& self.cheese_row <= MAX_CHEESE
        &&& self.cheese_clears + self.cheese_row <= self.target_lines + MAX_CHEESE
        &&& self.avg_latency <= u64::MAX
        &&& self.field.wf()
        &&& self.board.wf()
        &&& all_pieces(self.bag@)
        &&& (self.phase == Phase::Playing ==> self.pieces.len() >= QUEUE_FLOOR && self.cheese_clears
            < self.target_lines)
        &&& (self.phase == Phase::Cleared ==> self.cheese_clears >= self.target_lines)
    }

    pub open spec fn metrics_spec(&self) -> TrialMetrics {
        TrialMetrics {
            pieces_placed: self.pieces_placed,
            total_elapsed: self.total_elapsed,
            avg_latency: self.avg_latency,
        }
    }

    /// A fresh trial with a goal of `target_lines` garbage rows: the bottom
    /// `min(10, target_lines)` rows are garbage and the queue is filled.
    pub fn new(target_lines: usize) -> (t: Trial)
        requires
            target_lines <= MAX_TARGET,
        ensures
            t.wf(),
            t.target_lines == target_lines,
            t.cheese_row == if target_lines < MAX_CHEESE { target_lines } else { MAX_CHEESE },
            t.cheese_clears == 0,
            t.pieces_placed == 0,
            t.total_elapsed == 0,
            t.avg_latency == 0,
            t.phase == phase_for(0, target_lines as int),
            t.hold == PieceKind::Empty,
            t.pieces.len() >= QUEUE_FLOOR,
            all_pieces(t.pieces@),
            in_sync(t.field, t.board),
            garbage_added(empty_rows(), empty_cells(), t.field.rows@, t.board.cells(), t.cheese_row as int),
    {
        let cheese_row: usize = if target_lines < MAX_CHEESE {
            target_lines
        } else {
            MAX_CHEESE
        };
        let mut field = Field::new();
        let mut board = Board::new();
        let mut generator = CheeseGenerator::new();
        proof {
            lemma_row_round_trip(0);
            assert(forall|y: int| 0 <= y < ROWS ==> #[trigger] board.cells()[y] == cells_of(0));
            assert(in_sync(field, board));
        }
        generator.spawn_rows(&mut field, &mut board, cheese_row);
        let mut bag = fresh_bag();
        let mut pieces: Vec<PieceKind> = Vec::new();
        refill(&mut pieces, &mut bag);
        assert(pieces@.subrange(0, pieces.len() as int) =~= pieces@);
        let phase = if 0 < target_lines {
            Phase::Playing
        } else {
            Phase::Cleared
        };
        Trial {
            target_lines,
            cheese_row,
            cheese_clears: 0,
            pieces_placed: 0,
            total_elapsed: 0,
            avg_latency: 0,
            phase,
            field,
            board,
            pieces,
            hold: PieceKind::Empty,
            bag,
            generator,
        }
    }

    /// The metrics measured so far.
    pub fn metrics(&self) -> (m: TrialMetrics)
        ensures
            m == self.metrics_spec(),
    {
        TrialMetrics {
            pieces_placed: self.pieces_placed,
            total_elapsed: self.total_elapsed,
            avg_latency: self.avg_latency,
        }
    }

    /// What the caller does next: ask the solver while the trial is playing,
    /// else report the metrics.
    pub fn next_action(&self) -> (a: Action)
        ensures
            a == action_for(self.phase, self.metrics_spec()),
    {
        match self.phase {
            Phase::Playing => Action::Solve,
            _ => Action::Finish(self.metrics()),
        }
    }

    /// Takes the solver's outcome for the current position. No outcome ends
    /// the trial in `GameOver` with nothing else changed. A placement is
    /// measured, its cleared garbage rows are counted, its position replaces
    /// the trial's, the garbage is topped up to `MAX_CHEESE` rows where the
    /// placement cleared nothing and the goal leaves room, and the trial ends
    /// `Cleared` once the goal is met; while it goes on the queue is refilled.
    pub fn step(&mut self, outcome: Option<Placement>) -> (a: Action)
        requires
            old(self).wf(),
            old(self).phase == Phase::Playing,
            old(self).pieces_placed < u32::MAX,
            match outcome {
                Some(p) => p.field.wf() && p.board.wf() && old(self).total_elapsed + p.latency_micros
                    / TIME_UNIT_MICROS <= u64::MAX,
                None => true,
            },
        ensures
            final(self).wf(),
            a == action_for(final(self).phase, final(self).metrics_spec()),
            final(self).target_lines == old(self).target_lines,
            final(self).cheese_clears >= old(self).cheese_clears,
            outcome is None ==> *final(self) == (Trial { phase: Phase::GameOver, ..*old(self) }),
            match outcome {
                Some(p) => placed(*old(self), p, *final(self)),
                None => true,
            },
    {
        match outcome {
            None => {
                self.phase = Phase::GameOver;
            },
            Some(p) => {
                let Placement { field, pieces, hold, clears, board, latency_micros } = p;
                self.total_elapsed = self.total_elapsed + latency_micros / TIME_UNIT_MICROS;
                self.avg_latency = fold_latency(self.avg_latency, self.pieces_placed, latency_micros);
                let k = count_cheese_cleared(clears, self.cheese_row);
                self.cheese_row = self.cheese_row - k;
                self.cheese_clears = self.cheese_clears + k;
                self.field = field;
                self.board = board;
                self.pieces = pieces;
                self.hold = hold;
                if clears == 0 && self.cheese_row < MAX_CHEESE && self.cheese_clears + self.cheese_row
                    < self.target_lines {
                    let n = MAX_CHEESE - self.cheese_row;
                    self.generator.spawn_rows(&mut self.field, &mut self.board, n);
                    self.cheese_row = MAX_CHEESE;
                } else {
                    let ghost f = self.field.rows@;
                    let ghost b = self.board.cells();
                    assert(f.subrange(0, ROWS as int) =~= f);
                    assert(b.subrange(0, ROWS as int) =~= b);
                }
                self.pieces_placed = self.pieces_placed + 1;
                let ghost q = self.pieces@;
                if self.cheese_clears < self.target_lines {
                    self.phase = Phase::Playing;
                    refill(&mut self.pieces, &mut self.bag);
                } else {
                    self.phase = Phase::Cleared;
                    assert(q.subrange(0, q.len() as int) =~= q);
                    assert(q.subrange(q.len() as int, q.len() as int) =~= Seq::<PieceKind>::empty());
                }
            },
        }
        self.next_action()
    }
}

} // verus!
