use cheese_race::exam::{throughput, ExamSummary, SCALE};
use cheese_race::garbage::{
    next_gap, push_garbage_row, row_cells, row_mask, Board, CheeseGenerator, Field, GARBAGE, ROWS,
};
use cheese_race::piece::{draw, fresh_bag, refill, take_from_bag, PieceKind, QUEUE_FLOOR};
use cheese_race::trial::{
    count_cheese_cleared, fold_latency, Action, Phase, Placement, Trial, TrialMetrics, MAX_CHEESE,
};

fn in_sync(field: &Field, board: &Board) -> bool {
    board.occupancy().rows == field.rows
}

fn zero_bits(m: u16) -> Vec<u16> {
    (0..10u16).filter(|x| m & (1 << x) == 0).collect()
}

/// A scripted solver answer: the bottom row is cleared when `clear_bottom`
/// holds, else the position stays as it is.
fn scripted(t: &Trial, clear_bottom: bool, latency_micros: u64) -> Placement {
    let mut field = t.field.clone();
    let mut board = t.board.clone();
    let mut clears: u32 = 0;
    if clear_bottom {
        field.rows.pop();
        field.rows.insert(0, 0);
        board.rows.pop();
        board.rows.insert(0, vec![PieceKind::Empty; 10]);
        clears = 1 << 19;
    }
    let mut pieces = t.pieces.clone();
    pieces.remove(0);
    Placement { field, pieces, hold: t.hold, clears, board, latency_micros }
}

#[test]
fn zero_target_is_cleared_at_once() {
    let t = Trial::new(0);
    assert_eq!(t.phase, Phase::Cleared);
    assert_eq!(t.cheese_row, 0);
    assert_eq!(t.pieces_placed, 0);
    assert!(t.field.rows.iter().all(|r| *r == 0));
    assert_eq!(
        t.next_action(),
        Action::Finish(TrialMetrics { pieces_placed: 0, total_elapsed: 0, avg_latency: 0 })
    );
}

#[test]
fn new_trial_seeds_garbage() {
    let t = Trial::new(4);
    assert_eq!(t.phase, Phase::Playing);
    assert_eq!(t.cheese_row, 4);
    assert!(t.pieces.len() >= QUEUE_FLOOR);
    assert!(in_sync(&t.field, &t.board));
    for y in 0..ROWS {
        if y < ROWS - 4 {
            assert_eq!(t.field.rows[y], 0);
        } else {
            assert_eq!(zero_bits(t.field.rows[y]).len(), 1);
        }
    }
    let big = Trial::new(25);
    assert_eq!(big.cheese_row, MAX_CHEESE);
}

#[test]
fn clearing_the_bottom_row_each_time_meets_the_goal() {
    let mut t = Trial::new(10);
    let mut placed = 0;
    while t.phase == Phase::Playing {
        let p = scripted(&t, true, 100);
        t.step(Some(p));
        placed += 1;
        assert!(t.cheese_row <= MAX_CHEESE);
        assert!(t.phase != Phase::Playing || t.pieces.len() >= QUEUE_FLOOR);
    }
    assert_eq!(placed, 10);
    assert_eq!(t.cheese_clears, 10);
    assert_eq!(t.cheese_row, 0);
    assert_eq!(t.phase, Phase::Cleared);
    assert_eq!(t.pieces_placed, 10);
    assert!(t.field.rows.iter().all(|r| *r == 0));
}

#[test]
fn no_result_is_game_over() {
    let mut t = Trial::new(10);
    let a = t.step(None);
    assert_eq!(t.phase, Phase::GameOver);
    assert_eq!(t.pieces_placed, 0);
    assert_eq!(a, Action::Finish(TrialMetrics { pieces_placed: 0, total_elapsed: 0, avg_latency: 0 }));
}

#[test]
fn a_placement_that_clears_nothing_tops_garbage_up() {
    let mut t = Trial::new(20);
    for _ in 0..7 {
        let p = scripted(&t, true, 100);
        t.step(Some(p));
    }
    assert_eq!(t.cheese_row, 3);
    assert_eq!(t.cheese_clears, 7);
    let p = scripted(&t, false, 100);
    let a = t.step(Some(p));
    assert_eq!(a, Action::Solve);
    assert_eq!(t.cheese_row, 10);
    assert_eq!(t.cheese_clears, 7);
    assert!(in_sync(&t.field, &t.board));
    for y in ROWS - 10..ROWS {
        assert_eq!(zero_bits(t.field.rows[y]).len(), 1);
    }
    for y in ROWS - 6..ROWS {
        assert_ne!(zero_bits(t.field.rows[y - 1]), zero_bits(t.field.rows[y]));
    }
}

#[test]
fn no_top_up_when_the_goal_is_covered() {
    let mut t = Trial::new(15);
    for _ in 0..5 {
        let p = scripted(&t, true, 100);
        t.step(Some(p));
    }
    assert_eq!(t.cheese_row, 5);
    let p = scripted(&t, false, 100);
    t.step(Some(p));
    assert_eq!(t.cheese_row, 10);
    let p = scripted(&t, true, 100);
    t.step(Some(p));
    assert_eq!(t.cheese_row, 9);
    assert_eq!(t.cheese_clears, 6);
    let field_before = t.field.rows.clone();
    let p = scripted(&t, false, 100);
    t.step(Some(p));
    assert_eq!(t.cheese_row, 9);
    assert_eq!(t.field.rows, field_before);
    assert_eq!(t.pieces_placed, 8);
}

#[test]
fn latency_is_smoothed_and_bucketed() {
    let mut t = Trial::new(3);
    let p = scripted(&t, false, 2_000_200);
    t.step(Some(p));
    assert_eq!(t.total_elapsed, 2);
    assert_eq!(t.avg_latency, 2_000_200);
    let p = scripted(&t, false, 1_000_000);
    t.step(Some(p));
    assert_eq!(t.total_elapsed, 2);
    assert_eq!(t.avg_latency, 1_500_100);
    let p = scripted(&t, false, 100);
    t.step(Some(p));
    assert_eq!(t.avg_latency, 750_100);
    assert_eq!(t.metrics(), TrialMetrics { pieces_placed: 3, total_elapsed: 2, avg_latency: 750_100 });
    assert_eq!(fold_latency(0, 0, 7), 7);
    assert_eq!(fold_latency(10, 4, 3), 6);
}

#[test]
fn cleared_cheese_counts_only_bottom_rows() {
    assert_eq!(count_cheese_cleared(1 << 19, 3), 1);
    assert_eq!(count_cheese_cleared((1 << 19) | (1 << 18) | (1 << 5), 3), 2);
    assert_eq!(count_cheese_cleared(1 << 16, 3), 0);
    assert_eq!(count_cheese_cleared(0, 10), 0);
    assert_eq!(count_cheese_cleared(0xf_ffff, 10), 10);
    assert_eq!(count_cheese_cleared(0xf_ffff, 0), 0);
}

#[test]
fn garbage_rows_have_one_gap_that_moves() {
    let mut field = Field::new();
    let mut board = Board::new();
    let mut g = CheeseGenerator::new();
    let mut prev = g.last_gap;
    for _ in 0..200 {
        let gap = g.spawn_cheese(&mut field, &mut board);
        assert!(gap < 10);
        assert_ne!(gap, prev);
        assert_eq!(g.last_gap, gap);
        assert_eq!(zero_bits(field.rows[ROWS - 1]), vec![gap as u16]);
        assert!(in_sync(&field, &board));
        prev = gap;
    }
}

#[test]
fn next_gap_skips_the_last_one() {
    assert_eq!(next_gap(0, 0), 1);
    assert_eq!(next_gap(0, 8), 9);
    assert_eq!(next_gap(5, 4), 4);
    assert_eq!(next_gap(5, 5), 6);
    assert_eq!(next_gap(9, 8), 8);
}

#[test]
fn pushing_a_row_shifts_both_boards() {
    let mut field = Field::new();
    let mut board = Board::new();
    push_garbage_row(&mut field, &mut board, 3);
    assert_eq!(field.rows[ROWS - 1], 1023 - 8);
    push_garbage_row(&mut field, &mut board, 0);
    assert_eq!(field.rows[ROWS - 1], 1022);
    assert_eq!(field.rows[ROWS - 2], 1015);
    assert_eq!(field.rows[0], 0);
    assert_eq!(board.rows[ROWS - 1][0], PieceKind::Empty);
    assert_eq!(board.rows[ROWS - 1][1], GARBAGE);
    assert_eq!(board.rows[ROWS - 2][3], PieceKind::Empty);
    assert!(in_sync(&field, &board));
}

#[test]
fn row_cells_round_trip() {
    for m in 0..1024u16 {
        assert_eq!(row_mask(&row_cells(m)), m);
    }
    assert_eq!(row_cells(1).iter().filter(|c| **c == GARBAGE).count(), 1);
    assert_eq!(row_mask(&vec![PieceKind::T; 10]), 1023);
}

#[test]
fn refill_keeps_order_and_reaches_the_floor() {
    let mut bag = fresh_bag();
    let mut queue: Vec<PieceKind> = vec![PieceKind::O, PieceKind::I];
    refill(&mut queue, &mut bag);
    assert_eq!(queue.len(), QUEUE_FLOOR);
    assert_eq!(&queue[..2], &[PieceKind::O, PieceKind::I]);
    assert_eq!(bag.len(), 3);
    assert!(queue.iter().all(|p| *p != PieceKind::Empty));
    let before = queue.clone();
    refill(&mut queue, &mut bag);
    assert_eq!(queue, before);
}

#[test]
fn the_bag_deals_each_kind_once_per_round() {
    let mut bag = fresh_bag();
    let mut dealt: Vec<PieceKind> = Vec::new();
    for _ in 0..14 {
        dealt.push(draw(&mut bag));
    }
    for round in dealt.chunks(7) {
        let mut r = round.to_vec();
        r.sort_by_key(|p| *p as u8);
        assert_eq!(r, fresh_bag());
    }
    let mut empty: Vec<PieceKind> = Vec::new();
    assert_eq!(take_from_bag(&mut empty, 6), PieceKind::O);
    assert_eq!(empty.len(), 6);
}

#[test]
fn exam_of_one_trial_is_that_trial() {
    let mut s = ExamSummary::new();
    s.record(TrialMetrics { pieces_placed: 37, total_elapsed: 4, avg_latency: 250_000 });
    assert_eq!(s.trials, 1);
    assert_eq!(s.avg_pieces, 37 * SCALE);
    assert_eq!(s.max_pieces, 37);
    assert_eq!(s.min_pieces, 37);
    assert_eq!(s.avg_elapsed, 4 * SCALE);
    assert_eq!(s.max_elapsed, 4);
    assert_eq!(s.min_elapsed, 4);
    assert_eq!(s.avg_throughput, Some(4 * SCALE));
}

#[test]
fn exam_smooths_pairwise() {
    let mut s = ExamSummary::new();
    s.record(TrialMetrics { pieces_placed: 10, total_elapsed: 8, avg_latency: 500_000 });
    s.record(TrialMetrics { pieces_placed: 20, total_elapsed: 2, avg_latency: 250_000 });
    s.record(TrialMetrics { pieces_placed: 40, total_elapsed: 5, avg_latency: 1_000_000 });
    assert_eq!(s.avg_pieces, 55 * SCALE / 2);
    assert_eq!(s.max_pieces, 40);
    assert_eq!(s.min_pieces, 10);
    assert_eq!(s.avg_elapsed, 5 * SCALE);
    assert_eq!(s.max_elapsed, 8);
    assert_eq!(s.min_elapsed, 2);
    assert_eq!(s.avg_throughput, Some(2 * SCALE));
    s.record(TrialMetrics { pieces_placed: 0, total_elapsed: 0, avg_latency: 0 });
    assert_eq!(s.avg_throughput, None);
    assert_eq!(s.min_pieces, 0);
}

#[test]
fn throughput_per_second() {
    assert_eq!(throughput(0), None);
    assert_eq!(throughput(1_000_000), Some(SCALE));
    assert_eq!(throughput(125_000), Some(8 * SCALE));
}
