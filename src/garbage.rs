use vstd::prelude::*;

use crate::piece::PieceKind;

verus! {

/// Rows of the playing field; row 0 is the top.
pub const ROWS: usize = 20;

/// Columns of the playing field.
pub const COLS: usize = 10;

/// A row with all ten columns occupied.
pub const FULL_ROW: u16 = 1023;

/// The colour that garbage cells carry on the board.
pub const GARBAGE: PieceKind = PieceKind::L;

/// Occupancy of the field as one ten-bit mask per row: bit `x` of row `y` is
/// set when cell `(y, x)` is occupied.
#[derive(Clone, Debug)]
pub struct Field {
    pub rows: Vec<u16>,
}

/// The coloured counterpart of a field: each cell holds the kind of the
/// piece that filled it, or `Empty`.
#[derive(Clone, Debug)]
pub struct Board {
    pub rows: Vec<Vec<PieceKind>>,
}

impl Field {
    pub open spec fn wf(&self) -> bool {
        self.rows.len() == ROWS
    }

    /// An empty field.
    pub fn new() -> (f: Field)
        ensures
            f.wf(),
            f.rows@ == empty_rows(),
    {
        let f = Field { rows: vec![0u16; ROWS] };
        assert(f.rows@ =~= empty_rows());
        f
    }
}

impl Board {
    pub open spec fn wf(&self) -> bool {
        &&& self.rows.len() == ROWS
        &&& forall|y: int| 0 <= y < ROWS ==> (#[trigger] self.rows@[y]).len() == COLS
    }

    /// The cells of the board, row by row.
    pub open spec fn cells(&self) -> Seq<Seq<PieceKind>> {
        Seq::new(self.rows.len() as nat, |y: int| self.rows@[y]@)
    }

    /// A board with every cell empty.
    pub fn new() -> (b: Board)
        ensures
            b.wf(),
            b.cells() == empty_cells(),
    {
        let mut rows: Vec<Vec<PieceKind>> = Vec::new();
        while rows.len() < ROWS
            invariant
                rows.len() <= ROWS,
                forall|y: int| 0 <= y < rows.len() ==> (#[trigger] rows@[y])@ == cells_of(0),
            decreases ROWS - rows.len(),
        {
            rows.push(row_cells(0));
        }
        let b = Board { rows };
        assert(b.cells() =~= empty_cells());
        b
    }

    /// The occupancy of the board, as a field.
    pub fn occupancy(&self) -> (f: Field)
        requires
            self.wf(),
        ensures
            f.wf(),
            forall|y: int| 0 <= y < ROWS ==> f.rows@[y] == mask_of(#[trigger] self.cells()[y]),
    {
        let mut rows: Vec<u16> = Vec::new();
        while rows.len() < ROWS
            invariant
                self.wf(),
                rows.len() <= ROWS,
                forall|y: int| 0 <= y < rows.len() ==> rows@[y] == mask_of(#[trigger] self.cells()[y]),
            decreases ROWS - rows.len(),
        {
            let y = rows.len();
            rows.push(row_mask(&self.rows[y]));
        }
        Field { rows }
    }
}

/// The rows of an empty field.
pub open spec fn empty_rows() -> Seq<u16> {
    Seq::new(ROWS as nat, |y: int| 0u16)
}

/// The cells of an empty board.
pub open spec fn empty_cells() -> Seq<Seq<PieceKind>> {
    Seq::new(ROWS as nat, |y: int| cells_of(0))
}

/// Whether column `x` of row `m` is occupied.
pub open spec fn has_bit(m: u16, x: u16) -> bool {
    m & (1u16 << x) != 0
}

/// The garbage row whose gap is column `gap`.
pub open spec fn garbage_row(gap: u16) -> u16 {
    (FULL_ROW - (1u16 << gap)) as u16
}

/// The board cells of row `m`: garbage where a bit is set, empty elsewhere.
pub open spec fn cells_of(m: u16) -> Seq<PieceKind> {
    Seq::new(COLS as nat, |x: int| if has_bit(m, x as u16) { GARBAGE } else { PieceKind::Empty })
}

/// The occupancy of the first `n` cells of `s`, as a mask.
pub open spec fn mask_prefix(s: Seq<PieceKind>, n: nat) -> u16
    decreases n,
{
    if n == 0 {
        0
    } else {
        mask_prefix(s, (n - 1) as nat) | (if s[n - 1] != PieceKind::Empty {
            1u16 << ((n - 1) as u16)
        } else {
            0u16
        })
    }
}

/// The occupancy of a row of cells, as a mask.
pub open spec fn mask_of(s: Seq<PieceKind>) -> u16 {
    mask_prefix(s, COLS as nat)
}

/// `m` is a garbage row: nine columns occupied, one free.
pub open spec fn is_garbage_row(m: u16) -> bool {
    exists|gap: u16| gap < COLS && m == garbage_row(gap)
}

/// Field rows `f1` and board rows `b1` are `f0` and `b0` with `n` garbage
/// rows pushed in at the bottom, each drawn alike on the field and the board.
pub open spec fn garbage_added(
    f0: Seq<u16>,
    b0: Seq<Seq<PieceKind>>,
    f1: Seq<u16>,
    b1: Seq<Seq<PieceKind>>,
    n: int,
) -> bool {
    &&& f1.len() == ROWS
    &&& b1.len() == ROWS
    &&& f1.subrange(0, ROWS - n) == f0.subrange(n, ROWS as int)
    &&& b1.subrange(0, ROWS - n) == b0.subrange(n, ROWS as int)
    &&& forall|y: int| ROWS - n <= y < ROWS ==> is_garbage_row(#[trigger] f1[y])
    &&& forall|y: int| ROWS - n <= y < ROWS ==> #[trigger] b1[y] == cells_of(f1[y])
}

/// Field and board describe the same occupancy.
pub open spec fn in_sync(f: Field, b: Board) -> bool {
    &&& f.wf()
    &&& b.wf()
    &&& forall|y: int| 0 <= y < ROWS ==> #[trigger] f.rows@[y] < 1024
    &&& forall|y: int| 0 <= y < ROWS ==> f.rows@[y] == mask_of(#[trigger] b.cells()[y])
}

/// The mask of a garbage row.
pub fn garbage_mask(gap: u8) -> (m: u16)
    requires
        gap < COLS,
    ensures
        m == garbage_row(gap as u16),
{
    let g = gap as u16;
    assert(1u16 << g <= 512) by (bit_vector)
        requires
            g < 10,
    ;
    FULL_ROW - (1u16 << g)
}

/// The board cells of row `m`.
pub fn row_cells(m: u16) -> (r: Vec<PieceKind>)
    ensures
        r@ == cells_of(m),
{
    let mut r: Vec<PieceKind> = Vec::new();
    let mut x: u16 = 0;
    while x < 10
        invariant
            x <= 10,
            r.len() == x,
            forall|i: int| 0 <= i < x ==> r@[i] == (#[trigger] cells_of(m)[i]),
        decreases 10 - x,
    {
        if m & (1u16 << x) != 0 {
            r.push(GARBAGE);
        } else {
            r.push(PieceKind::Empty);
        }
        x = x + 1;
    }
    assert(r@ =~= cells_of(m));
    r
}

/// The occupancy mask of a row of ten cells.
pub fn row_mask(cells: &Vec<PieceKind>) -> (m: u16)
    requires
        cells.len() == COLS,
    ensures
        m == mask_of(cells@),
        m < 1024,
{
    let mut m: u16 = 0;
    let mut x: u16 = 0;
    assert(0u16 < (1u16 << 0u16)) by (bit_vector);
    while x < 10
        invariant
            cells.len() == COLS,
            x <= 10,
            m == mask_prefix(cells@, x as nat),
            m < (1u16 << x),
        decreases 10 - x,
    {
        let bit: u16 = if cells[x as usize] != PieceKind::Empty {
            1u16 << x
        } else {
            0
        };
        assert(m | bit < (1u16 << (x + 1) as u16)) by (bit_vector)
            requires
                x < 10,
                m < (1u16 << x),
                bit == 0 || bit == (1u16 << x),
        ;
        m = m | bit;
        x = x + 1;
    }
    assert(1u16 << 10u16 == 1024) by (bit_vector);
    m
}

proof fn lemma_mask_prefix_of_cells(m: u16, n: nat)
    requires
        n <= COLS,
    ensures
        mask_prefix(cells_of(m), n) == m & (((1u16 << (n as u16)) - 1) as u16),
    decreases n,
{
    if n == 0 {
        assert(m & (((1u16 << 0u16) - 1) as u16) == 0) by (bit_vector);
    } else {
        let k = (n - 1) as u16;
        lemma_mask_prefix_of_cells(m, (n - 1) as nat);
        assert(k < 10);
        if has_bit(m, k) {
            assert((m & (((1u16 << k) - 1) as u16)) | (1u16 << k) == m & (((1u16 << ((k + 1) as u16)) - 1) as u16))
                by (bit_vector)
                requires
                    k < 10,
                    m & (1u16 << k) != 0,
            ;
        } else {
            assert((m & (((1u16 << k) - 1) as u16)) | 0u16 == m & (((1u16 << ((k + 1) as u16)) - 1) as u16))
                by (bit_vector)
                requires
                    k < 10,
                    m & (1u16 << k) == 0,
            ;
        }
    }
}

/// Reading a row's occupancy back from its board cells gives the row again:
/// for every ten-column row, garbage rows among them.
pub proof fn lemma_row_round_trip(m: u16)
    requires
        m < 1024,
    ensures
        mask_of(cells_of(m)) == m,
{
    lemma_mask_prefix_of_cells(m, COLS as nat);
    assert(m & (((1u16 << 10u16) - 1) as u16) == m) by (bit_vector)
        requires
            m < 1024,
    ;
}

/// A garbage row has exactly one free column among the ten, its gap, and no
/// bit set beyond the tenth column.
pub proof fn lemma_garbage_row_single_gap(gap: u16)
    requires
        gap < COLS,
    ensures
        garbage_row(gap) < 1024,
        forall|x: u16| x < COLS ==> (#[trigger] has_bit(garbage_row(gap), x) <==> x != gap),
{
    assert(((1023u16 - (1u16 << gap)) as u16) < 1024) by (bit_vector)
        requires
            gap < 10,
    ;
    assert forall|x: u16| x < COLS implies (has_bit(garbage_row(gap), x) <==> x != gap) by {
        assert((((1023u16 - (1u16 << gap)) as u16) & (1u16 << x) != 0) <==> x != gap) by (bit_vector)
            requires
                gap < 10,
                x < 10,
        ;
    }
}

/// The gap chosen after `prev` from a draw `r` among the nine other columns:
/// the columns other than `prev`, in order, numbered from zero.
pub fn next_gap(prev: u8, r: u8) -> (gap: u8)
    requires
        r < 9,
    ensures
        gap < COLS,
        gap != prev,
        gap == (if r < prev { r } else { (r + 1) as u8 }),
{
    if r < prev {
        r
    } else {
        r + 1
    }
}

/// Pushes the garbage row with gap `gap` in at the bottom of both the field
/// and the board; every other row moves up by one and the top row is dropped.
pub fn push_garbage_row(field: &mut Field, board: &mut Board, gap: u8)
    requires
        gap < COLS,
        old(field).wf(),
        old(board).wf(),
    ensures
        final(field).wf(),
        final(board).wf(),
        final(field).rows@ == old(field).rows@.drop_first().push(garbage_row(gap as u16)),
        final(board).cells() == old(board).cells().drop_first().push(cells_of(garbage_row(gap as u16))),
        forall|x: u16| x < COLS ==> (#[trigger] has_bit(final(field).rows@[ROWS - 1], x) <==> x != gap),
        in_sync(*old(field), *old(board)) ==> in_sync(*final(field), *final(board)),
{
    let m = garbage_mask(gap);
    proof {
        lemma_garbage_row_single_gap(gap as u16);
        lemma_row_round_trip(m);
    }
    field.rows.remove(0);
    field.rows.push(m);
    let ghost b0 = board.cells();
    board.rows.remove(0);
    board.rows.push(row_cells(m));
    assert(field.rows@ =~= old(field).rows@.drop_first().push(m));
    assert(board.cells() =~= b0.drop_first().push(cells_of(m)));
    assert forall|y: int| 0 <= y < ROWS implies (#[trigger] board.rows@[y]).len() == COLS by {
        if y < ROWS - 1 {
            assert(board.rows@[y] == old(board).rows@[y + 1]);
        }
    }
    proof {
        if in_sync(*old(field), *old(board)) {
            let f1 = *field;
            let b1 = *board;
            assert forall|y: int| 0 <= y < ROWS implies #[trigger] f1.rows@[y] < 1024 && f1.rows@[y] == mask_of(
                b1.cells()[y],
            ) by {
                if y < ROWS - 1 {
                    assert(board.cells()[y] == old(board).cells()[y + 1]);
                    assert(field.rows@[y] == old(field).rows@[y + 1]);
                    assert(old(field).rows@[y + 1] < 1024);
                } else {
                    assert(m < 1024);
                    assert(board.cells()[y] == cells_of(m));
                    assert(field.rows@[y] == m);
                }
            }
            assert(field.wf());
            assert(board.wf());
        }
    }
}

/// The source of garbage rows; it remembers the gap of the last row so that
/// two rows in a row never share their gap.
#[derive(Debug)]
pub struct CheeseGenerator {
    pub last_gap: u8,
}

impl CheeseGenerator {
    /// A generator that counts column 0 as the last gap.
    pub fn new() -> (g: CheeseGenerator)
        ensures
            g.last_gap == 0,
    {
        CheeseGenerator { last_gap: 0 }
    }

    /// Pushes a random garbage row in at the bottom of the field and the
    /// board; its gap is drawn uniformly among the nine columns other than the
    /// last gap, and is returned.
    pub fn spawn_cheese(&mut self, field: &mut Field, board: &mut Board) -> (gap: u8)
        requires
            old(field).wf(),
            old(board).wf(),
        ensures
            gap < COLS,
            gap != old(self).last_gap,
            final(self).last_gap == gap,
            final(field).wf(),
            final(board).wf(),
            final(field).rows@ == old(field).rows@.drop_first().push(garbage_row(gap as u16)),
            final(board).cells() == old(board).cells().drop_first().push(cells_of(garbage_row(gap as u16))),
            forall|x: u16| x < COLS ==> (#[trigger] has_bit(final(field).rows@[ROWS - 1], x) <==> x != gap),
            in_sync(*old(field), *old(board)) ==> in_sync(*final(field), *final(board)),
    {
        let r = crate::piece::random_below(9) as u8;
        let gap = next_gap(self.last_gap, r);
        push_garbage_row(field, board, gap);
        proof {
            lemma_garbage_row_single_gap(gap as u16);
        }
        self.last_gap = gap;
        gap
    }

    /// Pushes `n` random garbage rows in at the bottom of the field and the
    /// board, one after the other.
    pub fn spawn_rows(&mut self, field: &mut Field, board: &mut Board, n: usize)
        requires
            n <= ROWS,
            old(field).wf(),
            old(board).wf(),
        ensures
            final(field).wf(),
            final(board).wf(),
            garbage_added(old(field).rows@, old(board).cells(), final(field).rows@, final(board).cells(), n as int),
            in_sync(*old(field), *old(board)) ==> in_sync(*final(field), *final(board)),
    {
        let ghost f0 = field.rows@;
        let ghost b0 = board.cells();
        let ghost synced = in_sync(*field, *board);
        let mut i: usize = 0;
        assert(field.rows@.subrange(0, ROWS as int) =~= f0.subrange(0, ROWS as int));
        assert(board.cells().subrange(0, ROWS as int) =~= b0.subrange(0, ROWS as int));
        while i < n
            invariant
                i <= n <= ROWS,
                field.wf(),
                board.wf(),
                f0.len() == ROWS,
                b0.len() == ROWS,
                garbage_added(f0, b0, field.rows@, board.cells(), i as int),
                synced ==> in_sync(*field, *board),
            decreases n - i,
        {
            let ghost fa = field.rows@;
            let ghost ba = board.cells();
            let gap = self.spawn_cheese(field, board);
            proof {
                let fb = field.rows@;
                let bb = board.cells();
                let k = (ROWS - i - 1) as int;
                assert(fb.subrange(0, k) =~= fa.subrange(1, k + 1));
                assert(fa.subrange(1, k + 1) =~= fa.subrange(0, k + 1).subrange(1, k + 1));
                assert(f0.subrange(i + 1, ROWS as int) =~= f0.subrange(i as int, ROWS as int).subrange(1, k + 1));
                assert(bb.subrange(0, k) =~= ba.subrange(1, k + 1));
                assert(ba.subrange(1, k + 1) =~= ba.subrange(0, k + 1).subrange(1, k + 1));
                assert(b0.subrange(i + 1, ROWS as int) =~= b0.subrange(i as int, ROWS as int).subrange(1, k + 1));
                assert(is_garbage_row(fb[ROWS - 1]));
                assert forall|y: int| ROWS - (i + 1) <= y < ROWS implies is_garbage_row(#[trigger] fb[y]) by {
                    if y < ROWS - 1 {
                        assert(fb[y] == fa[y + 1]);
                    }
                }
                assert forall|y: int| ROWS - (i + 1) <= y < ROWS implies #[trigger] bb[y] == cells_of(fb[y]) by {
                    if y < ROWS - 1 {
                        assert(fb[y] == fa[y + 1]);
                        assert(bb[y] == ba[y + 1]);
                    }
                }
            }
            i = i + 1;
        }
    }
}

} // verus!
