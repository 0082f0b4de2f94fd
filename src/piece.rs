use vstd::prelude::*;

verus! {

/// The kind of a tetromino, or `Empty` for a free cell or an empty hold slot.
#[derive(Clone, Copy, Debug, PartialEq, Eq, Structural)]
pub enum PieceKind {
    J,
    L,
    S,
    Z,
    T,
    I,
    O,
    Empty,
}

/// The number of pieces that the queue holds at least after a refill.
pub const QUEUE_FLOOR: usize = 6;

pub open spec fn is_piece(p: PieceKind) -> bool {
    p != PieceKind::Empty
}

/// A bag that holds one of each of the seven kinds.
pub open spec fn full_bag() -> Seq<PieceKind> {
    seq![PieceKind::J, PieceKind::L, PieceKind::S, PieceKind::Z, PieceKind::T, PieceKind::I, PieceKind::O]
}

/// Every entry of `s` is one of the seven kinds.
pub open spec fn all_pieces(s: Seq<PieceKind>) -> bool {
    forall|i: int| 0 <= i < s.len() ==> is_piece(#[trigger] s[i])
}

/// The bag that a draw takes from: the bag itself, or a fresh one where it is empty.
pub open spec fn bag_to_draw_from(bag: Seq<PieceKind>) -> Seq<PieceKind> {
    if bag.len() == 0 {
        full_bag()
    } else {
        bag
    }
}

proof fn lemma_full_bag_all_pieces()
    ensures
        all_pieces(full_bag()),
{
    assert forall|i: int| 0 <= i < full_bag().len() implies is_piece(#[trigger] full_bag()[i]) by {
        assert(0 <= i < 7);
    }
}

/// Relies on rand::Rng::gen_range on rand::thread_rng: a value in `0..n`
/// (it panics on an empty range, which `requires` leaves out).
#[verifier::external_body]
pub(crate) fn random_below(n: usize) -> (r: usize)
    requires
        n > 0,
    ensures
        r < n,
{
    rand::Rng::gen_range(&mut rand::thread_rng(), 0..n)
}

/// A bag with one piece of each kind, in a fixed order.
pub fn fresh_bag() -> (b: Vec<PieceKind>)
    ensures
        b@ == full_bag(),
{
    let b = vec![PieceKind::J, PieceKind::L, PieceKind::S, PieceKind::Z, PieceKind::T, PieceKind::I, PieceKind::O];
    assert(b@ =~= full_bag());
    b
}

/// Takes the entry at `index` out of the bag, refilling the bag first where it
/// is empty.
pub fn take_from_bag(bag: &mut Vec<PieceKind>, index: usize) -> (p: PieceKind)
    requires
        index < bag_to_draw_from(old(bag)@).len(),
    ensures
        p == bag_to_draw_from(old(bag)@)[index as int],
        final(bag)@ == bag_to_draw_from(old(bag)@).remove(index as int),
{
    if bag.len() == 0 {
        *bag = fresh_bag();
    }
    bag.remove(index)
}

/// Draws one piece at random from the bag, refilling the bag when it is empty.
pub fn draw(bag: &mut Vec<PieceKind>) -> (p: PieceKind)
    ensures
        exists|i: int|
            0 <= i < bag_to_draw_from(old(bag)@).len() && p == bag_to_draw_from(old(bag)@)[i]
                && final(bag)@ == bag_to_draw_from(old(bag)@).remove(i),
{
    let n: usize = if bag.len() == 0 {
        7
    } else {
        bag.len()
    };
    let i = random_below(n);
    let p = take_from_bag(bag, i);
    assert(0 <= i < bag_to_draw_from(old(bag)@).len());
    p
}

/// Draws from the bag onto the tail of the queue until it holds at least
/// `QUEUE_FLOOR` pieces; what the queue held stays at its head, in order.
pub fn refill(queue: &mut Vec<PieceKind>, bag: &mut Vec<PieceKind>)
    requires
        all_pieces(old(bag)@),
    ensures
        final(queue).len() >= QUEUE_FLOOR,
        old(queue).len() >= QUEUE_FLOOR ==> final(queue)@ == old(queue)@,
        final(queue)@.subrange(0, old(queue).len() as int) == old(queue)@,
        all_pieces(final(queue)@.subrange(old(queue).len() as int, final(queue).len() as int)),
        all_pieces(final(bag)@),
{
    let ghost q0 = queue@;
    while queue.len() < QUEUE_FLOOR
        invariant
            queue.len() <= QUEUE_FLOOR || queue@ == q0,
            queue.len() >= q0.len(),
            queue@.subrange(0, q0.len() as int) == q0,
            all_pieces(queue@.subrange(q0.len() as int, queue.len() as int)),
            all_pieces(bag@),
        decreases QUEUE_FLOOR - queue.len(),
    {
        let ghost b0 = bag@;
        let p = draw(bag);
        proof {
            let src = bag_to_draw_from(b0);
            if b0.len() == 0 {
                lemma_full_bag_all_pieces();
            }
            let i = choose|i: int|
                0 <= i < src.len() && p == src[i] && bag@ == src.remove(i);
            assert(is_piece(src[i]));
            assert forall|k: int| 0 <= k < bag@.len() implies is_piece(#[trigger] bag@[k]) by {
                if k < i {
                    assert(bag@[k] == src[k]);
                } else {
                    assert(bag@[k] == src[k + 1]);
                }
            }
        }
        let ghost qa = queue@;
        queue.push(p);
        proof {
            assert(queue@.subrange(0, q0.len() as int) =~= qa.subrange(0, q0.len() as int));
            let tail = queue@.subrange(q0.len() as int, queue.len() as int);
            let ta = qa.subrange(q0.len() as int, qa.len() as int);
            assert(tail =~= ta.push(p));
            assert forall|k: int| 0 <= k < tail.len() implies is_piece(#[trigger] tail[k]) by {
                if k < ta.len() {
                    assert(tail[k] == ta[k]);
                }
            }
        }
    }
    assert(queue@.subrange(0, q0.len() as int) == q0);
}

} // verus!
