use vstd::prelude::*;
use crate::piece::{
    kick_offset, spec_cell, spec_kick, spec_min_y, spec_moved, FallingPiece, Piece, TspinStatus,
};
use crate::rng::rng_below;

verus! {

/// The 10-wide, 40-high playfield (20 visible rows plus a buffer), with the
/// next queue and the hold slot. Rows are stored flat, row 0 at the bottom,
/// cell (x, y) at index `y * 10 + x`; `true` is an occupied cell.
pub struct Board {
    pub cells: Vec<bool>,
    pub next_queue: Vec<Piece>,
    pub hold_piece: Option<Piece>,
}

/// Cell (x, y) lies inside the field and is empty.
pub open spec fn spec_cell_free(b: Board, x: int, y: int) -> bool {
    &&& 0 <= x < 10
    &&& 0 <= y < 40
    &&& !b.cells@[y * 10 + x]
}

/// All four cells of the piece lie inside the field on empty cells.
pub open spec fn spec_fits(b: Board, p: FallingPiece) -> bool {
    forall|i: int|
        0 <= i < 4 ==> spec_cell_free(
            b,
            (#[trigger] spec_cell(p, i)).0,
            spec_cell(p, i).1,
        )
}

/// The piece cannot move down by one cell.
pub open spec fn spec_on_stack(b: Board, p: FallingPiece) -> bool {
    !spec_fits(b, spec_moved(p, 0, -1))
}

/// The piece translated down as far as it fits; no translation at all when
/// it is already on the stack, so the spin status survives exactly then.
pub open spec fn spec_dropped(b: Board, p: FallingPiece) -> FallingPiece
    decreases p.y + 6,
{
    if p.y >= -5 && spec_fits(b, spec_moved(p, 0, -1)) {
        spec_dropped(b, spec_moved(p, 0, -1))
    } else {
        p
    }
}

/// A piece that fits the board has its centre within two cells of the field.
pub proof fn lemma_fits_wf(b: Board, p: FallingPiece)
    requires
        p.rotation < 4,
        spec_fits(b, p),
    ensures
        p.wf(),
{
    p.lemma_cells_near();
    assert(spec_cell_free(b, spec_cell(p, 0).0, spec_cell(p, 0).1));
}

/// Fitting depends only on the cells a piece occupies, never on its spin
/// status.
pub proof fn lemma_fits_same_cells(b: Board, p: FallingPiece, q: FallingPiece)
    requires
        p.kind == q.kind,
        p.x == q.x,
        p.y == q.y,
        p.rotation == q.rotation,
        spec_fits(b, p),
    ensures
        spec_fits(b, q),
{
    assert forall|i: int| 0 <= i < 4 implies spec_cell_free(
        b,
        (#[trigger] spec_cell(q, i)).0,
        spec_cell(q, i).1,
    ) by {
        assert(spec_cell(q, i) == spec_cell(p, i));
        assert(spec_cell_free(b, spec_cell(p, i).0, spec_cell(p, i).1));
    }
}

/// Translating a piece down one row lowers its lowest cell by one.
pub proof fn lemma_moved_min_y(p: FallingPiece)
    requires
        -1000 <= p.y <= 1000,
    ensures
        spec_min_y(spec_moved(p, 0, -1)) == spec_min_y(p) - 1,
{
    let q = spec_moved(p, 0, -1);
    assert(spec_cell(q, 0).1 == spec_cell(p, 0).1 - 1);
    assert(spec_cell(q, 1).1 == spec_cell(p, 1).1 - 1);
    assert(spec_cell(q, 2).1 == spec_cell(p, 2).1 - 1);
    assert(spec_cell(q, 3).1 == spec_cell(p, 3).1 - 1);
}

/// Sonic-dropping a piece never raises its lowest cell.
pub proof fn lemma_dropped_min_y(b: Board, p: FallingPiece)
    requires
        p.wf(),
        spec_fits(b, p),
    ensures
        spec_min_y(spec_dropped(b, p)) <= spec_min_y(p),
    decreases p.y + 6,
{
    if p.y >= -5 && spec_fits(b, spec_moved(p, 0, -1)) {
        let q = spec_moved(p, 0, -1);
        lemma_moved_min_y(p);
        lemma_fits_wf(b, q);
        lemma_dropped_min_y(b, q);
    }
}

impl Board {
    /// The grid holds exactly the 400 field cells.
    pub open spec fn wf(self) -> bool {
        self.cells@.len() == 400
    }

    /// An empty playfield with an empty queue and hold slot.
    pub fn new() -> (r: Board)
        ensures
            r.wf(),
            r.next_queue@ =~= Seq::<Piece>::empty(),
            r.hold_piece is None,
            forall|i: int| 0 <= i < 400 ==> !r.cells@[i],
    {
        let mut cells: Vec<bool> = Vec::new();
        let mut i: usize = 0;
        while i < 400
            invariant
                i <= 400,
                cells@.len() == i,
                forall|j: int| 0 <= j < i ==> !cells@[j],
            decreases 400 - i,
        {
            cells.push(false);
            i = i + 1;
        }
        Board { cells, next_queue: Vec::new(), hold_piece: None }
    }

    /// Whether cell (x, y) is inside the field and empty.
    pub fn free_at(&self, x: i32, y: i32) -> (r: bool)
        requires
            self.wf(),
        ensures
            r == spec_cell_free(*self, x as int, y as int),
    {
        if x < 0 || x >= 10 || y < 0 || y >= 40 {
            false
        } else {
            let idx: usize = (y as usize) * 10 + (x as usize);
            !self.cells[idx]
        }
    }

    /// Whether the piece fits the field.
    pub fn fits_piece(&self, p: &FallingPiece) -> (r: bool)
        requires
            self.wf(),
            p.in_range(),
        ensures
            r == spec_fits(*self, *p),
    {
        let c = p.cells();
        let r = self.free_at(c[0].0, c[0].1) && self.free_at(c[1].0, c[1].1)
            && self.free_at(c[2].0, c[2].1) && self.free_at(c[3].0, c[3].1);
        proof {
            if r {
                assert forall|i: int| 0 <= i < 4 implies spec_cell_free(
                    *self,
                    (#[trigger] spec_cell(*p, i)).0,
                    spec_cell(*p, i).1,
                ) by {
                    assert(i == 0 || i == 1 || i == 2 || i == 3);
                }
            }
        }
        r
    }

    /// Whether the piece cannot move down by one cell.
    pub fn on_stack(&self, p: &FallingPiece) -> (r: bool)
        requires
            self.wf(),
            p.wf(),
        ensures
            r == spec_on_stack(*self, *p),
    {
        let down = FallingPiece { y: p.y - 1, tspin: TspinStatus::NoSpin, ..*p };
        !self.fits_piece(&down)
    }

    /// Appends a piece at the tail of the next queue.
    pub fn add_next_piece(&mut self, piece: Piece)
        ensures
            final(self).cells == old(self).cells,
            final(self).hold_piece == old(self).hold_piece,
            final(self).next_queue@ == old(self).next_queue@.push(piece),
    {
        self.next_queue.push(piece);
    }

    /// Pops the head of the next queue.
    pub fn advance_queue(&mut self) -> (r: Option<Piece>)
        ensures
            final(self).cells == old(self).cells,
            final(self).hold_piece == old(self).hold_piece,
            old(self).next_queue@.len() == 0 ==> r is None && final(self).next_queue
                == old(self).next_queue,
            old(self).next_queue@.len() > 0 ==> r == Some(old(self).next_queue@[0])
                && final(self).next_queue@ == old(self).next_queue@.drop_first(),
    {
        if self.next_queue.len() == 0 {
            None
        } else {
            Some(self.next_queue.remove(0))
        }
    }

    /// Swaps a kind into the hold slot and hands back what was held before.
    pub fn hold(&mut self, piece: Piece) -> (r: Option<Piece>)
        ensures
            final(self).cells == old(self).cells,
            final(self).next_queue == old(self).next_queue,
            final(self).hold_piece == Some(piece),
            r == old(self).hold_piece,
    {
        let prev = self.hold_piece;
        self.hold_piece = Some(piece);
        prev
    }

    /// Draws the next piece to enter the queue, uniformly over the seven
    /// kinds. The generation policy is the board's own; nothing outside it
    /// depends on which kind comes out.
    pub fn generate_next_piece<R: rand::Rng>(&self, rng: &mut R) -> (r: Piece)
    {
        Piece::from_index(rng_below(rng, 7))
    }

    /// Whether the top (buffer) row holds any filled cell.
    fn top_row_filled(&self) -> (r: bool)
        requires
            self.wf(),
        ensures
            r == exists|i: int| 390 <= i < 400 && self.cells@[i],
    {
        let mut r = false;
        let mut x: usize = 390;
        while x < 400
            invariant
                390 <= x <= 400,
                self.wf(),
                r == exists|i: int| 390 <= i < x && self.cells@[i],
            decreases 400 - x,
        {
            if self.cells[x] {
                r = true;
            }
            x = x + 1;
        }
        r
    }

    /// Inserts a garbage row with a hole at `col` at the bottom, pushing
    /// every other row up; reports whether a filled cell was pushed out of
    /// the top of the field.
    pub fn add_garbage(&mut self, col: usize) -> (dead: bool)
        requires
            old(self).wf(),
            col < 10,
        ensures
            final(self).wf(),
            final(self).next_queue == old(self).next_queue,
            final(self).hold_piece == old(self).hold_piece,
            final(self).cells@ == spec_with_garbage(old(self).cells@, col as int),
            dead == spec_top_filled(old(self).cells@),
    {
        let dead = self.top_row_filled();
        let mut nc: Vec<bool> = Vec::new();
        let mut x: usize = 0;
        while x < 10
            invariant
                x <= 10,
                nc@.len() == x,
                forall|j: int| 0 <= j < x ==> nc@[j] == (j != col),
            decreases 10 - x,
        {
            nc.push(x != col);
            x = x + 1;
        }
        let mut i: usize = 0;
        while i < 390
            invariant
                i <= 390,
                self.wf(),
                *self == *old(self),
                nc@.len() == 10 + i,
                forall|j: int| 0 <= j < 10 ==> nc@[j] == (j != col),
                forall|j: int| 10 <= j < 10 + i ==> nc@[j] == old(self).cells@[j - 10],
            decreases 390 - i,
        {
            nc.push(self.cells[i]);
            i = i + 1;
        }
        self.cells = nc;
        proof {
            assert(self.cells@ =~= spec_with_garbage(old(self).cells@, col as int));
        }
        dead
    }
}

/// What a lock did: whether it topped out, which rows cleared (bottom-up,
/// in pre-clear coordinates) and how many garbage rows the clear sends.
#[derive(Clone, Debug, PartialEq)]
pub struct LockResult {
    pub locked_out: bool,
    pub cleared_lines: Vec<i32>,
    pub garbage_sent: u32,
}

/// The grid with the piece's four cells stamped in.
pub open spec fn spec_stamped(b: Board, p: FallingPiece) -> Seq<bool> {
    b.cells@
        .update(spec_cell(p, 0).1 * 10 + spec_cell(p, 0).0, true)
        .update(spec_cell(p, 1).1 * 10 + spec_cell(p, 1).0, true)
        .update(spec_cell(p, 2).1 * 10 + spec_cell(p, 2).0, true)
        .update(spec_cell(p, 3).1 * 10 + spec_cell(p, 3).0, true)
}

/// Row `y` of a flat grid is completely filled.
pub open spec fn spec_row_full(g: Seq<bool>, y: int) -> bool {
    forall|x: int| 0 <= x < 10 ==> #[trigger] g[y * 10 + x]
}

/// How many rows below `y` are completely filled.
pub open spec fn spec_full_count(g: Seq<bool>, y: int) -> int
    decreases y,
{
    if y <= 0 {
        0
    } else {
        spec_full_count(g, y - 1) + (if spec_row_full(g, y - 1) { 1int } else { 0int })
    }
}

/// The non-full rows below `y` of a grid, bottom first, in order.
pub open spec fn spec_kept_rows(g: Seq<bool>, y: int) -> Seq<bool>
    decreases y,
{
    if y <= 0 {
        Seq::<bool>::empty()
    } else {
        spec_kept_rows(g, y - 1) + (if spec_row_full(g, y - 1) {
            Seq::<bool>::empty()
        } else {
            g.subrange((y - 1) * 10, (y - 1) * 10 + 10)
        })
    }
}

/// The grid after clearing: the full rows are removed, everything above
/// them falls, and the freed top rows are empty.
pub open spec fn spec_cleared_grid(g: Seq<bool>) -> Seq<bool> {
    spec_kept_rows(g, 40) + Seq::new((400 - spec_kept_rows(g, 40).len()) as nat, |i: int| false)
}

/// One garbage row: full except a hole at `col`.
pub open spec fn spec_garbage_row(col: int) -> Seq<bool> {
    Seq::new(10, |x: int| x != col)
}

/// The grid after one garbage row enters at the bottom: the new row, then
/// everything but the previous top row, pushed up.
pub open spec fn spec_with_garbage(g: Seq<bool>, col: int) -> Seq<bool> {
    spec_garbage_row(col) + g.take(390)
}

/// Whether the top (buffer) row holds a filled cell, which one more garbage
/// row would push out of the field.
pub open spec fn spec_top_filled(g: Seq<bool>) -> bool {
    exists|i: int| 390 <= i < 400 && g[i]
}

/// The grid after a run of garbage rows, first column first.
pub open spec fn spec_garbage_fold(g: Seq<bool>, cols: Seq<usize>) -> Seq<bool>
    decreases cols.len(),
{
    if cols.len() == 0 {
        g
    } else {
        spec_garbage_fold(spec_with_garbage(g, cols[0] as int), cols.drop_first())
    }
}

/// Whether some row of the run pushed a filled cell out of the top.
pub open spec fn spec_garbage_fold_dead(g: Seq<bool>, cols: Seq<usize>) -> bool
    decreases cols.len(),
{
    cols.len() > 0 && (spec_top_filled(g) || spec_garbage_fold_dead(
        spec_with_garbage(g, cols[0] as int),
        cols.drop_first(),
    ))
}

/// A garbage run grows one row at a time at its tail.
pub proof fn lemma_garbage_fold_snoc(g: Seq<bool>, cols: Seq<usize>, c: usize)
    ensures
        spec_garbage_fold(g, cols.push(c)) == spec_with_garbage(
            spec_garbage_fold(g, cols),
            c as int,
        ),
        spec_garbage_fold_dead(g, cols.push(c)) == (spec_garbage_fold_dead(g, cols)
            || spec_top_filled(spec_garbage_fold(g, cols))),
    decreases cols.len(),
{
    if cols.len() == 0 {
        assert(cols.push(c)[0] == c);
        assert(cols.push(c).drop_first() =~= Seq::<usize>::empty());
        assert(spec_garbage_fold(spec_with_garbage(g, c as int), Seq::<usize>::empty())
            == spec_with_garbage(g, c as int));
        assert(!spec_garbage_fold_dead(spec_with_garbage(g, c as int), Seq::<usize>::empty()));
        assert(spec_garbage_fold(g, cols.push(c)) == spec_with_garbage(g, c as int));
        assert(spec_garbage_fold_dead(g, cols.push(c)) == spec_top_filled(g));
    } else {
        assert(cols.push(c)[0] == cols[0]);
        assert(cols.push(c).drop_first() =~= cols.drop_first().push(c));
        lemma_garbage_fold_snoc(spec_with_garbage(g, cols[0] as int), cols.drop_first(), c);
        assert(spec_garbage_fold(g, cols.push(c)) == spec_garbage_fold(
            spec_with_garbage(g, cols[0] as int),
            cols.drop_first().push(c),
        ));
        assert(spec_garbage_fold_dead(g, cols.push(c)) == (spec_top_filled(g)
            || spec_garbage_fold_dead(
            spec_with_garbage(g, cols[0] as int),
            cols.drop_first().push(c),
        )));
    }
}

/// Garbage rows sent for a clear: a full T-spin sends two per line, four
/// lines send four, and any other clear sends one less than it cleared.
pub open spec fn spec_attack(lines: int, tspin: TspinStatus) -> int {
    if lines <= 0 {
        0
    } else if tspin is Full {
        2 * lines
    } else if lines == 4 {
        4
    } else {
        lines - 1
    }
}

fn attack_for(lines: u32, tspin: TspinStatus) -> (r: u32)
    requires
        lines <= 40,
    ensures
        r == spec_attack(lines as int, tspin),
{
    if lines == 0 {
        0
    } else if tspin == TspinStatus::Full {
        2 * lines
    } else if lines == 4 {
        4
    } else {
        lines - 1
    }
}

impl Board {
    /// Stamps the piece into the grid, removes the full rows (everything
    /// above them falls ten cells), and reports top-out, the cleared rows
    /// and the attack they send. A lock entirely above the visible twenty
    /// rows is a top-out.
    pub fn lock_piece(&mut self, piece: FallingPiece) -> (r: LockResult)
        requires
            old(self).wf(),
            piece.wf(),
            spec_fits(*old(self), piece),
        ensures
            final(self).wf(),
            final(self).next_queue == old(self).next_queue,
            final(self).hold_piece == old(self).hold_piece,
            r.locked_out == (spec_min_y(piece) >= 20),
            r.cleared_lines@.len() == spec_full_count(spec_stamped(*old(self), piece), 40),
            r.cleared_lines@.len() <= 40,
            forall|j: int| 0 <= j < r.cleared_lines@.len() ==> 0 <= #[trigger] r.cleared_lines@[j] < 40
                && spec_row_full(spec_stamped(*old(self), piece), r.cleared_lines@[j] as int),
            forall|j1: int, j2: int| 0 <= j1 < j2 < r.cleared_lines@.len()
                ==> #[trigger] r.cleared_lines@[j1] < #[trigger] r.cleared_lines@[j2],
            r.garbage_sent == spec_attack(r.cleared_lines@.len() as int, piece.tspin),
            final(self).cells@ == spec_cleared_grid(spec_stamped(*old(self), piece)),
    {
        let c = piece.cells();
        proof {
            assert(spec_cell_free(*old(self), spec_cell(piece, 0).0, spec_cell(piece, 0).1));
            assert(spec_cell_free(*old(self), spec_cell(piece, 1).0, spec_cell(piece, 1).1));
            assert(spec_cell_free(*old(self), spec_cell(piece, 2).0, spec_cell(piece, 2).1));
            assert(spec_cell_free(*old(self), spec_cell(piece, 3).0, spec_cell(piece, 3).1));
        }
        let i0: usize = (c[0].1 as usize) * 10 + (c[0].0 as usize);
        let i1: usize = (c[1].1 as usize) * 10 + (c[1].0 as usize);
        let i2: usize = (c[2].1 as usize) * 10 + (c[2].0 as usize);
        let i3: usize = (c[3].1 as usize) * 10 + (c[3].0 as usize);
        self.cells.set(i0, true);
        self.cells.set(i1, true);
        self.cells.set(i2, true);
        self.cells.set(i3, true);
        proof {
            assert(self.cells@ =~= spec_stamped(*old(self), piece));
        }

        let ghost g = self.cells@;
        let mut cleared: Vec<i32> = Vec::new();
        let mut kept: Vec<bool> = Vec::new();
        let mut y: usize = 0;
        while y < 40
            invariant
                y <= 40,
                self.wf(),
                self.cells@ == g,
                cleared@.len() == spec_full_count(g, y as int),
                cleared@.len() <= y,
                forall|j: int| 0 <= j < cleared@.len() ==> 0 <= #[trigger] cleared@[j] < y
                    && spec_row_full(g, cleared@[j] as int),
                forall|j1: int, j2: int| 0 <= j1 < j2 < cleared@.len()
                    ==> #[trigger] cleared@[j1] < #[trigger] cleared@[j2],
                kept@.len() == 10 * (y - cleared@.len()),
                kept@ == spec_kept_rows(g, y as int),
            decreases 40 - y,
        {
            let mut full = true;
            let mut x: usize = 0;
            while x < 10
                invariant
                    x <= 10,
                    y < 40,
                    self.wf(),
                    self.cells@ == g,
                    full == forall|x2: int| 0 <= x2 < x ==> #[trigger] g[y * 10 + x2],
                decreases 10 - x,
            {
                if !self.cells[y * 10 + x] {
                    full = false;
                }
                x = x + 1;
            }
            if full {
                cleared.push(y as i32);
                proof {
                    assert(kept@ =~= spec_kept_rows(g, y as int + 1));
                }
            } else {
                let ghost kept0 = kept@;
                let mut x: usize = 0;
                while x < 10
                    invariant
                        x <= 10,
                        y < 40,
                        self.wf(),
                        self.cells@ == g,
                        kept@.len() == 10 * (y - cleared@.len()) + x,
                        cleared@.len() <= y,
                        kept@ == kept0 + g.subrange((y * 10) as int, (y * 10) as int + x as int),
                    decreases 10 - x,
                {
                    proof {
                        assert(kept@.push(g[(y * 10 + x) as int]) =~= kept0 + g.subrange(
                            (y * 10) as int,
                            (y * 10) as int + x as int + 1,
                        ));
                    }
                    kept.push(self.cells[y * 10 + x]);
                    x = x + 1;
                }
                proof {
                    assert(kept@ =~= spec_kept_rows(g, y as int + 1));
                }
            }
            y = y + 1;
        }
        let n = cleared.len();
        let ghost kept_rows = kept@;
        while kept.len() < 400
            invariant
                kept@.len() <= 400,
                kept_rows.len() <= kept@.len(),
                kept@.take(kept_rows.len() as int) == kept_rows,
                forall|j: int| kept_rows.len() <= j < kept@.len() ==> !(#[trigger] kept@[j]),
            decreases 400 - kept@.len(),
        {
            kept.push(false);
        }
        proof {
            assert(kept@ =~= spec_cleared_grid(g)) by {
                assert(kept_rows == spec_kept_rows(g, 40));
                assert forall|j: int| 0 <= j < 400 implies kept@[j] == spec_cleared_grid(g)[j] by {
                    if j < kept_rows.len() {
                        assert(kept@[j] == kept@.take(kept_rows.len() as int)[j]);
                    }
                }
            }
        }
        self.cells = kept;
        let locked_out = piece.min_cell_y() >= 20;
        let sent = attack_for(n as u32, piece.tspin);
        LockResult { locked_out, cleared_lines: cleared, garbage_sent: sent }
    }
}

impl FallingPiece {
    /// Attempts to start a kind at the spawn position: centre (4, 20), spawn
    /// rotation, no spin.
    pub fn spawn(kind: Piece, board: &Board) -> (r: Option<FallingPiece>)
        requires
            board.wf(),
        ensures
            r == spec_spawn(*board, kind),
            r matches Some(p) ==> p.wf() && spec_fits(*board, p),
    {
        let p = FallingPiece { kind, x: 4, y: 20, rotation: 0, tspin: TspinStatus::NoSpin };
        if board.fits_piece(&p) {
            Some(p)
        } else {
            None
        }
    }

    /// Attempts to translate the piece by (dx, dy); a failed attempt leaves
    /// it untouched, a successful one also clears the spin status.
    pub fn shift(&mut self, board: &Board, dx: i32, dy: i32) -> (r: bool)
        requires
            board.wf(),
            old(self).wf(),
            -2 <= dx <= 2,
            -2 <= dy <= 2,
        ensures
            r == spec_fits(*board, spec_moved(*old(self), dx as int, dy as int)),
            r ==> *final(self) == spec_moved(*old(self), dx as int, dy as int),
            !r ==> *final(self) == *old(self),
            final(self).wf(),
            final(self).kind == old(self).kind,
            final(self).rotation == old(self).rotation,
    {
        let cand = FallingPiece {
            x: self.x + dx,
            y: self.y + dy,
            tspin: TspinStatus::NoSpin,
            ..*self
        };
        if board.fits_piece(&cand) {
            proof {
                lemma_fits_wf(*board, cand);
            }
            *self = cand;
            true
        } else {
            false
        }
    }

    /// Attempts a clockwise rotation, trying the wall kicks in order.
    pub fn cw(&mut self, board: &Board) -> (r: bool)
        requires
            board.wf(),
            old(self).wf(),
        ensures
            r == (spec_rotate(*board, *old(self), true) is Some),
            r ==> Some(*final(self)) == spec_rotate(*board, *old(self), true),
            !r ==> *final(self) == *old(self),
            final(self).wf(),
            final(self).kind == old(self).kind,
            r ==> spec_fits(*board, *final(self)),
    {
        self.rotate_impl(board, true)
    }

    /// Attempts a counter-clockwise rotation, trying the wall kicks in
    /// order.
    pub fn ccw(&mut self, board: &Board) -> (r: bool)
        requires
            board.wf(),
            old(self).wf(),
        ensures
            r == (spec_rotate(*board, *old(self), false) is Some),
            r ==> Some(*final(self)) == spec_rotate(*board, *old(self), false),
            !r ==> *final(self) == *old(self),
            final(self).wf(),
            final(self).kind == old(self).kind,
            r ==> spec_fits(*board, *final(self)),
    {
        self.rotate_impl(board, false)
    }

    fn rotate_impl(&mut self, board: &Board, cwise: bool) -> (r: bool)
        requires
            board.wf(),
            old(self).wf(),
        ensures
            r == (spec_rotate(*board, *old(self), cwise) is Some),
            r ==> Some(*final(self)) == spec_rotate(*board, *old(self), cwise),
            !r ==> *final(self) == *old(self),
            final(self).wf(),
            final(self).kind == old(self).kind,
            r ==> spec_fits(*board, *final(self)),
    {
        let c0 = make_kicked(self, cwise, 0);
        if board.fits_piece(&c0) {
            let res = apply_spin(board, c0);
            proof {
                lemma_fits_wf(*board, c0);
                lemma_fits_same_cells(*board, c0, res);
            }
            *self = res;
            return true;
        }
        let c1 = make_kicked(self, cwise, 1);
        if board.fits_piece(&c1) {
            let res = apply_spin(board, c1);
            proof {
                lemma_fits_wf(*board, c1);
                lemma_fits_same_cells(*board, c1, res);
            }
            *self = res;
            return true;
        }
        let c2 = make_kicked(self, cwise, 2);
        if board.fits_piece(&c2) {
            let res = apply_spin(board, c2);
            proof {
                lemma_fits_wf(*board, c2);
                lemma_fits_same_cells(*board, c2, res);
            }
            *self = res;
            return true;
        }
        let c3 = make_kicked(self, cwise, 3);
        if board.fits_piece(&c3) {
            let res = apply_spin(board, c3);
            proof {
                lemma_fits_wf(*board, c3);
                lemma_fits_same_cells(*board, c3, res);
            }
            *self = res;
            return true;
        }
        let c4 = make_kicked(self, cwise, 4);
        if board.fits_piece(&c4) {
            let res = apply_spin(board, c4);
            proof {
                lemma_fits_wf(*board, c4);
                lemma_fits_same_cells(*board, c4, res);
            }
            *self = res;
            return true;
        }
        false
    }

    /// Translates the piece down until it rests on the stack.
    pub fn sonic_drop(&mut self, board: &Board)
        requires
            board.wf(),
            old(self).wf(),
            spec_fits(*board, *old(self)),
        ensures
            *final(self) == spec_dropped(*board, *old(self)),
            final(self).wf(),
            spec_fits(*board, *final(self)),
            spec_on_stack(*board, *final(self)),
    {
        loop
            invariant
                board.wf(),
                self.wf(),
                spec_fits(*board, *self),
                spec_dropped(*board, *self) == spec_dropped(*board, *old(self)),
            decreases self.y + 10,
        {
            let down = FallingPiece { y: self.y - 1, tspin: TspinStatus::NoSpin, ..*self };
            if board.fits_piece(&down) {
                proof { lemma_fits_wf(*board, down); }
                *self = down;
            } else {
                return;
            }
        }
    }
}

/// The spawn attempt's outcome: the spawn-position piece when it fits.
pub open spec fn spec_spawn(b: Board, kind: Piece) -> Option<FallingPiece> {
    let p = FallingPiece { kind, x: 4i32, y: 20i32, rotation: 0u32, tspin: TspinStatus::NoSpin };
    if spec_fits(b, p) {
        Some(p)
    } else {
        None
    }
}

/// The piece turned one quarter turn, before any kick; the spin status is
/// cleared and then re-classified once a kick position is accepted.
pub open spec fn spec_turned(p: FallingPiece, cwise: bool) -> FallingPiece {
    FallingPiece {
        rotation: (if cwise { ((p.rotation + 1) % 4) as u32 } else { ((p.rotation + 3) % 4) as u32 }),
        tspin: TspinStatus::NoSpin,
        ..p
    }
}

/// Kick candidate `i` for a rotation of `p`.
pub open spec fn spec_kicked(p: FallingPiece, cwise: bool, i: int) -> FallingPiece {
    let q = spec_turned(p, cwise);
    let k = spec_kick(p.rotation as int, cwise, i);
    spec_moved(q, k.0, k.1)
}

/// Whether the diagonal corner at (x, y) counts as filled for spin
/// detection; cells outside the field count as filled.
pub open spec fn spec_corner_filled(b: Board, x: int, y: int) -> bool {
    !spec_cell_free(b, x, y)
}

/// How many of the four diagonal corners around the centre are filled.
pub open spec fn spec_corner_count(b: Board, p: FallingPiece) -> int {
    (if spec_corner_filled(b, p.x - 1, p.y - 1) { 1int } else { 0int })
        + (if spec_corner_filled(b, p.x + 1, p.y - 1) { 1int } else { 0int })
        + (if spec_corner_filled(b, p.x - 1, p.y + 1) { 1int } else { 0int })
        + (if spec_corner_filled(b, p.x + 1, p.y + 1) { 1int } else { 0int })
}

/// Whether both corners on the side the T faces are filled.
pub open spec fn spec_front_corners(b: Board, p: FallingPiece) -> bool {
    if p.rotation == 0 {
        spec_corner_filled(b, p.x - 1, p.y + 1) && spec_corner_filled(b, p.x + 1, p.y + 1)
    } else if p.rotation == 1 {
        spec_corner_filled(b, p.x + 1, p.y + 1) && spec_corner_filled(b, p.x + 1, p.y - 1)
    } else if p.rotation == 2 {
        spec_corner_filled(b, p.x - 1, p.y - 1) && spec_corner_filled(b, p.x + 1, p.y - 1)
    } else {
        spec_corner_filled(b, p.x - 1, p.y + 1) && spec_corner_filled(b, p.x - 1, p.y - 1)
    }
}

/// Spin classification of a freshly rotated piece: a T with at least three
/// filled corners spun; it spun fully when both front corners are filled.
pub open spec fn spec_classify(b: Board, p: FallingPiece) -> TspinStatus {
    if p.kind != Piece::T {
        TspinStatus::NoSpin
    } else if spec_corner_count(b, p) >= 3 {
        if spec_front_corners(b, p) {
            TspinStatus::Full
        } else {
            TspinStatus::Mini
        }
    } else {
        TspinStatus::NoSpin
    }
}

/// The accepted kick position with its spin classification attached.
pub open spec fn spec_with_spin(b: Board, p: FallingPiece) -> FallingPiece {
    FallingPiece { tspin: spec_classify(b, p), ..p }
}

/// The rotation's outcome: the first kick candidate that fits, classified.
pub open spec fn spec_rotate(b: Board, p: FallingPiece, cwise: bool) -> Option<FallingPiece> {
    if spec_fits(b, spec_kicked(p, cwise, 0)) {
        Some(spec_with_spin(b, spec_kicked(p, cwise, 0)))
    } else if spec_fits(b, spec_kicked(p, cwise, 1)) {
        Some(spec_with_spin(b, spec_kicked(p, cwise, 1)))
    } else if spec_fits(b, spec_kicked(p, cwise, 2)) {
        Some(spec_with_spin(b, spec_kicked(p, cwise, 2)))
    } else if spec_fits(b, spec_kicked(p, cwise, 3)) {
        Some(spec_with_spin(b, spec_kicked(p, cwise, 3)))
    } else if spec_fits(b, spec_kicked(p, cwise, 4)) {
        Some(spec_with_spin(b, spec_kicked(p, cwise, 4)))
    } else {
        None
    }
}

fn make_kicked(p: &FallingPiece, cwise: bool, i: u32) -> (c: FallingPiece)
    requires
        p.wf(),
        i < 5,
    ensures
        c == spec_kicked(*p, cwise, i as int),
        c.in_range(),
{
    let rot: u32 = if cwise { (p.rotation + 1) % 4 } else { (p.rotation + 3) % 4 };
    let k = kick_offset(p.rotation, cwise, i);
    FallingPiece {
        x: p.x + k.0,
        y: p.y + k.1,
        rotation: rot,
        tspin: TspinStatus::NoSpin,
        ..*p
    }
}

fn apply_spin(board: &Board, p: FallingPiece) -> (r: FallingPiece)
    requires
        board.wf(),
        p.in_range(),
    ensures
        r == spec_with_spin(*board, p),
{
    let spin: TspinStatus = if p.kind == Piece::T {
        let c1 = !board.free_at(p.x - 1, p.y - 1);
        let c2 = !board.free_at(p.x + 1, p.y - 1);
        let c3 = !board.free_at(p.x - 1, p.y + 1);
        let c4 = !board.free_at(p.x + 1, p.y + 1);
        let count: u32 = (if c1 { 1 } else { 0 }) + (if c2 { 1 } else { 0 })
            + (if c3 { 1 } else { 0 }) + (if c4 { 1 } else { 0 });
        if count >= 3 {
            let front = if p.rotation == 0 {
                c3 && c4
            } else if p.rotation == 1 {
                c4 && c2
            } else if p.rotation == 2 {
                c1 && c2
            } else {
                c3 && c1
            };
            if front {
                TspinStatus::Full
            } else {
                TspinStatus::Mini
            }
        } else {
            TspinStatus::NoSpin
        }
    } else {
        TspinStatus::NoSpin
    };
    FallingPiece { tspin: spin, ..p }
}

} // verus!
