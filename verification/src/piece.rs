use vstd::prelude::*;

verus! {

/// The seven tetromino kinds.
#[derive(Clone, Copy, Debug, PartialEq, Eq, Structural)]
pub enum Piece {
    I,
    O,
    T,
    L,
    J,
    S,
    Z,
}

/// Spin classification attached to a piece by its last successful rotation.
#[derive(Clone, Copy, Debug, PartialEq, Eq, Structural)]
pub enum TspinStatus {
    NoSpin,
    Mini,
    Full,
}

/// A falling piece: kind, centre position (x column, y row, y grows upward),
/// rotation state (0 is spawn, counted clockwise) and the spin status of the
/// last move.
#[derive(Clone, Copy, Debug, PartialEq, Eq, Structural)]
pub struct FallingPiece {
    pub kind: Piece,
    pub x: i32,
    pub y: i32,
    pub rotation: u32,
    pub tspin: TspinStatus,
}

pub open spec fn spec_piece_from_index(i: int) -> Piece {
    if i == 0 {
        Piece::I
    } else if i == 1 {
        Piece::O
    } else if i == 2 {
        Piece::T
    } else if i == 3 {
        Piece::L
    } else if i == 4 {
        Piece::J
    } else if i == 5 {
        Piece::S
    } else {
        Piece::Z
    }
}

impl Piece {
    /// The kind drawn for a uniform index in 0..7.
    pub fn from_index(i: u32) -> (r: Piece)
        requires
            i < 7,
        ensures
            r == spec_piece_from_index(i as int),
    {
        match i {
            0 => Piece::I,
            1 => Piece::O,
            2 => Piece::T,
            3 => Piece::L,
            4 => Piece::J,
            5 => Piece::S,
            _ => Piece::Z,
        }
    }
}

/// Cell offset `i` (0..4) of a kind in its spawn rotation, relative to the
/// piece centre.
pub open spec fn spec_base_off(kind: Piece, i: int) -> (int, int) {
    match kind {
        Piece::I => if i == 0 { (-1int, 0int) } else if i == 1 { (0int, 0int) } else if i == 2 { (1int, 0int) } else { (2int, 0int) },
        Piece::O => if i == 0 { (0int, 0int) } else if i == 1 { (1int, 0int) } else if i == 2 { (0int, 1int) } else { (1int, 1int) },
        Piece::T => if i == 0 { (-1int, 0int) } else if i == 1 { (0int, 0int) } else if i == 2 { (1int, 0int) } else { (0int, 1int) },
        Piece::L => if i == 0 { (-1int, 0int) } else if i == 1 { (0int, 0int) } else if i == 2 { (1int, 0int) } else { (1int, 1int) },
        Piece::J => if i == 0 { (-1int, 1int) } else if i == 1 { (-1int, 0int) } else if i == 2 { (0int, 0int) } else { (1int, 0int) },
        Piece::S => if i == 0 { (-1int, 0int) } else if i == 1 { (0int, 0int) } else if i == 2 { (0int, 1int) } else { (1int, 1int) },
        Piece::Z => if i == 0 { (-1int, 1int) } else if i == 1 { (0int, 1int) } else if i == 2 { (0int, 0int) } else { (1int, 0int) },
    }
}

/// An offset rotated clockwise `r` quarter turns.
pub open spec fn spec_rotated(o: (int, int), r: int) -> (int, int) {
    if r == 0 {
        o
    } else if r == 1 {
        (o.1, -o.0)
    } else if r == 2 {
        (-o.0, -o.1)
    } else {
        (-o.1, o.0)
    }
}

/// Absolute board cell `i` (0..4) occupied by a piece.
pub open spec fn spec_cell(p: FallingPiece, i: int) -> (int, int) {
    let q = spec_rotated(spec_base_off(p.kind, i), p.rotation as int);
    (p.x + q.0, p.y + q.1)
}

pub open spec fn spec_min2(a: int, b: int) -> int {
    if a <= b { a } else { b }
}

/// The lowest row any cell of the piece occupies.
pub open spec fn spec_min_y(p: FallingPiece) -> int {
    spec_min2(
        spec_min2(spec_cell(p, 0).1, spec_cell(p, 1).1),
        spec_min2(spec_cell(p, 2).1, spec_cell(p, 3).1),
    )
}

/// The piece translated by (dx, dy); any translation clears the spin status.
pub open spec fn spec_moved(p: FallingPiece, dx: int, dy: int) -> FallingPiece {
    FallingPiece {
        x: (p.x + dx) as i32,
        y: (p.y + dy) as i32,
        tspin: TspinStatus::NoSpin,
        ..p
    }
}

impl FallingPiece {
    /// Loose position bounds, enough to keep cell arithmetic inside i32.
    pub open spec fn in_range(self) -> bool {
        &&& self.rotation < 4
        &&& -1000 <= self.x <= 1000
        &&& -1000 <= self.y <= 1000
    }

    /// A piece whose centre sits on or next to the playfield; every piece
    /// that fits the board satisfies this, and so does every kick candidate
    /// derived from one.
    pub open spec fn wf(self) -> bool {
        &&& self.rotation < 4
        &&& -3 <= self.x <= 12
        &&& -3 <= self.y <= 42
    }

    /// Base offsets are at most 2 in each direction, so every cell is within
    /// 2 of the centre.
    pub proof fn lemma_cells_near(self)
        requires
            self.rotation < 4,
        ensures
            forall|i: int| 0 <= i < 4 ==> self.x - 2 <= (#[trigger] spec_cell(self, i)).0 <= self.x + 2,
            forall|i: int| 0 <= i < 4 ==> self.y - 2 <= (#[trigger] spec_cell(self, i)).1 <= self.y + 2,
    {
    }

    fn cell(&self, i: u32) -> (c: (i32, i32))
        requires
            self.in_range(),
            i < 4,
        ensures
            c.0 == spec_cell(*self, i as int).0,
            c.1 == spec_cell(*self, i as int).1,
    {
        let (ox, oy): (i32, i32) = match self.kind {
            Piece::I => if i == 0 { (-1, 0) } else if i == 1 { (0, 0) } else if i == 2 { (1, 0) } else { (2, 0) },
            Piece::O => if i == 0 { (0, 0) } else if i == 1 { (1, 0) } else if i == 2 { (0, 1) } else { (1, 1) },
            Piece::T => if i == 0 { (-1, 0) } else if i == 1 { (0, 0) } else if i == 2 { (1, 0) } else { (0, 1) },
            Piece::L => if i == 0 { (-1, 0) } else if i == 1 { (0, 0) } else if i == 2 { (1, 0) } else { (1, 1) },
            Piece::J => if i == 0 { (-1, 1) } else if i == 1 { (-1, 0) } else if i == 2 { (0, 0) } else { (1, 0) },
            Piece::S => if i == 0 { (-1, 0) } else if i == 1 { (0, 0) } else if i == 2 { (0, 1) } else { (1, 1) },
            Piece::Z => if i == 0 { (-1, 1) } else if i == 1 { (0, 1) } else if i == 2 { (0, 0) } else { (1, 0) },
        };
        let (qx, qy): (i32, i32) = if self.rotation == 0 {
            (ox, oy)
        } else if self.rotation == 1 {
            (oy, -ox)
        } else if self.rotation == 2 {
            (-ox, -oy)
        } else {
            (-oy, ox)
        };
        (self.x + qx, self.y + qy)
    }

    /// The four board cells the piece occupies.
    pub fn cells(&self) -> (r: Vec<(i32, i32)>)
        requires
            self.in_range(),
        ensures
            r@.len() == 4,
            forall|i: int| 0 <= i < 4 ==> (#[trigger] r@[i]).0 == spec_cell(*self, i).0
                && r@[i].1 == spec_cell(*self, i).1,
    {
        let mut v: Vec<(i32, i32)> = Vec::new();
        v.push(self.cell(0));
        v.push(self.cell(1));
        v.push(self.cell(2));
        v.push(self.cell(3));
        v
    }

    /// The lowest row any cell of the piece occupies.
    pub fn min_cell_y(&self) -> (m: i32)
        requires
            self.in_range(),
        ensures
            m == spec_min_y(*self),
    {
        let a = self.cell(0).1;
        let b = self.cell(1).1;
        let c = self.cell(2).1;
        let d = self.cell(3).1;
        let ab = if a <= b { a } else { b };
        let cd = if c <= d { c } else { d };
        if ab <= cd { ab } else { cd }
    }
}

/// Wall-kick translation `i` (0..5) tried for a clockwise rotation leaving
/// rotation state `from`.
pub open spec fn spec_kick_cw(from: int, i: int) -> (int, int) {
    if from == 0 {
        if i == 0 { (0int, 0int) } else if i == 1 { (-1int, 0int) } else if i == 2 { (-1int, 1int) } else if i == 3 { (0int, -2int) } else { (-1int, -2int) }
    } else if from == 1 {
        if i == 0 { (0int, 0int) } else if i == 1 { (1int, 0int) } else if i == 2 { (1int, -1int) } else if i == 3 { (0int, 2int) } else { (1int, 2int) }
    } else if from == 2 {
        if i == 0 { (0int, 0int) } else if i == 1 { (1int, 0int) } else if i == 2 { (1int, 1int) } else if i == 3 { (0int, -2int) } else { (1int, -2int) }
    } else {
        if i == 0 { (0int, 0int) } else if i == 1 { (-1int, 0int) } else if i == 2 { (-1int, 1int) } else if i == 3 { (0int, 2int) } else { (-1int, 2int) }
    }
}

/// Wall-kick translation `i` tried when leaving `from`, clockwise or not; a
/// counter-clockwise rotation undoes the matching clockwise one, so its
/// kicks are the negated clockwise kicks of the target state.
pub open spec fn spec_kick(from: int, cwise: bool, i: int) -> (int, int) {
    if cwise {
        spec_kick_cw(from, i)
    } else {
        let k = spec_kick_cw((from + 3) % 4, i);
        (-k.0, -k.1)
    }
}

pub(crate) fn kick_offset(from: u32, cwise: bool, i: u32) -> (k: (i32, i32))
    requires
        from < 4,
        i < 5,
    ensures
        k.0 == spec_kick(from as int, cwise, i as int).0,
        k.1 == spec_kick(from as int, cwise, i as int).1,
{
    let f = if cwise { from } else { (from + 3) % 4 };
    let (kx, ky): (i32, i32) = if f == 0 {
        if i == 0 { (0, 0) } else if i == 1 { (-1, 0) } else if i == 2 { (-1, 1) } else if i == 3 { (0, -2) } else { (-1, -2) }
    } else if f == 1 {
        if i == 0 { (0, 0) } else if i == 1 { (1, 0) } else if i == 2 { (1, -1) } else if i == 3 { (0, 2) } else { (1, 2) }
    } else if f == 2 {
        if i == 0 { (0, 0) } else if i == 1 { (1, 0) } else if i == 2 { (1, 1) } else if i == 3 { (0, -2) } else { (1, -2) }
    } else {
        if i == 0 { (0, 0) } else if i == 1 { (-1, 0) } else if i == 2 { (-1, 1) } else if i == 3 { (0, 2) } else { (-1, 2) }
    };
    if cwise {
        (kx, ky)
    } else {
        (-kx, -ky)
    }
}

} // verus!
