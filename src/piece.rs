//! Pieces, colours, the direction catalog and board squares.
use vstd::prelude::*;

verus! {

/// Colour index of White.
pub const WHITE: usize = 0;

/// Colour index of Black.
pub const BLACK: usize = 1;

/// Colour index of an empty square.
pub const NO_COLOR: usize = 2;

#[derive(Clone, Copy, PartialEq, Eq, Structural, Debug)]
pub enum Piece {
    King,
    Queen,
    Rook,
    Bishop,
    Knight,
    Pawn,
    Empty,
}

/// One of the sixteen step vectors: orthogonal, diagonal and knight jumps.
/// `U` points towards rank 8 (row 0), `R` towards file H.
#[derive(Clone, Copy, PartialEq, Eq, Structural, Debug)]
pub enum Move {
    U,
    D,
    R,
    L,
    UL,
    DL,
    UR,
    DR,
    RRU,
    RUU,
    RRD,
    RDD,
    LUU,
    LLU,
    LLD,
    LDD,
}

/// The `(dx, dy)` offset of a direction; `dy` grows towards rank 1.
pub open spec fn step_of(m: Move) -> (int, int) {
    match m {
        Move::U => (0, -1),
        Move::D => (0, 1),
        Move::R => (1, 0),
        Move::L => (-1, 0),
        Move::UR => (1, -1),
        Move::UL => (-1, -1),
        Move::DR => (1, 1),
        Move::DL => (-1, 1),
        Move::RRU => (2, -1),
        Move::RUU => (1, -2),
        Move::RRD => (2, 1),
        Move::RDD => (1, 2),
        Move::LLU => (-2, -1),
        Move::LUU => (-1, -2),
        Move::LLD => (-2, 1),
        Move::LDD => (-1, 2),
    }
}

/// The sixteen directions, each exactly once, by index.
pub open spec fn dir_at(k: int) -> Move {
    if k == 0 { Move::U }
    else if k == 1 { Move::D }
    else if k == 2 { Move::R }
    else if k == 3 { Move::L }
    else if k == 4 { Move::UL }
    else if k == 5 { Move::DL }
    else if k == 6 { Move::UR }
    else if k == 7 { Move::DR }
    else if k == 8 { Move::RRU }
    else if k == 9 { Move::RUU }
    else if k == 10 { Move::RRD }
    else if k == 11 { Move::RDD }
    else if k == 12 { Move::LUU }
    else if k == 13 { Move::LLU }
    else if k == 14 { Move::LLD }
    else { Move::LDD }
}

pub open spec fn is_orthogonal(m: Move) -> bool {
    m == Move::U || m == Move::D || m == Move::L || m == Move::R
}

pub open spec fn is_diagonal(m: Move) -> bool {
    m == Move::UL || m == Move::UR || m == Move::DL || m == Move::DR
}

pub open spec fn is_knight_jump(m: Move) -> bool {
    !is_orthogonal(m) && !is_diagonal(m)
}

/// Whether direction `m` belongs to the move set of `piece` of colour `color`.
pub open spec fn in_move_set(piece: Piece, color: usize, m: Move) -> bool {
    match piece {
        Piece::King | Piece::Queen => is_orthogonal(m) || is_diagonal(m),
        Piece::Rook => is_orthogonal(m),
        Piece::Bishop => is_diagonal(m),
        Piece::Knight => is_knight_jump(m),
        Piece::Pawn => if color == WHITE {
            m == Move::U || m == Move::UL || m == Move::UR
        } else {
            m == Move::D || m == Move::DL || m == Move::DR
        },
        Piece::Empty => false,
    }
}

/// The direction with index `k` of the catalog.
pub fn direction_at(k: usize) -> (r: Move)
    requires
        k < 16,
    ensures
        r == dir_at(k as int),
{
    if k == 0 { Move::U }
    else if k == 1 { Move::D }
    else if k == 2 { Move::R }
    else if k == 3 { Move::L }
    else if k == 4 { Move::UL }
    else if k == 5 { Move::DL }
    else if k == 6 { Move::UR }
    else if k == 7 { Move::DR }
    else if k == 8 { Move::RRU }
    else if k == 9 { Move::RUU }
    else if k == 10 { Move::RRD }
    else if k == 11 { Move::RDD }
    else if k == 12 { Move::LUU }
    else if k == 13 { Move::LLU }
    else if k == 14 { Move::LLD }
    else { Move::LDD }
}

/// The `(dx, dy)` offset of a direction.
pub fn get_change_from_move(m: Move) -> (r: (isize, isize))
    ensures
        r.0 as int == step_of(m).0,
        r.1 as int == step_of(m).1,
{
    match m {
        Move::U => (0, -1),
        Move::D => (0, 1),
        Move::R => (1, 0),
        Move::L => (-1, 0),
        Move::UR => (1, -1),
        Move::UL => (-1, -1),
        Move::DR => (1, 1),
        Move::DL => (-1, 1),
        Move::RRU => (2, -1),
        Move::RUU => (1, -2),
        Move::RRD => (2, 1),
        Move::RDD => (1, 2),
        Move::LLU => (-2, -1),
        Move::LUU => (-1, -2),
        Move::LLD => (-2, 1),
        Move::LDD => (-1, 2),
    }
}

/// Whether `m` is in the move set of `piece` of colour `color`.
pub fn has_move(piece: Piece, color: usize, m: Move) -> (r: bool)
    ensures
        r == in_move_set(piece, color, m),
{
    let orth = m == Move::U || m == Move::D || m == Move::L || m == Move::R;
    let diag = m == Move::UL || m == Move::UR || m == Move::DL || m == Move::DR;
    match piece {
        Piece::King | Piece::Queen => orth || diag,
        Piece::Rook => orth,
        Piece::Bishop => diag,
        Piece::Knight => !orth && !diag,
        Piece::Pawn => if color == WHITE {
            m == Move::U || m == Move::UL || m == Move::UR
        } else {
            m == Move::D || m == Move::DL || m == Move::DR
        },
        Piece::Empty => false,
    }
}

/// One cell of the board: a piece and its colour (`NO_COLOR` when empty).
#[derive(Clone, Copy, PartialEq, Eq, Structural, Debug)]
pub struct Square {
    pub piece: Piece,
    pub color: usize,
}

impl Square {
    /// A square is empty exactly when it has no colour.
    pub open spec fn wf(&self) -> bool {
        &&& self.color <= NO_COLOR
        &&& (self.piece == Piece::Empty) == (self.color == NO_COLOR)
    }

    /// Whether direction `m` is in this square's move set.
    pub open spec fn moves_along(&self, m: Move) -> bool {
        in_move_set(self.piece, self.color, m)
    }

    pub fn new(piece: Piece, color: usize) -> (r: Square)
        ensures
            r.piece == piece,
            r.color == color,
    {
        Square { piece, color }
    }

    /// The empty square.
    pub fn empty() -> (r: Square)
        ensures
            r.piece == Piece::Empty,
            r.color == NO_COLOR,
    {
        Square { piece: Piece::Empty, color: NO_COLOR }
    }

    /// The move set of this square's piece, in catalog order.
    pub fn moves(&self) -> (r: Vec<Move>)
        ensures
            forall|m: Move| r@.contains(m) <==> self.moves_along(m),
    {
        let mut out: Vec<Move> = Vec::new();
        let mut k: usize = 0;
        while k < 16
            invariant
                k <= 16,
                forall|m: Move| out@.contains(m) ==> self.moves_along(m),
                forall|j: int| 0 <= j < k && self.moves_along(dir_at(j)) ==> out@.contains(dir_at(j)),
            decreases 16 - k,
        {
            let m = direction_at(k);
            let ghost prev = out@;
            if has_move(self.piece, self.color, m) {
                out.push(m);
                assert forall|x: Move| prev.contains(x) implies out@.contains(x) by {
                    let i = choose|i: int| 0 <= i < prev.len() && prev[i] == x;
                    assert(out@[i] == x);
                }
                assert(out@[out@.len() - 1] == m);
            }
            k += 1;
        }
        assert forall|m: Move| self.moves_along(m) implies out@.contains(m) by {
            lemma_dir_index(m);
        }
        out
    }
}

/// Every direction has an index in the catalog.
pub proof fn lemma_dir_index(m: Move)
    ensures
        exists|k: int| 0 <= k < 16 && dir_at(k) == m,
{
    match m {
        Move::U => assert(dir_at(0) == m),
        Move::D => assert(dir_at(1) == m),
        Move::R => assert(dir_at(2) == m),
        Move::L => assert(dir_at(3) == m),
        Move::UL => assert(dir_at(4) == m),
        Move::DL => assert(dir_at(5) == m),
        Move::UR => assert(dir_at(6) == m),
        Move::DR => assert(dir_at(7) == m),
        Move::RRU => assert(dir_at(8) == m),
        Move::RUU => assert(dir_at(9) == m),
        Move::RRD => assert(dir_at(10) == m),
        Move::RDD => assert(dir_at(11) == m),
        Move::LUU => assert(dir_at(12) == m),
        Move::LLU => assert(dir_at(13) == m),
        Move::LLD => assert(dir_at(14) == m),
        Move::LDD => assert(dir_at(15) == m),
    }
}

} // verus!
