//! Pin detection: whether a piece shields its own king from an enemy slider.
use vstd::prelude::*;
use crate::piece::{Move, Piece, Square, step_of, has_move};
use crate::board::{Game, at, board_wf, step_from, step_on_board};

verus! {

pub open spec fn abs(a: int) -> int {
    if a < 0 { -a } else { a }
}

/// For a piece at `(x, y)` sharing a line with a king at `(kx, ky)`: the
/// direction towards the king, then the opposite one.
pub open spec fn axis_towards(x: int, y: int, kx: int, ky: int) -> Option<(Move, Move)> {
    if x == kx {
        if y > ky { Some((Move::U, Move::D)) } else { Some((Move::D, Move::U)) }
    } else if y == ky {
        if x > kx { Some((Move::L, Move::R)) } else { Some((Move::R, Move::L)) }
    } else if abs(y - ky) == abs(x - kx) {
        if y > ky && x > kx {
            Some((Move::UL, Move::DR))
        } else if y > ky && x < kx {
            Some((Move::UR, Move::DL))
        } else if y < ky && x > kx {
            Some((Move::DL, Move::UR))
        } else {
            Some((Move::DR, Move::UL))
        }
    } else {
        None
    }
}

/// Whether walking from `(cx, cy)` along `d` crosses only empty squares and
/// then meets the king of `side`.
pub open spec fn reaches_own_king(b: Seq<Square>, side: usize, cx: int, cy: int, d: Move, i: int) -> bool
    decreases 7 - i,
{
    if i >= 7 || !step_on_board(cx, cy, d) {
        false
    } else {
        let nx = cx + step_of(d).0;
        let ny = cy + step_of(d).1;
        let s = at(b, nx, ny);
        if s.piece == Piece::King {
            s.color == side
        } else if s.piece == Piece::Empty {
            reaches_own_king(b, side, nx, ny, d, i + 1)
        } else {
            false
        }
    }
}

/// Whether walking from `(cx, cy)` along `away` crosses only empty squares and
/// then meets an enemy queen, rook or bishop that moves along `toward`.
pub open spec fn finds_pinner(b: Seq<Square>, side: usize, cx: int, cy: int, away: Move, toward: Move, i: int) -> bool
    decreases 7 - i,
{
    if i >= 7 || !step_on_board(cx, cy, away) {
        false
    } else {
        let nx = cx + step_of(away).0;
        let ny = cy + step_of(away).1;
        let s = at(b, nx, ny);
        if s.color == side {
            false
        } else if s.piece == Piece::Empty {
            finds_pinner(b, side, nx, ny, away, toward, i + 1)
        } else if s.piece == Piece::Queen || s.piece == Piece::Rook || s.piece == Piece::Bishop {
            s.moves_along(toward)
        } else {
            false
        }
    }
}

/// The pin axis of the piece at `(x, y)` of `side` whose king stands at `(kx, ky)`.
pub open spec fn pin_of(b: Seq<Square>, side: usize, x: int, y: int, kx: int, ky: int) -> Option<(Move, Move)> {
    match axis_towards(x, y, kx, ky) {
        None => None,
        Some(axis) => if reaches_own_king(b, side, x, y, axis.0, 0) && finds_pinner(b, side, x, y, axis.1, axis.0, 0) {
            Some(axis)
        } else {
            None
        },
    }
}

fn axis_towards_exec(x: usize, y: usize, kx: usize, ky: usize) -> (r: Option<(Move, Move)>)
    requires
        x < 8,
        y < 8,
        kx < 8,
        ky < 8,
    ensures
        r == axis_towards(x as int, y as int, kx as int, ky as int),
{
    let dx: isize = if x >= kx { (x - kx) as isize } else { (kx - x) as isize };
    let dy: isize = if y >= ky { (y - ky) as isize } else { (ky - y) as isize };
    if x == kx {
        if y > ky { Some((Move::U, Move::D)) } else { Some((Move::D, Move::U)) }
    } else if y == ky {
        if x > kx { Some((Move::L, Move::R)) } else { Some((Move::R, Move::L)) }
    } else if dy == dx {
        if y > ky && x > kx {
            Some((Move::UL, Move::DR))
        } else if y > ky && x < kx {
            Some((Move::UR, Move::DL))
        } else if y < ky && x > kx {
            Some((Move::DL, Move::UR))
        } else {
            Some((Move::DR, Move::UL))
        }
    } else {
        None
    }
}

fn walk_to_king(b: &Vec<Square>, side: usize, cx: usize, cy: usize, d: Move, i: usize) -> (r: bool)
    requires
        board_wf(b@),
        cx < 8,
        cy < 8,
        i <= 7,
    ensures
        r == reaches_own_king(b@, side, cx as int, cy as int, d, i as int),
    decreases 7 - i,
{
    if i >= 7 {
        return false;
    }
    match step_from(cx, cy, d) {
        None => false,
        Some((nx, ny)) => {
            let s = b[ny * 8 + nx];
            if s.piece == Piece::King {
                s.color == side
            } else if s.piece == Piece::Empty {
                walk_to_king(b, side, nx, ny, d, i + 1)
            } else {
                false
            }
        }
    }
}

fn walk_to_pinner(b: &Vec<Square>, side: usize, cx: usize, cy: usize, away: Move, toward: Move, i: usize) -> (r: bool)
    requires
        board_wf(b@),
        cx < 8,
        cy < 8,
        i <= 7,
    ensures
        r == finds_pinner(b@, side, cx as int, cy as int, away, toward, i as int),
    decreases 7 - i,
{
    if i >= 7 {
        return false;
    }
    match step_from(cx, cy, away) {
        None => false,
        Some((nx, ny)) => {
            let s = b[ny * 8 + nx];
            if s.color == side {
                false
            } else if s.piece == Piece::Empty {
                walk_to_pinner(b, side, nx, ny, away, toward, i + 1)
            } else if s.piece == Piece::Queen || s.piece == Piece::Rook || s.piece == Piece::Bishop {
                has_move(s.piece, s.color, toward)
            } else {
                false
            }
        }
    }
}

impl Game {
    /// The pin axis of the piece at `(x, y)`, taken as a piece of the side to
    /// move: the direction towards its king, then the opposite one.
    pub fn check_for_pin(&self, x: usize, y: usize) -> (r: Option<(Move, Move)>)
        requires
            self.wf(),
            x < 8,
            y < 8,
        ensures
            r == pin_of(self.board@, self.turn, x as int, y as int,
                self@.king_of(self.turn).0 as int, self@.king_of(self.turn).1 as int),
    {
        let (kx, ky) = self.king_square(self.turn);
        match axis_towards_exec(x, y, kx, ky) {
            None => None,
            Some(axis) => {
                if walk_to_king(&self.board, self.turn, x, y, axis.0, 0)
                    && walk_to_pinner(&self.board, self.turn, x, y, axis.1, axis.0, 0) {
                    Some(axis)
                } else {
                    None
                }
            }
        }
    }
}

} // verus!
