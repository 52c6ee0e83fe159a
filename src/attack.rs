//! Attack detection: ray casting from a square along the sixteen directions.
use vstd::prelude::*;
use rayon::iter::{IntoParallelIterator, ParallelIterator};
use crate::piece::{Move, Piece, Square, step_of, dir_at, direction_at, has_move, WHITE};
use crate::board::{Game, at, board_wf, step_from, step_on_board};

verus! {

/// The diagonals along which a pawn attacking a piece of `side` is found.
pub open spec fn pawn_attack_dir(side: usize, d: Move) -> bool {
    if side == WHITE {
        d == Move::UL || d == Move::UR
    } else {
        d == Move::DL || d == Move::DR
    }
}

/// Whether the ray that leaves `(cx, cy)` along `d`, having already made `i`
/// steps, meets a piece that attacks the ray's origin on behalf of the side
/// opposing `side`. Pieces of `side` stop the ray.
pub open spec fn ray_hits(b: Seq<Square>, side: usize, cx: int, cy: int, d: Move, i: int) -> bool
    decreases 7 - i,
{
    if i >= 7 || !step_on_board(cx, cy, d) {
        false
    } else {
        let nx = cx + step_of(d).0;
        let ny = cy + step_of(d).1;
        let s = at(b, nx, ny);
        if s.color == side {
            false
        } else if s.piece == Piece::Empty {
            ray_hits(b, side, nx, ny, d, i + 1)
        } else if s.piece == Piece::King || s.piece == Piece::Knight {
            i == 0 && s.moves_along(d)
        } else if s.piece == Piece::Pawn {
            i == 0 && pawn_attack_dir(side, d)
        } else {
            s.moves_along(d)
        }
    }
}

/// Whether `(x, y)` is attacked by the opponent of `side`.
pub open spec fn attacked(b: Seq<Square>, side: usize, x: int, y: int) -> bool {
    exists|k: int| 0 <= k < 16 && #[trigger] ray_hits(b, side, x, y, dir_at(k), 0)
}

fn pawn_attacks_along(side: usize, d: Move) -> (r: bool)
    ensures
        r == pawn_attack_dir(side, d),
{
    if side == WHITE {
        d == Move::UL || d == Move::UR
    } else {
        d == Move::DL || d == Move::DR
    }
}

/// Casts one ray; see `ray_hits`.
pub fn cast_ray(b: &Vec<Square>, side: usize, cx: usize, cy: usize, d: Move, i: usize) -> (r: bool)
    requires
        board_wf(b@),
        cx < 8,
        cy < 8,
        i <= 7,
    ensures
        r == ray_hits(b@, side, cx as int, cy as int, d, i as int),
    decreases 7 - i,
{
    if i >= 7 {
        return false;
    }
    match step_from(cx, cy, d) {
        None => false,
        Some((nx, ny)) => {
            let s = b[ny * 8 + nx];
            if s.color == side {
                false
            } else if s.piece == Piece::Empty {
                cast_ray(b, side, nx, ny, d, i + 1)
            } else if s.piece == Piece::King || s.piece == Piece::Knight {
                i == 0 && has_move(s.piece, s.color, d)
            } else if s.piece == Piece::Pawn {
                i == 0 && pawn_attacks_along(side, d)
            } else {
                has_move(s.piece, s.color, d)
            }
        }
    }
}

/// Casts the ray along the direction of index `k`.
pub fn direction_hits(b: &Vec<Square>, side: usize, x: usize, y: usize, k: usize) -> (r: bool)
    requires
        board_wf(b@),
        x < 8,
        y < 8,
        k < 16,
    ensures
        r == ray_hits(b@, side, x as int, y as int, dir_at(k as int), 0),
{
    cast_ray(b, side, x, y, direction_at(k), 0)
}

/// Relies on rayon's `ParallelIterator::any` over the range `0..16`: it returns
/// true exactly when the predicate, here `direction_hits`, holds of some index.
/// The rays are pure reads of the board and are evaluated concurrently.
#[verifier::external_body]
fn any_direction_hits(b: &Vec<Square>, side: usize, x: usize, y: usize) -> (r: bool)
    requires
        board_wf(b@),
        x < 8,
        y < 8,
    ensures
        r == attacked(b@, side, x as int, y as int),
{
    (0..16usize).into_par_iter().any(|k| direction_hits(b, side, x, y, k))
}

/// Whether `(x, y)` is attacked by the opponent of `side` on board `b`.
pub fn is_attacked_on(b: &Vec<Square>, side: usize, x: usize, y: usize) -> (r: bool)
    requires
        board_wf(b@),
        x < 8,
        y < 8,
    ensures
        r == attacked(b@, side, x as int, y as int),
{
    any_direction_hits(b, side, x, y)
}

impl Game {
    /// Whether `(x, y)` is attacked by the side not to move.
    pub fn is_attacked(&self, x: usize, y: usize) -> (r: bool)
        requires
            self.wf(),
            x < 8,
            y < 8,
        ensures
            r == attacked(self.board@, self.turn, x as int, y as int),
    {
        is_attacked_on(&self.board, self.turn, x, y)
    }

    /// Whether the king of `side` is attacked.
    pub fn is_in_check(&self, side: usize) -> (r: bool)
        requires
            self.wf(),
            side < 2,
        ensures
            r == attacked(self.board@, side, self@.king_of(side).0 as int, self@.king_of(side).1 as int),
    {
        let (kx, ky) = self.king_square(side);
        is_attacked_on(&self.board, side, kx, ky)
    }
}

} // verus!
