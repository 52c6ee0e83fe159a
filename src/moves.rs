//! Move generation: pseudo-legal destinations per piece, the legality filter
//! and castling.
use vstd::prelude::*;
use crate::piece::{Move, Piece, Square, step_of, dir_at, direction_at, has_move, WHITE, BLACK};
use crate::board::{Game, GameState, at, board_wf, step_from, step_on_board, empty_square};
use crate::attack::{attacked, is_attacked_on};
use crate::pin::pin_of;

verus! {

/// Destinations of a slider leaving `(cx, cy)` along `d` after `i` steps:
/// empty squares, then the first enemy piece; own pieces and the edge stop it.
pub open spec fn slide_seq(b: Seq<Square>, side: usize, cx: int, cy: int, d: Move, i: int) -> Seq<(usize, usize)>
    decreases 7 - i,
{
    if i >= 7 || !step_on_board(cx, cy, d) {
        Seq::empty()
    } else {
        let nx = cx + step_of(d).0;
        let ny = cy + step_of(d).1;
        let s = at(b, nx, ny);
        if s.color == side {
            Seq::empty()
        } else if s.piece == Piece::Empty {
            seq![(nx as usize, ny as usize)] + slide_seq(b, side, nx, ny, d, i + 1)
        } else {
            seq![(nx as usize, ny as usize)]
        }
    }
}

/// The single-step destination of a king or knight along `d`, if any.
pub open spec fn step_seq(b: Seq<Square>, side: usize, x: int, y: int, d: Move) -> Seq<(usize, usize)> {
    if !step_on_board(x, y, d) || at(b, x + step_of(d).0, y + step_of(d).1).color == side {
        Seq::empty()
    } else {
        seq![((x + step_of(d).0) as usize, (y + step_of(d).1) as usize)]
    }
}

pub open spec fn is_forward(d: Move) -> bool {
    d == Move::U || d == Move::D
}

/// The rank from which a pawn of `side` may advance two squares.
pub open spec fn on_start_rank(side: usize, y: int) -> bool {
    (side == WHITE && y == 6) || (side == BLACK && y == 1)
}

/// Pawn destinations along `d`: forward onto empty squares (two from the
/// start rank when both are empty), diagonally onto an enemy piece or the
/// en-passant target.
pub open spec fn pawn_seq(g: GameState, x: int, y: int, d: Move) -> Seq<(usize, usize)> {
    if !step_on_board(x, y, d) {
        Seq::empty()
    } else {
        let nx = x + step_of(d).0;
        let ny = y + step_of(d).1;
        let s = at(g.board, nx, ny);
        let p1 = (nx as usize, ny as usize);
        if is_forward(d) {
            if s.piece != Piece::Empty {
                Seq::empty()
            } else if on_start_rank(g.turn, y) && step_on_board(nx, ny, d)
                && at(g.board, nx + step_of(d).0, ny + step_of(d).1).piece == Piece::Empty {
                seq![p1, ((nx + step_of(d).0) as usize, (ny + step_of(d).1) as usize)]
            } else {
                seq![p1]
            }
        } else if s.color == g.turn {
            Seq::empty()
        } else if s.piece != Piece::Empty || g.en_passant == Some(p1) {
            seq![p1]
        } else {
            Seq::empty()
        }
    }
}

/// Destinations of the piece at `(x, y)` along direction `d`.
pub open spec fn dir_moves(g: GameState, x: int, y: int, d: Move) -> Seq<(usize, usize)> {
    let p = g.sq(x, y).piece;
    if p == Piece::Pawn {
        pawn_seq(g, x, y, d)
    } else if p == Piece::King || p == Piece::Knight {
        step_seq(g.board, g.turn, x, y, d)
    } else {
        slide_seq(g.board, g.turn, x, y, d, 0)
    }
}

/// Direction `d` is in the square's move set and, under a pin, on the pin axis.
pub open spec fn dir_allowed(s: Square, pin: Option<(Move, Move)>, d: Move) -> bool {
    &&& s.moves_along(d)
    &&& (pin matches Some(a) ==> d == a.0 || d == a.1)
}

/// Destinations along the first `k` directions of the catalog.
pub open spec fn gen_upto(g: GameState, x: int, y: int, pin: Option<(Move, Move)>, k: int) -> Seq<(usize, usize)>
    decreases k,
{
    if k <= 0 {
        Seq::empty()
    } else {
        gen_upto(g, x, y, pin, k - 1) + if dir_allowed(g.sq(x, y), pin, dir_at(k - 1)) {
            dir_moves(g, x, y, dir_at(k - 1))
        } else {
            Seq::empty()
        }
    }
}

/// The pin that restricts the piece at `(x, y)`; a king is never restricted.
pub open spec fn effective_pin(g: GameState, x: int, y: int) -> Option<(Move, Move)> {
    if g.sq(x, y).piece == Piece::King {
        None
    } else {
        pin_of(g.board, g.turn, x, y, g.king_of(g.turn).0 as int, g.king_of(g.turn).1 as int)
    }
}

/// Pseudo-legal destinations of the piece at `(x, y)`, pins applied.
pub open spec fn pseudo_moves(g: GameState, x: int, y: int) -> Seq<(usize, usize)> {
    gen_upto(g, x, y, effective_pin(g, x, y), 16)
}

/// The board after the piece at `(x, y)` moves to `p`, nothing else changed.
pub open spec fn simulate(g: GameState, x: int, y: int, p: (usize, usize)) -> Seq<Square> {
    g.board.update(y * 8 + x, empty_square()).update(p.1 * 8 + p.0, g.sq(x, y))
}

/// Where the mover's king stands after the piece at `(x, y)` moves to `p`.
pub open spec fn king_after(g: GameState, x: int, y: int, p: (usize, usize)) -> (usize, usize) {
    if g.sq(x, y).piece == Piece::King { p } else { g.king_of(g.turn) }
}

/// Moving the piece at `(x, y)` to `p` leaves the mover's king attacked.
pub open spec fn exposes_king(g: GameState, x: int, y: int, p: (usize, usize)) -> bool {
    attacked(simulate(g, x, y, p), g.turn, king_after(g, x, y, p).0 as int, king_after(g, x, y, p).1 as int)
}

/// The first `n` candidates of `c` that do not expose the mover's king.
pub open spec fn keep_safe(g: GameState, x: int, y: int, c: Seq<(usize, usize)>, n: int) -> Seq<(usize, usize)>
    decreases n,
{
    if n <= 0 {
        Seq::empty()
    } else {
        keep_safe(g, x, y, c, n - 1) + if !exposes_king(g, x, y, c[n - 1]) {
            seq![c[n - 1]]
        } else {
            Seq::empty()
        }
    }
}

/// The side to move is in check.
pub open spec fn in_check(g: GameState) -> bool {
    attacked(g.board, g.turn, g.king_of(g.turn).0 as int, g.king_of(g.turn).1 as int)
}

/// The square `(x, y)` is empty and not attacked by the opponent of the side to move.
pub open spec fn free_and_safe(g: GameState, x: int, y: int) -> bool {
    g.sq(x, y).piece == Piece::Empty && !attacked(g.board, g.turn, x, y)
}

pub open spec fn can_castle_kingside(g: GameState, x: int, y: int) -> bool {
    &&& g.right(g.turn, false)
    &&& x + 2 < 8
    &&& free_and_safe(g, x + 1, y)
    &&& free_and_safe(g, x + 2, y)
}

pub open spec fn can_castle_queenside(g: GameState, x: int, y: int) -> bool {
    &&& g.right(g.turn, true)
    &&& x >= 3
    &&& free_and_safe(g, x - 1, y)
    &&& free_and_safe(g, x - 2, y)
    &&& free_and_safe(g, x - 3, y)
}

/// The two-file king moves that castling allows from `(x, y)`.
pub open spec fn castle_moves(g: GameState, x: int, y: int) -> Seq<(usize, usize)> {
    (if can_castle_kingside(g, x, y) { seq![((x + 2) as usize, y as usize)] } else { Seq::empty() })
        + (if can_castle_queenside(g, x, y) { seq![((x - 2) as usize, y as usize)] } else { Seq::empty() })
}

/// The legal destinations of the piece at `(x, y)`: none unless it belongs to
/// the side to move. King moves, and all moves while in check, are filtered
/// by simulation; castling moves are appended to the king's.
pub open spec fn legal_moves_of(g: GameState, x: int, y: int) -> Seq<(usize, usize)> {
    let s = g.sq(x, y);
    if s.piece == Piece::Empty || s.color != g.turn {
        Seq::empty()
    } else {
        let c = pseudo_moves(g, x, y);
        let f = if s.piece == Piece::King || in_check(g) { keep_safe(g, x, y, c, c.len() as int) } else { c };
        if s.piece == Piece::King { f + castle_moves(g, x, y) } else { f }
    }
}

/// Every position of `s` lies on the board.
pub open spec fn all_on_board(s: Seq<(usize, usize)>) -> bool {
    forall|i: int| 0 <= i < s.len() ==> (#[trigger] s[i]).0 < 8 && s[i].1 < 8
}

proof fn lemma_concat_on_board(a: Seq<(usize, usize)>, b: Seq<(usize, usize)>)
    requires
        all_on_board(a),
        all_on_board(b),
    ensures
        all_on_board(a + b),
{
    assert forall|i: int| 0 <= i < (a + b).len() implies (#[trigger] (a + b)[i]).0 < 8 && (a + b)[i].1 < 8 by {
        if i < a.len() {
            assert((a + b)[i] == a[i]);
        } else {
            assert((a + b)[i] == b[i - a.len()]);
        }
    }
}

proof fn lemma_slide_on_board(b: Seq<Square>, side: usize, cx: int, cy: int, d: Move, i: int)
    ensures
        all_on_board(slide_seq(b, side, cx, cy, d, i)),
    decreases 7 - i,
{
    if i >= 7 || !step_on_board(cx, cy, d) {
    } else {
        let nx = cx + step_of(d).0;
        let ny = cy + step_of(d).1;
        lemma_slide_on_board(b, side, nx, ny, d, i + 1);
        lemma_concat_on_board(seq![(nx as usize, ny as usize)], slide_seq(b, side, nx, ny, d, i + 1));
    }
}

proof fn lemma_gen_on_board(g: GameState, x: int, y: int, pin: Option<(Move, Move)>, k: int)
    ensures
        all_on_board(gen_upto(g, x, y, pin, k)),
    decreases k,
{
    if k > 0 {
        lemma_gen_on_board(g, x, y, pin, k - 1);
        let d = dir_at(k - 1);
        lemma_slide_on_board(g.board, g.turn, x, y, d, 0);
        lemma_concat_on_board(gen_upto(g, x, y, pin, k - 1),
            if dir_allowed(g.sq(x, y), pin, d) { dir_moves(g, x, y, d) } else { Seq::empty() });
    }
}

fn push_slide(b: &Vec<Square>, side: usize, cx: usize, cy: usize, d: Move, i: usize, out: &mut Vec<(usize, usize)>)
    requires
        board_wf(b@),
        cx < 8,
        cy < 8,
        i <= 7,
    ensures
        final(out)@ == old(out)@ + slide_seq(b@, side, cx as int, cy as int, d, i as int),
    decreases 7 - i,
{
    if i >= 7 {
        assert(old(out)@ + Seq::<(usize, usize)>::empty() =~= old(out)@);
        return;
    }
    match step_from(cx, cy, d) {
        None => {
            assert(old(out)@ + Seq::<(usize, usize)>::empty() =~= old(out)@);
        },
        Some((nx, ny)) => {
            let s = b[ny * 8 + nx];
            if s.color == side {
                assert(old(out)@ + Seq::<(usize, usize)>::empty() =~= old(out)@);
            } else if s.piece == Piece::Empty {
                out.push((nx, ny));
                push_slide(b, side, nx, ny, d, i + 1, out);
                assert(out@ =~= old(out)@ + (seq![(nx, ny)] + slide_seq(b@, side, nx as int, ny as int, d, i + 1)));
            } else {
                out.push((nx, ny));
                assert(out@ =~= old(out)@ + seq![(nx, ny)]);
            }
        },
    }
}

fn push_step(b: &Vec<Square>, side: usize, x: usize, y: usize, d: Move, out: &mut Vec<(usize, usize)>)
    requires
        board_wf(b@),
        x < 8,
        y < 8,
    ensures
        final(out)@ == old(out)@ + step_seq(b@, side, x as int, y as int, d),
{
    match step_from(x, y, d) {
        None => {
            assert(old(out)@ + Seq::<(usize, usize)>::empty() =~= old(out)@);
        },
        Some((nx, ny)) => {
            if b[ny * 8 + nx].color == side {
                assert(old(out)@ + Seq::<(usize, usize)>::empty() =~= old(out)@);
            } else {
                out.push((nx, ny));
                assert(out@ =~= old(out)@ + seq![(nx, ny)]);
            }
        },
    }
}

impl Game {
    fn push_pawn(&self, x: usize, y: usize, d: Move, out: &mut Vec<(usize, usize)>)
        requires
            self.wf(),
            x < 8,
            y < 8,
        ensures
            final(out)@ == old(out)@ + pawn_seq(self@, x as int, y as int, d),
    {
        match step_from(x, y, d) {
            None => {
                assert(old(out)@ + Seq::<(usize, usize)>::empty() =~= old(out)@);
            },
            Some((nx, ny)) => {
                let s = self.board[ny * 8 + nx];
                if d == Move::U || d == Move::D {
                    if s.piece != Piece::Empty {
                        assert(old(out)@ + Seq::<(usize, usize)>::empty() =~= old(out)@);
                        return;
                    }
                    out.push((nx, ny));
                    let start = (self.turn == WHITE && y == 6) || (self.turn == BLACK && y == 1);
                    if start {
                        match step_from(nx, ny, d) {
                            Some((mx, my)) => {
                                if self.board[my * 8 + mx].piece == Piece::Empty {
                                    out.push((mx, my));
                                    assert(out@ =~= old(out)@ + seq![(nx, ny), (mx, my)]);
                                    return;
                                }
                            },
                            None => {},
                        }
                    }
                    assert(out@ =~= old(out)@ + seq![(nx, ny)]);
                } else if s.color == self.turn {
                    assert(old(out)@ + Seq::<(usize, usize)>::empty() =~= old(out)@);
                } else if s.piece != Piece::Empty || self.en_passant == Some((nx, ny)) {
                    out.push((nx, ny));
                    assert(out@ =~= old(out)@ + seq![(nx, ny)]);
                } else {
                    assert(old(out)@ + Seq::<(usize, usize)>::empty() =~= old(out)@);
                }
            },
        }
    }

    /// Pseudo-legal destinations of the piece at `(x, y)` under the given pin.
    fn generate(&self, x: usize, y: usize, pin: Option<(Move, Move)>) -> (r: Vec<(usize, usize)>)
        requires
            self.wf(),
            x < 8,
            y < 8,
        ensures
            r@ == gen_upto(self@, x as int, y as int, pin, 16),
    {
        let s = self.square(x, y);
        let mut out: Vec<(usize, usize)> = Vec::new();
        let mut k: usize = 0;
        while k < 16
            invariant
                self.wf(),
                x < 8,
                y < 8,
                k <= 16,
                s == self@.sq(x as int, y as int),
                out@ == gen_upto(self@, x as int, y as int, pin, k as int),
            decreases 16 - k,
        {
            let d = direction_at(k);
            let on_axis = match pin {
                None => true,
                Some(a) => d == a.0 || d == a.1,
            };
            if has_move(s.piece, s.color, d) && on_axis {
                if s.piece == Piece::Pawn {
                    self.push_pawn(x, y, d, &mut out);
                } else if s.piece == Piece::King || s.piece == Piece::Knight {
                    push_step(&self.board, self.turn, x, y, d, &mut out);
                } else {
                    push_slide(&self.board, self.turn, x, y, d, 0, &mut out);
                }
            } else {
                assert(out@ + Seq::<(usize, usize)>::empty() =~= out@);
            }
            k += 1;
        }
        out
    }

    /// Whether moving the piece at `(x, y)` to `p` leaves the mover's king
    /// attacked. The move is made on the board, the king is tested, and the
    /// two squares are restored.
    fn exposes_king_exec(&mut self, x: usize, y: usize, p: (usize, usize)) -> (r: bool)
        requires
            old(self).wf(),
            x < 8,
            y < 8,
            p.0 < 8,
            p.1 < 8,
        ensures
            r == exposes_king(old(self)@, x as int, y as int, p),
            final(self)@ == old(self)@,
    {
        let ghost b0 = self.board@;
        let from = y * 8 + x;
        let to = p.1 * 8 + p.0;
        let cur = self.board[from];
        let replaced = self.board[to];
        let king = if cur.piece == Piece::King { p } else { self.king_square(self.turn) };
        self.board.set(from, Square::empty());
        self.board.set(to, cur);
        assert(self.board@ == simulate(old(self)@, x as int, y as int, p));
        assert forall|i: int| 0 <= i < 64 implies (#[trigger] self.board@[i]).wf() by {
            assert(b0[i].wf());
        }
        let check = is_attacked_on(&self.board, self.turn, king.0, king.1);
        self.board.set(to, replaced);
        self.board.set(from, cur);
        assert(self.board@ =~= b0);
        check
    }

    /// The candidates of `cands` that do not leave the mover's king attacked.
    pub fn filter_legal_moves(&mut self, x: usize, y: usize, cands: &Vec<(usize, usize)>) -> (r: Vec<(usize, usize)>)
        requires
            old(self).wf(),
            x < 8,
            y < 8,
            forall|i: int| 0 <= i < cands@.len() ==> (#[trigger] cands@[i]).0 < 8 && cands@[i].1 < 8,
        ensures
            r@ == keep_safe(old(self)@, x as int, y as int, cands@, cands@.len() as int),
            final(self)@ == old(self)@,
    {
        let mut out: Vec<(usize, usize)> = Vec::new();
        let mut i: usize = 0;
        while i < cands.len()
            invariant
                self@ == old(self)@,
                self.wf(),
                x < 8,
                y < 8,
                i <= cands@.len(),
                forall|j: int| 0 <= j < cands@.len() ==> (#[trigger] cands@[j]).0 < 8 && cands@[j].1 < 8,
                out@ == keep_safe(old(self)@, x as int, y as int, cands@, i as int),
            decreases cands@.len() - i,
        {
            let p = cands[i];
            let bad = self.exposes_king_exec(x, y, p);
            if !bad {
                out.push(p);
            } else {
                assert(out@ + Seq::<(usize, usize)>::empty() =~= out@);
            }
            i += 1;
        }
        out
    }

    fn castle_side_free(&self, x: usize, y: usize, queenside: bool) -> (r: bool)
        requires
            self.wf(),
            x < 8,
            y < 8,
        ensures
            r == if queenside { can_castle_queenside(self@, x as int, y as int) }
                 else { can_castle_kingside(self@, x as int, y as int) },
    {
        if !self.castling_right(self.turn, queenside) {
            return false;
        }
        if queenside {
            x >= 3 && self.free_and_safe_exec(x - 1, y) && self.free_and_safe_exec(x - 2, y)
                && self.free_and_safe_exec(x - 3, y)
        } else {
            x + 2 < 8 && self.free_and_safe_exec(x + 1, y) && self.free_and_safe_exec(x + 2, y)
        }
    }

    fn free_and_safe_exec(&self, x: usize, y: usize) -> (r: bool)
        requires
            self.wf(),
            x < 8,
            y < 8,
        ensures
            r == free_and_safe(self@, x as int, y as int),
    {
        self.square(x, y).piece == Piece::Empty && !self.is_attacked(x, y)
    }

    /// The legal destinations of the piece at `(x, y)`; none for an empty
    /// square or a piece of the side not to move.
    pub fn legal_moves(&mut self, x: usize, y: usize) -> (r: Vec<(usize, usize)>)
        requires
            old(self).wf(),
            x < 8,
            y < 8,
        ensures
            r@ == legal_moves_of(old(self)@, x as int, y as int),
            final(self)@ == old(self)@,
    {
        let s = self.square(x, y);
        if s.piece == Piece::Empty || s.color != self.turn {
            return Vec::new();
        }
        let pin = if s.piece == Piece::King { None } else { self.check_for_pin(x, y) };
        let cands = self.generate(x, y, pin);
        proof { lemma_gen_on_board(self@, x as int, y as int, pin, 16); }
        let (kx, ky) = self.king_square(self.turn);
        let filtered = if s.piece == Piece::King || self.is_attacked(kx, ky) {
            self.filter_legal_moves(x, y, &cands)
        } else {
            cands
        };
        if s.piece == Piece::King {
            let mut all = filtered;
            let ghost f = all@;
            if self.castle_side_free(x, y, false) {
                all.push((x + 2, y));
            }
            if self.castle_side_free(x, y, true) {
                all.push((x - 2, y));
            }
            assert(all@ =~= f + castle_moves(self@, x as int, y as int));
            all
        } else {
            filtered
        }
    }
}

} // verus!
