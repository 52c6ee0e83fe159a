//! Move application and terminal-state detection.
use vstd::prelude::*;
use crate::piece::{Piece, Square, WHITE, BLACK};
use crate::board::{Game, GameState, on_board, other, empty_square};
use crate::moves::{legal_moves_of, in_check};

verus! {

/// How the game stands for the side to move.
#[derive(Clone, Copy, PartialEq, Eq, Structural, Debug)]
pub enum Terminal {
    Ongoing,
    Checkmate,
    Stalemate,
}

/// What a move did to the game.
#[derive(Clone, Copy, PartialEq, Eq, Structural, Debug)]
pub struct MoveOutcome {
    /// The side now to move is in check.
    pub check: bool,
    pub terminal: Terminal,
    /// A pawn reached its last rank and awaits the piece it becomes; the turn
    /// has not passed yet.
    pub pending_promotion: bool,
}

#[derive(Clone, Copy, PartialEq, Eq, Structural, Debug)]
pub enum MoveError {
    /// The destination is not among the legal moves of the selected piece.
    IllegalSelection,
    /// A pawn may only become a queen, rook, bishop or knight.
    InvalidPromotion,
    /// No pawn of the side to move waits for promotion on that square.
    NoPendingPromotion,
}

/// The side to move has a piece with a legal move.
pub open spec fn has_legal_move(g: GameState) -> bool {
    exists|x: int, y: int| on_board(x, y) && #[trigger] legal_moves_of(g, x, y).len() > 0
}

pub open spec fn terminal_of(g: GameState) -> Terminal {
    if has_legal_move(g) {
        Terminal::Ongoing
    } else if in_check(g) {
        Terminal::Checkmate
    } else {
        Terminal::Stalemate
    }
}

pub open spec fn is_promotion_piece(p: Piece) -> bool {
    p == Piece::Queen || p == Piece::Rook || p == Piece::Bishop || p == Piece::Knight
}

pub open spec fn idx(p: (usize, usize)) -> int {
    p.1 * 8 + p.0
}

/// The row of the pawn taken en passant by a pawn of `side` landing on row `y`.
pub open spec fn behind(side: usize, y: int) -> int {
    if side == WHITE { y + 1 } else { y - 1 }
}

pub open spec fn mover(g: GameState, from: (usize, usize)) -> Square {
    g.sq(from.0 as int, from.1 as int)
}

pub open spec fn is_capture(g: GameState, to: (usize, usize)) -> bool {
    g.sq(to.0 as int, to.1 as int).piece != Piece::Empty
}

pub open spec fn takes_en_passant(g: GameState, from: (usize, usize), to: (usize, usize)) -> bool {
    mover(g, from).piece == Piece::Pawn && g.en_passant == Some(to) && on_board(to.0 as int, behind(g.turn, to.1 as int))
}

pub open spec fn is_castle(g: GameState, from: (usize, usize), to: (usize, usize)) -> bool {
    mover(g, from).piece == Piece::King && (to.0 == from.0 + 2 || from.0 == to.0 + 2)
}

pub open spec fn promotes(g: GameState, from: (usize, usize), to: (usize, usize)) -> bool {
    mover(g, from).piece == Piece::Pawn && to.1 == (if g.turn == WHITE { 0usize } else { 7usize })
}

/// The board after the move: the pawn taken en passant removed, the castling
/// rook beside the king, the piece moved, and a promotion applied.
pub open spec fn board_after(g: GameState, from: (usize, usize), to: (usize, usize), promo: Option<Piece>) -> Seq<Square> {
    let b1 = if takes_en_passant(g, from, to) {
        g.board.update(behind(g.turn, to.1 as int) * 8 + to.0, empty_square())
    } else {
        g.board
    };
    let rook = Square { piece: Piece::Rook, color: g.turn };
    let b2 = if is_castle(g, from, to) {
        if to.0 > from.0 {
            b1.update(idx(to) - 1, rook).update(to.1 * 8 + 7, empty_square())
        } else {
            b1.update(idx(to) + 1, rook).update(to.1 * 8, empty_square())
        }
    } else {
        b1
    };
    let b3 = b2.update(idx(to), mover(g, from)).update(idx(from), empty_square());
    if promotes(g, from, to) && promo is Some {
        b3.update(idx(to), Square { piece: promo->Some_0, color: g.turn })
    } else {
        b3
    }
}

/// The en-passant target after the move.
pub open spec fn en_passant_after(g: GameState, from: (usize, usize), to: (usize, usize)) -> Option<(usize, usize)> {
    if mover(g, from).piece == Piece::Pawn && (to.1 == from.1 + 2 || from.1 == to.1 + 2)
        && on_board(to.0 as int, behind(g.turn, to.1 as int)) {
        Some((to.0, behind(g.turn, to.1 as int) as usize))
    } else {
        None
    }
}

/// A castling right after the move: a king move clears both of its side, a
/// rook leaving file H or A clears the kingside or queenside one.
pub open spec fn right_after(g: GameState, from: (usize, usize), side: usize, queenside: bool) -> bool {
    let p = mover(g, from).piece;
    if side == g.turn && (p == Piece::King || (p == Piece::Rook && ((!queenside && from.0 == 7) || (queenside && from.0 == 0)))) {
        false
    } else {
        g.right(side, queenside)
    }
}

pub open spec fn halfmove_after(g: GameState, from: (usize, usize), to: (usize, usize)) -> int {
    if mover(g, from).piece == Piece::Pawn || is_capture(g, to) { 0 } else { g.halfmove_clock + 1 }
}

/// The move leaves a pawn on its last rank with no piece chosen yet.
pub open spec fn pending(g: GameState, from: (usize, usize), to: (usize, usize), promo: Option<Piece>) -> bool {
    promotes(g, from, to) && promo is None
}

/// The fullmove number after a turn passes from `side`.
pub open spec fn fullmoves_after(side: usize, n: int) -> int {
    if side == BLACK { n + 1 } else { n }
}

/// What a finished turn reports for the position `g` now to move.
pub open spec fn outcome_of(g: GameState) -> MoveOutcome {
    MoveOutcome { check: in_check(g), terminal: terminal_of(g), pending_promotion: false }
}

impl Game {
    /// Whether the side to move has any legal move.
    pub fn any_legal_move(&mut self) -> (r: bool)
        requires
            old(self).wf(),
        ensures
            r == has_legal_move(old(self)@),
            final(self)@ == old(self)@,
    {
        let mut y: usize = 0;
        while y < 8
            invariant
                self@ == old(self)@,
                self.wf(),
                y <= 8,
                forall|a: int, b: int| 0 <= a < 8 && 0 <= b < y ==> #[trigger] legal_moves_of(self@, a, b).len() == 0,
            decreases 8 - y,
        {
            let mut x: usize = 0;
            while x < 8
                invariant
                    self@ == old(self)@,
                    self.wf(),
                    y < 8,
                    x <= 8,
                    forall|a: int, b: int| 0 <= a < 8 && 0 <= b < y ==> #[trigger] legal_moves_of(self@, a, b).len() == 0,
                    forall|a: int| 0 <= a < x ==> #[trigger] legal_moves_of(self@, a, y as int).len() == 0,
                decreases 8 - x,
            {
                let m = self.legal_moves(x, y);
                if m.len() > 0 {
                    assert(legal_moves_of(self@, x as int, y as int).len() > 0);
                    return true;
                }
                x += 1;
            }
            y += 1;
        }
        assert(!has_legal_move(self@)) by {
            assert forall|a: int, b: int| on_board(a, b) implies #[trigger] legal_moves_of(self@, a, b).len() == 0 by {}
        }
        false
    }

    /// Checkmate, stalemate or neither, for the side to move.
    pub fn check_for_mate(&mut self) -> (r: Terminal)
        requires
            old(self).wf(),
        ensures
            r == terminal_of(old(self)@),
            final(self)@ == old(self)@,
    {
        if self.any_legal_move() {
            Terminal::Ongoing
        } else {
            let (kx, ky) = self.king_square(self.turn);
            if self.is_attacked(kx, ky) { Terminal::Checkmate } else { Terminal::Stalemate }
        }
    }

    /// Passes the turn, counting a full move after Black's, and reports the
    /// check flag and terminal state of the side now to move.
    fn update_turn(&mut self) -> (r: MoveOutcome)
        requires
            old(self).wf(),
            old(self).fullmoves < usize::MAX,
        ensures
            final(self).wf(),
            final(self)@ == (GameState {
                turn: other(old(self).turn),
                fullmoves: fullmoves_after(old(self).turn, old(self).fullmoves as int) as usize,
                ..old(self)@
            }),
            r == outcome_of(final(self)@),
    {
        if self.turn == WHITE {
            self.turn = BLACK;
        } else {
            self.turn = WHITE;
            self.fullmoves = self.fullmoves + 1;
        }
        let (kx, ky) = self.king_square(self.turn);
        let check = self.is_attacked(kx, ky);
        let terminal = self.check_for_mate();
        MoveOutcome { check, terminal, pending_promotion: false }
    }
}

/// `to` is a legal destination of the piece at `from`.
pub open spec fn legal_move(g: GameState, from: (usize, usize), to: (usize, usize)) -> bool {
    legal_moves_of(g, from.0 as int, from.1 as int).contains(to)
}

/// A promotion choice that is given but names no promotion piece.
pub open spec fn bad_choice(promo: Option<Piece>) -> bool {
    promo matches Some(p) && !is_promotion_piece(p)
}

fn promotion_piece(p: Piece) -> (r: bool)
    ensures
        r == is_promotion_piece(p),
{
    p == Piece::Queen || p == Piece::Rook || p == Piece::Bishop || p == Piece::Knight
}

fn contains_pos(v: &Vec<(usize, usize)>, p: (usize, usize)) -> (r: bool)
    ensures
        r == v@.contains(p),
{
    let mut i: usize = 0;
    while i < v.len()
        invariant
            i <= v@.len(),
            forall|j: int| 0 <= j < i ==> v@[j] != p,
        decreases v@.len() - i,
    {
        let q = v[i];
        if q.0 == p.0 && q.1 == p.1 {
            assert(v@[i as int] == p);
            return true;
        }
        i += 1;
    }
    false
}

impl Game {
    /// Writes square `s` at index `i` of the board.
    fn put(&mut self, i: usize, s: Square)
        requires
            old(self).wf(),
            i < 64,
            s.wf(),
        ensures
            final(self).wf(),
            final(self)@ == (GameState { board: old(self)@.board.update(i as int, s), ..old(self)@ }),
    {
        self.board.set(i, s);
        assert forall|j: int| 0 <= j < 64 implies (#[trigger] self.board@[j]).wf() by {
            if j != i {
                assert(self.board@[j] == old(self).board@[j]);
            }
        }
    }


    /// The board part of a move; see `board_after`.
    fn move_pieces(&mut self, from: (usize, usize), to: (usize, usize), promotion: Option<Piece>)
        requires
            old(self).wf(),
            from.0 < 8 && from.1 < 8,
            to.0 < 8 && to.1 < 8,
            promotion matches Some(p) ==> is_promotion_piece(p),
            mover(old(self)@, from).piece != Piece::Empty,
            old(self).turn < 2,
        ensures
            final(self).wf(),
            final(self)@ == (GameState { board: board_after(old(self)@, from, to, promotion), ..old(self)@ }),
    {
        let ghost g = self@;
        let (fx, fy) = from;
        let (tx, ty) = to;
        let moving = self.square(fx, fy);
        let turn = self.turn;
        if moving.piece == Piece::Pawn && self.en_passant == Some(to) {
            if turn == WHITE {
                if ty + 1 < 8 {
                    self.put((ty + 1) * 8 + tx, Square::empty());
                }
            } else if ty >= 1 {
                self.put((ty - 1) * 8 + tx, Square::empty());
            }
        }
        if moving.piece == Piece::King && (tx == fx + 2 || fx == tx + 2) {
            if tx > fx {
                self.put(ty * 8 + tx - 1, Square::new(Piece::Rook, turn));
                self.put(ty * 8 + 7, Square::empty());
            } else {
                self.put(ty * 8 + tx + 1, Square::new(Piece::Rook, turn));
                self.put(ty * 8, Square::empty());
            }
        }
        self.put(ty * 8 + tx, moving);
        self.put(fy * 8 + fx, Square::empty());
        let last_rank: usize = if turn == WHITE { 0 } else { 7 };
        if moving.piece == Piece::Pawn && ty == last_rank {
            if let Some(p) = promotion {
                self.put(ty * 8 + tx, Square::new(p, turn));
            }
        }
    }

    /// The clock, en-passant, castling-rights and king-square part of a move
    /// made from `g`.
    fn update_bookkeeping(&mut self, from: (usize, usize), to: (usize, usize), moving: Square, capture: bool, g: Ghost<GameState>)
        requires
            old(self).wf(),
            from.0 < 8 && from.1 < 8,
            to.0 < 8 && to.1 < 8,
            moving == mover(g@, from),
            capture == is_capture(g@, to),
            old(self).turn == g@.turn,
            old(self).castling_rights == g@.castling_rights,
            old(self).king_coords == g@.king_coords,
            old(self).halfmove_clock == g@.halfmove_clock,
            g@.halfmove_clock < usize::MAX,
        ensures
            final(self).wf(),
            final(self)@ == (GameState {
                en_passant: en_passant_after(g@, from, to),
                castling_rights: final(self).castling_rights,
                king_coords: final(self).king_coords,
                halfmove_clock: halfmove_after(g@, from, to) as usize,
                ..old(self)@
            }),
            forall|side: usize, q: bool| side < 2 ==> #[trigger] final(self)@.right(side, q) == right_after(g@, from, side, q),
            final(self)@.king_of(g@.turn) == (if moving.piece == Piece::King { to } else { g@.king_of(g@.turn) }),
            final(self)@.king_of(other(g@.turn)) == g@.king_of(other(g@.turn)),
    {
        let (fx, fy) = from;
        let (tx, ty) = to;
        let turn = self.turn;
        if moving.piece == Piece::Pawn || capture {
            self.halfmove_clock = 0;
        } else {
            self.halfmove_clock = self.halfmove_clock + 1;
        }
        let two_ranks = ty == fy + 2 || fy == ty + 2;
        self.en_passant = if moving.piece == Piece::Pawn && two_ranks {
            if turn == WHITE {
                if ty + 1 < 8 { Some((tx, ty + 1)) } else { None }
            } else if ty >= 1 {
                Some((tx, ty - 1))
            } else {
                None
            }
        } else {
            None
        };
        let w = self.castling_rights[0];
        let b = self.castling_rights[1];
        let clear_kingside = moving.piece == Piece::King || (moving.piece == Piece::Rook && fx == 7);
        let clear_queenside = moving.piece == Piece::King || (moving.piece == Piece::Rook && fx == 0);
        let wk = if turn == WHITE && clear_kingside { false } else { w[0] };
        let wq = if turn == WHITE && clear_queenside { false } else { w[1] };
        let bk = if turn == BLACK && clear_kingside { false } else { b[0] };
        let bq = if turn == BLACK && clear_queenside { false } else { b[1] };
        self.castling_rights = [[wk, wq], [bk, bq]];
        if moving.piece == Piece::King {
            let kc = self.king_coords;
            self.king_coords = if turn == WHITE { [to, kc[1]] } else { [kc[0], to] };
        }
    }

    /// Plays the piece at `from` to `to`: updates the halfmove clock, takes en
    /// passant, sets the en-passant target, castling rights, the castling
    /// rook and the king's square, moves the piece, promotes it to `promotion`
    /// on the last rank and passes the turn. Without a choice on a promotion
    /// the turn stays, pending `promote_pawn`.
    pub fn apply_move(&mut self, from: (usize, usize), to: (usize, usize), promotion: Option<Piece>) -> (r: Result<MoveOutcome, MoveError>)
        requires
            old(self).wf(),
            from.0 < 8 && from.1 < 8,
            to.0 < 8 && to.1 < 8,
            old(self).halfmove_clock < usize::MAX,
            old(self).fullmoves < usize::MAX,
        ensures
            final(self).wf(),
            bad_choice(promotion) ==> r == Err::<MoveOutcome, MoveError>(MoveError::InvalidPromotion) && final(self)@ == old(self)@,
            !bad_choice(promotion) && !legal_move(old(self)@, from, to)
                ==> r == Err::<MoveOutcome, MoveError>(MoveError::IllegalSelection) && final(self)@ == old(self)@,
            !bad_choice(promotion) && legal_move(old(self)@, from, to) ==> {
                let g = old(self)@;
                let n = final(self)@;
                let waits = pending(g, from, to, promotion);
                &&& r is Ok
                &&& n.board == board_after(g, from, to, promotion)
                &&& n.en_passant == en_passant_after(g, from, to)
                &&& (forall|side: usize, q: bool| side < 2 ==> #[trigger] n.right(side, q) == right_after(g, from, side, q))
                &&& n.king_of(g.turn) == (if mover(g, from).piece == Piece::King { to } else { g.king_of(g.turn) })
                &&& n.king_of(other(g.turn)) == g.king_of(other(g.turn))
                &&& n.halfmove_clock == halfmove_after(g, from, to)
                &&& n.turn == (if waits { g.turn } else { other(g.turn) })
                &&& n.fullmoves == (if waits { g.fullmoves as int } else { fullmoves_after(g.turn, g.fullmoves as int) })
                &&& r->Ok_0 == (if waits {
                        MoveOutcome { check: false, terminal: Terminal::Ongoing, pending_promotion: true }
                    } else {
                        outcome_of(n)
                    })
            },
    {
        if let Some(p) = promotion {
            if !promotion_piece(p) {
                return Err(MoveError::InvalidPromotion);
            }
        }
        let legal = self.legal_moves(from.0, from.1);
        if !contains_pos(&legal, to) {
            return Err(MoveError::IllegalSelection);
        }
        let moving = self.square(from.0, from.1);
        let target = self.square(to.0, to.1);
        let ghost g = self@;
        self.move_pieces(from, to, promotion);
        self.update_bookkeeping(from, to, moving, target.piece != Piece::Empty, Ghost(g));
        let (tx, ty) = to;
        let turn = self.turn;
        let last_rank: usize = if turn == WHITE { 0 } else { 7 };
        if moving.piece == Piece::Pawn && ty == last_rank {
            match promotion {
                None => {
                    return Ok(MoveOutcome { check: false, terminal: Terminal::Ongoing, pending_promotion: true });
                },
                Some(_) => {},
            }
        }
        let ghost mid = self@;
        let outcome = self.update_turn();
        assert forall|side: usize, q: bool| side < 2 implies #[trigger] self@.right(side, q) == right_after(g, from, side, q) by {
            assert(self@.right(side, q) == mid.right(side, q));
        }
        Ok(outcome)
    }
}

/// The row on which a pawn of `side` promotes.
pub open spec fn last_rank(side: usize) -> int {
    if side == WHITE { 0 } else { 7 }
}

impl Game {
    /// Turns the pawn of the side to move at `(x, y)`, which waits on its last
    /// rank after `apply_move`, into `piece` and passes the turn.
    pub fn promote_pawn(&mut self, x: usize, y: usize, piece: Piece) -> (r: Result<MoveOutcome, MoveError>)
        requires
            old(self).wf(),
            x < 8,
            y < 8,
            old(self).fullmoves < usize::MAX,
        ensures
            final(self).wf(),
            !is_promotion_piece(piece) ==> r == Err::<MoveOutcome, MoveError>(MoveError::InvalidPromotion) && final(self)@ == old(self)@,
            is_promotion_piece(piece) && !(old(self)@.sq(x as int, y as int) == Square { piece: Piece::Pawn, color: old(self).turn } && y == last_rank(old(self).turn))
                ==> r == Err::<MoveOutcome, MoveError>(MoveError::NoPendingPromotion) && final(self)@ == old(self)@,
            is_promotion_piece(piece) && old(self)@.sq(x as int, y as int) == (Square { piece: Piece::Pawn, color: old(self).turn }) && y == last_rank(old(self).turn)
                ==> {
                &&& final(self)@ == (GameState {
                    board: old(self)@.board.update(y * 8 + x, Square { piece, color: old(self).turn }),
                    turn: other(old(self).turn),
                    fullmoves: fullmoves_after(old(self).turn, old(self).fullmoves as int) as usize,
                    ..old(self)@
                })
                &&& r == Ok::<MoveOutcome, MoveError>(outcome_of(final(self)@))
            },
    {
        if !promotion_piece(piece) {
            return Err(MoveError::InvalidPromotion);
        }
        let s = self.square(x, y);
        let last: usize = if self.turn == WHITE { 0 } else { 7 };
        if !(s.piece == Piece::Pawn && s.color == self.turn && y == last) {
            return Err(MoveError::NoPendingPromotion);
        }
        self.put(y * 8 + x, Square::new(piece, self.turn));
        Ok(self.update_turn())
    }

    /// Puts `piece` of `color` on `(x, y)`, outside the rules of play. A king
    /// placed this way becomes its side's king and loses both castling rights.
    pub fn place_piece(&mut self, piece: Piece, color: usize, x: usize, y: usize)
        requires
            old(self).wf(),
            x < 8,
            y < 8,
            (Square { piece, color }).wf(),
        ensures
            final(self).wf(),
            final(self)@.board == old(self)@.board.update(y * 8 + x, Square { piece, color }),
            final(self)@.turn == old(self)@.turn,
            final(self)@.en_passant == old(self)@.en_passant,
            final(self)@.halfmove_clock == old(self)@.halfmove_clock,
            final(self)@.fullmoves == old(self)@.fullmoves,
            forall|side: usize, q: bool| side < 2 ==> #[trigger] final(self)@.right(side, q)
                == (old(self)@.right(side, q) && !(piece == Piece::King && side == color)),
            forall|side: usize| side < 2 ==> #[trigger] final(self)@.king_of(side)
                == (if piece == Piece::King && side == color { (x, y) } else { old(self)@.king_of(side) }),
    {
        self.put(y * 8 + x, Square::new(piece, color));
        if piece == Piece::King {
            let kc = self.king_coords;
            let cr = self.castling_rights;
            if color == WHITE {
                self.king_coords = [(x, y), kc[1]];
                self.castling_rights = [[false, false], cr[1]];
            } else {
                self.king_coords = [kc[0], (x, y)];
                self.castling_rights = [cr[0], [false, false]];
            }
        }
    }

    /// Empties `(x, y)`, outside the rules of play.
    pub fn empty_square(&mut self, x: usize, y: usize)
        requires
            old(self).wf(),
            x < 8,
            y < 8,
        ensures
            final(self).wf(),
            final(self)@ == (GameState { board: old(self)@.board.update(y * 8 + x, empty_square()), ..old(self)@ }),
    {
        self.put(y * 8 + x, Square::empty());
    }
}

} // verus!
