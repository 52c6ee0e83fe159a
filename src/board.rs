//! The game state and its board, and the queries that read them.
use vstd::prelude::*;
use crate::piece::{Move, Piece, Square, step_of, WHITE, BLACK, NO_COLOR};

verus! {

/// Whether `(x, y)` lies on the 8x8 board; `y` is the row, row 0 being rank 8.
pub open spec fn on_board(x: int, y: int) -> bool {
    0 <= x < 8 && 0 <= y < 8
}

/// The square at file `x`, row `y` of a row-major board.
pub open spec fn at(b: Seq<Square>, x: int, y: int) -> Square {
    b[y * 8 + x]
}

/// A board has 64 well-formed squares.
pub open spec fn board_wf(b: Seq<Square>) -> bool {
    &&& b.len() == 64
    &&& forall|i: int| 0 <= i < 64 ==> (#[trigger] b[i]).wf()
}

/// Position of each side's king, castling rights and turn, plus the board.
#[derive(Clone, Debug, PartialEq, Eq)]
pub struct Game {
    /// The 64 squares, row-major, row 0 being rank 8.
    pub board: Vec<Square>,
    /// The side to move: `WHITE` or `BLACK`.
    pub turn: usize,
    /// The square a pawn passed over on the last move, if it advanced two ranks.
    pub en_passant: Option<(usize, usize)>,
    /// `castling_rights[side][0]` is kingside, `[side][1]` queenside.
    pub castling_rights: [[bool; 2]; 2],
    /// The square of each side's king.
    pub king_coords: [(usize, usize); 2],
    pub halfmove_clock: usize,
    pub fullmoves: usize,
}

/// The mathematical model of a `Game`.
pub struct GameState {
    pub board: Seq<Square>,
    pub turn: usize,
    pub en_passant: Option<(usize, usize)>,
    pub castling_rights: [[bool; 2]; 2],
    pub king_coords: [(usize, usize); 2],
    pub halfmove_clock: usize,
    pub fullmoves: usize,
}

impl GameState {
    pub open spec fn wf(&self) -> bool {
        &&& board_wf(self.board)
        &&& self.turn < 2
        &&& self.king_coords@[0].0 < 8 && self.king_coords@[0].1 < 8
        &&& self.king_coords@[1].0 < 8 && self.king_coords@[1].1 < 8
        &&& (self.en_passant matches Some(p) ==> p.0 < 8 && p.1 < 8)
    }

    pub open spec fn sq(&self, x: int, y: int) -> Square {
        at(self.board, x, y)
    }

    /// Square of the king of `side`.
    pub open spec fn king_of(&self, side: usize) -> (usize, usize) {
        self.king_coords@[side as int]
    }

    pub open spec fn right(&self, side: usize, queenside: bool) -> bool {
        self.castling_rights@[side as int]@[if queenside { 1int } else { 0int }]
    }
}

impl View for Game {
    type V = GameState;

    open spec fn view(&self) -> GameState {
        GameState {
            board: self.board@,
            turn: self.turn,
            en_passant: self.en_passant,
            castling_rights: self.castling_rights,
            king_coords: self.king_coords,
            halfmove_clock: self.halfmove_clock,
            fullmoves: self.fullmoves,
        }
    }
}

impl Game {
    pub open spec fn wf(&self) -> bool {
        self@.wf()
    }

    /// The square at `(x, y)`.
    pub fn square(&self, x: usize, y: usize) -> (r: Square)
        requires
            self.wf(),
            x < 8,
            y < 8,
        ensures
            r == self@.sq(x as int, y as int),
            r.wf(),
    {
        self.board[y * 8 + x]
    }

    /// Square of the king of `side`.
    pub fn king_square(&self, side: usize) -> (r: (usize, usize))
        requires
            self.wf(),
            side < 2,
        ensures
            r == self@.king_of(side),
            r.0 < 8 && r.1 < 8,
    {
        self.king_coords[side]
    }

    /// The castling right of `side` on the given wing.
    pub fn castling_right(&self, side: usize, queenside: bool) -> (r: bool)
        requires
            side < 2,
        ensures
            r == self@.right(side, queenside),
    {
        let pair = self.castling_rights[side];
        if queenside { pair[1] } else { pair[0] }
    }
}

/// The other side.
pub open spec fn other(side: usize) -> usize {
    if side == WHITE { BLACK } else { WHITE }
}

/// Whether `(x, y)` plus the step of `d` stays on the board.
pub open spec fn step_on_board(x: int, y: int, d: Move) -> bool {
    on_board(x + step_of(d).0, y + step_of(d).1)
}

/// One step from `(x, y)` along `d`, if it stays on the board.
pub fn step_from(x: usize, y: usize, d: Move) -> (r: Option<(usize, usize)>)
    requires
        x < 8,
        y < 8,
    ensures
        r is Some <==> step_on_board(x as int, y as int, d),
        r matches Some(p) ==> p.0 as int == x + step_of(d).0 && p.1 as int == y + step_of(d).1,
{
    let (dx, dy) = crate::piece::get_change_from_move(d);
    let nx: isize = x as isize + dx;
    let ny: isize = y as isize + dy;
    if nx < 0 || nx > 7 || ny < 0 || ny > 7 {
        None
    } else {
        Some((nx as usize, ny as usize))
    }
}

/// Whether a square of colour `color` is empty.
pub open spec fn is_empty_color(color: usize) -> bool {
    color == NO_COLOR
}

/// The well-formed empty square.
pub open spec fn empty_square() -> Square {
    Square { piece: Piece::Empty, color: NO_COLOR }
}

/// The piece on file `x` of either back rank at the start.
pub open spec fn back_rank_piece(x: int) -> Piece {
    if x == 0 || x == 7 { Piece::Rook }
    else if x == 1 || x == 6 { Piece::Knight }
    else if x == 2 || x == 5 { Piece::Bishop }
    else if x == 3 { Piece::Queen }
    else { Piece::King }
}

/// The square at `(x, y)` in the starting position.
pub open spec fn start_square(x: int, y: int) -> Square {
    if y == 0 {
        Square { piece: back_rank_piece(x), color: BLACK }
    } else if y == 1 {
        Square { piece: Piece::Pawn, color: BLACK }
    } else if y == 6 {
        Square { piece: Piece::Pawn, color: WHITE }
    } else if y == 7 {
        Square { piece: back_rank_piece(x), color: WHITE }
    } else {
        empty_square()
    }
}

fn back_rank(x: usize) -> (r: Piece)
    ensures
        r == back_rank_piece(x as int),
{
    if x == 0 || x == 7 { Piece::Rook }
    else if x == 1 || x == 6 { Piece::Knight }
    else if x == 2 || x == 5 { Piece::Bishop }
    else if x == 3 { Piece::Queen }
    else { Piece::King }
}

fn start_square_exec(x: usize, y: usize) -> (r: Square)
    ensures
        r == start_square(x as int, y as int),
{
    if y == 0 {
        Square::new(back_rank(x), BLACK)
    } else if y == 1 {
        Square::new(Piece::Pawn, BLACK)
    } else if y == 6 {
        Square::new(Piece::Pawn, WHITE)
    } else if y == 7 {
        Square::new(back_rank(x), WHITE)
    } else {
        Square::empty()
    }
}

/// A board whose squares are all empty.
pub fn empty_board() -> (r: Vec<Square>)
    ensures
        board_wf(r@),
        forall|i: int| 0 <= i < 64 ==> #[trigger] r@[i] == empty_square(),
{
    let mut b: Vec<Square> = Vec::new();
    let mut i: usize = 0;
    while i < 64
        invariant
            i <= 64,
            b@.len() == i,
            forall|j: int| 0 <= j < i ==> #[trigger] b@[j] == empty_square(),
        decreases 64 - i,
    {
        b.push(Square::empty());
        i += 1;
    }
    b
}

impl Game {
    /// The standard starting position, White to move.
    pub fn new() -> (r: Game)
        ensures
            r.wf(),
            forall|x: int, y: int| on_board(x, y) ==> #[trigger] r@.sq(x, y) == start_square(x, y),
            r.turn == WHITE,
            r.en_passant is None,
            forall|side: usize, q: bool| side < 2 ==> #[trigger] r@.right(side, q),
            r@.king_of(WHITE) == (4usize, 7usize),
            r@.king_of(BLACK) == (4usize, 0usize),
            r.halfmove_clock == 0,
            r.fullmoves == 1,
    {
        let mut board: Vec<Square> = Vec::new();
        let mut y: usize = 0;
        while y < 8
            invariant
                y <= 8,
                board@.len() == y * 8,
                forall|a: int, b: int| 0 <= a < 8 && 0 <= b < y ==> #[trigger] board@[b * 8 + a] == start_square(a, b),
            decreases 8 - y,
        {
            let mut x: usize = 0;
            while x < 8
                invariant
                    y < 8,
                    x <= 8,
                    board@.len() == y * 8 + x,
                    forall|a: int, b: int| 0 <= a < 8 && 0 <= b < y ==> #[trigger] board@[b * 8 + a] == start_square(a, b),
                    forall|a: int| 0 <= a < x ==> #[trigger] board@[y * 8 + a] == start_square(a, y as int),
                decreases 8 - x,
            {
                board.push(start_square_exec(x, y));
                x += 1;
            }
            y += 1;
        }
        let g = Game {
            board,
            turn: WHITE,
            en_passant: None,
            castling_rights: [[true, true], [true, true]],
            king_coords: [(4, 7), (4, 0)],
            halfmove_clock: 0,
            fullmoves: 1,
        };
        assert forall|i: int| 0 <= i < 64 implies (#[trigger] g.board@[i]).wf() by {
            let a = i % 8;
            let b = i / 8;
            assert(i == b * 8 + a);
            assert(g.board@[b * 8 + a] == start_square(a, b));
        }
        g
    }
}

} // verus!
