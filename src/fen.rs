//! FEN encoding and decoding of a game.
use vstd::prelude::*;
use crate::piece::{Piece, Square, WHITE, BLACK};
use crate::board::{Game, GameState, at, board_wf};

verus! {

/// The lower-case letter of a piece; a space for an empty square.
pub open spec fn piece_letter(p: Piece) -> char {
    match p {
        Piece::King => 'k',
        Piece::Queen => 'q',
        Piece::Rook => 'r',
        Piece::Bishop => 'b',
        Piece::Knight => 'n',
        Piece::Pawn => 'p',
        Piece::Empty => ' ',
    }
}

/// The letter of an occupied square: upper case for White.
pub open spec fn square_letter(s: Square) -> char {
    if s.color == WHITE {
        match s.piece {
            Piece::King => 'K',
            Piece::Queen => 'Q',
            Piece::Rook => 'R',
            Piece::Bishop => 'B',
            Piece::Knight => 'N',
            Piece::Pawn => 'P',
            Piece::Empty => ' ',
        }
    } else {
        piece_letter(s.piece)
    }
}

/// The decimal digit of `n < 10`.
pub open spec fn digit(n: int) -> char {
    (n + 48) as char
}

/// The count `e` of a run of empty squares, if any.
pub open spec fn run(e: int) -> Seq<char> {
    if e > 0 { seq![digit(e)] } else { Seq::empty() }
}

/// Row `y` from file `x` on, with `e` empty squares pending before `x`.
pub open spec fn rank_text(b: Seq<Square>, y: int, x: int, e: int) -> Seq<char>
    decreases 8 - x,
{
    if x >= 8 {
        run(e)
    } else if at(b, x, y).piece == Piece::Empty {
        rank_text(b, y, x + 1, e + 1)
    } else {
        run(e) + seq![square_letter(at(b, x, y))] + rank_text(b, y, x + 1, 0)
    }
}

/// Rows `y` to 7, joined by `/`.
pub open spec fn placement_text(b: Seq<Square>, y: int) -> Seq<char>
    decreases 8 - y,
{
    if y >= 7 {
        rank_text(b, 7, 0, 0)
    } else {
        rank_text(b, y, 0, 0) + seq!['/'] + placement_text(b, y + 1)
    }
}

pub open spec fn flag(on: bool, c: char) -> Seq<char> {
    if on { seq![c] } else { Seq::empty() }
}

/// The castling field: `KQkq` in that order, or `-` when no right is left.
pub open spec fn castling_text(g: GameState) -> Seq<char> {
    let s = flag(g.right(WHITE, false), 'K') + flag(g.right(WHITE, true), 'Q')
        + flag(g.right(BLACK, false), 'k') + flag(g.right(BLACK, true), 'q');
    if s.len() == 0 { seq!['-'] } else { s }
}

/// The en-passant field: file letter and rank, or `-`.
pub open spec fn en_passant_text(g: GameState) -> Seq<char> {
    match g.en_passant {
        None => seq!['-'],
        Some(p) => seq![(p.0 + 97) as char, digit(8 - p.1)],
    }
}

/// The decimal numeral of `n`.
pub open spec fn decimal(n: nat) -> Seq<char>
    decreases n,
{
    if n < 10 { seq![digit(n as int)] } else { decimal(n / 10) + seq![digit((n % 10) as int)] }
}

/// The six space-separated FEN fields of a game.
pub open spec fn fen_of(g: GameState) -> Seq<char> {
    placement_text(g.board, 0) + seq![' ', if g.turn == WHITE { 'w' } else { 'b' }, ' ']
        + castling_text(g) + seq![' '] + en_passant_text(g) + seq![' ']
        + decimal(g.halfmove_clock as nat) + seq![' '] + decimal(g.fullmoves as nat)
}

fn square_letter_exec(s: Square) -> (r: char)
    ensures
        r == square_letter(s),
{
    let lower = match s.piece {
        Piece::King => 'k',
        Piece::Queen => 'q',
        Piece::Rook => 'r',
        Piece::Bishop => 'b',
        Piece::Knight => 'n',
        Piece::Pawn => 'p',
        Piece::Empty => ' ',
    };
    if s.color == WHITE {
        match s.piece {
            Piece::King => 'K',
            Piece::Queen => 'Q',
            Piece::Rook => 'R',
            Piece::Bishop => 'B',
            Piece::Knight => 'N',
            Piece::Pawn => 'P',
            Piece::Empty => ' ',
        }
    } else {
        lower
    }
}

fn digit_exec(n: usize) -> (r: char)
    requires
        n < 10,
    ensures
        r == digit(n as int),
{
    ((n as u8) + 48) as char
}

fn push_run(e: usize, out: &mut Vec<char>)
    requires
        e < 10,
    ensures
        final(out)@ == old(out)@ + run(e as int),
{
    if e > 0 {
        out.push(digit_exec(e));
        assert(out@ =~= old(out)@ + run(e as int));
    } else {
        assert(out@ =~= old(out)@ + run(e as int));
    }
}

fn push_rank(b: &Vec<Square>, y: usize, x: usize, e: usize, out: &mut Vec<char>)
    requires
        board_wf(b@),
        y < 8,
        x <= 8,
        e <= x,
    ensures
        final(out)@ == old(out)@ + rank_text(b@, y as int, x as int, e as int),
    decreases 8 - x,
{
    if x >= 8 {
        push_run(e, out);
    } else {
        let s = b[y * 8 + x];
        if s.piece == Piece::Empty {
            push_rank(b, y, x + 1, e + 1, out);
        } else {
            push_run(e, out);
            out.push(square_letter_exec(s));
            push_rank(b, y, x + 1, 0, out);
            assert(out@ =~= old(out)@ + (run(e as int) + seq![square_letter(s)] + rank_text(b@, y as int, x + 1, 0)));
        }
    }
}

fn push_decimal(n: usize, out: &mut Vec<char>)
    ensures
        final(out)@ == old(out)@ + decimal(n as nat),
    decreases n,
{
    if n < 10 {
        out.push(digit_exec(n));
        assert(out@ =~= old(out)@ + decimal(n as nat));
    } else {
        push_decimal(n / 10, out);
        out.push(digit_exec(n % 10));
        assert(out@ =~= old(out)@ + decimal(n as nat));
    }
}

/// Relies on `FromIterator<char>` for `String`: the string holds the
/// characters in order.
#[verifier::external_body]
fn chars_to_string(v: &Vec<char>) -> (r: String)
    ensures
        r@ == v@,
{
    v.iter().collect()
}

impl Game {
    fn push_placement(&self, out: &mut Vec<char>)
        requires
            self.wf(),
        ensures
            final(out)@ == old(out)@ + placement_text(self@.board, 0),
    {
        let mut y: usize = 0;
        while y < 7
            invariant
                self.wf(),
                y <= 7,
                out@ + placement_text(self@.board, y as int) == old(out)@ + placement_text(self@.board, 0),
            decreases 7 - y,
        {
            let ghost before = out@;
            push_rank(&self.board, y, 0, 0, out);
            out.push('/');
            assert(before + placement_text(self@.board, y as int)
                =~= out@ + placement_text(self@.board, y + 1));
            y += 1;
        }
        push_rank(&self.board, 7, 0, 0, out);
    }

    fn push_castling(&self, out: &mut Vec<char>)
        ensures
            final(out)@ == old(out)@ + castling_text(self@),
    {
        let mark = out.len();
        let w = self.castling_rights[0];
        let b = self.castling_rights[1];
        if w[0] { out.push('K'); }
        if w[1] { out.push('Q'); }
        if b[0] { out.push('k'); }
        if b[1] { out.push('q'); }
        if out.len() == mark {
            out.push('-');
        }
        assert(out@ =~= old(out)@ + castling_text(self@));
    }

    fn push_en_passant(&self, out: &mut Vec<char>)
        requires
            self.wf(),
        ensures
            final(out)@ == old(out)@ + en_passant_text(self@),
    {
        match self.en_passant {
            None => { out.push('-'); },
            Some((x, y)) => {
                out.push(((x as u8) + 97) as char);
                out.push(digit_exec(8 - y));
            },
        }
        assert(out@ =~= old(out)@ + en_passant_text(self@));
    }

    /// The FEN text of the game, as characters.
    pub fn fen_chars(&self) -> (r: Vec<char>)
        requires
            self.wf(),
        ensures
            r@ == fen_of(self@),
    {
        let g = Ghost(self@);
        let mut out: Vec<char> = Vec::new();
        self.push_placement(&mut out);
        out.push(' ');
        out.push(if self.turn == WHITE { 'w' } else { 'b' });
        out.push(' ');
        let ghost s1 = out@;
        self.push_castling(&mut out);
        out.push(' ');
        let ghost s2 = out@;
        self.push_en_passant(&mut out);
        out.push(' ');
        let ghost s3 = out@;
        push_decimal(self.halfmove_clock, &mut out);
        out.push(' ');
        let ghost s4 = out@;
        push_decimal(self.fullmoves, &mut out);
        proof {
            let head = placement_text(g@.board, 0) + seq![' ', if g@.turn == WHITE { 'w' } else { 'b' }, ' '];
            assert(s1 =~= head);
            assert(s2 =~= head + castling_text(g@) + seq![' ']);
            assert(s3 =~= head + castling_text(g@) + seq![' '] + en_passant_text(g@) + seq![' ']);
            assert(s4 =~= head + castling_text(g@) + seq![' '] + en_passant_text(g@) + seq![' ']
                + decimal(g@.halfmove_clock as nat) + seq![' ']);
            assert(out@ =~= fen_of(g@));
        }
        out
    }

    /// The FEN text of the game.
    pub fn create_fen_string(&self) -> (r: String)
        requires
            self.wf(),
        ensures
            r@ == fen_of(self@),
    {
        let v = self.fen_chars();
        chars_to_string(&v)
    }
}

} // verus!
