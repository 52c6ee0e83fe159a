//! FEN decoding.
use vstd::prelude::*;
use crate::piece::{Piece, Square, WHITE, BLACK};
use crate::board::{Game, GameState, board_wf, empty_board, empty_square};
use vstd::std_specs::iter::IteratorSpec;

verus! {

/// Why FEN text was refused.
#[derive(Clone, Copy, PartialEq, Eq, Structural, Debug)]
pub enum FenError {
    /// Fewer than six fields, a rank that does not hold eight files, an
    /// unknown letter or a non-numeric counter.
    MalformedFen,
}

pub open spec fn is_ws(c: char) -> bool {
    c == ' ' || c == '\t' || c == '\n' || c == '\r' || c == '\x0B' || c == '\x0C'
}

/// The whitespace-separated words among the first `n` characters of `s`, as
/// `(start, end)` index pairs.
pub open spec fn spans(s: Seq<char>, n: int) -> Seq<(int, int)>
    decreases n,
{
    if n <= 0 {
        Seq::empty()
    } else {
        let prev = spans(s, n - 1);
        if is_ws(s[n - 1]) {
            prev
        } else if n >= 2 && !is_ws(s[n - 2]) && prev.len() > 0 {
            prev.update(prev.len() - 1, (prev.last().0, n))
        } else {
            prev.push((n - 1, n))
        }
    }
}

/// The `k`-th word of `s`.
pub open spec fn field(s: Seq<char>, k: int) -> Seq<char> {
    let sp = spans(s, s.len() as int);
    s.subrange(sp[k].0, sp[k].1)
}

/// What the placement field has set up so far.
pub struct Placement {
    pub board: Seq<Square>,
    pub x: int,
    pub y: int,
    pub white_king: (usize, usize),
    pub black_king: (usize, usize),
}

pub open spec fn letter_piece(c: char) -> Option<Piece> {
    if c == 'k' || c == 'K' { Some(Piece::King) }
    else if c == 'q' || c == 'Q' { Some(Piece::Queen) }
    else if c == 'r' || c == 'R' { Some(Piece::Rook) }
    else if c == 'b' || c == 'B' { Some(Piece::Bishop) }
    else if c == 'n' || c == 'N' { Some(Piece::Knight) }
    else if c == 'p' || c == 'P' { Some(Piece::Pawn) }
    else { None }
}

pub open spec fn is_upper(c: char) -> bool {
    'A' <= c <= 'Z'
}

/// One character of the placement field: `/` ends a rank of exactly eight
/// files, a digit skips that many empty files, a letter places a piece.
pub open spec fn place_step(st: Placement, c: char) -> Option<Placement> {
    if c == '/' {
        if st.x != 8 || st.y >= 7 { None } else { Some(Placement { x: 0, y: st.y + 1, ..st }) }
    } else if '1' <= c <= '8' {
        let d = c as int - 48;
        if st.x + d > 8 { None } else { Some(Placement { x: st.x + d, ..st }) }
    } else if letter_piece(c) is Some {
        if st.x >= 8 {
            None
        } else {
            let p = letter_piece(c)->Some_0;
            let color = if is_upper(c) { WHITE } else { BLACK };
            let here = (st.x as usize, st.y as usize);
            Some(Placement {
                board: st.board.update(st.y * 8 + st.x, Square { piece: p, color }),
                x: st.x + 1,
                white_king: if p == Piece::King && color == WHITE { here } else { st.white_king },
                black_king: if p == Piece::King && color == BLACK { here } else { st.black_king },
                ..st
            })
        }
    } else {
        None
    }
}

pub open spec fn empty_placement() -> Placement {
    Placement {
        board: Seq::new(64, |i: int| empty_square()),
        x: 0,
        y: 0,
        white_king: (4, 7),
        black_king: (4, 0),
    }
}

/// The placement after the first `n` characters of `p`.
pub open spec fn place_fold(p: Seq<char>, n: int) -> Option<Placement>
    decreases n,
{
    if n <= 0 {
        Some(empty_placement())
    } else {
        match place_fold(p, n - 1) {
            None => None,
            Some(st) => place_step(st, p[n - 1]),
        }
    }
}

/// The placement field read whole: eight ranks of eight files.
pub open spec fn placement_of(p: Seq<char>) -> Option<Placement> {
    match place_fold(p, p.len() as int) {
        Some(st) => if st.x == 8 && st.y == 7 { Some(st) } else { None },
        None => None,
    }
}

/// Castling letters among the first `n` characters, up to a `-`:
/// `(K, Q, k, q, stopped)`.
pub open spec fn castle_fold(c: Seq<char>, n: int) -> (bool, bool, bool, bool, bool)
    decreases n,
{
    if n <= 0 {
        (false, false, false, false, false)
    } else {
        let f = castle_fold(c, n - 1);
        let ch = c[n - 1];
        if f.4 { f }
        else if ch == 'K' { (true, f.1, f.2, f.3, false) }
        else if ch == 'Q' { (f.0, true, f.2, f.3, false) }
        else if ch == 'k' { (f.0, f.1, true, f.3, false) }
        else if ch == 'q' { (f.0, f.1, f.2, true, false) }
        else if ch == '-' { (f.0, f.1, f.2, f.3, true) }
        else { f }
    }
}

/// The en-passant field: `-` for none, else a file letter of either case and
/// a rank digit.
pub open spec fn en_passant_of(e: Seq<char>) -> Option<Option<(usize, usize)>> {
    if e.len() >= 1 && e[0] == '-' {
        Some(None)
    } else if e.len() >= 2 && (('a' <= e[0] <= 'h') || ('A' <= e[0] <= 'H')) && '1' <= e[1] <= '8' {
        let x = if 'a' <= e[0] <= 'h' { e[0] as int - 97 } else { e[0] as int - 65 };
        Some(Some((x as usize, (8 - (e[1] as int - 48)) as usize)))
    } else {
        None
    }
}

/// A value that does not fit a `usize` is held as `usize::MAX + 1`.
pub open spec fn saturate(v: int) -> int {
    if v > usize::MAX { usize::MAX + 1 } else { v }
}

/// The value of the first `n` characters read as decimal digits.
pub open spec fn num_fold(t: Seq<char>, n: int) -> Option<int>
    decreases n,
{
    if n <= 0 {
        Some(0)
    } else {
        match num_fold(t, n - 1) {
            None => None,
            Some(v) => if '0' <= t[n - 1] <= '9' { Some(saturate(v * 10 + (t[n - 1] as int - 48))) } else { None },
        }
    }
}

/// A non-empty run of decimal digits whose value fits a `usize`.
pub open spec fn number_of(t: Seq<char>) -> Option<usize> {
    match num_fold(t, t.len() as int) {
        Some(v) => if t.len() > 0 && v <= usize::MAX { Some(v as usize) } else { None },
        None => None,
    }
}

/// The six fields of FEN text read, when they can be.
pub open spec fn fen_ok(s: Seq<char>) -> bool {
    &&& spans(s, s.len() as int).len() >= 6
    &&& placement_of(field(s, 0)) is Some
    &&& en_passant_of(field(s, 3)) is Some
    &&& number_of(field(s, 4)) is Some
    &&& number_of(field(s, 5)) is Some
}

/// The game that FEN text `s` describes, given `fen_ok(s)`.
pub open spec fn decoded(s: Seq<char>, g: GameState) -> bool {
    let pl = placement_of(field(s, 0))->Some_0;
    let cf = castle_fold(field(s, 2), field(s, 2).len() as int);
    &&& g.board == pl.board
    &&& g.turn == (if field(s, 1)[0] == 'w' { WHITE } else { BLACK })
    &&& g.right(WHITE, false) == cf.0
    &&& g.right(WHITE, true) == cf.1
    &&& g.right(BLACK, false) == cf.2
    &&& g.right(BLACK, true) == cf.3
    &&& g.en_passant == en_passant_of(field(s, 3))->Some_0
    &&& g.king_of(WHITE) == pl.white_king
    &&& g.king_of(BLACK) == pl.black_king
    &&& g.halfmove_clock == number_of(field(s, 4))->Some_0
    &&& g.fullmoves == number_of(field(s, 5))->Some_0
}

proof fn lemma_spans_bounds(s: Seq<char>, n: int)
    requires
        0 <= n <= s.len(),
    ensures
        forall|k: int| 0 <= k < spans(s, n).len() ==> 0 <= (#[trigger] spans(s, n)[k]).0 < spans(s, n)[k].1 <= n,
    decreases n,
{
    if n > 0 {
        lemma_spans_bounds(s, n - 1);
        let prev = spans(s, n - 1);
        let cur = spans(s, n);
        assert forall|k: int| 0 <= k < cur.len() implies 0 <= (#[trigger] cur[k]).0 < cur[k].1 <= n by {
            if k < prev.len() && !(k == prev.len() - 1 && cur[k] != prev[k]) {
                assert(prev[k].1 <= n - 1);
            } else if k == prev.len() - 1 {
                assert(prev[k].0 < prev[k].1);
            }
        }
    }
}

/// `v` holds the same index pairs as `sp`.
pub open spec fn same_spans(v: Seq<(usize, usize)>, sp: Seq<(int, int)>) -> bool {
    &&& v.len() == sp.len()
    &&& forall|k: int| 0 <= k < v.len() ==> (#[trigger] v[k]).0 as int == sp[k].0 && v[k].1 as int == sp[k].1
}

fn is_ws_exec(c: char) -> (r: bool)
    ensures
        r == is_ws(c),
{
    c == ' ' || c == '\t' || c == '\n' || c == '\r' || c == '\x0B' || c == '\x0C'
}

fn word_spans(s: &Vec<char>) -> (r: Vec<(usize, usize)>)
    ensures
        same_spans(r@, spans(s@, s@.len() as int)),
{
    let mut out: Vec<(usize, usize)> = Vec::new();
    let mut i: usize = 0;
    while i < s.len()
        invariant
            i <= s@.len(),
            same_spans(out@, spans(s@, i as int)),
        decreases s@.len() - i,
    {
        proof { lemma_spans_bounds(s@, i as int); }
        let c = s[i];
        if is_ws_exec(c) {
        } else if i >= 1 && !is_ws_exec(s[i - 1]) && out.len() > 0 {
            let last = out.len() - 1;
            let start = out[last].0;
            out.set(last, (start, i + 1));
        } else {
            out.push((i, i + 1));
        }
        i += 1;
    }
    out
}

fn sub_chars(s: &Vec<char>, a: usize, b: usize) -> (r: Vec<char>)
    requires
        a <= b <= s@.len(),
    ensures
        r@ == s@.subrange(a as int, b as int),
{
    let mut out: Vec<char> = Vec::new();
    let mut i: usize = a;
    while i < b
        invariant
            a <= i <= b,
            b <= s@.len(),
            out@ == s@.subrange(a as int, i as int),
        decreases b - i,
    {
        out.push(s[i]);
        assert(out@ =~= s@.subrange(a as int, i + 1));
        i += 1;
    }
    out
}

fn letter_piece_exec(c: char) -> (r: Option<Piece>)
    ensures
        r == letter_piece(c),
{
    if c == 'k' || c == 'K' { Some(Piece::King) }
    else if c == 'q' || c == 'Q' { Some(Piece::Queen) }
    else if c == 'r' || c == 'R' { Some(Piece::Rook) }
    else if c == 'b' || c == 'B' { Some(Piece::Bishop) }
    else if c == 'n' || c == 'N' { Some(Piece::Knight) }
    else if c == 'p' || c == 'P' { Some(Piece::Pawn) }
    else { None }
}

/// The placement field read into a board and the two kings' squares.
pub fn parse_placement(p: &Vec<char>) -> (r: Option<(Vec<Square>, (usize, usize), (usize, usize))>)
    ensures
        r is Some <==> placement_of(p@) is Some,
        r matches Some(t) ==> {
            let pl = placement_of(p@)->Some_0;
            &&& t.0@ == pl.board
            &&& t.1 == pl.white_king
            &&& t.2 == pl.black_king
            &&& board_wf(t.0@)
            &&& t.1.0 < 8 && t.1.1 < 8 && t.2.0 < 8 && t.2.1 < 8
        },
{
    let mut board = empty_board();
    assert(board@ =~= empty_placement().board);
    let mut x: usize = 0;
    let mut y: usize = 0;
    let mut wk: (usize, usize) = (4, 7);
    let mut bk: (usize, usize) = (4, 0);
    let mut i: usize = 0;
    while i < p.len()
        invariant
            i <= p@.len(),
            place_fold(p@, i as int) == Some(Placement { board: board@, x: x as int, y: y as int, white_king: wk, black_king: bk }),
            board_wf(board@),
            x <= 8,
            y <= 7,
            wk.0 < 8 && wk.1 < 8 && bk.0 < 8 && bk.1 < 8,
        decreases p@.len() - i,
    {
        let c = p[i];
        if c == '/' {
            if x != 8 || y >= 7 {
                assert(place_fold(p@, i + 1) is None);
                assert(place_fold(p@, p@.len() as int) is None) by { lemma_fold_stays_none(p@, i + 1, p@.len() as int); }
                return None;
            }
            x = 0;
            y = y + 1;
        } else if '1' <= c && c <= '8' {
            let d = (c as u32 - 48) as usize;
            if x + d > 8 {
                assert(place_fold(p@, p@.len() as int) is None) by { lemma_fold_stays_none(p@, i + 1, p@.len() as int); }
                return None;
            }
            x = x + d;
        } else {
            match letter_piece_exec(c) {
                None => {
                    assert(place_fold(p@, p@.len() as int) is None) by { lemma_fold_stays_none(p@, i + 1, p@.len() as int); }
                    return None;
                },
                Some(piece) => {
                    if x >= 8 {
                        assert(place_fold(p@, p@.len() as int) is None) by { lemma_fold_stays_none(p@, i + 1, p@.len() as int); }
                        return None;
                    }
                    let color = if 'A' <= c && c <= 'Z' { WHITE } else { BLACK };
                    let ghost b0 = board@;
                    board.set(y * 8 + x, Square::new(piece, color));
                    assert forall|j: int| 0 <= j < 64 implies (#[trigger] board@[j]).wf() by {
                        if j != y * 8 + x {
                            assert(board@[j] == b0[j]);
                        }
                    }
                    if piece == Piece::King {
                        if color == WHITE { wk = (x, y); } else { bk = (x, y); }
                    }
                    x = x + 1;
                }
            }
        }
        i += 1;
    }
    if x == 8 && y == 7 {
        Some((board, wk, bk))
    } else {
        None
    }
}

proof fn lemma_fold_stays_none(p: Seq<char>, i: int, n: int)
    requires
        0 <= i <= n,
        place_fold(p, i) is None,
    ensures
        place_fold(p, n) is None,
    decreases n - i,
{
    if i < n {
        lemma_fold_stays_none(p, i, n - 1);
    }
}

fn parse_castling(c: &Vec<char>) -> (r: (bool, bool, bool, bool))
    ensures
        r.0 == castle_fold(c@, c@.len() as int).0,
        r.1 == castle_fold(c@, c@.len() as int).1,
        r.2 == castle_fold(c@, c@.len() as int).2,
        r.3 == castle_fold(c@, c@.len() as int).3,
{
    let mut f: (bool, bool, bool, bool, bool) = (false, false, false, false, false);
    let mut i: usize = 0;
    while i < c.len()
        invariant
            i <= c@.len(),
            f == castle_fold(c@, i as int),
        decreases c@.len() - i,
    {
        let ch = c[i];
        if f.4 {
        } else if ch == 'K' {
            f = (true, f.1, f.2, f.3, false);
        } else if ch == 'Q' {
            f = (f.0, true, f.2, f.3, false);
        } else if ch == 'k' {
            f = (f.0, f.1, true, f.3, false);
        } else if ch == 'q' {
            f = (f.0, f.1, f.2, true, false);
        } else if ch == '-' {
            f = (f.0, f.1, f.2, f.3, true);
        }
        i += 1;
    }
    (f.0, f.1, f.2, f.3)
}

fn parse_en_passant(e: &Vec<char>) -> (r: Option<Option<(usize, usize)>>)
    ensures
        r == en_passant_of(e@),
        r matches Some(Some(p)) ==> p.0 < 8 && p.1 < 8,
{
    if e.len() >= 1 && e[0] == '-' {
        return Some(None);
    }
    if e.len() < 2 {
        return None;
    }
    let f = e[0];
    let d = e[1];
    if !('1' <= d && d <= '8') {
        return None;
    }
    let y: usize = 8 - (d as u32 - 48) as usize;
    if 'a' <= f && f <= 'h' {
        Some(Some(((f as u32 - 97) as usize, y)))
    } else if 'A' <= f && f <= 'H' {
        Some(Some(((f as u32 - 65) as usize, y)))
    } else {
        None
    }
}

/// A non-empty run of decimal digits read as a `usize`.
pub fn parse_number(t: &Vec<char>) -> (r: Option<usize>)
    ensures
        r == number_of(t@),
{
    let mut v: usize = 0;
    let mut over = false;
    let mut i: usize = 0;
    while i < t.len()
        invariant
            i <= t@.len(),
            num_fold(t@, i as int) == Some(if over { usize::MAX + 1 } else { v as int }),
        decreases t@.len() - i,
    {
        let c = t[i];
        if !('0' <= c && c <= '9') {
            assert(num_fold(t@, t@.len() as int) is None) by { lemma_num_stays_none(t@, i + 1, t@.len() as int); }
            return None;
        }
        let d = (c as u32 - 48) as usize;
        if over || v > (usize::MAX - d) / 10 {
            over = true;
        } else {
            v = v * 10 + d;
        }
        i += 1;
    }
    if t.len() == 0 || over {
        None
    } else {
        Some(v)
    }
}

proof fn lemma_num_stays_none(t: Seq<char>, i: int, n: int)
    requires
        0 <= i <= n,
        num_fold(t, i) is None,
    ensures
        num_fold(t, n) is None,
    decreases n - i,
{
    if i < n {
        lemma_num_stays_none(t, i, n - 1);
    }
}

fn word(s: &Vec<char>, sp: &Vec<(usize, usize)>, k: usize) -> (r: Vec<char>)
    requires
        same_spans(sp@, spans(s@, s@.len() as int)),
        k < sp@.len(),
    ensures
        r@ == field(s@, k as int),
{
    proof { lemma_spans_bounds(s@, s@.len() as int); }
    let (a, b) = sp[k];
    sub_chars(s, a, b)
}

impl Game {
    /// The game that FEN text, as characters, describes.
    pub fn from_fen_chars(s: &Vec<char>) -> (r: Result<Game, FenError>)
        ensures
            r is Ok <==> fen_ok(s@),
            r matches Ok(g) ==> g.wf() && decoded(s@, g@),
    {
        let sp = word_spans(s);
        if sp.len() < 6 {
            return Err(FenError::MalformedFen);
        }
        let placement = word(s, &sp, 0);
        let color = word(s, &sp, 1);
        let castling = word(s, &sp, 2);
        let en_passant = word(s, &sp, 3);
        let halfmove = word(s, &sp, 4);
        let fullmoves = word(s, &sp, 5);
        let (board, wk, bk) = match parse_placement(&placement) {
            Some(t) => t,
            None => { return Err(FenError::MalformedFen); },
        };
        let ep = match parse_en_passant(&en_passant) {
            Some(e) => e,
            None => { return Err(FenError::MalformedFen); },
        };
        let half = match parse_number(&halfmove) {
            Some(n) => n,
            None => { return Err(FenError::MalformedFen); },
        };
        let full = match parse_number(&fullmoves) {
            Some(n) => n,
            None => { return Err(FenError::MalformedFen); },
        };
        proof {
            lemma_spans_bounds(s@, s@.len() as int);
        }
        assert(color@.len() > 0);
        let turn = if color[0] == 'w' { WHITE } else { BLACK };
        let (k, q, bk_side, bq) = parse_castling(&castling);
        Ok(Game {
            board,
            turn,
            en_passant: ep,
            castling_rights: [[k, q], [bk_side, bq]],
            king_coords: [wk, bk],
            halfmove_clock: half,
            fullmoves: full,
        })
    }

    /// The game that FEN text describes.
    pub fn from_fen(fen: &str) -> (r: Result<Game, FenError>)
        ensures
            r is Ok <==> fen_ok(fen@),
            r matches Ok(g) ==> g.wf() && decoded(fen@, g@),
    {
        let chars = str_chars(fen);
        Game::from_fen_chars(&chars)
    }

    /// Replaces the game by the one that FEN text describes; on malformed
    /// text the game is left as it was.
    pub fn fill_board_from_fen_string(&mut self, fen: &str) -> (r: Result<(), FenError>)
        ensures
            r is Ok <==> fen_ok(fen@),
            r is Ok ==> final(self).wf() && decoded(fen@, final(self)@),
            r is Err ==> *final(self) == *old(self),
    {
        match Game::from_fen(fen) {
            Ok(g) => {
                *self = g;
                Ok(())
            },
            Err(e) => Err(e),
        }
    }
}

/// The characters of a string, in order.
pub fn str_chars(s: &str) -> (r: Vec<char>)
    ensures
        r@ == s@,
{
    broadcast use vstd::string::axiom_spec_iter, vstd::string::next_postcondition;
    let mut it = s.chars();
    let mut out: Vec<char> = Vec::new();
    loop
        invariant
            it.obeys_prophetic_iter_laws(),
            out@ + it.remaining() == s@,
            it.decrease() is Some,
        ensures
            out@ == s@,
        decreases it.decrease()->0,
    {
        match it.next() {
            Some(c) => {
                out.push(c);
                assert(out@ + it.remaining() =~= s@);
            },
            None => {
                assert(out@ =~= s@);
                break;
            },
        }
    }
    out
}

} // verus!
