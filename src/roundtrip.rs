//! The FEN round trip: decoding the text of a game gives the game back.
use vstd::prelude::*;
use crate::piece::{Piece, Square, WHITE, BLACK};
use crate::board::{GameState, at, board_wf, empty_square};
use crate::fen::{
    fen_of, decimal, digit, run, rank_text, placement_text, square_letter,
    castling_text, en_passant_text, flag,
};
use crate::decode::{
    is_ws, spans, field, num_fold, number_of, saturate, castle_fold,
    Placement, place_step, place_fold, placement_of, empty_placement, letter_piece, is_upper,
    fen_ok, decoded,
};

verus! {

proof fn lemma_num_prefix(a: Seq<char>, c: Seq<char>, m: int)
    requires
        0 <= m <= a.len(),
    ensures
        num_fold(a + c, m) == num_fold(a, m),
    decreases m,
{
    if m > 0 {
        lemma_num_prefix(a, c, m - 1);
        assert((a + c)[m - 1] == a[m - 1]);
    }
}

proof fn lemma_digit(d: nat)
    requires
        d < 10,
    ensures
        digit(d as int) as int == d + 48,
        '0' <= digit(d as int) <= '9',
{
}

/// Digits of a numeral are decimal digits.
proof fn lemma_decimal_digits(n: nat)
    ensures
        decimal(n).len() > 0,
        forall|i: int| 0 <= i < decimal(n).len() ==> '0' <= #[trigger] decimal(n)[i] <= '9',
    decreases n,
{
    lemma_digit(n % 10);
    if n >= 10 {
        lemma_decimal_digits(n / 10);
        let a = decimal(n / 10);
        let t = a + seq![digit((n % 10) as int)];
        assert forall|i: int| 0 <= i < t.len() implies '0' <= #[trigger] t[i] <= '9' by {
            if i < a.len() { assert(t[i] == a[i]); }
        }
    }
}

/// Reading a numeral gives its value back.
pub proof fn lemma_decimal_round_trip(n: nat)
    requires
        n <= usize::MAX,
    ensures
        num_fold(decimal(n), decimal(n).len() as int) == Some(n as int),
    decreases n,
{
    lemma_digit(n % 10);
    if n < 10 {
        assert(num_fold(decimal(n), 0) == Some(0int));
        assert(decimal(n)[0] == digit(n as int));
    } else {
        lemma_decimal_round_trip(n / 10);
        let a = decimal(n / 10);
        let c = seq![digit((n % 10) as int)];
        lemma_num_prefix(a, c, a.len() as int);
        assert(decimal(n) == a + c);
        assert((a + c)[a.len() as int] == digit((n % 10) as int));
        assert((n / 10) * 10 + n % 10 == n);
        assert(num_fold(a + c, a.len() as int) == Some((n / 10) as int));
        assert(saturate(((n / 10) * 10 + (n % 10)) as int) == n);
    }
}

pub proof fn lemma_number_round_trip(n: usize)
    ensures
        number_of(decimal(n as nat)) == Some(n),
{
    lemma_decimal_round_trip(n as nat);
    lemma_decimal_digits(n as nat);
}

/// A word of `w` non-blank characters at `a`, after a blank or at the start,
/// adds one span.
proof fn lemma_spans_word(s: Seq<char>, a: int, w: int)
    requires
        0 <= a,
        1 <= w,
        a + w <= s.len(),
        a == 0 || is_ws(s[a - 1]),
        forall|i: int| a <= i < a + w ==> !is_ws(#[trigger] s[i]),
    ensures
        spans(s, a + w) == spans(s, a).push((a, a + w)),
    decreases w,
{
    if w > 1 {
        lemma_spans_word(s, a, w - 1);
        let prev = spans(s, a + w - 1);
        assert(!is_ws(s[a + w - 2]));
        assert(prev.last() == (a, a + w - 1));
        assert(spans(s, a + w) =~= spans(s, a).push((a, a + w)));
    }
}

/// The placement state after reading the first `n` characters of `q` from `st`.
pub open spec fn run_from(st: Option<Placement>, q: Seq<char>, n: int) -> Option<Placement>
    decreases n,
{
    if n <= 0 {
        st
    } else {
        match run_from(st, q, n - 1) {
            None => None,
            Some(s) => place_step(s, q[n - 1]),
        }
    }
}

proof fn lemma_fold_is_run(p: Seq<char>, n: int)
    requires
        0 <= n <= p.len(),
    ensures
        place_fold(p, n) == run_from(Some(empty_placement()), p, n),
    decreases n,
{
    if n > 0 {
        lemma_fold_is_run(p, n - 1);
    }
}

proof fn lemma_run_prefix(st: Option<Placement>, a: Seq<char>, c: Seq<char>, m: int)
    requires
        0 <= m <= a.len(),
    ensures
        run_from(st, a + c, m) == run_from(st, a, m),
    decreases m,
{
    if m > 0 {
        lemma_run_prefix(st, a, c, m - 1);
        assert((a + c)[m - 1] == a[m - 1]);
    }
}

proof fn lemma_run_concat(st: Option<Placement>, a: Seq<char>, c: Seq<char>, n: int)
    requires
        0 <= n <= c.len(),
    ensures
        run_from(st, a + c, a.len() + n) == run_from(run_from(st, a, a.len() as int), c, n),
    decreases n,
{
    if n == 0 {
        lemma_run_prefix(st, a, c, a.len() as int);
    } else {
        lemma_run_concat(st, a, c, n - 1);
        assert((a + c)[a.len() + n - 1] == c[n - 1]);
    }
}

/// The square of the last king of `color` among the first `m` squares.
pub open spec fn last_king(b: Seq<Square>, color: usize, m: int) -> Option<(usize, usize)>
    decreases m,
{
    if m <= 0 {
        None
    } else if b[m - 1] == (Square { piece: Piece::King, color }) {
        Some((((m - 1) % 8) as usize, ((m - 1) / 8) as usize))
    } else {
        last_king(b, color, m - 1)
    }
}

pub open spec fn king_or(b: Seq<Square>, color: usize, m: int, d: (usize, usize)) -> (usize, usize) {
    match last_king(b, color, m) {
        Some(p) => p,
        None => d,
    }
}

/// The placement state holds the first `m` squares of `b` and the kings among them.
pub open spec fn agrees(st: Placement, b: Seq<Square>, m: int) -> bool {
    &&& st.board.len() == 64
    &&& forall|i: int| 0 <= i < 64 ==> #[trigger] st.board[i] == (if i < m { b[i] } else { empty_square() })
    &&& st.white_king == king_or(b, WHITE, m, (4, 7))
    &&& st.black_king == king_or(b, BLACK, m, (4, 0))
}

proof fn lemma_letter(s: Square)
    requires
        s.wf(),
        s.piece != Piece::Empty,
    ensures
        letter_piece(square_letter(s)) == Some(s.piece),
        is_upper(square_letter(s)) == (s.color == WHITE),
        square_letter(s) != '/',
        !('1' <= square_letter(s) <= '8'),
        !is_ws(square_letter(s)),
{
}

proof fn lemma_rank(b: Seq<Square>, y: int, x: int, e: int, st: Placement)
    requires
        board_wf(b),
        0 <= y < 8,
        0 <= e <= x <= 8,
        st.x == x - e,
        st.y == y,
        agrees(st, b, y * 8 + x),
        forall|k: int| x - e <= k < x ==> (#[trigger] at(b, k, y)).piece == Piece::Empty,
    ensures
        ({
            let r = run_from(Some(st), rank_text(b, y, x, e), rank_text(b, y, x, e).len() as int);
            &&& r is Some
            &&& r->Some_0.x == 8
            &&& r->Some_0.y == y
            &&& agrees(r->Some_0, b, y * 8 + 8)
        }),
    decreases 8 - x,
{
    if x >= 8 {
        if e > 0 {
            lemma_digit(e as nat);
            assert(rank_text(b, y, x, e) == seq![digit(e)]);
            assert(run_from(Some(st), seq![digit(e)], 0) == Some(st));
        } else {
            assert(rank_text(b, y, x, e) =~= Seq::<char>::empty());
        }
    } else {
        let m = y * 8 + x;
        let sq = at(b, x, y);
        assert(b[m].wf());
        if sq.piece == Piece::Empty {
            assert(agrees(st, b, m + 1)) by {
                assert(b[m] == empty_square());
            }
            lemma_rank(b, y, x + 1, e + 1, st);
        } else {
            lemma_letter(sq);
            let l = square_letter(sq);
            let st1 = Placement { x: x, ..st };
            let pre = run(e);
            assert(run_from(Some(st), pre, pre.len() as int) == Some(st1)) by {
                if e > 0 {
                    lemma_digit(e as nat);
                    assert(run_from(Some(st), pre, 0) == Some(st));
                } else {
                    assert(pre.len() == 0);
                }
            }
            let color = if is_upper(l) { WHITE } else { BLACK };
            assert(color == sq.color);
            let here = (x as usize, y as usize);
            let st2 = Placement {
                board: st1.board.update(m, Square { piece: sq.piece, color }),
                x: x + 1,
                white_king: if sq.piece == Piece::King && color == WHITE { here } else { st1.white_king },
                black_king: if sq.piece == Piece::King && color == BLACK { here } else { st1.black_king },
                ..st1
            };
            assert(place_step(st1, l) == Some(st2));
            let head = pre + seq![l];
            lemma_run_prefix(Some(st), pre, seq![l], pre.len() as int);
            assert(head[pre.len() as int] == l);
            assert(run_from(Some(st), head, head.len() as int) == Some(st2));
            assert(m % 8 == x && m / 8 == y);
            assert(agrees(st2, b, m + 1)) by {
                assert(sq == Square { piece: sq.piece, color });
                assert forall|i: int| 0 <= i < 64 implies #[trigger] st2.board[i] == (if i < m + 1 { b[i] } else { empty_square() }) by {
                    if i != m {
                        assert(st2.board[i] == st.board[i]);
                    }
                }
            }
            lemma_rank(b, y, x + 1, 0, st2);
            let rest = rank_text(b, y, x + 1, 0);
            lemma_run_concat(Some(st), head, rest, rest.len() as int);
            assert(rank_text(b, y, x, e) == head + rest);
        }
    }
}

proof fn lemma_placement(b: Seq<Square>, y: int, st: Placement)
    requires
        board_wf(b),
        0 <= y <= 7,
        st.x == 0,
        st.y == y,
        agrees(st, b, y * 8),
    ensures
        ({
            let r = run_from(Some(st), placement_text(b, y), placement_text(b, y).len() as int);
            &&& r is Some
            &&& r->Some_0.x == 8
            &&& r->Some_0.y == 7
            &&& agrees(r->Some_0, b, 64)
        }),
    decreases 8 - y,
{
    lemma_rank(b, y, 0, 0, st);
    if y < 7 {
        let rk = rank_text(b, y, 0, 0);
        let st1 = run_from(Some(st), rk, rk.len() as int)->Some_0;
        let st2 = Placement { x: 0, y: y + 1, ..st1 };
        let head = rk + seq!['/'];
        lemma_run_prefix(Some(st), rk, seq!['/'], rk.len() as int);
        assert(head[rk.len() as int] == '/');
        assert(run_from(Some(st), head, head.len() as int) == Some(st2));
        lemma_placement(b, y + 1, st2);
        let rest = placement_text(b, y + 1);
        lemma_run_concat(Some(st), head, rest, rest.len() as int);
        assert(placement_text(b, y) == head + rest);
    }
}

/// Reading the placement text of a board gives the board back, with the last
/// king of each colour.
pub proof fn lemma_placement_round_trip(b: Seq<Square>)
    requires
        board_wf(b),
    ensures
        placement_of(placement_text(b, 0)) is Some,
        placement_of(placement_text(b, 0))->Some_0.board == b,
        placement_of(placement_text(b, 0))->Some_0.white_king == king_or(b, WHITE, 64, (4, 7)),
        placement_of(placement_text(b, 0))->Some_0.black_king == king_or(b, BLACK, 64, (4, 0)),
{
    let p = placement_text(b, 0);
    let st = empty_placement();
    assert(agrees(st, b, 0));
    lemma_placement(b, 0, st);
    lemma_fold_is_run(p, p.len() as int);
    let r = place_fold(p, p.len() as int)->Some_0;
    assert(r.board =~= b);
}

/// The board holds exactly one king of `color`, on `k`.
pub open spec fn king_unique(b: Seq<Square>, color: usize, k: (usize, usize)) -> bool {
    forall|i: int| 0 <= i < 64 ==> ((#[trigger] b[i] == Square { piece: Piece::King, color }) <==> i == k.1 * 8 + k.0)
}

/// Each side has exactly one king, on the square the game records for it.
pub open spec fn kings_placed(g: GameState) -> bool {
    &&& king_unique(g.board, WHITE, g.king_of(WHITE))
    &&& king_unique(g.board, BLACK, g.king_of(BLACK))
}

proof fn lemma_last_king(b: Seq<Square>, color: usize, k: (usize, usize), m: int)
    requires
        king_unique(b, color, k),
        k.0 < 8,
        k.1 < 8,
        0 <= m <= 64,
    ensures
        last_king(b, color, m) == (if k.1 * 8 + k.0 < m { Some(k) } else { None::<(usize, usize)> }),
    decreases m,
{
    if m > 0 {
        lemma_last_king(b, color, k, m - 1);
        if m - 1 == k.1 * 8 + k.0 {
            assert((m - 1) % 8 == k.0 && (m - 1) / 8 == k.1);
        }
    }
}

proof fn lemma_no_ws_rank(b: Seq<Square>, y: int, x: int, e: int)
    requires
        board_wf(b),
        0 <= y < 8,
        0 <= e <= x <= 8,
    ensures
        forall|i: int| 0 <= i < rank_text(b, y, x, e).len() ==> !is_ws(#[trigger] rank_text(b, y, x, e)[i]),
        x == 0 ==> rank_text(b, y, x, e).len() > 0,
        e > 0 ==> rank_text(b, y, x, e).len() > 0,
    decreases 8 - x,
{
    if x < 8 {
        let sq = at(b, x, y);
        assert(b[y * 8 + x].wf());
        if sq.piece == Piece::Empty {
            lemma_no_ws_rank(b, y, x + 1, e + 1);
        } else {
            lemma_no_ws_rank(b, y, x + 1, 0);
            lemma_letter(sq);
            if e > 0 { lemma_digit(e as nat); }
            let t = run(e) + seq![square_letter(sq)] + rank_text(b, y, x + 1, 0);
            assert forall|i: int| 0 <= i < t.len() implies !is_ws(#[trigger] t[i]) by {
                if i < run(e).len() {
                } else if i == run(e).len() {
                } else {
                    assert(t[i] == rank_text(b, y, x + 1, 0)[i - run(e).len() - 1]);
                }
            }
        }
    } else if e > 0 {
        lemma_digit(e as nat);
    }
}

proof fn lemma_no_ws_placement(b: Seq<Square>, y: int)
    requires
        board_wf(b),
        0 <= y <= 7,
    ensures
        placement_text(b, y).len() > 0,
        forall|i: int| 0 <= i < placement_text(b, y).len() ==> !is_ws(#[trigger] placement_text(b, y)[i]),
    decreases 8 - y,
{
    lemma_no_ws_rank(b, y, 0, 0);
    if y < 7 {
        lemma_no_ws_placement(b, y + 1);
        let r = rank_text(b, y, 0, 0);
        let t = r + seq!['/'] + placement_text(b, y + 1);
        assert forall|i: int| 0 <= i < t.len() implies !is_ws(#[trigger] t[i]) by {
            if i < r.len() {
                assert(t[i] == r[i]);
            } else if i > r.len() {
                assert(t[i] == placement_text(b, y + 1)[i - r.len() - 1]);
            }
        }
    }
}

proof fn lemma_no_ws_decimal(n: nat)
    ensures
        decimal(n).len() > 0,
        forall|i: int| 0 <= i < decimal(n).len() ==> !is_ws(#[trigger] decimal(n)[i]),
{
    lemma_decimal_digits(n);
}

/// The six words of the FEN text of a game are its six fields.
#[verifier::rlimit(50)]
proof fn lemma_fen_words(g: GameState)
    requires
        g.wf(),
    ensures
        spans(fen_of(g), fen_of(g).len() as int).len() == 6,
        field(fen_of(g), 0) == placement_text(g.board, 0),
        field(fen_of(g), 1) == seq![if g.turn == WHITE { 'w' } else { 'b' }],
        field(fen_of(g), 2) == castling_text(g),
        field(fen_of(g), 3) == en_passant_text(g),
        field(fen_of(g), 4) == decimal(g.halfmove_clock as nat),
        field(fen_of(g), 5) == decimal(g.fullmoves as nat),
{
    let w0 = placement_text(g.board, 0);
    let w1 = seq![if g.turn == WHITE { 'w' } else { 'b' }];
    let w2 = castling_text(g);
    let w3 = en_passant_text(g);
    let w4 = decimal(g.halfmove_clock as nat);
    let w5 = decimal(g.fullmoves as nat);
    let sp = seq![' '];
    let s = fen_of(g);
    assert(s =~= w0 + sp + w1 + sp + w2 + sp + w3 + sp + w4 + sp + w5);
    lemma_no_ws_placement(g.board, 0);
    lemma_no_ws_decimal(g.halfmove_clock as nat);
    lemma_no_ws_decimal(g.fullmoves as nat);
    lemma_castling_round_trip(g);
    match g.en_passant {
        Some(p) => { lemma_digit((8 - p.1) as nat); },
        None => {},
    }
    let e0 = w0.len() as int;
    let s1 = e0 + 1;
    let e1 = s1 + 1;
    let s2 = e1 + 1;
    let e2 = s2 + w2.len();
    let s3 = e2 + 1;
    let e3 = s3 + w3.len();
    let s4 = e3 + 1;
    let e4 = s4 + w4.len();
    let s5 = e4 + 1;
    let e5 = s5 + w5.len();
    assert(s.len() == e5);
    assert(s.subrange(0, e0) =~= w0);
    assert(s.subrange(s1, e1) =~= w1);
    assert(s.subrange(s2, e2) =~= w2);
    assert(s.subrange(s3, e3) =~= w3);
    assert(s.subrange(s4, e4) =~= w4);
    assert(s.subrange(s5, e5) =~= w5);
    assert(s[e0] == ' ' && s[e1] == ' ' && s[e2] == ' ' && s[e3] == ' ' && s[e4] == ' ');
    assert forall|i: int| 0 <= i < e0 implies !is_ws(#[trigger] s[i]) by { assert(s[i] == w0[i]); }
    assert forall|i: int| s1 <= i < e1 implies !is_ws(#[trigger] s[i]) by { assert(s[i] == w1[i - s1]); }
    assert forall|i: int| s2 <= i < e2 implies !is_ws(#[trigger] s[i]) by { assert(s[i] == w2[i - s2]); }
    assert forall|i: int| s3 <= i < e3 implies !is_ws(#[trigger] s[i]) by { assert(s[i] == w3[i - s3]); }
    assert forall|i: int| s4 <= i < e4 implies !is_ws(#[trigger] s[i]) by { assert(s[i] == w4[i - s4]); }
    assert forall|i: int| s5 <= i < e5 implies !is_ws(#[trigger] s[i]) by { assert(s[i] == w5[i - s5]); }
    lemma_spans_word(s, 0, e0);
    assert(spans(s, s1) == spans(s, e0));
    lemma_spans_word(s, s1, 1);
    assert(spans(s, s2) == spans(s, e1));
    lemma_spans_word(s, s2, w2.len() as int);
    assert(spans(s, s3) == spans(s, e2));
    lemma_spans_word(s, s3, w3.len() as int);
    assert(spans(s, s4) == spans(s, e3));
    lemma_spans_word(s, s4, w4.len() as int);
    assert(spans(s, s5) == spans(s, e4));
    lemma_spans_word(s, s5, w5.len() as int);
    let all = spans(s, e5);
    assert(all =~= seq![(0, e0), (s1, e1), (s2, e2), (s3, e3), (s4, e4), (s5, e5)]);
    assert(field(s, 0) == w0);
    assert(field(s, 1) == w1);
    assert(field(s, 2) == w2);
    assert(field(s, 3) == w3);
    assert(field(s, 4) == w4);
    assert(field(s, 5) == w5);
}

/// Decoding the FEN text of a game gives that game back: the text is
/// accepted, and the board, turn, castling rights, en-passant target, king
/// squares and both counters read from it are the game's own. This holds of
/// every well-formed game in which each side has exactly one king, on its
/// recorded square.
pub proof fn lemma_fen_round_trip(g: GameState)
    requires
        g.wf(),
        kings_placed(g),
    ensures
        fen_ok(fen_of(g)),
        decoded(fen_of(g), g),
{
    lemma_fen_words(g);
    lemma_placement_round_trip(g.board);
    lemma_last_king(g.board, WHITE, g.king_of(WHITE), 64);
    lemma_last_king(g.board, BLACK, g.king_of(BLACK), 64);
    lemma_number_round_trip(g.halfmove_clock);
    lemma_number_round_trip(g.fullmoves);
    lemma_castling_round_trip(g);
    match g.en_passant {
        Some(p) => { lemma_digit((8 - p.1) as nat); },
        None => {},
    }
}

proof fn lemma_castling_round_trip(g: GameState)
    ensures
        ({
            let c = castling_text(g);
            let f = castle_fold(c, c.len() as int);
            &&& f.0 == g.right(WHITE, false)
            &&& f.1 == g.right(WHITE, true)
            &&& f.2 == g.right(BLACK, false)
            &&& f.3 == g.right(BLACK, true)
            &&& c.len() > 0
            &&& forall|i: int| 0 <= i < c.len() ==> !is_ws(#[trigger] c[i])
        }),
{
    let a = flag(g.right(WHITE, false), 'K');
    let b = flag(g.right(WHITE, true), 'Q');
    let c = flag(g.right(BLACK, false), 'k');
    let d = flag(g.right(BLACK, true), 'q');
    let t = a + b + c + d;
    let k = (g.right(WHITE, false), g.right(WHITE, true), g.right(BLACK, false), g.right(BLACK, true));
    assert(castle_fold(t, t.len() as int).0 == k.0 && castle_fold(t, t.len() as int).1 == k.1
        && castle_fold(t, t.len() as int).2 == k.2 && castle_fold(t, t.len() as int).3 == k.3) by {
        lemma_castle_fold_flags(g);
    }
    if t.len() == 0 {
        assert(castle_fold(seq!['-'], 0) == (false, false, false, false, false));
        assert(castle_fold(seq!['-'], 1) == (false, false, false, false, true));
        assert(castling_text(g) == seq!['-']);
    } else {
        assert(castling_text(g) == t);
        assert forall|i: int| 0 <= i < t.len() implies !is_ws(#[trigger] t[i]) by {
            let ab = a + b;
            let abc = ab + c;
            if i < abc.len() {
                assert(t[i] == abc[i]);
                if i < ab.len() {
                    assert(abc[i] == ab[i]);
                    if i < a.len() { assert(ab[i] == a[i]); } else { assert(ab[i] == b[i - a.len()]); }
                } else {
                    assert(abc[i] == c[i - ab.len()]);
                }
            } else {
                assert(t[i] == d[i - abc.len()]);
            }
        }
    }
}

proof fn lemma_castle_fold_flags(g: GameState)
    ensures
        ({
            let t = flag(g.right(WHITE, false), 'K') + flag(g.right(WHITE, true), 'Q')
                + flag(g.right(BLACK, false), 'k') + flag(g.right(BLACK, true), 'q');
            let f = castle_fold(t, t.len() as int);
            &&& f.0 == g.right(WHITE, false)
            &&& f.1 == g.right(WHITE, true)
            &&& f.2 == g.right(BLACK, false)
            &&& f.3 == g.right(BLACK, true)
        }),
{
    let t = flag(g.right(WHITE, false), 'K') + flag(g.right(WHITE, true), 'Q')
        + flag(g.right(BLACK, false), 'k') + flag(g.right(BLACK, true), 'q');
    reveal_with_fuel(castle_fold, 5);
    assert(t.len() <= 4);
}

} // verus!
