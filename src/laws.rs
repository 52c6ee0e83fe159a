//! Laws of the rules engine, proved over the specifications of its functions.
use vstd::prelude::*;
use crate::piece::{Move, Piece, Square, step_of};
use crate::board::{GameState, on_board, step_on_board};
use crate::attack::attacked;
use crate::moves::{
    legal_moves_of, pseudo_moves, keep_safe, exposes_king, simulate, gen_upto, dir_allowed,
    dir_moves, slide_seq, effective_pin, castle_moves, in_check,
};

verus! {

/// `p` lies on the ray that leaves `(cx, cy)` along `d`, within `7 - i` steps.
pub open spec fn on_ray(cx: int, cy: int, d: Move, p: (usize, usize), i: int) -> bool
    decreases 7 - i,
{
    if i >= 7 {
        false
    } else {
        let nx = cx + step_of(d).0;
        let ny = cy + step_of(d).1;
        (p.0 as int == nx && p.1 as int == ny) || on_ray(nx, ny, d, p, i + 1)
    }
}

proof fn lemma_keep_safe_sound(g: GameState, x: int, y: int, c: Seq<(usize, usize)>, n: int)
    requires
        0 <= n <= c.len(),
    ensures
        forall|i: int| 0 <= i < keep_safe(g, x, y, c, n).len() ==>
            !exposes_king(g, x, y, #[trigger] keep_safe(g, x, y, c, n)[i]) && c.contains(keep_safe(g, x, y, c, n)[i]),
    decreases n,
{
    if n > 0 {
        lemma_keep_safe_sound(g, x, y, c, n - 1);
        let prev = keep_safe(g, x, y, c, n - 1);
        let tail = if !exposes_king(g, x, y, c[n - 1]) { seq![c[n - 1]] } else { Seq::empty() };
        assert forall|i: int| 0 <= i < (prev + tail).len() implies
            !exposes_king(g, x, y, #[trigger] (prev + tail)[i]) && c.contains((prev + tail)[i]) by {
            if i < prev.len() {
                assert((prev + tail)[i] == prev[i]);
            } else {
                assert((prev + tail)[i] == c[n - 1]);
            }
        }
    }
}

/// A king never steps onto a square that is attacked once it stands there:
/// every legal destination of the side to move's king, castling aside, leaves
/// it unattacked on the board that results.
pub proof fn lemma_king_never_moves_into_check(g: GameState, x: int, y: int, p: (usize, usize))
    requires
        g.wf(),
        on_board(x, y),
        g.sq(x, y) == (Square { piece: Piece::King, color: g.turn }),
        legal_moves_of(g, x, y).contains(p),
        !(p.0 == x + 2 || x == p.0 + 2),
    ensures
        !attacked(simulate(g, x, y, p), g.turn, p.0 as int, p.1 as int),
{
    let c = pseudo_moves(g, x, y);
    let f = keep_safe(g, x, y, c, c.len() as int);
    lemma_keep_safe_sound(g, x, y, c, c.len() as int);
    let all = f + castle_moves(g, x, y);
    assert(legal_moves_of(g, x, y) == all);
    let i = choose|i: int| 0 <= i < all.len() && all[i] == p;
    if i < f.len() {
        assert(all[i] == f[i]);
    } else {
        assert(all[i] == castle_moves(g, x, y)[i - f.len()]);
    }
}

proof fn lemma_slide_on_ray(b: Seq<Square>, side: usize, cx: int, cy: int, d: Move, i: int)
    ensures
        forall|j: int| 0 <= j < slide_seq(b, side, cx, cy, d, i).len() ==>
            on_ray(cx, cy, d, #[trigger] slide_seq(b, side, cx, cy, d, i)[j], i),
    decreases 7 - i,
{
    if i < 7 && step_on_board(cx, cy, d) {
        let nx = cx + step_of(d).0;
        let ny = cy + step_of(d).1;
        lemma_slide_on_ray(b, side, nx, ny, d, i + 1);
        let s = slide_seq(b, side, cx, cy, d, i);
        let rest = slide_seq(b, side, nx, ny, d, i + 1);
        assert forall|j: int| 0 <= j < s.len() implies on_ray(cx, cy, d, #[trigger] s[j], i) by {
            if j > 0 {
                assert(s[j] == rest[j - 1]);
            }
        }
    }
}

proof fn lemma_dir_moves_on_ray(g: GameState, x: int, y: int, d: Move)
    ensures
        forall|j: int| 0 <= j < dir_moves(g, x, y, d).len() ==> on_ray(x, y, d, #[trigger] dir_moves(g, x, y, d)[j], 0),
{
    lemma_slide_on_ray(g.board, g.turn, x, y, d, 0);
    let s = dir_moves(g, x, y, d);
    assert forall|j: int| 0 <= j < s.len() implies on_ray(x, y, d, #[trigger] s[j], 0) by {
        let nx = x + step_of(d).0;
        let ny = y + step_of(d).1;
        if j == 1 && g.sq(x, y).piece == Piece::Pawn {
            assert(on_ray(nx, ny, d, s[j], 1));
        }
    }
}

/// Every element of `gen_upto(.., Some(axis), k)` lies on one of the axis rays.
proof fn lemma_gen_on_axis(g: GameState, x: int, y: int, axis: (Move, Move), k: int)
    ensures
        forall|j: int| 0 <= j < gen_upto(g, x, y, Some(axis), k).len() ==>
            on_ray(x, y, axis.0, #[trigger] gen_upto(g, x, y, Some(axis), k)[j], 0)
            || on_ray(x, y, axis.1, gen_upto(g, x, y, Some(axis), k)[j], 0),
    decreases k,
{
    if k > 0 {
        lemma_gen_on_axis(g, x, y, axis, k - 1);
        let prev = gen_upto(g, x, y, Some(axis), k - 1);
        let d = crate::piece::dir_at(k - 1);
        lemma_dir_moves_on_ray(g, x, y, d);
        let tail = if dir_allowed(g.sq(x, y), Some(axis), d) { dir_moves(g, x, y, d) } else { Seq::empty() };
        let s = prev + tail;
        assert(gen_upto(g, x, y, Some(axis), k) == s);
        assert forall|j: int| 0 <= j < s.len() implies
            on_ray(x, y, axis.0, #[trigger] s[j], 0) || on_ray(x, y, axis.1, s[j], 0) by {
            if j < prev.len() {
                assert(s[j] == prev[j]);
            } else {
                assert(s[j] == tail[j - prev.len()]);
            }
        }
    }
}

/// A pinned piece only moves along its pin axis: every legal destination of a
/// piece other than the king, pinned along `axis`, lies on one of the two
/// rays of the axis.
pub proof fn lemma_pinned_piece_stays_on_axis(g: GameState, x: int, y: int, axis: (Move, Move), p: (usize, usize))
    requires
        g.wf(),
        on_board(x, y),
        g.sq(x, y).piece != Piece::King,
        effective_pin(g, x, y) == Some(axis),
        legal_moves_of(g, x, y).contains(p),
    ensures
        on_ray(x, y, axis.0, p, 0) || on_ray(x, y, axis.1, p, 0),
{
    let c = pseudo_moves(g, x, y);
    lemma_gen_on_axis(g, x, y, axis, 16);
    lemma_keep_safe_sound(g, x, y, c, c.len() as int);
    let l = legal_moves_of(g, x, y);
    let i = choose|i: int| 0 <= i < l.len() && l[i] == p;
    if in_check(g) {
        let f = keep_safe(g, x, y, c, c.len() as int);
        assert(l == f);
        assert(c.contains(f[i]));
        let j = choose|j: int| 0 <= j < c.len() && c[j] == p;
        assert(c[j] == p);
    } else {
        assert(l == c);
        assert(c[i] == p);
    }
}

} // verus!
