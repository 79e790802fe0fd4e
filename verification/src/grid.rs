//! Cells of the board and the rectangle arithmetic shared by the snake and
//! the board.

use std::collections::VecDeque;
use vstd::prelude::*;

verus! {

/// A cell of the board: `(row, column)`, both counted from zero.
pub type Position = (usize, usize);

/// Whether `cell` lies in the rectangle from `lo` (inclusive) to `hi`
/// (exclusive).
pub open spec fn inside(cell: (int, int), lo: Position, hi: Position) -> bool {
    lo.0 <= cell.0 < hi.0 && lo.1 <= cell.1 < hi.1
}

/// One coordinate folded into `lo..hi`: the Euclidean remainder of its
/// distance from `lo` by the span, counted from `lo`.
pub open spec fn wrap_coord(at: int, lo: usize, hi: usize) -> int {
    (at - lo) % (hi - lo) + lo
}

/// `cell` folded back into the rectangle from `lo` to `hi`: each coordinate
/// is taken modulo the rectangle's span, counted from the rectangle's
/// origin.
pub open spec fn wrap_into(cell: (int, int), lo: Position, hi: Position) -> (int, int) {
    (wrap_coord(cell.0, lo.0, hi.0), wrap_coord(cell.1, lo.1, hi.1))
}

/// A cell with integer coordinates as a `Position`.
pub open spec fn as_position(cell: (int, int)) -> Position {
    (cell.0 as usize, cell.1 as usize)
}

/// A `Position` as a cell with integer coordinates.
pub open spec fn as_cell(p: Position) -> (int, int) {
    (p.0 as int, p.1 as int)
}

/// Whether `p` lies in the rectangle from `lo` (inclusive) to `hi`
/// (exclusive).
pub fn in_rectangle(p: Position, lo: Position, hi: Position) -> (b: bool)
    ensures
        b == inside(as_cell(p), lo, hi),
{
    lo.0 <= p.0 && p.0 < hi.0 && lo.1 <= p.1 && p.1 < hi.1
}

/// Whether `cell` is one of `cells`.
pub fn slice_contains(cells: &[Position], cell: Position) -> (found: bool)
    ensures
        found == cells@.contains(cell),
{
    let mut i: usize = 0;
    while i < cells.len()
        invariant
            i <= cells@.len(),
            forall|j: int| 0 <= j < i ==> cells@[j] != cell,
        decreases cells@.len() - i,
    {
        if cells[i].0 == cell.0 && cells[i].1 == cell.1 {
            return true;
        }
        i += 1;
    }
    false
}

/// Whether `cell` is one of `cells`.
pub fn deque_contains(cells: &VecDeque<Position>, cell: Position) -> (found: bool)
    ensures
        found == cells@.contains(cell),
{
    let mut i: usize = 0;
    while i < cells.len()
        invariant
            i <= cells@.len(),
            forall|j: int| 0 <= j < i ==> cells@[j] != cell,
        decreases cells@.len() - i,
    {
        if cells[i].0 == cell.0 && cells[i].1 == cell.1 {
            return true;
        }
        i += 1;
    }
    false
}

/// Moves one coordinate by `step` (-1, 0 or 1) and folds it into `lo..hi`.
pub fn wrapped_step(at: usize, step: i32, lo: usize, hi: usize) -> (r: usize)
    requires
        lo < hi,
        -1 <= step <= 1,
        at < usize::MAX,
    ensures
        r == wrap_coord(at + step, lo, hi),
        lo <= r < hi,
{
    let span: usize = hi - lo;
    if step == -1 && at == 0 {
        // one below zero: lo + 1 cells short of the rectangle's origin
        let short: usize = (lo + 1) % span;
        proof {
            lemma_wrap_below(-1, lo as int, span as int);
        }
        if short == 0 {
            lo
        } else {
            lo + (span - short)
        }
    } else {
        let x: usize = if step == 1 {
            at + 1
        } else if step == -1 {
            at - 1
        } else {
            at
        };
        if x >= lo {
            (x - lo) % span + lo
        } else {
            let short: usize = (lo - x) % span;
            proof {
                lemma_wrap_below(x as int, lo as int, span as int);
            }
            if short == 0 {
                lo
            } else {
                lo + (span - short)
            }
        }
    }
}

/// Moves one coordinate by `step` (-1, 0 or 1) and keeps it only if it
/// lands in `lo..hi`.
pub fn plain_step(at: usize, step: i32, lo: usize, hi: usize) -> (r: Option<usize>)
    requires
        -1 <= step <= 1,
    ensures
        r == (if lo <= at + step < hi {
            Some((at + step) as usize)
        } else {
            None
        }),
{
    if step == 1 {
        if at < usize::MAX && lo <= at + 1 && at + 1 < hi {
            Some(at + 1)
        } else {
            None
        }
    } else if step == -1 {
        if at > 0 && lo <= at - 1 && at - 1 < hi {
            Some(at - 1)
        } else {
            None
        }
    } else {
        if lo <= at && at < hi {
            Some(at)
        } else {
            None
        }
    }
}

/// Folding a cell that lies inside the rectangle leaves it where it is.
pub proof fn lemma_wrap_inside(cell: (int, int), lo: Position, hi: Position)
    requires
        inside(cell, lo, hi),
    ensures
        wrap_into(cell, lo, hi) == cell,
{
    vstd::arithmetic::div_mod::lemma_small_mod((cell.0 - lo.0) as nat, (hi.0 - lo.0) as nat);
    vstd::arithmetic::div_mod::lemma_small_mod((cell.1 - lo.1) as nat, (hi.1 - lo.1) as nat);
}

/// Folding any cell into a non-empty rectangle gives a cell inside it.
pub proof fn lemma_wrap_lands_inside(cell: (int, int), lo: Position, hi: Position)
    requires
        lo.0 < hi.0,
        lo.1 < hi.1,
    ensures
        inside(wrap_into(cell, lo, hi), lo, hi),
{
    vstd::arithmetic::div_mod::lemma_mod_bound(cell.0 - lo.0, hi.0 - lo.0);
    vstd::arithmetic::div_mod::lemma_mod_bound(cell.1 - lo.1, hi.1 - lo.1);
}

/// The remainder by `span` of an offset between one below zero and `span`.
pub proof fn lemma_wrap_edge(offset: int, span: int)
    requires
        span > 0,
        -1 <= offset <= span,
    ensures
        offset % span == (if offset == -1 {
            span - 1
        } else if offset == span {
            0
        } else {
            offset
        }),
{
    if offset == -1 {
        assert(offset == (-1) * span + (span - 1)) by (nonlinear_arith)
            requires
                offset == -1,
        ;
        vstd::arithmetic::div_mod::lemma_fundamental_div_mod_converse(offset, span, -1, span - 1);
    } else if offset == span {
        assert(offset == 1 * span + 0) by (nonlinear_arith)
            requires
                offset == span,
        ;
        vstd::arithmetic::div_mod::lemma_fundamental_div_mod_converse(offset, span, 1, 0);
    } else {
        vstd::arithmetic::div_mod::lemma_small_mod(offset as nat, span as nat);
    }
}

/// The Euclidean remainder of a value below the origin, from the remainder
/// of its distance to the origin.
proof fn lemma_wrap_below(x: int, lo: int, span: int)
    requires
        span > 0,
        x < lo,
    ensures
        (x - lo) % span == if (lo - x) % span == 0 {
            0
        } else {
            span - (lo - x) % span
        },
{
    let k = lo - x;
    let q = k / span;
    let m = k % span;
    assert(k == q * span + m) by {
        vstd::arithmetic::div_mod::lemma_fundamental_div_mod(k, span);
    }
    if m == 0 {
        assert(x - lo == (-q) * span + 0) by (nonlinear_arith)
            requires
                k == q * span + m,
                m == 0,
                k == lo - x,
        ;
        vstd::arithmetic::div_mod::lemma_fundamental_div_mod_converse(x - lo, span, -q, 0);
    } else {
        assert(x - lo == (-q - 1) * span + (span - m)) by (nonlinear_arith)
            requires
                k == q * span + m,
                k == lo - x,
        ;
        vstd::arithmetic::div_mod::lemma_fundamental_div_mod_converse(
            x - lo,
            span,
            -q - 1,
            span - m,
        );
    }
}

} // verus!
