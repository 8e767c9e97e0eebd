//! The grid: cell states, the board value, and toroidal neighbor addressing.
//!
//! A board stores its cells in row-major order (index = row * width +
//! column).  Each of the eight addressing functions maps a cell index to the
//! index of one neighbor, wrapping around the edges so the grid behaves as a
//! torus: left of column 0 is the last column, below the last row is row 0,
//! and corners wrap on both axes.

use vstd::prelude::*;
use vstd::arithmetic::div_mod::{
    lemma_div_pos_is_pos, lemma_fundamental_div_mod, lemma_fundamental_div_mod_converse,
    lemma_mod_pos_bound,
};

verus! {

/// The state of one grid cell.
#[derive(Clone, Copy, PartialEq, Eq, Structural, Debug)]
pub enum LifeState {
    Dead,
    Alive,
}

/// One generation of the grid: fixed dimensions plus a row-major sequence of
/// cell states.  A board is a plain value; stepping the simulation builds a
/// fresh board and never mutates this one.
#[derive(Debug)]
pub struct Board {
    pub height: usize,
    pub width: usize,
    pub cells: Vec<LifeState>,
}

impl Board {
    /// The number of cells the dimensions call for.
    pub open spec fn area(self) -> int {
        self.width * self.height
    }

    /// The dimensions are positive and the cell sequence fills the grid
    /// exactly.  Every board handed to the addressing functions and to the
    /// transition engine must satisfy this.
    pub open spec fn well_formed(self) -> bool {
        &&& 1 <= self.width
        &&& 1 <= self.height
        &&& self.cells@.len() == self.area()
    }
}

impl PartialEq for Board {
    fn eq(&self, other: &Board) -> (r: bool) {
        if self.width != other.width
            || self.height != other.height
            || self.cells.len() != other.cells.len()
        {
            return false;
        }
        let mut k: usize = 0;
        while k < self.cells.len()
            invariant
                self.cells@.len() == other.cells@.len(),
                k <= self.cells@.len(),
                forall|j: int| 0 <= j < k ==> self.cells@[j] == other.cells@[j],
            decreases self.cells@.len() - k,
        {
            if self.cells[k] != other.cells[k] {
                return false;
            }
            k = k + 1;
        }
        proof {
            assert(self.cells@ =~= other.cells@);
        }
        true
    }
}

impl vstd::std_specs::cmp::PartialEqSpecImpl for Board {
    open spec fn obeys_eq_spec() -> bool {
        true
    }

    open spec fn eq_spec(&self, other: &Board) -> bool {
        self.width == other.width && self.height == other.height && self.cells@ == other.cells@
    }
}

/// Index of the cell directly above `i`, wrapping the top row to the bottom
/// row of the same column.
pub open spec fn top_index(i: int, width: int, height: int) -> int {
    if i < width {
        i + width * (height - 1)
    } else {
        i - width
    }
}

/// Index of the cell directly below `i`, wrapping the bottom row to the top
/// row of the same column.
pub open spec fn bottom_index(i: int, width: int, height: int) -> int {
    if i + width >= width * height {
        i - (height - 1) * width
    } else {
        i + width
    }
}

/// Index of the cell directly to the left of `i`, wrapping column 0 to the
/// last column of the same row.
pub open spec fn left_index(i: int, width: int) -> int {
    if i < 1 {
        i + (width - 1)
    } else if (i + 1) % width == 1 {
        i + (width - 1)
    } else {
        i - 1
    }
}

/// Index of the cell directly to the right of `i`, wrapping the last column
/// to column 0 of the same row.
pub open spec fn right_index(i: int, width: int, height: int) -> int {
    if i + 1 >= width * height {
        (i + 1) - width
    } else if (i + 1) % width == 0 {
        (i + 1) - width
    } else {
        i + 1
    }
}

/// The upper-left diagonal neighbor: left of the cell above.
pub open spec fn top_left_index(i: int, width: int, height: int) -> int {
    left_index(top_index(i, width, height), width)
}

/// The upper-right diagonal neighbor: right of the cell above.
pub open spec fn top_right_index(i: int, width: int, height: int) -> int {
    right_index(top_index(i, width, height), width, height)
}

/// The lower-left diagonal neighbor: below the cell to the left.
pub open spec fn bottom_left_index(i: int, width: int, height: int) -> int {
    bottom_index(left_index(i, width), width, height)
}

/// The lower-right diagonal neighbor: below the cell to the right.
pub open spec fn bottom_right_index(i: int, width: int, height: int) -> int {
    bottom_index(right_index(i, width, height), width, height)
}

proof fn lemma_area_arith(w: int, h: int) by (nonlinear_arith)
    requires
        1 <= w,
        1 <= h,
    ensures
        w * (h - 1) == w * h - w,
        (h - 1) * w == w * h - w,
        w <= w * h,
        h <= w * h,
        2 <= h ==> w + w <= w * h,
{
}

proof fn lemma_mul_nonneg(q: int, w: int) by (nonlinear_arith)
    requires
        0 <= q,
        0 <= w,
    ensures
        0 <= q * w,
        (q + 1) * w == q * w + w,
{
}

/// `x` splits uniquely into a multiple of `w` plus a remainder below `w`.
proof fn lemma_decompose(x: int, w: int)
    requires
        1 <= w,
        0 <= x,
    ensures
        x == (x / w) * w + (x % w),
        0 <= x % w < w,
        0 <= x / w,
{
    lemma_fundamental_div_mod(x, w);
    lemma_mod_pos_bound(x, w);
    lemma_div_pos_is_pos(x, w);
}

/// Reading the remainder and quotient back off a sum `q * w + b`.
proof fn lemma_mod_of_multiple_plus(q: int, b: int, w: int)
    requires
        1 <= w,
        0 <= b < w,
    ensures
        (q * w + b) % w == b,
        (q * w + b) / w == q,
{
    lemma_fundamental_div_mod_converse(q * w + b, w, q, b);
}

/// How the column tests used by the addressing formulas relate to `i % w`.
proof fn lemma_col_facts(i: int, w: int)
    requires
        2 <= w,
        0 <= i,
    ensures
        ((i + 1) % w == 1) <==> (i % w == 0),
        ((i + 1) % w == 0) <==> (i % w == w - 1),
{
    lemma_decompose(i, w);
    let q: int = i / w;
    let c: int = i % w;
    lemma_mul_nonneg(q, w);
    if c == w - 1 {
        lemma_mod_of_multiple_plus(q + 1, 0, w);
    } else {
        lemma_mod_of_multiple_plus(q, c + 1, w);
    }
}

/// The vertical neighbor of any valid index is again a valid index.
pub proof fn lemma_vertical_in_range(i: int, w: int, h: int)
    requires
        1 <= w,
        1 <= h,
        0 <= i < w * h,
    ensures
        0 <= top_index(i, w, h) < w * h,
        0 <= bottom_index(i, w, h) < w * h,
{
    lemma_area_arith(w, h);
}

/// The horizontal neighbor of any valid index is again a valid index.
pub proof fn lemma_horizontal_in_range(i: int, w: int, h: int)
    requires
        1 <= w,
        1 <= h,
        0 <= i < w * h,
    ensures
        0 <= left_index(i, w) < w * h,
        0 <= right_index(i, w, h) < w * h,
{
    lemma_area_arith(w, h);
    if 1 <= i && (i + 1) % w == 1 {
        lemma_decompose(i + 1, w);
        let q: int = (i + 1) / w;
        assert(i == q * w);
        assert(i + w <= w * h) by (nonlinear_arith)
            requires
                1 <= w,
                0 <= q,
                i == q * w,
                i < w * h,
        ;
    }
    if i + 1 < w * h && (i + 1) % w == 0 {
        lemma_decompose(i + 1, w);
        let q: int = (i + 1) / w;
        assert(i + 1 == q * w);
        assert(w <= i + 1) by (nonlinear_arith)
            requires
                1 <= w,
                0 <= q,
                i + 1 == q * w,
                1 <= i + 1,
        ;
    }
}

/// On a board at least two columns wide, the left neighbor of `i` is the
/// previous cell of the same row, computed with wrap-around from `i % w`.
proof fn lemma_left_char(i: int, w: int, h: int)
    requires
        2 <= w,
        1 <= h,
        0 <= i < w * h,
    ensures
        left_index(i, w) == if i % w == 0 {
            i + w - 1
        } else {
            i - 1
        },
{
    lemma_col_facts(i, w);
    if i < 1 {
        lemma_mod_of_multiple_plus(0, 0, w);
    }
}

/// On a board at least two columns wide, the right neighbor of `i` is the
/// next cell of the same row, computed with wrap-around from `i % w`.
proof fn lemma_right_char(i: int, w: int, h: int)
    requires
        2 <= w,
        1 <= h,
        0 <= i < w * h,
    ensures
        right_index(i, w, h) == if i % w == w - 1 {
            i + 1 - w
        } else {
            i + 1
        },
{
    lemma_area_arith(w, h);
    lemma_col_facts(i, w);
    if i + 1 >= w * h {
        // Only the last cell overall reaches the first branch, and it sits in
        // the last column.
        lemma_mod_of_multiple_plus(h - 1, w - 1, w);
        assert(i == (h - 1) * w + (w - 1));
    }
}

/// Toroidal symmetry of the horizontal directions: on a board at least two
/// columns wide, `right` undoes `left` and `left` undoes `right`.
///
/// On a board of width 1 the two are not inverses: there `right` maps every
/// cell to itself while `left` still steps backwards through the sequence.
pub proof fn lemma_horizontal_round_trip(i: int, w: int, h: int)
    requires
        2 <= w,
        1 <= h,
        0 <= i < w * h,
    ensures
        right_index(left_index(i, w), w, h) == i,
        left_index(right_index(i, w, h), w) == i,
{
    lemma_area_arith(w, h);
    lemma_decompose(i, w);
    let q: int = i / w;
    let c: int = i % w;
    lemma_mul_nonneg(q, w);
    lemma_left_char(i, w, h);
    lemma_right_char(i, w, h);
    if c == 0 {
        // left wraps to the row's last column; right steps back.
        let l: int = i + w - 1;
        assert(l == q * w + (w - 1));
        lemma_mod_of_multiple_plus(q, w - 1, w);
        assert(i + w <= w * h) by (nonlinear_arith)
            requires
                1 <= w,
                0 <= q,
                i == q * w,
                i < w * h,
        ;
        lemma_right_char(l, w, h);
    } else {
        let l: int = i - 1;
        assert(l == q * w + (c - 1));
        lemma_mod_of_multiple_plus(q, c - 1, w);
        lemma_right_char(l, w, h);
    }
    if c == w - 1 {
        // right wraps to the row's first column; left steps forward.
        let r: int = i + 1 - w;
        assert(r == q * w);
        lemma_mod_of_multiple_plus(q, 0, w);
        lemma_left_char(r, w, h);
    } else {
        let r: int = i + 1;
        // `i` is not the last cell overall, which sits in the last column.
        lemma_mod_of_multiple_plus(h - 1, w - 1, w);
        assert(i != w * h - 1);
        assert(r == q * w + (c + 1));
        lemma_mod_of_multiple_plus(q, c + 1, w);
        lemma_left_char(r, w, h);
    }
}

/// Toroidal symmetry of the vertical directions: `bottom` undoes `top` and
/// `top` undoes `bottom`, on every board with positive dimensions.
pub proof fn lemma_vertical_round_trip(i: int, w: int, h: int)
    requires
        1 <= w,
        1 <= h,
        0 <= i < w * h,
    ensures
        bottom_index(top_index(i, w, h), w, h) == i,
        top_index(bottom_index(i, w, h), w, h) == i,
{
    lemma_area_arith(w, h);
}

/// Corner wrap: on a board at least two columns wide, the neighbors of cell 0
/// include the last cell of its row (to the left), the bottom cell of its
/// column (above), and the last cell of the whole board (diagonally up-left).
pub proof fn lemma_corner_wrap(w: int, h: int)
    requires
        2 <= w,
        1 <= h,
    ensures
        left_index(0, w) == w - 1,
        top_index(0, w, h) == w * (h - 1),
        top_left_index(0, w, h) == w * h - 1,
{
    lemma_area_arith(w, h);
    lemma_mod_of_multiple_plus(h - 1, 0, w);
    lemma_left_char(w * (h - 1), w, h);
    assert((w * (h - 1)) % w == 0) by {
        assert(w * (h - 1) == (h - 1) * w + 0);
    }
}

/// Every one of the eight neighbor indices of a valid cell index lies on the
/// board: wrapping guarantees there is no off-board case.
pub proof fn lemma_neighbour_indices_in_range(i: int, w: int, h: int)
    requires
        1 <= w,
        1 <= h,
        0 <= i < w * h,
    ensures
        0 <= top_index(i, w, h) < w * h,
        0 <= bottom_index(i, w, h) < w * h,
        0 <= left_index(i, w) < w * h,
        0 <= right_index(i, w, h) < w * h,
        0 <= top_left_index(i, w, h) < w * h,
        0 <= top_right_index(i, w, h) < w * h,
        0 <= bottom_left_index(i, w, h) < w * h,
        0 <= bottom_right_index(i, w, h) < w * h,
{
    lemma_vertical_in_range(i, w, h);
    lemma_horizontal_in_range(i, w, h);
    lemma_horizontal_in_range(top_index(i, w, h), w, h);
    lemma_vertical_in_range(left_index(i, w), w, h);
    lemma_vertical_in_range(right_index(i, w, h), w, h);
}

/// Index of the cell above `position`, wrapping the top row to the bottom.
pub fn get_top(position: usize, board: &Board) -> (r: usize)
    requires
        board.well_formed(),
        position < board.area(),
    ensures
        r == top_index(position as int, board.width as int, board.height as int),
        r < board.area(),
{
    proof {
        vstd::std_specs::vec::axiom_spec_len(&board.cells);
        lemma_area_arith(board.width as int, board.height as int);
        lemma_vertical_in_range(position as int, board.width as int, board.height as int);
    }
    if position < board.width {
        position + board.width * (board.height - 1)
    } else {
        position - board.width
    }
}

/// Index of the cell below `position`, wrapping the bottom row to the top.
pub fn get_bottom(position: usize, board: &Board) -> (r: usize)
    requires
        board.well_formed(),
        position < board.area(),
    ensures
        r == bottom_index(position as int, board.width as int, board.height as int),
        r < board.area(),
{
    let n: usize = board.cells.len();
    proof {
        lemma_area_arith(board.width as int, board.height as int);
        lemma_vertical_in_range(position as int, board.width as int, board.height as int);
    }
    if position >= n - board.width {
        position - (board.height - 1) * board.width
    } else {
        position + board.width
    }
}

/// Index of the cell to the left of `position`, wrapping column 0 to the
/// last column of the same row.
pub fn get_left(position: usize, board: &Board) -> (r: usize)
    requires
        board.well_formed(),
        position < board.area(),
    ensures
        r == left_index(position as int, board.width as int),
        r < board.area(),
{
    proof {
        vstd::std_specs::vec::axiom_spec_len(&board.cells);
        lemma_area_arith(board.width as int, board.height as int);
        lemma_horizontal_in_range(position as int, board.width as int, board.height as int);
    }
    if position < 1 {
        return position + (board.width - 1);
    }
    if (position + 1) % board.width == 1 {
        return position + (board.width - 1);
    }
    position - 1
}

/// Index of the cell to the right of `position`, wrapping the last column to
/// column 0 of the same row.
pub fn get_right(position: usize, board: &Board) -> (r: usize)
    requires
        board.well_formed(),
        position < board.area(),
    ensures
        r == right_index(position as int, board.width as int, board.height as int),
        r < board.area(),
{
    let n: usize = board.cells.len();
    proof {
        lemma_area_arith(board.width as int, board.height as int);
        lemma_horizontal_in_range(position as int, board.width as int, board.height as int);
    }
    if position + 1 >= n {
        return (position + 1) - board.width;
    }
    if (position + 1) % board.width == 0 {
        return (position + 1) - board.width;
    }
    position + 1
}

/// Index of the upper-left diagonal neighbor of `position`.
pub fn get_top_left(position: usize, board: &Board) -> (r: usize)
    requires
        board.well_formed(),
        position < board.area(),
    ensures
        r == top_left_index(position as int, board.width as int, board.height as int),
        r < board.area(),
{
    get_left(get_top(position, board), board)
}

/// Index of the upper-right diagonal neighbor of `position`.
pub fn get_top_right(position: usize, board: &Board) -> (r: usize)
    requires
        board.well_formed(),
        position < board.area(),
    ensures
        r == top_right_index(position as int, board.width as int, board.height as int),
        r < board.area(),
{
    get_right(get_top(position, board), board)
}

/// Index of the lower-left diagonal neighbor of `position`.
pub fn get_bottom_left(position: usize, board: &Board) -> (r: usize)
    requires
        board.well_formed(),
        position < board.area(),
    ensures
        r == bottom_left_index(position as int, board.width as int, board.height as int),
        r < board.area(),
{
    get_bottom(get_left(position, board), board)
}

/// Index of the lower-right diagonal neighbor of `position`.
pub fn get_bottom_right(position: usize, board: &Board) -> (r: usize)
    requires
        board.well_formed(),
        position < board.area(),
    ensures
        r == bottom_right_index(position as int, board.width as int, board.height as int),
        r < board.area(),
{
    get_bottom(get_right(position, board), board)
}

} // verus!
