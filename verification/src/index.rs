//! Grid coordinates: lines, columns, points, and cell-wise point arithmetic
//! that wraps across line boundaries.

use vstd::prelude::*;
use vstd::arithmetic::div_mod::{
    lemma_div_is_ordered, lemma_div_pos_is_pos, lemma_fundamental_div_mod,
    lemma_fundamental_div_mod_converse, lemma_mod_division_less_than_divisor,
};

verus! {

/// Grid row index, growing downward from the top of the screen.
#[derive(Clone, Copy, Debug, PartialEq, Eq, Structural)]
pub struct Line(pub usize);

/// Grid column index, growing rightward.
#[derive(Clone, Copy, Debug, PartialEq, Eq, Structural)]
pub struct Column(pub usize);

/// One cell position in the grid.
#[derive(Clone, Copy, Debug, PartialEq, Eq, Structural)]
pub struct Point {
    pub line: Line,
    pub col: Column,
}

impl Point {
    /// The top-left corner of the grid.
    pub fn origin() -> (r: Point)
        ensures
            r == (Point { line: Line(0), col: Column(0) }),
    {
        Point { line: Line(0), col: Column(0) }
    }

    /// Number of cells that precede `self` when the grid's rows, each
    /// `num_cols` wide, are laid end to end in reading order.
    pub open spec fn total(self, num_cols: Column) -> int {
        self.line.0 * num_cols.0 + self.col.0
    }

    /// The point `length` cells before `self` in reading order, wrapping over
    /// line boundaries in a grid `num_cols` wide and stopping at the origin.
    pub open spec fn spec_back(self, num_cols: Column, length: int) -> Point
        recommends
            num_cols.0 >= 1,
    {
        let t = self.total(num_cols) - length;
        if t <= 0 {
            Point { line: Line(0), col: Column(0) }
        } else {
            Point {
                line: Line((t / (num_cols.0 as int)) as usize),
                col: Column((t % (num_cols.0 as int)) as usize),
            }
        }
    }

    /// Move `length` cells backwards through the grid, wrapping across line
    /// boundaries and saturating at the origin.
    pub fn sub(self, num_cols: Column, length: usize) -> (r: Point)
        requires
            num_cols.0 >= 1,
            self.col.0 < num_cols.0,
        ensures
            r == self.spec_back(num_cols, length as int),
            r.col.0 < num_cols.0,
    {
        let cols = num_cols.0;
        let col = self.col.0;
        let line = self.line.0;
        if length <= col {
            proof {
                let ci = cols as int;
                lemma_fundamental_div_mod_converse(
                    line * ci + (col - length),
                    ci,
                    line as int,
                    col - length,
                );
            }
            Point { line: self.line, col: Column(col - length) }
        } else {
            let rem = length - col;
            let lines_up = (rem - 1) / cols + 1;
            let ghost ci = cols as int;
            let ghost q = (rem as int) / ci;
            let ghost r = (rem as int) % ci;
            let ghost t = self.total(num_cols) - length;
            proof {
                lemma_fundamental_div_mod(rem as int, ci);
                lemma_mod_division_less_than_divisor(rem as int, ci);
                if r == 0 {
                    assert(rem - 1 == (q - 1) * ci + (ci - 1)) by (nonlinear_arith)
                        requires
                            rem == ci * q + r,
                            r == 0,
                            ci >= 1,
                    ;
                    lemma_fundamental_div_mod_converse(rem - 1, ci, q - 1, ci - 1);
                    assert(lines_up == q);
                } else {
                    assert(rem - 1 == q * ci + (r - 1)) by (nonlinear_arith)
                        requires
                            rem == ci * q + r,
                            0 < r < ci,
                    ;
                    lemma_fundamental_div_mod_converse(rem - 1, ci, q, r - 1);
                    assert(lines_up == q + 1);
                }
                assert(t == line * ci - rem);
            }
            if lines_up <= line {
                let new_line = line - lines_up;
                let new_col = if cols - (rem % cols) == cols {
                    0
                } else {
                    cols - (rem % cols)
                };
                proof {
                    if r == 0 {
                        assert(t == (line - q) * ci) by (nonlinear_arith)
                            requires
                                t == line * ci - rem,
                                rem == ci * q + r,
                                r == 0,
                        ;
                        if line == lines_up {
                            assert(t == 0) by (nonlinear_arith)
                                requires
                                    t == (line - q) * ci,
                                    line == q,
                            ;
                        } else {
                            assert(t > 0) by (nonlinear_arith)
                                requires
                                    t == (line - q) * ci,
                                    line - q >= 1,
                                    ci >= 1,
                            ;
                            lemma_fundamental_div_mod_converse(t, ci, line - q, 0);
                        }
                    } else {
                        assert(t == (line - q - 1) * ci + (ci - r)) by (nonlinear_arith)
                            requires
                                t == line * ci - rem,
                                rem == ci * q + r,
                        ;
                        assert(t > 0) by (nonlinear_arith)
                            requires
                                t == (line - q - 1) * ci + (ci - r),
                                line - q - 1 >= 0,
                                0 < r < ci,
                        ;
                        lemma_fundamental_div_mod_converse(t, ci, line - q - 1, ci - r);
                    }
                }
                Point { line: Line(new_line), col: Column(new_col) }
            } else {
                proof {
                    if r == 0 {
                        assert(t <= 0) by (nonlinear_arith)
                            requires
                                t == line * ci - rem,
                                rem == ci * q + r,
                                r == 0,
                                q > line,
                                ci >= 1,
                        ;
                    } else {
                        assert(t <= 0) by (nonlinear_arith)
                            requires
                                t == line * ci - rem,
                                rem == ci * q + r,
                                0 < r < ci,
                                q + 1 > line,
                                ci >= 1,
                        ;
                    }
                }
                Point { line: Line(0), col: Column(0) }
            }
        }
    }
}

/// Reading order on points: line-major, then by column.
pub open spec fn point_le(a: Point, b: Point) -> bool {
    a.line.0 < b.line.0 || (a.line.0 == b.line.0 && a.col.0 <= b.col.0)
}

/// The earlier of two points in reading order.
pub open spec fn spec_point_min(a: Point, b: Point) -> Point {
    if point_le(a, b) {
        a
    } else {
        b
    }
}

/// Decide the reading order between two points.
pub fn point_le_ex(a: Point, b: Point) -> (r: bool)
    ensures
        r == point_le(a, b),
{
    a.line.0 < b.line.0 || (a.line.0 == b.line.0 && a.col.0 <= b.col.0)
}

/// Pick the earlier of two points in reading order.
pub fn point_min(a: Point, b: Point) -> (r: Point)
    ensures
        r == spec_point_min(a, b),
{
    if point_le_ex(a, b) {
        a
    } else {
        b
    }
}

/// With both columns inside a `num_cols`-wide grid, reading order agrees with
/// the order of linearized cell counts.
pub proof fn lemma_total_le_point_le(a: Point, b: Point, num_cols: Column)
    requires
        num_cols.0 >= 1,
        a.col.0 < num_cols.0,
        b.col.0 < num_cols.0,
        a.total(num_cols) <= b.total(num_cols),
    ensures
        point_le(a, b),
{
    if a.line.0 > b.line.0 {
        assert(false) by (nonlinear_arith)
            requires
                a.line.0 * num_cols.0 + a.col.0 <= b.line.0 * num_cols.0 + b.col.0,
                a.line.0 > b.line.0,
                a.col.0 < num_cols.0,
                b.col.0 < num_cols.0,
        ;
    }
}

/// Going back `length` cells lands `length` cells earlier in reading order,
/// unless that would pass the origin, where the movement stops.
pub proof fn lemma_back_total(p: Point, num_cols: Column, length: int)
    requires
        num_cols.0 >= 1,
        p.col.0 < num_cols.0,
        length >= 0,
    ensures
        p.spec_back(num_cols, length).total(num_cols)
            == if p.total(num_cols) >= length { p.total(num_cols) - length } else { 0 },
        p.spec_back(num_cols, length).col.0 < num_cols.0,
{
    let c = num_cols.0 as int;
    let t = p.total(num_cols) - length;
    assert(p.total(num_cols) >= 0) by (nonlinear_arith)
        requires
            p.total(num_cols) == p.line.0 * num_cols.0 + p.col.0,
            num_cols.0 >= 1,
    ;
    if t > 0 {
        lemma_fundamental_div_mod(t, c);
        lemma_mod_division_less_than_divisor(t, c);
        assert(t <= p.line.0 * c + (c - 1));
        lemma_div_is_ordered(t, p.line.0 * c + (c - 1), c);
        lemma_fundamental_div_mod_converse(p.line.0 * c + (c - 1), c, p.line.0 as int, c - 1);
        lemma_div_pos_is_pos(t, c);
        let bl = t / c;
        let bc = t % c;
        assert(bl <= p.line.0);
        let b = p.spec_back(num_cols, length);
        assert(b.line.0 as int == bl && b.col.0 as int == bc);
        assert(b.total(num_cols) == t) by (nonlinear_arith)
            requires
                b.total(num_cols) == b.line.0 * num_cols.0 + b.col.0,
                b.line.0 as int == bl,
                b.col.0 as int == bc,
                num_cols.0 as int == c,
                t == c * bl + bc,
        ;
    } else {
        assert(p.spec_back(num_cols, length).total(num_cols) == 0);
    }
}

} // verus!
