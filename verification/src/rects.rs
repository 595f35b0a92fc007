//! Decoration lines: a color-uniform segment between two grid points, and its
//! decomposition into the per-row spans that the pixel layer draws.

use vstd::prelude::*;
use crate::index::{Column, Line, Point};
use crate::cell::Rgb;

verus! {

/// One color-uniform piece of a decoration: a start point, an end point on
/// the same or a later line, and a color.
#[derive(Clone, Copy, Debug, PartialEq, Eq, Structural)]
pub struct RenderLine {
    pub start: Point,
    pub end: Point,
    pub color: Rgb,
}

/// The span of `l` that falls on its `i`-th touched row, in a grid `num_cols`
/// wide: the first row begins at the segment's start column, later rows at
/// column zero; the last row ends at the segment's end column, earlier rows
/// at the grid's last column.
pub open spec fn spec_row_span(l: RenderLine, num_cols: Column, i: int) -> RenderLine
    recommends
        num_cols.0 >= 1,
        0 <= i <= l.end.line.0 - l.start.line.0,
{
    RenderLine {
        start: Point {
            line: Line((l.start.line.0 + i) as usize),
            col: if i == 0 {
                l.start.col
            } else {
                Column(0)
            },
        },
        end: Point {
            line: Line((l.start.line.0 + i) as usize),
            col: if l.start.line.0 + i == l.end.line.0 {
                l.end.col
            } else {
                Column((num_cols.0 - 1) as usize)
            },
        },
        color: l.color,
    }
}

impl RenderLine {
    /// Split a segment into one single-row span per row it touches, in row
    /// order. A segment whose end line precedes its start line touches no
    /// row.
    pub fn row_spans(&self, num_cols: Column) -> (v: Vec<RenderLine>)
        requires
            num_cols.0 >= 1,
            self.end.line.0 < usize::MAX,
        ensures
            self.start.line.0 > self.end.line.0 ==> v@.len() == 0,
            self.start.line.0 <= self.end.line.0 ==> v@.len() == self.end.line.0
                - self.start.line.0 + 1,
            forall|i: int|
                0 <= i < v@.len() ==> #[trigger] v@[i] == spec_row_span(*self, num_cols, i),
    {
        let mut v: Vec<RenderLine> = Vec::new();
        if self.start.line.0 > self.end.line.0 {
            return v;
        }
        let rows = self.end.line.0 - self.start.line.0;
        let mut i: usize = 0;
        while i <= rows
            invariant
                rows == self.end.line.0 - self.start.line.0,
                rows < usize::MAX,
                num_cols.0 >= 1,
                i <= rows + 1,
                v@.len() == i,
                forall|j: int|
                    0 <= j < i ==> #[trigger] v@[j] == spec_row_span(*self, num_cols, j),
            decreases rows + 1 - i,
        {
            let line = Line(self.start.line.0 + i);
            let start_col = if i == 0 {
                self.start.col
            } else {
                Column(0)
            };
            let end_col = if self.start.line.0 + i == self.end.line.0 {
                self.end.col
            } else {
                Column(num_cols.0 - 1)
            };
            v.push(
                RenderLine {
                    start: Point { line, col: start_col },
                    end: Point { line, col: end_col },
                    color: self.color,
                },
            );
            i += 1;
        }
        v
    }
}

} // verus!
