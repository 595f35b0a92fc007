use termruns::cell::Rgb;
use termruns::index::{Column, Line, Point};
use termruns::rects::RenderLine;

fn color() -> Rgb {
    Rgb { r: 10, g: 20, b: 30 }
}

#[test]
fn single_row_span_keeps_both_columns() {
    let line = RenderLine {
        start: Point { line: Line(2), col: Column(3) },
        end: Point { line: Line(2), col: Column(9) },
        color: color(),
    };
    let rows = line.row_spans(Column(20));
    assert_eq!(rows.len(), 1);
    assert_eq!(rows[0], line);
}

#[test]
fn wrapped_span_splits_per_row() {
    let line = RenderLine {
        start: Point { line: Line(1), col: Column(5) },
        end: Point { line: Line(3), col: Column(2) },
        color: color(),
    };
    let rows = line.row_spans(Column(8));
    assert_eq!(rows.len(), 3);

    // First row: from the start column to the grid's last column.
    assert_eq!(rows[0].start, Point { line: Line(1), col: Column(5) });
    assert_eq!(rows[0].end, Point { line: Line(1), col: Column(7) });

    // Middle row: the full grid width.
    assert_eq!(rows[1].start, Point { line: Line(2), col: Column(0) });
    assert_eq!(rows[1].end, Point { line: Line(2), col: Column(7) });

    // Last row: from column zero to the end column.
    assert_eq!(rows[2].start, Point { line: Line(3), col: Column(0) });
    assert_eq!(rows[2].end, Point { line: Line(3), col: Column(2) });

    for row in rows {
        assert_eq!(row.color, color());
    }
}

#[test]
fn reversed_span_touches_no_row() {
    let line = RenderLine {
        start: Point { line: Line(4), col: Column(0) },
        end: Point { line: Line(2), col: Column(0) },
        color: color(),
    };
    assert_eq!(line.row_spans(Column(8)).len(), 0);
}

#[test]
fn point_sub_wraps_over_line_ends() {
    let p = Point { line: Line(2), col: Column(1) };
    assert_eq!(p.sub(Column(10), 1), Point { line: Line(2), col: Column(0) });
    assert_eq!(p.sub(Column(10), 2), Point { line: Line(1), col: Column(9) });
    assert_eq!(p.sub(Column(10), 12), Point { line: Line(0), col: Column(9) });
    // Stepping past the origin stops there.
    assert_eq!(p.sub(Column(10), 90), Point { line: Line(0), col: Column(0) });
}
