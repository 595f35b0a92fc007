use termruns::cell::{
    Cell, Color, CursorKey, CursorStyle, Flags, Glyph, Indexed, RenderableCell,
    RenderableCellContent, Rgb, UIFlags, BOLD, UNDERLINE, UI_SELECTED,
};
use termruns::index::{Column, Line};
use termruns::text_run::{RunStart, TextRun, TextRunContent};

fn sig() -> RunStart {
    RunStart {
        line: Line(3),
        column: Column(7),
        fg: Color::Named(2),
        bg: Color::Indexed(8),
        uiflags: UIFlags { bits: 0 },
        flags: Flags { bits: BOLD },
    }
}

fn cell_like_sig(column: usize) -> Indexed {
    Indexed {
        line: Line(3),
        column: Column(column),
        cell: Cell {
            c: 'x',
            fg: Color::Named(2),
            bg: Color::Indexed(8),
            flags: Flags { bits: BOLD },
        },
    }
}

#[test]
fn run_continues_while_attributes_match() {
    let sig = sig();
    // Only the column differs: still the same run.
    assert!(sig.belongs_to_text_run(&cell_like_sig(7), UIFlags { bits: 0 }));
    assert!(sig.belongs_to_text_run(&cell_like_sig(42), UIFlags { bits: 0 }));
}

#[test]
fn run_breaks_where_an_attribute_changes() {
    let sig = sig();

    let mut other_line = cell_like_sig(8);
    other_line.line = Line(4);
    assert!(!sig.belongs_to_text_run(&other_line, UIFlags { bits: 0 }));

    let mut other_fg = cell_like_sig(8);
    other_fg.cell.fg = Color::Named(3);
    assert!(!sig.belongs_to_text_run(&other_fg, UIFlags { bits: 0 }));

    let mut other_bg = cell_like_sig(8);
    other_bg.cell.bg = Color::Spec(Rgb { r: 1, g: 2, b: 3 });
    assert!(!sig.belongs_to_text_run(&other_bg, UIFlags { bits: 0 }));

    let mut other_flags = cell_like_sig(8);
    other_flags.cell.flags = Flags { bits: BOLD | UNDERLINE };
    assert!(!sig.belongs_to_text_run(&other_flags, UIFlags { bits: 0 }));

    assert!(!sig.belongs_to_text_run(&cell_like_sig(8), UIFlags { bits: UI_SELECTED }));
}

fn char_run(line: usize, start: usize, text: &str, fg: Rgb) -> TextRun {
    let chars: Vec<char> = text.chars().collect();
    let extras = vec![vec![char::default(); 5]; chars.len()];
    TextRun {
        line: Line(line),
        span: (Column(start), Column(start + chars.len() - 1)),
        content: TextRunContent::CharRun(chars, extras),
        fg,
        bg: Rgb { r: 0, g: 0, b: 0 },
        bg_alpha: 0,
        flags: Flags { bits: 0 },
        data: None,
    }
}

#[test]
fn cache_equivalence_ignores_position_and_color() {
    let a = char_run(0, 5, "hello", Rgb { r: 0, g: 0, b: 0 });
    let b = char_run(9, 40, "hello", Rgb { r: 255, g: 0, b: 0 });
    assert!(a.cache_eq(&b));
    assert!(b.cache_eq(&a));
}

#[test]
fn cache_equivalence_demands_content_and_flags() {
    let a = char_run(0, 5, "hello", Rgb { r: 0, g: 0, b: 0 });

    let other_text = char_run(0, 5, "hellp", Rgb { r: 0, g: 0, b: 0 });
    assert!(!a.cache_eq(&other_text));

    let mut other_flags = char_run(0, 5, "hello", Rgb { r: 0, g: 0, b: 0 });
    other_flags.flags = Flags { bits: UNDERLINE };
    assert!(!a.cache_eq(&other_flags));

    // A cursor run never matches a character run.
    let cursor = TextRun::from_cursor_key(
        RunStart {
            line: Line(0),
            column: Column(5),
            fg: Color::Named(0),
            bg: Color::Named(0),
            uiflags: UIFlags { bits: 0 },
            flags: Flags { bits: 0 },
        },
        CursorKey { style: CursorStyle::Block, is_wide: false },
        Rgb { r: 0, g: 0, b: 0 },
        Rgb { r: 0, g: 0, b: 0 },
        0,
    );
    let single = char_run(0, 5, "x", Rgb { r: 0, g: 0, b: 0 });
    assert!(!single.cache_eq(&cursor));
}

#[test]
fn from_cursor_key_builds_single_cell_run() {
    let start = RunStart {
        line: Line(2),
        column: Column(11),
        fg: Color::Named(0),
        bg: Color::Named(0),
        uiflags: UIFlags { bits: 0 },
        flags: Flags { bits: UNDERLINE },
    };
    let key = CursorKey { style: CursorStyle::Beam, is_wide: true };
    let run = TextRun::from_cursor_key(
        start,
        key,
        Rgb { r: 1, g: 2, b: 3 },
        Rgb { r: 4, g: 5, b: 6 },
        7,
    );
    assert_eq!(run.line, Line(2));
    assert_eq!(run.span, (Column(11), Column(11)));
    assert!(matches!(run.content, TextRunContent::Cursor(k) if k == key));
    assert_eq!(run.fg, Rgb { r: 1, g: 2, b: 3 });
    assert_eq!(run.bg, Rgb { r: 4, g: 5, b: 6 });
    assert_eq!(run.bg_alpha, 7);
    assert_eq!(run.flags, Flags { bits: UNDERLINE });
    assert!(run.data.is_none());
}

fn glyph(tex: u32) -> Glyph {
    Glyph {
        tex_id: tex,
        multicolor: 0,
        top: 1,
        left: 2,
        width: 3,
        height: 4,
        uv_bot: 5,
        uv_left: 6,
        uv_width: 7,
        uv_height: 8,
    }
}

fn cached_cell(line: usize, column: usize, fg: Rgb) -> RenderableCell {
    RenderableCell {
        line: Line(line),
        column: Column(column),
        inner: RenderableCellContent::Chars(vec![' '; 6]),
        fg,
        bg: Rgb { r: 9, g: 9, b: 9 },
        bg_alpha: 17,
        flags: Flags { bits: 0 },
    }
}

#[test]
fn update_from_data_patches_cached_cells_in_place() {
    let black = Rgb { r: 0, g: 0, b: 0 };
    let red = Rgb { r: 255, g: 0, b: 0 };

    let mut shaped = char_run(0, 3, "abc", black);
    shaped.data = Some(vec![
        (cached_cell(0, 3, black), glyph(1)),
        (cached_cell(0, 4, black), glyph(2)),
        (cached_cell(0, 5, black), glyph(3)),
    ]);

    // The same text one line lower, five columns to the right, in red.
    let mut fresh = char_run(1, 8, "abc", red);
    assert!(fresh.cache_eq(&shaped));

    fresh.update_from_data(&shaped);

    let data = fresh.data.as_ref().expect("cached data was taken over");
    assert_eq!(data.len(), 3);
    for (i, (cell, glyph)) in data.iter().enumerate() {
        assert_eq!(cell.line, Line(1));
        assert_eq!(cell.column, Column(8 + i));
        assert_eq!(cell.fg, red);
        // Background and opacity matched, so the cached values stay.
        assert_eq!(cell.bg, Rgb { r: 9, g: 9, b: 9 });
        assert_eq!(cell.bg_alpha, 17);
        // Glyph metrics are untouched.
        assert_eq!(glyph.tex_id, (i + 1) as u32);
        assert_eq!(glyph.uv_height, 8);
    }
}

#[test]
fn update_from_data_without_cache_changes_nothing() {
    let black = Rgb { r: 0, g: 0, b: 0 };
    let shaped = char_run(0, 3, "abc", black);
    let mut fresh = char_run(1, 8, "abc", black);
    fresh.update_from_data(&shaped);
    assert!(fresh.data.is_none());
}
