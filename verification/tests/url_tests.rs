use termruns::cell::{Flags, Rgb, WIDE_CHAR_SPACER, WRAPLINE};
use termruns::index::{Column, Line, Point};
use termruns::text_run::{TextRun, TextRunContent};
use termruns::url::{Mods, MouseState, Urls};

fn text_to_text_run(start: usize, text: &str) -> TextRun {
    let chars: Vec<char> = text.chars().collect();
    let extras = vec![vec![char::default(); 5]; chars.len()];
    TextRun {
        line: Line(0),
        span: (Column(start), Column(chars.len() - 1 + start)),
        content: TextRunContent::CharRun(chars, extras),
        fg: Rgb { r: 0, g: 0, b: 0 },
        bg: Rgb { r: 0, g: 0, b: 0 },
        bg_alpha: 0,
        flags: Flags { bits: 0 },
        data: None,
    }
}

fn text_to_text_runs(texts: &[&str]) -> (Vec<TextRun>, usize) {
    let mut out = vec![];
    let mut index = 0;
    for text in texts {
        let text_run = text_to_text_run(index, text);
        out.push(text_run);
        index += text.len();
    }
    (out, index)
}

fn line_run(line: usize, text: &str, wrap: bool) -> TextRun {
    let mut run = text_to_text_run(0, text);
    run.line = Line(line);
    if wrap {
        run.flags = Flags { bits: WRAPLINE };
    }
    run
}

#[test]
fn multi_color_url() {
    let (mut input, num_cols) = text_to_text_runs(&["test http", "s", "://example.org ing"]);
    input[1].fg = Rgb { r: 0xff, g: 0x00, b: 0xff };

    let mut urls = Urls::new();

    for text_run in input.iter() {
        urls.update(Column(num_cols), text_run);
    }

    let url = urls.urls().first().unwrap();
    assert_eq!(url.start().col, Column(5));
    assert_eq!(url.end().col, Column(23));
}

#[test]
fn multiple_urls() {
    let (input, num_cols) = text_to_text_runs(&["test git:a git:b git:c ing"]);

    let mut urls = Urls::new();

    for text_run in &input {
        urls.update(Column(num_cols), text_run);
    }

    assert_eq!(urls.urls().len(), 3);

    assert_eq!(urls.urls()[0].start().col, Column(5));
    assert_eq!(urls.urls()[0].end().col, Column(9));

    assert_eq!(urls.urls()[1].start().col, Column(11));
    assert_eq!(urls.urls()[1].end().col, Column(15));

    assert_eq!(urls.urls()[2].start().col, Column(17));
    assert_eq!(urls.urls()[2].end().col, Column(21));
}

#[test]
fn multi_color_url_segments() {
    let (mut input, num_cols) = text_to_text_runs(&["test http", "s", "://example.org ing"]);
    input[1].fg = Rgb { r: 0xff, g: 0x00, b: 0xff };

    let mut urls = Urls::new();
    for text_run in input.iter() {
        urls.update(Column(num_cols), text_run);
    }

    assert_eq!(urls.urls().len(), 1);
    let url = &urls.urls()[0];
    let lines = url.lines();
    assert_eq!(lines.len(), 3);

    assert_eq!(lines[0].start, Point { line: Line(0), col: Column(5) });
    assert_eq!(lines[0].end, Point { line: Line(0), col: Column(8) });
    assert_eq!(lines[0].color, Rgb { r: 0, g: 0, b: 0 });

    assert_eq!(lines[1].start, Point { line: Line(0), col: Column(9) });
    assert_eq!(lines[1].end, Point { line: Line(0), col: Column(9) });
    assert_eq!(lines[1].color, Rgb { r: 0xff, g: 0x00, b: 0xff });

    assert_eq!(lines[2].start, Point { line: Line(0), col: Column(10) });
    assert_eq!(lines[2].end, Point { line: Line(0), col: Column(23) });
    assert_eq!(lines[2].color, Rgb { r: 0, g: 0, b: 0 });
}

#[test]
fn replay_is_deterministic() {
    let (mut input, num_cols) = text_to_text_runs(&["test http", "s", "://example.org git:x "]);
    input[1].fg = Rgb { r: 0xff, g: 0x00, b: 0xff };

    let mut first = Urls::new();
    for text_run in input.iter() {
        first.update(Column(num_cols), text_run);
    }

    let mut second = Urls::new();
    for text_run in input.iter() {
        second.update(Column(num_cols), text_run);
    }

    assert_eq!(first.urls().len(), second.urls().len());
    for (a, b) in first.urls().iter().zip(second.urls().iter()) {
        assert_eq!(a.start(), b.start());
        assert_eq!(a.end(), b.end());
        assert_eq!(a.end_offset(), b.end_offset());
        assert_eq!(a.lines().as_slice(), b.lines().as_slice());
    }
}

#[test]
fn trailing_offset_wraps_backwards() {
    // A URL that wraps over the line end and then gathers trailing
    // punctuation: the effective end steps back over the wrap.
    let num_cols = 8;
    let first = line_run(0, "x git:ab", true);
    let second = line_run(1, "c,, ", false);

    let mut urls = Urls::new();
    urls.update(Column(num_cols), &first);
    urls.update(Column(num_cols), &second);

    assert_eq!(urls.urls().len(), 1);
    let url = &urls.urls()[0];
    assert_eq!(url.start(), Point { line: Line(0), col: Column(2) });
    assert_eq!(url.end_offset(), 2);
    let raw_end = url.lines().last().unwrap().end;
    assert_eq!(raw_end, Point { line: Line(1), col: Column(2) });
    assert_eq!(url.end(), Point { line: Line(1), col: Column(0) });
}

#[test]
fn hard_break_terminates_url() {
    let num_cols = 6;
    let first = line_run(0, "git:ab", false);
    let second = line_run(1, "cd ", false);

    let mut urls = Urls::new();
    urls.update(Column(num_cols), &first);
    urls.update(Column(num_cols), &second);

    // The run ends at the last column without a wrap flag, so the open URL
    // stops there; the next line cannot extend it.
    assert_eq!(urls.urls().len(), 1);
    assert_eq!(urls.urls()[0].end(), Point { line: Line(0), col: Column(5) });
}

#[test]
fn soft_wrap_continues_url() {
    let num_cols = 6;
    let first = line_run(0, "git:ab", true);
    let second = line_run(1, "cd ", false);

    let mut urls = Urls::new();
    urls.update(Column(num_cols), &first);
    urls.update(Column(num_cols), &second);

    assert_eq!(urls.urls().len(), 1);
    assert_eq!(urls.urls()[0].end(), Point { line: Line(1), col: Column(1) });
}

#[test]
fn wide_spacer_extends_open_url() {
    let num_cols = 20;

    // "git:a." leaves an open URL whose trailing '.' is excluded.
    let run = text_to_text_run(0, "git:a.");
    let mut spacer = text_to_text_run(6, "x");
    spacer.flags = Flags { bits: WIDE_CHAR_SPACER };

    let mut urls = Urls::new();
    urls.update(Column(num_cols), &run);
    assert_eq!(urls.urls().len(), 1);
    assert_eq!(urls.urls()[0].end_offset(), 1);

    // The spacer extends the segment and grows the exclusion with it, so
    // the effective end stays on the last clickable cell.
    urls.update(Column(num_cols), &spacer);
    let url = &urls.urls()[0];
    assert_eq!(url.lines().last().unwrap().end, Point { line: Line(0), col: Column(6) });
    assert_eq!(url.end_offset(), 2);
    assert_eq!(url.end(), Point { line: Line(0), col: Column(4) });
}

#[test]
fn skipped_cells_reset_scanner() {
    let num_cols = 40;
    // An open URL, then a run that is not the immediate successor of the
    // last processed cell: the scanner resets and the URL stays as it was.
    let first = text_to_text_run(0, "git:ab");
    let second = text_to_text_run(10, "cd ");

    let mut urls = Urls::new();
    urls.update(Column(num_cols), &first);
    urls.update(Column(num_cols), &second);

    assert_eq!(urls.urls().len(), 1);
    assert_eq!(urls.urls()[0].end(), Point { line: Line(0), col: Column(5) });
}

#[test]
fn abandoned_scheme_yields_no_url() {
    let (input, num_cols) = text_to_text_runs(&["say http hello"]);
    let mut urls = Urls::new();
    for text_run in &input {
        urls.update(Column(num_cols), text_run);
    }
    assert_eq!(urls.urls().len(), 0);
}

#[test]
fn find_at_picks_containing_url() {
    let (input, num_cols) = text_to_text_runs(&["test git:a git:b git:c ing"]);
    let mut urls = Urls::new();
    for text_run in &input {
        urls.update(Column(num_cols), text_run);
    }

    let hit = urls.find_at(Point { line: Line(0), col: Column(12) });
    let url = hit.expect("point inside the second URL");
    assert_eq!(url.start().col, Column(11));
    assert_eq!(url.end().col, Column(15));

    let miss = urls.find_at(Point { line: Line(0), col: Column(10) });
    assert!(miss.is_none());
}

fn hover_mouse() -> MouseState {
    MouseState {
        line: Line(0),
        column: Column(6),
        inside_text_area: true,
        left_button_pressed: false,
    }
}

fn no_mods() -> Mods {
    Mods { shift: false, ctrl: false, alt: false, logo: false }
}

fn scanned_urls() -> Urls {
    let (input, num_cols) = text_to_text_runs(&["test git:a ing"]);
    let mut urls = Urls::new();
    for text_run in &input {
        urls.update(Column(num_cols), text_run);
    }
    urls
}

#[test]
fn highlighted_requires_no_selection() {
    let urls = scanned_urls();
    let hit = urls.highlighted(true, no_mods(), &hover_mouse(), no_mods(), false, false);
    assert!(hit.is_some());

    // With a selection active nothing is highlighted, whatever else holds.
    let blocked = urls.highlighted(true, no_mods(), &hover_mouse(), no_mods(), false, true);
    assert!(blocked.is_none());
    let shift = Mods { shift: true, ..no_mods() };
    let blocked2 = urls.highlighted(true, no_mods(), &hover_mouse(), shift, true, true);
    assert!(blocked2.is_none());
}

#[test]
fn highlighted_checks_mods_and_pointer() {
    let urls = scanned_urls();

    // Held modifiers must equal the required set exactly.
    let shift = Mods { shift: true, ..no_mods() };
    assert!(urls.highlighted(true, no_mods(), &hover_mouse(), shift, false, false).is_none());

    // Mouse-reporting mode adds shift to the required set.
    assert!(urls.highlighted(true, no_mods(), &hover_mouse(), shift, true, false).is_some());
    assert!(urls.highlighted(true, no_mods(), &hover_mouse(), no_mods(), true, false).is_none());

    // No launcher configured, pointer off the text area, or a pressed
    // button each block the highlight.
    assert!(urls.highlighted(false, no_mods(), &hover_mouse(), no_mods(), false, false).is_none());
    let outside = MouseState { inside_text_area: false, ..hover_mouse() };
    assert!(urls.highlighted(true, no_mods(), &outside, no_mods(), false, false).is_none());
    let pressed = MouseState { left_button_pressed: true, ..hover_mouse() };
    assert!(urls.highlighted(true, no_mods(), &pressed, no_mods(), false, false).is_none());

    // The pointer cell must lie inside a URL.
    let off_url = MouseState { column: Column(1), ..hover_mouse() };
    assert!(urls.highlighted(true, no_mods(), &off_url, no_mods(), false, false).is_none());
}

#[test]
fn clamped_lines_cut_at_effective_end() {
    let num_cols = 8;
    let first = line_run(0, "x git:ab", true);
    let second = line_run(1, "c,, ", false);

    let mut urls = Urls::new();
    urls.update(Column(num_cols), &first);
    urls.update(Column(num_cols), &second);

    let url = &urls.urls()[0];
    let clamped = url.clamped_lines();
    assert_eq!(clamped.len(), 1);
    assert_eq!(clamped[0].start, Point { line: Line(0), col: Column(2) });
    assert_eq!(clamped[0].end, Point { line: Line(1), col: Column(0) });
}
