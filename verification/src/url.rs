//! URL detection over the run stream: detected URLs with per-color segments,
//! and the stateful scanner that consumes runs in screen order.

use vstd::prelude::*;
use crate::cell::{
    Rgb, RenderableCell, LEADING_WIDE_CHAR_SPACER, WIDE_CHAR, WIDE_CHAR_SPACER, WRAPLINE,
};
use crate::index::{
    lemma_back_total, lemma_total_le_point_le, point_le, point_le_ex, point_min, spec_point_min,
    Column, Line, Point,
};
use crate::locator::{
    count_opens, lemma_count_opens_le_len, lemma_count_opens_push, locate, open_add, LocationState,
    Locator,
};
use crate::rects::RenderLine;
use crate::text_run::{TextRun, TextRunContent};

verus! {

/// Mathematical image of a detected URL.
#[verifier::ext_equal]
pub struct UrlV {
    pub lines: Seq<RenderLine>,
    pub end_offset: u16,
    pub num_cols: Column,
}

/// A detected URL: its color-uniform segments in reading order, the count of
/// trailing cells excluded from the clickable range, and the grid width used
/// to wrap that count over line ends.
#[derive(Debug)]
pub struct Url {
    lines: Vec<RenderLine>,
    end_offset: u16,
    num_cols: Column,
}

impl View for Url {
    type V = UrlV;

    closed spec fn view(&self) -> UrlV {
        UrlV { lines: self.lines@, end_offset: self.end_offset, num_cols: self.num_cols }
    }
}

/// Segment ends lie inside the stored grid width.
pub open spec fn url_wf0(u: UrlV) -> bool {
    u.num_cols.0 >= 1 && forall|i: int|
        0 <= i < u.lines.len() ==> (#[trigger] u.lines[i]).end.col.0 < u.num_cols.0
}

/// A well-formed URL: well-bounded segments, and at least one of them.
pub open spec fn url_wf(u: UrlV) -> bool {
    url_wf0(u) && u.lines.len() >= 1
}

/// Where the URL begins: its first segment's start.
pub open spec fn url_start(u: UrlV) -> Point {
    u.lines[0].start
}

/// Where the clickable URL ends: the last segment's end, moved back by the
/// trailing-exclusion count, wrapping over line ends at the stored width.
pub open spec fn url_end(u: UrlV) -> Point {
    u.lines.last().end.spec_back(u.num_cols, u.end_offset as int)
}

/// The segments clamped to the clickable range: segments starting past the
/// effective end are dropped, and the rest end no later than it.
pub open spec fn spec_clamped(lines: Seq<RenderLine>, end: Point) -> Seq<RenderLine>
    decreases lines.len(),
{
    if lines.len() == 0 {
        Seq::empty()
    } else {
        let rest = spec_clamped(lines.drop_last(), end);
        let l = lines.last();
        if point_le(l.start, end) {
            rest.push(RenderLine { start: l.start, end: spec_point_min(l.end, end), color: l.color })
        } else {
            rest
        }
    }
}

impl Url {
    /// The URL's first point.
    pub fn start(&self) -> (r: Point)
        requires
            url_wf(self@),
        ensures
            r == url_start(self@),
    {
        self.lines[0].start
    }

    /// The URL's last clickable point: the last segment's end minus the
    /// trailing-exclusion count, wrapped at the stored grid width.
    pub fn end(&self) -> (r: Point)
        requires
            url_wf(self@),
        ensures
            r == url_end(self@),
    {
        self.lines[self.lines.len() - 1].end.sub(self.num_cols, self.end_offset as usize)
    }

    /// The URL's segments, in reading order.
    pub fn lines(&self) -> (r: &Vec<RenderLine>)
        ensures
            r@ == self@.lines,
    {
        &self.lines
    }

    /// The count of trailing cells excluded from the clickable range.
    pub fn end_offset(&self) -> (r: u16)
        ensures
            r == self@.end_offset,
    {
        self.end_offset
    }

    /// The grid width the URL was detected under.
    pub fn num_cols(&self) -> (r: Column)
        ensures
            r == self@.num_cols,
    {
        self.num_cols
    }

    /// A copy of this URL.
    pub fn duplicate(&self) -> (r: Url)
        ensures
            r@ == self@,
    {
        let mut lines: Vec<RenderLine> = Vec::new();
        let n = self.lines.len();
        let mut i: usize = 0;
        while i < n
            invariant
                n == self.lines@.len(),
                i <= n,
                lines@.len() == i,
                forall|j: int| 0 <= j < i ==> lines@[j] == self.lines@[j],
            decreases n - i,
        {
            lines.push(self.lines[i]);
            i += 1;
        }
        proof {
            assert(lines@ =~= self.lines@);
        }
        Url { lines, end_offset: self.end_offset, num_cols: self.num_cols }
    }

    /// The segments to draw when the URL is highlighted: those that begin
    /// inside the clickable range, each cut off at its effective end.
    pub fn clamped_lines(&self) -> (v: Vec<RenderLine>)
        requires
            url_wf(self@),
        ensures
            v@ == spec_clamped(self@.lines, url_end(self@)),
    {
        let end = self.end();
        let mut v: Vec<RenderLine> = Vec::new();
        let n = self.lines.len();
        let mut i: usize = 0;
        while i < n
            invariant
                n == self.lines@.len(),
                i <= n,
                end == url_end(self@),
                v@ == spec_clamped(self.lines@.subrange(0, i as int), end),
            decreases n - i,
        {
            let l = self.lines[i];
            proof {
                assert(self.lines@.subrange(0, i + 1).drop_last() =~= self.lines@.subrange(
                    0,
                    i as int,
                ));
                assert(self.lines@.subrange(0, i + 1).last() == self.lines@[i as int]);
            }
            if point_le_ex(l.start, end) {
                let cut = point_min(l.end, end);
                v.push(RenderLine { start: l.start, end: cut, color: l.color });
            }
            i += 1;
        }
        proof {
            assert(self.lines@.subrange(0, n as int) =~= self.lines@);
        }
        v
    }
}

/// The effective end never lies after the last segment's raw end, and the
/// gap between the two, counted in cells with line wrap, equals the
/// trailing-exclusion count — save where the count would pass the origin,
/// where the movement stops there.
pub proof fn lemma_end_within_raw_end(u: UrlV)
    requires
        url_wf(u),
    ensures
        point_le(url_end(u), u.lines.last().end),
        u.lines.last().end.total(u.num_cols) - url_end(u).total(u.num_cols) == if u.lines.last().end.total(u.num_cols)
            >= u.end_offset as int {
            u.end_offset as int
        } else {
            u.lines.last().end.total(u.num_cols)
        },
{
    let raw = u.lines.last().end;
    lemma_back_total(raw, u.num_cols, u.end_offset as int);
    lemma_total_le_point_le(url_end(u), raw, u.num_cols);
}

/// Mathematical image of a cell the scanner feeds or buffers: its position
/// and its foreground color.
#[verifier::ext_equal]
pub struct CellV {
    pub line: Line,
    pub column: Column,
    pub fg: Rgb,
}

/// Mathematical image of the scanner: the characters fed to the recognizer
/// since its last reset, the recognizer's last report, the detected URLs, the
/// buffer of possible scheme cells, and the last processed position.
#[verifier::ext_equal]
pub struct UrlsV {
    pub fed: Seq<char>,
    pub state: LocationState,
    pub urls: Seq<UrlV>,
    pub scheme_buffer: Seq<CellV>,
    pub last_point: Option<Point>,
}

/// The scanner as it starts: nothing fed, nothing detected.
pub open spec fn init_v() -> UrlsV {
    UrlsV {
        fed: Seq::empty(),
        state: LocationState::Reset,
        urls: Seq::empty(),
        scheme_buffer: Seq::empty(),
        last_point: None,
    }
}

/// A scanner reset: recognizer history and report cleared, scheme buffer
/// discarded; detected URLs and the last position stay.
pub open spec fn v_reset(v: UrlsV) -> UrlsV {
    UrlsV {
        fed: Seq::empty(),
        state: LocationState::Reset,
        scheme_buffer: Seq::empty(),
        ..v
    }
}

/// Append one cell to the newest URL: its last segment is extended when the
/// color matches, a new segment starts otherwise, and the trailing-exclusion
/// count is updated. Without a URL to extend nothing changes; the scanner
/// never reaches that case.
pub open spec fn v_extend(v: UrlsV, start: Point, end: Point, color: Rgb, end_offset: u16) -> UrlsV {
    if v.urls.len() == 0 {
        v
    } else {
        let u = v.urls.last();
        let lines2 = if u.lines.len() > 0 && u.lines.last().color == color {
            u.lines.update(
                u.lines.len() - 1,
                RenderLine { start: u.lines.last().start, end, color: u.lines.last().color },
            )
        } else {
            u.lines.push(RenderLine { start, end, color })
        };
        UrlsV {
            urls: v.urls.update(
                v.urls.len() - 1,
                UrlV { lines: lines2, end_offset, num_cols: u.num_cols },
            ),
            ..v
        }
    }
}

/// Flush buffered scheme cells into the newest URL, in order, each as a
/// single-cell extension.
pub open spec fn v_flush(v: UrlsV, cells: Seq<CellV>, end_offset: u16) -> UrlsV
    decreases cells.len(),
{
    if cells.len() == 0 {
        v
    } else {
        let c = cells.first();
        v_flush(
            v_extend(
                v,
                Point { line: c.line, col: c.column },
                Point { line: c.line, col: c.column },
                c.fg,
                end_offset,
            ),
            cells.drop_first(),
            end_offset,
        )
    }
}

/// Whether a run is a spacer for a double-width character.
pub open spec fn run_spacer(run: TextRun) -> bool {
    run.flags.spec_intersects(WIDE_CHAR_SPACER | LEADING_WIDE_CHAR_SPACER)
}

/// Whether a run's line soft-wraps into the next one.
pub open spec fn run_wrapline(run: TextRun) -> bool {
    run.flags.spec_contains(WRAPLINE)
}

/// Columns each character of the run occupies.
pub open spec fn run_step(run: TextRun) -> int {
    if run.flags.spec_contains(WIDE_CHAR) {
        2
    } else {
        1
    }
}

/// The run's characters; a cursor run has none.
pub open spec fn run_chars(run: TextRun) -> Seq<char> {
    match run.content {
        TextRunContent::CharRun(chars, _) => chars@,
        TextRunContent::Cursor(_) => Seq::empty(),
    }
}

/// The cell the run's `i`-th character occupies.
pub open spec fn run_cell(run: TextRun, i: int) -> CellV {
    CellV {
        line: run.line,
        column: Column((run.span.0.0 + run_step(run) * i) as usize),
        fg: run.fg,
    }
}

/// The trailing-exclusion count after a spacer cell: kept at zero, otherwise
/// grown by one, saturating at its type's limit.
pub open spec fn spacer_eo(eo: u16) -> u16 {
    if eo != 0 && eo < 0xffff {
        (eo + 1) as u16
    } else {
        eo
    }
}

/// One cell step of the scanner, for the run's `i`-th character.
pub open spec fn v_cell(v: UrlsV, num_cols: Column, run: TextRun, i: int) -> UrlsV {
    let c = run_chars(run)[i];
    let cell = run_cell(run, i);
    let point = Point { line: cell.line, col: cell.column };
    let v1 = if point != (Point { line: Line(0), col: Column(0) }) && Some(
        point.spec_back(num_cols, 1),
    ) != v.last_point {
        v_reset(v)
    } else {
        v
    };
    let v2 = UrlsV { last_point: Some(point), ..v1 };
    if run_spacer(run) {
        match v2.state {
            LocationState::Url(_l, eo) => v_extend(v2, point, point, cell.fg, spacer_eo(eo)),
            _ => v2,
        }
    } else {
        let v3 = if v2.fed.len() >= 65535 || count_opens(v2.fed) + open_add(c) >= 255 {
            v_reset(v2)
        } else {
            v2
        };
        let fed2 = v3.fed.push(c);
        let st = locate(fed2);
        let last = v3.state;
        let v4 = UrlsV { fed: fed2, state: st, ..v3 };
        let v5 = match (st, last) {
            (LocationState::Url(_l, eo), LocationState::Scheme) => {
                let pushed = UrlsV {
                    urls: v4.urls.push(
                        UrlV { lines: Seq::empty(), end_offset: eo, num_cols },
                    ),
                    scheme_buffer: Seq::empty(),
                    ..v4
                };
                let flushed = v_flush(pushed, v4.scheme_buffer, eo);
                v_extend(flushed, point, point, cell.fg, eo)
            },
            (LocationState::Url(_l, eo), LocationState::Url(_l2, _e2)) => v_extend(
                v4,
                point,
                point,
                cell.fg,
                eo,
            ),
            (LocationState::Scheme, _) => UrlsV {
                scheme_buffer: v4.scheme_buffer.push(cell),
                ..v4
            },
            (LocationState::Reset, _) => v_reset(v4),
            _ => v4,
        };
        if cell.column.0 == num_cols.0 - 1 && !run_wrapline(run) {
            v_reset(v5)
        } else {
            v5
        }
    }
}

/// The scanner after the run's characters from the `i`-th on.
pub open spec fn v_run_cells(v: UrlsV, num_cols: Column, run: TextRun, i: int) -> UrlsV
    decreases run_chars(run).len() - i,
{
    if 0 <= i < run_chars(run).len() {
        v_run_cells(v_cell(v, num_cols, run, i), num_cols, run, i + 1)
    } else {
        v
    }
}

/// The scanner after one whole run: cursor runs are ignored, character runs
/// are re-expanded into their cells.
pub open spec fn v_update(v: UrlsV, num_cols: Column, run: TextRun) -> UrlsV {
    match run.content {
        TextRunContent::CharRun(_c, _z) => v_run_cells(v, num_cols, run, 0),
        TextRunContent::Cursor(_k) => v,
    }
}

/// Every detected URL is well-formed.
pub open spec fn urls_wf_all(v: UrlsV) -> bool {
    forall|i: int| 0 <= i < v.urls.len() ==> url_wf(#[trigger] v.urls[i])
}

/// Every URL but the newest is well-formed; the newest is well-bounded but
/// may still be empty, as it is just after its creation.
pub open spec fn urls_weak(v: UrlsV) -> bool {
    (forall|i: int| 0 <= i < v.urls.len() - 1 ==> url_wf(#[trigger] v.urls[i])) && (v.urls.len()
        > 0 ==> url_wf0(v.urls.last()))
}

/// The scanner state fits one pass over a grid `num_cols` wide: every URL was
/// detected at that width and every buffered cell lies inside it.
pub open spec fn compat(v: UrlsV, num_cols: Column) -> bool {
    (forall|i: int| 0 <= i < v.urls.len() ==> (#[trigger] v.urls[i]).num_cols == num_cols) && (
    forall|i: int| 0 <= i < v.scheme_buffer.len() ==> (#[trigger] v.scheme_buffer[i]).column.0
        < num_cols.0)
}

proof fn lemma_extend_props(v: UrlsV, start: Point, end: Point, color: Rgb, eo: u16, num_cols: Column)
    requires
        compat(v, num_cols),
        end.col.0 < num_cols.0,
    ensures
        compat(v_extend(v, start, end, color, eo), num_cols),
        urls_weak(v) ==> urls_weak(v_extend(v, start, end, color, eo)),
        urls_wf_all(v) ==> urls_wf_all(v_extend(v, start, end, color, eo)),
        v_extend(v, start, end, color, eo).urls.len() == v.urls.len(),
        urls_weak(v) && v.urls.len() > 0 ==> url_wf(v_extend(v, start, end, color, eo).urls.last()),
{
    let w = v_extend(v, start, end, color, eo);
    if v.urls.len() > 0 {
        let u = v.urls.last();
        let u2 = w.urls.last();
        assert(w.urls.last() == w.urls[v.urls.len() - 1]);
        if urls_weak(v) {
            assert(url_wf0(u));
            assert forall|i: int| 0 <= i < u2.lines.len() implies (#[trigger] u2.lines[i]).end.col.0
                < u2.num_cols.0 by {
                if u.lines.len() > 0 && u.lines.last().color == color {
                    if i < u.lines.len() - 1 {
                        assert(u2.lines[i] == u.lines[i]);
                    }
                } else {
                    if i < u.lines.len() {
                        assert(u2.lines[i] == u.lines[i]);
                    }
                }
            }
        }
        if urls_wf_all(v) {
            assert(url_wf(u));
            assert forall|i: int| 0 <= i < u2.lines.len() implies (#[trigger] u2.lines[i]).end.col.0
                < u2.num_cols.0 by {
                if u.lines.len() > 0 && u.lines.last().color == color {
                    if i < u.lines.len() - 1 {
                        assert(u2.lines[i] == u.lines[i]);
                    }
                } else {
                    if i < u.lines.len() {
                        assert(u2.lines[i] == u.lines[i]);
                    }
                }
            }
        }
    }
}

proof fn lemma_flush_props(v: UrlsV, cells: Seq<CellV>, eo: u16, num_cols: Column)
    requires
        compat(v, num_cols),
        urls_weak(v),
        forall|i: int| 0 <= i < cells.len() ==> (#[trigger] cells[i]).column.0 < num_cols.0,
    ensures
        compat(v_flush(v, cells, eo), num_cols),
        urls_weak(v_flush(v, cells, eo)),
        v_flush(v, cells, eo).urls.len() == v.urls.len(),
        v.urls.len() > 0 && (v.urls.last().lines.len() >= 1 || cells.len() >= 1) ==> url_wf(
            v_flush(v, cells, eo).urls.last(),
        ),
        v_flush(v, cells, eo).fed == v.fed,
        v_flush(v, cells, eo).state == v.state,
        v_flush(v, cells, eo).scheme_buffer == v.scheme_buffer,
        v_flush(v, cells, eo).last_point == v.last_point,
    decreases cells.len(),
{
    if cells.len() > 0 {
        let c = cells.first();
        let p = Point { line: c.line, col: c.column };
        lemma_extend_props(v, p, p, c.fg, eo, num_cols);
        let v2 = v_extend(v, p, p, c.fg, eo);
        assert(forall|i: int|
            0 <= i < cells.drop_first().len() ==> (#[trigger] cells.drop_first()[i]).column.0
                < num_cols.0);
        lemma_flush_props(v2, cells.drop_first(), eo, num_cols);
        if v.urls.len() > 0 {
            assert(url_wf(v2.urls.last()));
            assert(urls_weak(v2) && v2.urls.last().lines.len() >= 1);
        }
    }
}

/// The scanner: the recognizer, the URLs detected so far, the buffer of
/// possible scheme cells, and the last processed position. Owned by whatever
/// drives one scanning pass, and fresh at the start of each pass.
pub struct Urls {
    locator: Locator,
    urls: Vec<Url>,
    scheme_buffer: Vec<RenderableCell>,
    last_point: Option<Point>,
    state: LocationState,
    fed_count: usize,
    open_count: usize,
}

impl View for Urls {
    type V = UrlsV;

    closed spec fn view(&self) -> UrlsV {
        UrlsV {
            fed: self.locator.fed(),
            state: self.state,
            urls: self.urls@.map_values(|u: Url| u@),
            scheme_buffer: self.scheme_buffer@.map_values(
                |c: RenderableCell| CellV { line: c.line, column: c.column, fg: c.fg },
            ),
            last_point: self.last_point,
        }
    }
}

impl Urls {
    /// The counters the scanner keeps beside the recognizer agree with the
    /// characters fed to it.
    closed spec fn counters_ok(&self) -> bool {
        self.fed_count == self.locator.fed().len() && self.open_count == count_opens(
            self.locator.fed(),
        )
    }

    /// A scanner fit for use: counters in step with the recognizer, and every
    /// detected URL well-formed.
    pub closed spec fn wf(&self) -> bool {
        self.counters_ok() && urls_wf_all(self@)
    }

    /// Build a fresh scanner.
    pub fn new() -> (r: Urls)
        ensures
            r.wf(),
            r@ == init_v(),
    {
        Urls::default()
    }

    /// The URLs detected so far, in detection order.
    pub fn urls(&self) -> (r: &Vec<Url>)
        ensures
            r@.map_values(|u: Url| u@) == self@.urls,
    {
        &self.urls
    }

    /// Drop the recognizer's progress and the scheme buffer; detected URLs
    /// and the last position stay.
    fn reset(&mut self)
        ensures
            final(self)@ == v_reset(old(self)@),
            final(self).counters_ok(),
            old(self).wf() ==> final(self).wf(),
            final(self).urls == old(self).urls,
    {
        self.locator = Locator::new();
        self.state = LocationState::Reset;
        self.scheme_buffer.clear();
        self.fed_count = 0;
        self.open_count = 0;
        proof {
            assert(self.scheme_buffer@.map_values(
                |c: RenderableCell| CellV { line: c.line, column: c.column, fg: c.fg },
            ) =~= Seq::<CellV>::empty());
            assert(self@ =~= v_reset(old(self)@));
        }
    }

    /// Extend the newest URL by one cell, as `v_extend` describes.
    fn extend_url(&mut self, start: Point, end: Point, color: Rgb, end_offset: u16)
        ensures
            final(self)@ == v_extend(old(self)@, start, end, color, end_offset),
            final(self).counters_ok() == old(self).counters_ok(),
            final(self).fed_count == old(self).fed_count,
            final(self).open_count == old(self).open_count,
    {
        let ghost pre = self@;
        if self.urls.len() == 0 {
            return;
        }
        let n = self.urls.len();
        let mut url = self.urls.pop().unwrap();
        let ghost uv = url@;
        proof {
            assert(pre.urls.len() == n);
            assert(pre.urls.last() == uv);
        }
        let llen = url.lines.len();
        if llen > 0 && url.lines[llen - 1].color == color {
            let last = url.lines[llen - 1];
            let _dropped = url.lines.pop();
            url.lines.push(RenderLine { start: last.start, end, color: last.color });
            proof {
                assert(url.lines@ =~= uv.lines.update(
                    uv.lines.len() - 1,
                    RenderLine {
                        start: uv.lines.last().start,
                        end,
                        color: uv.lines.last().color,
                    },
                ));
            }
        } else {
            url.lines.push(RenderLine { start, end, color });
        }
        url.end_offset = end_offset;
        self.urls.push(url);
        proof {
            let w = v_extend(pre, start, end, color, end_offset);
            assert(self@.urls =~~= w.urls);
            assert(self@ =~~= w);
        }
    }
}

impl Urls {
    /// Consume one run in screen order: re-expand a character run into its
    /// cells, feed each into the recognizer, and extend, open or abandon URL
    /// records as `v_update` describes; cursor runs are ignored.
    #[verifier::rlimit(100)]
    pub fn update(&mut self, num_cols: Column, text_run: &TextRun)
        requires
            old(self).wf(),
            compat(old(self)@, num_cols),
            num_cols.0 >= 1,
            run_chars(*text_run).len() > 0 ==> text_run.span.0.0 + run_step(*text_run) * (
            run_chars(*text_run).len() - 1) < num_cols.0,
        ensures
            final(self).wf(),
            compat(final(self)@, num_cols),
            final(self)@ == v_update(old(self)@, num_cols, *text_run),
    {
        let ghost v_start = old(self)@;
        let spacer = text_run.flags.intersects(WIDE_CHAR_SPACER | LEADING_WIDE_CHAR_SPACER);
        let wrapline = text_run.flags.contains(WRAPLINE);
        let step: usize = if text_run.flags.contains(WIDE_CHAR) {
            2
        } else {
            1
        };
        if let TextRunContent::CharRun(chars, _zw) = &text_run.content {
            let n = chars.len();
            let mut i: usize = 0;
            while i < n
                invariant
                    self.wf(),
                    compat(self@, num_cols),
                    num_cols.0 >= 1,
                    i <= n,
                    n == run_chars(*text_run).len(),
                    chars@ == run_chars(*text_run),
                    step as int == run_step(*text_run),
                    spacer == run_spacer(*text_run),
                    wrapline == run_wrapline(*text_run),
                    n > 0 ==> text_run.span.0.0 + step * (n - 1) < num_cols.0,
                    v_run_cells(self@, num_cols, *text_run, i as int) == v_run_cells(
                        v_start,
                        num_cols,
                        *text_run,
                        0,
                    ),
                decreases n - i,
            {
                let ghost v0 = self@;
                let ghost ii = i as int;
                proof {
                    assert(step * ii <= step * (n - 1)) by (nonlinear_arith)
                        requires
                            0 <= ii <= n - 1,
                            step >= 0,
                    ;
                }
                let c = chars[i];
                let col = text_run.span.0.0 + step * i;
                let point = Point { line: text_run.line, col: Column(col) };
                let ghost cellv = run_cell(*text_run, ii);
                proof {
                    assert(cellv == (CellV {
                        line: text_run.line,
                        column: Column(col),
                        fg: text_run.fg,
                    }));
                }
                let at_origin = point.line.0 == 0 && point.col.0 == 0;
                let mut discont = false;
                if !at_origin {
                    let prev = point.sub(num_cols, 1);
                    discont = match self.last_point {
                        Some(lp) => prev != lp,
                        None => true,
                    };
                }
                proof {
                    assert(discont == (point != (Point { line: Line(0), col: Column(0) }) && Some(
                        point.spec_back(num_cols, 1),
                    ) != v0.last_point));
                }
                if discont {
                    self.reset();
                }
                let ghost v1 = self@;
                proof {
                    assert(v1 == if discont {
                        v_reset(v0)
                    } else {
                        v0
                    });
                }
                self.last_point = Some(point);
                let ghost v2 = self@;
                proof {
                    assert(v2 =~~= (UrlsV { last_point: Some(point), ..v1 }));
                }
                if spacer {
                    if let LocationState::Url(_l, eo) = self.state {
                        let new_eo = if eo != 0 && eo < 65535 {
                            eo + 1
                        } else {
                            eo
                        };
                        proof {
                            assert(new_eo == spacer_eo(eo));
                            lemma_extend_props(v2, point, point, cellv.fg, spacer_eo(eo), num_cols);
                        }
                        self.extend_url(point, point, text_run.fg, new_eo);
                    }
                } else {
                    let open_inc: usize = if c == '(' || c == '[' {
                        1
                    } else {
                        0
                    };
                    proof {
                        assert(open_inc as int == open_add(c));
                        lemma_count_opens_le_len(self.locator.fed());
                    }
                    if self.fed_count >= 65535 || self.open_count + open_inc >= 255 {
                        self.reset();
                    }
                    let ghost v3 = self@;
                    proof {
                        assert(v3 == if v2.fed.len() >= 65535 || count_opens(v2.fed) + open_add(c)
                            >= 255 {
                            v_reset(v2)
                        } else {
                            v2
                        });
                        lemma_count_opens_push(self.locator.fed(), c);
                    }
                    let st = self.locator.advance(c);
                    self.fed_count = self.fed_count + 1;
                    self.open_count = self.open_count + open_inc;
                    let last_state = self.state;
                    self.state = st;
                    let ghost v4 = self@;
                    proof {
                        assert(v4 =~~= (UrlsV { fed: v3.fed.push(c), state: st, ..v3 }));
                        assert(st == locate(v3.fed.push(c)));
                        assert(self.counters_ok());
                        assert(urls_wf_all(v4) && compat(v4, num_cols));
                    }
                    match (st, last_state) {
                        (LocationState::Url(_l, eo), LocationState::Scheme) => {
                            self.urls.push(Url { lines: Vec::new(), end_offset: eo, num_cols });
                            let buf = self.scheme_buffer.split_off(0);
                            let ghost bufv = buf@.map_values(
                                |cl: RenderableCell| CellV {
                                    line: cl.line,
                                    column: cl.column,
                                    fg: cl.fg,
                                },
                            );
                            let ghost pushed = self@;
                            proof {
                                assert(bufv == v4.scheme_buffer);
                                assert(pushed =~~= (UrlsV {
                                    urls: v4.urls.push(
                                        UrlV {
                                            lines: Seq::empty(),
                                            end_offset: eo,
                                            num_cols,
                                        },
                                    ),
                                    scheme_buffer: Seq::empty(),
                                    ..v4
                                }));
                                assert(urls_weak(pushed));
                                assert(compat(pushed, num_cols));
                                assert(bufv.skip(0) =~= bufv);
                            }
                            let m = buf.len();
                            let mut k: usize = 0;
                            while k < m
                                invariant
                                    m == buf@.len(),
                                    k <= m,
                                    num_cols.0 >= 1,
                                    bufv == buf@.map_values(
                                        |cl: RenderableCell| CellV {
                                            line: cl.line,
                                            column: cl.column,
                                            fg: cl.fg,
                                        },
                                    ),
                                    forall|j: int|
                                        0 <= j < bufv.len() ==> (#[trigger] bufv[j]).column.0
                                            < num_cols.0,
                                    self.counters_ok(),
                                    compat(self@, num_cols),
                                    urls_weak(self@),
                                    self@.urls.len() == pushed.urls.len(),
                                    v_flush(self@, bufv.skip(k as int), eo) == v_flush(
                                        pushed,
                                        bufv,
                                        eo,
                                    ),
                                decreases m - k,
                            {
                                let p = Point { line: buf[k].line, col: buf[k].column };
                                let fg = buf[k].fg;
                                proof {
                                    assert(bufv[k as int] == (CellV {
                                        line: buf@[k as int].line,
                                        column: buf@[k as int].column,
                                        fg: buf@[k as int].fg,
                                    }));
                                    assert(bufv.skip(k as int).first() == bufv[k as int]);
                                    assert(bufv.skip(k as int).drop_first() =~= bufv.skip(
                                        k as int + 1,
                                    ));
                                    lemma_extend_props(self@, p, p, fg, eo, num_cols);
                                }
                                self.extend_url(p, p, fg, eo);
                                k += 1;
                            }
                            proof {
                                assert(bufv.skip(m as int) =~= Seq::<CellV>::empty());
                                assert(self@ == v_flush(pushed, bufv, eo));
                                lemma_flush_props(pushed, bufv, eo, num_cols);
                                lemma_extend_props(
                                    v_flush(pushed, bufv, eo),
                                    point,
                                    point,
                                    cellv.fg,
                                    eo,
                                    num_cols,
                                );
                            }
                            self.extend_url(point, point, text_run.fg, eo);
                            proof {
                                assert(urls_wf_all(self@));
                            }
                        },
                        (LocationState::Url(_l, eo), LocationState::Url(_l2, _e2)) => {
                            proof {
                                lemma_extend_props(v4, point, point, cellv.fg, eo, num_cols);
                            }
                            self.extend_url(point, point, text_run.fg, eo);
                        },
                        (LocationState::Scheme, _) => {
                            let dummy = text_run.dummy_cell_at(Column(col));
                            self.scheme_buffer.push(dummy);
                            proof {
                                assert(self@ =~~= (UrlsV {
                                    scheme_buffer: v4.scheme_buffer.push(cellv),
                                    ..v4
                                }));
                            }
                        },
                        (LocationState::Reset, _) => {
                            self.reset();
                        },
                        _ => {},
                    }
                    if point.col.0 == num_cols.0 - 1 && !wrapline {
                        self.reset();
                    }
                }
                proof {
                    assert(self@ =~~= v_cell(v0, num_cols, *text_run, ii));
                    assert(v_run_cells(self@, num_cols, *text_run, ii + 1) == v_run_cells(
                        v_start,
                        num_cols,
                        *text_run,
                        0,
                    ));
                }
                i += 1;
            }
        }
    }
}

/// Whether a point lies in a URL's inclusive clickable range, in reading
/// order.
pub open spec fn contains_point(u: UrlV, p: Point) -> bool {
    point_le(url_start(u), p) && point_le(p, url_end(u))
}

/// The first URL, in detection order, whose clickable range holds the point.
pub open spec fn spec_find_at(urls: Seq<UrlV>, p: Point) -> Option<UrlV>
    decreases urls.len(),
{
    if urls.len() == 0 {
        None
    } else if contains_point(urls.first(), p) {
        Some(urls.first())
    } else {
        spec_find_at(urls.drop_first(), p)
    }
}

/// A set of keyboard modifiers.
#[derive(Clone, Copy, Debug, PartialEq, Eq, Structural)]
pub struct Mods {
    pub shift: bool,
    pub ctrl: bool,
    pub alt: bool,
    pub logo: bool,
}

/// What the scanner reads of the pointer: its grid cell, whether it is over
/// the text area, and whether its primary button is held.
#[derive(Clone, Copy, Debug, PartialEq, Eq, Structural)]
pub struct MouseState {
    pub line: Line,
    pub column: Column,
    pub inside_text_area: bool,
    pub left_button_pressed: bool,
}

/// The modifiers a hover must show: the configured set, with shift added
/// while the application claims the mouse, so hovers do not collide with its
/// own mouse handling.
pub open spec fn spec_required_mods(url_mods: Mods, mouse_mode: bool) -> Mods {
    Mods { shift: url_mods.shift || mouse_mode, ..url_mods }
}

/// The URL to highlight under the pointer: none while a selection is active,
/// the pointer is off the text area, no launch action is configured, the
/// held modifiers differ from the required set, or a drag is in progress;
/// otherwise the first URL under the pointer's cell.
pub open spec fn spec_highlighted(
    urls: Seq<UrlV>,
    launcher: bool,
    url_mods: Mods,
    mouse: MouseState,
    mods: Mods,
    mouse_mode: bool,
    selection: bool,
) -> Option<UrlV> {
    if selection || !mouse.inside_text_area || !launcher || spec_required_mods(url_mods, mouse_mode)
        != mods || mouse.left_button_pressed {
        None
    } else {
        spec_find_at(urls, Point { line: mouse.line, col: mouse.column })
    }
}

impl Urls {
    /// Find the first URL, in detection order, whose clickable range holds
    /// the point.
    pub fn find_at(&self, point: Point) -> (r: Option<Url>)
        requires
            self.wf(),
        ensures
            match r {
                Some(u) => spec_find_at(self@.urls, point) == Some(u@),
                None => spec_find_at(self@.urls, point) is None,
            },
    {
        let n = self.urls.len();
        let mut i: usize = 0;
        proof {
            assert(self@.urls.skip(0) =~= self@.urls);
        }
        while i < n
            invariant
                self.wf(),
                i <= n,
                n == self.urls@.len(),
                spec_find_at(self@.urls.skip(i as int), point) == spec_find_at(self@.urls, point),
            decreases n - i,
        {
            let url = &self.urls[i];
            proof {
                assert(self@.urls[i as int] == url@);
                assert(url_wf(url@));
                assert(self@.urls.skip(i as int).first() == self@.urls[i as int]);
                assert(self@.urls.skip(i as int).drop_first() =~= self@.urls.skip(i as int + 1));
            }
            let s = url.start();
            let e = url.end();
            if point_le_ex(s, point) && point_le_ex(point, e) {
                return Some(url.duplicate());
            }
            i += 1;
        }
        proof {
            assert(self@.urls.skip(n as int) =~= Seq::<UrlV>::empty());
        }
        None
    }

    /// The URL under the pointer, if every prerequisite for highlighting is
    /// met; in particular, none while a selection is active.
    pub fn highlighted(
        &self,
        launcher: bool,
        url_mods: Mods,
        mouse: &MouseState,
        mods: Mods,
        mouse_mode: bool,
        selection: bool,
    ) -> (r: Option<Url>)
        requires
            self.wf(),
        ensures
            match r {
                Some(u) => spec_highlighted(
                    self@.urls,
                    launcher,
                    url_mods,
                    *mouse,
                    mods,
                    mouse_mode,
                    selection,
                ) == Some(u@),
                None => spec_highlighted(
                    self@.urls,
                    launcher,
                    url_mods,
                    *mouse,
                    mods,
                    mouse_mode,
                    selection,
                ) is None,
            },
            selection ==> r is None,
    {
        let required = Mods {
            shift: url_mods.shift || mouse_mode,
            ctrl: url_mods.ctrl,
            alt: url_mods.alt,
            logo: url_mods.logo,
        };
        if selection || !mouse.inside_text_area || !launcher || !(required == mods)
            || mouse.left_button_pressed {
            return None;
        }
        self.find_at(Point { line: mouse.line, col: mouse.column })
    }
}

/// The scanner after a whole sequence of runs, fed in order.
pub open spec fn v_scan(v: UrlsV, num_cols: Column, runs: Seq<TextRun>) -> UrlsV
    decreases runs.len(),
{
    if runs.len() == 0 {
        v
    } else {
        v_scan(v_update(v, num_cols, runs.first()), num_cols, runs.drop_first())
    }
}

/// Replaying one ordered run sequence through a freshly reset scanner twice
/// yields identical URL sets: the outcome is a function of the runs alone.
pub proof fn lemma_scan_deterministic(a: UrlsV, b: UrlsV, num_cols: Column, runs: Seq<TextRun>)
    requires
        a == init_v(),
        b == init_v(),
    ensures
        v_scan(a, num_cols, runs).urls == v_scan(b, num_cols, runs).urls,
{
}

proof fn lemma_run_cells_tail_reset(v: UrlsV, num_cols: Column, run: TextRun, i: int)
    requires
        num_cols.0 >= 1,
        !run_spacer(run),
        !run_wrapline(run),
        0 <= i < run_chars(run).len(),
        run.span.0.0 + run_step(run) * (run_chars(run).len() - 1) == num_cols.0 - 1,
    ensures
        v_run_cells(v, num_cols, run, i).fed == Seq::<char>::empty(),
        v_run_cells(v, num_cols, run, i).state == LocationState::Reset,
        v_run_cells(v, num_cols, run, i).scheme_buffer == Seq::<CellV>::empty(),
    decreases run_chars(run).len() - i,
{
    let n = run_chars(run).len();
    if i == n - 1 {
        let w = v_cell(v, num_cols, run, i);
        assert(run_cell(run, i).column.0 == num_cols.0 - 1);
        assert(w.fed == Seq::<char>::empty());
        assert(w.state == LocationState::Reset);
        assert(w.scheme_buffer == Seq::<CellV>::empty());
        assert(v_run_cells(w, num_cols, run, i + 1) == w);
    } else {
        lemma_run_cells_tail_reset(v_cell(v, num_cols, run, i), num_cols, run, i + 1);
    }
}

/// A character run that ends at the line's last column on a line that does
/// not soft-wrap leaves the scanner reset, whatever the recognizer's state:
/// its history and report are cleared and the scheme buffer is discarded, so
/// no open URL can continue past the hard line break.
pub proof fn lemma_hard_break_resets(v: UrlsV, num_cols: Column, run: TextRun)
    requires
        num_cols.0 >= 1,
        !run_spacer(run),
        !run_wrapline(run),
        run_chars(run).len() > 0,
        run.span.0.0 + run_step(run) * (run_chars(run).len() - 1) == num_cols.0 - 1,
    ensures
        v_update(v, num_cols, run).fed == Seq::<char>::empty(),
        v_update(v, num_cols, run).state == LocationState::Reset,
        v_update(v, num_cols, run).scheme_buffer == Seq::<CellV>::empty(),
{
    lemma_run_cells_tail_reset(v, num_cols, run, 0);
}

impl Default for Urls {
    /// A fresh scanner with nothing fed and nothing detected.
    fn default() -> (r: Urls)
        ensures
            r.wf(),
            r@ == init_v(),
    {
        let r = Urls {
            locator: Locator::new(),
            scheme_buffer: Vec::new(),
            urls: Vec::new(),
            state: LocationState::Reset,
            last_point: None,
            fed_count: 0,
            open_count: 0,
        };
        proof {
            assert(r@ =~= init_v());
        }
        r
    }
}

} // verus!
