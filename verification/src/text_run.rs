//! Text runs: contiguous single-line spans of cells that share rendering
//! attributes, with structural and shaping-cache equality and the in-place
//! update path for cached shaped data.

use vstd::prelude::*;
use crate::cell::{
    CellContentV,
    clone_content, CellDataV, Color, CursorKey, Flags, Glyph, Indexed, RenderableCell,
    RenderableCellContent, Rgb, UIFlags, MAX_ZEROWIDTH_CHARS,
};
use crate::index::{Column, Line, Point};

verus! {

/// The style signature a run was opened with; later cells join the run only
/// while they match it exactly.
#[derive(Clone, Debug)]
pub struct RunStart {
    pub line: Line,
    pub column: Column,
    pub fg: Color,
    pub bg: Color,
    pub uiflags: UIFlags,
    pub flags: Flags,
}

impl RunStart {
    /// A cell continues the run exactly when line, foreground, background,
    /// style flags and interface flags all match the signature; the column is
    /// deliberately left out, since runs grow across columns.
    pub fn belongs_to_text_run(&self, cell: &Indexed, uiflags: UIFlags) -> (r: bool)
        ensures
            r == (self.line == cell.line && self.fg == cell.cell.fg && self.bg == cell.cell.bg
                && self.flags == cell.cell.flags && self.uiflags == uiflags),
    {
        self.line == cell.line && self.fg == cell.cell.fg && self.bg == cell.cell.bg
            && self.flags == cell.cell.flags && self.uiflags == uiflags
    }
}

/// Content of a run: a cursor glyph, or the run's characters together with
/// the zero-width characters aligned to each cell.
#[derive(Clone, Debug)]
pub enum TextRunContent {
    Cursor(CursorKey),
    CharRun(Vec<char>, Vec<Vec<char>>),
}

/// Whether two run contents hold the same characters.
pub open spec fn content_matches(a: TextRunContent, b: TextRunContent) -> bool {
    match (a, b) {
        (TextRunContent::Cursor(x), TextRunContent::Cursor(y)) => x == y,
        (TextRunContent::CharRun(s1, z1), TextRunContent::CharRun(s2, z2)) => s1@ == s2@
            && z1@.map_values(|v: Vec<char>| v@) == z2@.map_values(|v: Vec<char>| v@),
        _ => false,
    }
}

/// Compare two character vectors.
fn chars_eq(a: &Vec<char>, b: &Vec<char>) -> (r: bool)
    ensures
        r == (a@ == b@),
{
    if a.len() != b.len() {
        return false;
    }
    let n = a.len();
    let mut i: usize = 0;
    while i < n
        invariant
            n == a@.len() == b@.len(),
            i <= n,
            forall|j: int| 0 <= j < i ==> a@[j] == b@[j],
        decreases n - i,
    {
        if a[i] != b[i] {
            return false;
        }
        i += 1;
    }
    proof {
        assert(a@ =~= b@);
    }
    true
}

/// Compare two aligned zero-width character tables.
fn zerowidth_eq(a: &Vec<Vec<char>>, b: &Vec<Vec<char>>) -> (r: bool)
    ensures
        r == (a@.map_values(|v: Vec<char>| v@) == b@.map_values(|v: Vec<char>| v@)),
{
    let ghost am = a@.map_values(|v: Vec<char>| v@);
    let ghost bm = b@.map_values(|v: Vec<char>| v@);
    if a.len() != b.len() {
        proof {
            assert(am.len() != bm.len());
        }
        return false;
    }
    let n = a.len();
    let mut i: usize = 0;
    while i < n
        invariant
            n == a@.len() == b@.len(),
            i <= n,
            am == a@.map_values(|v: Vec<char>| v@),
            bm == b@.map_values(|v: Vec<char>| v@),
            forall|j: int| 0 <= j < i ==> am[j] == bm[j],
        decreases n - i,
    {
        if !chars_eq(&a[i], &b[i]) {
            proof {
                assert(am[i as int] != bm[i as int]);
            }
            return false;
        }
        i += 1;
    }
    proof {
        assert(am =~= bm);
    }
    true
}

/// Decide whether two run contents hold the same characters.
pub fn content_eq(a: &TextRunContent, b: &TextRunContent) -> (r: bool)
    ensures
        r == content_matches(*a, *b),
{
    match (a, b) {
        (TextRunContent::Cursor(x), TextRunContent::Cursor(y)) => *x == *y,
        (TextRunContent::CharRun(s1, z1), TextRunContent::CharRun(s2, z2)) => chars_eq(s1, s2)
            && zerowidth_eq(z1, z2),
        _ => false,
    }
}

/// A contiguous span of cells on one line that share rendering attributes, so
/// that the whole span can be shaped together.
///
/// The background opacity is carried as the raw bit pattern of the renderer's
/// opacity value; this layer only copies and compares it.
#[derive(Debug)]
pub struct TextRun {
    /// A run never spans multiple lines.
    pub line: Line,
    /// Span of columns the run covers, both ends included.
    pub span: (Column, Column),
    /// Cursor glyph or sequence of characters.
    pub content: TextRunContent,
    /// Foreground color of the run.
    pub fg: Rgb,
    /// Background color of the run.
    pub bg: Rgb,
    /// Background opacity of the run, as a raw bit pattern.
    pub bg_alpha: u32,
    /// Attributes of the run.
    pub flags: Flags,
    /// Cached shaped (cell, glyph) pairs from an earlier frame, if any.
    pub data: Option<Vec<(RenderableCell, Glyph)>>,
}

/// Shaping-cache equivalence: equal span length, content and style flags;
/// line, column and colors are ignored.
pub open spec fn cache_equivalent(a: TextRun, b: TextRun) -> bool {
    a.span.1.0 - a.span.0.0 == b.span.1.0 - b.span.0.0 && content_matches(a.content, b.content)
        && a.flags == b.flags
}

/// The span is not reversed.
pub open spec fn wf_span(run: TextRun) -> bool {
    run.span.0.0 <= run.span.1.0
}

/// Cached cells lie inside the run's span.
pub open spec fn wf_data(run: TextRun) -> bool {
    match run.data {
        Some(d) => forall|i: int|
            0 <= i < d@.len() ==> run.span.0.0 <= (#[trigger] d@[i]).0.column.0 <= run.span.1.0,
        None => true,
    }
}

/// One cached cell after the patch-in-place update: position, colors and
/// opacity are retargeted from `from`'s to `to`'s wherever the two runs
/// differ; content and flags stay.
pub open spec fn patched_cell(c: CellDataV, from: TextRun, to: TextRun) -> CellDataV {
    CellDataV {
        line: if from.line != to.line {
            to.line
        } else {
            c.line
        },
        column: if from.span.0 != to.span.0 {
            Column((to.span.0.0 + (c.column.0 - from.span.0.0)) as usize)
        } else {
            c.column
        },
        fg: if from.fg != to.fg {
            to.fg
        } else {
            c.fg
        },
        bg: if from.bg != to.bg {
            to.bg
        } else {
            c.bg
        },
        bg_alpha: if from.bg_alpha != to.bg_alpha {
            to.bg_alpha
        } else {
            c.bg_alpha
        },
        inner: c.inner,
        flags: c.flags,
    }
}

impl TextRun {
    /// Build the single-cell run that stands for the cursor, from its already
    /// resolved colors.
    pub fn from_cursor_key(start: RunStart, cursor: CursorKey, fg: Rgb, bg: Rgb, bg_alpha: u32) -> (r:
        TextRun)
        ensures
            r.line == start.line,
            r.span == (start.column, start.column),
            r.content == TextRunContent::Cursor(cursor),
            r.fg == fg,
            r.bg == bg,
            r.bg_alpha == bg_alpha,
            r.flags == start.flags,
            r.data is None,
    {
        TextRun {
            line: start.line,
            span: (start.column, start.column),
            content: TextRunContent::Cursor(cursor),
            fg,
            bg,
            bg_alpha,
            flags: start.flags,
            data: None,
        }
    }

    /// Decide shaping-cache equivalence with another run.
    pub fn cache_eq(&self, other: &TextRun) -> (r: bool)
        requires
            wf_span(*self),
            wf_span(*other),
        ensures
            r == cache_equivalent(*self, *other),
    {
        self.span.1.0 - self.span.0.0 == other.span.1.0 - other.span.0.0
            && content_eq(&self.content, &other.content) && self.flags == other.flags
    }

    /// Take over another run's cached shaped data, patching each cached
    /// cell's line, column, colors and opacity in place instead of reshaping;
    /// glyph data is left untouched. Without cached data on `other`, nothing
    /// changes.
    pub fn update_from_data(&mut self, other: &TextRun)
        requires
            wf_span(*old(self)),
            wf_span(*other),
            wf_data(*other),
            cache_equivalent(*old(self), *other),
        ensures
            final(self).line == old(self).line,
            final(self).span == old(self).span,
            final(self).content == old(self).content,
            final(self).fg == old(self).fg,
            final(self).bg == old(self).bg,
            final(self).bg_alpha == old(self).bg_alpha,
            final(self).flags == old(self).flags,
            match other.data {
                Some(d) => match final(self).data {
                    Some(d2) => d2@.len() == d@.len() && forall|i: int|
                        0 <= i < d@.len()
                            ==> (#[trigger] d2@[i]).0@ == patched_cell(d@[i].0@, *other, *old(self))
                            && d2@[i].1 == d@[i].1,
                    None => false,
                },
                None => final(self).data == old(self).data,
            },
    {
        if let Some(data) = &other.data {
            let n = data.len();
            let mut out: Vec<(RenderableCell, Glyph)> = Vec::new();
            let mut i: usize = 0;
            while i < n
                invariant
                    n == data@.len(),
                    i <= n,
                    out@.len() == i,
                    wf_span(*self),
                    wf_span(*other),
                    other.data == Some(*data),
                    wf_data(*other),
                    cache_equivalent(*self, *other),
                    forall|j: int|
                        0 <= j < i ==> (#[trigger] out@[j]).0@ == patched_cell(
                            data@[j].0@,
                            *other,
                            *self,
                        ) && out@[j].1 == data@[j].1,
                decreases n - i,
            {
                let pair = &data[i];
                let cell = &pair.0;
                let new_cell = RenderableCell {
                    line: if other.line != self.line {
                        self.line
                    } else {
                        cell.line
                    },
                    column: if other.span.0 != self.span.0 {
                        Column(self.span.0.0 + (cell.column.0 - other.span.0.0))
                    } else {
                        cell.column
                    },
                    inner: clone_content(&cell.inner),
                    fg: if other.fg != self.fg {
                        self.fg
                    } else {
                        cell.fg
                    },
                    bg: if other.bg != self.bg {
                        self.bg
                    } else {
                        cell.bg
                    },
                    bg_alpha: if other.bg_alpha != self.bg_alpha {
                        self.bg_alpha
                    } else {
                        cell.bg_alpha
                    },
                    flags: cell.flags,
                };
                out.push((new_cell, pair.1));
                i += 1;
            }
            self.data = Some(out);
        }
    }

    /// A renderable cell with this run's position and colors at `col`,
    /// carrying blank content.
    pub(crate) fn dummy_cell_at(&self, col: Column) -> (r: RenderableCell)
        ensures
            r.line == self.line,
            r.column == col,
            r.fg == self.fg,
            r.bg == self.bg,
            r.bg_alpha == self.bg_alpha,
            r.flags == self.flags,
            r.inner@ == CellContentV::Chars(Seq::new((MAX_ZEROWIDTH_CHARS + 1) as nat, |i: int| ' ')),
    {
        let mut blank: Vec<char> = Vec::new();
        let mut i: usize = 0;
        while i < MAX_ZEROWIDTH_CHARS + 1
            invariant
                i <= MAX_ZEROWIDTH_CHARS + 1,
            blank@.len() == i,
            forall|j: int| 0 <= j < i ==> blank@[j] == ' ',
            decreases MAX_ZEROWIDTH_CHARS + 1 - i,
        {
            blank.push(' ');
            i += 1;
        }
        proof {
            assert(blank@ =~= Seq::new((MAX_ZEROWIDTH_CHARS + 1) as nat, |i: int| ' '));
        }
        RenderableCell {
            line: self.line,
            column: col,
            inner: RenderableCellContent::Chars(blank),
            fg: self.fg,
            bg: self.bg,
            bg_alpha: self.bg_alpha,
            flags: self.flags,
        }
    }

    /// The first cell of the run, as a renderable cell with blank content.
    pub fn start_cell(&self) -> (r: RenderableCell)
        ensures
            r.line == self.line,
            r.column == self.span.0,
            r.fg == self.fg,
            r.bg == self.bg,
            r.bg_alpha == self.bg_alpha,
            r.flags == self.flags,
    {
        self.dummy_cell_at(self.span.0)
    }

    /// First point covered by this run.
    pub fn start_point(&self) -> (r: Point)
        ensures
            r == (Point { line: self.line, col: self.span.0 }),
    {
        Point { line: self.line, col: self.span.0 }
    }

    /// Last point covered by this run.
    pub fn end_point(&self) -> (r: Point)
        ensures
            r == (Point { line: self.line, col: self.span.1 }),
    {
        Point { line: self.line, col: self.span.1 }
    }
}

/// Two runs with equal span length, content and style flags are
/// cache-equivalent, whatever their lines, columns and colors.
pub proof fn lemma_cache_equivalence_ignores_position(a: TextRun, b: TextRun)
    requires
        a.span.1.0 - a.span.0.0 == b.span.1.0 - b.span.0.0,
        content_matches(a.content, b.content),
        a.flags == b.flags,
    ensures
        cache_equivalent(a, b),
{
}

} // verus!

