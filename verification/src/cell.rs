//! Cell-level data: colors, style flags, cursor descriptions, and the
//! renderable cell that carries a cell's position and colors to the drawer.

use vstd::prelude::*;
use crate::index::{Column, Line};

verus! {

/// Greatest number of zero-width characters stored beside a cell's character.
pub const MAX_ZEROWIDTH_CHARS: usize = 5;

/// A color already resolved to its red, green and blue parts.
#[derive(Clone, Copy, Debug, PartialEq, Eq, Structural)]
pub struct Rgb {
    pub r: u8,
    pub g: u8,
    pub b: u8,
}

/// A cell color as the grid stores it, before palette resolution.
#[derive(Clone, Copy, Debug, PartialEq, Eq, Structural)]
pub enum Color {
    /// One of the terminal's named palette entries, by its index.
    Named(u16),
    /// A color given directly.
    Spec(Rgb),
    /// An entry of the 256-color table.
    Indexed(u8),
}

/// Cell attribute: inverted colors.
pub const INVERSE: u16 = 0x0001;
/// Cell attribute: bold text.
pub const BOLD: u16 = 0x0002;
/// Cell attribute: italic text.
pub const ITALIC: u16 = 0x0004;
/// Cell attribute: underlined text.
pub const UNDERLINE: u16 = 0x0008;
/// Cell attribute: the line soft-wraps into the next one.
pub const WRAPLINE: u16 = 0x0010;
/// Cell attribute: first half of a double-width character.
pub const WIDE_CHAR: u16 = 0x0020;
/// Cell attribute: spacer cell behind a double-width character.
pub const WIDE_CHAR_SPACER: u16 = 0x0040;
/// Cell attribute: dim text.
pub const DIM: u16 = 0x0080;
/// Cell attribute: concealed text.
pub const HIDDEN: u16 = 0x0100;
/// Cell attribute: struck-out text.
pub const STRIKEOUT: u16 = 0x0200;
/// Cell attribute: doubly underlined text.
pub const DOUBLE_UNDERLINE: u16 = 0x0400;
/// Cell attribute: spacer cell in front of a wrapped double-width character.
pub const LEADING_WIDE_CHAR_SPACER: u16 = 0x0800;

/// A set of cell attributes, one bit per attribute.
#[derive(Clone, Copy, Debug, PartialEq, Eq, Structural)]
pub struct Flags {
    pub bits: u16,
}

impl Flags {
    /// The empty attribute set.
    pub fn empty() -> (r: Flags)
        ensures
            r == (Flags { bits: 0 }),
    {
        Flags { bits: 0 }
    }

    /// Whether every attribute of `mask` is set.
    pub open spec fn spec_contains(self, mask: u16) -> bool {
        self.bits & mask == mask
    }

    /// Whether some attribute of `mask` is set.
    pub open spec fn spec_intersects(self, mask: u16) -> bool {
        self.bits & mask != 0
    }

    /// Test that every attribute of `mask` is set.
    pub fn contains(self, mask: u16) -> (r: bool)
        ensures
            r == self.spec_contains(mask),
    {
        self.bits & mask == mask
    }

    /// Test that some attribute of `mask` is set.
    pub fn intersects(self, mask: u16) -> (r: bool)
        ensures
            r == self.spec_intersects(mask),
    {
        self.bits & mask != 0
    }
}

/// Interface-level cell state that is not part of the cell itself.
#[derive(Clone, Copy, Debug, PartialEq, Eq, Structural)]
pub struct UIFlags {
    pub bits: u8,
}

/// Interface state: the cell lies in the selection.
pub const UI_SELECTED: u8 = 0x01;
/// Interface state: the cell lies in a search match.
pub const UI_SEARCH_MATCHED: u8 = 0x02;
/// Interface state: the cell lies in a block cursor.
pub const UI_BLOCK: u8 = 0x04;
/// Interface state: the cell holds the cursor.
pub const UI_CURSOR: u8 = 0x08;

/// Shape of the cursor glyph.
#[derive(Clone, Copy, Debug, PartialEq, Eq, Structural)]
pub enum CursorStyle {
    Block,
    Underline,
    Beam,
    HollowBlock,
    Hidden,
}

/// What is needed to pick a cursor glyph: its shape and its width.
#[derive(Clone, Copy, Debug, PartialEq, Eq, Structural)]
pub struct CursorKey {
    pub style: CursorStyle,
    pub is_wide: bool,
}

/// One cell of the grid as the terminal stores it.
#[derive(Clone, Debug)]
pub struct Cell {
    pub c: char,
    pub fg: Color,
    pub bg: Color,
    pub flags: Flags,
}

/// A cell together with the grid position it was read from.
#[derive(Clone, Debug)]
pub struct Indexed {
    pub line: Line,
    pub column: Column,
    pub cell: Cell,
}

/// Content of a renderable cell: a cursor glyph or the cell's characters.
#[derive(Clone, Debug)]
pub enum RenderableCellContent {
    Cursor(CursorKey),
    Chars(Vec<char>),
}

/// A cell with resolved colors, ready for the draw layer.
///
/// The background opacity is carried as the raw bit pattern of the renderer's
/// opacity value; this layer only copies and compares it.
#[derive(Clone, Debug)]
pub struct RenderableCell {
    pub line: Line,
    pub column: Column,
    pub inner: RenderableCellContent,
    pub fg: Rgb,
    pub bg: Rgb,
    pub bg_alpha: u32,
    pub flags: Flags,
}

/// Mathematical image of a renderable cell's content.
pub enum CellContentV {
    Cursor(CursorKey),
    Chars(Seq<char>),
}

impl View for RenderableCellContent {
    type V = CellContentV;

    open spec fn view(&self) -> CellContentV {
        match self {
            RenderableCellContent::Cursor(k) => CellContentV::Cursor(*k),
            RenderableCellContent::Chars(v) => CellContentV::Chars(v@),
        }
    }
}

/// Mathematical image of a renderable cell.
pub struct CellDataV {
    pub line: Line,
    pub column: Column,
    pub inner: CellContentV,
    pub fg: Rgb,
    pub bg: Rgb,
    pub bg_alpha: u32,
    pub flags: Flags,
}

impl View for RenderableCell {
    type V = CellDataV;

    open spec fn view(&self) -> CellDataV {
        CellDataV {
            line: self.line,
            column: self.column,
            inner: self.inner@,
            fg: self.fg,
            bg: self.bg,
            bg_alpha: self.bg_alpha,
            flags: self.flags,
        }
    }
}

/// Copy one character vector.
pub fn clone_chars(v: &Vec<char>) -> (r: Vec<char>)
    ensures
        r@ == v@,
{
    let mut out: Vec<char> = Vec::new();
    let n = v.len();
    let mut i: usize = 0;
    while i < n
        invariant
            n == v@.len(),
            i <= n,
            out@.len() == i,
            forall|j: int| 0 <= j < i ==> out@[j] == v@[j],
        decreases n - i,
    {
        out.push(v[i]);
        i += 1;
    }
    proof {
        assert(out@ =~= v@);
    }
    out
}

/// Copy a renderable cell's content.
pub fn clone_content(c: &RenderableCellContent) -> (r: RenderableCellContent)
    ensures
        r@ == c@,
{
    match c {
        RenderableCellContent::Cursor(k) => RenderableCellContent::Cursor(*k),
        RenderableCellContent::Chars(v) => RenderableCellContent::Chars(clone_chars(v)),
    }
}

/// Copy a renderable cell.
pub fn clone_cell(c: &RenderableCell) -> (r: RenderableCell)
    ensures
        r@ == c@,
{
    RenderableCell {
        line: c.line,
        column: c.column,
        inner: clone_content(&c.inner),
        fg: c.fg,
        bg: c.bg,
        bg_alpha: c.bg_alpha,
        flags: c.flags,
    }
}

/// A shaped glyph's placement in the glyph atlas.
///
/// The texture identifier and coordinates come from the rasterizer; the
/// coordinates are carried as raw bit patterns and never interpreted here.
#[derive(Clone, Copy, Debug)]
pub struct Glyph {
    pub tex_id: u32,
    pub multicolor: u8,
    pub top: i16,
    pub left: i16,
    pub width: i16,
    pub height: i16,
    pub uv_bot: u32,
    pub uv_left: u32,
    pub uv_width: u32,
    pub uv_height: u32,
}

} // verus!
