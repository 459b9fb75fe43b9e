//! Drawing instructions for the screen.
use crate::graphics::Rect;
use crate::graphics::Style;
use vstd::prelude::*;

verus! {

/// A styled piece of text.
#[derive(Debug)]
pub struct Piece {
    pub text: String,
    pub style: Style,
}

/// One drawing instruction.
#[derive(Debug)]
pub enum DrawOp {
    /// Draw at most `width` columns of a text.
    Text { x: u16, y: u16, text: String, width: usize, style: Style },
    /// Draw pieces one behind the other from `x` on, up to the column `end`.
    Row { x: u16, y: u16, end: u16, pieces: Vec<Piece> },
    /// Apply a style to all cells of a rectangle.
    Restyle { area: Rect, style: Style },
    /// Draw spaces from `x` up to the column `end`.
    Blank { x: u16, y: u16, end: u16, style: Style },
    /// Put one symbol into a cell.
    Symbol { x: u16, y: u16, symbol: String, style: Style },
}

/// The texts and styles of pieces.
pub open spec fn piece_views(v: Seq<Piece>) -> Seq<(Seq<char>, Style)> {
    v.map_values(|p: Piece| (p.text@, p.style))
}

/// A drawing instruction, with its texts.
pub enum DrawView {
    Text(u16, u16, Seq<char>, usize, Style),
    Row(u16, u16, u16, Seq<(Seq<char>, Style)>),
    Restyle(Rect, Style),
    Blank(u16, u16, u16, Style),
    Symbol(u16, u16, Seq<char>, Style),
}

impl View for DrawOp {
    type V = DrawView;

    open spec fn view(&self) -> DrawView {
        match self {
            DrawOp::Text { x, y, text, width, style } => DrawView::Text(
                *x,
                *y,
                text@,
                *width,
                *style,
            ),
            DrawOp::Row { x, y, end, pieces } => DrawView::Row(*x, *y, *end, piece_views(pieces@)),
            DrawOp::Restyle { area, style } => DrawView::Restyle(*area, *style),
            DrawOp::Blank { x, y, end, style } => DrawView::Blank(*x, *y, *end, *style),
            DrawOp::Symbol { x, y, symbol, style } => DrawView::Symbol(*x, *y, symbol@, *style),
        }
    }
}

/// The views of a list of instructions.
pub open spec fn draw_views(v: Seq<DrawOp>) -> Seq<DrawView> {
    v.map_values(|d: DrawOp| d@)
}

/// Appends an instruction.
pub fn push_draw(out: &mut Vec<DrawOp>, op: DrawOp)
    ensures
        draw_views(final(out)@) == draw_views(old(out)@).push(op@),
{
    let ghost prev = out@;
    out.push(op);
    assert(draw_views(out@) =~= draw_views(prev).push(op@));
}

/// Appends a piece.
pub fn push_piece(out: &mut Vec<Piece>, text: String, style: Style)
    ensures
        piece_views(final(out)@) == piece_views(old(out)@).push((text@, style)),
{
    let ghost prev = out@;
    out.push(Piece { text, style });
    assert(piece_views(out@) =~= piece_views(prev).push((text@, style)));
}

} // verus!
