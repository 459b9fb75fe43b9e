//! Carrying drawing instructions out on a buffer of terminal cells.
use crate::draw::draw_views;
use crate::draw::piece_views;
use crate::draw::DrawOp;
use crate::draw::DrawView;
use crate::draw::Piece;
use crate::graphics::monus;
use crate::graphics::Rect;
use crate::graphics::Style;
use crate::surface::area_of;
use crate::surface::buffer_rect;
use crate::surface::draw_text;
use crate::surface::law_restyle_keeps_symbols;
use crate::surface::law_write_changes_one_cell;
use crate::surface::rect_holds;
use crate::surface::restyle_area;
use crate::surface::restyled;
use crate::surface::stringn_drawn;
use crate::surface::style_texts;
use crate::surface::styled;
use crate::surface::surface_area;
use crate::surface::surface_cells;
use crate::surface::write_cells;
use crate::surface::write_views;
use crate::surface::written;
use crate::surface::Cell;
use crate::surface::CellWrite;
use crate::surface::WriteView;
use vstd::prelude::*;
use vstd::string::*;

verus! {

/// The area of a buffer: column, row, width and height.
pub type AreaView = (u16, u16, u16, u16);

/// The cells of a buffer.
pub type Cells = Map<(int, int), Cell>;

/// The column behind the first `n` pieces of a row, and the cells.
pub open spec fn pieces_drawn(
    area: AreaView,
    cells: Cells,
    x: u16,
    y: u16,
    end: u16,
    pieces: Seq<(Seq<char>, Style)>,
    n: int,
) -> (u16, Cells)
    decreases n,
{
    if n <= 0 {
        (x, cells)
    } else {
        let (at, before) = pieces_drawn(area, cells, x, y, end, pieces, n - 1);
        stringn_drawn(
            area,
            before,
            at,
            y,
            pieces[n - 1].0,
            monus(end as int, at as int) as usize,
            style_texts(pieces[n - 1].1),
        )
    }
}

/// The cells after spaces were drawn to `n` columns.
pub open spec fn blanks_drawn(area: AreaView, cells: Cells, x: u16, y: u16, style: Style, n: int) -> Cells
    decreases n,
{
    if n <= 0 {
        cells
    } else {
        stringn_drawn(
            area,
            blanks_drawn(area, cells, x, y, style, n - 1),
            (x + n - 1) as u16,
            y,
            " "@,
            1,
            style_texts(style),
        ).1
    }
}

/// The rectangle of an area.
pub open spec fn rect_of(area: AreaView) -> Rect {
    Rect { x: area.0, y: area.1, width: area.2, height: area.3 }
}

/// The cells after an instruction was carried out.
pub open spec fn drawn(area: AreaView, cells: Cells, op: DrawView) -> Cells {
    match op {
        DrawView::Text(x, y, text, width, style) => stringn_drawn(
            area,
            cells,
            x,
            y,
            text,
            width,
            style_texts(style),
        ).1,
        DrawView::Row(x, y, end, pieces) => pieces_drawn(
            area,
            cells,
            x,
            y,
            end,
            pieces,
            pieces.len() as int,
        ).1,
        DrawView::Restyle(rect, style) => restyled(rect_of(area), cells, rect, style_texts(style)),
        DrawView::Blank(x, y, end, style) => blanks_drawn(area, cells, x, y, style, end - x),
        DrawView::Symbol(x, y, symbol, style) => written(
            rect_of(area),
            cells,
            WriteView::Glyph(x as int, y as int, symbol, style),
        ),
    }
}

/// The cells after the first `n` instructions.
pub open spec fn all_drawn(area: AreaView, cells: Cells, ops: Seq<DrawView>, n: int) -> Cells
    decreases n,
{
    if n <= 0 {
        cells
    } else {
        drawn(area, all_drawn(area, cells, ops, n - 1), ops[n - 1])
    }
}

/// Whether text can be drawn from a place on.
pub open spec fn starts_in(area: Rect, x: u16, y: u16) -> bool {
    area.x <= x && area.y <= y < area.spec_bottom()
}

/// Whether an instruction can be carried out in an area.
pub open spec fn draw_fits(area: Rect, op: DrawView) -> bool {
    match op {
        DrawView::Text(x, y, _, _, _) => starts_in(area, x, y),
        DrawView::Row(x, y, _, _) => starts_in(area, x, y),
        DrawView::Restyle(_, _) => true,
        DrawView::Blank(x, y, _, _) => starts_in(area, x, y),
        DrawView::Symbol(x, y, _, _) => area.holds(x as int, y as int),
    }
}

/// Whether all instructions can be carried out in an area.
pub open spec fn all_draws_fit(area: Rect, ops: Seq<DrawView>) -> bool {
    forall|i: int| 0 <= i < ops.len() ==> draw_fits(area, #[trigger] ops[i])
}

/// Whether all instructions can be carried out on a buffer.
pub fn draws_fit(b: &ratatui::buffer::Buffer, ops: &Vec<DrawOp>) -> (r: bool)
    ensures
        r == all_draws_fit(area_of(*b), draw_views(ops@)),
{
    let area = buffer_rect(b);
    let mut i: usize = 0;
    while i < ops.len()
        invariant
            i <= ops@.len(),
            area == area_of(*b),
            forall|k: int| 0 <= k < i ==> draw_fits(area, #[trigger] draw_views(ops@)[k]),
        decreases ops@.len() - i,
    {
        assert(draw_views(ops@)[i as int] == ops@[i as int]@);
        let fits = match &ops[i] {
            DrawOp::Text { x, y, .. } => area.x <= *x && area.y <= *y && *y < area.bottom(),
            DrawOp::Row { x, y, .. } => area.x <= *x && area.y <= *y && *y < area.bottom(),
            DrawOp::Restyle { .. } => true,
            DrawOp::Blank { x, y, .. } => area.x <= *x && area.y <= *y && *y < area.bottom(),
            DrawOp::Symbol { x, y, .. } => rect_holds(area, *x, *y),
        };
        if !fits {
            assert(!draw_fits(area, draw_views(ops@)[i as int]));
            return false;
        }
        i = i + 1;
    }
    true
}

fn draw_row(b: &mut ratatui::buffer::Buffer, x: u16, y: u16, end: u16, pieces: &Vec<Piece>)
    requires
        starts_in(area_of(*old(b)), x, y),
    ensures
        surface_area(*final(b)) == surface_area(*old(b)),
        surface_cells(*final(b)) == pieces_drawn(
            surface_area(*old(b)),
            surface_cells(*old(b)),
            x,
            y,
            end,
            piece_views(pieces@),
            pieces@.len() as int,
        ).1,
{
    let ghost area = surface_area(*b);
    let ghost cells = surface_cells(*b);
    let mut at: u16 = x;
    let mut i: usize = 0;
    while i < pieces.len()
        invariant
            i <= pieces@.len(),
            x <= at,
            area == surface_area(*old(b)),
            cells == surface_cells(*old(b)),
            starts_in(area_of(*old(b)), x, y),
            surface_area(*b) == area,
            (at, surface_cells(*b)) == pieces_drawn(
                area,
                cells,
                x,
                y,
                end,
                piece_views(pieces@),
                i as int,
            ),
        decreases pieces@.len() - i,
    {
        let p = &pieces[i];
        assert(piece_views(pieces@)[i as int] == (p.text@, p.style));
        let width: usize = end.saturating_sub(at) as usize;
        at = draw_text(b, at, y, p.text.as_str(), width, p.style);
        i = i + 1;
    }
}

fn draw_blanks(b: &mut ratatui::buffer::Buffer, x: u16, y: u16, end: u16, style: Style)
    requires
        starts_in(area_of(*old(b)), x, y),
    ensures
        surface_area(*final(b)) == surface_area(*old(b)),
        surface_cells(*final(b)) == blanks_drawn(
            surface_area(*old(b)),
            surface_cells(*old(b)),
            x,
            y,
            style,
            end - x,
        ),
{
    let ghost area = surface_area(*b);
    let ghost cells = surface_cells(*b);
    let mut at: u16 = x;
    while at < end
        invariant
            x <= at,
            at <= end || at == x,
            area == surface_area(*old(b)),
            cells == surface_cells(*old(b)),
            starts_in(area_of(*old(b)), x, y),
            surface_area(*b) == area,
            surface_cells(*b) == blanks_drawn(area, cells, x, y, style, at - x),
        decreases end - at,
    {
        let _next: u16 = draw_text(b, at, y, " ", 1, style);
        at = at + 1;
    }
}

/// Carries drawing instructions out, one after the other.
pub fn draw(b: &mut ratatui::buffer::Buffer, ops: &Vec<DrawOp>)
    requires
        all_draws_fit(area_of(*old(b)), draw_views(ops@)),
    ensures
        surface_area(*final(b)) == surface_area(*old(b)),
        surface_cells(*final(b)) == all_drawn(
            surface_area(*old(b)),
            surface_cells(*old(b)),
            draw_views(ops@),
            ops@.len() as int,
        ),
{
    let ghost area = surface_area(*b);
    let ghost cells = surface_cells(*b);
    let mut i: usize = 0;
    while i < ops.len()
        invariant
            i <= ops@.len(),
            area == surface_area(*old(b)),
            cells == surface_cells(*old(b)),
            surface_area(*b) == area,
            all_draws_fit(area_of(*old(b)), draw_views(ops@)),
            surface_cells(*b) == all_drawn(area, cells, draw_views(ops@), i as int),
        decreases ops@.len() - i,
    {
        let ghost op = draw_views(ops@)[i as int];
        assert(op == ops@[i as int]@);
        assert(draw_fits(area_of(*old(b)), op));
        match &ops[i] {
            DrawOp::Text { x, y, text, width, style } => {
                let _end: u16 = draw_text(b, *x, *y, text.as_str(), *width, *style);
            },
            DrawOp::Row { x, y, end, pieces } => {
                draw_row(b, *x, *y, *end, pieces);
            },
            DrawOp::Restyle { area, style } => {
                restyle_area(b, *area, *style);
            },
            DrawOp::Blank { x, y, end, style } => {
                draw_blanks(b, *x, *y, *end, *style);
            },
            DrawOp::Symbol { x, y, symbol, style } => {
                let mut writes: Vec<CellWrite> = Vec::new();
                writes.push(
                    CellWrite::Glyph { x: *x, y: *y, symbol: symbol.clone(), style: *style },
                );
                let ghost before = surface_cells(*b);
                proof {
                    assert(write_views(writes@) =~= seq![
                        WriteView::Glyph(*x as int, *y as int, symbol@, *style),
                    ]);
                    reveal_with_fuel(crate::surface::all_written, 2);
                }
                write_cells(b, &writes);
            },
        }
        i = i + 1;
    }
}

/// Carrying out a list of instructions and then another one is carrying out both as one list.
pub proof fn law_draw_in_parts(area: AreaView, cells: Cells, a: Seq<DrawView>, b: Seq<DrawView>)
    ensures
        all_drawn(area, cells, a + b, (a + b).len() as int) == all_drawn(
            area,
            all_drawn(area, cells, a, a.len() as int),
            b,
            b.len() as int,
        ),
{
    lemma_draw_prefix(area, cells, a, b, a.len() as int);
    lemma_draw_parts(area, cells, a, b, b.len() as int);
}

proof fn lemma_draw_prefix(area: AreaView, cells: Cells, a: Seq<DrawView>, b: Seq<DrawView>, n: int)
    requires
        n <= a.len(),
    ensures
        all_drawn(area, cells, a + b, n) == all_drawn(area, cells, a, n),
    decreases n,
{
    if n > 0 {
        lemma_draw_prefix(area, cells, a, b, n - 1);
    }
}

proof fn lemma_draw_parts(area: AreaView, cells: Cells, a: Seq<DrawView>, b: Seq<DrawView>, n: int)
    requires
        0 <= n <= b.len(),
    ensures
        all_drawn(area, cells, a + b, a.len() + n) == all_drawn(
            area,
            all_drawn(area, cells, a, a.len() as int),
            b,
            n,
        ),
    decreases n,
{
    if n > 0 {
        lemma_draw_parts(area, cells, a, b, n - 1);
        assert((a + b)[a.len() + n - 1] == b[n - 1]);
    } else {
        lemma_draw_prefix(area, cells, a, b, a.len() as int);
    }
}

/// A style applied to a rectangle changes no symbol, and nothing outside of the rectangle.
pub proof fn law_restyling_changes_the_rectangle(
    area: AreaView,
    cells: Cells,
    rect: Rect,
    style: Style,
    p: (int, int),
)
    requires
        cells.contains_key(p),
    ensures
        drawn(area, cells, DrawView::Restyle(rect, style))[p].0 == cells[p].0,
        !rect.holds(p.0, p.1) ==> drawn(area, cells, DrawView::Restyle(rect, style))[p] == cells[p],
        rect.holds(p.0, p.1) && rect_of(area).holds(p.0, p.1) ==> drawn(
            area,
            cells,
            DrawView::Restyle(rect, style),
        )[p] == styled(cells[p], style_texts(style)),
{
    law_restyle_keeps_symbols(rect_of(area), cells, rect, style_texts(style), p);
}

/// A symbol is drawn to its own cell, and no other one changes.
pub proof fn law_symbol_is_drawn_to_its_cell(
    area: AreaView,
    cells: Cells,
    x: u16,
    y: u16,
    symbol: Seq<char>,
    style: Style,
    p: (int, int),
)
    requires
        rect_of(area).holds(x as int, y as int),
    ensures
        drawn(area, cells, DrawView::Symbol(x, y, symbol, style))[(x as int, y as int)].0 == symbol,
        p != (x as int, y as int) ==> drawn(area, cells, DrawView::Symbol(x, y, symbol, style))[p]
            == cells[p],
{
    law_write_changes_one_cell(rect_of(area), cells, x as int, y as int, symbol, style, p);
}

/// The pieces of a row are drawn one behind the other: a row of one piece is that text, and a row of
/// several goes on where the pieces before the last one end.
pub proof fn law_pieces_stand_behind_each_other(
    area: AreaView,
    cells: Cells,
    x: u16,
    y: u16,
    end: u16,
    pieces: Seq<(Seq<char>, Style)>,
    text: Seq<char>,
    style: Style,
)
    requires
        x <= end,
    ensures
        drawn(area, cells, DrawView::Row(x, y, end, seq![(text, style)])) == drawn(
            area,
            cells,
            DrawView::Text(x, y, text, (end - x) as usize, style),
        ),
        ({
            let before = pieces_drawn(area, cells, x, y, end, pieces, pieces.len() as int);
            before.0 <= end ==> drawn(
                area,
                cells,
                DrawView::Row(x, y, end, pieces.push((text, style))),
            ) == drawn(
                area,
                before.1,
                DrawView::Text(before.0, y, text, (end - before.0) as usize, style),
            )
        }),
{
    reveal_with_fuel(pieces_drawn, 2);
    let all = pieces.push((text, style));
    lemma_same_pieces(area, cells, x, y, end, pieces, all, pieces.len() as int);
}

proof fn lemma_same_pieces(
    area: AreaView,
    cells: Cells,
    x: u16,
    y: u16,
    end: u16,
    a: Seq<(Seq<char>, Style)>,
    b: Seq<(Seq<char>, Style)>,
    n: int,
)
    requires
        n <= a.len(),
        n <= b.len(),
        forall|i: int| 0 <= i < n ==> #[trigger] a[i] == b[i],
    ensures
        pieces_drawn(area, cells, x, y, end, a, n) == pieces_drawn(area, cells, x, y, end, b, n),
    decreases n,
{
    if n > 0 {
        lemma_same_pieces(area, cells, x, y, end, a, b, n - 1);
        assert(a[n - 1] == b[n - 1]);
    }
}

/// Blanking a row draws a blank to each of its columns, from the first to the last one.
pub proof fn law_blanks_fill_the_row(area: AreaView, cells: Cells, x: u16, y: u16, end: u16, style: Style)
    requires
        x < end,
    ensures
        drawn(area, cells, DrawView::Blank(x, y, x, style)) == cells,
        drawn(area, cells, DrawView::Blank(x, y, end, style)) == drawn(
            area,
            drawn(area, cells, DrawView::Blank(x, y, (end - 1) as u16, style)),
            DrawView::Text((end - 1) as u16, y, " "@, 1, style),
        ),
{
}

} // verus!
