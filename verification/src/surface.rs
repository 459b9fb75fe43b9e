//! The buffer of terminal cells, and text drawn into it.
use crate::graphics::min_int;
use crate::graphics::monus;
use crate::graphics::Rect;
use crate::graphics::Style;
use crate::strings::texts;
use crate::terminal_style::color_name;
use crate::terminal_style::style_to_terminal;
use crate::terminal_style::to_terminal;
use crate::terminal_style::TerminalColor;
use crate::terminal_style::TerminalStyle;
use crate::unicode::graphemes;
use crate::unicode::graphemes_of;
use crate::unicode::str_width;
use crate::unicode::width_of;
use vstd::prelude::*;
use vstd::string::*;

verus! {

/// `ratatui::buffer::Buffer`: a rectangle of terminal cells.
#[verifier::external_type_specification]
#[verifier::external_body]
pub struct ExBuffer(ratatui::buffer::Buffer);

/// What a cell shows: its symbol, the names of its foreground, background and underline colours,
/// and the bits of its modifiers.
pub type Cell = (Seq<char>, Seq<char>, Seq<char>, Seq<char>, u16);

/// The names of the foreground, background and underline colours that a style sets, and the bits
/// of the modifiers that it adds and takes away.
pub type StyleTexts = (Option<Seq<char>>, Option<Seq<char>>, Option<Seq<char>>, u16, u16);

/// The area of a buffer: column, row, width and height.
pub uninterp spec fn surface_area(b: ratatui::buffer::Buffer) -> (u16, u16, u16, u16);

/// What the cells of a buffer show, by column and row.
pub uninterp spec fn surface_cells(b: ratatui::buffer::Buffer) -> Map<(int, int), Cell>;

/// The area of a buffer.
pub open spec fn area_of(b: ratatui::buffer::Buffer) -> Rect {
    let a = surface_area(b);
    Rect { x: a.0, y: a.1, width: a.2, height: a.3 }
}

/// A cell that nothing was drawn to.
pub open spec fn blank_cell() -> Cell {
    (" "@, "reset"@, "reset"@, "reset"@, 0)
}

/// `a` if it is there, else `b`.
pub open spec fn text_or(a: Option<Seq<char>>, b: Seq<char>) -> Seq<char> {
    match a {
        Some(s) => s,
        None => b,
    }
}

/// A cell with a style applied.
pub open spec fn styled(c: Cell, s: StyleTexts) -> Cell {
    (c.0, text_or(s.0, c.1), text_or(s.1, c.2), text_or(s.2, c.3), (c.4 | s.3) & !s.4)
}

/// The name of an optional colour.
pub open spec fn name_opt(c: Option<TerminalColor>) -> Option<Seq<char>> {
    match c {
        Some(c) => Some(color_name(c)),
        None => None,
    }
}

/// What a style sets, by names.
pub open spec fn style_texts(style: Style) -> StyleTexts {
    let t = style_to_terminal(style);
    (
        name_opt(t.fg),
        name_opt(t.bg),
        name_opt(t.underline_color),
        t.add_modifier,
        t.sub_modifier,
    )
}

/// The text of an optional string.
pub open spec fn str_opt(s: Option<&str>) -> Option<Seq<char>> {
    match s {
        Some(s) => Some(s@),
        None => None,
    }
}

/// Whether an optional name is that of a colour.
pub open spec fn colored(s: Option<&str>) -> bool {
    s matches Some(n) ==> exists|c: TerminalColor| n@ == #[trigger] color_name(c)
}

/// The field `area` of `ratatui::buffer::Buffer`.
#[verifier::external_body]
fn buffer_area(b: &ratatui::buffer::Buffer) -> (r: (u16, u16, u16, u16))
    ensures
        r == surface_area(*b),
{
    (b.area.x, b.area.y, b.area.width, b.area.height)
}

/// `Cell::set_symbol` of ratatui on the cell at a column and row, which must lie in the area: only
/// the symbol of that cell changes.
#[verifier::external_body]
fn put_symbol(b: &mut ratatui::buffer::Buffer, x: u16, y: u16, symbol: &str)
    requires
        area_of(*old(b)).holds(x as int, y as int),
    ensures
        surface_area(*final(b)) == surface_area(*old(b)),
        ({
            let cells = surface_cells(*old(b));
            let c = cells[(x as int, y as int)];
            surface_cells(*final(b)) == cells.insert(
                (x as int, y as int),
                (symbol@, c.1, c.2, c.3, c.4),
            )
        }),
{
    b[(x, y)].set_symbol(symbol);
}

/// `Cell::set_style` of ratatui on the cell at a column and row, which must lie in the area: the
/// cell takes the colours that are given, then the modifiers `add`, and loses the modifiers `sub`.
/// The colours are given by names that ratatui's `Color::from_str` knows.
#[verifier::external_body]
fn put_style(
    b: &mut ratatui::buffer::Buffer,
    x: u16,
    y: u16,
    fg: Option<&str>,
    bg: Option<&str>,
    underline: Option<&str>,
    add_bits: u16,
    sub_bits: u16,
)
    requires
        area_of(*old(b)).holds(x as int, y as int),
        colored(fg),
        colored(bg),
        colored(underline),
    ensures
        surface_area(*final(b)) == surface_area(*old(b)),
        surface_cells(*final(b)) == surface_cells(*old(b)).insert(
            (x as int, y as int),
            styled(
                surface_cells(*old(b))[(x as int, y as int)],
                (str_opt(fg), str_opt(bg), str_opt(underline), add_bits, sub_bits),
            ),
        ),
{
    let mut s = ratatui::style::Style::default();
    s.fg = fg.and_then(|n| n.parse().ok());
    s.bg = bg.and_then(|n| n.parse().ok());
    s.underline_color = underline.and_then(|n| n.parse().ok());
    s.add_modifier = ratatui::style::Modifier::from_bits_retain(add_bits);
    s.sub_modifier = ratatui::style::Modifier::from_bits_retain(sub_bits);
    b[(x, y)].set_style(s);
}

/// `Cell::reset` of ratatui on the cell at a column and row, which must lie in the area: the cell
/// shows what it showed before anything was drawn to it.
#[verifier::external_body]
fn reset_cell(b: &mut ratatui::buffer::Buffer, x: u16, y: u16)
    requires
        area_of(*old(b)).holds(x as int, y as int),
    ensures
        surface_area(*final(b)) == surface_area(*old(b)),
        surface_cells(*final(b)) == surface_cells(*old(b)).insert(
            (x as int, y as int),
            blank_cell(),
        ),
{
    b[(x, y)].reset();
}

/// What `Buffer::set_stringn` makes of an area, its cells, a column, a row, a text, a greatest
/// width and a style: the column behind the text, and the cells.
pub uninterp spec fn stringn_drawn(
    area: (u16, u16, u16, u16),
    cells: Map<(int, int), Cell>,
    x: u16,
    y: u16,
    s: Seq<char>,
    width: usize,
    style: StyleTexts,
) -> (u16, Map<(int, int), Cell>);

/// `Buffer::set_stringn` of ratatui in a row of the area, from the area's first column or one
/// behind it. What is drawn and the column behind it depend on the arguments alone; the column is
/// not before `x`, at most `width` columns behind it, and not behind the area unless `x` is. The
/// cells in other rows, before `x`, and from that column on stay as they are.
#[verifier::external_body]
fn set_stringn(
    b: &mut ratatui::buffer::Buffer,
    x: u16,
    y: u16,
    s: &str,
    width: usize,
    fg: Option<&str>,
    bg: Option<&str>,
    underline: Option<&str>,
    add_bits: u16,
    sub_bits: u16,
) -> (r: u16)
    requires
        area_of(*old(b)).x <= x,
        area_of(*old(b)).y <= y < area_of(*old(b)).spec_bottom(),
        colored(fg),
        colored(bg),
        colored(underline),
    ensures
        surface_area(*final(b)) == surface_area(*old(b)),
        (r, surface_cells(*final(b))) == stringn_drawn(
            surface_area(*old(b)),
            surface_cells(*old(b)),
            x,
            y,
            s@,
            width,
            (str_opt(fg), str_opt(bg), str_opt(underline), add_bits, sub_bits),
        ),
        x <= r,
        r - x <= width,
        r <= x || r <= area_of(*old(b)).spec_right(),
        forall|cx: int, cy: int|
            !(cy == y && x <= cx < r) ==> #[trigger] surface_cells(*final(b))[(cx, cy)]
                == surface_cells(*old(b))[(cx, cy)],
{
    let mut style = ratatui::style::Style::default();
    style.fg = fg.and_then(|n| n.parse().ok());
    style.bg = bg.and_then(|n| n.parse().ok());
    style.underline_color = underline.and_then(|n| n.parse().ok());
    style.add_modifier = ratatui::style::Modifier::from_bits_retain(add_bits);
    style.sub_modifier = ratatui::style::Modifier::from_bits_retain(sub_bits);
    b.set_stringn(x, y, s, width, style).0
}

/// What a style sets, by names.
struct StyleNames {
    fg: Option<String>,
    bg: Option<String>,
    underline: Option<String>,
    add_bits: u16,
    sub_bits: u16,
}

impl StyleNames {
    spec fn stands_for(self, style: Style) -> bool {
        let t = style_texts(style);
        let s = style_to_terminal(style);
        &&& opt_named(self.fg, s.fg)
        &&& opt_named(self.bg, s.bg)
        &&& opt_named(self.underline, s.underline_color)
        &&& self.add_bits == t.3
        &&& self.sub_bits == t.4
    }
}

spec fn opt_named(s: Option<String>, c: Option<TerminalColor>) -> bool {
    match (s, c) {
        (Some(s), Some(c)) => s@ == color_name(c),
        (None, None) => true,
        _ => false,
    }
}

fn opt_name(c: Option<TerminalColor>) -> (r: Option<String>)
    ensures
        opt_named(r, c),
{
    match c {
        Some(c) => Some(c.name()),
        None => None,
    }
}

fn style_names(style: Style) -> (r: StyleNames)
    ensures
        r.stands_for(style),
{
    let t = TerminalStyle::from(style);
    StyleNames {
        fg: opt_name(t.fg),
        bg: opt_name(t.bg),
        underline: opt_name(t.underline_color),
        add_bits: t.add_modifier,
        sub_bits: t.sub_modifier,
    }
}

fn opt_str(s: &Option<String>) -> (r: Option<&str>)
    ensures
        str_opt(r) == match *s {
            Some(t) => Some(t@),
            None => None,
        },
{
    match s {
        Some(t) => Some(t.as_str()),
        None => None,
    }
}

/// Applies a style to one cell of the area.
fn style_cell(b: &mut ratatui::buffer::Buffer, x: u16, y: u16, style: Style)
    requires
        area_of(*old(b)).holds(x as int, y as int),
    ensures
        surface_area(*final(b)) == surface_area(*old(b)),
        surface_cells(*final(b)) == surface_cells(*old(b)).insert(
            (x as int, y as int),
            styled(surface_cells(*old(b))[(x as int, y as int)], style_texts(style)),
        ),
{
    let n = style_names(style);
    put_style(b, x, y, opt_str(&n.fg), opt_str(&n.bg), opt_str(&n.underline), n.add_bits, n.sub_bits);
}

/// Draws at most `width` columns of a text; gives the column behind it.
pub fn draw_text(
    b: &mut ratatui::buffer::Buffer,
    x: u16,
    y: u16,
    s: &str,
    width: usize,
    style: Style,
) -> (r: u16)
    requires
        area_of(*old(b)).x <= x,
        area_of(*old(b)).y <= y < area_of(*old(b)).spec_bottom(),
    ensures
        surface_area(*final(b)) == surface_area(*old(b)),
        (r, surface_cells(*final(b))) == stringn_drawn(
            surface_area(*old(b)),
            surface_cells(*old(b)),
            x,
            y,
            s@,
            width,
            style_texts(style),
        ),
        x <= r,
        r - x <= width,
        r <= x || r <= area_of(*old(b)).spec_right(),
        forall|cx: int, cy: int|
            !(cy == y && x <= cx < r) ==> #[trigger] surface_cells(*final(b))[(cx, cy)]
                == surface_cells(*old(b))[(cx, cy)],
{
    let n = style_names(style);
    set_stringn(
        b,
        x,
        y,
        s,
        width,
        opt_str(&n.fg),
        opt_str(&n.bg),
        opt_str(&n.underline),
        n.add_bits,
        n.sub_bits,
    )
}

/// The cells with a style applied to those in both the area and a rectangle.
pub open spec fn restyled(area: Rect, cells: Map<(int, int), Cell>, rect: Rect, style: StyleTexts) -> Map<
    (int, int),
    Cell,
> {
    cells.map_entries(
        |p: (int, int), c: Cell|
            if in_both(area, rect, p.0, p.1) {
                styled(c, style)
            } else {
                c
            },
    )
}

/// `Buffer::set_style` of ratatui: applies a style to the cells in both the buffer's area and a
/// rectangle, as `Cell::set_style` does to one cell. No other cell changes.
#[verifier::external_body]
fn set_style(
    b: &mut ratatui::buffer::Buffer,
    rect: (u16, u16, u16, u16),
    fg: Option<&str>,
    bg: Option<&str>,
    underline: Option<&str>,
    add_bits: u16,
    sub_bits: u16,
)
    requires
        colored(fg),
        colored(bg),
        colored(underline),
    ensures
        surface_area(*final(b)) == surface_area(*old(b)),
        surface_cells(*final(b)) == restyled(
            area_of(*old(b)),
            surface_cells(*old(b)),
            Rect { x: rect.0, y: rect.1, width: rect.2, height: rect.3 },
            (str_opt(fg), str_opt(bg), str_opt(underline), add_bits, sub_bits),
        ),
{
    let mut s = ratatui::style::Style::default();
    s.fg = fg.and_then(|n| n.parse().ok());
    s.bg = bg.and_then(|n| n.parse().ok());
    s.underline_color = underline.and_then(|n| n.parse().ok());
    s.add_modifier = ratatui::style::Modifier::from_bits_retain(add_bits);
    s.sub_modifier = ratatui::style::Modifier::from_bits_retain(sub_bits);
    let area = ratatui::layout::Rect { x: rect.0, y: rect.1, width: rect.2, height: rect.3 };
    b.set_style(area, s);
}

/// Applies a style to the cells in both the buffer and a rectangle.
pub fn restyle_area(b: &mut ratatui::buffer::Buffer, rect: Rect, style: Style)
    ensures
        surface_area(*final(b)) == surface_area(*old(b)),
        surface_cells(*final(b)) == restyled(
            area_of(*old(b)),
            surface_cells(*old(b)),
            rect,
            style_texts(style),
        ),
{
    let n = style_names(style);
    set_style(
        b,
        (rect.x, rect.y, rect.width, rect.height),
        opt_str(&n.fg),
        opt_str(&n.bg),
        opt_str(&n.underline),
        n.add_bits,
        n.sub_bits,
    );
}

/// One write to a cell.
#[derive(Debug)]
pub enum CellWrite {
    /// Put a symbol and a style into a cell.
    Glyph { x: u16, y: u16, symbol: String, style: Style },
    /// Put a symbol into a cell.
    Symbol { x: u16, y: u16, symbol: String },
    /// Reset a cell if it lies in the area.
    Reset { x: u16, y: u16 },
}

/// A write, with its symbol.
pub enum WriteView {
    Glyph(int, int, Seq<char>, Style),
    Symbol(int, int, Seq<char>),
    Reset(int, int),
}

impl View for CellWrite {
    type V = WriteView;

    open spec fn view(&self) -> WriteView {
        match self {
            CellWrite::Glyph { x, y, symbol, style } => WriteView::Glyph(
                *x as int,
                *y as int,
                symbol@,
                *style,
            ),
            CellWrite::Symbol { x, y, symbol } => WriteView::Symbol(*x as int, *y as int, symbol@),
            CellWrite::Reset { x, y } => WriteView::Reset(*x as int, *y as int),
        }
    }
}

/// The views of a list of writes.
pub open spec fn write_views(v: Seq<CellWrite>) -> Seq<WriteView> {
    v.map_values(|w: CellWrite| w@)
}

/// Whether a write can be made: all but a reset must lie in the area.
pub open spec fn write_fits(area: Rect, w: WriteView) -> bool {
    match w {
        WriteView::Glyph(x, y, _, _) => area.holds(x, y),
        WriteView::Symbol(x, y, _) => area.holds(x, y),
        WriteView::Reset(_, _) => true,
    }
}

/// Whether all writes can be made.
pub open spec fn writes_fit(area: Rect, ws: Seq<WriteView>) -> bool {
    forall|i: int| 0 <= i < ws.len() ==> write_fits(area, #[trigger] ws[i])
}

/// The cells after a write.
pub open spec fn written(area: Rect, cells: Map<(int, int), Cell>, w: WriteView) -> Map<
    (int, int),
    Cell,
> {
    match w {
        WriteView::Glyph(x, y, symbol, style) => {
            let c = cells[(x, y)];
            cells.insert((x, y), styled((symbol, c.1, c.2, c.3, c.4), style_texts(style)))
        },
        WriteView::Symbol(x, y, symbol) => {
            let c = cells[(x, y)];
            cells.insert((x, y), (symbol, c.1, c.2, c.3, c.4))
        },
        WriteView::Reset(x, y) => if area.holds(x, y) {
            cells.insert((x, y), blank_cell())
        } else {
            cells
        },
    }
}

/// The cells after the first `n` writes.
pub open spec fn all_written(
    area: Rect,
    cells: Map<(int, int), Cell>,
    ws: Seq<WriteView>,
    n: int,
) -> Map<(int, int), Cell>
    decreases n,
{
    if n <= 0 {
        cells
    } else {
        written(area, all_written(area, cells, ws, n - 1), ws[n - 1])
    }
}

/// The area of a buffer.
pub fn buffer_rect(b: &ratatui::buffer::Buffer) -> (r: Rect)
    ensures
        r == area_of(*b),
{
    let (x, y, width, height) = buffer_area(b);
    Rect { x, y, width, height }
}

/// Whether a cell lies in a rectangle.
pub fn rect_holds(area: Rect, x: u16, y: u16) -> (r: bool)
    ensures
        r == area.holds(x as int, y as int),
{
    x >= area.left() && x < area.right() && y >= area.top() && y < area.bottom()
}

/// Makes writes, one after the other.
pub(crate) fn write_cells(b: &mut ratatui::buffer::Buffer, writes: &Vec<CellWrite>)
    requires
        writes_fit(area_of(*old(b)), write_views(writes@)),
    ensures
        surface_area(*final(b)) == surface_area(*old(b)),
        surface_cells(*final(b)) == all_written(
            area_of(*old(b)),
            surface_cells(*old(b)),
            write_views(writes@),
            writes@.len() as int,
        ),
{
    let area = buffer_rect(b);
    let mut i: usize = 0;
    while i < writes.len()
        invariant
            i <= writes@.len(),
            area == area_of(*old(b)),
            surface_area(*b) == surface_area(*old(b)),
            writes_fit(area, write_views(writes@)),
            surface_cells(*b) == all_written(
                area,
                surface_cells(*old(b)),
                write_views(writes@),
                i as int,
            ),
        decreases writes@.len() - i,
    {
        let ghost w = write_views(writes@)[i as int];
        assert(write_fits(area, w));
        assert(w == writes@[i as int]@);
        let ghost before = surface_cells(*b);
        match &writes[i] {
            CellWrite::Glyph { x, y, symbol, style } => {
                put_symbol(b, *x, *y, symbol.as_str());
                style_cell(b, *x, *y, *style);
                assert(surface_cells(*b) =~= written(area, before, w));
            },
            CellWrite::Symbol { x, y, symbol } => {
                put_symbol(b, *x, *y, symbol.as_str());
            },
            CellWrite::Reset { x, y } => {
                if rect_holds(area, *x, *y) {
                    reset_cell(b, *x, *y);
                }
            },
        }
        i = i + 1;
    }
}

/// A grapheme cluster with its width and style.
#[derive(Debug)]
pub struct Glyph {
    pub text: String,
    pub width: usize,
    pub style: Style,
}

/// A cluster, with its text.
pub type GlyphView = (Seq<char>, int, Style);

/// The views of clusters.
pub open spec fn glyph_views(v: Seq<Glyph>) -> Seq<GlyphView> {
    v.map_values(|g: Glyph| (g.text@, g.width as int, g.style))
}

/// The resets of the columns from `from` up to `to`.
pub open spec fn resets(from: int, to: int, y: int) -> Seq<WriteView> {
    Seq::new(
        if from < to {
            (to - from) as nat
        } else {
            0
        },
        |i: int| WriteView::Reset(from + i, y),
    )
}

/// A cluster drawn at a column: its symbol, and resets of the other columns that it takes.
pub open spec fn glyph_writes(g: GlyphView, x: int, y: int) -> Seq<WriteView> {
    seq![WriteView::Glyph(x, y, g.0, g.2)] + resets(x + 1, x + g.1, y)
}

fn push_write(out: &mut Vec<CellWrite>, w: CellWrite)
    ensures
        write_views(final(out)@) == write_views(old(out)@).push(w@),
{
    let ghost prev = out@;
    out.push(w);
    assert(write_views(out@) =~= write_views(prev).push(w@));
}

fn push_glyph(out: &mut Vec<CellWrite>, g: &Glyph, x: u16, y: u16)
    requires
        g.width > 0,
        x + g.width <= u16::MAX + 1,
    ensures
        write_views(final(out)@) == write_views(old(out)@) + glyph_writes(
            (g.text@, g.width as int, g.style),
            x as int,
            y as int,
        ),
{
    let ghost view = (g.text@, g.width as int, g.style);
    let ghost before = write_views(out@);
    push_write(out, CellWrite::Glyph { x, y, symbol: g.text.clone(), style: g.style });
    let mut i: usize = 1;
    let ghost first = before.push(WriteView::Glyph(x as int, y as int, g.text@, g.style));
    assert(first + resets(x + 1, x + 1, y as int) =~= first);
    while i < g.width
        invariant
            1 <= i <= g.width,
            x + g.width <= u16::MAX + 1,
            write_views(out@) == first + resets(x + 1, x + i, y as int),
        decreases g.width - i,
    {
        push_write(out, CellWrite::Reset { x: x + i as u16, y });
        i = i + 1;
        assert(write_views(out@) =~= first + resets(x + 1, x + i, y as int));
    }
    assert(write_views(out@) =~= before + glyph_writes(view, x as int, y as int));
}

/// The widths of clusters.
pub open spec fn widths(g: Seq<GlyphView>) -> Seq<int> {
    g.map_values(|v: GlyphView| v.1)
}

/// The writes of the clusters from `i` on, drawn from column `x` on as long as they end by column
/// `max`.
pub open spec fn forward_writes(g: Seq<GlyphView>, y: int, max: int, x: int, i: int) -> Seq<WriteView>
    decreases g.len() - i,
{
    if i < 0 || i >= g.len() {
        Seq::empty()
    } else if g[i].1 == 0 {
        forward_writes(g, y, max, x, i + 1)
    } else if g[i].1 > max - x {
        Seq::empty()
    } else {
        glyph_writes(g[i], x, y) + forward_writes(g, y, max, x + g[i].1, i + 1)
    }
}

/// The column behind the clusters that are drawn from column `x` on.
pub open spec fn forward_end(w: Seq<int>, max: int, x: int, i: int) -> int
    decreases w.len() - i,
{
    if i < 0 || i >= w.len() {
        x
    } else if w[i] == 0 {
        forward_end(w, max, x, i + 1)
    } else if w[i] > max - x {
        x
    } else {
        forward_end(w, max, x + w[i], i + 1)
    }
}

/// The writes of the first `i` clusters, drawn right to left so that they end at column `x`, as
/// long as they start at column `min` or behind it.
pub open spec fn backward_writes(g: Seq<GlyphView>, y: int, min: int, x: int, i: int) -> Seq<
    WriteView,
>
    decreases i,
{
    if i <= 0 {
        Seq::empty()
    } else if g[i - 1].1 == 0 {
        backward_writes(g, y, min, x, i - 1)
    } else if x - g[i - 1].1 < min {
        Seq::empty()
    } else {
        glyph_writes(g[i - 1], x - g[i - 1].1, y) + backward_writes(g, y, min, x - g[i - 1].1, i - 1)
    }
}

/// The column at which the clusters drawn right to left start.
pub open spec fn backward_start(w: Seq<int>, min: int, x: int, i: int) -> int
    decreases i,
{
    if i <= 0 {
        x
    } else if w[i - 1] == 0 {
        backward_start(w, min, x, i - 1)
    } else if x - w[i - 1] < min {
        x
    } else {
        backward_start(w, min, x - w[i - 1], i - 1)
    }
}

/// Whether the clusters drawn right to left can be placed: a cell is addressed by its number in
/// the area, `before` for the first one of the row, and no number may become negative.
pub open spec fn backward_fits(w: Seq<int>, before: int, min: int, x: int, i: int) -> bool
    decreases i,
{
    if i <= 0 {
        true
    } else if w[i - 1] == 0 {
        backward_fits(w, before, min, x, i - 1)
    } else if before + x - w[i - 1] < 0 {
        false
    } else if x - w[i - 1] < min {
        true
    } else {
        backward_fits(w, before, min, x - w[i - 1], i - 1)
    }
}

/// The width for the text: one column less if there may be an ellipsis.
pub open spec fn text_width(width: int, ellipsis: bool) -> int {
    if ellipsis {
        width - 1
    } else {
        width
    }
}

/// The column by which the text must end.
pub open spec fn text_limit(area: Rect, x: int, width: int) -> int {
    min_int(area.spec_right(), x + width)
}

/// The clusters of a text with their widths; `styles` holds a style for each.
pub open spec fn glyphs_of(s: Seq<char>, styles: Seq<Style>) -> Seq<GlyphView> {
    Seq::new(
        graphemes_of(s).len(),
        |i: int| (graphemes_of(s)[i], width_of(graphemes_of(s)[i]) as int, styles[i]),
    )
}

/// The widths of the clusters of a text.
pub open spec fn widths_of(s: Seq<char>) -> Seq<int> {
    graphemes_of(s).map_values(|c: Seq<char>| width_of(c) as int)
}

/// The number that the cell in column 0 of row `y` would have in the area.
pub open spec fn row_offset(area: Rect, y: int) -> int {
    (y - area.y) * area.width - area.x
}

/// The writes that draw a text from its start.
pub open spec fn cut_end_writes(
    g: Seq<GlyphView>,
    content_width: int,
    area: Rect,
    x: int,
    y: int,
    width: int,
    ellipsis: bool,
) -> Seq<WriteView> {
    let max = text_limit(area, x, text_width(width, ellipsis));
    let end = forward_end(widths(g), max, x, 0);
    forward_writes(g, y, max, x, 0) + (if ellipsis && end - x < content_width {
        seq![WriteView::Symbol(end, y, "…"@)]
    } else {
        Seq::empty()
    })
}

/// The column at which a text that is cut at its start ends.
pub open spec fn tail_end(content_width: int, area: Rect, x: int, width: int, ellipsis: bool) -> int {
    let w = text_width(width, ellipsis);
    text_limit(area, x, w) - monus(w, content_width)
}

/// The first column of a text that is cut at its start.
pub open spec fn tail_min(content_width: int, x: int, width: int, ellipsis: bool) -> int {
    if ellipsis && content_width > text_width(width, ellipsis) {
        x + 1
    } else {
        x
    }
}

/// The writes that draw a text so that its end can be seen.
pub open spec fn cut_start_writes(
    g: Seq<GlyphView>,
    content_width: int,
    area: Rect,
    x: int,
    y: int,
    width: int,
    ellipsis: bool,
) -> Seq<WriteView> {
    (if ellipsis && content_width > text_width(width, ellipsis) {
        seq![WriteView::Symbol(x, y, "…"@)]
    } else {
        Seq::empty()
    }) + backward_writes(
        g,
        y,
        tail_min(content_width, x, width, ellipsis),
        tail_end(content_width, area, x, width, ellipsis),
        g.len() as int,
    )
}

/// Whether a text can be drawn: the ellipsis behind it must lie in the area; if it is cut at its
/// start, the area must end on the screen, and no cell may have a negative number.
pub open spec fn text_fits(
    s: Seq<char>,
    area: Rect,
    x: int,
    y: int,
    width: int,
    ellipsis: bool,
    truncate_start: bool,
) -> bool {
    let w = widths_of(s);
    let content_width = width_of(s) as int;
    if !area.holds(x, y) || width == 0 {
        true
    } else if !truncate_start {
        let max = text_limit(area, x, text_width(width, ellipsis));
        let end = forward_end(w, max, x, 0);
        ellipsis && end - x < content_width ==> end < area.spec_right()
    } else {
        let end = tail_end(content_width, area, x, width, ellipsis);
        &&& area.x + area.width <= u16::MAX
        &&& row_offset(area, y) + end >= 0
        &&& backward_fits(
            w,
            row_offset(area, y),
            tail_min(content_width, x, width, ellipsis),
            end,
            w.len() as int,
        )
    }
}

/// The cells after a text was drawn.
pub open spec fn text_drawn(
    cells: Map<(int, int), Cell>,
    s: Seq<char>,
    styles: Seq<Style>,
    area: Rect,
    x: int,
    y: int,
    width: int,
    ellipsis: bool,
    truncate_start: bool,
) -> Map<(int, int), Cell> {
    let g = glyphs_of(s, styles);
    let ws = if truncate_start {
        cut_start_writes(g, width_of(s) as int, area, x, y, width, ellipsis)
    } else {
        cut_end_writes(g, width_of(s) as int, area, x, y, width, ellipsis)
    };
    if !area.holds(x, y) || width == 0 {
        cells
    } else {
        all_written(area, cells, ws, ws.len() as int)
    }
}

/// The column that is given back for a drawn text.
pub open spec fn text_end(
    s: Seq<char>,
    area: Rect,
    x: int,
    y: int,
    width: int,
    ellipsis: bool,
    truncate_start: bool,
) -> int {
    let w = widths_of(s);
    let content_width = width_of(s) as int;
    if !area.holds(x, y) || width == 0 {
        x
    } else if !truncate_start {
        forward_end(w, text_limit(area, x, text_width(width, ellipsis)), x, 0)
    } else {
        let end = tail_end(content_width, area, x, width, ellipsis);
        x + end - backward_start(
            w,
            tail_min(content_width, x, width, ellipsis),
            end,
            w.len() as int,
        )
    }
}

/// Draws the clusters from `first` on, from column `x` on as long as they end by column `max`; gives
/// the column behind them.
fn plan_forward(
    out: &mut Vec<CellWrite>,
    g: &Vec<Glyph>,
    y: u16,
    max: u16,
    x: u16,
    first: usize,
) -> (end: u16)
    requires
        first <= g@.len(),
    ensures
        write_views(final(out)@) == write_views(old(out)@) + forward_writes(
            glyph_views(g@),
            y as int,
            max as int,
            x as int,
            first as int,
        ),
        end == forward_end(widths(glyph_views(g@)), max as int, x as int, first as int),
        x <= end,
        x <= max ==> end <= max,
{
    let ghost v = glyph_views(g@);
    let ghost start = write_views(out@);
    let ghost all = forward_writes(v, y as int, max as int, x as int, first as int);
    let ghost last = forward_end(widths(v), max as int, x as int, first as int);
    let mut at: u16 = x;
    let mut i: usize = first;
    while i < g.len()
        invariant
            first <= i <= g@.len(),
            v == glyph_views(g@),
            start == write_views(old(out)@),
            all == forward_writes(v, y as int, max as int, x as int, first as int),
            last == forward_end(widths(v), max as int, x as int, first as int),
            x <= at,
            x <= max ==> at <= max,
            write_views(out@) + forward_writes(v, y as int, max as int, at as int, i as int)
                == start + all,
            forward_end(widths(v), max as int, at as int, i as int) == last,
        decreases g@.len() - i,
    {
        let ghost before = write_views(out@);
        assert(v[i as int] == (g@[i as int].text@, g@[i as int].width as int, g@[i as int].style));
        let w: usize = g[i].width;
        if w > 0 {
            if at > max || w > (max - at) as usize {
                assert(write_views(out@) =~= start + all);
                return at;
            }
            push_glyph(out, &g[i], at, y);
            assert(write_views(out@) + forward_writes(
                v,
                y as int,
                max as int,
                at + w,
                i + 1,
            ) =~= before + forward_writes(v, y as int, max as int, at as int, i as int));
            at = at + w as u16;
        }
        i = i + 1;
    }
    assert(write_views(out@) =~= start + all);
    at
}

/// Draws clusters right to left; gives the column at which they start.
fn plan_backward(
    out: &mut Vec<CellWrite>,
    g: &Vec<Glyph>,
    y: u16,
    min: u16,
    x: u16,
) -> (first: u16)
    ensures
        write_views(final(out)@) == write_views(old(out)@) + backward_writes(
            glyph_views(g@),
            y as int,
            min as int,
            x as int,
            g@.len() as int,
        ),
        first == backward_start(widths(glyph_views(g@)), min as int, x as int, g@.len() as int),
        first <= x,
        first >= min || first == x,
{
    let ghost v = glyph_views(g@);
    let ghost start = write_views(out@);
    let ghost all = backward_writes(v, y as int, min as int, x as int, g@.len() as int);
    let ghost last = backward_start(widths(v), min as int, x as int, g@.len() as int);
    let mut at: u16 = x;
    let mut i: usize = g.len();
    assert(write_views(out@) + all =~= start + all);
    while i > 0
        invariant
            i <= g@.len(),
            v == glyph_views(g@),
            start == write_views(old(out)@),
            all == backward_writes(v, y as int, min as int, x as int, g@.len() as int),
            last == backward_start(widths(v), min as int, x as int, g@.len() as int),
            at <= x,
            at >= min || at == x,
            write_views(out@) + backward_writes(v, y as int, min as int, at as int, i as int)
                == start + all,
            backward_start(widths(v), min as int, at as int, i as int) == last,
        decreases i,
    {
        let ghost before = write_views(out@);
        let k: usize = i - 1;
        assert(v[k as int] == (g@[k as int].text@, g@[k as int].width as int, g@[k as int].style));
        let w: usize = g[k].width;
        if w > 0 {
            if w > at as usize || at - (w as u16) < min {
                assert(write_views(out@) =~= start + all);
                return at;
            }
            let s: u16 = at - w as u16;
            push_glyph(out, &g[k], s, y);
            assert(write_views(out@) + backward_writes(
                v,
                y as int,
                min as int,
                s as int,
                k as int,
            ) =~= before + backward_writes(v, y as int, min as int, at as int, i as int));
            at = s;
        }
        i = k;
    }
    assert(write_views(out@) =~= start + all);
    at
}

/// The byte at which the `i`-th cluster starts.
pub open spec fn cluster_offset(clusters: Seq<Seq<char>>, i: int) -> nat
    decreases i,
{
    if i <= 0 {
        0
    } else {
        cluster_offset(clusters, i - 1) + vstd::utf8::encode_utf8(clusters[i - 1]).len()
    }
}

/// The UTF-8 encoding of two texts put together is that of the first and then that of the second.
pub proof fn lemma_encode_add(a: Seq<char>, b: Seq<char>)
    ensures
        vstd::utf8::encode_utf8(a + b) == vstd::utf8::encode_utf8(a) + vstd::utf8::encode_utf8(b),
    decreases a.len(),
{
    if a.len() == 0 {
        assert(a + b =~= b);
        assert(vstd::utf8::encode_utf8(a) =~= Seq::empty());
        assert(vstd::utf8::encode_utf8(a) + vstd::utf8::encode_utf8(b) =~= vstd::utf8::encode_utf8(
            b,
        ));
    } else {
        lemma_encode_add(a.drop_first(), b);
        assert((a + b).drop_first() =~= a.drop_first() + b);
        assert((a + b)[0] == a[0]);
        assert(vstd::utf8::encode_utf8(a + b) =~= vstd::utf8::encode_utf8(a)
            + vstd::utf8::encode_utf8(b));
    }
}

proof fn lemma_cluster_offset(clusters: Seq<Seq<char>>, i: int)
    requires
        0 <= i <= clusters.len(),
    ensures
        cluster_offset(clusters, i) == vstd::utf8::encode_utf8(clusters.take(i).flatten()).len(),
    decreases i,
{
    if i == 0 {
        assert(clusters.take(0) =~= Seq::empty());
        assert(clusters.take(0).flatten() =~= Seq::<char>::empty());
    } else {
        lemma_cluster_offset(clusters, i - 1);
        let t = clusters.take(i);
        assert(t =~= clusters.take(i - 1).push(clusters[i - 1]));
        clusters.take(i - 1).lemma_flatten_push(clusters[i - 1]);
        lemma_encode_add(clusters.take(i - 1).flatten(), clusters[i - 1]);
    }
}

proof fn lemma_offset_bound(clusters: Seq<Seq<char>>, i: int)
    requires
        0 <= i <= clusters.len(),
    ensures
        cluster_offset(clusters, i) <= vstd::utf8::encode_utf8(clusters.flatten()).len(),
    decreases clusters.len() - i,
{
    if i < clusters.len() {
        lemma_offset_bound(clusters, i + 1);
    } else {
        lemma_cluster_offset(clusters, i);
        assert(clusters.take(i) =~= clusters);
    }
}

/// Whether `styles` are what `style` gives for the clusters of a text, by the byte at which each
/// starts.
pub open spec fn styles_from<F: Fn(usize) -> Style>(style: F, s: Seq<char>, styles: Seq<Style>) -> bool {
    &&& styles.len() == graphemes_of(s).len()
    &&& forall|i: int|
        0 <= i < styles.len() ==> call_ensures(
            style,
            (cluster_offset(graphemes_of(s), i) as usize,),
            #[trigger] styles[i],
        )
}

/// The clusters of a text, each with its width and with the style that `style` gives for the byte
/// at which it starts.
fn collect_glyphs<F: Fn(usize) -> Style>(s: &str, style: &F) -> (r: (Vec<Glyph>, Ghost<Seq<Style>>))
    requires
        forall|n: usize| call_requires(*style, (n,)),
    ensures
        styles_from(*style, s@, r.1@),
        glyph_views(r.0@) == glyphs_of(s@, r.1@),
        widths(glyph_views(r.0@)) == widths_of(s@),
{
    let bytes = s.as_bytes();
    let total: usize = bytes.len();
    let clusters = graphemes(s);
    let ghost all = graphemes_of(s@);
    let ghost mut styles: Seq<Style> = Seq::empty();
    let mut out: Vec<Glyph> = Vec::new();
    let mut offset: usize = 0;
    let mut i: usize = 0;
    proof {
        assert(total == vstd::utf8::encode_utf8(all.flatten()).len());
    }
    while i < clusters.len()
        invariant
            i <= clusters@.len(),
            all == graphemes_of(s@),
            all == texts(clusters@),
            total == vstd::utf8::encode_utf8(all.flatten()).len(),
            offset == cluster_offset(all, i as int),
            forall|n: usize| call_requires(*style, (n,)),
            styles.len() == i,
            out@.len() == i,
            forall|k: int|
                0 <= k < i ==> call_ensures(
                    *style,
                    (cluster_offset(all, k) as usize,),
                    #[trigger] styles[k],
                ),
            forall|k: int|
                0 <= k < i ==> #[trigger] glyph_views(out@)[k] == (
                    all[k],
                    width_of(all[k]) as int,
                    styles[k],
                ),
        decreases clusters@.len() - i,
    {
        assert(all[i as int] == clusters@[i as int]@);
        let ghost prev = out@;
        let st = style(offset);
        let text = clusters[i].clone();
        let width: usize = str_width(text.as_str());
        let cluster_bytes = clusters[i].as_str().as_bytes();
        let n: usize = cluster_bytes.len();
        proof {
            lemma_offset_bound(all, i + 1);
            styles = styles.push(st);
        }
        out.push(Glyph { text, width, style: st });
        proof {
            assert forall|k: int| 0 <= k < i + 1 implies #[trigger] glyph_views(out@)[k] == (
                all[k],
                width_of(all[k]) as int,
                styles[k],
            ) by {
                if k < i {
                    assert(glyph_views(prev)[k] == (all[k], width_of(all[k]) as int, styles[k]));
                }
            }
        }
        offset = offset + n;
        i = i + 1;
    }
    assert(glyph_views(out@) =~= glyphs_of(s@, styles));
    assert(widths(glyph_views(out@)) =~= widths_of(s@)) by {
        assert forall|k: int| 0 <= k < out@.len() implies widths(glyph_views(out@))[k]
            == #[trigger] widths_of(s@)[k] by {
            assert(glyph_views(out@)[k] == glyphs_of(s@, styles)[k]);
        }
    }
    (out, Ghost(styles))
}

/// The sum of the first `n` widths.
pub open spec fn total_width(w: Seq<int>, n: int) -> int
    decreases n,
{
    if n <= 0 {
        0
    } else {
        total_width(w, n - 1) + w[n - 1]
    }
}

/// Whether the clusters from `i` on do not all end by column `max` if they are drawn from column `x`
/// on.
pub open spec fn overflows(w: Seq<int>, max: int, x: int, i: int) -> bool {
    x + total_width(w, w.len() as int) - total_width(w, i) > max
}

/// The number of clusters that an ellipsis at the start of a text stands for: the first one, if the
/// text is too long.
pub open spec fn lead_count(w: Seq<int>, max: int, x: int, truncate_start: bool) -> int {
    if truncate_start && overflows(w, max, x, 0) {
        1
    } else {
        0
    }
}

/// Whether there is an ellipsis at the end of a text: it is too long, also with the one at its start.
pub open spec fn cut_at_end(w: Seq<int>, max: int, x: int, lead: int, truncate_end: bool) -> bool {
    truncate_end && overflows(w, max, x + lead, lead)
}

/// The column by which the clusters must end: an ellipsis behind them needs room too.
pub open spec fn anchored_limit(
    w: Seq<int>,
    max: int,
    x: int,
    lead: int,
    truncate_end: bool,
) -> int {
    if cut_at_end(w, max, x, lead, truncate_end) {
        max - 1
    } else {
        max
    }
}

/// The writes of a text that must end by column `max`. If it is too long, a `…` stands for its first
/// cluster with `truncate_start`, and for what is missing at its end with `truncate_end`.
pub open spec fn anchored_writes(
    g: Seq<GlyphView>,
    x: int,
    y: int,
    max: int,
    truncate_start: bool,
    truncate_end: bool,
) -> Seq<WriteView> {
    let w = widths(g);
    let lead = lead_count(w, max, x, truncate_start);
    let limit = anchored_limit(w, max, x, lead, truncate_end);
    let end = forward_end(w, limit, x + lead, lead);
    (if lead > 0 {
        seq![WriteView::Symbol(x, y, "…"@)]
    } else {
        Seq::empty()
    }) + forward_writes(g, y, limit, x + lead, lead) + (if cut_at_end(w, max, x, lead, truncate_end)
        && end < max {
        seq![WriteView::Symbol(end, y, "…"@)]
    } else {
        Seq::empty()
    })
}

/// The cells after a text was drawn that can be cut at either end.
pub open spec fn anchored_drawn(
    cells: Map<(int, int), Cell>,
    g: Seq<GlyphView>,
    area: Rect,
    x: int,
    y: int,
    width: int,
    truncate_start: bool,
    truncate_end: bool,
) -> Map<(int, int), Cell> {
    if !area.holds(x, y) || width == 0 {
        cells
    } else {
        let ws = anchored_writes(
            g,
            x,
            y,
            text_limit(area, x, width),
            truncate_start,
            truncate_end,
        );
        all_written(area, cells, ws, ws.len() as int)
    }
}

/// The column of a write.
pub open spec fn write_column(w: WriteView) -> int {
    match w {
        WriteView::Glyph(x, _, _, _) => x,
        WriteView::Symbol(x, _, _) => x,
        WriteView::Reset(x, _) => x,
    }
}

/// Whether all writes are made from column `from` up to column `to`.
pub open spec fn writes_within(ws: Seq<WriteView>, from: int, to: int) -> bool {
    forall|i: int| 0 <= i < ws.len() ==> from <= write_column(#[trigger] ws[i]) < to
}

proof fn lemma_within_add(a: Seq<WriteView>, b: Seq<WriteView>, from: int, to: int)
    requires
        writes_within(a, from, to),
        writes_within(b, from, to),
    ensures
        writes_within(a + b, from, to),
{
    assert forall|i: int| 0 <= i < (a + b).len() implies from <= write_column(#[trigger] (a + b)[i])
        < to by {
        if i < a.len() {
            assert(from <= write_column(a[i]) < to);
        } else {
            assert(from <= write_column(b[i - a.len()]) < to);
        }
    }
}

proof fn lemma_forward_within(
    g: Seq<GlyphView>,
    y: int,
    max: int,
    x: int,
    i: int,
    from: int,
    to: int,
)
    requires
        from <= x,
        max <= to,
        forall|k: int| 0 <= k < g.len() ==> (#[trigger] g[k]).1 >= 0,
    ensures
        writes_within(forward_writes(g, y, max, x, i), from, to),
        x <= forward_end(widths(g), max, x, i),
        x <= max ==> forward_end(widths(g), max, x, i) <= max,
    decreases g.len() - i,
{
    if 0 <= i < g.len() {
        assert(widths(g)[i] == g[i].1);
        if g[i].1 == 0 {
            lemma_forward_within(g, y, max, x, i + 1, from, to);
        } else if g[i].1 <= max - x {
            lemma_forward_within(g, y, max, x + g[i].1, i + 1, from, to);
            lemma_within_add(
                glyph_writes(g[i], x, y),
                forward_writes(g, y, max, x + g[i].1, i + 1),
                from,
                to,
            );
        }
    }
}

/// A text that can be cut at either end never leaves the room that it has: nothing is drawn before
/// column `x`, nor from column `max` on.
pub proof fn law_anchored_text_stays_in_its_room(
    g: Seq<GlyphView>,
    x: int,
    y: int,
    max: int,
    truncate_start: bool,
    truncate_end: bool,
)
    requires
        x < max,
        forall|k: int| 0 <= k < g.len() ==> (#[trigger] g[k]).1 >= 0,
    ensures
        writes_within(anchored_writes(g, x, y, max, truncate_start, truncate_end), x, max),
{
    let w = widths(g);
    let lead = lead_count(w, max, x, truncate_start);
    let limit = anchored_limit(w, max, x, lead, truncate_end);
    let end = forward_end(w, limit, x + lead, lead);
    let head = if lead > 0 {
        seq![WriteView::Symbol(x, y, "…"@)]
    } else {
        Seq::empty()
    };
    let body = forward_writes(g, y, limit, x + lead, lead);
    let tail = if cut_at_end(w, max, x, lead, truncate_end) && end < max {
        seq![WriteView::Symbol(end, y, "…"@)]
    } else {
        Seq::empty()
    };
    lemma_forward_within(g, y, limit, x + lead, lead, x, max);
    lemma_within_add(head, body, x, max);
    lemma_within_add(head + body, tail, x, max);
}

proof fn lemma_forward_whole(w: Seq<int>, max: int, x: int, i: int)
    requires
        0 <= i <= w.len(),
        forall|k: int| 0 <= k < w.len() ==> #[trigger] w[k] >= 0,
        !overflows(w, max, x, i),
    ensures
        forward_end(w, max, x, i) == x + total_width(w, w.len() as int) - total_width(w, i),
    decreases w.len() - i,
{
    if i < w.len() {
        assert(total_width(w, i + 1) == total_width(w, i) + w[i]);
        lemma_total_width(w, i + 1, w.len() as int);
        lemma_forward_whole(w, max, x + w[i], i + 1);
    }
}

/// A text that has enough room is drawn from its first to its last cluster, without an ellipsis.
pub proof fn law_fitting_text_is_drawn_whole(
    g: Seq<GlyphView>,
    x: int,
    y: int,
    max: int,
    truncate_start: bool,
    truncate_end: bool,
)
    requires
        x + total_width(widths(g), g.len() as int) <= max,
        forall|k: int| 0 <= k < g.len() ==> (#[trigger] g[k]).1 >= 0,
    ensures
        anchored_writes(g, x, y, max, truncate_start, truncate_end) == forward_writes(
            g,
            y,
            max,
            x,
            0,
        ),
        forward_end(widths(g), max, x, 0) == x + total_width(widths(g), g.len() as int),
{
    assert forall|k: int| 0 <= k < widths(g).len() implies #[trigger] widths(g)[k] >= 0 by {
        assert(g[k].1 >= 0);
    }
    lemma_forward_whole(widths(g), max, x, 0);
    assert(anchored_writes(g, x, y, max, truncate_start, truncate_end) =~= forward_writes(
        g,
        y,
        max,
        x,
        0,
    ));
}

proof fn lemma_fit_add(area: Rect, a: Seq<WriteView>, b: Seq<WriteView>)
    requires
        writes_fit(area, a),
        writes_fit(area, b),
    ensures
        writes_fit(area, a + b),
{
    assert forall|i: int| 0 <= i < (a + b).len() implies write_fits(
        area,
        #[trigger] (a + b)[i],
    ) by {
        if i < a.len() {
            assert(write_fits(area, a[i]));
        } else {
            assert(write_fits(area, b[i - a.len()]));
        }
    }
}

proof fn lemma_fit_glyph(area: Rect, g: GlyphView, x: int, y: int)
    requires
        area.holds(x, y),
    ensures
        writes_fit(area, glyph_writes(g, x, y)),
{
}

proof fn lemma_fit_forward(area: Rect, g: Seq<GlyphView>, y: int, max: int, x: int, i: int)
    requires
        area.x <= x,
        max <= area.spec_right(),
        area.y <= y < area.spec_bottom(),
        forall|k: int| 0 <= k < g.len() ==> (#[trigger] g[k]).1 >= 0,
    ensures
        writes_fit(area, forward_writes(g, y, max, x, i)),
    decreases g.len() - i,
{
    if 0 <= i < g.len() {
        if g[i].1 == 0 {
            lemma_fit_forward(area, g, y, max, x, i + 1);
        } else if g[i].1 <= max - x {
            lemma_fit_forward(area, g, y, max, x + g[i].1, i + 1);
            lemma_fit_glyph(area, g[i], x, y);
            lemma_fit_add(
                area,
                glyph_writes(g[i], x, y),
                forward_writes(g, y, max, x + g[i].1, i + 1),
            );
        }
    }
}

proof fn lemma_fit_backward(area: Rect, g: Seq<GlyphView>, y: int, min: int, x: int, i: int)
    requires
        area.x <= min,
        x <= area.spec_right(),
        area.y <= y < area.spec_bottom(),
        i <= g.len(),
        forall|k: int| 0 <= k < g.len() ==> (#[trigger] g[k]).1 >= 0,
    ensures
        writes_fit(area, backward_writes(g, y, min, x, i)),
    decreases i,
{
    if i > 0 {
        let w = g[i - 1].1;
        if w == 0 {
            lemma_fit_backward(area, g, y, min, x, i - 1);
        } else if x - w >= min {
            lemma_fit_backward(area, g, y, min, x - w, i - 1);
            lemma_fit_glyph(area, g[i - 1], x - w, y);
            lemma_fit_add(
                area,
                glyph_writes(g[i - 1], x - w, y),
                backward_writes(g, y, min, x - w, i - 1),
            );
        }
    }
}

fn plan_cut_end(
    out: &mut Vec<CellWrite>,
    g: &Vec<Glyph>,
    content: usize,
    area: Rect,
    x: u16,
    y: u16,
    width: usize,
    ellipsis: bool,
) -> (end: u16)
    requires
        old(out)@.len() == 0,
        area.holds(x as int, y as int),
        width > 0,
        ({
            let max = text_limit(area, x as int, text_width(width as int, ellipsis));
            let e = forward_end(widths(glyph_views(g@)), max, x as int, 0);
            ellipsis && e - x < content ==> e < area.spec_right()
        }),
    ensures
        write_views(final(out)@) == cut_end_writes(
            glyph_views(g@),
            content as int,
            area,
            x as int,
            y as int,
            width as int,
            ellipsis,
        ),
        writes_fit(area, write_views(final(out)@)),
        end == forward_end(
            widths(glyph_views(g@)),
            text_limit(area, x as int, text_width(width as int, ellipsis)),
            x as int,
            0,
        ),
{
    let tw: usize = if ellipsis {
        width - 1
    } else {
        width
    };
    let limit: usize = tw.saturating_add(x as usize);
    let right: u16 = area.right();
    let max: u16 = if limit < right as usize {
        limit as u16
    } else {
        right
    };
    let ghost v = glyph_views(g@);
    proof {
        assert(max == text_limit(area, x as int, text_width(width as int, ellipsis)));
        assert(forall|k: int| 0 <= k < v.len() ==> (#[trigger] v[k]).1 >= 0);
        lemma_fit_forward(area, v, y as int, max as int, x as int, 0);
    }
    let end: u16 = plan_forward(out, g, y, max, x, 0);
    assert(write_views(out@) =~= forward_writes(v, y as int, max as int, x as int, 0));
    if ellipsis && ((end - x) as usize) < content {
        let ghost before = write_views(out@);
        push_write(out, CellWrite::Symbol { x: end, y, symbol: "…".to_owned() });
        proof {
            let tail = seq![WriteView::Symbol(end as int, y as int, "…"@)];
            assert(writes_fit(area, tail));
            lemma_fit_add(area, before, tail);
            assert(write_views(out@) =~= before + tail);
        }
    } else {
        assert(write_views(out@) =~= write_views(out@) + Seq::empty());
    }
    end
}

fn plan_cut_start(
    out: &mut Vec<CellWrite>,
    g: &Vec<Glyph>,
    content: usize,
    area: Rect,
    x: u16,
    y: u16,
    width: usize,
    ellipsis: bool,
) -> (end: u16)
    requires
        old(out)@.len() == 0,
        area.holds(x as int, y as int),
        width > 0,
        area.x + area.width <= u16::MAX,
        row_offset(area, y as int) + tail_end(
            content as int,
            area,
            x as int,
            width as int,
            ellipsis,
        ) >= 0,
    ensures
        write_views(final(out)@) == cut_start_writes(
            glyph_views(g@),
            content as int,
            area,
            x as int,
            y as int,
            width as int,
            ellipsis,
        ),
        writes_fit(area, write_views(final(out)@)),
        ({
            let e = tail_end(content as int, area, x as int, width as int, ellipsis);
            end == x + e - backward_start(
                widths(glyph_views(g@)),
                tail_min(content as int, x as int, width as int, ellipsis),
                e,
                g@.len() as int,
            )
        }),
{
    let tw: usize = if ellipsis {
        width - 1
    } else {
        width
    };
    let limit: usize = tw.saturating_add(x as usize);
    let right: u16 = area.right();
    let max: u16 = if limit < right as usize {
        limit as u16
    } else {
        right
    };
    let ghost v = glyph_views(g@);
    let cut: bool = ellipsis && content > tw;
    let min: u16 = if cut {
        x + 1
    } else {
        x
    };
    if cut {
        push_write(out, CellWrite::Symbol { x, y, symbol: "…".to_owned() });
    }
    let ghost head = write_views(out@);
    proof {
        assert(forall|k: int| 0 <= k < v.len() ==> (#[trigger] v[k]).1 >= 0);
        assert(writes_fit(area, head));
    }
    let missing: usize = tw.saturating_sub(content);
    let ghost e = tail_end(content as int, area, x as int, width as int, ellipsis);
    assert(e == max - missing);
    if missing > max as usize {
        // The text would end left of the screen, so none of it is drawn.
        proof {
            lemma_backward_none(v, y as int, min as int, e, v.len() as int);
            lemma_backward_stays(widths(v), min as int, e, v.len() as int);
            assert(write_views(out@) =~= head + Seq::empty());
        }
        return x;
    }
    let from: u16 = max - missing as u16;
    proof {
        lemma_fit_backward(area, v, y as int, min as int, from as int, v.len() as int);
        lemma_fit_add(
            area,
            head,
            backward_writes(v, y as int, min as int, from as int, v.len() as int),
        );
    }
    let first: u16 = plan_backward(out, g, y, min, from);
    x + (from - first)
}

proof fn lemma_backward_none(g: Seq<GlyphView>, y: int, min: int, x: int, i: int)
    requires
        x < 0 <= min,
        i <= g.len(),
        forall|k: int| 0 <= k < g.len() ==> (#[trigger] g[k]).1 >= 0,
    ensures
        backward_writes(g, y, min, x, i) == Seq::<WriteView>::empty(),
    decreases i,
{
    if i > 0 && g[i - 1].1 == 0 {
        lemma_backward_none(g, y, min, x, i - 1);
    }
}

proof fn lemma_backward_stays(w: Seq<int>, min: int, x: int, i: int)
    requires
        x < 0 <= min,
        i <= w.len(),
        forall|k: int| 0 <= k < w.len() ==> #[trigger] w[k] >= 0,
    ensures
        backward_start(w, min, x, i) == x,
    decreases i,
{
    if i > 0 && w[i - 1] == 0 {
        lemma_backward_stays(w, min, x, i - 1);
    }
}

/// Resets the cells of an area, and applies a style to them if there is one.
fn clear_cells(b: &mut ratatui::buffer::Buffer, area: Rect, style: Option<Style>)
    ensures
        surface_area(*final(b)) == surface_area(*old(b)),
        forall|x: int, y: int|
            #[trigger] surface_cells(*final(b))[(x, y)] == if in_both(area_of(*old(b)), area, x, y) {
                match style {
                    Some(s) => styled(blank_cell(), style_texts(s)),
                    None => blank_cell(),
                }
            } else {
                surface_cells(*old(b))[(x, y)]
            },
{
    let buffer = buffer_rect(b);
    let ghost cells = surface_cells(*b);
    let ghost cleared = match style {
        Some(s) => styled(blank_cell(), style_texts(s)),
        None => blank_cell(),
    };
    let mut x: u16 = area.left();
    while x < area.right()
        invariant
            area.x <= x,
            x <= area.spec_right() || x == area.x,
            buffer == area_of(*old(b)),
            surface_area(*b) == surface_area(*old(b)),
            cells == surface_cells(*old(b)),
            cleared == match style {
                Some(s) => styled(blank_cell(), style_texts(s)),
                None => blank_cell(),
            },
            forall|cx: int, cy: int|
                #[trigger] surface_cells(*b)[(cx, cy)] == if cx < x && in_both(buffer, area, cx, cy) {
                    cleared
                } else {
                    cells[(cx, cy)]
                },
        decreases area.spec_right() - x,
    {
        let mut y: u16 = area.top();
        while y < area.bottom()
            invariant
                area.x <= x < area.spec_right(),
                area.y <= y,
                y <= area.spec_bottom() || y == area.y,
                buffer == area_of(*old(b)),
                surface_area(*b) == surface_area(*old(b)),
                cells == surface_cells(*old(b)),
                cleared == match style {
                    Some(s) => styled(blank_cell(), style_texts(s)),
                    None => blank_cell(),
                },
                forall|cx: int, cy: int|
                    #[trigger] surface_cells(*b)[(cx, cy)] == if (cx < x || (cx == x && cy < y))
                        && in_both(buffer, area, cx, cy) {
                        cleared
                    } else {
                        cells[(cx, cy)]
                    },
            decreases area.spec_bottom() - y,
        {
            if rect_holds(buffer, x, y) {
                reset_cell(b, x, y);
                match style {
                    Some(s) => {
                        style_cell(b, x, y, s);
                    },
                    None => {},
                }
                assert(surface_cells(*b)[(x as int, y as int)] == cleared);
            }
            y = y + 1;
        }
        x = x + 1;
    }
}

/// Drawing into a buffer of terminal cells.
pub trait BufferExt {
    /// Whether a text can be drawn.
    spec fn takes_text(
        &self,
        x: u16,
        y: u16,
        string: Seq<char>,
        width: usize,
        ellipsis: bool,
        truncate_start: bool,
    ) -> bool;

    /// Resets the cells of an area and applies a style to them.
    fn clear_with(&mut self, area: Rect, style: Style);

    /// Resets the cells of an area.
    fn clear_area(&mut self, area: Rect);

    /// Whether a column and row lie in the buffer.
    fn in_bounds(&self, x: u16, y: u16) -> bool;

    /// Draws at most `width` columns of a text, as far as there is room in the row. With `ellipsis`
    /// a cut text gets a `…`; with `truncate_start` the start is cut in place of the end.
    fn set_string_truncated<F: Fn(usize) -> Style>(
        &mut self,
        x: u16,
        y: u16,
        string: &str,
        width: usize,
        style: F,
        ellipsis: bool,
        truncate_start: bool,
    ) -> (r: (u16, u16))
        requires
            old(self).takes_text(x, y, string@, width, ellipsis, truncate_start),
            forall|n: usize| call_requires(style, (n,)),
    ;

    /// Draws at most `width` columns of a text, as far as there is room in the row. A text that is
    /// cut gets a `…` in place of its first cluster with `truncate_start`, and one at its end with
    /// `truncate_end`.
    fn set_string_anchored<F: Fn(usize) -> Style>(
        &mut self,
        x: u16,
        y: u16,
        truncate_start: bool,
        truncate_end: bool,
        string: &str,
        width: usize,
        style: F,
    ) -> (r: (u16, u16))
        requires
            forall|n: usize| call_requires(style, (n,)),
    ;
}

/// Whether a cell lies both in the buffer and in a rectangle.
pub open spec fn in_both(buffer: Rect, area: Rect, x: int, y: int) -> bool {
    buffer.holds(x, y) && area.holds(x, y)
}

impl BufferExt for ratatui::buffer::Buffer {
    open spec fn takes_text(
        &self,
        x: u16,
        y: u16,
        string: Seq<char>,
        width: usize,
        ellipsis: bool,
        truncate_start: bool,
    ) -> bool {
        text_fits(
            string,
            area_of(*self),
            x as int,
            y as int,
            width as int,
            ellipsis,
            truncate_start,
        )
    }

    fn clear_with(&mut self, area: Rect, style: Style)
        ensures
            surface_area(*final(self)) == surface_area(*old(self)),
            forall|x: int, y: int|
                #[trigger] surface_cells(*final(self))[(x, y)] == if in_both(
                    area_of(*old(self)),
                    area,
                    x,
                    y,
                ) {
                    styled(blank_cell(), style_texts(style))
                } else {
                    surface_cells(*old(self))[(x, y)]
                },
    {
        clear_cells(self, area, Some(style));
    }

    fn clear_area(&mut self, area: Rect)
        ensures
            surface_area(*final(self)) == surface_area(*old(self)),
            forall|x: int, y: int|
                #[trigger] surface_cells(*final(self))[(x, y)] == if in_both(
                    area_of(*old(self)),
                    area,
                    x,
                    y,
                ) {
                    blank_cell()
                } else {
                    surface_cells(*old(self))[(x, y)]
                },
    {
        clear_cells(self, area, None);
    }

    fn in_bounds(&self, x: u16, y: u16) -> (r: bool)
        ensures
            r == area_of(*self).holds(x as int, y as int),
    {
        rect_holds(buffer_rect(self), x, y)
    }

    fn set_string_truncated<F: Fn(usize) -> Style>(
        &mut self,
        x: u16,
        y: u16,
        string: &str,
        width: usize,
        style: F,
        ellipsis: bool,
        truncate_start: bool,
    ) -> (r: (u16, u16))
        ensures
            surface_area(*final(self)) == surface_area(*old(self)),
            r.0 == text_end(
                string@,
                area_of(*old(self)),
                x as int,
                y as int,
                width as int,
                ellipsis,
                truncate_start,
            ),
            r.1 == y,
            exists|styles: Seq<Style>| #[trigger]
                styles_from(style, string@, styles) && surface_cells(*final(self)) == text_drawn(
                    surface_cells(*old(self)),
                    string@,
                    styles,
                    area_of(*old(self)),
                    x as int,
                    y as int,
                    width as int,
                    ellipsis,
                    truncate_start,
                ),
    {
        let area = buffer_rect(self);
        let (g, Ghost(styles)) = collect_glyphs(string, &style);
        assert(styles_from(style, string@, styles));
        if !rect_holds(area, x, y) || width == 0 {
            return (x, y);
        }
        let content: usize = str_width(string);
        let mut writes: Vec<CellWrite> = Vec::new();
        let end: u16 = if truncate_start {
            plan_cut_start(&mut writes, &g, content, area, x, y, width, ellipsis)
        } else {
            plan_cut_end(&mut writes, &g, content, area, x, y, width, ellipsis)
        };
        write_cells(self, &writes);
        (end, y)
    }

    fn set_string_anchored<F: Fn(usize) -> Style>(
        &mut self,
        x: u16,
        y: u16,
        truncate_start: bool,
        truncate_end: bool,
        string: &str,
        width: usize,
        style: F,
    ) -> (r: (u16, u16))
        ensures
            surface_area(*final(self)) == surface_area(*old(self)),
            r == (x, y),
            exists|styles: Seq<Style>| #[trigger]
                styles_from(style, string@, styles) && surface_cells(*final(self))
                    == anchored_drawn(
                    surface_cells(*old(self)),
                    glyphs_of(string@, styles),
                    area_of(*old(self)),
                    x as int,
                    y as int,
                    width as int,
                    truncate_start,
                    truncate_end,
                ),
    {
        let area = buffer_rect(self);
        let (g, Ghost(styles)) = collect_glyphs(string, &style);
        assert(styles_from(style, string@, styles));
        if !rect_holds(area, x, y) || width == 0 {
            return (x, y);
        }
        let mut writes: Vec<CellWrite> = Vec::new();
        plan_anchored(&mut writes, &g, area, x, y, width, truncate_start, truncate_end);
        write_cells(self, &writes);
        (x, y)
    }
}

proof fn lemma_total_width(w: Seq<int>, i: int, j: int)
    requires
        0 <= i <= j <= w.len(),
        forall|k: int| 0 <= k < w.len() ==> #[trigger] w[k] >= 0,
    ensures
        0 <= total_width(w, i) <= total_width(w, j),
    decreases j,
{
    if i < j {
        lemma_total_width(w, i, j - 1);
    } else if i > 0 {
        lemma_total_width(w, i - 1, i - 1);
    }
}

/// Whether the clusters from `from` on take more than `room` columns.
fn takes_more(g: &Vec<Glyph>, from: usize, room: usize) -> (r: bool)
    requires
        from <= g@.len(),
    ensures
        ({
            let w = widths(glyph_views(g@));
            r == (total_width(w, w.len() as int) - total_width(w, from as int) > room)
        }),
{
    let ghost w = widths(glyph_views(g@));
    assert(forall|k: int| 0 <= k < w.len() ==> #[trigger] w[k] == g@[k].width);
    let mut left: usize = room;
    let mut i: usize = from;
    while i < g.len()
        invariant
            from <= i <= g@.len(),
            w == widths(glyph_views(g@)),
            forall|k: int| 0 <= k < w.len() ==> #[trigger] w[k] == g@[k].width,
            left == room - (total_width(w, i as int) - total_width(w, from as int)),
        decreases g@.len() - i,
    {
        let n: usize = g[i].width;
        proof {
            assert(w[i as int] == n);
            assert(total_width(w, i + 1) == total_width(w, i as int) + n);
            lemma_total_width(w, i + 1, w.len() as int);
        }
        if n > left {
            return true;
        }
        left = left - n;
        i = i + 1;
    }
    false
}

fn plan_anchored(
    out: &mut Vec<CellWrite>,
    g: &Vec<Glyph>,
    area: Rect,
    x: u16,
    y: u16,
    width: usize,
    truncate_start: bool,
    truncate_end: bool,
)
    requires
        old(out)@.len() == 0,
        area.holds(x as int, y as int),
        width > 0,
    ensures
        write_views(final(out)@) == anchored_writes(
            glyph_views(g@),
            x as int,
            y as int,
            text_limit(area, x as int, width as int),
            truncate_start,
            truncate_end,
        ),
        writes_fit(area, write_views(final(out)@)),
{
    let ghost v = glyph_views(g@);
    let ghost w = widths(v);
    let end_column: usize = width.saturating_add(x as usize);
    let right: u16 = area.right();
    let max: u16 = if end_column < right as usize {
        end_column as u16
    } else {
        right
    };
    proof {
        assert(max == text_limit(area, x as int, width as int));
        assert(forall|k: int| 0 <= k < v.len() ==> (#[trigger] v[k]).1 >= 0);
        assert(forall|k: int| 0 <= k < w.len() ==> #[trigger] w[k] == g@[k].width);
        assert(write_views(out@) =~= Seq::empty());
    }
    let lead: usize = if truncate_start && takes_more(g, 0, (max - x) as usize) {
        1
    } else {
        0
    };
    let cut: bool = if !truncate_end {
        false
    } else {
        takes_more(g, lead, (max - x) as usize - lead)
    };
    if lead > 0 {
        push_write(out, CellWrite::Symbol { x, y, symbol: "…".to_owned() });
    }
    let ghost head = write_views(out@);
    let at: u16 = x + lead as u16;
    let limit: u16 = if cut {
        max - 1
    } else {
        max
    };
    proof {
        assert(lead == lead_count(w, max as int, x as int, truncate_start));
        assert(cut == cut_at_end(w, max as int, x as int, lead as int, truncate_end));
        assert(writes_fit(area, head));
        lemma_fit_forward(area, v, y as int, limit as int, at as int, lead as int);
        lemma_fit_add(area, head, forward_writes(v, y as int, limit as int, at as int, lead as int));
    }
    let end: u16 = plan_forward(out, g, y, limit, at, lead);
    if cut && end < max {
        let ghost before = write_views(out@);
        push_write(out, CellWrite::Symbol { x: end, y, symbol: "…".to_owned() });
        proof {
            let tail = seq![WriteView::Symbol(end as int, y as int, "…"@)];
            assert(writes_fit(area, tail));
            lemma_fit_add(area, before, tail);
            assert(write_views(out@) =~= before + tail);
        }
    } else {
        assert(write_views(out@) =~= write_views(out@) + Seq::empty());
    }
}

/// Like `BufferExt::set_string_truncated`, for any text and place: `None`, with nothing drawn, if
/// the text does not fit there.
pub fn try_set_string_truncated(
    b: &mut ratatui::buffer::Buffer,
    x: u16,
    y: u16,
    string: &str,
    width: usize,
    style: Style,
    ellipsis: bool,
    truncate_start: bool,
) -> (r: Option<(u16, u16)>)
    ensures
        surface_area(*final(b)) == surface_area(*old(b)),
        r is Some <==> text_fits(
            string@,
            area_of(*old(b)),
            x as int,
            y as int,
            width as int,
            ellipsis,
            truncate_start,
        ),
        match r {
            Some(end) => {
                &&& end.0 == text_end(
                    string@,
                    area_of(*old(b)),
                    x as int,
                    y as int,
                    width as int,
                    ellipsis,
                    truncate_start,
                )
                &&& end.1 == y
                &&& surface_cells(*final(b)) == text_drawn(
                    surface_cells(*old(b)),
                    string@,
                    Seq::new(graphemes_of(string@).len(), |i: int| style),
                    area_of(*old(b)),
                    x as int,
                    y as int,
                    width as int,
                    ellipsis,
                    truncate_start,
                )
            },
            None => surface_cells(*final(b)) == surface_cells(*old(b)),
        },
{
    let area = buffer_rect(b);
    let same = |n: usize| -> (s: Style)
        ensures
            s == style,
        { style };
    if rect_holds(area, x, y) && width > 0 {
        let (g, Ghost(styles)) = collect_glyphs(string, &same);
        let content: usize = str_width(string);
        if !text_would_fit(&g, content, area, x, y, width, ellipsis, truncate_start) {
            return None;
        }
    }
    let r = b.set_string_truncated(x, y, string, width, same, ellipsis, truncate_start);
    proof {
        let styles = choose|styles: Seq<Style>| #[trigger]
            styles_from(same, string@, styles) && surface_cells(*b) == text_drawn(
                surface_cells(*old(b)),
                string@,
                styles,
                area,
                x as int,
                y as int,
                width as int,
                ellipsis,
                truncate_start,
            );
        assert(styles =~= Seq::new(graphemes_of(string@).len(), |i: int| style));
    }
    Some(r)
}

fn text_would_fit(
    g: &Vec<Glyph>,
    content: usize,
    area: Rect,
    x: u16,
    y: u16,
    width: usize,
    ellipsis: bool,
    truncate_start: bool,
) -> (r: bool)
    requires
        area.holds(x as int, y as int),
        width > 0,
    ensures
        r == if !truncate_start {
            let max = text_limit(area, x as int, text_width(width as int, ellipsis));
            let end = forward_end(widths(glyph_views(g@)), max, x as int, 0);
            ellipsis && end - x < content ==> end < area.spec_right()
        } else {
            let end = tail_end(content as int, area, x as int, width as int, ellipsis);
            &&& area.x + area.width <= u16::MAX
            &&& row_offset(area, y as int) + end >= 0
            &&& backward_fits(
                widths(glyph_views(g@)),
                row_offset(area, y as int),
                tail_min(content as int, x as int, width as int, ellipsis),
                end,
                g@.len() as int,
            )
        },
{
    let tw: usize = if ellipsis {
        width - 1
    } else {
        width
    };
    let limit: usize = tw.saturating_add(x as usize);
    let right: u16 = area.right();
    let max: u16 = if limit < right as usize {
        limit as u16
    } else {
        right
    };
    if !truncate_start {
        let mut scratch: Vec<CellWrite> = Vec::new();
        let end: u16 = plan_forward(&mut scratch, g, y, max, x, 0);
        return !(ellipsis && ((end - x) as usize) < content) || end < right;
    }
    if area.width > u16::MAX - area.x {
        return false;
    }
    let missing: usize = tw.saturating_sub(content);
    let min: u16 = if ellipsis && content > tw {
        x + 1
    } else {
        x
    };
    assert((y - area.y) * area.width <= 65535 * 65535) by (nonlinear_arith)
        requires
            0 <= y - area.y <= 65535,
            0 <= area.width <= 65535,
    ;
    assert(0 <= (y - area.y) * area.width) by (nonlinear_arith)
        requires
            0 <= y - area.y,
            0 <= area.width,
    ;
    let before: u32 = (y - area.y) as u32 * area.width as u32;
    let span: u64 = before as u64 + (max - area.x) as u64;
    if missing as u64 > span {
        return false;
    }
    check_backward_at(g, before, area.x, min, max, missing)
}

/// Whether the clusters drawn right to left can be placed; they end `missing` columns before `max`,
/// where the first cell of the row has the number `before` and the column `left`.
fn check_backward_at(g: &Vec<Glyph>, before: u32, left: u16, min: u16, max: u16, missing: usize) -> (r:
    bool)
    requires
        left <= min,
        left <= max,
        missing <= before + (max - left),
    ensures
        r == backward_fits(
            widths(glyph_views(g@)),
            before - left,
            min as int,
            max - missing,
            g@.len() as int,
        ),
{
    let ghost w = widths(glyph_views(g@));
    let ghost end = max - missing;
    // The number of the cell at which the next cluster ends.
    let mut at: u64 = before as u64 + (max - left) as u64 - missing as u64;
    let first: u64 = before as u64 + (min - left) as u64;
    let mut i: usize = g.len();
    while i > 0
        invariant
            i <= g@.len(),
            w == widths(glyph_views(g@)),
            end == max - missing,
            first == before + (min - left),
            left <= min,
            at <= before + 65535,
            backward_fits(w, before - left, min as int, end, g@.len() as int) == backward_fits(
                w,
                before - left,
                min as int,
                at - before + left,
                i as int,
            ),
        decreases i,
    {
        let k: usize = i - 1;
        let n: usize = g[k].width;
        assert(w[k as int] == n);
        if n > 0 {
            if n as u64 > at {
                return false;
            }
            if at - (n as u64) < first {
                return true;
            }
            at = at - n as u64;
        }
        i = k;
    }
    true
}

/// A style leaves the symbol of a cell alone, gives it the colours that it has and no others, and adds
/// and takes away its modifiers; taking away counts more.
pub proof fn law_style_of_a_cell(c: Cell, s: StyleTexts, bit: u16)
    ensures
        styled(c, s).0 == c.0,
        s.0 matches Some(fg) ==> styled(c, s).1 == fg,
        s.0 is None ==> styled(c, s).1 == c.1,
        s.1 matches Some(bg) ==> styled(c, s).2 == bg,
        s.1 is None ==> styled(c, s).2 == c.2,
        s.2 matches Some(line) ==> styled(c, s).3 == line,
        s.2 is None ==> styled(c, s).3 == c.3,
        s.4 & bit == bit ==> styled(c, s).4 & bit == 0,
        s.4 & bit == 0 && s.3 & bit == bit ==> styled(c, s).4 & bit == bit,
        s.4 & bit == 0 && s.3 & bit == 0 ==> styled(c, s).4 & bit == c.4 & bit,
{
    let (m, add, sub) = (c.4, s.3, s.4);
    assert(sub & bit == bit ==> ((m | add) & !sub) & bit == 0) by (bit_vector);
    assert(sub & bit == 0 && add & bit == bit ==> ((m | add) & !sub) & bit == bit) by (bit_vector);
    assert(sub & bit == 0 && add & bit == 0 ==> ((m | add) & !sub) & bit == m & bit) by (bit_vector);
}

/// A write changes the cell that it names and no other one. A symbol replaces the one that is there
/// and leaves colours and modifiers alone; a reset leaves nothing.
pub proof fn law_write_changes_one_cell(
    area: Rect,
    cells: Map<(int, int), Cell>,
    x: int,
    y: int,
    symbol: Seq<char>,
    style: Style,
    p: (int, int),
)
    requires
        area.holds(x, y),
    ensures
        p != (x, y) ==> written(area, cells, WriteView::Glyph(x, y, symbol, style))[p] == cells[p],
        p != (x, y) ==> written(area, cells, WriteView::Symbol(x, y, symbol))[p] == cells[p],
        p != (x, y) ==> written(area, cells, WriteView::Reset(x, y))[p] == cells[p],
        written(area, cells, WriteView::Glyph(x, y, symbol, style))[(x, y)].0 == symbol,
        style.fg matches Some(c) ==> written(area, cells, WriteView::Glyph(x, y, symbol, style))[(x, y)].1
            == color_name(to_terminal(c)),
        style.bg matches Some(c) ==> written(area, cells, WriteView::Glyph(x, y, symbol, style))[(x, y)].2
            == color_name(to_terminal(c)),
        written(area, cells, WriteView::Symbol(x, y, symbol))[(x, y)] == (
            symbol,
            cells[(x, y)].1,
            cells[(x, y)].2,
            cells[(x, y)].3,
            cells[(x, y)].4,
        ),
        written(area, cells, WriteView::Reset(x, y))[(x, y)] == (
            " "@,
            "reset"@,
            "reset"@,
            "reset"@,
            0u16,
        ),
{
}

/// A reset outside of the buffer does nothing.
pub proof fn law_reset_outside_does_nothing(area: Rect, cells: Map<(int, int), Cell>, x: int, y: int)
    requires
        !area.holds(x, y),
    ensures
        written(area, cells, WriteView::Reset(x, y)) == cells,
{
}

/// A cluster takes as many cells as it has columns: the first one shows it, and the others are cleared.
pub proof fn law_wide_cluster_clears_its_cells(g: GlyphView, x: int, y: int, k: int)
    requires
        g.1 > 0,
    ensures
        glyph_writes(g, x, y).len() == g.1,
        glyph_writes(g, x, y)[0] == WriteView::Glyph(x, y, g.0, g.2),
        0 < k < g.1 ==> glyph_writes(g, x, y)[k] == WriteView::Reset(x + k, y),
{
}

/// A text that has room is drawn cluster by cluster: each one stands where the widths of those before
/// it add up to, in its own style. Clusters without a width are left out.
pub proof fn law_clusters_stand_behind_each_other(
    g: Seq<GlyphView>,
    y: int,
    max: int,
    x: int,
    i: int,
    k: int,
)
    requires
        0 <= i <= k < g.len(),
        forall|m: int| 0 <= m < g.len() ==> (#[trigger] g[m]).1 >= 0,
        g[k].1 > 0,
        x + total_width(widths(g), k + 1) - total_width(widths(g), i) <= max,
    ensures
        forward_writes(g, y, max, x, i).contains(
            WriteView::Glyph(
                x + total_width(widths(g), k) - total_width(widths(g), i),
                y,
                g[k].0,
                g[k].2,
            ),
        ),
    decreases k - i,
{
    let w = widths(g);
    let at = x + total_width(w, k) - total_width(w, i);
    let wanted = WriteView::Glyph(at, y, g[k].0, g[k].2);
    let all = forward_writes(g, y, max, x, i);
    assert(w[i] == g[i].1);
    assert(w[k] == g[k].1);
    assert forall|m: int| 0 <= m < w.len() implies #[trigger] w[m] >= 0 by {
        assert(g[m].1 >= 0);
    }
    assert(total_width(w, i + 1) == total_width(w, i) + w[i]);
    lemma_total_width(w, i + 1, k + 1);
    if i == k {
        assert(all[0] == wanted);
    } else {
        law_clusters_stand_behind_each_other(g, y, max, x + g[i].1, i + 1, k);
        let rest = forward_writes(g, y, max, x + g[i].1, i + 1);
        let m = choose|m: int| 0 <= m < rest.len() && rest[m] == wanted;
        if g[i].1 > 0 {
            assert(all[g[i].1 + m] == wanted);
        }
    }
}

/// A text whose start is cut is drawn from its end: each cluster stands as far before the end as the
/// widths of it and of those behind it add up to, in its own style.
pub proof fn law_clusters_stand_before_the_end(
    g: Seq<GlyphView>,
    y: int,
    min: int,
    end: int,
    i: int,
    k: int,
)
    requires
        0 <= k < i <= g.len(),
        forall|m: int| 0 <= m < g.len() ==> (#[trigger] g[m]).1 >= 0,
        g[k].1 > 0,
        end - (total_width(widths(g), i) - total_width(widths(g), k)) >= min,
    ensures
        backward_writes(g, y, min, end, i).contains(
            WriteView::Glyph(
                end - (total_width(widths(g), i) - total_width(widths(g), k)),
                y,
                g[k].0,
                g[k].2,
            ),
        ),
    decreases i,
{
    let w = widths(g);
    let wanted = WriteView::Glyph(end - (total_width(w, i) - total_width(w, k)), y, g[k].0, g[k].2);
    let all = backward_writes(g, y, min, end, i);
    let width = g[i - 1].1;
    assert(w[i - 1] == width);
    assert forall|m: int| 0 <= m < w.len() implies #[trigger] w[m] >= 0 by {
        assert(g[m].1 >= 0);
    }
    lemma_total_width(w, k, i - 1);
    if i - 1 == k {
        assert(all[0] == wanted);
    } else {
        law_clusters_stand_before_the_end(g, y, min, end - width, i - 1, k);
        let rest = backward_writes(g, y, min, end - width, i - 1);
        let m = choose|m: int| 0 <= m < rest.len() && rest[m] == wanted;
        if width > 0 {
            assert(all[width + m] == wanted);
        }
    }
}

/// A text that is cut at its end gets an ellipsis right behind what is drawn of it, if one is wanted and
/// only if it is cut; nothing is drawn from the column `x + width` on.
pub proof fn law_cut_text_gets_an_ellipsis(
    g: Seq<GlyphView>,
    content_width: int,
    area: Rect,
    x: int,
    y: int,
    width: int,
    ellipsis: bool,
)
    requires
        area.holds(x, y),
        width > 0,
        forall|k: int| 0 <= k < g.len() ==> (#[trigger] g[k]).1 >= 0,
    ensures
        ({
            let ws = cut_end_writes(g, content_width, area, x, y, width, ellipsis);
            let last = ws[ws.len() - 1];
            &&& writes_within(ws, x, x + width)
            &&& !ellipsis ==> ws == forward_writes(g, y, min_int(area.spec_right(), x + width), x, 0)
            &&& ellipsis && content_width > width - 1 ==> ws.len() > 0 && last is Symbol && last->Symbol_2
                == "…"@ && x <= last->Symbol_0 <= x + width - 1
            &&& ellipsis && total_width(widths(g), g.len() as int) == content_width && content_width
                <= width - 1 && x + content_width <= area.spec_right() ==> ws == forward_writes(
                g,
                y,
                min_int(area.spec_right(), x + width - 1),
                x,
                0,
            )
        }),
{
    let w = widths(g);
    let max = text_limit(area, x, text_width(width, ellipsis));
    let end = forward_end(w, max, x, 0);
    let body = forward_writes(g, y, max, x, 0);
    assert forall|k: int| 0 <= k < w.len() implies #[trigger] w[k] >= 0 by {
        assert(g[k].1 >= 0);
    }
    lemma_forward_within(g, y, max, x, 0, x, x + width);
    let tail = if ellipsis && end - x < content_width {
        seq![WriteView::Symbol(end, y, "…"@)]
    } else {
        Seq::empty()
    };
    lemma_within_add(body, tail, x, x + width);
    if !(ellipsis && end - x < content_width) {
        assert(body + tail =~= body);
    }
    if total_width(w, g.len() as int) == content_width && x + content_width <= max {
        lemma_forward_whole(w, max, x, 0);
        assert(body + tail =~= body);
    }
}

/// A text whose start is cut begins with the ellipsis, if one is wanted, and only if it is cut.
pub proof fn law_cut_start_gets_an_ellipsis(
    g: Seq<GlyphView>,
    content_width: int,
    area: Rect,
    x: int,
    y: int,
    width: int,
    ellipsis: bool,
)
    ensures
        ({
            let ws = cut_start_writes(g, content_width, area, x, y, width, ellipsis);
            &&& ellipsis && content_width > width - 1 ==> ws.len() > 0 && ws[0] == WriteView::Symbol(
                x,
                y,
                "…"@,
            )
            &&& !ellipsis || content_width <= width - 1 ==> ws == backward_writes(
                g,
                y,
                x,
                tail_end(content_width, area, x, width, ellipsis),
                g.len() as int,
            )
        }),
{
    if !(ellipsis && content_width > width - 1) {
        assert(cut_start_writes(g, content_width, area, x, y, width, ellipsis) =~= backward_writes(
            g,
            y,
            x,
            tail_end(content_width, area, x, width, ellipsis),
            g.len() as int,
        ));
    }
}

/// A text with its start cut ends where its room does; one that is shorter ends where it would if it
/// were drawn from the first column on.
pub proof fn law_end_of_a_text(content_width: int, area: Rect, x: int, width: int)
    requires
        0 <= content_width,
        0 < width,
        x + width <= area.spec_right(),
    ensures
        content_width <= width ==> tail_end(content_width, area, x, width, false) == x + content_width,
        content_width > width ==> tail_end(content_width, area, x, width, false) == x + width,
        content_width <= width - 1 ==> tail_end(content_width, area, x, width, true) == x + content_width,
        content_width > width - 1 ==> tail_end(content_width, area, x, width, true) == x + width - 1,
{
}

/// Applying a style to a rectangle changes just the cells of the buffer that lie in it, and no symbol.
pub proof fn law_restyle_keeps_symbols(
    area: Rect,
    cells: Map<(int, int), Cell>,
    rect: Rect,
    style: StyleTexts,
    p: (int, int),
)
    requires
        cells.contains_key(p),
    ensures
        restyled(area, cells, rect, style).dom() == cells.dom(),
        restyled(area, cells, rect, style)[p].0 == cells[p].0,
        !(area.holds(p.0, p.1) && rect.holds(p.0, p.1)) ==> restyled(area, cells, rect, style)[p] == cells[p],
        area.holds(p.0, p.1) && rect.holds(p.0, p.1) ==> restyled(area, cells, rect, style)[p] == styled(
            cells[p],
            style,
        ),
{
    assert(restyled(area, cells, rect, style).dom() =~= cells.dom());
}

/// A style is asked for each cluster by the number of bytes before it.
pub proof fn law_style_is_asked_by_byte(clusters: Seq<Seq<char>>, i: int)
    requires
        0 <= i < clusters.len(),
    ensures
        cluster_offset(clusters, 0) == 0,
        cluster_offset(clusters, i + 1) - cluster_offset(clusters, i) == vstd::utf8::encode_utf8(
            clusters[i],
        ).len(),
{
}

/// A text that is too long begins with an ellipsis if its start may be cut, and ends with one if its end
/// may be and there is room; one that may not be cut gets none.
pub proof fn law_anchored_text_gets_an_ellipsis(
    g: Seq<GlyphView>,
    x: int,
    y: int,
    max: int,
    truncate_end: bool,
)
    requires
        x < max,
        x + total_width(widths(g), g.len() as int) > max,
        forall|k: int| 0 <= k < g.len() ==> (#[trigger] g[k]).1 >= 0,
    ensures
        anchored_writes(g, x, y, max, true, truncate_end)[0] == WriteView::Symbol(x, y, "…"@),
        ({
            let ws = anchored_writes(g, x, y, max, false, true);
            let last = ws[ws.len() - 1];
            ws.len() > 0 && last is Symbol && last->Symbol_2 == "…"@ && last->Symbol_1 == y && x
                <= last->Symbol_0 < max
        }),
        anchored_writes(g, x, y, max, false, false) == forward_writes(g, y, max, x, 0),
{
    let w = widths(g);
    lemma_forward_within(g, y, max - 1, x, 0, x, max);
    let none: Seq<WriteView> = Seq::empty();
    assert(none + forward_writes(g, y, max, x, 0) + none =~= forward_writes(g, y, max, x, 0));
    assert(anchored_writes(g, x, y, max, false, false) =~= forward_writes(g, y, max, x, 0));
}

proof fn lemma_backward_whole(w: Seq<int>, min: int, x: int, i: int)
    requires
        0 <= i <= w.len(),
        forall|k: int| 0 <= k < w.len() ==> #[trigger] w[k] >= 0,
        x - total_width(w, i) >= min,
    ensures
        backward_start(w, min, x, i) == x - total_width(w, i),
    decreases i,
{
    if i > 0 {
        assert(w[i - 1] >= 0);
        lemma_total_width(w, i - 1, i - 1);
        lemma_backward_whole(w, min, x - w[i - 1], i - 1);
    }
}

/// Behind a text that fits comes the column that its width leads to, whichever end would be cut.
pub proof fn law_column_behind_a_text(s: Seq<char>, area: Rect, x: int, y: int, width: int)
    requires
        area.holds(x, y),
        width > 0,
        x + width <= area.spec_right(),
        total_width(widths_of(s), widths_of(s).len() as int) == width_of(s),
        width_of(s) <= width,
    ensures
        text_end(s, area, x, y, width, false, false) == x + width_of(s),
        text_end(s, area, x, y, width, false, true) == x + width_of(s),
{
    let w = widths_of(s);
    assert forall|k: int| 0 <= k < w.len() implies #[trigger] w[k] >= 0 by {}
    lemma_forward_whole(w, text_limit(area, x, width), x, 0);
    lemma_backward_whole(w, x, x + width_of(s), w.len() as int);
}

/// Where nothing can be drawn, the column stays.
pub proof fn law_no_room_no_text(s: Seq<char>, area: Rect, x: int, y: int, width: int, cut: bool)
    requires
        !area.holds(x, y) || width == 0,
    ensures
        text_end(s, area, x, y, width, cut, cut) == x,
{
}

} // verus!
