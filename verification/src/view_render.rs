//! What is drawn around and over the text of a view.
use crate::config::DiagnosticFilter;
use crate::config::InlineDiagnosticsConfig;
use crate::config::Severity;
use crate::draw::draw_views;
use crate::draw::piece_views;
use crate::draw::push_draw;
use crate::draw::push_piece;
use crate::draw::DrawOp;
use crate::draw::DrawView;
use crate::draw::Piece;
use crate::graphics::clipped_bottom;
use crate::graphics::clipped_left;
use crate::graphics::clipped_top;
use crate::graphics::min_int;
use crate::graphics::min_u16;
use crate::graphics::monus;
use crate::graphics::patched;
use crate::graphics::plain_style;
use crate::graphics::reset_style;
use crate::graphics::Color;
use crate::graphics::Rect;
use crate::graphics::RectExt;
use crate::graphics::Style;
use crate::highlights::Diagnostic;
use crate::highlights::NumberOrString;
use crate::selection::Range;
use crate::selection::Selection;
use crate::strings::decimal;
use crate::strings::decimal_digits;
use crate::strings::digits_value;
use crate::strings::law_decimal_reads_back;
use crate::text::breaks;
use crate::text::Rope;
use crate::theme::entries_of;
use crate::theme::exact;
use crate::theme::nearest;
use crate::theme::style_of;
use crate::theme::Theme;
use vstd::prelude::*;
use vstd::string::*;

verus! {

/// What a view is drawn with.
#[derive(Debug, Clone, Copy)]
pub struct ViewFacts {
    /// The area of all views together.
    pub viewport: Rect,
    /// The area of the view.
    pub area: Rect,
    /// The width of the gutters; they are left out if it is zero.
    pub gutter_offset: u16,
    pub focused: bool,
    pub terminal_focused: bool,
    pub cursorline: bool,
    pub cursorcolumn: bool,
    /// Whether brackets are coloured for the language, if that is configured.
    pub language_rainbow: Option<bool>,
    pub rainbow_brackets: bool,
    pub inline_diagnostics: InlineDiagnosticsConfig,
    pub end_of_line_diagnostics: DiagnosticFilter,
}

/// Which parts of a view are drawn.
#[derive(Debug, Clone, Copy, PartialEq, Eq, Structural)]
pub struct ViewPlan {
    pub cursorline: bool,
    pub cursorcolumn: bool,
    pub rainbow: bool,
    pub gutter: bool,
    /// Whether the gutters show the view as the focused one.
    pub gutter_focused: bool,
    /// Whether the cursor is part of the drawing.
    pub cursor: bool,
    /// Whether a line is drawn to the right of the view.
    pub right_border: bool,
    /// Whether the diagnostics at the cursor are shown in a corner, since they are shown nowhere
    /// else.
    pub diagnostics_panel: bool,
    pub statusline_area: Rect,
}

/// Decides which parts of a view are drawn.
pub fn render_view(facts: ViewFacts) -> (r: ViewPlan)
    ensures
        r == plan_of(facts),
{
    ViewPlan {
        cursorline: facts.focused && facts.cursorline,
        cursorcolumn: facts.focused && facts.cursorcolumn,
        rainbow: match facts.language_rainbow {
            Some(on) => on,
            None => facts.rainbow_brackets,
        },
        gutter: facts.gutter_offset != 0,
        gutter_focused: facts.focused && facts.terminal_focused,
        cursor: facts.focused,
        right_border: facts.viewport.right() != facts.area.right(),
        diagnostics_panel: facts.inline_diagnostics.disabled() && facts.end_of_line_diagnostics
            == DiagnosticFilter::Disable,
        statusline_area: facts.area.clip_top(facts.area.height.saturating_sub(1)).clip_bottom(1),
    }
}

/// The line to the right of a view, from row `y` on.
pub open spec fn border_from(area: Rect, style: Style, y: int) -> Seq<DrawView>
    decreases area.spec_bottom() - y,
{
    if y >= area.spec_bottom() {
        Seq::empty()
    } else {
        seq![DrawView::Symbol(area.spec_right() as u16, y as u16, "│"@, style)] + border_from(
            area,
            style,
            y + 1,
        )
    }
}

/// Draws the line to the right of a view.
pub fn render_right_border(area: Rect, theme: &Theme) -> (r: Vec<DrawOp>)
    ensures
        draw_views(r@) == border_from(
            area,
            style_of(entries_of(*theme), "ui.window"@),
            area.y as int,
        ),
{
    let style = theme.get("ui.window");
    let mut out: Vec<DrawOp> = Vec::new();
    let ghost all = border_from(area, style, area.y as int);
    let mut y: u16 = area.top();
    assert(draw_views(out@) + border_from(area, style, y as int) =~= all);
    while y < area.bottom()
        invariant
            area.y <= y <= area.spec_bottom(),
            draw_views(out@) + border_from(area, style, y as int) == all,
        decreases area.spec_bottom() - y,
    {
        let ghost before = draw_views(out@);
        push_draw(&mut out, DrawOp::Symbol { x: area.right(), y, symbol: "│".to_owned(), style });
        assert(draw_views(out@) + border_from(area, style, y + 1) =~= before + border_from(
            area,
            style,
            y as int,
        ));
        y = y + 1;
    }
    assert(draw_views(out@) =~= all);
    out
}

/// The column of a ruler, for a view that is scrolled by `offset` columns; `None` if it cannot be
/// seen.
pub open spec fn ruler_area(ruler: u16, offset: u16, viewport: Rect) -> Option<Rect> {
    let d = ruler - 1 - offset;
    if 0 <= d < viewport.width {
        let left = clipped_left(viewport, d as u16);
        Some(Rect::spec_new(left.x, left.y, 1, left.height))
    } else {
        None
    }
}

/// The first `n` rulers.
pub open spec fn ruler_draws(
    rulers: Seq<u16>,
    offset: u16,
    viewport: Rect,
    style: Style,
    n: int,
) -> Seq<DrawView>
    decreases n,
{
    if n <= 0 {
        Seq::empty()
    } else {
        let before = ruler_draws(rulers, offset, viewport, style, n - 1);
        match ruler_area(rulers[n - 1], offset, viewport) {
            Some(area) => before.push(DrawView::Restyle(area, style)),
            None => before,
        }
    }
}

/// The style of rulers.
pub open spec fn ruler_style(theme: Theme) -> Style {
    let e = entries_of(theme);
    match nearest(e, "ui.virtual.ruler"@) {
        Some(i) => e[i as int].1,
        None => Style { bg: Some(Color::Red), ..plain_style() },
    }
}

/// Draws the rulers: those of the language, or else those of the configuration. The view is
/// scrolled by `horizontal_offset` columns.
pub fn render_rulers(
    editor_rulers: &Vec<u16>,
    language_rulers: Option<&Vec<u16>>,
    horizontal_offset: usize,
    viewport: Rect,
    theme: &Theme,
) -> (r: Vec<DrawOp>)
    requires
        (horizontal_offset as u16) < u16::MAX,
    ensures
        ({
            let rulers = match language_rulers {
                Some(v) => v@,
                None => editor_rulers@,
            };
            draw_views(r@) == ruler_draws(
                rulers,
                horizontal_offset as u16,
                viewport,
                ruler_style(*theme),
                rulers.len() as int,
            )
        }),
{
    let style = match theme.try_get("ui.virtual.ruler") {
        Some(s) => s,
        None => Style::default().bg(Color::Red),
    };
    let rulers = match language_rulers {
        Some(v) => v,
        None => editor_rulers,
    };
    let skipped: u16 = 1 + horizontal_offset as u16;
    let mut out: Vec<DrawOp> = Vec::new();
    assert(draw_views(out@) =~= Seq::empty());
    let mut i: usize = 0;
    while i < rulers.len()
        invariant
            i <= rulers@.len(),
            skipped == 1 + horizontal_offset as u16,
            draw_views(out@) == ruler_draws(
                rulers@,
                horizontal_offset as u16,
                viewport,
                style,
                i as int,
            ),
        decreases rulers@.len() - i,
    {
        let ruler: u16 = rulers[i];
        if ruler >= skipped && ruler - skipped < viewport.width {
            let area = viewport.clip_left(ruler - skipped).with_width(1);
            push_draw(&mut out, DrawOp::Restyle { area, style });
        }
        i = i + 1;
    }
    out
}

/// A line of the document as it is drawn.
#[derive(Debug, Clone, Copy, PartialEq, Eq, Structural)]
pub struct LinePos {
    /// Whether this is the first drawn line of the document's line.
    pub first_visual_line: bool,
    pub doc_line: usize,
    /// The row on the screen.
    pub visual_line: u16,
}

/// The lines with cursors, and how they are shown.
#[derive(Debug)]
pub struct CursorLine {
    pub primary_line: usize,
    pub secondary_lines: Vec<usize>,
    pub primary_style: Style,
    pub secondary_style: Style,
    pub viewport: Rect,
}

/// All ranges lie within the text.
pub open spec fn within(selection: Selection, len: nat) -> bool {
    forall|i: int| 0 <= i < selection.ranges@.len() ==> (#[trigger] selection.ranges@[i]).head <= len
}

/// The lines of the cursors.
pub open spec fn cursor_lines(ranges: Seq<Range>, text: Seq<char>) -> Seq<usize> {
    ranges.map_values(|r: Range| breaks(text, r.cursor_at(text)) as usize)
}

/// The lines of all cursors.
pub fn lines_of_cursors(text: &Rope, selection: &Selection) -> (r: Vec<usize>)
    requires
        within(*selection, text@.len()),
    ensures
        r@ == cursor_lines(selection@.0, text@),
{
    let mut out: Vec<usize> = Vec::new();
    let mut i: usize = 0;
    while i < selection.ranges.len()
        invariant
            i <= selection.ranges@.len(),
            within(*selection, text@.len()),
            out@ == cursor_lines(selection@.0.take(i as int), text@),
        decreases selection.ranges@.len() - i,
    {
        let range = selection.ranges[i];
        let line: usize = range.cursor_line(text);
        out.push(line);
        i = i + 1;
        assert(out@ =~= cursor_lines(selection@.0.take(i as int), text@));
    }
    assert(selection@.0.take(selection@.0.len() as int) =~= selection@.0);
    out
}

/// Finds the lines with cursors and their styles.
pub fn cursorline(text: &Rope, selection: &Selection, theme: &Theme, viewport: Rect) -> (r:
    CursorLine)
    requires
        selection.wf(),
        within(*selection, text@.len()),
    ensures
        r.primary_line == breaks(text@, selection@.0[selection@.1].cursor_at(text@)),
        r.secondary_lines@ == cursor_lines(selection@.0, text@),
        r.primary_style == style_of(entries_of(*theme), "ui.cursorline.primary"@),
        r.secondary_style == style_of(entries_of(*theme), "ui.cursorline.secondary"@),
        r.viewport == viewport,
{
    let primary = selection.primary();
    assert(selection.ranges@[selection.primary_index as int].head <= text@.len());
    CursorLine {
        primary_line: primary.cursor_line(text),
        secondary_lines: lines_of_cursors(text, selection),
        primary_style: theme.get("ui.cursorline.primary"),
        secondary_style: theme.get("ui.cursorline.secondary"),
        viewport,
    }
}

fn holds_line(lines: &Vec<usize>, line: usize) -> (r: bool)
    ensures
        r == lines@.contains(line),
{
    let mut i: usize = 0;
    while i < lines.len()
        invariant
            i <= lines@.len(),
            forall|k: int| 0 <= k < i ==> lines@[k] != line,
        decreases lines@.len() - i,
    {
        if lines[i] == line {
            return true;
        }
        i = i + 1;
    }
    false
}

impl CursorLine {
    /// How a line is shown: the primary style wins over the secondary one.
    pub open spec fn style_at(self, line: usize) -> Option<Style> {
        if line == self.primary_line {
            Some(self.primary_style)
        } else if self.secondary_lines@.contains(line) {
            Some(self.secondary_style)
        } else {
            None
        }
    }

    /// Draws over one line.
    pub fn draw(&self, pos: LinePos) -> (r: Option<DrawOp>)
        ensures
            match self.style_at(pos.doc_line) {
                Some(style) => r matches Some(op) && op@ == DrawView::Restyle(
                    Rect::spec_new(self.viewport.x, pos.visual_line, self.viewport.width, 1),
                    style,
                ),
                None => r is None,
            },
    {
        let area = Rect::new(self.viewport.x, pos.visual_line, self.viewport.width, 1);
        if self.primary_line == pos.doc_line {
            Some(DrawOp::Restyle { area, style: self.primary_style })
        } else if holds_line(&self.secondary_lines, pos.doc_line) {
            Some(DrawOp::Restyle { area, style: self.secondary_style })
        } else {
            None
        }
    }
}

/// The style of exactly this scope, if the theme has it.
pub open spec fn exact_style(theme: Theme, scope: Seq<char>) -> Option<Style> {
    match exact(entries_of(theme), scope) {
        Some(i) => Some(entries_of(theme)[i as int].1),
        None => None,
    }
}

/// How the column of a cursor is shown.
pub open spec fn cursorcolumn_style(theme: Theme, primary: bool) -> Style {
    let own = if primary {
        exact_style(theme, "ui.cursorcolumn.primary"@)
    } else {
        exact_style(theme, "ui.cursorcolumn.secondary"@)
    };
    match own {
        Some(s) => s,
        None => match exact_style(theme, "ui.cursorcolumn"@) {
            Some(s) => s,
            None => if primary {
                style_of(entries_of(theme), "ui.cursorline.primary"@)
            } else {
                style_of(entries_of(theme), "ui.cursorline.secondary"@)
            },
        },
    }
}

/// The column of a cursor on the screen, if it can be seen.
pub open spec fn cursorcolumn_area(col: usize, offset: usize, inner: Rect, area: Rect) -> Option<
    Rect,
> {
    if col >= offset && inner.width > ((col - offset) as usize) as u16 {
        Some(
            Rect::spec_new(
                (inner.x + ((col - offset) as usize) as u16) as u16,
                area.y,
                1,
                area.height,
            ),
        )
    } else {
        None
    }
}

/// The columns of the first `n` cursors.
pub open spec fn cursorcolumn_draws(
    ranges: Seq<Range>,
    primary: Range,
    cols: Seq<usize>,
    offset: usize,
    inner: Rect,
    area: Rect,
    theme: Theme,
    n: int,
) -> Seq<DrawView>
    decreases n,
{
    if n <= 0 {
        Seq::empty()
    } else {
        let before = cursorcolumn_draws(ranges, primary, cols, offset, inner, area, theme, n - 1);
        match cursorcolumn_area(cols[n - 1], offset, inner, area) {
            Some(column) => before.push(
                DrawView::Restyle(column, cursorcolumn_style(theme, ranges[n - 1] == primary)),
            ),
            None => before,
        }
    }
}

/// Draws over the columns of the cursors; `cols` holds the column of each, as the text is laid out.
pub fn highlight_cursorcolumn(
    selection: &Selection,
    cols: &Vec<usize>,
    horizontal_offset: usize,
    inner: Rect,
    area: Rect,
    theme: &Theme,
) -> (r: Vec<DrawOp>)
    requires
        selection.wf(),
        cols@.len() == selection.ranges@.len(),
        inner.x + inner.width <= u16::MAX,
    ensures
        draw_views(r@) == cursorcolumn_draws(
            selection@.0,
            selection@.0[selection@.1],
            cols@,
            horizontal_offset,
            inner,
            area,
            *theme,
            cols@.len() as int,
        ),
{
    let primary_style = match theme.try_get_exact("ui.cursorcolumn.primary") {
        Some(s) => s,
        None => match theme.try_get_exact("ui.cursorcolumn") {
            Some(s) => s,
            None => theme.get("ui.cursorline.primary"),
        },
    };
    let secondary_style = match theme.try_get_exact("ui.cursorcolumn.secondary") {
        Some(s) => s,
        None => match theme.try_get_exact("ui.cursorcolumn") {
            Some(s) => s,
            None => theme.get("ui.cursorline.secondary"),
        },
    };
    let primary = selection.primary();
    let mut out: Vec<DrawOp> = Vec::new();
    assert(draw_views(out@) =~= Seq::empty());
    let mut i: usize = 0;
    while i < cols.len()
        invariant
            i <= cols@.len(),
            cols@.len() == selection.ranges@.len(),
            inner.x + inner.width <= u16::MAX,
            primary == selection@.0[selection@.1],
            primary_style == cursorcolumn_style(*theme, true),
            secondary_style == cursorcolumn_style(*theme, false),
            draw_views(out@) == cursorcolumn_draws(
                selection@.0,
                primary,
                cols@,
                horizontal_offset,
                inner,
                area,
                *theme,
                i as int,
            ),
        decreases cols@.len() - i,
    {
        let col: usize = cols[i];
        if col >= horizontal_offset && inner.width > (col - horizontal_offset) as u16 {
            let column = Rect::new(
                inner.x + (col - horizontal_offset) as u16,
                area.y,
                1,
                area.height,
            );
            let style = if selection.ranges[i] == primary {
                primary_style
            } else {
                secondary_style
            };
            push_draw(&mut out, DrawOp::Restyle { area: column, style });
        }
        i = i + 1;
    }
    out
}

/// Where a gutter starts: behind those before it.
pub open spec fn gutter_start(widths: Seq<usize>, x: int, i: int) -> int
    decreases i,
{
    if i <= 0 {
        x
    } else {
        gutter_start(widths, x, i - 1) + (widths[i - 1] as u16)
    }
}

/// The columns at which the gutters start.
pub fn gutter_columns(widths: &Vec<usize>, x: u16) -> (r: Vec<u16>)
    requires
        gutter_start(widths@, x as int, widths@.len() as int) <= u16::MAX,
    ensures
        r@.len() == widths@.len(),
        forall|i: int|
            0 <= i < r@.len() ==> #[trigger] r@[i] == gutter_start(widths@, x as int, i),
{
    let mut out: Vec<u16> = Vec::new();
    let mut at: u16 = x;
    let mut i: usize = 0;
    while i < widths.len()
        invariant
            i <= widths@.len(),
            out@.len() == i,
            at == gutter_start(widths@, x as int, i as int),
            gutter_start(widths@, x as int, widths@.len() as int) <= u16::MAX,
            forall|k: int| 0 <= k < i ==> #[trigger] out@[k] == gutter_start(widths@, x as int, k),
        decreases widths@.len() - i,
    {
        out.push(at);
        proof {
            lemma_gutter_rises(widths@, x as int, i + 1, widths@.len() as int);
        }
        at = at + widths[i] as u16;
        i = i + 1;
    }
    out
}

proof fn lemma_gutter_rises(widths: Seq<usize>, x: int, i: int, j: int)
    requires
        0 <= i <= j,
    ensures
        gutter_start(widths, x, i) <= gutter_start(widths, x, j),
    decreases j - i,
{
    if i < j {
        lemma_gutter_rises(widths, x, i, j - 1);
    }
}

/// The styles of gutters.
#[derive(Debug, Clone, Copy, PartialEq, Eq, Structural)]
pub struct GutterStyles {
    pub normal: Style,
    pub selected: Style,
    pub normal_virtual: Style,
    pub selected_virtual: Style,
}

/// Finds the styles of gutters.
pub fn gutter_styles(theme: &Theme) -> (r: GutterStyles)
    ensures
        r == (GutterStyles {
            normal: style_of(entries_of(*theme), "ui.gutter"@),
            selected: style_of(entries_of(*theme), "ui.gutter.selected"@),
            normal_virtual: style_of(entries_of(*theme), "ui.gutter.virtual"@),
            selected_virtual: style_of(entries_of(*theme), "ui.gutter.selected.virtual"@),
        }),
{
    GutterStyles {
        normal: theme.get("ui.gutter"),
        selected: theme.get("ui.gutter.selected"),
        normal_virtual: theme.get("ui.gutter.virtual"),
        selected_virtual: theme.get("ui.gutter.selected.virtual"),
    }
}

impl GutterStyles {
    /// The style of a gutter beside a line.
    pub open spec fn style(self, selected: bool, first: bool) -> Style {
        if first {
            if selected {
                self.selected
            } else {
                self.normal
            }
        } else {
            if selected {
                self.selected_virtual
            } else {
                self.normal_virtual
            }
        }
    }
}

/// Draws one gutter beside one line: its text with its style, if it has one there, else only the
/// background. `cursors` holds the lines with cursors.
pub fn render_gutter(
    x: u16,
    width: usize,
    pos: LinePos,
    cursors: &Vec<usize>,
    styles: GutterStyles,
    content: Option<(String, Style)>,
) -> (r: DrawOp)
    ensures
        ({
            let base = styles.style(cursors@.contains(pos.doc_line), pos.first_visual_line);
            r@ == match content {
                Some((text, style)) => DrawView::Text(
                    x,
                    pos.visual_line,
                    text@,
                    width,
                    patched(base, style),
                ),
                None => DrawView::Restyle(
                    Rect { x, y: pos.visual_line, width: width as u16, height: 1 },
                    base,
                ),
            }
        }),
{
    let selected = holds_line(cursors, pos.doc_line);
    let base = match (selected, pos.first_visual_line) {
        (false, true) => styles.normal,
        (true, true) => styles.selected,
        (false, false) => styles.normal_virtual,
        (true, false) => styles.selected_virtual,
    };
    match content {
        Some((text, style)) => DrawOp::Text {
            x,
            y: pos.visual_line,
            text,
            width,
            style: base.patch(style),
        },
        None => DrawOp::Restyle {
            area: Rect { x, y: pos.visual_line, width: width as u16, height: 1 },
            style: base,
        },
    }
}

/// The style of a diagnostic in the corner panel.
pub open spec fn panel_style(theme: Theme, severity: Option<Severity>) -> Style {
    let e = entries_of(theme);
    patched(
        patched(reset_style(), style_of(e, "ui.background"@)),
        match severity {
            Some(Severity::Error) => style_of(e, "error"@),
            Some(Severity::Warning) => style_of(e, "warning"@),
            None => style_of(e, "warning"@),
            Some(Severity::Info) => style_of(e, "info"@),
            Some(Severity::Hint) => style_of(e, "hint"@),
        },
    )
}

/// The text of a number, which may be negative.
pub open spec fn signed_digits(n: int) -> Seq<char> {
    if n < 0 {
        "-"@ + decimal_digits((-n) as nat)
    } else {
        decimal_digits(n as nat)
    }
}

/// The text of a diagnostic's code.
pub open spec fn code_text(code: NumberOrString) -> Seq<char> {
    "("@ + (match code {
        NumberOrString::Number(n) => signed_digits(n as int),
        NumberOrString::Text(s) => s@,
    }) + ")"@
}

/// The texts of the first `n` diagnostics that are shown at `cursor`: the message of each, then
/// its code if it has one.
pub open spec fn panel_texts(ds: Seq<Diagnostic>, cursor: usize, theme: Theme, n: int) -> Seq<
    (Seq<char>, Style),
>
    decreases n,
{
    if n <= 0 {
        Seq::empty()
    } else {
        let before = panel_texts(ds, cursor, theme, n - 1);
        let d = ds[n - 1];
        if d.range.start <= cursor <= d.range.end {
            let style = panel_style(theme, d.severity);
            let with_message = before.push((d.message@, style));
            match d.code {
                Some(code) => with_message.push((code_text(code), style)),
                None => with_message,
            }
        } else {
            before
        }
    }
}

fn code_string(code: &NumberOrString) -> (r: String)
    ensures
        r@ == code_text(*code),
{
    let mut s = "(".to_owned();
    match code {
        NumberOrString::Number(n) => {
            if *n < 0 {
                s.append("-");
                s.append(decimal((-(*n as i64)) as u64).as_str());
                assert(s@ =~= "("@ + signed_digits(*n as int));
            } else {
                s.append(decimal(*n as u64).as_str());
            }
        },
        NumberOrString::Text(t) => {
            s.append(t.as_str());
        },
    }
    s.append(")");
    s
}

/// Where the corner panel stands: in the upper right, at most a hundred columns wide.
pub open spec fn panel_area(viewport: Rect) -> Rect {
    let width = min_int(100, viewport.width as int);
    let height = min_int(15, viewport.height as int);
    Rect::spec_new(
        (viewport.spec_right() - width) as u16,
        (viewport.y + 1) as u16,
        width as u16,
        height as u16,
    )
}

/// The texts of the diagnostics at the cursor, and where they are drawn.
pub fn render_diagnostics(
    diagnostics: &Vec<Diagnostic>,
    cursor: usize,
    viewport: Rect,
    theme: &Theme,
) -> (r: (Vec<Piece>, Rect))
    requires
        viewport.y < u16::MAX,
    ensures
        piece_views(r.0@) == panel_texts(
            diagnostics@,
            cursor,
            *theme,
            diagnostics@.len() as int,
        ),
        r.1 == panel_area(viewport),
{
    let warning = theme.get("warning");
    let error = theme.get("error");
    let info = theme.get("info");
    let hint = theme.get("hint");
    let background = theme.get("ui.background");
    let mut out: Vec<Piece> = Vec::new();
    assert(piece_views(out@) =~= Seq::empty());
    let mut i: usize = 0;
    while i < diagnostics.len()
        invariant
            i <= diagnostics@.len(),
            warning == style_of(entries_of(*theme), "warning"@),
            error == style_of(entries_of(*theme), "error"@),
            info == style_of(entries_of(*theme), "info"@),
            hint == style_of(entries_of(*theme), "hint"@),
            background == style_of(entries_of(*theme), "ui.background"@),
            piece_views(out@) == panel_texts(diagnostics@, cursor, *theme, i as int),
        decreases diagnostics@.len() - i,
    {
        let d = &diagnostics[i];
        if d.range.start <= cursor && d.range.end >= cursor {
            let style = Style::reset().patch(background).patch(
                match d.severity {
                    Some(Severity::Error) => error,
                    Some(Severity::Warning) => warning,
                    None => warning,
                    Some(Severity::Info) => info,
                    Some(Severity::Hint) => hint,
                },
            );
            push_piece(&mut out, d.message.clone(), style);
            match &d.code {
                Some(code) => {
                    push_piece(&mut out, code_string(code), style);
                },
                None => {},
            }
        }
        i = i + 1;
    }
    let width: u16 = min_u16(100, viewport.width);
    let height: u16 = min_u16(15, viewport.height);
    let area = Rect::new(viewport.right() - width, viewport.y + 1, width, height);
    (out, area)
}

/// The line to the right of a view has one mark in each of its rows, all right behind its last column.
pub proof fn law_border_covers_every_row(area: Rect, style: Style, y: int, k: int)
    requires
        area.y <= y <= area.spec_bottom(),
        0 <= k < area.spec_bottom() - y,
    ensures
        border_from(area, style, y).len() == area.spec_bottom() - y,
        border_from(area, style, y)[k] == DrawView::Symbol(
            area.spec_right() as u16,
            (y + k) as u16,
            "│"@,
            style,
        ),
    decreases k,
{
    lemma_border_len(area, style, y);
    if k > 0 {
        law_border_covers_every_row(area, style, y + 1, k - 1);
        assert(border_from(area, style, y)[k] == border_from(area, style, y + 1)[k - 1]);
    }
}

proof fn lemma_border_len(area: Rect, style: Style, y: int)
    requires
        y <= area.spec_bottom(),
    ensures
        border_from(area, style, y).len() == area.spec_bottom() - y,
    decreases area.spec_bottom() - y,
{
    if y < area.spec_bottom() {
        lemma_border_len(area, style, y + 1);
    }
}

/// A ruler marks its own column of the text, counted from one, over the whole height of the view. One
/// that is scrolled out to the left, or lies to the right of the view, is not drawn.
pub proof fn law_ruler_marks_its_column(ruler: u16, offset: u16, viewport: Rect, x: int, y: int)
    requires
        viewport.x + viewport.width <= u16::MAX,
        viewport.y + viewport.height <= u16::MAX,
    ensures
        ruler_area(ruler, offset, viewport) is Some <==> offset < ruler <= offset + viewport.width,
        ruler_area(ruler, offset, viewport) matches Some(area) ==> (area.holds(x, y) <==> viewport.holds(
            x,
            y,
        ) && x - viewport.x + 1 + offset == ruler),
{
}

/// Every ruler that is in sight is drawn, in the style of rulers, and nothing else is.
pub proof fn law_every_ruler_is_drawn(
    rulers: Seq<u16>,
    offset: u16,
    viewport: Rect,
    style: Style,
    n: int,
    k: int,
)
    requires
        0 <= k < n <= rulers.len(),
    ensures
        ruler_area(rulers[k], offset, viewport) matches Some(area) ==> ruler_draws(
            rulers,
            offset,
            viewport,
            style,
            n,
        ).contains(DrawView::Restyle(area, style)),
        ruler_draws(rulers, offset, viewport, style, n).len() <= n,
    decreases n,
{
    let all = ruler_draws(rulers, offset, viewport, style, n);
    let prev = ruler_draws(rulers, offset, viewport, style, n - 1);
    if n > 1 {
        law_every_ruler_is_drawn(rulers, offset, viewport, style, n - 1, if k < n - 1 {
            k
        } else {
            0
        });
    }
    if let Some(area) = ruler_area(rulers[k], offset, viewport) {
        let wanted = DrawView::Restyle(area, style);
        if k < n - 1 {
            let m = choose|m: int| 0 <= m < prev.len() && prev[m] == wanted;
            assert(all[m] == wanted);
        } else {
            assert(all[prev.len() as int] == wanted);
        }
    }
}

/// A theme that says how rulers look is followed; else they are red.
pub proof fn law_rulers_are_red(theme: Theme)
    requires
        nearest(entries_of(theme), "ui.virtual.ruler"@) is None,
    ensures
        ruler_style(theme).bg == Some(Color::Red),
        ruler_style(theme).fg is None,
{
}

/// The line of the first cursor has its own style, those of the others have theirs, and no other line
/// is marked.
pub proof fn law_cursor_lines_are_marked(c: CursorLine, line: usize)
    ensures
        c.style_at(c.primary_line) == Some(c.primary_style),
        c.secondary_lines@.contains(line) && line != c.primary_line ==> c.style_at(line) == Some(
            c.secondary_style,
        ),
        !c.secondary_lines@.contains(line) && line != c.primary_line ==> c.style_at(line) is None,
{
}

/// The column of a cursor is marked where it is on the screen, over the whole height of the view, if it
/// is in sight.
pub proof fn law_cursor_column_is_marked(
    col: usize,
    offset: usize,
    inner: Rect,
    area: Rect,
    x: int,
    y: int,
)
    requires
        inner.x + inner.width <= u16::MAX,
        area.y + area.height <= u16::MAX,
        col - offset <= u16::MAX,
    ensures
        cursorcolumn_area(col, offset, inner, area) is Some <==> offset <= col < offset + inner.width,
        cursorcolumn_area(col, offset, inner, area) matches Some(r) ==> (r.holds(x, y) <==> x == inner.x + (
        col - offset) && area.y <= y < area.y + area.height && x < u16::MAX),
{
}

/// The column of every cursor in sight is drawn, that of the first cursor in the style of its own.
pub proof fn law_every_cursor_column_is_drawn(
    ranges: Seq<Range>,
    primary: Range,
    cols: Seq<usize>,
    offset: usize,
    inner: Rect,
    area: Rect,
    theme: Theme,
    n: int,
    k: int,
)
    requires
        0 <= k < n <= ranges.len(),
        cols.len() == ranges.len(),
    ensures
        cursorcolumn_area(cols[k], offset, inner, area) matches Some(column) ==> cursorcolumn_draws(
            ranges,
            primary,
            cols,
            offset,
            inner,
            area,
            theme,
            n,
        ).contains(DrawView::Restyle(column, cursorcolumn_style(theme, ranges[k] == primary))),
    decreases n,
{
    let all = cursorcolumn_draws(ranges, primary, cols, offset, inner, area, theme, n);
    let prev = cursorcolumn_draws(ranges, primary, cols, offset, inner, area, theme, n - 1);
    if let Some(column) = cursorcolumn_area(cols[k], offset, inner, area) {
        let wanted = DrawView::Restyle(column, cursorcolumn_style(theme, ranges[k] == primary));
        if k < n - 1 {
            law_every_cursor_column_is_drawn(
                ranges,
                primary,
                cols,
                offset,
                inner,
                area,
                theme,
                n - 1,
                k,
            );
            let m = choose|m: int| 0 <= m < prev.len() && prev[m] == wanted;
            assert(all[m] == wanted);
        } else {
            assert(all[prev.len() as int] == wanted);
        }
    }
}

/// The style of a cursor's column is its own one, else that of all columns, else that of the cursor's
/// line.
pub proof fn law_column_style_falls_back(theme: Theme)
    ensures
        ({
            let e = entries_of(theme);
            let own = exact(e, "ui.cursorcolumn.primary"@);
            let other = exact(e, "ui.cursorcolumn.secondary"@);
            let all = exact(e, "ui.cursorcolumn"@);
            &&& own matches Some(i) ==> cursorcolumn_style(theme, true) == e[i as int].1
            &&& other matches Some(i) ==> cursorcolumn_style(theme, false) == e[i as int].1
            &&& own is None ==> (all matches Some(i) ==> cursorcolumn_style(theme, true) == e[i as int].1)
            &&& other is None ==> (all matches Some(i) ==> cursorcolumn_style(theme, false)
                == e[i as int].1)
            &&& own is None && all is None ==> cursorcolumn_style(theme, true) == style_of(
                e,
                "ui.cursorline.primary"@,
            )
            &&& other is None && all is None ==> cursorcolumn_style(theme, false) == style_of(
                e,
                "ui.cursorline.secondary"@,
            )
        }),
{
}

/// Gutters stand side by side: the first one begins at the given column, and each other one where the
/// one before it ends.
pub proof fn law_gutters_stand_side_by_side(widths: Seq<usize>, x: int, i: int)
    requires
        0 <= i < widths.len(),
        widths[i] <= u16::MAX,
    ensures
        gutter_start(widths, x, 0) == x,
        gutter_start(widths, x, i + 1) == gutter_start(widths, x, i) + widths[i],
{
}

/// Beside a line with a cursor a gutter looks selected, and beside a row that goes on with a line it
/// looks like one that is not in the text; each of the four has its own style.
pub proof fn law_gutter_styles(s: GutterStyles)
    ensures
        s.style(false, true) == s.normal,
        s.style(true, true) == s.selected,
        s.style(false, false) == s.normal_virtual,
        s.style(true, false) == s.selected_virtual,
{
}

/// Every diagnostic at the cursor is told with its message, and with its code if it has one, in the
/// style of its severity; one that the cursor is not in is not told.
pub proof fn law_diagnostics_at_the_cursor(
    ds: Seq<Diagnostic>,
    cursor: usize,
    theme: Theme,
    n: int,
    k: int,
)
    requires
        0 <= k < n <= ds.len(),
        ds[k].range.start <= cursor <= ds[k].range.end,
    ensures
        panel_texts(ds, cursor, theme, n).contains(
            (ds[k].message@, panel_style(theme, ds[k].severity)),
        ),
        ds[k].code matches Some(code) ==> panel_texts(ds, cursor, theme, n).contains(
            (code_text(code), panel_style(theme, ds[k].severity)),
        ),
    decreases n,
{
    let all = panel_texts(ds, cursor, theme, n);
    let prev = panel_texts(ds, cursor, theme, n - 1);
    let style = panel_style(theme, ds[k].severity);
    if k < n - 1 {
        law_diagnostics_at_the_cursor(ds, cursor, theme, n - 1, k);
        let m = choose|m: int| 0 <= m < prev.len() && prev[m] == (ds[k].message@, style);
        assert(all[m] == prev[m]);
        if let Some(code) = ds[k].code {
            let c = choose|c: int| 0 <= c < prev.len() && prev[c] == (code_text(code), style);
            assert(all[c] == prev[c]);
        }
    } else {
        assert(all[prev.len() as int] == (ds[k].message@, style));
        if let Some(code) = ds[k].code {
            assert(all[prev.len() as int + 1] == (code_text(code), style));
        }
    }
}

/// Where the cursor is in no diagnostic, nothing is told.
pub proof fn law_no_diagnostic_no_text(ds: Seq<Diagnostic>, cursor: usize, theme: Theme, n: int)
    requires
        0 <= n <= ds.len(),
        forall|k: int|
            0 <= k < n ==> !((#[trigger] ds[k]).range.start <= cursor && cursor <= ds[k].range.end),
    ensures
        panel_texts(ds, cursor, theme, n).len() == 0,
    decreases n,
{
    if n > 0 {
        law_no_diagnostic_no_text(ds, cursor, theme, n - 1);
        assert(!(ds[n - 1].range.start <= cursor && cursor <= ds[n - 1].range.end));
    }
}

/// The code of a diagnostic stands in brackets, a number with its sign.
pub proof fn law_code_stands_in_brackets(code: NumberOrString)
    ensures
        code_text(code)[0] == '(',
        code_text(code).last() == ')',
        code matches NumberOrString::Text(s) ==> code_text(code).subrange(1, code_text(code).len() - 1)
            == s@,
        code matches NumberOrString::Number(n) ==> n >= 0 ==> digits_value(
            code_text(code).subrange(1, code_text(code).len() - 1),
        ) == n,
        code matches NumberOrString::Number(n) ==> n < 0 ==> code_text(code)[1] == '-' && digits_value(
            code_text(code).subrange(2, code_text(code).len() - 1),
        ) == -n,
{
    reveal_strlit("(");
    reveal_strlit(")");
    reveal_strlit("-");
    let t = code_text(code);
    match code {
        NumberOrString::Text(s) => {
            assert(t.subrange(1, t.len() - 1) =~= s@);
        },
        NumberOrString::Number(n) => {
            if n >= 0 {
                law_decimal_reads_back(n as nat);
                assert(t.subrange(1, t.len() - 1) =~= decimal_digits(n as nat));
            } else {
                law_decimal_reads_back((-n) as nat);
                assert(t.subrange(2, t.len() - 1) =~= decimal_digits((-n) as nat));
            }
        },
    }
}

/// In the panel each severity has the style of its own name over the background; one that is not known
/// counts as a warning.
pub proof fn law_panel_styles(theme: Theme)
    ensures
        ({
            let e = entries_of(theme);
            let ground = patched(reset_style(), style_of(e, "ui.background"@));
            &&& panel_style(theme, Some(Severity::Error)) == patched(ground, style_of(e, "error"@))
            &&& panel_style(theme, Some(Severity::Warning)) == patched(ground, style_of(e, "warning"@))
            &&& panel_style(theme, Some(Severity::Info)) == patched(ground, style_of(e, "info"@))
            &&& panel_style(theme, Some(Severity::Hint)) == patched(ground, style_of(e, "hint"@))
            &&& panel_style(theme, None) == panel_style(theme, Some(Severity::Warning))
        }),
{
}

/// The panel stands at the right edge, one row below the top, and is no wider and no higher than the view,
/// nor than a hundred columns and fifteen rows.
pub proof fn law_panel_stands_at_the_right(viewport: Rect)
    requires
        viewport.x + viewport.width <= u16::MAX,
        viewport.y + 1 + viewport.height <= u16::MAX,
    ensures
        panel_area(viewport).x + panel_area(viewport).width == viewport.x + viewport.width,
        panel_area(viewport).y == viewport.y + 1,
        panel_area(viewport).width <= viewport.width,
        panel_area(viewport).height <= viewport.height,
        panel_area(viewport).width == viewport.width || (panel_area(viewport).width == 100
            && viewport.width > 100),
        panel_area(viewport).height == viewport.height || (panel_area(viewport).height == 15
            && viewport.height > 15),
{
}

/// The parts of a view that are drawn.
pub open spec fn plan_of(facts: ViewFacts) -> ViewPlan {
    ViewPlan {
        cursorline: facts.focused && facts.cursorline,
        cursorcolumn: facts.focused && facts.cursorcolumn,
        rainbow: match facts.language_rainbow {
            Some(on) => on,
            None => facts.rainbow_brackets,
        },
        gutter: facts.gutter_offset != 0,
        gutter_focused: facts.focused && facts.terminal_focused,
        cursor: facts.focused,
        right_border: facts.viewport.spec_right() != facts.area.spec_right(),
        diagnostics_panel: facts.inline_diagnostics.cursor_line == DiagnosticFilter::Disable
            && facts.inline_diagnostics.other_lines == DiagnosticFilter::Disable
            && facts.end_of_line_diagnostics == DiagnosticFilter::Disable,
        statusline_area: clipped_bottom(
            clipped_top(facts.area, monus(facts.area.height as int, 1) as u16),
            1,
        ),
    }
}

/// The lines and columns of cursors, and the cursor itself, are drawn only in the view with the focus;
/// what the language says of brackets counts more than what is configured for all; the status line is
/// no higher than a row.
pub proof fn law_parts_of_a_view(facts: ViewFacts)
    ensures
        !facts.focused ==> !plan_of(facts).cursorline && !plan_of(facts).cursorcolumn && !plan_of(
            facts,
        ).cursor && !plan_of(facts).gutter_focused,
        facts.focused ==> plan_of(facts).cursorline == facts.cursorline && plan_of(facts).cursorcolumn
            == facts.cursorcolumn && plan_of(facts).cursor,
        facts.focused ==> plan_of(facts).gutter_focused == facts.terminal_focused,
        facts.language_rainbow matches Some(on) ==> plan_of(facts).rainbow == on,
        facts.language_rainbow is None ==> plan_of(facts).rainbow == facts.rainbow_brackets,
        plan_of(facts).gutter <==> facts.gutter_offset > 0,
        facts.area.x + facts.area.width <= u16::MAX && facts.viewport.x + facts.viewport.width <= u16::MAX
            ==> (plan_of(facts).right_border <==> facts.area.x + facts.area.width != facts.viewport.x
            + facts.viewport.width),
        plan_of(facts).diagnostics_panel ==> facts.end_of_line_diagnostics == DiagnosticFilter::Disable
            && facts.inline_diagnostics.cursor_line == DiagnosticFilter::Disable,
        plan_of(facts).statusline_area.height <= 1,
        plan_of(facts).statusline_area.x == facts.area.x,
        plan_of(facts).statusline_area.width == facts.area.width,
{
}

} // verus!
