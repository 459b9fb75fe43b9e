use helix_view::config::CursorShapeConfig;
use helix_view::config::DiagnosticFilter;
use helix_view::config::InlineDiagnosticsConfig;
use helix_view::config::Mode;
use helix_view::config::Severity;
use helix_view::draw::DrawOp;
use helix_view::draw::Piece;
use helix_view::graphics::Color;
use helix_view::graphics::Modifier;
use helix_view::graphics::Rect;
use helix_view::graphics::Style;
use helix_view::graphics::UnderlineStyle;
use helix_view::highlights::collect_view_overlays;
use helix_view::highlights::doc_diagnostics_highlights_into;
use helix_view::highlights::doc_document_highlights;
use helix_view::highlights::doc_document_link_highlights;
use helix_view::highlights::doc_rainbow_highlights;
use helix_view::highlights::doc_selection_highlights;
use helix_view::highlights::doc_syntax_highlighter;
use helix_view::highlights::highlight_focused_view_elements;
use helix_view::highlights::overlay_syntax_highlights;
use helix_view::highlights::viewport_byte_range;
use helix_view::highlights::Diagnostic;
use helix_view::highlights::DiagnosticTag;
use helix_view::highlights::NumberOrString;
use helix_view::highlights::OverlayHighlights;
use helix_view::highlights::OverlaySources;
use helix_view::highlights::Span;
use helix_view::icons::directory_icon;
use helix_view::icons::file_icon;
use helix_view::icons::file_icon_from;
use helix_view::screen::draw;
use helix_view::screen::draws_fit;
use helix_view::selection::Range;
use helix_view::selection::Selection;
use helix_view::surface::buffer_rect;
use helix_view::surface::try_set_string_truncated;
use helix_view::surface::BufferExt;
use helix_view::terminal_style::CrosstermColor;
use helix_view::terminal_style::TerminalColor;
use helix_view::terminal_style::TerminalStyle;
use helix_view::terminal_style::UnderlineAttribute;
use helix_view::text::Rope;
use helix_view::theme::Theme;
use helix_view::theme::ThemeEntry;
use helix_view::view_render::cursorline;
use helix_view::view_render::gutter_columns;
use helix_view::view_render::gutter_styles;
use helix_view::view_render::highlight_cursorcolumn;
use helix_view::view_render::lines_of_cursors;
use helix_view::view_render::render_diagnostics;
use helix_view::view_render::render_gutter;
use helix_view::view_render::render_right_border;
use helix_view::view_render::render_rulers;
use helix_view::view_render::render_view;
use helix_view::view_render::LinePos;
use helix_view::view_render::ViewFacts;

fn theme(scopes: &[&str]) -> Theme {
    Theme {
        name: "t".to_string(),
        entries: scopes
            .iter()
            .enumerate()
            .map(|(i, s)| ThemeEntry {
                scope: s.to_string(),
                style: Style::default().fg(Color::Indexed(i as u8)),
            })
            .collect(),
    }
}

fn buffer(width: u16, height: u16) -> ratatui::buffer::Buffer {
    ratatui::buffer::Buffer::empty(ratatui::layout::Rect::new(0, 0, width, height))
}

fn row(b: &ratatui::buffer::Buffer, y: u16) -> String {
    (0..b.area.width).map(|x| b[(x, y)].symbol().to_string()).collect()
}

#[test]
fn instructions_are_carried_out() {
    let mut b = buffer(10, 3);
    let red = Style::default().fg(Color::Red);
    let ops = vec![
        DrawOp::Text { x: 1, y: 0, text: "hello world".to_string(), width: 5, style: red },
        DrawOp::Row {
            x: 0,
            y: 1,
            end: 4,
            pieces: vec![
                Piece { text: "ab".to_string(), style: red },
                Piece { text: "cdef".to_string(), style: Style::default() },
            ],
        },
        DrawOp::Symbol { x: 9, y: 2, symbol: "▕".to_string(), style: red },
        DrawOp::Restyle { area: Rect::new(0, 2, 3, 1), style: Style::default().bg(Color::Blue) },
        DrawOp::Blank { x: 0, y: 0, end: 1, style: Style::default() },
    ];
    assert!(draws_fit(&b, &ops));
    draw(&mut b, &ops);
    assert_eq!(row(&b, 0), " hello    ");
    assert_eq!(row(&b, 1), "abcd      ");
    assert_eq!(row(&b, 2), "         ▕");
    assert_eq!(b[(1, 0)].fg, ratatui::style::Color::Red);
    assert_eq!(b[(2, 2)].bg, ratatui::style::Color::Blue);
    assert_eq!(b[(3, 2)].bg, ratatui::style::Color::Reset);
    let outside = vec![DrawOp::Symbol { x: 10, y: 0, symbol: "x".to_string(), style: red }];
    assert!(!draws_fit(&b, &outside));
    assert_eq!(buffer_rect(&b), Rect::new(0, 0, 10, 3));
}

#[test]
fn long_texts_are_cut() {
    let mut b = buffer(8, 2);
    let plain = Style::default();
    let end = try_set_string_truncated(&mut b, 0, 0, "hello world", 8, plain, true, false);
    assert!(end.is_some());
    assert_eq!(row(&b, 0), "hello w…");
    let mut b = buffer(8, 2);
    try_set_string_truncated(&mut b, 0, 0, "hello world", 8, plain, true, true);
    assert_eq!(row(&b, 0), "… world ");
    let mut b = buffer(8, 2);
    try_set_string_truncated(&mut b, 0, 0, "short", 8, plain, true, false);
    assert_eq!(row(&b, 0), "short   ");
    assert_eq!(try_set_string_truncated(&mut b, 9, 0, "x", 1, plain, true, false), Some((9, 0)));
}

#[test]
fn anchored_texts_stay_in_their_room() {
    let plain = |_: usize| Style::default();
    let drawn = |start: bool, end: bool, text: &str, width: usize| -> String {
        let mut b = buffer(8, 2);
        assert_eq!(b.set_string_anchored(1, 0, start, end, text, width, plain), (1, 0));
        assert_eq!(row(&b, 1), "        ");
        row(&b, 0)
    };
    // A text that fits is drawn whole, with no ellipsis.
    assert_eq!(drawn(false, false, "hello", 6), " hello  ");
    assert_eq!(drawn(true, true, "hello", 6), " hello  ");
    assert_eq!(drawn(true, true, "hello", 5), " hello  ");
    // One that does not is cut at `width`.
    assert_eq!(drawn(false, false, "hello world", 6), " hello  ");
    assert_eq!(drawn(false, true, "hello world", 6), " hello… ");
    assert_eq!(drawn(true, false, "hello world", 6), " …ello  ");
    assert_eq!(drawn(true, true, "hello world", 6), " …ello… ");
    // Or at the end of the row.
    assert_eq!(drawn(false, false, "hello world", 20), " hello w");
    assert_eq!(drawn(false, true, "hello world", 20), " hello …");
    // With room for one ellipsis there is one.
    assert_eq!(drawn(true, true, "hello", 1), " …      ");
    assert_eq!(drawn(false, true, "hello", 1), " …      ");
    // The first cluster makes room for the rest of the text.
    assert_eq!(drawn(true, true, "日bc", 3), " …bc    ");
    assert_eq!(drawn(false, true, "日本", 3), " 日 …    ");
    // Nothing is drawn outside of the buffer, or without any room.
    assert_eq!(drawn(false, false, "hello", 0), "        ");
    let mut b = buffer(8, 2);
    assert_eq!(b.set_string_anchored(8, 0, false, true, "x", 1, plain), (8, 0));
    assert_eq!(row(&b, 0), "        ");
    // The style is asked for by the byte at which a cluster starts.
    let by_byte = |n: usize| Style::default().fg(if n == 0 { Color::Red } else { Color::Blue });
    b.set_string_anchored(0, 0, false, false, "éa", 2, by_byte);
    assert_eq!(b[(0, 0)].fg, ratatui::style::Color::Red);
    assert_eq!(b[(1, 0)].fg, ratatui::style::Color::Blue);
}

#[test]
fn areas_are_cleared() {
    let mut b = buffer(4, 2);
    draw(
        &mut b,
        &vec![DrawOp::Text {
            x: 0,
            y: 0,
            text: "abcd".to_string(),
            width: 4,
            style: Style::default().fg(Color::Red),
        }],
    );
    b.clear_area(Rect::new(1, 0, 2, 1));
    assert_eq!(row(&b, 0), "a  d");
    b.clear_with(Rect::new(0, 0, 1, 1), Style::default().bg(Color::Green));
    assert_eq!(b[(0, 0)].bg, ratatui::style::Color::Green);
    assert_eq!(row(&b, 0), "   d");
    assert!(b.in_bounds(3, 1));
    assert!(!b.in_bounds(4, 1));
}

#[test]
fn styles_are_merged_cell_by_cell() {
    let mut b = buffer(1, 1);
    let area = Rect::new(0, 0, 1, 1);
    let styles = [
        Style::default()
            .fg(Color::Blue)
            .add_modifier(Modifier::bold() | Modifier::italic()),
        Style::default().bg(Color::Red),
        Style::default().fg(Color::Yellow).remove_modifier(Modifier::italic()),
    ];
    for style in styles {
        draw(&mut b, &vec![DrawOp::Restyle { area, style }]);
    }
    assert_eq!(b[(0, 0)].fg, ratatui::style::Color::Yellow);
    assert_eq!(b[(0, 0)].bg, ratatui::style::Color::Red);
    assert_eq!(b[(0, 0)].modifier, ratatui::style::Modifier::BOLD);
}

#[test]
fn colours_keep_their_meaning() {
    assert_eq!(TerminalColor::from(Color::LightGray), TerminalColor::Gray);
    assert_eq!(TerminalColor::from(Color::Gray), TerminalColor::DarkGray);
    assert_eq!(Color::from(TerminalColor::DarkGray), Color::Gray);
    assert_eq!(CrosstermColor::from(Color::Red), CrosstermColor::DarkRed);
    assert_eq!(CrosstermColor::from(Color::LightRed), CrosstermColor::Red);
    assert_eq!(CrosstermColor::from(Color::Rgb(1, 2, 3)), CrosstermColor::Rgb { r: 1, g: 2, b: 3 });
    assert_eq!(UnderlineAttribute::from(UnderlineStyle::Curl), UnderlineAttribute::Undercurled);
    let t = TerminalStyle::from(Style::default().fg(Color::Red).underline_style(UnderlineStyle::Line));
    assert_eq!(t.fg, Some(TerminalColor::Red));
    assert_ne!(t.add_modifier, 0);
    let back = Style::from(TerminalStyle::from(Style::default().fg(Color::Red)));
    assert_eq!(back, Style::default().fg(Color::Red));
    assert_eq!(TerminalColor::Rgb(1, 171, 255).name(), "#01abff");
}

#[test]
fn icons_have_colours() {
    let icon = file_icon("main.rs");
    assert_eq!(icon.icon, '\u{e68b}');
    assert_eq!(icon.color, Color::Rgb(0xde, 0xa5, 0x84));
    assert_eq!(file_icon_from('x', "#ff0000").color, Color::Rgb(255, 0, 0));
    assert_eq!(file_icon_from('x', "red").color, Color::Reset);
    assert_eq!(directory_icon().icon, '\u{f115}');
}

#[test]
fn ranges_of_the_viewport() {
    let text = Rope::from_str("ab\ncd\nef\ngh\n");
    assert_eq!(viewport_byte_range(&text, 1, 2), Span { start: 3, end: 9 });
    assert_eq!(viewport_byte_range(&text, 0, 50), Span { start: 0, end: 12 });
    assert_eq!(doc_syntax_highlighter(false, &text, 0, 2), None);
    assert_eq!(doc_syntax_highlighter(true, &text, 4, 2), Some((3, 9)));
    let span = overlay_syntax_highlights(&text, 3, 2);
    assert_eq!(span.start, 3);
    assert_eq!(doc_rainbow_highlights(true, &text, 4, 2, Some(1)), Some((1, 9)));
    assert_eq!(doc_rainbow_highlights(true, &text, 4, 2, None), Some((3, 9)));
    assert_eq!(doc_rainbow_highlights(false, &text, 4, 2, Some(1)), None);
}

fn diagnostic(start: usize, end: usize, severity: Severity, tags: Vec<DiagnosticTag>) -> Diagnostic {
    Diagnostic {
        range: Span { start, end },
        message: "m".to_string(),
        severity: Some(severity),
        code: Some(NumberOrString::Number(7)),
        tags,
    }
}

fn homogeneous(o: &OverlayHighlights) -> (usize, Vec<Span>) {
    match o {
        OverlayHighlights::Homogeneous { highlight, ranges } => (*highlight, ranges.clone()),
        OverlayHighlights::Heterogenous { .. } => panic!("one highlight expected"),
    }
}

#[test]
fn diagnostics_are_merged_by_severity() {
    let t = theme(&[
        "diagnostic",
        "diagnostic.error",
        "diagnostic.warning",
        "diagnostic.unnecessary",
        "diagnostic.hint",
    ]);
    let diagnostics = vec![
        diagnostic(0, 3, Severity::Error, vec![]),
        diagnostic(2, 5, Severity::Error, vec![]),
        diagnostic(7, 9, Severity::Error, vec![]),
        diagnostic(8, 9, Severity::Hint, vec![DiagnosticTag::Unnecessary]),
    ];
    let mut out = Vec::new();
    doc_diagnostics_highlights_into(&diagnostics, &t, &mut out);
    let all: Vec<(usize, Vec<Span>)> = out.iter().map(homogeneous).filter(|o| !o.1.is_empty()).collect();
    assert!(all.contains(&(1, vec![Span { start: 0, end: 5 }, Span { start: 7, end: 9 }])));
    assert!(all.contains(&(3, vec![Span { start: 8, end: 9 }])));
    assert!(!all.iter().any(|o| o.0 == 4));
}

#[test]
fn touching_ranges_become_one() {
    let t = theme(&["markup.link.url"]);
    let span = |start: usize, end: usize| Span { start, end };
    let links = vec![span(0, 2), span(2, 4), span(3, 3), span(3, 5), span(6, 7), span(6, 7)];
    assert_eq!(
        homogeneous(&doc_document_link_highlights(&links, &t).unwrap()),
        (0, vec![span(0, 5), span(6, 7)])
    );
    assert!(doc_document_link_highlights(&vec![span(3, 3)], &t).is_none());
}

#[test]
fn selections_are_highlighted() {
    let t = theme(&["ui.selection", "ui.cursor", "ui.cursor.primary", "ui.selection.primary"]);
    let text = Rope::from_str("hello world");
    let s = Selection::single(0, 5);
    let shapes = CursorShapeConfig::default();
    let o = doc_selection_highlights(Mode::Normal, &text, &s, &t, &shapes, true);
    match o {
        OverlayHighlights::Heterogenous { highlights } => {
            assert_eq!(
                highlights,
                vec![(3, Span { start: 0, end: 4 }), (2, Span { start: 4, end: 5 })]
            );
        }
        OverlayHighlights::Homogeneous { .. } => panic!("several highlights expected"),
    }
    let links = vec![Span { start: 1, end: 2 }];
    assert!(doc_document_link_highlights(&links, &t).is_none());
    let linked = theme(&["markup.link.url"]);
    assert_eq!(
        homogeneous(&doc_document_link_highlights(&links, &linked).unwrap()),
        (0, links.clone())
    );
    assert!(doc_document_highlights(None, &t).is_none());
    assert!(highlight_focused_view_elements(false, &t, Some(3)).is_none());
    let brackets = theme(&["ui.cursor.match"]);
    assert_eq!(
        homogeneous(&highlight_focused_view_elements(true, &brackets, Some(3)).unwrap()),
        (0, vec![Span { start: 3, end: 4 }])
    );
}

#[test]
fn overlays_of_a_view() {
    let t = theme(&["ui.selection", "diagnostic", "ui.cursor", "markup.link.url"]);
    let text = Rope::from_str("hello world");
    let s = Selection::single(0, 1);
    let links = vec![Span { start: 1, end: 2 }];
    let diagnostics = vec![diagnostic(0, 3, Severity::Error, vec![])];
    let sources = |focused: bool| OverlaySources {
        text: &text,
        selection: &s,
        mode: Mode::Normal,
        has_syntax: false,
        focused,
        terminal_focused: true,
        auto_document_highlight: false,
        cursor_shape: CursorShapeConfig::default(),
        links: &links,
        diagnostics: &diagnostics,
        document_highlights: None,
        matching_bracket: None,
    };
    let unfocused = collect_view_overlays(sources(false), &t, vec![]);
    let focused = collect_view_overlays(sources(true), &t, vec![]);
    assert!(focused.len() > unfocused.len());
}

fn facts() -> ViewFacts {
    ViewFacts {
        viewport: Rect::new(0, 0, 80, 24),
        area: Rect::new(0, 0, 80, 24),
        gutter_offset: 5,
        focused: true,
        terminal_focused: true,
        cursorline: true,
        cursorcolumn: false,
        language_rainbow: None,
        rainbow_brackets: true,
        inline_diagnostics: InlineDiagnosticsConfig {
            cursor_line: DiagnosticFilter::Disable,
            other_lines: DiagnosticFilter::Disable,
            min_diagnostic_width: 40,
            prefix_len: 1,
            max_wrap: 20,
            max_diagnostics: 10,
        },
        end_of_line_diagnostics: DiagnosticFilter::Disable,
    }
}

#[test]
fn views_are_planned() {
    let plan = render_view(facts());
    assert!(plan.cursorline && !plan.cursorcolumn && plan.rainbow);
    assert!(!plan.right_border);
    assert!(plan.diagnostics_panel);
    assert_eq!(plan.statusline_area, Rect::new(0, 23, 80, 0));
    let other = render_view(ViewFacts { area: Rect::new(0, 0, 40, 24), focused: false, ..facts() });
    assert!(other.right_border);
    assert!(!other.cursorline);
    assert!(!render_view(ViewFacts { language_rainbow: Some(false), ..facts() }).rainbow);
}

#[test]
fn borders_rulers_and_gutters() {
    let t = theme(&["ui.window", "ui.virtual.ruler", "ui.linenr"]);
    let border = render_right_border(Rect::new(0, 2, 10, 4), &t);
    assert_eq!(border.len(), 4);
    let rulers = render_rulers(&vec![5, 100], None, 0, Rect::new(2, 0, 20, 9), &t);
    assert_eq!(rulers.len(), 1);
    assert!(matches!(&rulers[0], DrawOp::Restyle { area, .. } if area.x == 6 && area.height == 9));
    let own = render_rulers(&vec![5], Some(&vec![3, 4]), 0, Rect::new(0, 0, 20, 9), &t);
    assert_eq!(own.len(), 2);
    assert_eq!(gutter_columns(&vec![2, 1, 3], 4), vec![4, 6, 7]);
    let styles = gutter_styles(&t);
    let pos = LinePos { first_visual_line: true, doc_line: 3, visual_line: 1 };
    let op = render_gutter(4, 3, pos, &vec![3], styles, Some((" 4".to_string(), Style::default())));
    assert!(matches!(op, DrawOp::Text { x: 4, y: 1, .. }));
}

#[test]
fn cursor_lines_and_columns() {
    let t = theme(&["ui.cursorline.primary", "ui.cursorline.secondary", "ui.cursorcolumn"]);
    let text = Rope::from_str("ab\ncd\nef");
    let s = Selection {
        ranges: vec![Range { anchor: 0, head: 1 }, Range { anchor: 3, head: 4 }],
        primary_index: 1,
    };
    assert_eq!(lines_of_cursors(&text, &s), vec![0, 1]);
    let c = cursorline(&text, &s, &t, Rect::new(0, 0, 10, 5));
    assert_eq!(c.primary_line, 1);
    let at = |doc_line: usize| LinePos { first_visual_line: true, doc_line, visual_line: doc_line as u16 };
    assert!(matches!(c.draw(at(1)), Some(DrawOp::Restyle { style, .. }) if style == c.primary_style));
    assert!(matches!(c.draw(at(0)), Some(DrawOp::Restyle { style, .. }) if style == c.secondary_style));
    assert!(c.draw(at(2)).is_none());
    let inner = Rect::new(2, 0, 8, 5);
    let ops = highlight_cursorcolumn(&s, &vec![0, 1], 0, inner, Rect::new(0, 0, 10, 5), &t);
    assert_eq!(ops.len(), 2);
}

#[test]
fn diagnostics_at_the_cursor_are_shown() {
    let t = theme(&["error", "warning", "ui.text"]);
    let list = vec![diagnostic(0, 3, Severity::Error, vec![]), diagnostic(5, 9, Severity::Error, vec![])];
    let (pieces, area) = render_diagnostics(&list, 6, Rect::new(0, 0, 80, 24), &t);
    let text: String = pieces.iter().map(|p| p.text.clone()).collect();
    assert!(text.contains('m'));
    assert!(area.width <= 80);
    let (none, _) = render_diagnostics(&list, 4, Rect::new(0, 0, 80, 24), &t);
    assert!(none.is_empty());
}
