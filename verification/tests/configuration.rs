use helix_view::clipboard::ClipboardProvider;
use helix_view::config::deserialize_alphabet;
use helix_view::config::get_terminal_provider;
use helix_view::config::gutters_from_names;
use helix_view::config::serialize_alphabet;
use helix_view::config::serialize_duration_millis;
use helix_view::config::BufferLine;
use helix_view::config::BufferPickerConfig;
use helix_view::config::Config;
use helix_view::config::CursorShapeConfig;
use helix_view::config::DiagnosticFilter;
use helix_view::config::FileExplorerConfig;
use helix_view::config::FilePickerConfig;
use helix_view::config::GutterConfig;
use helix_view::config::GutterType;
use helix_view::config::IndentGuidesConfig;
use helix_view::config::IndentationHeuristic;
use helix_view::config::InlineDiagnosticsConfig;
use helix_view::config::KittyKeyboardProtocolConfig;
use helix_view::config::LineEnding;
use helix_view::config::LineEndingConfig;
use helix_view::config::LineNumber;
use helix_view::config::LspConfig;
use helix_view::config::Mode;
use helix_view::config::PickerStartPosition;
use helix_view::config::PopupBorderConfig;
use helix_view::config::Severity;
use helix_view::config::StatusLineConfig;
use helix_view::config::StatusLineElement;
use helix_view::config::Surroundings;
use helix_view::config::TerminalEnv;
use helix_view::config::WhitespaceCharacters;
use helix_view::config::WhitespaceRender;
use helix_view::config::WhitespaceRenderValue;
use helix_view::graphics::Color;
use helix_view::graphics::CursorKind;
use helix_view::graphics::Style;
use helix_view::theme::Theme;
use helix_view::theme::ThemeEntry;

fn quiet() -> InlineDiagnosticsConfig {
    InlineDiagnosticsConfig {
        cursor_line: DiagnosticFilter::Disable,
        other_lines: DiagnosticFilter::Disable,
        min_diagnostic_width: 40,
        prefix_len: 1,
        max_wrap: 20,
        max_diagnostics: 10,
    }
}

fn default_config() -> Config {
    Config::default_in(Surroundings {
        windows: false,
        terminal: None,
        clipboard_provider: ClipboardProvider::Off,
        indent_heuristic: IndentationHeuristic::Hybrid,
        inline_diagnostics: quiet(),
    })
}

#[test]
fn defaults() {
    let c = default_config();
    assert_eq!(c.scrolloff, 5);
    assert_eq!(c.scroll_lines, 3);
    assert!(c.mouse);
    assert_eq!(c.shell, vec!["sh", "-c"]);
    assert_eq!(c.line_number, LineNumber::Absolute);
    assert_eq!(c.idle_timeout, 250);
    assert_eq!(c.text_width, 80);
    assert!(c.auto_reload && c.auto_info);
    assert_eq!(c.bufferline, BufferLine::Never);
    assert_eq!(c.popup_border, PopupBorderConfig::Off);
    assert_eq!(c.end_of_line_diagnostics, DiagnosticFilter::Enable(Severity::Hint));
    assert_eq!(c.jump_label_alphabet.len(), 26);
    assert_eq!(c.jump_label_alphabet[25], 'z');
    assert_eq!(c.default_line_ending, LineEndingConfig::Native);
    assert_eq!(c.soft_wrap.enable, Some(false));
    let windows = Config::default_in(Surroundings {
        windows: true,
        terminal: None,
        clipboard_provider: ClipboardProvider::Off,
        indent_heuristic: IndentationHeuristic::Hybrid,
        inline_diagnostics: quiet(),
    });
    assert_eq!(windows.shell, vec!["cmd", "/C"]);
    assert!(quiet().disabled());
    assert!(FilePickerConfig::default().hidden);
    assert!(!FileExplorerConfig::default().hidden);
    assert!(FileExplorerConfig::default().flatten_dirs);
    assert!(LspConfig::default().enable);
    assert!(!LspConfig::default().display_inlay_hints);
    assert_eq!(KittyKeyboardProtocolConfig::default(), KittyKeyboardProtocolConfig::Auto);
    assert!(BufferPickerConfig::default().start_position.is_current());
    assert!(PickerStartPosition::Previous.is_previous());
    let line = StatusLineConfig::default();
    assert_eq!(line.left[0], StatusLineElement::Mode);
    assert_eq!(line.mode.normal, "NOR");
    assert_eq!(line.separator, "│");
    assert_eq!(IndentGuidesConfig::default().character, '│');
    assert_eq!(WhitespaceCharacters::default().newline, '⏎');
}

#[test]
fn gutters() {
    let g = GutterConfig::default();
    assert_eq!(
        g.layout,
        vec![
            GutterType::Diagnostics,
            GutterType::Spacer,
            GutterType::LineNumbers,
            GutterType::Spacer,
            GutterType::Diff,
        ]
    );
    assert_eq!(g.line_numbers.min_width, 3);
    assert_eq!(GutterType::from_str("DIFF"), Ok(GutterType::Diff));
    assert_eq!(GutterType::from_lowercase("spacer"), Some(GutterType::Spacer));
    assert_eq!(
        GutterType::from_str("x"),
        Err("Gutter type can only be `diagnostics`, `spacer`, `line-numbers` or `diff`.")
    );
    let names = vec!["Diff".to_string(), "line-numbers".to_string()];
    assert_eq!(
        gutters_from_names(&names).unwrap().layout,
        vec![GutterType::Diff, GutterType::LineNumbers]
    );
    assert!(gutters_from_names(&vec!["x".to_string()]).is_err());
    assert_eq!(GutterConfig::from(vec![GutterType::Diff]).line_numbers.min_width, 3);
    assert_eq!(LineNumber::from_str("REL"), Ok(LineNumber::Relative));
    assert_eq!(LineNumber::from_lowercase("abs"), Some(LineNumber::Absolute));
    assert_eq!(
        LineNumber::from_str("x"),
        Err("Line number can only be `absolute` or `relative`.")
    );
}

#[test]
fn alphabets() {
    assert_eq!(serialize_alphabet(&['a', 'é']), "aé");
    assert_eq!(deserialize_alphabet("abé"), Ok(vec!['a', 'b', 'é']));
    assert_eq!(
        deserialize_alphabet("aba"),
        Err("jump-label-alphabet must contain unique characters")
    );
    assert_eq!(serialize_duration_millis(250), Ok(250));
    assert_eq!(
        serialize_duration_millis(1 << 64),
        Err("duration value overflowed u64")
    );
}

#[test]
fn terminals() {
    let none = TerminalEnv {
        windows: false,
        wt: false,
        tmux_running: false,
        tmux: false,
        wezterm_socket: false,
        wezterm: false,
    };
    assert!(get_terminal_provider(none).is_none());
    let tmux = get_terminal_provider(TerminalEnv { tmux_running: true, tmux: true, ..none }).unwrap();
    assert_eq!((tmux.command.as_str(), tmux.args), ("tmux", vec!["split-window".to_string()]));
    let wez =
        get_terminal_provider(TerminalEnv { wezterm_socket: true, wezterm: true, ..none }).unwrap();
    assert_eq!(wez.args, vec!["cli".to_string(), "split-pane".to_string()]);
    let win = get_terminal_provider(TerminalEnv { windows: true, ..none }).unwrap();
    assert_eq!(win.command, "conhost");
    let wt = get_terminal_provider(TerminalEnv { windows: true, wt: true, ..none }).unwrap();
    assert_eq!(wt.args[2], "DEBUG");
}

#[test]
fn whitespace_and_cursors() {
    let basic = WhitespaceRender::Basic(WhitespaceRenderValue::All);
    assert_eq!(basic.space(), WhitespaceRenderValue::All);
    let specific = WhitespaceRender::Specific {
        default: Some(WhitespaceRenderValue::All),
        space: Some(WhitespaceRenderValue::Off),
        nbsp: None,
        nnbsp: None,
        tab: None,
        newline: None,
    };
    assert_eq!(specific.space(), WhitespaceRenderValue::Off);
    assert_eq!(specific.nbsp(), WhitespaceRenderValue::All);
    assert_eq!(specific.nnbsp(), WhitespaceRenderValue::All);
    assert_eq!(specific.tab(), WhitespaceRenderValue::All);
    assert_eq!(specific.newline(), WhitespaceRenderValue::All);
    let shapes = CursorShapeConfig::from_shapes(Some(CursorKind::Bar), None);
    assert_eq!(shapes.from_mode(Mode::Normal), CursorKind::Bar);
    assert_eq!(shapes.from_mode(Mode::Select), CursorKind::Block);
    assert_eq!(LineEndingConfig::Native.line_ending(LineEnding::Crlf), LineEnding::Crlf);
    assert_eq!(LineEndingConfig::LF.line_ending(LineEnding::Crlf), LineEnding::LF);
}

#[test]
fn scopes_fall_back_to_wider_ones() {
    let theme = Theme {
        name: "t".to_string(),
        entries: vec![
            ThemeEntry { scope: "ui".to_string(), style: Style::default().fg(Color::Red) },
            ThemeEntry { scope: "ui.text".to_string(), style: Style::default().fg(Color::Blue) },
        ],
    };
    assert_eq!(theme.find_highlight_exact("ui.text"), Some(1));
    assert_eq!(theme.find_highlight_exact("ui.text.focus"), None);
    assert_eq!(theme.find_highlight("ui.text.focus"), Some(1));
    assert_eq!(theme.find_highlight("ui.menu"), Some(0));
    assert_eq!(theme.find_highlight("other"), None);
    assert_eq!(theme.try_get_exact("ui.menu"), None);
    assert_eq!(theme.try_get("ui.menu").unwrap().fg, Some(Color::Red));
    assert_eq!(theme.get("other"), Style::default());
}
