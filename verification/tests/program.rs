use helix_view::app_id::AppId;
use helix_view::application::background_color;
use helix_view::application::claim_step;
use helix_view::application::cursor_cell;
use helix_view::application::open_files;
use helix_view::application::open_session;
use helix_view::application::start_source;
use helix_view::application::true_color;
use helix_view::application::Application;
use helix_view::application::ClaimStep;
use helix_view::application::ConfigStep;
use helix_view::application::EditorStep;
use helix_view::application::FileArg;
use helix_view::application::OpenOutcome;
use helix_view::application::Signal;
use helix_view::application::SignalStep;
use helix_view::application::StartError;
use helix_view::application::StartSource;
use helix_view::application::TerminalInput;
use helix_view::application::TerminalStep;
use helix_view::clipboard::ClipboardProvider;
use helix_view::config::Config;
use helix_view::config::DiagnosticFilter;
use helix_view::config::IndentationHeuristic;
use helix_view::config::InlineDiagnosticsConfig;
use helix_view::config::Mode;
use helix_view::config::PopupBorderConfig;
use helix_view::config::Severity;
use helix_view::config::Surroundings;
use helix_view::doc_view::CursorCache;
use helix_view::doc_view::DocView;
use helix_view::doc_view::Tab;
use helix_view::editor::align_view;
use helix_view::editor::get_synced_view_id;
use helix_view::editor::inserted_a_new_blank_line;
use helix_view::editor::is_blank_line;
use helix_view::editor::restore_cursor;
use helix_view::editor::try_restore_indent;
use helix_view::editor::Action;
use helix_view::editor::Align;
use helix_view::editor::CloseStep;
use helix_view::editor::ConfigEvent;
use helix_view::editor::EditorEvent;
use helix_view::editor::EditorModel;
use helix_view::editor::Wake;
use helix_view::editor::FAR_FUTURE;
use helix_view::editor_view::Position;
use helix_view::editor_view::ViewId;
use helix_view::graphics::Color;
use helix_view::graphics::CursorKind;
use helix_view::graphics::Rect;
use helix_view::graphics::Style;
use helix_view::selection::Range;
use helix_view::selection::Selection;
use helix_view::session::load_session;
use helix_view::session::save_session;
use helix_view::session::session_file_name;
use helix_view::session::SessionData;
use helix_view::session::SessionPlan;
use helix_view::terminal::draw_cursor;
use helix_view::terminal::set_background_color;
use helix_view::terminal::size;
use helix_view::terminal::term_program;
use helix_view::terminal::Capabilities;
use helix_view::terminal::Config as TerminalConfig;
use helix_view::terminal::CursorCommand;
use helix_view::terminal::HelixTerminal;
use helix_view::terminal::Outcome;
use helix_view::terminal::TermCommand;
use helix_view::terminal::TermInfo;
use helix_view::terminal_style::TerminalColor;
use helix_view::text::char_is_whitespace;
use helix_view::text::Rope;
use helix_view::theme::Theme;
use helix_view::theme::ThemeEntry;
use helix_view::transaction::Operation;

type Editor = EditorModel<String, u32, ()>;

fn theme(name: &str) -> Theme {
    Theme {
        name: name.to_string(),
        entries: vec![
            ThemeEntry { scope: "ui.selection".to_string(), style: Style::default() },
            ThemeEntry {
                scope: "ui.background".to_string(),
                style: Style::default().bg(Color::Blue),
            },
        ],
    }
}

fn config() -> Config {
    Config::default_in(Surroundings {
        windows: false,
        terminal: None,
        clipboard_provider: ClipboardProvider::Off,
        indent_heuristic: IndentationHeuristic::Hybrid,
        inline_diagnostics: InlineDiagnosticsConfig {
            cursor_line: DiagnosticFilter::Disable,
            other_lines: DiagnosticFilter::Disable,
            min_diagnostic_width: 40,
            prefix_len: 1,
            max_wrap: 20,
            max_diagnostics: 10,
        },
    })
}

fn editor() -> Editor {
    EditorModel::new(Rect::new(0, 0, 80, 24), theme("first"), config(), 1000)
}

fn tab(name: &str) -> DocView<String, u32> {
    DocView::new(name.to_string(), 1)
}

#[test]
fn a_new_editor_is_empty() {
    let e = editor();
    assert_eq!((e.tab_count(), e.active_tab), (0, 0));
    assert!(e.layer_state.layers.is_empty() && e.layer_state.pending_keys.is_empty());
    assert!(e.layer_state.last_picker.is_none() && !e.layer_state.full_redraw);
    assert_eq!(e.layer_state.area, Rect::new(0, 0, 80, 24));
    assert!(e.app_state.apps.is_empty() && e.app_state.doc_views.is_empty());
    assert_eq!(e.app_state.active_app, 0);
    assert!(e.dir_stack.is_empty());
    assert!(e.resize(true).is_none());
}

#[test]
fn views_are_resized_and_jump() {
    let mut e = editor();
    e.add_tab(tab("a"));
    assert_eq!(e.resize(true), e.refresh());
    assert!(e.resize(true).is_some());
    assert!(e.resize(false).is_none());
    let plan = e.jump_forward(ViewId(3), true, true, ViewId(4)).unwrap();
    assert_eq!((plan.select, plan.map_selection, plan.center), (ViewId(3), true, ViewId(4)));
    assert_eq!(plan.scrolloff, e.config.scrolloff);
    assert_eq!(e.jump_backward(ViewId(3), true, true, ViewId(4)), Some(plan));
    assert_eq!(e.jump_backward(ViewId(3), false, true, ViewId(4)), None);
    assert_eq!(e.jump_forward(ViewId(3), false, false, ViewId(4)), None);
}

#[test]
fn tabs_of_the_editor() {
    let mut e = editor();
    assert_eq!(e.mode(), Mode::Normal);
    assert_eq!(e.add_tab(tab("a")), 0);
    assert_eq!(e.add_tab(tab("b")), 1);
    assert_eq!(e.add_tab(tab("c")), 2);
    assert_eq!((e.tab_count(), e.active_index()), (3, 2));
    e.next_tab();
    assert_eq!(e.active_index(), 0);
    e.prev_tab();
    assert_eq!(e.active_index(), 2);
    e.activate_tab(1);
    e.activate_tab(9);
    assert_eq!(e.active_index(), 1);
    assert!(!e.close_tab(0));
    assert_eq!(e.tabs[e.active_tab].doc, "b");
    assert!(!e.close_tab(7));
    assert_eq!(e.close(2), CloseStep::Refresh);
    assert_eq!(e.close_view(0), CloseStep::TabEmpty);
    assert_eq!(e.tab_count(), 1);
    assert!(e.close_tab(0));
    assert!(e.close_tab(0));
    assert_eq!(e.close_view(0), CloseStep::NoTab);
    assert_eq!(e.refresh(), None);
}

#[test]
fn tabs_hold_their_state() {
    let mut t = tab("a");
    assert_eq!((t.doc().as_str(), *t.tree()), ("a", 1));
    *t.doc_mut() = "b".to_string();
    *t.tree_mut() = 2;
    {
        let (doc, tree) = t.doc_and_tree_mut();
        doc.push('c');
        *tree += 1;
    }
    assert_eq!((t.doc.as_str(), t.tree), ("bc", 3));
    t.set_mode(Mode::Select);
    assert_eq!(t.mode(), Mode::Select);
    t.set_count(Some(4));
    assert_eq!(t.count(), Some(4));
    t.set_last_selection(Some(Selection::point(3)));
    assert!(t.last_selection().is_some());
    t.set_mouse_down_range(Some(Range::point(1)));
    assert_eq!(t.mouse_down_range(), Some(Range::point(1)));
    assert!(t.cursor_cache().cached.is_none());
    let mut c = CursorCache::default();
    let at = Some(Position { row: 1, col: 2 });
    assert_eq!(c.get(at), at);
    assert_eq!(c.get(None), at);
    c.reset();
    assert_eq!(c.get(None), None);
    c.set(at);
    assert_eq!(c.cached, Some(at));
}

#[test]
fn modes_and_focus() {
    let mut e = editor();
    assert_eq!(e.focus(ViewId(1), ViewId(2)), None);
    e.add_tab(tab("a"));
    e.tabs[0].mode = Mode::Select;
    assert_eq!(e.focus(ViewId(1), ViewId(1)), None);
    assert_eq!(e.mode(), Mode::Select);
    assert_eq!(e.focus(ViewId(1), ViewId(2)), Some(true));
    assert_eq!(e.mode(), Mode::Normal);
    assert!(!e.enter_normal_mode());
    let inner = Rect::new(5, 1, 70, 20);
    assert_eq!(
        e.cursor(Some(Position { row: 2, col: 3 }), inner),
        (Some(Position { row: 3, col: 8 }), CursorKind::Block)
    );
    assert_eq!(e.cursor(None, inner), (None, CursorKind::Block));
}

#[test]
fn statuses() {
    let mut e = editor();
    assert_eq!(e.get_status(), None);
    e.set_status("s".to_string());
    assert_eq!(e.get_status(), Some(("s", Severity::Info)));
    e.set_warning("w".to_string());
    assert!(!e.is_err());
    e.set_error("e".to_string());
    assert!(e.is_err());
    e.clear_status();
    assert_eq!(e.get_status(), None);
    e.apply_motion(7);
    assert_eq!(e.repeat_last_motion(3), Some((7, 3)));
    e.set_cwd(Some("/old".to_string()));
    assert_eq!(e.get_last_cwd(), Some("/old"));
    assert!(!e.should_close());
    assert!(!e.popup_border() && !e.menu_border());
    e.config.popup_border = PopupBorderConfig::Menu;
    assert!(!e.popup_border() && e.menu_border());
    assert_eq!(e.config().scrolloff, 5);
}

#[test]
fn themes_are_tried_out() {
    let mut e = editor();
    assert!(e.set_theme_preview(theme("second")));
    assert!(e.set_theme_preview(theme("third")));
    assert_eq!(e.theme.name, "third");
    assert!(e.unset_theme_preview());
    assert_eq!(e.theme.name, "first");
    assert!(!e.unset_theme_preview());
    let bare = Theme { name: "bare".to_string(), entries: vec![] };
    assert!(!e.set_theme(bare));
    assert_eq!(
        e.get_status(),
        Some(("Invalid theme: `ui.selection` required", Severity::Error))
    );
    assert_eq!(e.theme.name, "first");
    assert!(e.set_theme(theme("fourth")));
    assert!(e.last_theme.is_none());
}

#[test]
fn timers() {
    let mut e = editor();
    assert_eq!(e.idle_timer, 1250);
    assert!(e.wait_event::<u8>(Wake::RedrawRequested, 2000).is_none());
    assert!(e.needs_redraw);
    assert_eq!(e.redraw_timer, 1000 + FAR_FUTURE);
    e.needs_redraw = false;
    e.reset_idle_timer(2000);
    assert_eq!(e.idle_timer, 2250);
    assert!(e.wait_event::<u8>(Wake::RedrawRequested, 2000).is_none());
    assert_eq!(e.redraw_timer, 2033);
    assert!(matches!(e.wait_event::<u8>(Wake::RedrawTimer, 2033), Some(EditorEvent::Redraw)));
    assert_eq!(e.redraw_timer, 2033 + FAR_FUTURE);
    assert!(matches!(e.wait_event::<u8>(Wake::IdleTimer, 2250), Some(EditorEvent::IdleTimer)));
    assert!(matches!(
        e.wait_event(Wake::Message((4, 'm')), 2250),
        Some(EditorEvent::LanguageServerMessage((4, 'm')))
    ));
    assert!(matches!(
        e.wait_event::<u8>(Wake::Config(ConfigEvent::Refresh), 2250),
        Some(EditorEvent::ConfigEvent(ConfigEvent::Refresh))
    ));
    e.clear_idle_timer(10);
    assert_eq!(e.idle_timer, 10 + FAR_FUTURE);
    e.add_tab(tab("a"));
    let plan = e.refresh_config(10).unwrap();
    assert!(plan.reset_inlay_hints);
    assert_eq!(plan.scrolloff, 5);
}

#[test]
fn aligning_views() {
    assert_eq!(align_view(20, Align::Top), 0);
    assert_eq!(align_view(20, Align::Center), -9);
    assert_eq!(align_view(20, Align::Bottom), -19);
    assert_eq!(align_view(0, Align::Bottom), 0);
    assert!(!Action::Load.align_view(AppId(1), AppId(2)));
    assert!(Action::Load.align_view(AppId(1), AppId(1)));
    assert!(Action::Replace.align_view(AppId(1), AppId(2)));
    assert_eq!(get_synced_view_id(ViewId(1), true, false, None).sync, true);
    assert_eq!(get_synced_view_id(ViewId(1), false, true, Some(ViewId(2))).view, ViewId(2));
    assert!(get_synced_view_id(ViewId(1), false, true, None).init);
}

#[test]
fn leaving_append_mode() {
    let text = Rope::from_str("hello");
    let s = Selection {
        ranges: vec![Range { anchor: 0, head: 3 }, Range { anchor: 4, head: 3 }],
        primary_index: 0,
    };
    assert_eq!(
        restore_cursor(&s, &text),
        vec![Range { anchor: 0, head: 2 }, Range { anchor: 3, head: 4 }]
    );
    let changes = vec![
        Operation::Retain(2),
        Operation::Insert("\n  ".to_string()),
        Operation::Retain(3),
    ];
    assert!(inserted_a_new_blank_line(&changes, 5, 5));
    assert!(!inserted_a_new_blank_line(&changes, 5, 6));
    assert!(!inserted_a_new_blank_line(&changes, 6, 6));
    let inserts = |s: &str| vec![
        Operation::Retain(2),
        Operation::Insert(s.to_string()),
        Operation::Retain(3),
    ];
    assert!(!inserted_a_new_blank_line(&inserts("\n x"), 5, 5));
    assert!(!inserted_a_new_blank_line(&inserts("  \n"), 5, 5));
    assert!(!inserted_a_new_blank_line(&inserts("\n\n\n"), 5, 5));
    assert!(inserted_a_new_blank_line(&inserts("\r\n\t"), 5, 5));
    assert!(!inserted_a_new_blank_line(&vec![Operation::Insert("\n".to_string())], 1, 1));
    let text = Rope::from_str("he\n  \nllo");
    assert_eq!(text.line_end_char_index(0), 2);
    assert_eq!(text.line_end_char_index(1), 5);
    assert_eq!(text.line_end_char_index(2), 9);
    assert_eq!(Rope::from_str("a\r\nb").line_end_char_index(0), 1);
    assert_eq!(try_restore_indent(&changes, &text, Range { anchor: 5, head: 5 }), Some((3, 5)));
    assert_eq!(try_restore_indent(&changes, &text, Range::point(1)), None);
    let clusters = |v: &[&str]| -> Vec<String> { v.iter().map(|s| s.to_string()).collect() };
    assert!(is_blank_line(&clusters(&["\r\n", " ", "\t"])));
    assert!(!is_blank_line(&clusters(&[" ", "\n"])));
    assert!(!is_blank_line(&clusters(&[])));
    assert!(char_is_whitespace('\u{3000}'));
    assert!(!char_is_whitespace('\n'));
}

fn file(is_dir: bool, outcome: OpenOutcome) -> FileArg {
    FileArg { is_dir, outcome }
}

#[test]
fn files_are_opened_at_the_start() {
    let ok = file(false, OpenOutcome::Opened);
    let odd = file(false, OpenOutcome::Irregular);
    let bad = file(false, OpenOutcome::Failed);
    let dir = file(true, OpenOutcome::Failed);
    let plan = open_files(&vec![ok, odd, ok]).unwrap();
    assert!(!plan.picker);
    assert_eq!(plan.open, vec![0, 2]);
    assert_eq!(plan.status, Some("Loaded 2 files.".to_string()));
    let plan = open_files(&vec![dir, ok]).unwrap();
    assert!(plan.picker);
    assert_eq!(plan.open, vec![1]);
    assert_eq!(plan.status, Some("Loaded 1 file.".to_string()));
    let plan = open_files(&vec![dir]).unwrap();
    assert!(plan.picker && plan.open.is_empty() && plan.status.is_none());
    assert_eq!(open_files(&vec![ok, dir]).err(), Some(StartError::Directory(1)));
    assert_eq!(open_files(&vec![ok, bad, dir]).err(), Some(StartError::OpenFailed(1)));
    let plan = open_session(&vec![bad, ok]);
    assert_eq!(plan.open, vec![1]);
    assert_eq!(plan.status, Some("Restored 1 file.".to_string()));
    assert_eq!(start_source(true, 1, true), StartSource::Tutor);
    assert_eq!(start_source(false, 1, true), StartSource::Files);
    assert_eq!(start_source(false, 0, true), StartSource::Session);
    assert_eq!(start_source(false, 0, false), StartSource::Scratch);
}

#[test]
fn the_program_reacts() {
    let mut app = Application { editor: editor(), theme_mode: None };
    app.editor.layer_state.full_redraw = true;
    app.editor.needs_redraw = true;
    assert!(app.handle_idle_timeout(false));
    assert!(app.start_frame());
    assert!(!app.start_frame());
    assert!(!app.handle_idle_timeout(false));
    assert!(matches!(app.handle_config_events(ConfigEvent::Refresh), ConfigStep::Reload));
    assert!(matches!(
        app.handle_config_events(ConfigEvent::ThemeChanged),
        ConfigStep::Background(Some(Color::Blue))
    ));
    assert!(matches!(
        app.handle_config_events(ConfigEvent::Update(Box::new(config()))),
        ConfigStep::Store(_)
    ));
    app.refreshed(Ok(()));
    assert_eq!(app.editor.get_status(), Some(("Config refreshed", Severity::Info)));
    app.refreshed(Err("no".to_string()));
    assert_eq!(app.editor.get_status(), Some(("no", Severity::Error)));
    app.show_status("m".to_string(), Severity::Hint);
    assert_eq!(app.editor.get_status(), Some(("m", Severity::Hint)));
    assert_eq!(
        app.load_configured_theme(Some((theme("rich"), false)), false, theme("plain")),
        Some(Color::Blue)
    );
    assert_eq!(app.editor.theme.name, "plain");
    app.load_configured_theme(Some((theme("rich"), false)), true, theme("plain"));
    assert_eq!(app.editor.theme.name, "rich");
    app.load_configured_theme(None, true, theme("plain"));
    assert_eq!(app.editor.theme.name, "plain");
    assert_eq!(background_color(&theme("x")), Some(Color::Blue));
    assert_eq!(app.handle_signals(Signal::Tstp), (SignalStep::Suspend, true));
    assert_eq!(app.handle_signals(Signal::Cont), (SignalStep::Resume, true));
    assert_eq!(app.handle_signals(Signal::Usr1), (SignalStep::Reload, true));
    assert_eq!(app.handle_signals(Signal::Term), (SignalStep::Quit, false));
    assert_eq!(app.handle_signals(Signal::Int), (SignalStep::Quit, false));
    assert!(matches!(
        app.handle_editor_event::<u8>(EditorEvent::IdleTimer, 5),
        EditorStep::Idle
    ));
    assert_eq!(app.editor.idle_timer, 5 + FAR_FUTURE);
    assert!(matches!(app.handle_editor_event::<u8>(EditorEvent::Redraw, 5), EditorStep::Render));
    assert_eq!(
        app.handle_terminal_events(TerminalInput::Resize(3, 4)),
        TerminalStep::Resize(3, 4)
    );
    assert_eq!(app.handle_terminal_events(TerminalInput::KeyRelease), TerminalStep::Ignore);
    assert_eq!(app.handle_terminal_events(TerminalInput::Other), TerminalStep::Layers);
    assert!(app.draws_after_input(true));
    app.editor.should_exit = true;
    assert!(!app.draws_after_input(true));
    assert_eq!(
        app.close(Some("job".to_string()), true),
        vec!["job", "Timed out waiting for language servers to shutdown"]
    );
    assert_eq!(app.exit_code(0), 0);
    assert_eq!(app.exit_code(2), 1);
    assert_eq!(claim_step(1, false), ClaimStep::Retry);
    assert_eq!(claim_step(10, false), ClaimStep::GiveUp);
    assert_eq!(claim_step(10, true), ClaimStep::Done);
    assert!(true_color(false, false, true));
    assert!(!true_color(false, false, false));
    assert_eq!(cursor_cell(Some(Position { row: 3, col: 4 })), Some((4, 3)));
}

#[test]
fn sessions_are_kept() {
    assert_eq!(session_file_name(0xbeef), "beef.json");
    assert!(matches!(save_session(&vec![None, None]), SessionPlan::Remove));
    let paths = vec![Some("/a".to_string()), None, Some("/b".to_string())];
    let data = match save_session(&paths) {
        SessionPlan::Write(data) => data,
        SessionPlan::Remove => panic!("there are files"),
    };
    assert_eq!(data.files, vec!["/a", "/b"]);
    let again = SessionData { files: data.files.clone() };
    assert_eq!(load_session(again, &vec![true, true]), Some(data.files.clone()));
    let one = SessionData { files: data.files.clone() };
    assert_eq!(load_session(one, &vec![false, true]), Some(vec!["/b".to_string()]));
    assert_eq!(load_session(data, &vec![false, false]), None);
}

#[test]
fn the_terminal_is_taken_over_and_given_back() {
    let c = TerminalConfig::from_editor(&config());
    assert!(c.enable_mouse_capture && !c.force_enable_extended_underlines);
    let caps = Capabilities::from_env_or_default(&c, None, None, None);
    assert!(!caps.has_extended_underlines);
    assert_eq!(caps.reset_cursor_command, "\x1B[0 q");
    let info = TermInfo {
        reset_style: Some("R".to_string()),
        cursor_normal: Some("N".to_string()),
        smulx: false,
        su: false,
    };
    let caps = Capabilities::from_env_or_default(&c, Some(&info), Some(5102), None);
    assert!(caps.has_extended_underlines);
    assert_eq!(caps.reset_cursor_command, "RN\x1B[0 q");
    let wez = Capabilities::from_env_or_default(&c, Some(&info), Some(1), Some("WezTerm"));
    assert!(wez.has_extended_underlines);
    assert_eq!(term_program(None, Some("t".to_string())), Some("t".to_string()));
    let mut t = HelixTerminal::new(c, caps);
    let commands = t.claim(true);
    assert_eq!(commands[0], TermCommand::EnableRawMode);
    assert_eq!(commands.last(), Some(&TermCommand::PushKeyboardEnhancement));
    assert!(t.claimed(TermCommand::EnableBracketedPaste, Outcome::Unsupported));
    assert!(!t.supports_bracketed_paste);
    assert!(t.claimed(TermCommand::EnableMouseCapture, Outcome::Done));
    assert!(t.mouse_capture_enabled);
    assert!(!t.claimed(TermCommand::ClearAll, Outcome::Failed));
    assert!(!t.claimed(TermCommand::ClearAll, Outcome::Unsupported));
    let back = t.restore(true);
    assert!(!back.contains(&TermCommand::DisableBracketedPaste));
    assert_eq!(back.last(), Some(&TermCommand::DisableRawMode));
    let off = TerminalConfig { enable_mouse_capture: false, force_enable_extended_underlines: false };
    assert_eq!(t.reconfigure_command(&off), Some(TermCommand::DisableMouseCapture));
    t.reconfigure(off);
    assert_eq!(t.reconfigure_command(&off), None);
    assert_eq!(t.get_theme_mode(), None);
    assert_eq!(set_background_color(None), TerminalColor::Reset);
    assert_eq!(set_background_color(Some(Color::Gray)), TerminalColor::DarkGray);
    assert_eq!(size(80, 24), Rect::new(0, 0, 80, 24));
    assert_eq!(draw_cursor(Some((1, 2)), CursorKind::Hidden), vec![CursorCommand::Hide]);
    assert_eq!(
        draw_cursor(Some((1, 2)), CursorKind::Bar),
        vec![CursorCommand::Show, CursorCommand::MoveTo(1, 2), CursorCommand::SteadyBar]
    );
    assert_eq!(draw_cursor(None, CursorKind::Underline), vec![CursorCommand::SteadyUnderScore]);
}
