use helix_view::app_id::AppIds;
use helix_view::apps::AppKind;
use helix_view::clipboard::ClipboardProvider;
use helix_view::config::BufferLine;
use helix_view::config::Config;
use helix_view::config::DiagnosticFilter;
use helix_view::config::IndentationHeuristic;
use helix_view::config::InlineDiagnosticsConfig;
use helix_view::config::Mode;
use helix_view::config::Severity;
use helix_view::config::Surroundings;
use helix_view::draw::DrawOp;
use helix_view::editor::EditorModel;
use helix_view::editor_view::command_mode;
use helix_view::editor_view::handle_mouse_event;
use helix_view::editor_view::mode_switches;
use helix_view::editor_view::pending_keys;
use helix_view::editor_view::tab_name;
use helix_view::editor_view::CountStep;
use helix_view::editor_view::Direction;
use helix_view::editor_view::EditorView;
use helix_view::editor_view::Hints;
use helix_view::editor_view::KeyStep;
use helix_view::editor_view::KeymapResult;
use helix_view::editor_view::MouseContext;
use helix_view::editor_view::MouseEffect;
use helix_view::editor_view::OnKeyCallbackKind;
use helix_view::editor_view::Position;
use helix_view::editor_view::ViewId;
use helix_view::editor_view::ViewStep;
use helix_view::graphics::Color;
use helix_view::graphics::CursorKind;
use helix_view::graphics::Rect;
use helix_view::graphics::Style;
use helix_view::handlers::close_prompts;
use helix_view::handlers::Handlers;
use helix_view::handlers::SignatureHelpEvent;
use helix_view::handlers::SignatureHelpInvoked;
use helix_view::icons::file_icon;
use helix_view::icons::Icon;
use helix_view::input::canonicalize_key;
use helix_view::input::Event;
use helix_view::input::EventResult;
use helix_view::input::KeyCode;
use helix_view::input::KeyEvent;
use helix_view::input::KeyModifiers;
use helix_view::input::MouseButton;
use helix_view::input::MouseEvent;
use helix_view::input::MouseEventKind;
use helix_view::key_menu::KeyMenu;
use helix_view::key_menu::KeyMenuStep;
use helix_view::key_menu::KeyTrie;
use helix_view::key_menu::KeyTrieEntry;
use helix_view::key_menu::KeyTrieNode;
use helix_view::layers::layer_cursor;
use helix_view::layers::Layer;
use helix_view::layers::LayerAnswer;
use helix_view::layers::LayerDispatch;
use helix_view::layers::LayerState;
use helix_view::selection::Range;
use helix_view::tab_manager::finish_global;
use helix_view::tab_manager::global_step;
use helix_view::tab_manager::layout;
use helix_view::tab_manager::render_commandline;
use helix_view::tab_manager::AppLabel;
use helix_view::tab_manager::GlobalStep;
use helix_view::tab_manager::TabManager;
use helix_view::tab_manager::TabStep;
use helix_view::text::Rope;
use helix_view::textobject_menu::Motion;
use helix_view::textobject_menu::SyntaxObject;
use helix_view::textobject_menu::TextObject;
use helix_view::textobject_menu::TextObjectMenu;
use helix_view::textobject_menu::TextObjectStep;
use helix_view::theme::Theme;
use helix_view::theme::ThemeEntry;
use helix_view::welcome::WelcomePage;
use helix_view::welcome::WelcomeStep;

fn key(code: KeyCode) -> KeyEvent {
    KeyEvent { code, modifiers: KeyModifiers::empty() }
}

fn press(c: char) -> Event {
    Event::Key(key(KeyCode::Char(c)))
}

fn theme(scopes: &[&str]) -> Theme {
    Theme {
        name: "t".to_string(),
        entries: scopes
            .iter()
            .enumerate()
            .map(|(i, s)| ThemeEntry {
                scope: s.to_string(),
                style: Style::default().fg(Color::Indexed(i as u8)),
            })
            .collect(),
    }
}

#[test]
fn shift_is_taken_off_characters() {
    let shift = KeyModifiers { shift: true, ..KeyModifiers::empty() };
    let mut a = KeyEvent { code: KeyCode::Char('A'), modifiers: shift };
    canonicalize_key(&mut a);
    assert_eq!(a, key(KeyCode::Char('A')));
    let mut f = KeyEvent { code: KeyCode::F(1), modifiers: shift };
    canonicalize_key(&mut f);
    assert_eq!(f.modifiers, shift);
}

fn editor() -> EditorModel<(), (), ()> {
    let config = Config::default_in(Surroundings {
        windows: false,
        terminal: None,
        clipboard_provider: ClipboardProvider::Off,
        indent_heuristic: IndentationHeuristic::Hybrid,
        inline_diagnostics: InlineDiagnosticsConfig {
            cursor_line: DiagnosticFilter::Disable,
            other_lines: DiagnosticFilter::Disable,
            min_diagnostic_width: 40,
            prefix_len: 1,
            max_wrap: 20,
            max_diagnostics: 10,
        },
    });
    EditorModel::new(Rect::new(0, 0, 80, 24), theme(&["ui.selection"]), config, 0)
}

#[test]
fn keys_reach_the_waiting_callback_first() {
    let mut ids = AppIds::default();
    let mut view = EditorView::new(&mut ids, 3);
    let mut e = editor();
    e.set_status("old".to_string());
    let k = key(KeyCode::Char('x'));
    assert_eq!(view.handle_event(&Event::Key(k), &mut e, 10), ViewStep::Key(k, KeyStep::Command));
    assert_eq!((e.active_tab, e.idle_timer, e.get_status()), (3, 260, None));
    let f = view.finish_key(k, Some(OnKeyCallbackKind::PseudoPending), 2, false, Mode::Select);
    assert_eq!(f.result, EventResult::Consumed);
    assert!(f.ensure_cursor && f.append_history && f.run_callbacks);
    assert_eq!(view.pseudo_pending, vec![k]);
    assert_eq!(view.handle_event(&Event::Key(k), &mut e, 10), ViewStep::Key(k, KeyStep::Callback));
    let f = view.finish_key(k, None, 0, true, Mode::Normal);
    assert_eq!(f.result, EventResult::Ignored);
    assert!(view.pseudo_pending.is_empty());
    let consumed = ViewStep::Done(EventResult::Consumed);
    assert_eq!(view.handle_event(&Event::FocusLost, &mut e, 10), consumed);
    assert!(!view.terminal_focused);
    assert_eq!(
        view.cursor(Some(Position { row: 1, col: 2 }), Rect::new(3, 4, 9, 9)),
        (Some(Position { row: 5, col: 5 }), CursorKind::Underline)
    );
    assert_eq!(view.handle_event(&Event::FocusGained, &mut e, 10), consumed);
    assert_eq!(view.cursor(None, Rect::new(3, 4, 9, 9)), (None, CursorKind::Hidden));
    assert_eq!(view.handle_event(&Event::Paste("x".to_string()), &mut e, 10), consumed);
    assert_eq!(view.handle_event(&Event::IdleTimeout, &mut e, 10), ViewStep::Idle);
    assert_eq!(view.handle_idle_timeout(), EventResult::Ignored);
    view.on_next_key = Some(OnKeyCallbackKind::Fallback);
    assert!(!view.on_next_key(OnKeyCallbackKind::PseudoPending));
    e.set_status("old".to_string());
    assert_eq!(view.handle_non_key_input(&mut e, 50), (true, key(KeyCode::Null)));
    assert_eq!((e.idle_timer, e.get_status()), (300, None));
    assert_eq!(view.on_next_key, None);
    view.pseudo_pending = vec![k];
    assert_eq!(view.handle_non_key_input(&mut e, 50), (false, key(KeyCode::Null)));
    assert_eq!(view.pseudo_pending, vec![k]);
    let step = view.finish_non_key_input(&vec![k, k], KeymapResult::Cancelled);
    assert_eq!((step.commands, step.unused), (0, Some(KeymapResult::Cancelled)));
    assert!(view.pseudo_pending.is_empty());
    view.spinners_mut().start(3);
    assert!(view.spinners.is_running(3));
    view.spinners_mut().stop(3);
    assert!(!view.spinners.is_running(3));
}

#[test]
fn digits_make_a_count() {
    let d = |c: char| key(KeyCode::Char(c));
    assert_eq!(command_mode(d('3'), None, false), CountStep::SetCount(3));
    assert_eq!(command_mode(d('0'), None, false), CountStep::Dispatch);
    assert_eq!(command_mode(d('3'), None, true), CountStep::Dispatch);
    assert_eq!(command_mode(d('0'), Some(3), true), CountStep::SetCount(30));
    assert_eq!(command_mode(d('9'), Some(100_000_000), false), CountStep::Keep);
    assert_eq!(command_mode(d('0'), Some(10_000_000), false), CountStep::SetCount(100_000_000));
    assert_eq!(command_mode(d('9'), Some(1_000_000_000), false), CountStep::Keep);
    assert_eq!(command_mode(d('j'), Some(usize::MAX), false), CountStep::Dispatch);
    assert_eq!(command_mode(d('j'), Some(3), false), CountStep::Dispatch);
}

#[test]
fn keymaps_decide() {
    let mut view = EditorView::new(&mut AppIds::default(), 0);
    let pending = vec![key(KeyCode::Char('g'))];
    let step = view.handle_keymap_event(&pending, KeymapResult::Matched);
    assert_eq!((step.commands, step.hints, step.unused), (1, Hints::Sticky, None));
    assert_eq!(view.pseudo_pending, pending);
    let step = view.handle_keymap_event(&vec![], KeymapResult::Pending);
    assert_eq!((step.commands, step.hints), (0, Hints::Following));
    assert_eq!(view.handle_keymap_event(&vec![], KeymapResult::MatchedSequence(3)).commands, 3);
    let step = view.handle_keymap_event(&vec![], KeymapResult::NotFound);
    assert_eq!(step.unused, Some(KeymapResult::NotFound));
    view.on_next_key = Some(OnKeyCallbackKind::Fallback);
    let finish = view.finish_command(Some(KeymapResult::Cancelled), 1);
    assert!(!finish.fallback && !finish.clear_count);
    let finish = view.finish_command(Some(KeymapResult::NotFound), 0);
    assert!(finish.fallback && finish.clear_count);
    assert_eq!(view.on_next_key, None);
    assert_eq!(
        mode_switches(Mode::Normal, &vec![Mode::Normal, Mode::Select, Mode::Select, Mode::Normal]),
        vec![(Mode::Normal, Mode::Select), (Mode::Select, Mode::Normal)]
    );
    assert_eq!(
        pending_keys(&vec!["g".to_string()], &vec!["x".to_string(), "y".to_string()]),
        "gxy"
    );
    assert_eq!(tab_name(false, None), "[scratch]");
    assert_eq!(tab_name(true, Some("a.rs".to_string())), "a.rs");
    assert_eq!(tab_name(true, None), "");
}

fn mouse(kind: MouseEventKind) -> MouseEvent {
    MouseEvent { kind, column: 1, row: 5, modifiers: KeyModifiers::empty() }
}

#[test]
fn the_mouse_selects() {
    let text = Rope::from_str("hello\nworld");
    let v = ViewId(1);
    let cx = MouseContext {
        mode: Mode::Normal,
        text: &text,
        over_text: Some((7, v)),
        over_view: Some(v),
        over_gutter: None,
        focused_pos: Some(7),
        focus: v,
        hit_primary: Range { anchor: 0, head: 1 },
        primary: Range { anchor: 0, head: 1 },
        mouse_down_range: None,
        scroll_lines: 3,
    };
    let (effects, result) = handle_mouse_event(mouse(MouseEventKind::Down(MouseButton::Left)), &cx);
    assert_eq!(result, EventResult::Consumed);
    assert!(effects.contains(&MouseEffect::Select(v, Range { anchor: 7, head: 7 })));
    let (effects, result) = handle_mouse_event(mouse(MouseEventKind::ScrollDown), &cx);
    assert_eq!(result, EventResult::Consumed);
    assert!(effects.contains(&MouseEffect::Scroll(v, 3, Direction::Forward)));
    let select = MouseContext { mode: Mode::Select, ..cx };
    let (effects, _) = handle_mouse_event(mouse(MouseEventKind::Down(MouseButton::Left)), &select);
    assert!(effects.contains(&MouseEffect::Select(v, Range { anchor: 0, head: 8 })));
    assert!(effects.contains(&MouseEffect::SetMouseDownRange(Some(Range { anchor: 0, head: 8 }))));
    let elsewhere = MouseContext { mode: Mode::Select, focus: ViewId(2), ..cx };
    let (effects, _) = handle_mouse_event(mouse(MouseEventKind::Down(MouseButton::Left)), &elsewhere);
    assert!(effects.contains(&MouseEffect::Select(v, Range { anchor: 7, head: 7 })));
    let nowhere = MouseContext { over_text: None, over_view: None, focused_pos: None, ..cx };
    let (_, result) = handle_mouse_event(mouse(MouseEventKind::Down(MouseButton::Left)), &nowhere);
    assert_eq!(result, EventResult::Ignored);
    let (_, result) = handle_mouse_event(mouse(MouseEventKind::Moved), &nowhere);
    assert_eq!(result, EventResult::Ignored);
}

fn layer(id: Option<&'static str>, kind: &'static str, component: u32) -> Layer<u32> {
    Layer { id, kind, component }
}

#[test]
fn layers_are_found_by_name_and_kind() {
    let mut s: LayerState<u32> = LayerState::new(Rect::new(0, 0, 80, 24));
    assert_eq!(s.push_layer(layer(Some("a"), "menu", 1)), (80, 24));
    s.push_layer(layer(None, "prompt", 2));
    s.push_layer(layer(Some("picker"), "picker", 3));
    assert_eq!(s.find_layer_id("a"), Some(0));
    assert_eq!(s.find_layer("prompt"), Some(1));
    assert!(!s.has_layer("popup"));
    s.replace_or_push_layer("a", layer(Some("a"), "menu", 9));
    assert_eq!(s.layers[0].component, 9);
    s.replace_or_push_layer("a", layer(Some("a"), "other", 10));
    assert_eq!(s.layers.len(), 4);
    assert_eq!(s.remove_layer("a").unwrap().component, 9);
    close_prompts(&mut s);
    assert!(!s.has_layer("prompt"));
    assert_eq!(s.layers.len(), 2);
    close_prompts(&mut s);
    assert_eq!(s.pop_layer().unwrap().component, 10);
    s.need_full_redraw();
    assert!(s.full_redraw);
    s.resize_layers(Rect::new(0, 0, 10, 5));
    assert_eq!(s.layer_area(), Rect::new(0, 0, 10, 5));
    s.queue_macro_keys(&vec![key(KeyCode::Esc)]);
    assert_eq!(s.drain_pending_keys(), vec![key(KeyCode::Esc)]);
    assert!(s.drain_pending_keys().is_empty());
}

#[test]
fn events_stop_at_the_layer_that_uses_them() {
    let mut d = LayerDispatch::new();
    assert!(d.answer(LayerAnswer { result: EventResult::Ignored, callback: true }));
    assert!(!d.answer(LayerAnswer { result: EventResult::Consumed, callback: true }));
    let (callbacks, redraw) = d.finish(false);
    assert_eq!(callbacks, vec![0, 1]);
    assert!(redraw);
    let at = Position { row: 1, col: 1 };
    assert_eq!(
        layer_cursor(&vec![(Some(at), CursorKind::Bar), (None, CursorKind::Hidden)]),
        (Some(at), CursorKind::Bar)
    );
    assert_eq!(layer_cursor(&vec![]), (None, CursorKind::Hidden));
}

fn menu() -> KeyMenu {
    let entry = |c: char, trie: KeyTrie| KeyTrieEntry { key: key(KeyCode::Char(c)), trie };
    KeyMenu::new(KeyTrieNode {
        name: "Goto".to_string(),
        is_sticky: false,
        entries: vec![
            entry('g', KeyTrie::MappableCommand("goto_file_start".to_string())),
            entry('s', KeyTrie::Sequence(vec!["a".to_string(), "b".to_string()])),
            entry(
                'w',
                KeyTrie::Node(KeyTrieNode {
                    name: "Window".to_string(),
                    entries: vec![],
                    is_sticky: true,
                }),
            ),
        ],
    })
}

#[test]
fn a_menu_takes_the_next_key() {
    let m = menu();
    assert_eq!(m.handle_event(&press('g')), KeyMenuStep::Run(0));
    assert_eq!(m.commands(0), vec!["goto_file_start"]);
    assert_eq!(m.handle_event(&press('s')), KeyMenuStep::Run(1));
    assert_eq!(m.commands(1), vec!["a", "b"]);
    assert_eq!(m.handle_event(&press('w')), KeyMenuStep::Descend(2));
    assert_eq!(m.handle_event(&press('q')), KeyMenuStep::Close);
    assert_eq!(m.handle_event(&Event::Key(key(KeyCode::Esc))), KeyMenuStep::Close);
    assert_eq!(m.handle_event(&Event::FocusLost), KeyMenuStep::Ignored);
    let f = m.finish(false);
    assert!(f.clear_count && f.ensure_cursor && f.close);
    assert!(!m.finish(true).ensure_cursor);
    assert!(m.hints(false).is_none());
    assert_eq!(m.hints(true).unwrap().name, "Goto");
    assert_eq!(m.cursor(), (None, CursorKind::Hidden));
    assert_eq!(m.id(), Some("key-menu"));
    let sub = m.descend(2).unwrap();
    assert_eq!(sub.node.name, "Window");
    assert!(!sub.finish(false).close);
    assert!(menu().descend(0).is_none());
    assert!(menu().descend(9).is_none());
}

#[test]
fn a_menu_selects_text_objects() {
    let m = TextObjectMenu::new(TextObject::Inside, 2);
    assert_eq!(m.info.title, "Match inside");
    assert_eq!(TextObjectMenu::new(TextObject::Around, 1).info.title, "Match around");
    assert_eq!(TextObjectMenu::new(TextObject::Movement, 1).info.title, "Textobject");
    assert_eq!(m.info.rows.len(), 13);
    assert_eq!(m.info.rows[5], ("a".to_string(), "Argument/parameter (tree-sitter)".to_string()));
    let select = |c: char| m.handle_event(&press(c), true);
    assert_eq!(select('w'), TextObjectStep::Select(Motion::Word { long: false }));
    assert_eq!(select('W'), TextObjectStep::Select(Motion::Word { long: true }));
    assert_eq!(select('x'), TextObjectStep::Select(Motion::Syntax(SyntaxObject::XmlElement)));
    assert_eq!(SyntaxObject::XmlElement.name(), "xml-element");
    assert_eq!(select('('), TextObjectStep::Select(Motion::Pair('(')));
    assert_eq!(select('z'), TextObjectStep::Select(Motion::Keep));
    assert_eq!(select('g'), TextObjectStep::Select(Motion::Change));
    assert_eq!(m.handle_event(&press('g'), false), TextObjectStep::NoDiff);
    assert_eq!(m.handle_event(&Event::Key(key(KeyCode::Enter)), true), TextObjectStep::Close);
    assert_eq!(m.handle_event(&Event::FocusLost, true), TextObjectStep::Ignored);
    assert!(m.hints(true).is_some());
    assert_eq!(m.id(), Some("textobject-menu"));
}

#[test]
fn the_welcome_page_is_centred() {
    let mut ids = AppIds::default();
    let page = WelcomePage::new(&mut ids);
    assert_eq!(page.name(), "Welcome");
    assert_eq!(page.icon_path(), None);
    assert_eq!(page.cursor(), (None, CursorKind::Hidden));
    assert_eq!(page.handle_event(&press('f'), true), WelcomeStep::FilePicker);
    assert_eq!(page.handle_event(&press('f'), false), WelcomeStep::NoWorkspace);
    assert_eq!(page.handle_event(&press('e'), false), WelcomeStep::FileExplorer);
    assert_eq!(page.handle_event(&press('x'), false), WelcomeStep::Ignored);
    let t = theme(&["ui.text", "ui.text.inactive"]);
    let ops = page.render(Rect::new(10, 5, 20, 16), "proj", Some("main"), &t);
    let shown: Vec<(u16, u16, String)> = ops
        .iter()
        .map(|op| match op {
            DrawOp::Text { x, y, text, .. } => (*x, *y, text.clone()),
            _ => panic!("only texts are expected"),
        })
        .collect();
    assert_eq!(shown.len(), 6);
    assert_eq!(shown[0], (18, 10, "proj".to_string()));
    assert_eq!(shown[1], (16, 11, "on main".to_string()));
    assert_eq!(shown[2].2, "");
    assert_eq!(shown[5], (12, 15, ":   command mode".to_string()));
    assert_eq!(page.render(Rect::new(0, 0, 20, 3), "proj", None, &t).len(), 3);
}

#[test]
fn tabs_are_drawn_and_clicked() {
    let t = theme(&["ui.statusline.active", "ui.statusline.inactive"]);
    let mut b = ratatui::buffer::Buffer::empty(ratatui::layout::Rect::new(0, 0, 20, 4));
    let mut manager = TabManager::new();
    let names = vec!["one".to_string(), "two".to_string()];
    manager.render_tab_bar(&names, None, 1, Rect::new(0, 0, 20, 2), &t, &mut b);
    assert_eq!(manager.tab_regions, vec![(0, 5, 0), (5, 10, 1)]);
    let row = |b: &ratatui::buffer::Buffer, y: u16| -> String {
        (0..20).map(|x| b[(x, y)].symbol().to_string()).collect()
    };
    assert_eq!(row(&b, 1), " one  two           ");
    assert_eq!(row(&b, 0), "     ▔▔▔▔▔          ");
    let icons = vec![Icon { icon: 'i', color: Color::Red }, Icon { icon: 'j', color: Color::Red }];
    manager.render_tab_bar(&names, Some(&icons), 0, Rect::new(0, 0, 20, 2), &t, &mut b);
    assert_eq!(row(&b, 1), " i one  j two       ");
    let long = vec!["a very long name indeed".to_string(), "never".to_string()];
    manager.render_tab_bar(&long, None, 0, Rect::new(0, 0, 20, 2), &t, &mut b);
    assert_eq!(manager.tab_regions, vec![(0, 20, 0)]);

    let mut e = editor();
    let mut ids = AppIds::default();
    e.app_state.add_editor_app(Some("/a"), &vec![], &mut ids);
    e.app_state.add_editor_app(Some("/b"), &vec![Some("/a".to_string())], &mut ids);
    let click = |column: u16, row: u16| {
        Event::Mouse(MouseEvent {
            kind: MouseEventKind::Down(MouseButton::Left),
            column,
            row,
            modifiers: KeyModifiers::empty(),
        })
    };
    let consumed = TabStep::Done(EventResult::Consumed);
    assert_eq!(manager.handle_event(&click(3, 1), &mut e, 0), consumed);
    assert_eq!(e.app_state.active_app, 0);
    let ignored = TabStep::Done(EventResult::Ignored);
    assert_eq!(manager.handle_event(&click(3, 2), &mut e, 0), ignored);
    e.set_status("old".to_string());
    let looked_up = TabStep::Key(key(KeyCode::Char('x')));
    assert_eq!(manager.handle_event(&press('x'), &mut e, 9), looked_up);
    assert_eq!((e.idle_timer, e.get_status()), (259, None));
    assert_eq!(manager.cursor(), (None, CursorKind::Hidden));
}

#[test]
fn the_window_is_drawn_over_its_background() {
    let mut e = editor();
    e.theme = Theme {
        name: "t".to_string(),
        entries: vec![
            ThemeEntry {
                scope: "ui.background".to_string(),
                style: Style::default().bg(Color::Blue),
            },
            ThemeEntry {
                scope: "ui.statusline.active".to_string(),
                style: Style::default().bg(Color::Red),
            },
        ],
    };
    e.config.bufferline = BufferLine::Multiple;
    e.config.icons = false;
    let mut ids = AppIds::default();
    e.app_state.add_editor_app(Some("/a"), &vec![], &mut ids);
    e.app_state.add_editor_app(Some("/b"), &vec![Some("/a".to_string())], &mut ids);
    e.set_status("ready".to_string());
    let label = |_: &EditorModel<(), (), ()>, i: usize| AppLabel {
        name: format!("n{i}"),
        icon_path: None,
        count: Some(4),
        pending_keys: "g".to_string(),
    };
    let window = Rect::new(0, 0, 30, 5);
    let mut b = ratatui::buffer::Buffer::empty(ratatui::layout::Rect::new(0, 0, 30, 5));
    let row = |b: &ratatui::buffer::Buffer, y: u16| -> String {
        (0..30).map(|x| b[(x, y)].symbol().to_string()).collect()
    };
    let mut manager = TabManager::new();
    manager.render(window, &mut b, &mut e, &mut ids, label);
    assert_eq!(manager.tab_regions, vec![(0, 4, 0), (4, 8, 1)]);
    assert_eq!(e.main_area, Rect::new(0, 2, 30, 2));
    assert_eq!(row(&b, 1), format!("{:30}", " n0  n1 "));
    assert_eq!(row(&b, 4), format!("{:15}{:15}", "ready", "4g"));
    // The background is under the bar and the command line, and everywhere else.
    assert_eq!(b[(5, 1)].bg, ratatui::style::Color::Red);
    assert_eq!(b[(1, 1)].bg, ratatui::style::Color::Reset);
    assert_eq!(b[(20, 1)].bg, ratatui::style::Color::Blue);
    assert_eq!(b[(3, 3)].bg, ratatui::style::Color::Blue);
    assert_eq!(b[(0, 4)].bg, ratatui::style::Color::Blue);
    // A document that is gone has no tab any more, and one tab alone needs no bar.
    let gone = e.app_state.apps[0].id;
    e.app_state.doc_views.retain(|id| *id != gone);
    let mut b = ratatui::buffer::Buffer::empty(ratatui::layout::Rect::new(0, 0, 30, 5));
    manager.render(window, &mut b, &mut e, &mut ids, label);
    assert_eq!((e.app_state.apps.len(), e.app_state.active_app), (1, 0));
    assert_eq!(manager.tab_regions, vec![(0, 4, 0), (4, 8, 1)]);
    assert_eq!(e.main_area, Rect::new(0, 0, 30, 4));
    assert_eq!(row(&b, 1), format!("{:30}", ""));
    // With icons, an application without a path has that of a new document.
    e.config.icons = true;
    e.config.bufferline = BufferLine::Always;
    manager.render(window, &mut b, &mut e, &mut ids, label);
    let icon = file_icon("[scratch]").icon;
    assert_eq!(row(&b, 1), format!("{:30}", format!(" {icon} n0 ")));
    let rust = |_: &EditorModel<(), (), ()>, _: usize| AppLabel {
        name: "n".to_string(),
        icon_path: Some("main.rs".to_string()),
        count: None,
        pending_keys: String::new(),
    };
    manager.render(window, &mut b, &mut e, &mut ids, rust);
    assert_eq!(b[(1, 1)].symbol(), file_icon("main.rs").icon.to_string());
    // Without any document the welcome page is the only one left.
    e.app_state.doc_views.clear();
    manager.render(window, &mut b, &mut e, &mut ids, rust);
    assert!(matches!(e.app_state.apps[0].kind, AppKind::Welcome));
}

#[test]
fn global_keys() {
    assert_eq!(global_step(KeymapResult::Matched), GlobalStep::Run(1));
    assert_eq!(global_step(KeymapResult::Pending), GlobalStep::PushMenu);
    assert_eq!(global_step(KeymapResult::NotFound), GlobalStep::Unused);
    assert_eq!(finish_global(GlobalStep::Run(1), false, 2), (EventResult::Consumed, true));
    assert_eq!(finish_global(GlobalStep::Run(1), true, 2), (EventResult::Ignored, false));
    assert_eq!(finish_global(GlobalStep::Unused, false, 2), (EventResult::Ignored, false));
}

#[test]
fn the_window_has_a_bar_and_a_command_line() {
    let area = Rect::new(0, 0, 80, 24);
    let l = layout(area, BufferLine::Multiple, 2);
    assert_eq!(l.tab_bar, Some(Rect::new(0, 0, 80, 2)));
    assert_eq!(l.main_area, Rect::new(0, 2, 80, 21));
    assert_eq!(l.commandline, Rect::new(0, 23, 80, 1));
    let l = layout(area, BufferLine::Multiple, 1);
    assert_eq!(l.tab_bar, None);
    assert_eq!(l.main_area, Rect::new(0, 0, 80, 23));
    assert!(layout(area, BufferLine::Always, 1).tab_bar.is_some());
    assert!(layout(area, BufferLine::Never, 9).tab_bar.is_none());
}

#[test]
fn the_command_line_shows_status_and_keys() {
    let t = theme(&["error", "ui.text"]);
    let area = Rect::new(0, 23, 40, 1);
    let ops = render_commandline(area, Some(("bad", Severity::Error)), Some(12), "gx", &t);
    assert_eq!(ops.len(), 2);
    assert!(matches!(&ops[0], DrawOp::Text { x: 0, y: 23, text, style, .. } if text == "bad" && *style == t.get("error")));
    assert!(matches!(&ops[1], DrawOp::Text { x: 25, y: 23, text, .. } if text == "12gx"));
    let wide = render_commandline(area, Some(("a status that leaves no room", Severity::Info)), None, "", &t);
    assert_eq!(wide.len(), 1);
    let long = render_commandline(area, None, None, "0123456789abcdefghij", &t);
    assert!(matches!(&long[0], DrawOp::Text { text, .. } if text == "56789abcdefghij"));
}

#[test]
fn signature_help() {
    let h = Handlers;
    assert_eq!(h.trigger_signature_help(SignatureHelpInvoked::Automatic, false), None);
    assert_eq!(
        h.trigger_signature_help(SignatureHelpInvoked::Automatic, true),
        Some(SignatureHelpEvent::Trigger)
    );
    assert_eq!(
        h.trigger_signature_help(SignatureHelpInvoked::Manual, false),
        Some(SignatureHelpEvent::Invoked)
    );
}
