use helix_view::app_id::AppIds;
use helix_view::diff_view::build_file_entry;
use helix_view::diff_view::dim_color;
use helix_view::diff_view::draw_line_background;
use helix_view::diff_view::file_name_of;
use helix_view::diff_view::layout;
use helix_view::diff_view::render_diff_content;
use helix_view::diff_view::render_frame;
use helix_view::diff_view::render_sidebar;
use helix_view::diff_view::render_with_syntax;
use helix_view::diff_view::scroll_anchor;
use helix_view::diff_view::DiffKey;
use helix_view::diff_view::DiffView;
use helix_view::draw::DrawOp;
use helix_view::file_diff::hunks_for_lines;
use helix_view::file_diff::split_lines;
use helix_view::file_diff::structured_diff_for_blobs;
use helix_view::file_diff::try_structured_diff_for_blobs;
use helix_view::file_diff::DiffLineKind;
use helix_view::file_diff::FileDiff;
use helix_view::file_diff::FileDiffHunk;
use helix_view::git::collect_tree_entries;
use helix_view::git::diff_deleted_tree;
use helix_view::git::diff_trees;
use helix_view::git::file_change;
use helix_view::git::find_file_in_commit;
use helix_view::git::for_each_changed_file;
use helix_view::git::format_relative_time;
use helix_view::git::get_commit_log;
use helix_view::git::get_local_diff;
use helix_view::git::get_worktree_root;
use helix_view::git::goes_on;
use helix_view::git::head_name;
use helix_view::git::name_files;
use helix_view::git::try_unified_diff_for_blobs;
use helix_view::git::unified_diff_for_blobs;
use helix_view::git::EntryKind;
use helix_view::git::EntryStatus;
use helix_view::git::FileChange;
use helix_view::git::GitError;
use helix_view::git::RawCommit;
use helix_view::git::StatusItem;
use helix_view::git::StatusStep;
use helix_view::git::TreeEntry;
use helix_view::git::TreeStep;
use helix_view::graphics::Color;
use helix_view::graphics::Rect;
use helix_view::graphics::Style;
use helix_view::input::Event;
use helix_view::input::EventResult;
use helix_view::input::KeyCode;
use helix_view::input::KeyEvent;
use helix_view::input::KeyModifiers;
use helix_view::input::MouseButton;
use helix_view::input::MouseEvent;
use helix_view::input::MouseEventKind;
use helix_view::text::Rope;
use helix_view::theme::Theme;
use helix_view::theme::ThemeEntry;

fn shown(hunk: &FileDiffHunk) -> Vec<String> {
    hunk.lines
        .iter()
        .map(|(kind, text)| {
            let mark = match kind {
                DiffLineKind::Context => ' ',
                DiffLineKind::Added => '+',
                DiffLineKind::Deleted => '-',
                DiffLineKind::HunkHeader => '@',
            };
            format!("{}{}", mark, text)
        })
        .collect()
}

#[test]
fn lines_keep_their_ends() {
    assert_eq!(split_lines("a\nb\r\nc"), vec!["a\n", "b\r\n", "c"]);
    assert_eq!(split_lines("a\n"), vec!["a\n"]);
    assert!(split_lines("").is_empty());
    assert_eq!(split_lines("\n\n"), vec!["\n", "\n"]);
    let hunks = structured_diff_for_blobs(b"", b"a\r\nb");
    assert_eq!(shown(&hunks[0])[1..], ["+a\r".to_string(), "+b".to_string()]);
}

#[test]
fn a_changed_line_has_context_around_it() {
    let old = b"1\n2\n3\n4\n5\n6\n7\n8\n9\n";
    let new = b"1\n2\n3\n4\nfive\n6\n7\n8\n9\n";
    let hunks = structured_diff_for_blobs(old, new);
    assert_eq!(hunks.len(), 1);
    let h = &hunks[0];
    assert_eq!((h.old_start, h.old_count, h.new_start, h.new_count), (2, 7, 2, 7));
    let lines = shown(h);
    assert!(lines.contains(&"-5".to_string()));
    assert!(lines.contains(&"+five".to_string()));
    assert!(lines.contains(&" 2".to_string()));
    assert!(lines.contains(&" 8".to_string()));
    assert!(!lines.contains(&" 1".to_string()));
    assert!(!lines.contains(&" 9".to_string()));
}

#[test]
fn far_changes_are_in_hunks_of_their_own() {
    let old: String = (0..40).map(|i| format!("{}\n", i)).collect();
    let new: String = (0..40)
        .map(|i| if i == 3 || i == 30 { format!("new {}\n", i) } else { format!("{}\n", i) })
        .collect();
    let hunks = structured_diff_for_blobs(old.as_bytes(), new.as_bytes());
    assert_eq!(hunks.len(), 2);
    let same = structured_diff_for_blobs(old.as_bytes(), old.as_bytes());
    assert!(same.is_empty());
    let checked = try_structured_diff_for_blobs(old.as_bytes(), new.as_bytes()).unwrap();
    assert_eq!(shown(&checked[1]), shown(&hunks[1]));
}

#[test]
fn bytes_that_are_no_text_are_replaced() {
    let hunks = structured_diff_for_blobs(b"", b"a\xffb\n");
    assert!(shown(&hunks[0]).contains(&"+a\u{fffd}b".to_string()));
}

#[test]
fn a_hunk_shows_both_versions() {
    let old: Vec<String> = ["a", "b", "c"].iter().map(|s| s.to_string()).collect();
    let new: Vec<String> = ["a", "x", "c"].iter().map(|s| s.to_string()).collect();
    let hunks = hunks_for_lines(&old, &new, &vec![(1, 2, 1, 2)]);
    let side = |skip: DiffLineKind| -> Vec<String> {
        hunks[0]
            .lines
            .iter()
            .filter(|(k, _)| *k != skip && *k != DiffLineKind::HunkHeader)
            .map(|(_, t)| t.clone())
            .collect()
    };
    assert_eq!(side(DiffLineKind::Added), old);
    assert_eq!(side(DiffLineKind::Deleted), new);
}

#[test]
fn unified_diffs_name_their_files() {
    let text = unified_diff_for_blobs(b"a\nb\n", b"a\nc\n", "f", "f");
    assert!(text.starts_with("--- a/f\n+++ b/f\n@@ "));
    assert!(text.contains("-b\n"));
    assert!(text.contains("+c\n"));
    assert_eq!(
        try_unified_diff_for_blobs(b"a\nb\n", b"a\nc\n", "f", "f"),
        Some(text)
    );
    assert_eq!(name_files("", "f", "f"), "");
    assert_eq!(unified_diff_for_blobs(b"a\n", b"a\n", "f", "f"), "");
}

#[test]
fn status_items_become_changes() {
    let modified = StatusItem::Modification { path: "f".to_string(), status: EntryStatus::Modification };
    assert!(matches!(file_change(modified), Some(FileChange::Modified { path }) if path == "f"));
    let conflict = StatusItem::Modification { path: "f".to_string(), status: EntryStatus::Conflict };
    assert!(matches!(file_change(conflict), Some(FileChange::Conflict { .. })));
    let removed = StatusItem::Modification { path: "f".to_string(), status: EntryStatus::Removed };
    assert!(matches!(file_change(removed), Some(FileChange::Deleted { .. })));
    let stale = StatusItem::Modification { path: "f".to_string(), status: EntryStatus::NeedsUpdate };
    assert!(file_change(stale).is_none());
    let untracked = StatusItem::DirectoryContents { path: "f".to_string(), untracked: true };
    assert!(matches!(file_change(untracked), Some(FileChange::Untracked { .. })));
    let ignored = StatusItem::DirectoryContents { path: "f".to_string(), untracked: false };
    assert!(file_change(ignored).is_none());
    let renamed = StatusItem::Rewrite { from_path: "a".to_string(), to_path: "b".to_string() };
    assert!(matches!(
        file_change(renamed),
        Some(FileChange::Renamed { from_path, to_path }) if from_path == "a" && to_path == "b"
    ));
    assert!(matches!(
        for_each_changed_file(Err("bad".to_string())),
        StatusStep::ReportError(e) if e == "bad"
    ));
}

#[test]
fn the_consumer_ends_the_walk() {
    let modified = |name: &str| Ok(StatusItem::Modification {
        path: name.to_string(),
        status: EntryStatus::Modification,
    });
    let stale = Ok(StatusItem::Modification {
        path: "s".to_string(),
        status: EntryStatus::NeedsUpdate,
    });
    let items = vec![Err("bad".to_string()), modified("a"), stale, modified("b"), modified("c")];
    let mut told = Vec::new();
    for item in items {
        let step = for_each_changed_file(item);
        let wants_more = match &step {
            StatusStep::ReportError(e) => {
                told.push(e.clone());
                false
            }
            StatusStep::Report(FileChange::Modified { path }) => {
                told.push(path.clone());
                path != "b"
            }
            StatusStep::Report(_) => panic!("a modification expected"),
            StatusStep::Skip => false,
        };
        if !goes_on(&step, wants_more) {
            break;
        }
    }
    assert_eq!(told, vec!["bad", "a", "b"]);
}

#[test]
fn repositories() {
    assert!(matches!(get_worktree_root(Some("/r".to_string())), Ok(p) if p == "/r"));
    assert!(matches!(get_worktree_root(None), Err(GitError::BareRepository)));
    assert_eq!(head_name(Some("main".to_string()), "12345678".to_string()), "main");
    assert_eq!(head_name(None, "123456789abc".to_string()), "12345678");
    assert_eq!(head_name(None, "1234".to_string()), "1234");
    assert!(matches!(find_file_in_commit(None), Err(GitError::FileUntracked)));
    assert!(matches!(
        find_file_in_commit(Some(entry("f", EntryKind::Link, "1"))),
        Err(GitError::NotAFile(EntryKind::Link))
    ));
    assert!(matches!(
        find_file_in_commit(Some(entry("f", EntryKind::Blob, "1"))),
        Ok(id) if id == "1"
    ));
}

fn entry(name: &str, kind: EntryKind, id: &str) -> TreeEntry {
    TreeEntry { name: name.to_string(), kind, id: id.to_string() }
}

#[test]
fn trees_are_compared_by_name() {
    let sorted = collect_tree_entries(vec![
        entry("b", EntryKind::Blob, "1"),
        entry("a", EntryKind::Tree, "2"),
        entry("b", EntryKind::Blob, "3"),
    ]);
    let names: Vec<(&str, &str)> = sorted.iter().map(|e| (e.name.as_str(), e.id.as_str())).collect();
    assert_eq!(names, vec![("a", "2"), ("b", "3")]);

    let old = vec![
        entry("dir", EntryKind::Tree, "t1"),
        entry("gone", EntryKind::Blob, "g"),
        entry("same", EntryKind::Blob, "s"),
        entry("sub", EntryKind::Tree, "t3"),
    ];
    let new = vec![
        entry("added", EntryKind::Blob, "n"),
        entry("dir", EntryKind::Tree, "t2"),
        entry("same", EntryKind::Blob, "s"),
    ];
    let steps = diff_trees(Some(old), new, "top");
    let texts: Vec<String> = steps
        .iter()
        .map(|s| match s {
            TreeStep::Trees { path, old, id } => format!("trees {} {:?} {}", path, old, id),
            TreeStep::DeletedTree { path, id } => format!("deleted {} {}", path, id),
            TreeStep::Blobs { path, old, new } => format!("blobs {} {:?} {:?}", path, old, new),
        })
        .collect();
    assert!(texts.contains(&"blobs top/added None Some(\"n\")".to_string()));
    assert!(texts.contains(&"trees top/dir Some(\"t1\") t2".to_string()));
    assert!(texts.contains(&"blobs top/gone Some(\"g\") None".to_string()));
    assert!(texts.contains(&"deleted top/sub t3".to_string()));
    assert_eq!(texts.len(), 4);

    let same = vec![entry("f", EntryKind::Blob, "1")];
    assert!(diff_trees(Some(same.clone()), same, "").is_empty());
    let gone = diff_deleted_tree(&vec![entry("f", EntryKind::Blob, "1")], "d");
    assert!(matches!(&gone[0], TreeStep::Blobs { path, old, new } if path == "d/f" && old.as_deref() == Some("1") && new.is_none()));
}

#[test]
fn local_changes_name_both_sides() {
    let d = get_local_diff(&FileChange::Untracked { path: "f".to_string() });
    assert_eq!((d.old_name.as_str(), d.new_name.as_str()), ("f", "f"));
    assert_eq!((d.old_path, d.new_path), (None, Some("f".to_string())));
    let d = get_local_diff(&FileChange::Deleted { path: "f".to_string() });
    assert_eq!((d.old_path, d.new_path), (Some("f".to_string()), None));
    let d = get_local_diff(&FileChange::Renamed {
        from_path: "a".to_string(),
        to_path: "b".to_string(),
    });
    assert_eq!((d.old_name.as_str(), d.new_name.as_str()), ("a", "b"));
    assert_eq!((d.old_path, d.new_path), (Some("a".to_string()), Some("b".to_string())));
}

#[test]
fn ages_are_told_in_words() {
    let now = 100_000_000;
    assert_eq!(format_relative_time(now, now - 5), "just now");
    assert_eq!(format_relative_time(now, now - 120), "2 min ago");
    assert_eq!(format_relative_time(now, now - 7200), "2 hours ago");
    assert_eq!(format_relative_time(now, now - 3 * 86400), "3 days ago");
    assert_eq!(format_relative_time(now, now - 61 * 86400), "2 months ago");
    assert_eq!(format_relative_time(now, now - 731 * 86400), "2 years ago");
    assert_eq!(format_relative_time(now, now + 500), "just now");
    let commit = |n: u32| RawCommit {
        hash: format!("h{}23456789", n),
        message: "m".to_string(),
        author: "a".to_string(),
        seconds: None,
    };
    let log = get_commit_log(&vec![commit(1), commit(2), commit(3)], 2, now);
    assert_eq!(log.len(), 2);
    assert_eq!(log[1].hash, "h223456789");
    assert_eq!(log[1].short_hash, "h223456");
}

fn two_files() -> Vec<FileDiff> {
    let hunks = structured_diff_for_blobs(b"1\n2\n3\n", b"1\ntwo\n3\n4\n");
    vec![
        FileDiff { path: "src/a.rs".to_string(), change_kind: 'M', hunks },
        FileDiff { path: "b".to_string(), change_kind: 'A', hunks: structured_diff_for_blobs(b"", b"x\n") },
    ]
}

#[test]
fn lines_are_numbered() {
    let e = build_file_entry(two_files().remove(0));
    assert_eq!(e.rel_path, "src/a.rs");
    let numbers: Vec<(DiffLineKind, Option<usize>, Option<usize>)> = e
        .display_lines
        .iter()
        .filter(|l| l.kind != DiffLineKind::HunkHeader)
        .map(|l| (l.kind, l.old_lineno, l.new_lineno))
        .collect();
    assert_eq!(numbers[0], (DiffLineKind::Context, Some(1), Some(1)));
    assert_eq!(numbers[1], (DiffLineKind::Deleted, Some(2), None));
    assert_eq!(numbers[2], (DiffLineKind::Added, None, Some(2)));
    assert_eq!(numbers[3], (DiffLineKind::Context, Some(3), Some(3)));
    assert_eq!(numbers[4], (DiffLineKind::Added, None, Some(4)));
}

fn key(code: KeyCode) -> Event {
    Event::Key(KeyEvent { code, modifiers: KeyModifiers::empty() })
}

fn theme() -> Theme {
    Theme {
        name: "t".to_string(),
        entries: vec![
            ThemeEntry { scope: "ui.text".to_string(), style: Style::default().fg(Color::White) },
            ThemeEntry { scope: "diff.plus".to_string(), style: Style::default().fg(Color::Green) },
        ],
    }
}

#[test]
fn keys_move_through_the_changes() {
    let mut ids = AppIds::default();
    let mut view = DiffView::new(&mut ids, DiffKey::LocalChanges, "/r".to_string(), two_files());
    assert_eq!(view.cwd(), "/r");
    assert!(matches!(view.diff_key(), DiffKey::LocalChanges));
    assert_eq!(view.sidebar_area, Rect::new(0, 0, 0, 0));
    assert_eq!(view.selected_file, 0);
    assert_eq!(view.handle_event(&key(KeyCode::Char('j'))), EventResult::Consumed);
    assert_eq!(view.scroll_offset, 1);
    assert_eq!(view.handle_event(&key(KeyCode::Char('k'))), EventResult::Consumed);
    assert_eq!(view.scroll_offset, 0);
    assert_eq!(view.handle_event(&key(KeyCode::Char('k'))), EventResult::Consumed);
    assert_eq!(view.scroll_offset, 0);
    assert_eq!(view.handle_event(&Event::FocusGained), EventResult::Ignored);
    assert_eq!(view.handle_event(&key(KeyCode::F(5))), EventResult::Ignored);
    for _ in 0..100 {
        view.handle_event(&key(KeyCode::Char('j')));
    }
    assert!(view.scroll_offset < view.files[0].display_lines.len());
    assert!(view.ensure_highlight_doc().is_some());
    view.refresh(vec![]);
    assert_eq!(view.selected_file, 0);
    assert!(view.files.is_empty());
    assert!(view.ensure_highlight_doc().is_none());
}

#[test]
fn the_same_changes_have_the_same_key() {
    let a = DiffKey::CommitDiff { hash: "1234567890".to_string() };
    let b = DiffKey::CommitDiff { hash: "1234567890".to_string() };
    assert!(a.same(&b));
    assert!(!a.same(&DiffKey::LocalChanges));
    assert!(DiffKey::LocalChanges.same(&DiffKey::LocalChanges));
    let mut ids = AppIds::default();
    let commit = DiffView::new(&mut ids, a, "/r".to_string(), vec![]);
    assert_eq!(commit.name(), "[1234567]");
    let short = DiffKey::CommitDiff { hash: "12é".to_string() };
    assert_eq!(DiffView::new(&mut ids, short, "/r".to_string(), vec![]).name(), "[12é]");
    let local = DiffView::new(&mut ids, DiffKey::LocalChanges, "/r".to_string(), vec![]);
    assert_eq!(local.name(), "Local Changes");
}

#[test]
fn colours_are_dimmed() {
    assert_eq!(dim_color(Color::Rgb(100, 50, 0)), Color::Rgb(20, 10, 0));
    assert_eq!(dim_color(Color::Red), Color::Red);
    assert_eq!(file_name_of("src/a.rs"), "a.rs");
    assert_eq!(file_name_of("b"), "b");
    assert_eq!(file_name_of("a/b/"), "b");
    assert_eq!(file_name_of("a/."), "a");
    assert_eq!(file_name_of("a/.."), "a/..");
    assert_eq!(file_name_of("/"), "/");
    assert_eq!(file_name_of(""), "");
}

#[test]
fn the_window_is_divided() {
    let mut ids = AppIds::default();
    let mut view = DiffView::new(&mut ids, DiffKey::LocalChanges, "/r".to_string(), two_files());
    let area = Rect::new(0, 0, 100, 20);
    let l = layout(&mut view, area);
    assert_eq!(l.sidebar.x, 0);
    assert_eq!(l.separator, l.sidebar.width);
    assert_eq!(l.content.x, l.separator + 1);
    assert_eq!(l.content.x + l.content.width, 100);
    assert_eq!(view.sidebar_area, l.sidebar);
    let t = theme();
    assert!(!render_sidebar(&view, l.sidebar, &t, None).is_empty());
    assert!(!render_frame(&view, area, l.separator, &t).is_empty());
    let (gutter, content, styles) = render_diff_content(&view, l.content, &t).unwrap();
    assert_eq!(gutter.x + gutter.width, content.x);
    let ops = render_with_syntax(&view.files[0], 0, content, gutter, styles);
    assert!(!ops.is_empty());
    let added = view.files[0]
        .display_lines
        .iter()
        .position(|l| l.kind == DiffLineKind::Added)
        .unwrap();
    assert!(matches!(
        draw_line_background(&view.files[0], styles, added, 0, content),
        Some(DrawOp::Restyle { .. })
    ));
    assert!(draw_line_background(&view.files[0], styles, 999, 0, content).is_none());
    let click = MouseEvent {
        kind: MouseEventKind::Down(MouseButton::Left),
        column: 1,
        row: 1,
        modifiers: KeyModifiers::empty(),
    };
    assert_eq!(view.handle_event(&Event::Mouse(click)), EventResult::Consumed);
    assert_eq!(view.selected_file, 1);
}

#[test]
fn the_first_line_in_view_starts_at_its_first_character() {
    let text = Rope::from_str("a\nbb\nc");
    assert_eq!(scroll_anchor(&text, 0), 0);
    assert_eq!(scroll_anchor(&text, 1), 2);
    assert_eq!(scroll_anchor(&text, 2), 5);
}
