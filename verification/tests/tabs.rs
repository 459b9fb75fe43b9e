use helix_view::active_app_proxy::ActiveAppProxy;
use helix_view::app_id::AppId;
use helix_view::app_id::AppIds;
use helix_view::application::show_first;
use helix_view::apps::AppEntry;
use helix_view::apps::AppKind;
use helix_view::apps::EditorApps;
use helix_view::diff_view::DiffKey;
use helix_view::editor_view::Position;
use helix_view::file_watcher::diff_to_refresh;
use helix_view::graphics::CursorKind;
use helix_view::input::EventResult;

/// The applications after opening files, none of which was open before.
fn with_files(paths: &[&str]) -> (EditorApps, AppIds, Vec<Option<String>>) {
    let mut apps = EditorApps::new();
    let mut ids = AppIds::default();
    let mut open: Vec<Option<String>> = Vec::new();
    for p in paths {
        assert!(apps.add_editor_app(Some(p), &open, &mut ids).is_some());
        open.push(Some(p.to_string()));
    }
    (apps, ids, open)
}

fn is_welcome(app: &AppEntry) -> bool {
    matches!(app.kind, AppKind::Welcome)
}

#[test]
fn test_open_file_creates_tab() {
    let (mut apps, mut ids, open) = with_files(&["/tmp/one"]);
    assert_eq!(1, apps.app_count());
    assert_eq!(0, apps.active_app);
    apps.add_editor_app(Some("/tmp/two"), &open, &mut ids);
    assert_eq!(2, apps.app_count(), "should have 2 tabs after opening a second file");
    assert_eq!(1, apps.active_app, "newly opened tab should be active");
}

#[test]
fn test_open_same_file_activates_existing_tab() {
    let (mut apps, mut ids, open) = with_files(&["/tmp/one"]);
    assert_eq!(apps.add_editor_app(Some("/tmp/one"), &open, &mut ids), None);
    assert_eq!(apps.add_editor_app(Some("/tmp//one"), &open, &mut ids), None);
    assert_eq!(
        1,
        apps.app_count(),
        "opening the same file should not create a duplicate tab"
    );
    assert_eq!(0, apps.active_app);
}

#[test]
fn test_close_tab() {
    let (mut apps, mut ids, _) = with_files(&["/tmp/one", "/tmp/two"]);
    assert_eq!(2, apps.app_count());
    apps.close_active_app(&mut ids);
    assert_eq!(1, apps.app_count(), "should have 1 tab after closing");
}

#[test]
fn test_close_last_tab_shows_welcome() {
    let (mut apps, mut ids, _) = with_files(&["/tmp/one"]);
    assert_eq!(1, apps.app_count());
    apps.close_active_app(&mut ids);
    assert_eq!(
        0,
        apps.doc_views.len(),
        "after closing last tab, editor should have 0 doc views (welcome page showing)"
    );
    assert_eq!(1, apps.app_count(), "welcome page should be the only app");
    assert!(is_welcome(&apps.apps[0]));
}

#[test]
fn test_welcome_tab_after_close_all() {
    let (mut apps, mut ids, _) = with_files(&["/tmp/one", "/tmp/two"]);
    assert_eq!(2, apps.app_count());
    let unwatched = apps.close_all_apps(&mut ids);
    assert!(unwatched.is_empty());
    assert_eq!(
        0,
        apps.doc_views.len(),
        "after tab-close-all, editor should have 0 doc views (welcome page showing)"
    );
    assert_eq!(1, apps.app_count(), "welcome page should be the only app");
}

#[test]
fn a_file_takes_the_place_of_the_welcome_page() {
    let mut apps = EditorApps::new();
    let mut ids = AppIds::default();
    show_first(&mut apps, 0, &mut ids);
    assert_eq!(apps.app_count(), 1);
    assert!(is_welcome(&apps.apps[0]));
    apps.add_editor_app(Some("/tmp/one"), &vec![None], &mut ids);
    assert_eq!(apps.app_count(), 1);
    assert!(!is_welcome(&apps.apps[0]));
    show_first(&mut apps, 1, &mut ids);
    assert_eq!(apps.active_app_index(), 0);
}

#[test]
fn closing_a_tab_keeps_the_shown_one() {
    let (mut apps, mut ids, _) = with_files(&["/a", "/b", "/c"]);
    let shown = apps.apps[2].id;
    assert_eq!(apps.close_app_at(0, &mut ids), None);
    assert_eq!(apps.apps[apps.active_app].id, shown);
    apps.close_app_at(7, &mut ids);
    assert_eq!(apps.app_count(), 2);
    apps.switch_app(0);
    apps.switch_app(9);
    assert_eq!(apps.active_app, 0);
    apps.close_app_at(0, &mut ids);
    assert_eq!(apps.apps[apps.active_app].id, shown);
}

#[test]
fn next_and_previous_go_round() {
    let (mut apps, _, _) = with_files(&["/a", "/b", "/c"]);
    assert_eq!(apps.active_app, 2);
    apps.next_app();
    assert_eq!(apps.active_app, 0);
    apps.prev_app();
    assert_eq!(apps.active_app, 2);
    apps.prev_app();
    assert_eq!(apps.active_app, 1);
}

#[test]
fn views_of_changes_are_shown_once() {
    let (mut apps, mut ids, _) = with_files(&["/a"]);
    let id = AppId::next(&mut ids);
    let (watch, added) = apps.add_diff_app(id, DiffKey::LocalChanges, "/repo".to_string());
    assert_eq!(watch, Some("/repo".to_string()));
    assert!(added);
    let commit = DiffKey::CommitDiff { hash: "abc".to_string() };
    let id = AppId::next(&mut ids);
    let (watch, added) = apps.add_diff_app(id, commit, "/repo".to_string());
    assert_eq!(watch, None);
    assert!(added);
    assert_eq!(apps.active_app, 2);
    assert_eq!(diff_to_refresh(&apps), None);
    let id = AppId::next(&mut ids);
    let (watch, added) = apps.add_diff_app(id, DiffKey::LocalChanges, "/repo".to_string());
    assert_eq!(watch, Some("/repo".to_string()));
    assert!(!added);
    assert_eq!(apps.active_app, 1);
    assert_eq!(diff_to_refresh(&apps), Some("/repo".to_string()));
    let unwatched = apps.close_other_apps(&mut ids);
    assert!(unwatched.is_empty());
    assert_eq!(apps.app_count(), 1);
    assert_eq!(apps.doc_views.len(), 0);
    assert_eq!(apps.close_active_app(&mut ids), Some("/repo".to_string()));
}

#[test]
fn closing_others_gives_their_work_trees() {
    let (mut apps, mut ids, _) = with_files(&["/a", "/b"]);
    for _ in 0..1 {
        let id = AppId::next(&mut ids);
        apps.add_diff_app(id, DiffKey::LocalChanges, "/repo".to_string());
    }
    apps.switch_app(1);
    let shown = apps.apps[1].id;
    assert_eq!(apps.close_other_apps(&mut ids), vec!["/repo".to_string()]);
    assert_eq!(apps.apps[0].id, shown);
    assert_eq!(apps.doc_views, vec![shown]);
}

#[test]
fn stale_documents_are_dropped() {
    let (mut apps, mut ids, _) = with_files(&["/a", "/b"]);
    let kept = apps.apps[0].id;
    apps.doc_views = vec![kept];
    apps.cleanup_stale_shells(&mut ids);
    assert_eq!(apps.app_count(), 1);
    assert_eq!(apps.active_app, 0);
    apps.doc_views = vec![];
    apps.cleanup_stale_shells(&mut ids);
    assert!(is_welcome(&apps.apps[0]));
    let welcome = apps.apps[0].id;
    apps.cleanup_stale_shells(&mut ids);
    assert_eq!(apps.apps[0].id, welcome);
}

#[test]
fn the_shown_application_gets_events() {
    let proxy = ActiveAppProxy;
    let empty = EditorApps::new();
    assert_eq!(proxy.target(&empty), None);
    assert_eq!(proxy.handle_event(&empty, EventResult::Consumed), EventResult::Ignored);
    let at = (Some(Position { row: 1, col: 2 }), CursorKind::Bar);
    assert_eq!(proxy.cursor(&empty, at), (None, CursorKind::Hidden));
    let (apps, _, _) = with_files(&["/a", "/b"]);
    assert_eq!(proxy.target(&apps), Some((1, apps.apps[1].id)));
    assert_eq!(proxy.handle_event(&apps, EventResult::Consumed), EventResult::Consumed);
    assert_eq!(proxy.cursor(&apps, at), at);
}

#[test]
fn identifiers_differ() {
    let mut ids = AppIds::default();
    let a = AppId::next(&mut ids);
    let b = AppId::next(&mut ids);
    assert_eq!(a, AppId(1));
    assert_eq!(b, AppId(2));
}
