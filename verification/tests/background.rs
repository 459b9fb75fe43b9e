use helix_view::config::Severity;
use helix_view::file_watcher::document_closed;
use helix_view::file_watcher::document_opened;
use helix_view::file_watcher::reloaded_status;
use helix_view::file_watcher::reloads;
use helix_view::file_watcher::ChangeKind;
use helix_view::file_watcher::FileWatcher;
use helix_view::file_watcher::WatchAction;
use helix_view::file_watcher::WatchRequest;
use helix_view::file_watcher::WatchedPath;
use helix_view::handlers::FileWatcherCommand;
use helix_view::language_servers::doc_diagnostics;
use helix_view::language_servers::doc_diagnostics_with_filter;
use helix_view::language_servers::drop_server_diagnostics;
use helix_view::language_servers::launch_language_servers;
use helix_view::language_servers::move_path;
use helix_view::language_servers::set_doc_path;
use helix_view::language_servers::shutdown_timeout;
use helix_view::language_servers::FileDiagnostics;
use helix_view::language_servers::NamedServer;
use helix_view::language_servers::PathChange;
use helix_view::language_servers::ServerFeatures;
use helix_view::language_servers::StartedServer;
use helix_view::lsp_message::configuration_reply;
use helix_view::lsp_message::configuration_section;
use helix_view::lsp_message::handle_language_server_message;
use helix_view::lsp_message::handle_show_document;
use helix_view::lsp_message::select_reply;
use helix_view::lsp_message::workspace_edit_response;
use helix_view::lsp_message::Call;
use helix_view::lsp_message::EditFailure;
use helix_view::lsp_message::ErrorCode;
use helix_view::lsp_message::Json;
use helix_view::lsp_message::JsonMember;
use helix_view::lsp_message::MessageContext;
use helix_view::lsp_message::MessageStep;
use helix_view::lsp_message::MessageType;
use helix_view::lsp_message::MethodCall;
use helix_view::lsp_message::Notification;
use helix_view::lsp_message::NotificationStep;
use helix_view::lsp_message::ProgressUpdate;
use helix_view::lsp_message::PromptEvent;
use helix_view::lsp_message::Registration;
use helix_view::lsp_message::Reply;
use helix_view::lsp_message::RequestEffect;
use helix_view::lsp_message::ServerInfo;
use helix_view::lsp_message::ShowDocument;
use helix_view::lsp_message::WorkDone;
use helix_view::paths::components;
use helix_view::paths::file_name;
use helix_view::paths::same_path;
use helix_view::picker_handlers::needs_highlighting;
use helix_view::picker_handlers::takes_highlighting;
use helix_view::picker_handlers::CachedPreview;
use helix_view::picker_handlers::DynamicQueryChange;
use helix_view::picker_handlers::DynamicQueryHandler;
use helix_view::picker_handlers::PreviewHighlightHandler;
use helix_view::picker_handlers::QueryStep;

fn path(s: &str) -> WatchedPath {
    WatchedPath { parts: s.split('/').map(|p| p.to_string()).collect() }
}

fn joined(p: &WatchedPath) -> String {
    p.parts.join("/")
}

#[test]
fn work_trees_are_watched_once() {
    let mut w = FileWatcher::default();
    assert!(matches!(
        w.handle_command(WatchRequest::Watch(path("r/f"))),
        WatchAction::Watch { recursive: false, .. }
    ));
    assert!(matches!(
        w.handle_command(WatchRequest::WatchWorktree(path("r"))),
        WatchAction::Watch { recursive: true, .. }
    ));
    assert!(matches!(
        w.handle_command(WatchRequest::WatchWorktree(path("r"))),
        WatchAction::Nothing
    ));
    assert_eq!(w.worktrees[0].count, 2);
    assert!(matches!(
        w.handle_command(WatchRequest::UnwatchWorktree(path("r"))),
        WatchAction::Nothing
    ));
    assert!(matches!(
        w.handle_command(WatchRequest::UnwatchWorktree(path("r"))),
        WatchAction::Unwatch { .. }
    ));
    assert!(w.worktrees.is_empty());
    assert!(matches!(
        w.handle_command(WatchRequest::UnwatchWorktree(path("r"))),
        WatchAction::Nothing
    ));
    assert!(matches!(
        w.handle_command(WatchRequest::Unwatch(path("r/f"))),
        WatchAction::Unwatch { .. }
    ));
}

#[test]
fn changes_come_to_rest() {
    let mut w = FileWatcher::default();
    w.handle_command(WatchRequest::WatchWorktree(path("r")));
    w.handle_change(ChangeKind::Metadata, vec![path("r/m")], 0);
    assert_eq!(w.deadline, None);
    w.handle_change(ChangeKind::Modify, vec![path("r/a"), path("r/.git/index")], 0);
    w.handle_change(ChangeKind::Create, vec![path("r/a"), path("other/.git/x")], 100);
    assert_eq!(w.deadline, Some(600));
    assert_eq!(w.pending.len(), 3);
    let settled = w.settle();
    let reload: Vec<String> = settled.reload.iter().map(joined).collect();
    assert_eq!(reload, vec!["r/a", "other/.git/x"]);
    assert!(settled.diff_refresh);
    assert!(w.pending.is_empty());
    w.handle_change(ChangeKind::Modify, vec![path("rr/a")], 700);
    assert!(!w.settle().diff_refresh);
    w.handle_change(ChangeKind::Other, vec![path("r/a")], 900);
    assert_eq!(w.deadline, None);
}

#[test]
fn documents_are_reloaded_and_watched() {
    assert!(reloads(true, "/f", Some("/f"), true));
    assert!(!reloads(false, "/f", Some("/f"), true));
    assert!(!reloads(true, "/f", Some("/g"), true));
    assert!(!reloads(true, "/f", None, true));
    assert!(!reloads(true, "/f", Some("/f"), false));
    assert!(reloads(true, "/d/f", Some("/d//f"), true));
    assert_eq!(reloaded_status(Some("f.rs")), "Reloaded 'f.rs'");
    assert_eq!(reloaded_status(None), "Reloaded ''");
    let opened = document_opened(Some("/f".to_string()), Some("/r".to_string()));
    assert!(matches!(&opened[0], FileWatcherCommand::Watch { path } if path == "/f"));
    assert!(matches!(&opened[1], FileWatcherCommand::WatchWorktree { worktree } if worktree == "/r"));
    let closed = document_closed(None, Some("/r".to_string()));
    assert_eq!(closed.len(), 1);
    assert!(matches!(&closed[0], FileWatcherCommand::UnwatchWorktree { .. }));
}

#[test]
fn previews_are_highlighted_after_a_while() {
    let mut h = PreviewHighlightHandler::default();
    assert_eq!(h.handle_event("a".to_string(), None, 1000), Some(1150));
    assert_eq!(h.handle_event("a".to_string(), Some(1150), 1100), Some(1150));
    assert_eq!(h.handle_event("./b".to_string(), Some(1150), 1100), Some(1250));
    assert_eq!(h.handle_event("./b/".to_string(), Some(1250), 1200), Some(1250));
    assert_eq!(h.finish_debounce(), Some("./b".to_string()));
    assert_eq!(h.finish_debounce(), None);
    let fresh = CachedPreview::Document { has_syntax: false, has_language: true };
    assert!(needs_highlighting(fresh));
    assert!(!needs_highlighting(CachedPreview::Document { has_syntax: true, has_language: true }));
    assert!(!needs_highlighting(CachedPreview::NoDocument));
    assert!(takes_highlighting(true, fresh));
    assert!(!takes_highlighting(false, fresh));
}

#[test]
fn queries_are_asked_after_a_while() {
    let change = |q: &str, is_paste: bool| DynamicQueryChange { query: q.to_string(), is_paste };
    let mut h = DynamicQueryHandler::new(None);
    assert_eq!(h.debounce, 100);
    assert!(matches!(h.handle_event(change("", false), 0), QueryStep::Nothing));
    assert!(matches!(h.handle_event(change("a", false), 0), QueryStep::Wait(100)));
    assert_eq!(h.finish_debounce(), Some("a".to_string()));
    assert_eq!(h.finish_debounce(), None);
    assert!(matches!(h.handle_event(change("a", false), 0), QueryStep::Nothing));
    assert!(matches!(h.handle_event(change("b", true), 0), QueryStep::Ask(q) if q == "b"));
    assert!(matches!(h.handle_event(change("b", true), 0), QueryStep::Nothing));
    assert_eq!(DynamicQueryHandler::new(Some(275)).debounce, 275);
}

fn server(name: &str, id: u64) -> NamedServer {
    NamedServer { name: name.to_string(), id }
}

fn started(name: &str, id: Option<u64>) -> StartedServer {
    StartedServer { name: name.to_string(), id }
}

#[test]
fn documents_are_opened_in_servers() {
    let current = vec![server("a", 1), server("b", 2)];
    let next = || vec![started("a", Some(1)), started("b", Some(3)), started("c", None)];
    let plan = launch_language_servers(true, true, &current, next()).unwrap();
    assert_eq!(plan.close, vec![2]);
    assert_eq!(plan.open, vec![3]);
    assert_eq!(plan.servers.len(), 2);
    assert!(launch_language_servers(false, true, &current, next()).is_none());
    assert!(launch_language_servers(true, false, &current, next()).is_none());
    assert!(launch_language_servers(true, true, &vec![], vec![started("c", None)]).is_none());
    let same = launch_language_servers(true, true, &current, vec![started("b", Some(2)), started("a", Some(1))]).unwrap();
    assert!(same.close.is_empty() && same.open.is_empty());
    let twice = vec![started("a", Some(4)), started("b", Some(2)), started("a", Some(5)), started("a", None)];
    let plan = launch_language_servers(true, true, &current, twice).unwrap();
    assert_eq!(plan.close, vec![1]);
    assert_eq!(plan.open, vec![5]);
    assert_eq!(plan.servers.iter().map(|s| s.id).collect::<Vec<u64>>(), vec![5, 2]);
}

#[test]
fn paths_are_compared_by_their_components() {
    assert_eq!(components("/a//b/./c/"), vec!["/", "a", "b", "c"]);
    assert_eq!(components("./a/.."), vec![".", "a", ".."]);
    assert_eq!(components(""), Vec::<String>::new());
    for p in ["/a//b/./c/", "./a/..", "", "a/./b", "/", "//", "/./a", ".", "..", "a/.b", "é/ü"] {
        let expected: Vec<String> = std::path::Path::new(p)
            .components()
            .map(|c| c.as_os_str().to_string_lossy().into_owned())
            .collect();
        assert_eq!(components(p), expected, "{p}");
        let name = std::path::Path::new(p).file_name().map(|n| n.to_string_lossy().into_owned());
        assert_eq!(file_name(p), name, "{p}");
    }
    assert!(same_path("/a//b", "/a/b"));
    assert!(same_path("a/b/", "a/b"));
    assert!(same_path("a/./b", "a/b"));
    assert!(!same_path("./a", "a"));
    assert!(!same_path("/a", "a"));
    assert!(!same_path("a/../b", "b"));
}

#[test]
fn paths_change() {
    assert_eq!(set_doc_path(Some("/a"), "/a"), PathChange::Unchanged);
    assert_eq!(set_doc_path(Some("/a"), "/b"), PathChange::Changed { close: true });
    assert_eq!(set_doc_path(None, "/b"), PathChange::Changed { close: false });
    assert_eq!(set_doc_path(Some("/a//b"), "/a/b"), PathChange::Unchanged);
    let servers = vec![(1, true), (2, false), (3, true)];
    assert!(move_path("/a", "/a", &servers, true, None).is_none());
    assert!(move_path("/d/a", "/d//a", &servers, true, None).is_none());
    assert!(move_path("/d/a", "/b", &servers, true, Some("/d/./a")).unwrap().set_path);
    let plan = move_path("/a", "/b", &servers, true, Some("/a")).unwrap();
    assert_eq!(plan.ask, vec![1, 3]);
    assert!(plan.rename && plan.set_path);
    let plan = move_path("/a", "/b", &servers, false, Some("/c")).unwrap();
    assert!(!plan.rename && !plan.set_path);
    assert_eq!(shutdown_timeout(None), 10000);
    assert_eq!(shutdown_timeout(Some(5)), 5);
}

#[test]
fn wanted_diagnostics_are_shown() {
    let servers = vec![server("a", 1), server("b", 2)];
    let features = vec![
        ServerFeatures { name: "a".to_string(), diagnostics: true },
        ServerFeatures { name: "b".to_string(), diagnostics: false },
    ];
    let sources = vec![(Some(1), true), (Some(2), true), (None, true), (Some(1), false), (Some(9), true)];
    assert_eq!(doc_diagnostics_with_filter(&sources, &servers, Some(&features)), vec![0]);
    assert_eq!(doc_diagnostics_with_filter(&sources, &servers, None), Vec::<usize>::new());
    assert_eq!(doc_diagnostics(&vec![Some(1), Some(2), Some(1)], &servers, Some(&features)), vec![0, 2]);
    let left = drop_server_diagnostics(
        vec![
            FileDiagnostics { uri: "x".to_string(), diagnostics: vec![('p', Some(1)), ('q', Some(2))] },
            FileDiagnostics { uri: "y".to_string(), diagnostics: vec![('r', Some(1))] },
        ],
        1,
    );
    assert_eq!(left.len(), 1);
    assert_eq!(left[0].diagnostics, vec![('q', Some(2))]);
}

fn info() -> ServerInfo {
    ServerInfo { name: "ra".to_string(), initialized: true, has_config: true }
}

fn cx() -> MessageContext {
    MessageContext {
        display_messages: true,
        display_progress_messages: true,
        prompt_open: false,
        doc_supported: true,
    }
}

fn notified(n: Notification, server: Option<&ServerInfo>, title: Option<&str>, cx: MessageContext) -> NotificationStep {
    match handle_language_server_message(&Call::Notification(n), server, title, cx) {
        MessageStep::Notification(step) => step,
        _ => panic!("a notification was handed in"),
    }
}

#[test]
fn notifications() {
    let s = info();
    assert!(matches!(
        notified(Notification::Initialized, Some(&s), None, cx()),
        NotificationStep::Initialized { send_config: true }
    ));
    assert!(matches!(notified(Notification::Initialized, None, None, cx()), NotificationStep::Ignore));
    assert!(matches!(
        notified(Notification::PublishDiagnostics { valid_uri: true }, Some(&s), None, cx()),
        NotificationStep::Diagnostics
    ));
    assert!(matches!(
        notified(Notification::PublishDiagnostics { valid_uri: false }, Some(&s), None, cx()),
        NotificationStep::Ignore
    ));
    let early = ServerInfo { initialized: false, ..info() };
    assert!(matches!(
        notified(Notification::PublishDiagnostics { valid_uri: true }, Some(&early), None, cx()),
        NotificationStep::Ignore
    ));
    let message = || Notification::ShowMessage { typ: MessageType::Warning, message: "w".to_string() };
    assert!(matches!(
        notified(message(), None, None, cx()),
        NotificationStep::Status(Some((m, Severity::Warning))) if m == "w"
    ));
    let quiet = MessageContext { display_messages: false, ..cx() };
    assert!(matches!(notified(message(), None, None, quiet), NotificationStep::Status(None)));
    assert!(matches!(
        notified(Notification::Exit, None, None, cx()),
        NotificationStep::Exited(m) if m == "Language server exited"
    ));
    assert!(matches!(notified(Notification::Unknown, Some(&s), None, cx()), NotificationStep::Ignore));
    assert!(matches!(notified(Notification::LogMessage, Some(&s), None, cx()), NotificationStep::Ignore));
    assert!(matches!(
        handle_language_server_message(&Call::Invalid, Some(&s), None, cx()),
        MessageStep::Ignore
    ));
}

#[test]
fn progress_is_shown() {
    let s = info();
    let begin = || {
        Notification::ProgressMessage(WorkDone::Begin {
            title: "Indexing".to_string(),
            message: Some("core".to_string()),
            percentage: Some(5),
        })
    };
    assert!(matches!(
        notified(begin(), Some(&s), None, cx()),
        NotificationStep::Progress { status: Some(t), update: ProgressUpdate::Begin } if t == "ra:  5% Indexing ⋅ core"
    ));
    let report = || {
        Notification::ProgressMessage(WorkDone::Report { message: None, percentage: Some(42) })
    };
    assert!(matches!(
        notified(report(), Some(&s), Some("Indexing"), cx()),
        NotificationStep::Progress { status: Some(t), update: ProgressUpdate::Update } if t == "ra: 42% Indexing"
    ));
    let quiet = MessageContext { display_progress_messages: false, ..cx() };
    assert!(matches!(
        notified(report(), None, None, quiet),
        NotificationStep::Progress { status: None, update: ProgressUpdate::Update }
    ));
    assert!(matches!(notified(report(), None, None, cx()), NotificationStep::Ignore));
    let end = Notification::ProgressMessage(WorkDone::End { message: None });
    assert!(matches!(notified(end, Some(&s), None, cx()), NotificationStep::ProgressEnded));
    let end = Notification::ProgressMessage(WorkDone::End { message: Some("done".to_string()) });
    assert!(matches!(
        notified(end, Some(&s), None, cx()),
        NotificationStep::Progress { status: Some(t), update: ProgressUpdate::End } if t == "ra: done"
    ));
    let prompt = MessageContext { prompt_open: true, ..cx() };
    assert!(matches!(notified(begin(), Some(&s), None, prompt), NotificationStep::Ignore));
}

fn asked(m: MethodCall, server: Option<&ServerInfo>, cx: MessageContext) -> (RequestEffect, Reply) {
    match handle_language_server_message(&Call::MethodCall(m), server, None, cx) {
        MessageStep::Request(effect, reply) => (effect, reply),
        _ => panic!("a request was handed in"),
    }
}

#[test]
fn requests_are_answered() {
    let s = info();
    let (effect, reply) = asked(MethodCall::Unhandled { method: "x/y".to_string() }, Some(&s), cx());
    assert!(matches!(effect, RequestEffect::Nothing));
    assert!(matches!(
        reply,
        Reply::Error { code: ErrorCode::MethodNotFound, message } if message == "Method not found: x/y"
    ));
    let (_, reply) = asked(MethodCall::Malformed { method: "x/y".to_string() }, Some(&s), cx());
    assert!(matches!(
        reply,
        Reply::Error { code: ErrorCode::ParseError, message } if message == "Malformed method call: x/y"
    ));
    let (effect, reply) = asked(MethodCall::WorkDoneProgressCreate, None, cx());
    assert!(matches!((effect, reply), (RequestEffect::CreateProgress, Reply::Silent)));
    let early = ServerInfo { initialized: false, ..info() };
    let (_, reply) = asked(MethodCall::ApplyWorkspaceEdit, Some(&early), cx());
    assert!(matches!(reply, Reply::Error { code: ErrorCode::InvalidRequest, .. }));
    let (effect, reply) = asked(MethodCall::ApplyWorkspaceEdit, Some(&s), cx());
    assert!(matches!((effect, reply), (RequestEffect::ApplyEdit, Reply::Value)));
    let (effect, reply) = asked(MethodCall::WorkspaceFolders, Some(&s), cx());
    assert!(matches!((effect, reply), (RequestEffect::Folders, Reply::Value)));
    let (effect, reply) = asked(MethodCall::WorkspaceFolders, None, cx());
    assert!(matches!((effect, reply), (RequestEffect::Nothing, Reply::Silent)));
    let registrations = || {
        vec![
            Registration { method: "workspace/didChangeWatchedFiles".to_string(), valid_options: true },
            Registration { method: "other".to_string(), valid_options: true },
            Registration { method: "workspace/didChangeWatchedFiles".to_string(), valid_options: false },
        ]
    };
    let (effect, reply) = asked(MethodCall::RegisterCapability(registrations()), Some(&s), cx());
    assert!(matches!(effect, RequestEffect::Register(v) if v == vec![0]));
    assert!(matches!(reply, Reply::Null));
    let given = vec!["other".to_string(), "workspace/didChangeWatchedFiles".to_string()];
    let (effect, _) = asked(MethodCall::UnregisterCapability(given), Some(&s), cx());
    assert!(matches!(effect, RequestEffect::Unregister(v) if v == vec![1]));
    let (effect, _) = asked(MethodCall::WorkspaceDiagnosticRefresh, Some(&s), cx());
    assert!(matches!(effect, RequestEffect::RequestDiagnostics));
    let alone = MessageContext { doc_supported: false, ..cx() };
    let (effect, reply) = asked(MethodCall::WorkspaceDiagnosticRefresh, Some(&s), alone);
    assert!(matches!((effect, reply), (RequestEffect::Nothing, Reply::Null)));
    let ask = |actions: usize| MethodCall::ShowMessageRequest {
        typ: MessageType::Error,
        message: "m".to_string(),
        actions,
    };
    let (effect, reply) = asked(ask(2), Some(&s), cx());
    assert!(matches!((effect, reply), (RequestEffect::Select, Reply::Silent)));
    let (effect, reply) = asked(ask(0), Some(&s), cx());
    assert!(matches!(effect, RequestEffect::Status(Some((_, Severity::Error)))));
    assert!(matches!(reply, Reply::Null));
    let (effect, reply) = asked(MethodCall::ShowDocument, Some(&s), cx());
    assert!(matches!((effect, reply), (RequestEffect::ShowDocument, Reply::Value)));
    assert_eq!(select_reply(PromptEvent::Update, 1), None);
    assert_eq!(select_reply(PromptEvent::Validate, 1), Some(Some(1)));
    assert_eq!(select_reply(PromptEvent::Abort, 1), Some(None));
    let ok = workspace_edit_response(Ok(()));
    assert!(ok.applied && ok.failure_reason.is_none() && ok.failed_change.is_none());
    let failed = workspace_edit_response(Err(EditFailure { reason: "r".to_string(), failed_change: 3 }));
    assert_eq!((failed.applied, failed.failure_reason, failed.failed_change), (false, Some("r".to_string()), Some(3)));
    assert_eq!(handle_show_document(Some(true), false, false), ShowDocument::External);
    assert_eq!(handle_show_document(None, true, true), ShowDocument::AddTab);
    assert_eq!(handle_show_document(Some(false), false, true), ShowDocument::Failed);
    assert!(handle_show_document(Some(true), false, false).success());
    assert!(!handle_show_document(None, true, false).success());
}

#[test]
fn sections_of_the_configuration() {
    let object = |members: Vec<(&str, Json)>| {
        Json::Object(
            members
                .into_iter()
                .map(|(name, value)| JsonMember { name: name.to_string(), value })
                .collect(),
        )
    };
    let config = object(vec![("a", object(vec![("b", Json::Bool(true))])), ("c", Json::Null)]);
    assert!(matches!(configuration_section(Some(&config), Some("a.b")), Some(Json::Bool(true))));
    assert!(matches!(configuration_section(Some(&config), Some("c")), Some(Json::Null)));
    assert!(configuration_section(Some(&config), Some("a.x")).is_none());
    assert!(configuration_section(Some(&config), Some("a.b.c")).is_none());
    assert!(configuration_section(Some(&config), Some("a.")).is_none());
    assert!(matches!(configuration_section(Some(&config), Some("")), Some(Json::Object(_))));
    assert!(matches!(configuration_section(Some(&config), None), Some(Json::Object(_))));
    assert!(configuration_section(None, None).is_none());
    let sections = vec![Some("a.b".to_string()), Some("z".to_string())];
    let reply = configuration_reply(Some(&config), &sections);
    assert!(matches!(reply[0], Some(Json::Bool(true))));
    assert!(reply[1].is_none());
}
