//! What is done with the messages of language servers, and what they are answered.
use crate::config::Severity;
use crate::strings::char_vec;
use crate::strings::decimal;
use crate::strings::decimal_digits;
use crate::strings::str_eq;
use crate::strings::string_of;
use crate::strings::text_opt;
use vstd::prelude::*;
use vstd::string::*;

verus! {

/// The method by which changes of watched files are told.
pub const DID_CHANGE_WATCHED_FILES: &'static str = "workspace/didChangeWatchedFiles";

/// A value of a server's configuration.
#[derive(Debug)]
pub enum Json {
    Null,
    Bool(bool),
    /// A number, as it is written.
    Number(String),
    Text(String),
    Array(Vec<Json>),
    Object(Vec<JsonMember>),
}

/// A member of an object.
#[derive(Debug)]
pub struct JsonMember {
    pub name: String,
    pub value: Json,
}

/// The first member from `i` on with a name.
pub open spec fn member_named(members: Seq<JsonMember>, name: Seq<char>, i: int) -> Option<Json>
    decreases members.len() - i,
{
    if i < 0 || i >= members.len() {
        None
    } else if members[i].name@ == name {
        Some(members[i].value)
    } else {
        member_named(members, name, i + 1)
    }
}

/// The member of a value; only objects have any.
pub open spec fn member(value: Json, name: Seq<char>) -> Option<Json> {
    match value {
        Json::Object(members) => member_named(members@, name, 0),
        _ => None,
    }
}

/// The first dot from `i` on, or the end of the text.
pub open spec fn dot_at(s: Seq<char>, i: int) -> int
    decreases s.len() - i,
{
    if i >= s.len() {
        s.len() as int
    } else if s[i] == '.' {
        i
    } else {
        dot_at(s, i + 1)
    }
}

/// What a path of names with dots between them leads to, from its position `from` on.
pub open spec fn section_from(config: Json, path: Seq<char>, from: int) -> Option<Json>
    decreases path.len() + 1 - from,
    via section_from_decreases
{
    if from < 0 || from > path.len() {
        None
    } else {
        let end = dot_at(path, from);
        match member(config, path.subrange(from, end)) {
            Some(value) => if end >= path.len() {
                Some(value)
            } else {
                section_from(value, path, end + 1)
            },
            None => None,
        }
    }
}

#[via_fn]
proof fn section_from_decreases(config: Json, path: Seq<char>, from: int) {
    if 0 <= from <= path.len() {
        lemma_dot_at(path, from);
    }
}

proof fn lemma_dot_at(s: Seq<char>, i: int)
    requires
        i <= s.len(),
    ensures
        i <= dot_at(s, i) <= s.len(),
    decreases s.len() - i,
{
    if i < s.len() && s[i] != '.' {
        lemma_dot_at(s, i + 1);
    }
}

/// What a section of a configuration is; without a name, or with an empty one, all of it.
pub open spec fn section_of(config: Option<Json>, section: Option<Seq<char>>) -> Option<Json> {
    match config {
        Some(c) => match section {
            Some(path) => if path.len() == 0 {
                Some(c)
            } else {
                section_from(c, path, 0)
            },
            None => Some(c),
        },
        None => None,
    }
}

impl Json {
    /// The member with a name.
    pub fn get(&self, name: &str) -> (r: Option<&Json>)
        ensures
            match r {
                Some(v) => member(*self, name@) == Some(*v),
                None => member(*self, name@) is None,
            },
    {
        match self {
            Json::Object(members) => {
                let mut i: usize = 0;
                while i < members.len()
                    invariant
                        i <= members@.len(),
                        *self == Json::Object(*members),
                        member_named(members@, name@, 0) == member_named(
                            members@,
                            name@,
                            i as int,
                        ),
                    decreases members@.len() - i,
                {
                    if str_eq(members[i].name.as_str(), name) {
                        return Some(&members[i].value);
                    }
                    i = i + 1;
                }
                None
            },
            _ => None,
        }
    }
}

fn lookup<'a>(config: &'a Json, path: &Vec<char>, from: usize) -> (r: Option<&'a Json>)
    requires
        from <= path@.len(),
    ensures
        match r {
            Some(v) => section_from(*config, path@, from as int) == Some(*v),
            None => section_from(*config, path@, from as int) is None,
        },
    decreases path@.len() + 1 - from,
{
    let mut end: usize = from;
    while end < path.len() && path[end] != '.'
        invariant
            from <= end <= path@.len(),
            dot_at(path@, from as int) == dot_at(path@, end as int),
        decreases path@.len() - end,
    {
        end = end + 1;
    }
    assert(dot_at(path@, from as int) == end);
    let name = string_of(path.as_slice(), from, end);
    match config.get(name.as_str()) {
        Some(value) => if end >= path.len() {
            Some(value)
        } else {
            lookup(value, path, end + 1)
        },
        None => None,
    }
}

/// A section of a server's configuration.
pub fn configuration_section<'a>(config: Option<&'a Json>, section: Option<&str>) -> (r: Option<
    &'a Json,
>)
    ensures
        ({
            let wanted = section_of(
                match config {
                    Some(c) => Some(*c),
                    None => None,
                },
                match section {
                    Some(s) => Some(s@),
                    None => None,
                },
            );
            match r {
                Some(v) => wanted == Some(*v),
                None => wanted is None,
            }
        }),
{
    match config {
        Some(c) => match section {
            Some(s) => {
                let path = char_vec(s);
                if path.len() == 0 {
                    Some(c)
                } else {
                    lookup(c, &path, 0)
                }
            },
            None => Some(c),
        },
        None => None,
    }
}

/// What a request for sections of a configuration is answered, one value for each.
pub fn configuration_reply<'a>(config: Option<&'a Json>, sections: &Vec<Option<String>>) -> (r: Vec<
    Option<&'a Json>,
>)
    ensures
        r@.len() == sections@.len(),
        forall|i: int|
            0 <= i < sections@.len() ==> reply_value(#[trigger] r@[i]) == section_of(
                reply_value(config),
                text_opt(sections@[i]),
            ),
{
    let mut out: Vec<Option<&'a Json>> = Vec::new();
    let mut i: usize = 0;
    while i < sections.len()
        invariant
            i <= sections@.len(),
            out@.len() == i,
            forall|k: int|
                0 <= k < i ==> reply_value(#[trigger] out@[k]) == section_of(
                    reply_value(config),
                    text_opt(sections@[k]),
                ),
        decreases sections@.len() - i,
    {
        let section = match &sections[i] {
            Some(s) => Some(s.as_str()),
            None => None,
        };
        out.push(configuration_section(config, section));
        i = i + 1;
    }
    out
}

/// The value of an answer.
pub open spec fn reply_value(v: Option<&Json>) -> Option<Json> {
    match v {
        Some(j) => Some(*j),
        None => None,
    }
}

/// How grave a message is.
#[derive(Debug, Clone, Copy, PartialEq, Eq, Structural)]
pub enum MessageType {
    Error,
    Warning,
    Info,
    Log,
}

/// The severity with which a message is shown.
pub open spec fn message_severity(typ: MessageType) -> Severity {
    match typ {
        MessageType::Error => Severity::Error,
        MessageType::Warning => Severity::Warning,
        _ => Severity::Info,
    }
}

/// The status that a message becomes, if messages are shown.
pub open spec fn message_status(display: bool, typ: MessageType, message: Seq<char>) -> Option<
    (Seq<char>, Severity),
> {
    if display {
        Some((message, message_severity(typ)))
    } else {
        None
    }
}

/// The text and severity of a status.
pub open spec fn shown(s: Option<(String, Severity)>) -> Option<(Seq<char>, Severity)> {
    crate::editor::status_view(s)
}

/// The status that a message becomes, if messages are shown.
pub fn handle_show_message(display: bool, typ: MessageType, message: &str) -> (r: Option<
    (String, Severity),
>)
    ensures
        shown(r) == message_status(display, typ, message@),
{
    if display {
        let severity = match typ {
            MessageType::Error => Severity::Error,
            MessageType::Warning => Severity::Warning,
            _ => Severity::Info,
        };
        Some((message.to_owned(), severity))
    } else {
        None
    }
}

/// How work goes on.
#[derive(Debug)]
pub enum WorkDone {
    Begin { title: String, message: Option<String>, percentage: Option<u32> },
    Report { message: Option<String>, percentage: Option<u32> },
    End { message: Option<String> },
}

/// What a language server tells, as far as it could be understood.
#[derive(Debug)]
pub enum Notification {
    /// It could not be understood.
    Unknown,
    Initialized,
    /// Diagnostics of a file; `valid_uri` tells whether the file could be made out.
    PublishDiagnostics { valid_uri: bool },
    ShowMessage { typ: MessageType, message: String },
    LogMessage,
    ProgressMessage(WorkDone),
    Exit,
}

/// What is known of a language server.
#[derive(Debug)]
pub struct ServerInfo {
    pub name: String,
    pub initialized: bool,
    pub has_config: bool,
}

/// What becomes of the progress of a task.
#[derive(Debug, Clone, Copy, PartialEq, Eq, Structural)]
pub enum ProgressUpdate {
    Begin,
    Update,
    End,
}

/// What is done about a notification.
#[derive(Debug)]
pub enum NotificationStep {
    Ignore,
    /// Tell the server its configuration if `send_config`, and tell everyone that it is
    /// initialised.
    Initialized { send_config: bool },
    /// Take over the diagnostics.
    Diagnostics,
    /// Set the status, if there is one.
    Status(Option<(String, Severity)>),
    /// Set the status if there is one, and note the progress.
    Progress { status: Option<String>, update: ProgressUpdate },
    /// Drop the status, and note that the work has ended.
    ProgressEnded,
    /// Set the status to the text, drop the diagnostics of the server, tell everyone that it has
    /// exited, and forget it.
    Exited(String),
}

/// What is done about a notification, with its texts.
pub enum NotificationView {
    Ignore,
    Initialized(bool),
    Diagnostics,
    Status(Option<(Seq<char>, Severity)>),
    Progress(Option<Seq<char>>, ProgressUpdate),
    ProgressEnded,
    Exited(Seq<char>),
}

impl View for NotificationStep {
    type V = NotificationView;

    open spec fn view(&self) -> NotificationView {
        match self {
            NotificationStep::Ignore => NotificationView::Ignore,
            NotificationStep::Initialized { send_config } => NotificationView::Initialized(
                *send_config,
            ),
            NotificationStep::Diagnostics => NotificationView::Diagnostics,
            NotificationStep::Status(s) => NotificationView::Status(shown(*s)),
            NotificationStep::Progress { status, update } => NotificationView::Progress(
                text_opt(*status),
                *update,
            ),
            NotificationStep::ProgressEnded => NotificationView::ProgressEnded,
            NotificationStep::Exited(s) => NotificationView::Exited(s@),
        }
    }
}

/// A number with a blank before it if it has one digit.
pub open spec fn two_columns(n: u32) -> Seq<char> {
    if n < 10 {
        seq![' '] + decimal_digits(n as nat)
    } else {
        decimal_digits(n as nat)
    }
}

/// The text of an option, or nothing.
pub open spec fn or_empty(s: Option<Seq<char>>) -> Seq<char> {
    match s {
        Some(t) => t,
        None => Seq::empty(),
    }
}

/// How the progress of a server's work is shown.
pub open spec fn progress_text(
    name: Seq<char>,
    percentage: Option<u32>,
    title: Option<Seq<char>>,
    message: Option<Seq<char>>,
) -> Seq<char> {
    name + ": "@ + (match percentage {
        Some(n) => two_columns(n) + "% "@,
        None => Seq::empty(),
    }) + or_empty(title) + (if title is Some && message is Some {
        " ⋅ "@
    } else {
        Seq::empty()
    }) + or_empty(message)
}

fn progress_status(
    name: &str,
    percentage: Option<u32>,
    title: Option<&str>,
    message: Option<&str>,
) -> (r: String)
    ensures
        r@ == progress_text(name@, percentage, str_text(title), str_text(message)),
{
    let mut s = name.to_owned();
    s.append(": ");
    match percentage {
        Some(n) => {
            if n < 10 {
                s.push(' ');
            }
            s.append(decimal(n as u64).as_str());
            s.append("% ");
        },
        None => {},
    }
    let ghost head = s@;
    assert(head =~= name@ + ": "@ + (match percentage {
        Some(n) => two_columns(n) + "% "@,
        None => Seq::empty(),
    }));
    match title {
        Some(t) => {
            s.append(t);
        },
        None => {},
    }
    if title.is_some() && message.is_some() {
        s.append(" ⋅ ");
    }
    match message {
        Some(m) => {
            s.append(m);
        },
        None => {},
    }
    assert(s@ =~= progress_text(name@, percentage, str_text(title), str_text(message)));
    s
}

/// The text of an option.
pub open spec fn str_text(s: Option<&str>) -> Option<Seq<char>> {
    match s {
        Some(t) => Some(t@),
        None => None,
    }
}

/// The parts of a report on work: its title, message and percentage.
pub open spec fn work_parts(work: WorkDone) -> (Option<Seq<char>>, Option<Seq<char>>, Option<u32>) {
    match work {
        WorkDone::Begin { title, message, percentage } => (
            Some(title@),
            text_opt(message),
            percentage,
        ),
        WorkDone::Report { message, percentage } => (None, text_opt(message), percentage),
        WorkDone::End { message } => (None, text_opt(message), None),
    }
}

/// What becomes of the progress.
pub open spec fn work_update(work: WorkDone) -> ProgressUpdate {
    match work {
        WorkDone::Begin { .. } => ProgressUpdate::Begin,
        WorkDone::Report { .. } => ProgressUpdate::Update,
        WorkDone::End { .. } => ProgressUpdate::End,
    }
}

/// What is done about a report on work. `server` is the server's name if it is known, `known_title`
/// the title with which the work began.
pub open spec fn progress_step(
    work: WorkDone,
    server: Option<Seq<char>>,
    known_title: Option<Seq<char>>,
    display: bool,
) -> NotificationView {
    if work matches WorkDone::End { message } && message is None {
        NotificationView::ProgressEnded
    } else {
        let (own_title, message, percentage) = work_parts(work);
        let title = if own_title is Some {
            own_title
        } else {
            known_title
        };
        if display && (title is Some || percentage is Some || message is Some) {
            match server {
                Some(name) => NotificationView::Progress(
                    Some(progress_text(name, percentage, title, message)),
                    work_update(work),
                ),
                None => NotificationView::Ignore,
            }
        } else {
            NotificationView::Progress(None, work_update(work))
        }
    }
}

fn opt_str(s: &Option<String>) -> (r: Option<&str>)
    ensures
        str_text(r) == text_opt(*s),
{
    match s {
        Some(t) => Some(t.as_str()),
        None => None,
    }
}

fn handle_progress(
    work: &WorkDone,
    server: Option<&ServerInfo>,
    known_title: Option<&str>,
    display: bool,
) -> (r: NotificationStep)
    ensures
        r@ == progress_step(
            *work,
            match server {
                Some(s) => Some(s.name@),
                None => None,
            },
            str_text(known_title),
            display,
        ),
{
    let (own_title, message, percentage, update) = match work {
        WorkDone::Begin { title, message, percentage } => (
            Some(title.as_str()),
            opt_str(message),
            *percentage,
            ProgressUpdate::Begin,
        ),
        WorkDone::Report { message, percentage } => (
            None,
            opt_str(message),
            *percentage,
            ProgressUpdate::Update,
        ),
        WorkDone::End { message } => {
            if message.is_none() {
                return NotificationStep::ProgressEnded;
            }
            (None, opt_str(message), None, ProgressUpdate::End)
        },
    };
    let title = match own_title {
        Some(t) => Some(t),
        None => known_title,
    };
    if display && (title.is_some() || percentage.is_some() || message.is_some()) {
        match server {
            Some(s) => NotificationStep::Progress {
                status: Some(progress_status(s.name.as_str(), percentage, title, message)),
                update,
            },
            None => NotificationStep::Ignore,
        }
    } else {
        NotificationStep::Progress { status: None, update }
    }
}

/// What the user interface and the configuration say about messages.
#[derive(Debug, Clone, Copy, PartialEq, Eq, Structural)]
pub struct MessageContext {
    /// Messages are shown.
    pub display_messages: bool,
    /// The progress of work is shown.
    pub display_progress_messages: bool,
    /// A prompt is open.
    pub prompt_open: bool,
    /// The document of the active tab is open in the server.
    pub doc_supported: bool,
}

/// What is done about a notification. `server` is the server that it comes from, if it is known,
/// `known_title` the title with which work began.
pub open spec fn notification_step(
    notification: Notification,
    server: Option<ServerInfo>,
    known_title: Option<Seq<char>>,
    cx: MessageContext,
) -> NotificationView {
    match notification {
        Notification::Unknown => NotificationView::Ignore,
        Notification::Initialized => match server {
            Some(s) => NotificationView::Initialized(s.has_config),
            None => NotificationView::Ignore,
        },
        Notification::PublishDiagnostics { valid_uri } => if valid_uri && (server matches Some(s)
            && s.initialized) {
            NotificationView::Diagnostics
        } else {
            NotificationView::Ignore
        },
        Notification::ShowMessage { typ, message } => NotificationView::Status(
            message_status(cx.display_messages, typ, message@),
        ),
        Notification::LogMessage => NotificationView::Ignore,
        Notification::ProgressMessage(work) => if cx.prompt_open {
            NotificationView::Ignore
        } else {
            progress_step(
                work,
                match server {
                    Some(s) => Some(s.name@),
                    None => None,
                },
                known_title,
                cx.display_progress_messages,
            )
        },
        Notification::Exit => NotificationView::Exited("Language server exited"@),
    }
}

/// Decides what is done about a notification.
pub fn handle_notification(
    notification: &Notification,
    server: Option<&ServerInfo>,
    known_title: Option<&str>,
    cx: MessageContext,
) -> (r: NotificationStep)
    ensures
        r@ == notification_step(
            *notification,
            match server {
                Some(s) => Some(*s),
                None => None,
            },
            str_text(known_title),
            cx,
        ),
{
    match notification {
        Notification::Unknown => NotificationStep::Ignore,
        Notification::Initialized => match server {
            Some(s) => NotificationStep::Initialized { send_config: s.has_config },
            None => NotificationStep::Ignore,
        },
        Notification::PublishDiagnostics { valid_uri } => {
            if !*valid_uri {
                return NotificationStep::Ignore;
            }
            match server {
                Some(s) => if s.initialized {
                    NotificationStep::Diagnostics
                } else {
                    NotificationStep::Ignore
                },
                None => NotificationStep::Ignore,
            }
        },
        Notification::ShowMessage { typ, message } => NotificationStep::Status(
            handle_show_message(cx.display_messages, *typ, message.as_str()),
        ),
        Notification::LogMessage => NotificationStep::Ignore,
        Notification::ProgressMessage(work) => if cx.prompt_open {
            NotificationStep::Ignore
        } else {
            handle_progress(work, server, known_title, cx.display_progress_messages)
        },
        Notification::Exit => NotificationStep::Exited("Language server exited".to_owned()),
    }
}

/// A capability that a server registers.
#[derive(Debug)]
pub struct Registration {
    pub method: String,
    /// There are options, and they could be understood.
    pub valid_options: bool,
}

/// What a language server asks for, as far as it could be understood.
#[derive(Debug)]
pub enum MethodCall {
    /// There is no such method.
    Unhandled { method: String },
    /// The method's arguments could not be understood.
    Malformed { method: String },
    WorkDoneProgressCreate,
    ApplyWorkspaceEdit,
    WorkspaceFolders,
    /// The sections of the configuration that are asked for.
    WorkspaceConfiguration(Vec<Option<String>>),
    RegisterCapability(Vec<Registration>),
    /// The methods whose capabilities are given back.
    UnregisterCapability(Vec<String>),
    ShowDocument,
    WorkspaceDiagnosticRefresh,
    /// A message with the number of actions to choose from.
    ShowMessageRequest { typ: MessageType, message: String, actions: usize },
}

/// Why a request is refused.
#[derive(Debug, Clone, Copy, PartialEq, Eq, Structural)]
pub enum ErrorCode {
    ParseError,
    InvalidRequest,
    MethodNotFound,
}

/// What is done about a request.
#[derive(Debug)]
pub enum RequestEffect {
    Nothing,
    /// Note that the server starts to work.
    CreateProgress,
    ApplyEdit,
    /// Answer with the folders of the workspace.
    Folders,
    /// Answer with the sections of the configuration.
    Configuration,
    /// Let the server be told of changes of files, for these registrations.
    Register(Vec<usize>),
    /// Let the server not be told of changes of files any more, for these registrations.
    Unregister(Vec<usize>),
    ShowDocument,
    /// Ask for the diagnostics of the active tab's document.
    RequestDiagnostics,
    /// Let the user choose an action; the answer is sent when that is done.
    Select,
    /// Set the status, if there is one.
    Status(Option<(String, Severity)>),
}

/// What is done about a request, with its texts.
pub enum RequestEffectView {
    Nothing,
    CreateProgress,
    ApplyEdit,
    Folders,
    Configuration,
    Register(Seq<usize>),
    Unregister(Seq<usize>),
    ShowDocument,
    RequestDiagnostics,
    Select,
    Status(Option<(Seq<char>, Severity)>),
}

impl View for RequestEffect {
    type V = RequestEffectView;

    open spec fn view(&self) -> RequestEffectView {
        match self {
            RequestEffect::Nothing => RequestEffectView::Nothing,
            RequestEffect::CreateProgress => RequestEffectView::CreateProgress,
            RequestEffect::ApplyEdit => RequestEffectView::ApplyEdit,
            RequestEffect::Folders => RequestEffectView::Folders,
            RequestEffect::Configuration => RequestEffectView::Configuration,
            RequestEffect::Register(v) => RequestEffectView::Register(v@),
            RequestEffect::Unregister(v) => RequestEffectView::Unregister(v@),
            RequestEffect::ShowDocument => RequestEffectView::ShowDocument,
            RequestEffect::RequestDiagnostics => RequestEffectView::RequestDiagnostics,
            RequestEffect::Select => RequestEffectView::Select,
            RequestEffect::Status(s) => RequestEffectView::Status(shown(*s)),
        }
    }
}

/// What a request is answered.
#[derive(Debug)]
pub enum Reply {
    /// Nothing, or something later.
    Silent,
    Null,
    /// What the effect gives.
    Value,
    Error { code: ErrorCode, message: String },
}

/// What a request is answered, with its text.
pub enum ReplyView {
    Silent,
    Null,
    Value,
    Error(ErrorCode, Seq<char>),
}

impl View for Reply {
    type V = ReplyView;

    open spec fn view(&self) -> ReplyView {
        match self {
            Reply::Silent => ReplyView::Silent,
            Reply::Null => ReplyView::Null,
            Reply::Value => ReplyView::Value,
            Reply::Error { code, message } => ReplyView::Error(*code, message@),
        }
    }
}

/// Those of the first `n` registrations that are taken: for changes of watched files, with options
/// that could be understood.
pub open spec fn accepted(v: Seq<Registration>, n: int) -> Seq<usize>
    decreases n,
{
    if n <= 0 {
        Seq::empty()
    } else if v[n - 1].method@ == DID_CHANGE_WATCHED_FILES@ && v[n - 1].valid_options {
        accepted(v, n - 1).push((n - 1) as usize)
    } else {
        accepted(v, n - 1)
    }
}

/// Those of the first `n` methods that are for changes of watched files.
pub open spec fn given_back(v: Seq<String>, n: int) -> Seq<usize>
    decreases n,
{
    if n <= 0 {
        Seq::empty()
    } else if v[n - 1]@ == DID_CHANGE_WATCHED_FILES@ {
        given_back(v, n - 1).push((n - 1) as usize)
    } else {
        given_back(v, n - 1)
    }
}

fn accept_registrations(v: &Vec<Registration>) -> (r: Vec<usize>)
    ensures
        r@ == accepted(v@, v@.len() as int),
{
    let mut out: Vec<usize> = Vec::new();
    let mut i: usize = 0;
    while i < v.len()
        invariant
            i <= v@.len(),
            out@ == accepted(v@, i as int),
        decreases v@.len() - i,
    {
        if str_eq(v[i].method.as_str(), DID_CHANGE_WATCHED_FILES) && v[i].valid_options {
            out.push(i);
        }
        i = i + 1;
    }
    out
}

fn find_given_back(v: &Vec<String>) -> (r: Vec<usize>)
    ensures
        r@ == given_back(v@, v@.len() as int),
{
    let mut out: Vec<usize> = Vec::new();
    let mut i: usize = 0;
    while i < v.len()
        invariant
            i <= v@.len(),
            out@ == given_back(v@, i as int),
        decreases v@.len() - i,
    {
        if str_eq(v[i].as_str(), DID_CHANGE_WATCHED_FILES) {
            out.push(i);
        }
        i = i + 1;
    }
    out
}

/// What is done about a request, and what it would be answered by a server that is known.
pub open spec fn request_step(call: MethodCall, server: Option<ServerInfo>, cx: MessageContext) -> (
    RequestEffectView,
    ReplyView,
) {
    match call {
        MethodCall::Unhandled { method } => (
            RequestEffectView::Nothing,
            ReplyView::Error(ErrorCode::MethodNotFound, "Method not found: "@ + method@),
        ),
        MethodCall::Malformed { method } => (
            RequestEffectView::Nothing,
            ReplyView::Error(ErrorCode::ParseError, "Malformed method call: "@ + method@),
        ),
        MethodCall::WorkDoneProgressCreate => (
            RequestEffectView::CreateProgress,
            ReplyView::Null,
        ),
        MethodCall::ApplyWorkspaceEdit => match server {
            Some(s) => if s.initialized {
                (RequestEffectView::ApplyEdit, ReplyView::Value)
            } else {
                (
                    RequestEffectView::Nothing,
                    ReplyView::Error(
                        ErrorCode::InvalidRequest,
                        "Server must be initialized to request workspace edits"@,
                    ),
                )
            },
            None => (RequestEffectView::Nothing, ReplyView::Silent),
        },
        MethodCall::WorkspaceFolders => if server is Some {
            (RequestEffectView::Folders, ReplyView::Value)
        } else {
            (RequestEffectView::Nothing, ReplyView::Silent)
        },
        MethodCall::WorkspaceConfiguration(_) => if server is Some {
            (RequestEffectView::Configuration, ReplyView::Value)
        } else {
            (RequestEffectView::Nothing, ReplyView::Silent)
        },
        MethodCall::RegisterCapability(v) => if server is Some {
            (RequestEffectView::Register(accepted(v@, v@.len() as int)), ReplyView::Null)
        } else {
            (RequestEffectView::Nothing, ReplyView::Null)
        },
        MethodCall::UnregisterCapability(v) => (
            RequestEffectView::Unregister(given_back(v@, v@.len() as int)),
            ReplyView::Null,
        ),
        MethodCall::ShowDocument => if server is Some {
            (RequestEffectView::ShowDocument, ReplyView::Value)
        } else {
            (RequestEffectView::Nothing, ReplyView::Silent)
        },
        MethodCall::WorkspaceDiagnosticRefresh => if server is Some {
            (
                if cx.doc_supported {
                    RequestEffectView::RequestDiagnostics
                } else {
                    RequestEffectView::Nothing
                },
                ReplyView::Null,
            )
        } else {
            (RequestEffectView::Nothing, ReplyView::Silent)
        },
        MethodCall::ShowMessageRequest { typ, message, actions } => if actions > 0 {
            (RequestEffectView::Select, ReplyView::Silent)
        } else {
            (
                RequestEffectView::Status(message_status(cx.display_messages, typ, message@)),
                ReplyView::Null,
            )
        },
    }
}

fn decide_request(call: &MethodCall, server: Option<&ServerInfo>, cx: MessageContext) -> (r: (
    RequestEffect,
    Reply,
))
    ensures
        (r.0@, r.1@) == request_step(
            *call,
            match server {
                Some(s) => Some(*s),
                None => None,
            },
            cx,
        ),
{
    match call {
        MethodCall::Unhandled { method } => {
            let mut message = "Method not found: ".to_owned();
            message.append(method.as_str());
            (RequestEffect::Nothing, Reply::Error { code: ErrorCode::MethodNotFound, message })
        },
        MethodCall::Malformed { method } => {
            let mut message = "Malformed method call: ".to_owned();
            message.append(method.as_str());
            (RequestEffect::Nothing, Reply::Error { code: ErrorCode::ParseError, message })
        },
        MethodCall::WorkDoneProgressCreate => (RequestEffect::CreateProgress, Reply::Null),
        MethodCall::ApplyWorkspaceEdit => match server {
            Some(s) => if s.initialized {
                (RequestEffect::ApplyEdit, Reply::Value)
            } else {
                (
                    RequestEffect::Nothing,
                    Reply::Error {
                        code: ErrorCode::InvalidRequest,
                        message: "Server must be initialized to request workspace edits".to_owned(),
                    },
                )
            },
            None => (RequestEffect::Nothing, Reply::Silent),
        },
        MethodCall::WorkspaceFolders => if server.is_some() {
            (RequestEffect::Folders, Reply::Value)
        } else {
            (RequestEffect::Nothing, Reply::Silent)
        },
        MethodCall::WorkspaceConfiguration(_) => if server.is_some() {
            (RequestEffect::Configuration, Reply::Value)
        } else {
            (RequestEffect::Nothing, Reply::Silent)
        },
        MethodCall::RegisterCapability(v) => if server.is_some() {
            (RequestEffect::Register(accept_registrations(v)), Reply::Null)
        } else {
            (RequestEffect::Nothing, Reply::Null)
        },
        MethodCall::UnregisterCapability(v) => (
            RequestEffect::Unregister(find_given_back(v)),
            Reply::Null,
        ),
        MethodCall::ShowDocument => if server.is_some() {
            (RequestEffect::ShowDocument, Reply::Value)
        } else {
            (RequestEffect::Nothing, Reply::Silent)
        },
        MethodCall::WorkspaceDiagnosticRefresh => if server.is_some() {
            if cx.doc_supported {
                (RequestEffect::RequestDiagnostics, Reply::Null)
            } else {
                (RequestEffect::Nothing, Reply::Null)
            }
        } else {
            (RequestEffect::Nothing, Reply::Silent)
        },
        MethodCall::ShowMessageRequest { typ, message, actions } => if *actions > 0 {
            (RequestEffect::Select, Reply::Silent)
        } else {
            (
                RequestEffect::Status(
                    handle_show_message(cx.display_messages, *typ, message.as_str()),
                ),
                Reply::Null,
            )
        },
    }
}

/// A message of a language server.
#[derive(Debug)]
pub enum Call {
    Notification(Notification),
    MethodCall(MethodCall),
    /// It is none that could be told.
    Invalid,
}

/// What is done about a message.
#[derive(Debug)]
pub enum MessageStep {
    Notification(NotificationStep),
    Request(RequestEffect, Reply),
    Ignore,
}

/// What is done about a message, with its texts.
pub enum MessageStepView {
    Notification(NotificationView),
    Request(RequestEffectView, ReplyView),
    Ignore,
}

impl View for MessageStep {
    type V = MessageStepView;

    open spec fn view(&self) -> MessageStepView {
        match self {
            MessageStep::Notification(n) => MessageStepView::Notification(n@),
            MessageStep::Request(e, r) => MessageStepView::Request(e@, r@),
            MessageStep::Ignore => MessageStepView::Ignore,
        }
    }
}

/// What is done about a message. A server that is not known is answered nothing.
pub open spec fn message_step(
    call: Call,
    server: Option<ServerInfo>,
    known_title: Option<Seq<char>>,
    cx: MessageContext,
) -> MessageStepView {
    match call {
        Call::Notification(n) => MessageStepView::Notification(
            notification_step(n, server, known_title, cx),
        ),
        Call::MethodCall(m) => {
            let (effect, reply) = request_step(m, server, cx);
            MessageStepView::Request(
                effect,
                if server is Some {
                    reply
                } else {
                    ReplyView::Silent
                },
            )
        },
        Call::Invalid => MessageStepView::Ignore,
    }
}

/// Decides what is done about a message of a language server: `server` is what is known of it,
/// `known_title` the title with which the work that a report is on began.
pub fn handle_language_server_message(
    call: &Call,
    server: Option<&ServerInfo>,
    known_title: Option<&str>,
    cx: MessageContext,
) -> (r: MessageStep)
    ensures
        r@ == message_step(
            *call,
            match server {
                Some(s) => Some(*s),
                None => None,
            },
            str_text(known_title),
            cx,
        ),
{
    match call {
        Call::Notification(n) => MessageStep::Notification(
            handle_notification(n, server, known_title, cx),
        ),
        Call::MethodCall(m) => {
            let (effect, reply) = decide_request(m, server, cx);
            if server.is_some() {
                MessageStep::Request(effect, reply)
            } else {
                MessageStep::Request(effect, Reply::Silent)
            }
        },
        Call::Invalid => MessageStep::Ignore,
    }
}

/// A request of a server that is known is always answered, at once or, if the user has to choose,
/// later; one of a server that is not known never is.
pub proof fn law_requests_are_answered(
    m: MethodCall,
    server: Option<ServerInfo>,
    known_title: Option<Seq<char>>,
    cx: MessageContext,
)
    ensures
        ({
            let step = message_step(Call::MethodCall(m), server, known_title, cx);
            &&& step matches MessageStepView::Request(effect, reply) && (reply is Silent <==> (
            server is None || effect is Select))
        }),
{
}

/// Why a workspace edit failed, and at which change.
#[derive(Debug)]
pub struct EditFailure {
    pub reason: String,
    pub failed_change: usize,
}

/// What a workspace edit is answered.
#[derive(Debug)]
pub struct ApplyWorkspaceEditResponse {
    pub applied: bool,
    pub failure_reason: Option<String>,
    pub failed_change: Option<u32>,
}

/// What a workspace edit is answered.
pub fn workspace_edit_response(result: Result<(), EditFailure>) -> (r: ApplyWorkspaceEditResponse)
    ensures
        match result {
            Ok(_) => r.applied && r.failure_reason is None && r.failed_change is None,
            Err(e) => !r.applied && text_opt(r.failure_reason) == Some(e.reason@)
                && r.failed_change == Some(e.failed_change as u32),
        },
{
    match result {
        Ok(_) => ApplyWorkspaceEditResponse {
            applied: true,
            failure_reason: None,
            failed_change: None,
        },
        Err(e) => ApplyWorkspaceEditResponse {
            applied: false,
            failure_reason: Some(e.reason),
            failed_change: Some(e.failed_change as u32),
        },
    }
}

/// How choosing an action goes on.
#[derive(Debug, Clone, Copy, PartialEq, Eq, Structural)]
pub enum PromptEvent {
    /// Another action is marked.
    Update,
    Validate,
    Abort,
}

/// What a message with actions is answered when an action is marked, chosen or none is chosen:
/// nothing yet, the action, or that there is none.
pub fn select_reply(event: PromptEvent, action: usize) -> (r: Option<Option<usize>>)
    ensures
        r == choice(event, action),
{
    match event {
        PromptEvent::Update => None,
        PromptEvent::Validate => Some(Some(action)),
        PromptEvent::Abort => Some(None),
    }
}

/// What is done to show a document.
#[derive(Debug, Clone, Copy, PartialEq, Eq, Structural)]
pub enum ShowDocument {
    /// Open it with another program.
    External,
    /// It cannot be shown.
    Failed,
    /// Add it as a tab.
    AddTab,
}

impl ShowDocument {
    /// Whether showing it is answered with success.
    pub fn success(self) -> (r: bool)
        ensures
            r == !(self is Failed),
    {
        match self {
            ShowDocument::Failed => false,
            _ => true,
        }
    }
}

/// Decides how a document is shown: `external` tells whether another program is wanted, `valid_uri`
/// whether its file could be made out, `opened` whether that could be opened.
pub fn handle_show_document(external: Option<bool>, valid_uri: bool, opened: bool) -> (r: ShowDocument)
    ensures
        r == document_shown(external, valid_uri, opened),
{
    match external {
        Some(true) => ShowDocument::External,
        _ => if valid_uri && opened {
            ShowDocument::AddTab
        } else {
            ShowDocument::Failed
        },
    }
}

proof fn lemma_member_named(members: Seq<JsonMember>, name: Seq<char>, i: int, k: int)
    requires
        0 <= i <= k <= members.len(),
        forall|m: int| i <= m < k ==> (#[trigger] members[m]).name@ != name,
    ensures
        k < members.len() && members[k].name@ == name ==> member_named(members, name, i) == Some(
            members[k].value,
        ),
        k == members.len() ==> member_named(members, name, i) is None,
    decreases k - i,
{
    if i < k {
        lemma_member_named(members, name, i + 1, k);
    }
}

/// A section that is one name is the first member of the configuration with that name. If no member
/// has it, there is no such section; and in what is no object there is none at all.
pub proof fn law_section_is_a_member(members: Vec<JsonMember>, name: Seq<char>, k: int)
    requires
        name.len() > 0,
        !name.contains('.'),
        0 <= k <= members@.len(),
        forall|m: int| 0 <= m < k ==> (#[trigger] members@[m]).name@ != name,
    ensures
        k < members@.len() && members@[k].name@ == name ==> section_of(
            Some(Json::Object(members)),
            Some(name),
        ) == Some(members@[k].value),
        k == members@.len() ==> section_of(Some(Json::Object(members)), Some(name)) is None,
{
    lemma_no_dot(name, 0);
    assert(name.subrange(0, name.len() as int) =~= name);
    lemma_member_named(members@, name, 0, k);
}

/// What is no object has no sections.
pub proof fn law_only_objects_have_sections(config: Json, name: Seq<char>)
    requires
        name.len() > 0,
        !(config is Object),
    ensures
        section_of(Some(config), Some(name)) is None,
{
}

proof fn lemma_no_dot(s: Seq<char>, i: int)
    requires
        0 <= i <= s.len(),
        !s.contains('.'),
    ensures
        dot_at(s, i) == s.len(),
    decreases s.len() - i,
{
    if i < s.len() {
        assert(s.contains(s[i]));
        lemma_no_dot(s, i + 1);
    }
}

proof fn lemma_dot_ahead(a: Seq<char>, b: Seq<char>, i: int)
    requires
        0 <= i <= a.len(),
    ensures
        dot_at(a + seq!['.'] + b, i) == dot_at(a, i),
    decreases a.len() - i,
{
    let p = a + seq!['.'] + b;
    if i < a.len() {
        assert(p[i] == a[i]);
        if a[i] != '.' {
            lemma_dot_ahead(a, b, i + 1);
        }
    } else {
        assert(p[i] == '.');
    }
}

proof fn lemma_dot_behind(a: Seq<char>, b: Seq<char>, i: int)
    requires
        0 <= i <= b.len(),
    ensures
        dot_at(a + b, a.len() + i) == a.len() + dot_at(b, i),
    decreases b.len() - i,
{
    if i < b.len() {
        assert((a + b)[a.len() + i] == b[i]);
        if b[i] != '.' {
            lemma_dot_behind(a, b, i + 1);
        }
    }
}

proof fn lemma_section_behind(config: Json, a: Seq<char>, b: Seq<char>, from: int)
    requires
        0 <= from <= b.len(),
    ensures
        section_from(config, a + b, a.len() + from) == section_from(config, b, from),
    decreases b.len() + 1 - from,
{
    lemma_dot_behind(a, b, from);
    lemma_dot_at(b, from);
    let end = dot_at(b, from);
    assert((a + b).subrange(a.len() + from, a.len() + end) =~= b.subrange(from, end));
    match member(config, b.subrange(from, end)) {
        Some(value) => if end < b.len() {
            lemma_section_behind(value, a, b, end + 1);
        },
        None => {},
    }
}

proof fn lemma_section_ahead(config: Json, a: Seq<char>, b: Seq<char>, from: int)
    requires
        0 <= from <= a.len(),
    ensures
        section_from(config, a + seq!['.'] + b, from) == (match section_from(config, a, from) {
            Some(value) => section_from(value, b, 0),
            None => None,
        }),
    decreases a.len() + 1 - from,
{
    let p = a + seq!['.'] + b;
    lemma_dot_ahead(a, b, from);
    lemma_dot_at(a, from);
    let end = dot_at(a, from);
    assert(p.subrange(from, end) =~= a.subrange(from, end));
    match member(config, a.subrange(from, end)) {
        Some(value) => if end < a.len() {
            lemma_section_ahead(value, a, b, end + 1);
        } else {
            lemma_section_behind(value, a + seq!['.'], b, 0);
        },
        None => {},
    }
}

/// A dot leads into a section: the section with the name of one, a dot and that of another is the
/// second within the first.
pub proof fn law_sections_lie_within_each_other(config: Json, outer: Seq<char>, inner: Seq<char>)
    requires
        outer.len() > 0,
        inner.len() > 0,
    ensures
        section_of(Some(config), Some(outer + seq!['.'] + inner)) == section_of(
            section_of(Some(config), Some(outer)),
            Some(inner),
        ),
{
    lemma_section_ahead(config, outer, inner, 0);
}

/// Without a name, or with an empty one, the whole configuration is meant; without a configuration
/// there is no section.
pub proof fn law_unnamed_section_is_all(config: Option<Json>, section: Option<Seq<char>>)
    ensures
        section_of(config, None) == config,
        section_of(config, Some(Seq::empty())) == config,
        config is None ==> section_of(config, section) is None,
{
}

/// Errors and warnings are shown as such, any other message as information; nothing is shown if
/// messages are not to be.
pub proof fn law_messages_keep_their_weight(typ: MessageType, message: Seq<char>)
    ensures
        message_status(false, typ, message) is None,
        message_status(true, typ, message) matches Some(s) && {
            &&& s.0 == message
            &&& s.1 == Severity::Error <==> typ == MessageType::Error
            &&& s.1 == Severity::Warning <==> typ == MessageType::Warning
            &&& s.1 == Severity::Info <==> typ == MessageType::Info || typ == MessageType::Log
        },
{
}

/// A line of progress names the server, and its parts follow in order: how much is done, in two
/// columns at least, what is done, and what is said of it. What is not known takes no room, and only
/// between two texts is there a dot.
pub proof fn law_progress_line(name: Seq<char>, n: u32, title: Seq<char>, message: Seq<char>)
    ensures
        progress_text(name, None, Some(title), None) == name + ": "@ + title,
        progress_text(name, None, None, Some(message)) == name + ": "@ + message,
        progress_text(name, None, Some(title), Some(message)) == name + ": "@ + title + " ⋅ "@ + message,
        progress_text(name, Some(n), Some(title), None) == name + ": "@ + two_columns(n) + "% "@ + title,
        progress_text(name, Some(n), None, Some(message)) == name + ": "@ + two_columns(n) + "% "@
            + message,
        progress_text(name, Some(n), Some(title), Some(message)) == name + ": "@ + two_columns(n) + "% "@
            + title + " ⋅ "@ + message,
        n >= 10 ==> two_columns(n) == decimal_digits(n as nat),
        n < 10 ==> two_columns(n) == seq![' ', ((48 + n) as u32) as char],
{
    assert(progress_text(name, None, Some(title), None) =~= name + ": "@ + title);
    assert(progress_text(name, None, None, Some(message)) =~= name + ": "@ + message);
    assert(progress_text(name, None, Some(title), Some(message)) =~= name + ": "@ + title + " ⋅ "@
        + message);
    assert(progress_text(name, Some(n), Some(title), None) =~= name + ": "@ + two_columns(n) + "% "@
        + title);
    assert(progress_text(name, Some(n), None, Some(message)) =~= name + ": "@ + two_columns(n) + "% "@
        + message);
    assert(progress_text(name, Some(n), Some(title), Some(message)) =~= name + ": "@ + two_columns(n)
        + "% "@ + title + " ⋅ "@ + message);
    if n < 10 {
        assert(two_columns(n) =~= seq![' ', ((48 + n) as u32) as char]);
    }
}

/// Work that begins is known from then on, work that ends no longer; a report changes what is known.
/// An end without words only ends it. Progress is shown only if it is to be, if the server is known,
/// and if there is anything to say; a title is that of the beginning.
pub proof fn law_progress_of_work(
    work: WorkDone,
    server: Seq<char>,
    known_title: Option<Seq<char>>,
    display: bool,
)
    ensures
        (work matches WorkDone::End { message } && message is None) <==> progress_step(
            work,
            Some(server),
            known_title,
            display,
        ) is ProgressEnded,
        progress_step(work, Some(server), known_title, display) matches NotificationView::Progress(
            status,
            update,
        ) ==> {
            &&& update == ProgressUpdate::Begin <==> work is Begin
            &&& update == ProgressUpdate::Update <==> work is Report
            &&& update == ProgressUpdate::End <==> work is End
            &&& !display ==> status is None
            &&& display && work is Begin ==> status is Some
            &&& display && known_title is Some ==> status is Some
        },
        work matches WorkDone::Begin { title, message: None, percentage: None } ==> progress_step(
            work,
            Some(server),
            known_title,
            true,
        ) == NotificationView::Progress(Some(server + ": "@ + title@), ProgressUpdate::Begin),
        work matches WorkDone::Report { message: Some(m), percentage: None } ==> progress_step(
            work,
            Some(server),
            None,
            true,
        ) == NotificationView::Progress(Some(server + ": "@ + m@), ProgressUpdate::Update),
        work matches WorkDone::End { message: Some(m) } ==> progress_step(work, Some(server), None, true)
            == NotificationView::Progress(Some(server + ": "@ + m@), ProgressUpdate::End),
{
    match work {
        WorkDone::Begin { title, message: None, percentage: None } => law_progress_line(
            server,
            0,
            title@,
            Seq::empty(),
        ),
        WorkDone::Report { message: Some(m), percentage: None } => law_progress_line(
            server,
            0,
            Seq::empty(),
            m@,
        ),
        WorkDone::End { message: Some(m) } => law_progress_line(server, 0, Seq::empty(), m@),
        _ => {},
    }
}

/// Diagnostics are taken only from a server that is known and initialised, and only for a file that
/// can be made out; a server that exits is always let go; nothing is done about messages for the log,
/// nor about progress while a prompt is open.
pub proof fn law_notifications(
    n: Notification,
    server: Option<ServerInfo>,
    known_title: Option<Seq<char>>,
    cx: MessageContext,
)
    ensures
        ({
            let step = notification_step(n, server, known_title, cx);
            &&& step is Diagnostics <==> (n matches Notification::PublishDiagnostics { valid_uri }
                && valid_uri && server is Some && server->0.initialized)
            &&& step is Exited <==> n is Exit
            &&& step matches NotificationView::Exited(s) ==> s == "Language server exited"@
            &&& step is Initialized <==> n is Initialized && server is Some
            &&& step matches NotificationView::Initialized(send) ==> send == server->0.has_config
            &&& step is Status <==> n is ShowMessage
            &&& n is LogMessage || n is Unknown ==> step is Ignore
            &&& n is ProgressMessage && cx.prompt_open ==> step is Ignore
            &&& step is Progress || step is ProgressEnded ==> n is ProgressMessage && !cx.prompt_open
        }),
{
}

/// Each request has its own effect, and only a request that is not known, one that cannot be read,
/// and an edit asked for before the server is initialised are answered with an error, each with its
/// own code.
pub proof fn law_effects_of_requests(m: MethodCall, server: Option<ServerInfo>, cx: MessageContext)
    ensures
        ({
            let (effect, reply) = request_step(m, server, cx);
            let known = server is Some;
            let ready = known && server->0.initialized;
            &&& effect is ApplyEdit <==> m is ApplyWorkspaceEdit && ready
            &&& effect is CreateProgress <==> m is WorkDoneProgressCreate
            &&& effect is Folders <==> m is WorkspaceFolders && known
            &&& effect is Configuration <==> m is WorkspaceConfiguration && known
            &&& effect is Register <==> m is RegisterCapability && known
            &&& effect is Unregister <==> m is UnregisterCapability
            &&& effect is ShowDocument <==> m is ShowDocument && known
            &&& effect is RequestDiagnostics <==> m is WorkspaceDiagnosticRefresh && known
                && cx.doc_supported
            &&& effect is Select <==> (m matches MethodCall::ShowMessageRequest { actions, .. } && actions
                > 0)
            &&& effect is Status <==> (m matches MethodCall::ShowMessageRequest { actions, .. } && actions
                == 0)
            &&& reply is Error <==> m is Unhandled || m is Malformed || (m is ApplyWorkspaceEdit && known
                && !ready)
            &&& reply matches ReplyView::Error(code, _) ==> {
                &&& code == ErrorCode::MethodNotFound <==> m is Unhandled
                &&& code == ErrorCode::ParseError <==> m is Malformed
                &&& code == ErrorCode::InvalidRequest <==> m is ApplyWorkspaceEdit
            }
            &&& m matches MethodCall::Unhandled { method } ==> reply == ReplyView::Error(
                ErrorCode::MethodNotFound,
                "Method not found: "@ + method@,
            )
            &&& m matches MethodCall::Malformed { method } ==> reply == ReplyView::Error(
                ErrorCode::ParseError,
                "Malformed method call: "@ + method@,
            )
            &&& reply is Value ==> m is ApplyWorkspaceEdit || m is WorkspaceFolders
                || m is WorkspaceConfiguration || m is ShowDocument
        }),
{
}

/// Of what a server registers, all that asks to be told of changes of files is accepted, if it says in
/// a valid way of which ones, and nothing else.
pub proof fn law_watchers_are_registered(v: Seq<Registration>, n: int)
    requires
        v.len() <= usize::MAX,
        0 <= n <= v.len(),
    ensures
        forall|k: int|
            #![trigger accepted(v, n).contains(k as usize)]
            0 <= k < n ==> (accepted(v, n).contains(k as usize) <==> (v[k].method@ == "workspace/didChangeWatchedFiles"@ && v[k].valid_options)),
        forall|a: int|
            0 <= a < accepted(v, n).len() ==> 0 <= #[trigger] accepted(v, n)[a] < n,
        forall|a: int, b: int|
            0 <= a < b < accepted(v, n).len() ==> #[trigger] accepted(v, n)[a] < #[trigger] accepted(v, n)[b],
    decreases n,
{
    if n > 0 {
        law_watchers_are_registered(v, n - 1);
        let prev = accepted(v, n - 1);
        let all = accepted(v, n);
        assert forall|k: int|
            #![trigger all.contains(k as usize)]
            0 <= k < n implies (all.contains(k as usize) <==> (v[k].method@ == "workspace/didChangeWatchedFiles"@ && v[k].valid_options)) by {
            if k < n - 1 {
                if prev.contains(k as usize) {
                    let a = choose|a: int| 0 <= a < prev.len() && prev[a] == k as usize;
                    assert(all[a] == k as usize);
                }
                if all.contains(k as usize) {
                    let a = choose|a: int| 0 <= a < all.len() && all[a] == k as usize;
                    assert(prev[a] == k as usize);
                }
            } else {
                if all.len() > prev.len() {
                    assert(all[prev.len() as int] == k as usize);
                } else if all.contains(k as usize) {
                    let a = choose|a: int| 0 <= a < all.len() && all[a] == k as usize;
                    assert(prev[a] < n - 1);
                }
            }
        }
    }
}

/// Of what a server gives back, all that was about changes of files is let go, and nothing else.
pub proof fn law_watchers_are_given_back(v: Seq<String>, n: int)
    requires
        v.len() <= usize::MAX,
        0 <= n <= v.len(),
    ensures
        forall|k: int|
            #![trigger given_back(v, n).contains(k as usize)]
            0 <= k < n ==> (given_back(v, n).contains(k as usize) <==> (v[k]@ == "workspace/didChangeWatchedFiles"@)),
        forall|a: int|
            0 <= a < given_back(v, n).len() ==> 0 <= #[trigger] given_back(v, n)[a] < n,
        forall|a: int, b: int|
            0 <= a < b < given_back(v, n).len() ==> #[trigger] given_back(v, n)[a] < #[trigger] given_back(v, n)[b],
    decreases n,
{
    if n > 0 {
        law_watchers_are_given_back(v, n - 1);
        let prev = given_back(v, n - 1);
        let all = given_back(v, n);
        assert forall|k: int|
            #![trigger all.contains(k as usize)]
            0 <= k < n implies (all.contains(k as usize) <==> (v[k]@ == "workspace/didChangeWatchedFiles"@)) by {
            if k < n - 1 {
                if prev.contains(k as usize) {
                    let a = choose|a: int| 0 <= a < prev.len() && prev[a] == k as usize;
                    assert(all[a] == k as usize);
                }
                if all.contains(k as usize) {
                    let a = choose|a: int| 0 <= a < all.len() && all[a] == k as usize;
                    assert(prev[a] == k as usize);
                }
            } else {
                if all.len() > prev.len() {
                    assert(all[prev.len() as int] == k as usize);
                } else if all.contains(k as usize) {
                    let a = choose|a: int| 0 <= a < all.len() && all[a] == k as usize;
                    assert(prev[a] < n - 1);
                }
            }
        }
    }
}

/// What a message with actions is answered, if it is answered now.
pub open spec fn choice(event: PromptEvent, action: usize) -> Option<Option<usize>> {
    match event {
        PromptEvent::Update => None::<Option<usize>>,
        PromptEvent::Validate => Some(Some(action)),
        PromptEvent::Abort => Some(None::<usize>),
    }
}

/// How a document is shown.
pub open spec fn document_shown(external: Option<bool>, valid_uri: bool, opened: bool) -> ShowDocument {
    if external == Some(true) {
        ShowDocument::External
    } else if valid_uri && opened {
        ShowDocument::AddTab
    } else {
        ShowDocument::Failed
    }
}

/// Only choosing an action or giving up is answered: with that action, or with none.
pub proof fn law_choice_is_answered_once(event: PromptEvent, action: usize)
    ensures
        choice(event, action) is None <==> event == PromptEvent::Update,
        choice(event, action) == Some(Some(action)) <==> event == PromptEvent::Validate,
        choice(event, action) == Some(None::<usize>) <==> event == PromptEvent::Abort,
{
}

/// A document goes to another program only if that is asked for; else it becomes a tab, unless its file
/// cannot be made out or opened.
pub proof fn law_documents_are_shown(external: Option<bool>, valid_uri: bool, opened: bool)
    ensures
        document_shown(external, valid_uri, opened) is External <==> external == Some(true),
        external != Some(true) ==> (document_shown(external, valid_uri, opened) is AddTab <==> valid_uri
            && opened),
        external != Some(true) ==> (document_shown(external, valid_uri, opened) is Failed <==> !valid_uri
            || !opened),
{
}

} // verus!
