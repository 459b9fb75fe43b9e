//! The program: what it opens when it starts, and how it reacts to events.
use crate::app_id::AppId;
use crate::app_id::AppIds;
use crate::apps::app_views;
use crate::apps::following;
use crate::apps::AppEntry;
use crate::apps::AppKind;
use crate::apps::AppKindView;
use crate::apps::EditorApps;
use crate::config::Config;
use crate::config::Severity;
use crate::editor::status_view;
use crate::editor::ConfigEvent;
use crate::editor::EditorEvent;
use crate::editor::EditorModel;
use crate::editor::FAR_FUTURE;
use crate::editor_view::Position;
use crate::graphics::Color;
use crate::strings::decimal;
use crate::strings::decimal_digits;
use crate::strings::digits_value;
use crate::strings::law_decimal_reads_back;
use crate::strings::texts;
use crate::theme::entries_of;
use crate::theme::exact;
use crate::theme::Theme;
use vstd::prelude::*;
use vstd::string::*;

verus! {

/// Whether a theme is dark or light.
#[derive(Debug, Clone, Copy, PartialEq, Eq, Structural)]
pub enum ThemeMode {
    Dark,
    Light,
}

/// How opening a file went.
#[derive(Debug, Clone, Copy, PartialEq, Eq, Structural)]
pub enum OpenOutcome {
    Opened,
    /// It is no regular file.
    Irregular,
    Failed,
}

/// A file that is to be opened.
#[derive(Debug, Clone, Copy, PartialEq, Eq, Structural)]
pub struct FileArg {
    pub is_dir: bool,
    pub outcome: OpenOutcome,
}

/// Why the program does not start, with the number of the file.
#[derive(Debug, Clone, Copy, PartialEq, Eq, Structural)]
pub enum StartError {
    /// A directory stands behind the first file.
    Directory(usize),
    OpenFailed(usize),
}

/// What is opened when the program starts.
#[derive(Debug)]
pub struct StartPlan {
    /// The first file is a directory: a picker of its files is opened.
    pub picker: bool,
    /// The files whose documents become tabs.
    pub open: Vec<usize>,
    pub status: Option<String>,
}

/// Those of the files before `n` that are opened, from the file `from` on.
pub open spec fn opened(files: Seq<FileArg>, from: int, n: int) -> Seq<usize>
    decreases n - from,
{
    if n <= from {
        Seq::empty()
    } else if files[n - 1].outcome == OpenOutcome::Opened {
        opened(files, from, n - 1).push((n - 1) as usize)
    } else {
        opened(files, from, n - 1)
    }
}

/// The first error among the files from `i` on.
pub open spec fn first_error(files: Seq<FileArg>, i: int) -> Option<StartError>
    decreases files.len() - i,
{
    if i < 0 || i >= files.len() {
        None
    } else if files[i].is_dir {
        Some(StartError::Directory(i as usize))
    } else if files[i].outcome == OpenOutcome::Failed {
        Some(StartError::OpenFailed(i as usize))
    } else {
        first_error(files, i + 1)
    }
}

/// How many files there are, in words.
pub open spec fn file_count(verb: Seq<char>, n: nat) -> Seq<char> {
    verb + decimal_digits(n) + (if n == 1 {
        " file."@
    } else {
        " files."@
    })
}

fn count_status(verb: &str, n: usize) -> (r: String)
    ensures
        r@ == file_count(verb@, n as nat),
{
    let mut s = verb.to_owned();
    s.append(decimal(n as u64).as_str());
    if n == 1 {
        s.append(" file.");
    } else {
        s.append(" files.");
    }
    assert(s@ =~= file_count(verb@, n as nat));
    s
}

/// The status for a number of files that were opened; nothing if there are none.
pub open spec fn open_status(verb: Seq<char>, n: nat) -> Option<Seq<char>> {
    if n > 0 {
        Some(file_count(verb, n))
    } else {
        None
    }
}

/// Decides what is opened for the files that the program was started with. A directory in first
/// place is opened in a picker; irregular files are left out; any other directory and any file that
/// cannot be opened is an error.
pub fn open_files(files: &Vec<FileArg>) -> (r: Result<StartPlan, StartError>)
    ensures
        ({
            let picker = files@.len() > 0 && files@[0].is_dir;
            let from = if picker {
                1
            } else {
                0int
            };
            match first_error(files@, from) {
                Some(e) => r == Err::<StartPlan, StartError>(e),
                None => r matches Ok(plan) && {
                    let open = opened(files@, from, files@.len() as int);
                    &&& plan.picker == picker
                    &&& plan.open@ == open
                    &&& crate::strings::text_opt(plan.status) == open_status(
                        "Loaded "@,
                        open.len(),
                    )
                },
            }
        }),
{
    let picker = files.len() > 0 && files[0].is_dir;
    let from: usize = if picker {
        1
    } else {
        0
    };
    let mut open: Vec<usize> = Vec::new();
    let mut i: usize = from;
    while i < files.len()
        invariant
            from <= i,
            i <= files@.len() || i == from,
            from <= files@.len(),
            picker == (files@.len() > 0 && files@[0].is_dir),
            from == if picker {
                1int
            } else {
                0
            },
            open@ == opened(files@, from as int, i as int),
            first_error(files@, from as int) == first_error(files@, i as int),
        decreases files@.len() - i,
    {
        if files[i].is_dir {
            return Err(StartError::Directory(i));
        }
        match files[i].outcome {
            OpenOutcome::Irregular => {},
            OpenOutcome::Failed => {
                return Err(StartError::OpenFailed(i));
            },
            OpenOutcome::Opened => {
                open.push(i);
            },
        }
        i = i + 1;
    }
    let status = if open.len() > 0 {
        Some(count_status("Loaded ", open.len()))
    } else {
        None
    };
    Ok(StartPlan { picker, open, status })
}

/// Decides what is opened of a session's files: all that can be.
pub fn open_session(files: &Vec<FileArg>) -> (r: StartPlan)
    ensures
        !r.picker,
        r.open@ == opened(files@, 0, files@.len() as int),
        crate::strings::text_opt(r.status) == open_status(
            "Restored "@,
            opened(files@, 0, files@.len() as int).len(),
        ),
{
    let mut open: Vec<usize> = Vec::new();
    let mut i: usize = 0;
    while i < files.len()
        invariant
            i <= files@.len(),
            open@ == opened(files@, 0, i as int),
        decreases files@.len() - i,
    {
        match files[i].outcome {
            OpenOutcome::Opened => {
                open.push(i);
            },
            _ => {},
        }
        i = i + 1;
    }
    let status = if open.len() > 0 {
        Some(count_status("Restored ", open.len()))
    } else {
        None
    };
    StartPlan { picker: false, open, status }
}

/// Where the first documents come from.
#[derive(Debug, Clone, Copy, PartialEq, Eq, Structural)]
pub enum StartSource {
    /// The tutorial, as a document without a path.
    Tutor,
    /// The files that the program was started with.
    Files,
    /// The files of the last session.
    Session,
    /// An empty document.
    Scratch,
}

/// Decides where the first documents come from.
pub fn start_source(load_tutor: bool, files: usize, stdin_is_terminal: bool) -> (r: StartSource)
    ensures
        r == source_of_documents(load_tutor, files, stdin_is_terminal),
{
    if load_tutor {
        StartSource::Tutor
    } else if files > 0 {
        StartSource::Files
    } else if stdin_is_terminal {
        StartSource::Session
    } else {
        StartSource::Scratch
    }
}

/// Shows the first application, or the welcome page if nothing was opened.
pub fn show_first(apps: &mut EditorApps, tab_count: usize, ids: &mut AppIds)
    requires
        old(apps).wf(),
    ensures
        final(apps).wf(),
        final(apps).doc_views == old(apps).doc_views,
        if tab_count > 0 {
            final(apps).apps == old(apps).apps && final(apps).active_app == 0 && final(ids)@ == old(
                ids)@
        } else if old(apps).apps@.len() == 0 {
            app_views(final(apps).apps@) == seq![(AppId(old(ids)@), AppKindView::Welcome)] && final(
                apps).active_app == 0 && final(ids)@ == following(old(ids)@)
        } else {
            *final(apps) == *old(apps) && final(ids)@ == old(ids)@
        },
{
    if tab_count > 0 {
        apps.switch_app(0);
    } else if apps.app_count() == 0 {
        let ghost next = ids@;
        let id = AppId::next(ids);
        apps.add_app(AppEntry { id, kind: AppKind::Welcome });
        assert(app_views(apps.apps@) =~= seq![(AppId(next), AppKindView::Welcome)]);
    }
}

/// What is done about an event of the configuration.
#[derive(Debug)]
pub enum ConfigStep {
    /// Read the configuration again, then bring the editor up to date.
    Reload,
    /// Use another configuration, then bring the editor up to date.
    Store(Box<Config>),
    /// Give the terminal a background; nothing more.
    Background(Option<Color>),
}

/// The background of a theme.
pub open spec fn background_of(theme: Theme) -> Option<Color> {
    match exact(entries_of(theme), "ui.background"@) {
        Some(i) => entries_of(theme)[i as int].1.bg,
        None => None,
    }
}

/// The background of a theme.
pub fn background_color(theme: &Theme) -> (r: Option<Color>)
    ensures
        r == background_of(*theme),
{
    match theme.try_get_exact("ui.background") {
        Some(style) => style.bg,
        None => None,
    }
}

/// What is done about a signal.
#[derive(Debug, Clone, Copy, PartialEq, Eq, Structural)]
pub enum SignalStep {
    /// Give the terminal back and stop the whole group of processes.
    Suspend,
    /// Take the terminal over again and draw everything.
    Resume,
    /// Read the configuration again and draw.
    Reload,
    /// Give the terminal back and end.
    Quit,
}

/// A signal that the program reacts to.
#[derive(Debug, Clone, Copy, PartialEq, Eq, Structural)]
pub enum Signal {
    /// Stop, typed at the terminal.
    Tstp,
    /// Go on.
    Cont,
    Usr1,
    Term,
    Int,
}

/// What follows an attempt to take the terminal over again.
#[derive(Debug, Clone, Copy, PartialEq, Eq, Structural)]
pub enum ClaimStep {
    Done,
    Retry,
    /// Ten attempts have failed.
    GiveUp,
}

/// Decides what follows the attempt number `attempt`, counted from one.
pub fn claim_step(attempt: u32, ok: bool) -> (r: ClaimStep)
    ensures
        r == after_attempt(attempt, ok),
{
    if ok {
        ClaimStep::Done
    } else if attempt >= 10 {
        ClaimStep::GiveUp
    } else {
        ClaimStep::Retry
    }
}

/// What comes from the terminal.
#[derive(Debug, Clone, Copy, PartialEq, Eq, Structural)]
pub enum TerminalInput {
    Resize(u16, u16),
    /// A key was let go.
    KeyRelease,
    /// Any other event, which the layers get.
    Other,
}

/// What is done about input from the terminal.
#[derive(Debug, Clone, Copy, PartialEq, Eq, Structural)]
pub enum TerminalStep {
    /// Adapt the terminal and the layers to the new size, then hand the event to the layers.
    Resize(u16, u16),
    Ignore,
    /// Hand the event to the layers.
    Layers,
}

/// What is done about an event of the editor.
#[derive(Debug)]
pub enum EditorStep<M> {
    /// Deal with an event of the configuration, then draw.
    Config(ConfigEvent),
    /// Deal with a message of a language server, then ask for a redraw.
    Message((u64, M)),
    Render,
    /// Hand the idle event to the layers.
    Idle,
}

/// The program.
pub struct Application<D, T, C> {
    pub editor: EditorModel<D, T, C>,
    pub theme_mode: Option<ThemeMode>,
}

impl<D, T, C> Application<D, T, C> {
    /// Starts a picture: tells whether the whole terminal is to be cleared before, and takes note
    /// that a redraw is under way.
    pub fn start_frame(&mut self) -> (r: bool)
        ensures
            r == old(self).editor.layer_state.full_redraw,
            final(self).theme_mode == old(self).theme_mode,
            final(self).editor == (EditorModel {
                needs_redraw: false,
                layer_state: crate::layers::LayerState {
                    full_redraw: false,
                    ..old(self).editor.layer_state
                },
                ..old(self).editor
            }),
    {
        let clear = self.editor.layer_state.full_redraw;
        self.editor.layer_state.full_redraw = false;
        self.editor.needs_redraw = false;
        clear
    }

    /// Decides what is done about an event of the configuration.
    pub fn handle_config_events(&self, event: ConfigEvent) -> (r: ConfigStep)
        ensures
            r == match event {
                ConfigEvent::Refresh => ConfigStep::Reload,
                ConfigEvent::Update(config) => ConfigStep::Store(config),
                ConfigEvent::ThemeChanged => ConfigStep::Background(
                    background_of(self.editor.theme),
                ),
            },
    {
        match event {
            ConfigEvent::Refresh => ConfigStep::Reload,
            ConfigEvent::Update(config) => ConfigStep::Store(config),
            ConfigEvent::ThemeChanged => ConfigStep::Background(
                background_color(&self.editor.theme),
            ),
        }
    }

    /// Shows a message that came from the background; a redraw is asked for then.
    pub fn show_status(&mut self, message: String, severity: Severity)
        ensures
            final(self).theme_mode == old(self).theme_mode,
            final(self).editor == (EditorModel {
                status_msg: Some((message, severity)),
                ..old(self).editor
            }),
    {
        self.editor.status_msg = Some((message, severity));
    }

    /// Tells how reading the configuration again went.
    pub fn refreshed(&mut self, result: Result<(), String>)
        ensures
            final(self).theme_mode == old(self).theme_mode,
            final(self).editor == (EditorModel {
                status_msg: final(self).editor.status_msg,
                ..old(self).editor
            }),
            status_view(final(self).editor.status_msg) == match result {
                Ok(_) => Some(("Config refreshed"@, Severity::Info)),
                Err(e) => Some((e@, Severity::Error)),
            },
    {
        match result {
            Ok(_) => {
                self.editor.set_status("Config refreshed".to_owned());
            },
            Err(e) => {
                self.editor.set_error(e);
            },
        }
    }

    /// Sets the theme of the configuration, or the default one if there is none that the terminal
    /// can show. `loaded` is the configured theme and whether it needs no more than 16 colours;
    /// `default_theme` the default one for what the terminal can show. Gives the background.
    pub fn load_configured_theme(
        &mut self,
        loaded: Option<(Theme, bool)>,
        true_color: bool,
        default_theme: Theme,
    ) -> (r: Option<Color>)
        ensures
            final(self).theme_mode == old(self).theme_mode,
            ({
                let theme = chosen_theme(loaded, true_color, default_theme);
                &&& r == background_of(theme)
                &&& if crate::editor::usable(theme) {
                    final(self).editor == (EditorModel {
                        last_theme: None,
                        theme,
                        ..old(self).editor
                    })
                } else {
                    final(self).editor.rejected(old(self).editor)
                }
            }),
    {
        let theme = match loaded {
            Some((theme, is_16_color)) => if true_color || is_16_color {
                theme
            } else {
                default_theme
            },
            None => default_theme,
        };
        let background = background_color(&theme);
        let _changed = self.editor.set_theme(theme);
        background
    }

    /// Decides what is done about a signal, and whether the program goes on.
    pub fn handle_signals(&self, signal: Signal) -> (r: (SignalStep, bool))
        ensures
            r == on_signal(signal),
    {
        match signal {
            Signal::Tstp => (SignalStep::Suspend, true),
            Signal::Cont => (SignalStep::Resume, true),
            Signal::Usr1 => (SignalStep::Reload, true),
            Signal::Term => (SignalStep::Quit, false),
            Signal::Int => (SignalStep::Quit, false),
        }
    }

    /// Whether to draw after the idle event; `should_render` tells whether a layer used it.
    pub fn handle_idle_timeout(&self, should_render: bool) -> (r: bool)
        ensures
            r == (should_render || self.editor.needs_redraw),
    {
        should_render || self.editor.needs_redraw
    }

    /// Decides what is done about an event of the editor. With the idle event the idle timer is
    /// stopped.
    pub fn handle_editor_event<M>(&mut self, event: EditorEvent<M>, now: u64) -> (r: EditorStep<M>)
        requires
            now + FAR_FUTURE <= u64::MAX,
        ensures
            final(self).theme_mode == old(self).theme_mode,
            final(self).editor == if event is IdleTimer {
                EditorModel { idle_timer: (now + FAR_FUTURE) as u64, ..old(self).editor }
            } else {
                old(self).editor
            },
            r == match event {
                EditorEvent::ConfigEvent(e) => EditorStep::Config(e),
                EditorEvent::LanguageServerMessage(m) => EditorStep::Message(m),
                EditorEvent::Redraw => EditorStep::Render,
                EditorEvent::IdleTimer => EditorStep::Idle,
            },
    {
        match event {
            EditorEvent::ConfigEvent(e) => EditorStep::Config(e),
            EditorEvent::LanguageServerMessage(m) => EditorStep::Message(m),
            EditorEvent::Redraw => EditorStep::Render,
            EditorEvent::IdleTimer => {
                self.editor.clear_idle_timer(now);
                EditorStep::Idle
            },
        }
    }

    /// Decides what is done about input from the terminal.
    pub fn handle_terminal_events(&self, input: TerminalInput) -> (r: TerminalStep)
        ensures
            r == match input {
                TerminalInput::Resize(w, h) => TerminalStep::Resize(w, h),
                TerminalInput::KeyRelease => TerminalStep::Ignore,
                TerminalInput::Other => TerminalStep::Layers,
            },
    {
        match input {
            TerminalInput::Resize(w, h) => TerminalStep::Resize(w, h),
            TerminalInput::KeyRelease => TerminalStep::Ignore,
            TerminalInput::Other => TerminalStep::Layers,
        }
    }

    /// Whether to draw after input from the terminal; `should_redraw` tells whether a layer used
    /// it.
    pub fn draws_after_input(&self, should_redraw: bool) -> (r: bool)
        ensures
            r == (should_redraw && !self.editor.should_exit),
    {
        should_redraw && !self.editor.should_close()
    }

    /// The exit code, given how many errors there were while closing.
    pub fn exit_code(&mut self, errors: usize) -> (r: i32)
        ensures
            r == if errors > 0 {
                1
            } else {
                old(self).editor.exit_code
            },
            final(self).theme_mode == old(self).theme_mode,
            final(self).editor == (EditorModel { exit_code: r, ..old(self).editor }),
    {
        if errors > 0 {
            self.editor.exit_code = 1;
        }
        self.editor.exit_code
    }

    /// The errors of closing: that of the last jobs, and that language servers did not shut down in
    /// time.
    pub fn close(&self, job_error: Option<String>, servers_timed_out: bool) -> (r: Vec<String>)
        ensures
            texts(r@) == (match job_error {
                Some(e) => seq![e@],
                None => Seq::empty(),
            }) + (if servers_timed_out {
                seq!["Timed out waiting for language servers to shutdown"@]
            } else {
                Seq::empty()
            }),
    {
        let mut errs: Vec<String> = Vec::new();
        match job_error {
            Some(e) => {
                errs.push(e);
            },
            None => {},
        }
        if servers_timed_out {
            errs.push("Timed out waiting for language servers to shutdown".to_owned());
        }
        assert(texts(errs@) =~= (match job_error {
            Some(e) => seq![e@],
            None => Seq::empty(),
        }) + (if servers_timed_out {
            seq!["Timed out waiting for language servers to shutdown"@]
        } else {
            Seq::empty()
        }));
        errs
    }
}

/// The theme that is used: the configured one if the terminal can show it, else the default one.
pub open spec fn chosen_theme(loaded: Option<(Theme, bool)>, true_color: bool, default_theme: Theme) -> Theme {
    match loaded {
        Some((theme, is_16_color)) => if true_color || is_16_color {
            theme
        } else {
            default_theme
        },
        None => default_theme,
    }
}

/// Whether true colours are used: the terminal supports them, or they are configured, or the
/// environment says so.
pub fn true_color(terminal: bool, configured: bool, environment: bool) -> (r: bool)
    ensures
        r == (terminal || configured || environment),
{
    terminal || configured || environment
}

/// The cell of the terminal at a position.
pub fn cursor_cell(pos: Option<Position>) -> (r: Option<(u16, u16)>)
    ensures
        r == match pos {
            Some(p) => Some((p.col as u16, p.row as u16)),
            None => None,
        },
{
    match pos {
        Some(p) => Some((p.col as u16, p.row as u16)),
        None => None,
    }
}

proof fn lemma_none_failed(files: Seq<FileArg>, i: int, k: int)
    requires
        0 <= i <= k < files.len(),
        first_error(files, i) is None,
    ensures
        !files[k].is_dir,
        files[k].outcome != OpenOutcome::Failed,
    decreases k - i,
{
    if i < k {
        lemma_none_failed(files, i + 1, k);
    }
}

/// If the program starts with files, each of them is opened, except a directory in first place and
/// irregular files.
pub proof fn law_all_files_are_opened(files: Seq<FileArg>, from: int, k: int, n: int)
    requires
        0 <= from <= k < n <= files.len(),
        files.len() <= usize::MAX,
        first_error(files, from) is None,
        files[k].outcome != OpenOutcome::Irregular,
    ensures
        opened(files, from, n).contains(k as usize),
    decreases n,
{
    lemma_none_failed(files, from, k);
    if k == n - 1 {
        assert(opened(files, from, n).last() == k as usize);
    } else {
        law_all_files_are_opened(files, from, k, n - 1);
        let before = opened(files, from, n - 1);
        let at = choose|i: int| 0 <= i < before.len() && before[i] == k as usize;
        assert(opened(files, from, n)[at] == k as usize);
    }
}

/// Only files that could be opened become tabs, from the wanted one on, each once and in their order.
pub proof fn law_only_opened_files_become_tabs(files: Seq<FileArg>, from: int, n: int)
    requires
        0 <= from <= n <= files.len(),
        files.len() <= usize::MAX,
    ensures
        forall|a: int|
            0 <= a < opened(files, from, n).len() ==> from <= #[trigger] opened(files, from, n)[a] < n
                && files[opened(files, from, n)[a] as int].outcome == OpenOutcome::Opened,
        forall|a: int, b: int|
            0 <= a < b < opened(files, from, n).len() ==> #[trigger] opened(files, from, n)[a]
                < #[trigger] opened(files, from, n)[b],
    decreases n - from,
{
    if n > from {
        law_only_opened_files_become_tabs(files, from, n - 1);
    }
}

/// The error that ends the start is that of the first file that has one: a directory, or a file that
/// could not be opened.
pub proof fn law_first_error_counts(files: Seq<FileArg>, i: int, k: int)
    requires
        0 <= i <= k <= files.len(),
        files.len() <= usize::MAX,
        forall|m: int|
            i <= m < k ==> !(#[trigger] files[m]).is_dir && files[m].outcome != OpenOutcome::Failed,
    ensures
        k == files.len() ==> first_error(files, i) is None,
        k < files.len() && files[k].is_dir ==> first_error(files, i) == Some(
            StartError::Directory(k as usize),
        ),
        k < files.len() && !files[k].is_dir && files[k].outcome == OpenOutcome::Failed ==> first_error(
            files,
            i,
        ) == Some(StartError::OpenFailed(k as usize)),
    decreases k - i,
{
    if i < k {
        law_first_error_counts(files, i + 1, k);
    }
}

/// What is said of the files tells their number, and speaks of one file in the singular only; of none
/// nothing is said.
pub proof fn law_file_count_in_words(verb: Seq<char>, n: nat)
    ensures
        open_status(verb, 0) is None,
        n == 1 ==> open_status(verb, n) == Some(verb + "1 file."@),
        n > 1 ==> exists|number: Seq<char>|
            #![trigger digits_value(number)]
            digits_value(number) == n && open_status(verb, n) == Some(verb + number + " files."@),
{
    law_decimal_reads_back(n);
    if n == 1 {
        reveal_strlit("1 file.");
        reveal_strlit(" file.");
        assert(decimal_digits(1) =~= seq!['1']);
        assert(verb + decimal_digits(1) + " file."@ =~= verb + "1 file."@);
    }
    assert(digits_value(decimal_digits(n)) == n);
}

/// The configured theme is used, unless it was not found or needs true colours that are not there.
pub proof fn law_configured_theme_is_used(
    theme: Theme,
    is_16_color: bool,
    true_color: bool,
    default_theme: Theme,
)
    ensures
        chosen_theme(None, true_color, default_theme) == default_theme,
        true_color ==> chosen_theme(Some((theme, is_16_color)), true_color, default_theme) == theme,
        is_16_color ==> chosen_theme(Some((theme, is_16_color)), true_color, default_theme) == theme,
        !true_color && !is_16_color ==> chosen_theme(
            Some((theme, is_16_color)),
            true_color,
            default_theme,
        ) == default_theme,
{
}

/// What is done about a signal, and whether the program goes on.
pub open spec fn on_signal(signal: Signal) -> (SignalStep, bool) {
    match signal {
        Signal::Tstp => (SignalStep::Suspend, true),
        Signal::Cont => (SignalStep::Resume, true),
        Signal::Usr1 => (SignalStep::Reload, true),
        Signal::Term => (SignalStep::Quit, false),
        Signal::Int => (SignalStep::Quit, false),
    }
}

/// Where the first documents come from.
pub open spec fn source_of_documents(load_tutor: bool, files: usize, stdin_is_terminal: bool) -> StartSource {
    if load_tutor {
        StartSource::Tutor
    } else if files > 0 {
        StartSource::Files
    } else if stdin_is_terminal {
        StartSource::Session
    } else {
        StartSource::Scratch
    }
}

/// What follows an attempt to take the terminal over.
pub open spec fn after_attempt(attempt: u32, ok: bool) -> ClaimStep {
    if ok {
        ClaimStep::Done
    } else if attempt >= 10 {
        ClaimStep::GiveUp
    } else {
        ClaimStep::Retry
    }
}

/// The program ends with just the signals that ask for it, and each other one has its own answer.
pub proof fn law_signals(signal: Signal)
    ensures
        on_signal(signal).1 <==> !(on_signal(signal).0 is Quit),
        on_signal(signal).0 is Quit <==> signal == Signal::Term || signal == Signal::Int,
        on_signal(signal).0 is Suspend <==> signal == Signal::Tstp,
        on_signal(signal).0 is Resume <==> signal == Signal::Cont,
        on_signal(signal).0 is Reload <==> signal == Signal::Usr1,
{
}

/// What the user names comes first: the tutor, then files. Only without either is the last session
/// opened, and only if the input is a terminal.
pub proof fn law_source_of_documents(load_tutor: bool, files: usize, stdin_is_terminal: bool)
    ensures
        source_of_documents(load_tutor, files, stdin_is_terminal) is Tutor <==> load_tutor,
        source_of_documents(load_tutor, files, stdin_is_terminal) is Files <==> !load_tutor && files > 0,
        source_of_documents(load_tutor, files, stdin_is_terminal) is Session <==> !load_tutor && files == 0
            && stdin_is_terminal,
        source_of_documents(load_tutor, files, stdin_is_terminal) is Scratch <==> !load_tutor && files == 0
            && !stdin_is_terminal,
{
}

/// Attempts that fail are made again until ten have failed.
pub proof fn law_attempts(attempt: u32, ok: bool)
    ensures
        after_attempt(attempt, ok) is Done <==> ok,
        after_attempt(attempt, ok) is Retry <==> !ok && attempt < 10,
        after_attempt(attempt, ok) is GiveUp <==> !ok && attempt >= 10,
{
}

/// The background is that of the theme's entry for it; without one there is none.
pub proof fn law_background_of_a_theme(theme: Theme)
    ensures
        exact(entries_of(theme), "ui.background"@) matches Some(i) ==> background_of(theme) == entries_of(
            theme,
        )[i as int].1.bg,
        exact(entries_of(theme), "ui.background"@) is None ==> background_of(theme) is None,
{
}

} // verus!
