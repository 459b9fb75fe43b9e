//! The state of the editor: its tabs, status, theme and timers.
use crate::app_id::AppId;
use crate::apps::active_after_close;
use crate::apps::next_place;
use crate::apps::prev_place;
use crate::apps::AppEntry;
use crate::apps::EditorApps;
use crate::config::Config;
use crate::config::Mode;
use crate::config::PopupBorderConfig;
use crate::config::Severity;
use crate::doc_view::DocView;
use crate::doc_view::Tab;
use crate::editor_view::Position;
use crate::editor_view::ViewId;
use crate::graphics::monus;
use crate::graphics::CursorKind;
use crate::graphics::Rect;
use crate::graphics::Style;
use crate::input::KeyEvent;
use crate::layers::Layer;
use crate::layers::LayerState;
use crate::selection::Range;
use crate::selection::Selection;
use crate::strings::text_opt;
use crate::strings::texts;
use crate::text::all_white;
use crate::text::breaks;
use crate::text::clustered;
use crate::text::is_blank;
use crate::text::is_boundary;
use crate::text::is_line_ending;
use crate::text::law_boundaries_are_the_nearest;
use crate::text::lemma_line_count;
use crate::text::line_end_index;
use crate::text::line_start;
use crate::text::prev_boundary;
use crate::text::str_is_line_ending;
use crate::text::Rope;
use crate::textobject_menu::Info;
use crate::theme::entries_of;
use crate::theme::exact;
use crate::theme::scope_from;
use crate::theme::Theme;
use crate::transaction::Operation;
use crate::unicode::graphemes;
use crate::unicode::graphemes_of;
use vstd::prelude::*;
use vstd::string::*;
use vstd::utf8::*;

verus! {

/// How many directories the stack of directories holds.
pub const DIR_STACK_CAP: usize = 10;

/// The milliseconds of thirty years, for timers that are not to fire.
pub const FAR_FUTURE: u64 = 946080000000;

/// What is done with a document that is opened.
#[derive(Debug, Copy, Clone, PartialEq, Eq, Structural)]
pub enum Action {
    Load,
    Replace,
    HorizontalSplit,
    VerticalSplit,
}

impl Action {
    /// Whether the view is aligned to the cursor afterwards; `view_doc` is the document that the
    /// view shows.
    pub fn align_view(&self, view_doc: AppId, new_doc: AppId) -> (r: bool)
        ensures
            r == !(*self == Action::Load && view_doc != new_doc),
    {
        match self {
            Action::Load => view_doc == new_doc,
            _ => true,
        }
    }
}

/// Why a document was not closed.
#[derive(Debug)]
pub enum CloseError {
    DoesNotExist,
    /// It was changed; with its name.
    BufferModified(String),
    /// It could not be saved.
    SaveError(String),
}

/// Where the cursor's line is put in the view.
#[derive(Debug, Copy, Clone, PartialEq, Eq, Structural)]
pub enum Align {
    Top,
    Center,
    Bottom,
}

/// How many rows above the cursor the view starts, for its height.
pub open spec fn rows_above(height: u16, align: Align) -> int {
    match align {
        Align::Top => 0,
        Align::Center => monus(height as int, 1) / 2,
        Align::Bottom => monus(height as int, 1),
    }
}

/// The row, relative to the cursor, at which the view is to start.
pub fn align_view(height: u16, align: Align) -> (r: isize)
    ensures
        r == -rows_above(height, align),
{
    let last_line_height: u16 = height.saturating_sub(1);
    let relative: u16 = match align {
        Align::Center => last_line_height / 2,
        Align::Top => 0,
        Align::Bottom => last_line_height,
    };
    -(relative as isize)
}

/// What the configuration is asked to do.
#[derive(Debug)]
pub enum ConfigEvent {
    /// Read it again.
    Refresh,
    /// Use another one.
    Update(Box<Config>),
    ThemeChanged,
}

/// What the editor waits for.
#[derive(Debug)]
pub enum EditorEvent<M> {
    ConfigEvent(ConfigEvent),
    /// A message of a language server.
    LanguageServerMessage((u64, M)),
    IdleTimer,
    Redraw,
}

/// What ended the waiting.
#[derive(Debug)]
pub enum Wake<M> {
    Config(ConfigEvent),
    Message((u64, M)),
    /// Something asked for a redraw.
    RedrawRequested,
    RedrawTimer,
    IdleTimer,
}

/// The state of the editor. `D` is a document, `T` the views of one, `C` a component of the user
/// interface. Points in time are in milliseconds.
pub struct EditorModel<D, T, C> {
    /// The tabs, each with a document.
    pub tabs: Vec<DocView<D, T>>,
    pub active_tab: usize,
    /// The theme that was set before another one was tried out.
    pub last_theme: Option<Theme>,
    pub theme: Theme,
    pub status_msg: Option<(String, Severity)>,
    /// Hints on the keys that can follow.
    pub autoinfo: Option<Info>,
    pub config: Config,
    pub idle_timer: u64,
    pub redraw_timer: u64,
    /// The motion that can be repeated.
    pub last_motion: Option<u64>,
    pub last_cwd: Option<String>,
    /// The directories to go back to.
    pub dir_stack: Vec<String>,
    pub exit_code: i32,
    pub should_exit: bool,
    pub needs_redraw: bool,
    pub layer_state: LayerState<C>,
    pub app_state: EditorApps,
    /// The area between the bar of tabs and the command line.
    pub main_area: Rect,
}

/// The state of the editor.
pub type Editor<D, T, C> = EditorModel<D, T, C>;

/// What is left to do for a view that was closed.
#[derive(Debug, Copy, Clone, PartialEq, Eq, Structural)]
pub enum CloseStep {
    /// There is no tab.
    NoTab,
    /// The tab has no view any more.
    TabEmpty,
    /// Bring the other views up to date.
    Refresh,
}

/// How the views of the active tab are brought up to date.
#[derive(Debug, Copy, Clone, PartialEq, Eq, Structural)]
pub struct RefreshPlan {
    /// Drop all inlay hints.
    pub reset_inlay_hints: bool,
    /// How many lines to keep in view around the cursor.
    pub scrolloff: usize,
}

/// What is done when a view jumps to a place in its list of jumps.
#[derive(Debug, Copy, Clone, PartialEq, Eq, Structural)]
pub struct JumpPlan {
    /// The view that gets the selection of the place.
    pub select: ViewId,
    /// Carry the selection over the changes of the document that the view has not seen.
    pub map_selection: bool,
    /// The view whose cursor is brought to the middle.
    pub center: ViewId,
    /// How many lines to keep in view around the cursor.
    pub scrolloff: usize,
}

/// What a theme must have to be used.
pub open spec fn usable(theme: Theme) -> bool {
    exact(entries_of(theme), "ui.selection"@) is Some
}

/// The text and severity of a status.
pub open spec fn status_view(s: Option<(String, Severity)>) -> Option<(Seq<char>, Severity)> {
    match s {
        Some((text, severity)) => Some((text@, severity)),
        None => None,
    }
}

impl<D, T, C> EditorModel<D, T, C> {
    /// The active tab exists, if there is any.
    pub open spec fn wf(self) -> bool {
        self.active_tab < self.tabs@.len() || self.tabs@.len() == 0
    }

    /// All but the tabs is the same.
    pub open spec fn same_but_tabs(self, other: Self) -> bool {
        &&& self.last_theme == other.last_theme
        &&& self.theme == other.theme
        &&& self.status_msg == other.status_msg
        &&& self.autoinfo == other.autoinfo
        &&& self.config == other.config
        &&& self.idle_timer == other.idle_timer
        &&& self.redraw_timer == other.redraw_timer
        &&& self.last_motion == other.last_motion
        &&& self.last_cwd == other.last_cwd
        &&& self.dir_stack == other.dir_stack
        &&& self.exit_code == other.exit_code
        &&& self.should_exit == other.should_exit
        &&& self.needs_redraw == other.needs_redraw
        &&& self.layer_state == other.layer_state
        &&& self.app_state == other.app_state
        &&& self.main_area == other.main_area
    }

    /// The editor at the time `now`, without any tab.
    pub fn new(area: Rect, theme: Theme, config: Config, now: u64) -> (r: Self)
        requires
            now + config.idle_timeout <= u64::MAX,
            now + FAR_FUTURE <= u64::MAX,
        ensures
            r.wf(),
            r.tabs@ == Seq::<DocView<D, T>>::empty(),
            r.active_tab == 0,
            r.last_theme is None,
            r.theme == theme,
            r.status_msg is None,
            r.autoinfo is None,
            r.config == config,
            r.idle_timer == now + config.idle_timeout,
            r.redraw_timer == now + FAR_FUTURE,
            r.last_motion is None,
            r.last_cwd is None,
            r.dir_stack@ == Seq::<String>::empty(),
            r.exit_code == 0,
            !r.should_exit,
            !r.needs_redraw,
            r.layer_state.layers@ == Seq::<Layer<C>>::empty(),
            r.layer_state.last_picker is None,
            !r.layer_state.full_redraw,
            r.layer_state.area == area,
            r.layer_state.pending_keys@ == Seq::<KeyEvent>::empty(),
            r.app_state.apps@ == Seq::<AppEntry>::empty(),
            r.app_state.active_app == 0,
            r.app_state.doc_views@ == Seq::<AppId>::empty(),
            r.main_area == (Rect { x: 0, y: 0, width: 0, height: 0 }),
    {
        let idle_timer: u64 = now + config.idle_timeout;
        EditorModel {
            tabs: Vec::new(),
            active_tab: 0,
            last_theme: None,
            theme,
            status_msg: None,
            autoinfo: None,
            config,
            idle_timer,
            redraw_timer: now + FAR_FUTURE,
            last_motion: None,
            last_cwd: None,
            dir_stack: Vec::with_capacity(DIR_STACK_CAP),
            exit_code: 0,
            should_exit: false,
            needs_redraw: false,
            layer_state: LayerState::new(area),
            app_state: EditorApps::new(),
            main_area: Rect { x: 0, y: 0, width: 0, height: 0 },
        }
    }

    pub fn layer_state(&self) -> (r: &LayerState<C>)
        ensures
            *r == self.layer_state,
    {
        &self.layer_state
    }

    pub fn layer_state_mut(&mut self) -> (r: &mut LayerState<C>)
        ensures
            *r == old(self).layer_state,
            *final(self) == (EditorModel { layer_state: *final(r), ..*old(self) }),
    {
        &mut self.layer_state
    }

    pub fn app_state(&self) -> (r: &EditorApps)
        ensures
            *r == self.app_state,
    {
        &self.app_state
    }

    pub fn app_state_mut(&mut self) -> (r: &mut EditorApps)
        ensures
            *r == old(self).app_state,
            *final(self) == (EditorModel { app_state: *final(r), ..*old(self) }),
    {
        &mut self.app_state
    }

    /// Whether floating windows have a border.
    pub fn popup_border(&self) -> (r: bool)
        ensures
            r == (self.config.popup_border == PopupBorderConfig::All || self.config.popup_border
                == PopupBorderConfig::Popup),
    {
        self.config.popup_border == PopupBorderConfig::All || self.config.popup_border
            == PopupBorderConfig::Popup
    }

    /// Whether menus have a border.
    pub fn menu_border(&self) -> (r: bool)
        ensures
            r == (self.config.popup_border == PopupBorderConfig::All || self.config.popup_border
                == PopupBorderConfig::Menu),
    {
        self.config.popup_border == PopupBorderConfig::All || self.config.popup_border
            == PopupBorderConfig::Menu
    }

    /// Remembers a motion that was applied.
    pub fn apply_motion(&mut self, motion: u64)
        ensures
            *final(self) == (EditorModel { last_motion: Some(motion), ..*old(self) }),
    {
        self.last_motion = Some(motion);
    }

    /// The motion that is to be applied again, and how often. It stays the one that can be repeated.
    pub fn repeat_last_motion(&self, count: usize) -> (r: Option<(u64, usize)>)
        ensures
            r == match self.last_motion {
                Some(m) => Some((m, count)),
                None => None,
            },
    {
        match self.last_motion {
            Some(m) => Some((m, count)),
            None => None,
        }
    }

    /// The mode of the active tab; without any tab the normal one.
    pub fn mode(&self) -> (r: Mode)
        requires
            self.wf(),
        ensures
            r == if self.tabs@.len() == 0 {
                Mode::Normal
            } else {
                self.tabs@[self.active_tab as int].mode
            },
    {
        if self.tabs.len() == 0 {
            return Mode::Normal;
        }
        self.tabs[self.active_tab].mode()
    }

    /// Adds a tab and shows it; language servers are then launched for its document.
    pub fn add_tab(&mut self, tab: DocView<D, T>) -> (r: usize)
        ensures
            final(self).wf(),
            final(self).tabs@ == old(self).tabs@.push(tab),
            final(self).active_tab == old(self).tabs@.len(),
            r == old(self).tabs@.len(),
            final(self).same_but_tabs(*old(self)),
    {
        self.tabs.push(tab);
        let index: usize = self.tabs.len() - 1;
        self.active_tab = index;
        index
    }

    /// Closes a tab; tells whether none is left.
    pub fn close_tab(&mut self, index: usize) -> (r: bool)
        requires
            old(self).wf(),
        ensures
            final(self).wf(),
            final(self).same_but_tabs(*old(self)),
            r == (final(self).tabs@.len() == 0),
            if index >= old(self).tabs@.len() {
                final(self).tabs == old(self).tabs && final(self).active_tab == old(
                    self).active_tab
            } else {
                let rest = old(self).tabs@.remove(index as int);
                &&& final(self).tabs@ == rest
                &&& final(self).active_tab == if rest.len() == 0 {
                    old(self).active_tab as int
                } else {
                    active_after_close(
                        old(self).active_tab as int,
                        index as int,
                        rest.len() as int,
                    )
                }
            },
    {
        if index >= self.tabs.len() {
            return self.tabs.len() == 0;
        }
        let _closed = self.tabs.remove(index);
        if self.tabs.len() == 0 {
            return true;
        }
        if self.active_tab >= self.tabs.len() {
            self.active_tab = self.tabs.len() - 1;
        } else if self.active_tab > index {
            self.active_tab = self.active_tab - 1;
        }
        false
    }

    /// Shows the next tab; behind the last one comes the first.
    pub fn next_tab(&mut self)
        requires
            old(self).wf(),
        ensures
            final(self).wf(),
            *final(self) == (EditorModel { active_tab: final(self).active_tab, ..*old(self) }),
            old(self).tabs@.len() == 0 ==> final(self).active_tab == old(self).active_tab,
            old(self).tabs@.len() > 0 ==> final(self).active_tab == next_place(
                old(self).active_tab as int,
                old(self).tabs@.len() as int,
            ),
    {
        if self.tabs.len() > 0 {
            self.active_tab = (self.active_tab + 1) % self.tabs.len();
        }
    }

    /// Shows the tab before; before the first one comes the last.
    pub fn prev_tab(&mut self)
        requires
            old(self).wf(),
        ensures
            final(self).wf(),
            *final(self) == (EditorModel { active_tab: final(self).active_tab, ..*old(self) }),
            old(self).tabs@.len() == 0 ==> final(self).active_tab == old(self).active_tab,
            old(self).tabs@.len() > 0 ==> final(self).active_tab == prev_place(
                old(self).active_tab as int,
                old(self).tabs@.len() as int,
            ),
    {
        if self.tabs.len() > 0 {
            self.active_tab = if self.active_tab == 0 {
                self.tabs.len() - 1
            } else {
                self.active_tab - 1
            };
        }
    }

    /// Shows a tab, if it exists.
    pub fn activate_tab(&mut self, index: usize)
        requires
            old(self).wf(),
        ensures
            final(self).wf(),
            *final(self) == (EditorModel {
                active_tab: if index < old(self).tabs@.len() {
                    index
                } else {
                    old(self).active_tab
                },
                ..*old(self)
            }),
    {
        if index < self.tabs.len() {
            self.active_tab = index;
        }
    }

    pub fn tab_count(&self) -> (r: usize)
        ensures
            r == self.tabs@.len(),
    {
        self.tabs.len()
    }

    pub fn active_index(&self) -> (r: usize)
        ensures
            r == self.active_tab,
    {
        self.active_tab
    }

    pub fn config(&self) -> (r: &Config)
        ensures
            *r == self.config,
    {
        &self.config
    }

    /// Takes note that the configuration has changed: the idle timer starts anew. Gives how the
    /// views are brought up to date.
    pub fn refresh_config(&mut self, now: u64) -> (r: Option<RefreshPlan>)
        requires
            now + old(self).config.idle_timeout <= u64::MAX,
        ensures
            *final(self) == (EditorModel {
                idle_timer: (now + old(self).config.idle_timeout) as u64,
                ..*old(self)
            }),
            r == old(self).refresh_plan(),
    {
        self.reset_idle_timer(now);
        self.refresh()
    }

    /// How the views of the active tab are brought up to date.
    pub open spec fn refresh_plan(self) -> Option<RefreshPlan> {
        if self.tabs@.len() == 0 {
            None
        } else {
            Some(
                RefreshPlan {
                    reset_inlay_hints: !self.config.lsp.display_inlay_hints,
                    scrolloff: self.config.scrolloff,
                },
            )
        }
    }

    /// Decides how the views of the active tab are brought up to date.
    pub fn refresh(&self) -> (r: Option<RefreshPlan>)
        ensures
            r == self.refresh_plan(),
    {
        if self.tabs.len() == 0 {
            return None;
        }
        Some(
            RefreshPlan {
                reset_inlay_hints: !self.config.lsp.display_inlay_hints,
                scrolloff: self.config.scrolloff,
            },
        )
    }

    /// Decides what follows when the views of the active tab were given another area; `resized`
    /// tells whether that changed them.
    pub fn resize(&self, resized: bool) -> (r: Option<RefreshPlan>)
        ensures
            r == if resized {
                self.refresh_plan()
            } else {
                None
            },
    {
        if self.tabs.len() == 0 || !resized {
            return None;
        }
        self.refresh()
    }

    /// What is done when a view jumps, if there is a place to jump to.
    pub open spec fn jump_plan(
        self,
        view: ViewId,
        found: bool,
        outdated: bool,
        focus: ViewId,
    ) -> Option<JumpPlan> {
        if found {
            Some(
                JumpPlan {
                    select: view,
                    map_selection: outdated,
                    center: focus,
                    scrolloff: self.config.scrolloff,
                },
            )
        } else {
            None
        }
    }

    fn jump_to(&self, view: ViewId, outdated: bool, focus: ViewId) -> (r: JumpPlan)
        ensures
            Some(r) == self.jump_plan(view, true, outdated, focus),
    {
        JumpPlan {
            select: view,
            map_selection: outdated,
            center: focus,
            scrolloff: self.config.scrolloff,
        }
    }

    /// Decides what is done when a view jumps forward. `found` tells whether there is a place to
    /// jump to, `outdated` whether the document has changes that the view has not seen.
    pub fn jump_forward(&self, view: ViewId, found: bool, outdated: bool, focus: ViewId) -> (r:
        Option<JumpPlan>)
        ensures
            r == self.jump_plan(view, found, outdated, focus),
    {
        if found {
            Some(self.jump_to(view, outdated, focus))
        } else {
            None
        }
    }

    /// Decides what is done when a view jumps backward, as `jump_forward` does.
    pub fn jump_backward(&self, view: ViewId, found: bool, outdated: bool, focus: ViewId) -> (r:
        Option<JumpPlan>)
        ensures
            r == self.jump_plan(view, found, outdated, focus),
    {
        if found {
            Some(self.jump_to(view, outdated, focus))
        } else {
            None
        }
    }

    /// Lets the idle timer not fire.
    pub fn clear_idle_timer(&mut self, now: u64)
        requires
            now + FAR_FUTURE <= u64::MAX,
        ensures
            *final(self) == (EditorModel { idle_timer: (now + FAR_FUTURE) as u64, ..*old(self) }),
    {
        self.idle_timer = now + FAR_FUTURE;
    }

    /// Starts the idle timer anew.
    pub fn reset_idle_timer(&mut self, now: u64)
        requires
            now + old(self).config.idle_timeout <= u64::MAX,
        ensures
            *final(self) == (EditorModel {
                idle_timer: (now + old(self).config.idle_timeout) as u64,
                ..*old(self)
            }),
    {
        self.idle_timer = now + self.config.idle_timeout;
    }

    pub fn clear_status(&mut self)
        ensures
            *final(self) == (EditorModel { status_msg: None, ..*old(self) }),
    {
        self.status_msg = None;
    }

    pub fn set_status(&mut self, status: String)
        ensures
            *final(self) == (EditorModel {
                status_msg: Some((status, Severity::Info)),
                ..*old(self)
            }),
    {
        self.status_msg = Some((status, Severity::Info));
    }

    pub fn set_error(&mut self, error: String)
        ensures
            *final(self) == (EditorModel {
                status_msg: Some((error, Severity::Error)),
                ..*old(self)
            }),
    {
        self.status_msg = Some((error, Severity::Error));
    }

    pub fn set_warning(&mut self, warning: String)
        ensures
            *final(self) == (EditorModel {
                status_msg: Some((warning, Severity::Warning)),
                ..*old(self)
            }),
    {
        self.status_msg = Some((warning, Severity::Warning));
    }

    pub fn get_status(&self) -> (r: Option<(&str, Severity)>)
        ensures
            match r {
                Some((text, severity)) => status_view(self.status_msg) == Some((text@, severity)),
                None => self.status_msg is None,
            },
    {
        match &self.status_msg {
            Some((text, severity)) => Some((text.as_str(), *severity)),
            None => None,
        }
    }

    /// Whether the status is an error.
    pub fn is_err(&self) -> (r: bool)
        ensures
            r == (self.status_msg matches Some(s) && s.1 == Severity::Error),
    {
        match &self.status_msg {
            Some((_, severity)) => *severity == Severity::Error,
            None => false,
        }
    }

    /// The editor while a theme is tried out: the theme that was set is remembered.
    pub open spec fn previewing(self, theme: Theme) -> Self {
        EditorModel {
            last_theme: match self.last_theme {
                Some(t) => Some(t),
                None => Some(self.theme),
            },
            theme,
            ..self
        }
    }

    /// The editor while the last of the first `n` themes is tried out, one after the other.
    pub open spec fn previewing_all(self, themes: Seq<Theme>, n: int) -> Self
        decreases n,
    {
        if n <= 0 {
            self
        } else {
            self.previewing_all(themes, n - 1).previewing(themes[n - 1])
        }
    }

    /// The editor with the theme that was set before others were tried out.
    pub open spec fn without_preview(self) -> Self {
        match self.last_theme {
            Some(t) => EditorModel { last_theme: None, theme: t, ..self },
            None => self,
        }
    }

    /// Goes back to the theme that was set before others were tried out. Tells whether the theme
    /// has changed.
    pub fn unset_theme_preview(&mut self) -> (r: bool)
        ensures
            match old(self).last_theme {
                Some(t) => r == usable(t) && if usable(t) {
                    *final(self) == old(self).without_preview()
                } else {
                    final(self).rejected(EditorModel { last_theme: None, ..*old(self) })
                },
                None => !r && *final(self) == *old(self),
            },
    {
        match self.last_theme.take() {
            Some(t) => self.set_theme(t),
            None => false,
        }
    }

    /// This is `before` with the error that a theme cannot be used.
    pub open spec fn rejected(self, before: Self) -> bool {
        &&& status_view(self.status_msg) == Some(
            ("Invalid theme: `ui.selection` required"@, Severity::Error),
        )
        &&& self == EditorModel { status_msg: self.status_msg, ..before }
    }

    /// Tries a theme out. The first time, the theme that was set is remembered. Tells whether the
    /// theme has changed.
    pub fn set_theme_preview(&mut self, theme: Theme) -> (r: bool)
        ensures
            r == usable(theme),
            if usable(theme) {
                *final(self) == old(self).previewing(theme)
            } else {
                final(self).rejected(*old(self))
            },
    {
        if theme.find_highlight_exact("ui.selection").is_none() {
            self.reject_theme();
            return false;
        }
        let mut last: Theme = theme;
        std::mem::swap(&mut self.theme, &mut last);
        if self.last_theme.is_none() {
            self.last_theme = Some(last);
        }
        true
    }

    /// Sets a theme for good. Tells whether the theme has changed.
    pub fn set_theme(&mut self, theme: Theme) -> (r: bool)
        ensures
            r == usable(theme),
            if usable(theme) {
                *final(self) == (EditorModel { last_theme: None, theme, ..*old(self) })
            } else {
                final(self).rejected(*old(self))
            },
    {
        if theme.find_highlight_exact("ui.selection").is_none() {
            self.reject_theme();
            return false;
        }
        self.last_theme = None;
        self.theme = theme;
        true
    }

    fn reject_theme(&mut self)
        ensures
            final(self).rejected(*old(self)),
    {
        self.set_error("Invalid theme: `ui.selection` required".to_owned());
    }

    /// Decides what is left to do after a view was taken out of the active tab, of which
    /// `views_left` are left. If none is, the tab has to be closed.
    pub fn close(&self, views_left: usize) -> (r: CloseStep)
        ensures
            r == if self.tabs@.len() == 0 {
                CloseStep::NoTab
            } else if views_left == 0 {
                CloseStep::TabEmpty
            } else {
                CloseStep::Refresh
            },
    {
        if self.tabs.len() == 0 {
            CloseStep::NoTab
        } else if views_left == 0 {
            CloseStep::TabEmpty
        } else {
            CloseStep::Refresh
        }
    }

    /// As `close`, and closes the tab if it has no view any more.
    pub fn close_view(&mut self, views_left: usize) -> (r: CloseStep)
        requires
            old(self).wf(),
        ensures
            final(self).wf(),
            final(self).same_but_tabs(*old(self)),
            r == if old(self).tabs@.len() == 0 {
                CloseStep::NoTab
            } else if views_left == 0 {
                CloseStep::TabEmpty
            } else {
                CloseStep::Refresh
            },
            if r is TabEmpty {
                let rest = old(self).tabs@.remove(old(self).active_tab as int);
                &&& final(self).tabs@ == rest
                &&& final(self).active_tab == if 0 < rest.len() <= old(self).active_tab {
                    rest.len() - 1
                } else {
                    old(self).active_tab as int
                }
            } else {
                final(self).tabs == old(self).tabs && final(self).active_tab == old(
                    self).active_tab
            },
    {
        let step = self.close(views_left);
        match step {
            CloseStep::TabEmpty => {
                let index: usize = self.active_tab;
                let _last = self.close_tab(index);
            },
            _ => {},
        }
        step
    }

    /// Whether another view gets the focus. If so, the mode is the normal one then; also tells
    /// whether the mode has changed.
    pub fn focus(&mut self, current: ViewId, view_id: ViewId) -> (r: Option<bool>)
        requires
            old(self).wf(),
        ensures
            final(self).wf(),
            final(self).same_but_tabs(*old(self)),
            final(self).active_tab == old(self).active_tab,
            if old(self).tabs@.len() == 0 || current == view_id {
                r is None && final(self).tabs@ == old(self).tabs@
            } else {
                r == Some(old(self).tabs@[old(self).active_tab as int].mode != Mode::Normal)
                    && final(self).tabs@ == old(self).tabs@.update(
                    old(self).active_tab as int,
                    DocView { mode: Mode::Normal, ..old(self).tabs@[old(self).active_tab as int] },
                )
            },
    {
        if self.tabs.len() == 0 {
            return None;
        }
        if current == view_id {
            return None;
        }
        Some(self.enter_normal_mode())
    }

    /// Switches the active tab to the normal mode. Tells whether it was in another one; then the
    /// indentation and the cursor are to be restored.
    pub fn enter_normal_mode(&mut self) -> (r: bool)
        requires
            old(self).wf(),
            old(self).tabs@.len() > 0,
        ensures
            final(self).wf(),
            final(self).same_but_tabs(*old(self)),
            final(self).active_tab == old(self).active_tab,
            r == (old(self).tabs@[old(self).active_tab as int].mode != Mode::Normal),
            final(self).tabs@ == old(self).tabs@.update(
                old(self).active_tab as int,
                DocView { mode: Mode::Normal, ..old(self).tabs@[old(self).active_tab as int] },
            ),
    {
        if self.tabs[self.active_tab].mode() == Mode::Normal {
            assert(self.tabs@ =~= old(self).tabs@.update(
                old(self).active_tab as int,
                DocView { mode: Mode::Normal, ..old(self).tabs@[old(self).active_tab as int] },
            ));
            return false;
        }
        let index: usize = self.active_tab;
        let tab = &mut self.tabs[index];
        tab.set_mode(Mode::Normal);
        true
    }

    pub fn should_close(&self) -> (r: bool)
        ensures
            r == self.should_exit,
    {
        self.should_exit
    }

    /// The cursor on the screen, for the position of the cursor within the text of the active view
    /// and the area of that text.
    pub fn cursor(&self, pos: Option<Position>, inner: Rect) -> (r: (Option<Position>, CursorKind))
        requires
            self.wf(),
            pos matches Some(p) ==> p.row + inner.y <= usize::MAX && p.col + inner.x <= usize::MAX,
        ensures
            r == match pos {
                Some(p) => if self.tabs@.len() == 0 {
                    (None::<Position>, CursorKind::Block)
                } else {
                    (
                        Some(
                            Position {
                                row: (p.row + inner.y) as usize,
                                col: (p.col + inner.x) as usize,
                            },
                        ),
                        self.config.cursor_shape.shape(self.tabs@[self.active_tab as int].mode),
                    )
                },
                None => (None::<Position>, CursorKind::Block),
            },
    {
        if self.tabs.len() == 0 {
            return (None, CursorKind::default());
        }
        match pos {
            Some(p) => {
                let moved = Position {
                    row: p.row + inner.y as usize,
                    col: p.col + inner.x as usize,
                };
                let mode = self.tabs[self.active_tab].mode();
                (Some(moved), self.config.cursor_shape.from_mode(mode))
            },
            None => (None, CursorKind::default()),
        }
    }

    /// Takes what ended the waiting. A request to redraw does not end it at once: the redraw timer
    /// is set so that requests that come soon after one another lead to one redraw.
    pub fn wait_event<M>(&mut self, wake: Wake<M>, now: u64) -> (r: Option<EditorEvent<M>>)
        requires
            now + FAR_FUTURE <= u64::MAX,
        ensures
            match wake {
                Wake::Config(e) => r == Some(EditorEvent::<M>::ConfigEvent(e)) && *final(self)
                    == *old(self),
                Wake::Message(m) => r == Some(EditorEvent::LanguageServerMessage(m)) && *final(
                    self) == *old(self),
                Wake::RedrawRequested => r is None && *final(self) == (EditorModel {
                    needs_redraw: true,
                    redraw_timer: redraw_at(
                        now,
                        old(self).needs_redraw,
                        old(self).idle_timer,
                        old(self).redraw_timer,
                    ),
                    ..*old(self)
                }),
                Wake::RedrawTimer => r == Some(EditorEvent::<M>::Redraw) && *final(self) == (
                EditorModel { redraw_timer: (now + FAR_FUTURE) as u64, ..*old(self) }),
                Wake::IdleTimer => r == Some(EditorEvent::<M>::IdleTimer) && *final(self) == *old(
                    self),
            },
    {
        match wake {
            Wake::Config(e) => Some(EditorEvent::ConfigEvent(e)),
            Wake::Message(m) => Some(EditorEvent::LanguageServerMessage(m)),
            Wake::RedrawRequested => {
                if !self.needs_redraw {
                    self.needs_redraw = true;
                    let timeout: u64 = now + 33;
                    if timeout < self.idle_timer && timeout < self.redraw_timer {
                        self.redraw_timer = timeout;
                    }
                }
                None
            },
            Wake::RedrawTimer => {
                self.redraw_timer = now + FAR_FUTURE;
                Some(EditorEvent::Redraw)
            },
            Wake::IdleTimer => Some(EditorEvent::IdleTimer),
        }
    }

    /// Remembers the directory that was the working directory before another one became it.
    pub fn set_cwd(&mut self, previous: Option<String>)
        ensures
            *final(self) == (EditorModel { last_cwd: previous, ..*old(self) }),
    {
        self.last_cwd = previous;
    }

    pub fn get_last_cwd(&self) -> (r: Option<&str>)
        ensures
            (match r {
                Some(s) => Some(s@),
                None => None,
            }) == text_opt(self.last_cwd),
    {
        match &self.last_cwd {
            Some(s) => Some(s.as_str()),
            None => None,
        }
    }
}

/// Giving up the themes that were tried out, however many, leaves the theme that was set.
pub proof fn law_preview_is_undone<D, T, C>(
    editor: EditorModel<D, T, C>,
    themes: Seq<Theme>,
    n: int,
)
    requires
        editor.last_theme is None,
        0 <= n <= themes.len(),
    ensures
        editor.previewing_all(themes, n).without_preview() == editor,
    decreases n,
{
    if n > 0 {
        law_preview_is_undone(editor, themes, n - 1);
    }
}

/// The range without the character behind the cursor, which appending had put there.
pub open spec fn restored(range: Range, text: Seq<char>) -> Range {
    Range {
        anchor: range.start(),
        head: if range.head > range.anchor {
            prev_boundary(text, range.end() as int) as usize
        } else {
            range.end()
        },
    }
}

/// The ranges of a selection after appending: each loses the character behind its cursor. They are
/// given before those that overlap are merged.
pub fn restore_cursor(selection: &Selection, text: &Rope) -> (r: Vec<Range>)
    ensures
        r@ == selection.ranges@.map_values(|g: Range| restored(g, text@)),
{
    let mut out: Vec<Range> = Vec::new();
    let mut i: usize = 0;
    while i < selection.ranges.len()
        invariant
            i <= selection.ranges@.len(),
            out@ == selection.ranges@.take(i as int).map_values(|g: Range| restored(g, text@)),
        decreases selection.ranges@.len() - i,
    {
        let range = selection.ranges[i];
        let mut head: usize = range.to();
        if range.head > range.anchor {
            head = text.prev_grapheme_boundary(head);
        }
        out.push(Range { anchor: range.from(), head });
        assert(out@ =~= selection.ranges@.take(i + 1).map_values(|g: Range| restored(g, text@)));
        i = i + 1;
    }
    assert(selection.ranges@.take(i as int) =~= selection.ranges@);
    out
}

/// Whether clusters are a line break and then white space.
pub open spec fn blank_line(clusters: Seq<Seq<char>>) -> bool {
    &&& clusters.len() > 0
    &&& is_line_ending(clusters[0])
    &&& forall|i: int| 1 <= i < clusters.len() ==> all_white(#[trigger] clusters[i])
}

/// Whether the grapheme clusters of a text are a line break and then white space.
pub fn is_blank_line(clusters: &Vec<String>) -> (r: bool)
    ensures
        r == blank_line(texts(clusters@)),
{
    if clusters.len() == 0 || !str_is_line_ending(clusters[0].as_str()) {
        return false;
    }
    let mut i: usize = 1;
    while i < clusters.len()
        invariant
            1 <= i <= clusters@.len(),
            forall|k: int| 1 <= k < i ==> all_white(#[trigger] texts(clusters@)[k]),
        decreases clusters@.len() - i,
    {
        if !is_blank(clusters[i].as_str()) {
            assert(!all_white(texts(clusters@)[i as int]));
            return false;
        }
        i = i + 1;
    }
    true
}

/// Whether the changes are the insertion of a blank line right before `pos`, with nothing behind
/// `pos` in its line.
pub open spec fn inserts_blank_line(changes: Seq<Operation>, pos: usize, line_end_pos: usize) -> bool {
    &&& changes.len() == 3
    &&& changes[0] matches Operation::Retain(moved) && changes[1] matches Operation::Insert(text)
        && changes[2] is Retain && moved + encode_utf8(text@).len() as usize == pos && blank_line(
        graphemes_of(text@),
    )
    &&& pos == line_end_pos
}

/// Whether the changes are the insertion of a blank line right before `pos`; `line_end_pos` is where
/// the line of `pos` ends.
pub fn inserted_a_new_blank_line(changes: &Vec<Operation>, pos: usize, line_end_pos: usize) -> (r: bool)
    ensures
        r == inserts_blank_line(changes@, pos, line_end_pos),
{
    if changes.len() != 3 {
        return false;
    }
    let moved: usize = match &changes[0] {
        Operation::Retain(n) => *n,
        _ => {
            return false;
        },
    };
    match &changes[2] {
        Operation::Retain(_) => {},
        _ => {
            return false;
        },
    }
    match &changes[1] {
        Operation::Insert(s) => {
            let len: usize = s.as_str().len();
            pos >= moved && pos - moved == len && pos == line_end_pos && is_blank_line(
                &graphemes(s.as_str()),
            )
        },
        _ => false,
    }
}

/// The range that is deleted when the normal mode is entered: the indentation of a blank line that
/// was just inserted, up to the cursor of the primary range.
pub fn try_restore_indent(changes: &Vec<Operation>, text: &Rope, range: Range) -> (r: Option<
    (usize, usize),
>)
    requires
        range.head <= text@.len(),
        text@.len() < usize::MAX,
    ensures
        ({
            let pos = range.cursor_at(text@);
            let line = breaks(text@, pos) as int;
            r == if inserts_blank_line(
                changes@,
                pos as usize,
                line_end_index(text@, line) as usize,
            ) {
                Some((line_start(text@, line) as usize, pos as usize))
            } else {
                None
            }
        }),
{
    let pos: usize = range.cursor(text);
    let line: usize = range.cursor_line(text);
    proof {
        lemma_breaks_bounded(text@, pos as int, text@.len() as int);
        lemma_line_count(text@);
    }
    let line_end_pos: usize = text.line_end_char_index(line);
    if inserted_a_new_blank_line(changes, pos, line_end_pos) {
        let start: usize = text.line_to_char(line);
        Some((start, pos))
    } else {
        None
    }
}

proof fn lemma_breaks_bounded(s: Seq<char>, i: int, j: int)
    requires
        i <= j,
    ensures
        breaks(s, i) <= breaks(s, j),
    decreases j - i,
{
    if i < j {
        lemma_breaks_bounded(s, i, j - 1);
    }
}

/// What is done so that a view has a selection and is up to date.
#[derive(Debug, Clone, Copy, PartialEq, Eq, Structural)]
pub struct SyncedView {
    pub view: ViewId,
    /// Bring the view up to date with the document's changes.
    pub sync: bool,
    /// Give the view its first selection.
    pub init: bool,
}

/// The view whose selection stands for a document: the focused one if it has a selection, else
/// `other`, one that has, else again the focused one. `same_doc` tells whether the focused view
/// shows the document.
pub fn get_synced_view_id(
    current: ViewId,
    has_selection: bool,
    same_doc: bool,
    other: Option<ViewId>,
) -> (r: SyncedView)
    ensures
        r == if has_selection {
            SyncedView { view: current, sync: !same_doc, init: false }
        } else {
            match other {
                Some(v) => SyncedView { view: v, sync: true, init: false },
                None => SyncedView { view: current, sync: false, init: true },
            }
        },
{
    if has_selection {
        SyncedView { view: current, sync: !same_doc, init: false }
    } else {
        match other {
            Some(v) => SyncedView { view: v, sync: true, init: false },
            None => SyncedView { view: current, sync: false, init: true },
        }
    }
}

/// A line is put at the top with no row above it, at the bottom with all others above it, and in the
/// middle with as many rows above it as below it, or one fewer.
pub proof fn law_alignment(height: u16)
    requires
        height > 0,
    ensures
        rows_above(height, Align::Top) == 0,
        rows_above(height, Align::Bottom) + 1 == height,
        0 <= (height - 1 - rows_above(height, Align::Center)) - rows_above(height, Align::Center) <= 1,
{
}

/// A jump selects in the view that was asked for, brings its selection up to date just if it is
/// outdated, and centres the view that has the focus. Without a document there is no jump.
pub proof fn law_jump<D, T, C>(
    editor: EditorModel<D, T, C>,
    view: ViewId,
    outdated: bool,
    focus: ViewId,
)
    ensures
        editor.jump_plan(view, false, outdated, focus) is None,
        editor.jump_plan(view, true, outdated, focus) matches Some(plan) && {
            &&& plan.select == view
            &&& plan.map_selection == outdated
            &&& plan.center == focus
            &&& plan.scrolloff == editor.config.scrolloff
        },
{
}

/// With tabs open, hints are taken away just if they are no longer to be shown; without any there is
/// nothing to bring up to date.
pub proof fn law_refresh<D, T, C>(editor: EditorModel<D, T, C>)
    ensures
        editor.refresh_plan() is None <==> editor.tabs@.len() == 0,
        editor.refresh_plan() matches Some(plan) ==> plan.reset_inlay_hints
            != editor.config.lsp.display_inlay_hints && plan.scrolloff == editor.config.scrolloff,
{
}

/// After appending a range begins where it began; a forward one loses the last cluster, and only that,
/// and a backward one keeps its end.
pub proof fn law_appending_is_taken_back(range: Range, text: Seq<char>)
    requires
        clustered(text),
        range.anchor <= text.len(),
        range.head <= text.len(),
    ensures
        restored(range, text).anchor <= range.anchor,
        restored(range, text).anchor <= range.head,
        restored(range, text).anchor == range.anchor || restored(range, text).anchor == range.head,
        range.head > range.anchor ==> {
            &&& restored(range, text).head < range.head
            &&& is_boundary(text, restored(range, text).head as int)
            &&& forall|b: int|
                #[trigger] is_boundary(text, b) ==> !(restored(range, text).head < b < range.head)
        },
        range.head <= range.anchor ==> restored(range, text).head == range.anchor,
{
    law_boundaries_are_the_nearest(text, range.end() as int);
}

/// What was inserted is a blank line only if it begins with a line break and the rest is white space.
pub proof fn law_blank_lines(first: Seq<char>, rest: Seq<Seq<char>>)
    ensures
        blank_line(seq![first] + rest) <==> is_line_ending(first) && (forall|i: int|
            0 <= i < rest.len() ==> all_white(#[trigger] rest[i])),
        !blank_line(Seq::empty()),
{
    let all = seq![first] + rest;
    assert(all[0] == first);
    if blank_line(all) {
        assert forall|i: int| 0 <= i < rest.len() implies all_white(#[trigger] rest[i]) by {
            assert(all[i + 1] == rest[i]);
        }
    }
    if is_line_ending(first) && (forall|i: int| 0 <= i < rest.len() ==> all_white(#[trigger] rest[i])) {
        assert forall|i: int| 1 <= i < all.len() implies all_white(#[trigger] all[i]) by {
            assert(all[i] == rest[i - 1]);
        }
    }
}

/// When a redraw that is asked for now is made: a little later, unless one is asked for already or a
/// timer ends before.
pub open spec fn redraw_at(now: u64, asked: bool, idle_timer: u64, redraw_timer: u64) -> u64 {
    if !asked && now + 33 < idle_timer && now + 33 < redraw_timer {
        (now + 33) as u64
    } else {
        redraw_timer
    }
}

/// A redraw is never put off: it is made when it would have been, or earlier, and then no more than 33
/// milliseconds from now. Asking again changes nothing.
pub proof fn law_redraw_is_not_put_off(
    now: u64,
    later: u64,
    asked: bool,
    idle_timer: u64,
    redraw_timer: u64,
)
    requires
        now + 33 <= u64::MAX,
    ensures
        redraw_at(now, asked, idle_timer, redraw_timer) <= redraw_timer,
        redraw_at(now, asked, idle_timer, redraw_timer) < redraw_timer ==> redraw_at(
            now,
            asked,
            idle_timer,
            redraw_timer,
        ) == now + 33,
        !asked ==> redraw_at(now, asked, idle_timer, redraw_timer) <= now + 33 || idle_timer <= now + 33,
        redraw_at(later, true, idle_timer, redraw_at(now, asked, idle_timer, redraw_timer)) == redraw_at(
            now,
            asked,
            idle_timer,
            redraw_timer,
        ),
{
}

/// A blank line was inserted right before the cursor just if the change keeps a beginning, puts a line
/// break and white space in, keeps the rest, and ends at the cursor with nothing behind it in the line.
pub proof fn law_insertion_of_a_blank_line(
    before: usize,
    text: String,
    after: usize,
    pos: usize,
    line_end_pos: usize,
)
    requires
        before + encode_utf8(text@).len() <= usize::MAX,
    ensures
        inserts_blank_line(
            seq![Operation::Retain(before), Operation::Insert(text), Operation::Retain(after)],
            pos,
            line_end_pos,
        ) <==> pos == line_end_pos && pos == before + encode_utf8(text@).len() && blank_line(
            graphemes_of(text@),
        ),
        !inserts_blank_line(
            seq![Operation::Retain(before), Operation::Insert(text)],
            pos,
            line_end_pos,
        ),
        !inserts_blank_line(
            seq![Operation::Retain(before), Operation::Delete(after), Operation::Retain(after)],
            pos,
            line_end_pos,
        ),
{
}

/// A theme can be used only if it says how selections look.
pub proof fn law_usable_themes(theme: Theme)
    ensures
        usable(theme) <==> exists|i: int|
            0 <= i < entries_of(theme).len() && (#[trigger] entries_of(theme)[i]).0 == "ui.selection"@,
{
    let e = entries_of(theme);
    lemma_scope_is_there(e, 0);
}

proof fn lemma_scope_is_there(e: Seq<(Seq<char>, Style)>, i: int)
    requires
        0 <= i <= e.len(),
    ensures
        scope_from(e, "ui.selection"@, i) is Some <==> exists|k: int|
            i <= k < e.len() && (#[trigger] e[k]).0 == "ui.selection"@,
    decreases e.len() - i,
{
    if i < e.len() && e[i].0 != "ui.selection"@ {
        lemma_scope_is_there(e, i + 1);
    }
}

} // verus!
