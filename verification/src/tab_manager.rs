//! The bar of tabs at the top and the command line at the bottom.
use crate::app_id::AppIds;
use crate::apps::apps_left;
use crate::apps::stale_dropped;
use crate::apps::EditorApps;
use crate::config::BufferLine;
use crate::config::Severity;
use crate::diff_view::style_or;
use crate::draw::draw_views;
use crate::draw::push_draw;
use crate::draw::DrawOp;
use crate::draw::DrawView;
use crate::editor::status_view;
use crate::editor::EditorModel;
use crate::editor_view::canonical;
use crate::editor_view::KeymapResult;
use crate::editor_view::Position;
use crate::graphics::clipped_bottom;
use crate::graphics::clipped_top;
use crate::graphics::monus;
use crate::graphics::Color;
use crate::graphics::CursorKind;
use crate::graphics::Rect;
use crate::graphics::RectExt;
use crate::graphics::Style;
use crate::graphics::UnderlineStyle;
use crate::icons::file_icon;
use crate::icons::is_icon_of;
use crate::icons::Icon;
use crate::input::canonicalize_key;
use crate::input::Event;
use crate::input::EventResult;
use crate::input::KeyEvent;
use crate::input::MouseButton;
use crate::input::MouseEventKind;
use crate::screen::all_drawn;
use crate::screen::draw;
use crate::screen::drawn;
use crate::screen::rect_of;
use crate::screen::AreaView;
use crate::screen::Cells;
use crate::strings::decimal;
use crate::strings::decimal_digits;
use crate::surface::area_of;
use crate::surface::buffer_rect;
use crate::surface::draw_text;
use crate::surface::lemma_encode_add;
use crate::surface::restyle_area;
use crate::surface::restyled;
use crate::surface::stringn_drawn;
use crate::surface::style_texts;
use crate::surface::surface_area;
use crate::surface::surface_cells;
use crate::theme::entries_of;
use crate::theme::style_of;
use crate::theme::Theme;
use crate::unicode::str_width;
use crate::unicode::width_of;
use vstd::prelude::*;
use vstd::string::*;
use vstd::utf8::*;

verus! {

/// The bar of tabs: which columns belong to which tab.
#[derive(Debug)]
pub struct TabManager {
    /// The first column of a tab, the column behind it, and its application.
    pub tab_regions: Vec<(u16, u16, usize)>,
}

/// What becomes of an event that no application used.
#[derive(Debug, Clone, Copy, PartialEq, Eq, Structural)]
pub enum TabStep {
    Done(EventResult),
    /// Look a key up in the keymap.
    Key(KeyEvent),
}

/// What is to be done with what the keymap has for a key.
#[derive(Debug, Clone, Copy, PartialEq, Eq, Structural)]
pub enum GlobalStep {
    /// Run commands.
    Run(usize),
    /// Put a menu with the keys that can follow on top of the layers.
    PushMenu,
    /// The key has no use.
    Unused,
}

/// The areas of the window.
#[derive(Debug, Clone, Copy, PartialEq, Eq, Structural)]
pub struct TabLayout {
    pub tab_bar: Option<Rect>,
    pub main_area: Rect,
    pub commandline: Rect,
}

/// What the window shows of an application.
#[derive(Debug)]
pub struct AppLabel {
    /// The name in the bar of tabs.
    pub name: String,
    /// The path whose icon the bar shows.
    pub icon_path: Option<String>,
    /// The count that was typed for its document.
    pub count: Option<usize>,
    /// The keys that wait for more.
    pub pending_keys: String,
}

/// Whether `labels` are what `label` gives for the applications of an editor, one after the other.
pub open spec fn labels_from<D, T, C, F: Fn(&EditorModel<D, T, C>, usize) -> AppLabel>(
    label: F,
    editor: EditorModel<D, T, C>,
    labels: Seq<AppLabel>,
) -> bool {
    &&& labels.len() == editor.app_state.apps@.len()
    &&& forall|i: int|
        0 <= i < labels.len() ==> call_ensures(label, (&editor, i as usize), #[trigger] labels[i])
}

/// The path whose icon is shown for an application; one without a path has that of a new document.
pub open spec fn shown_path(label: AppLabel) -> Seq<char> {
    match label.icon_path {
        Some(path) => path@,
        None => "[scratch]"@,
    }
}

/// Whether `icons` are those of applications.
pub open spec fn icons_for(labels: Seq<AppLabel>, icons: Seq<Icon>) -> bool {
    &&& icons.len() == labels.len()
    &&& forall|i: int| 0 <= i < icons.len() ==> is_icon_of(#[trigger] icons[i], shown_path(labels[i]))
}

/// The bar of tabs in the first `height` rows of a window.
pub open spec fn window_bar<D, T, C>(
    editor: EditorModel<D, T, C>,
    window: Rect,
    height: u16,
    labels: Seq<AppLabel>,
    icons: Seq<Icon>,
) -> BarView {
    BarView {
        names: labels.map_values(|l: AppLabel| l.name@),
        icons: if editor.config.icons {
            Some(icons)
        } else {
            None
        },
        active: editor.app_state.active_app as int,
        viewport: Rect::spec_new(window.x, window.y, window.width, height),
        styles: tab_styles(editor.theme),
    }
}

/// The last row of a window.
pub open spec fn last_row(window: Rect) -> Rect {
    Rect::spec_new(
        window.x,
        (window.y + monus(window.height as int, 1)) as u16,
        window.width,
        1,
    )
}

/// The cells after the window was drawn, and the columns of the tabs: the background comes first,
/// the bar of tabs over it if it is shown, and the command line last. While no bar is shown, the
/// columns stay those of the last one.
pub open spec fn window_drawn<D, T, C>(
    area: AreaView,
    cells: Cells,
    regions: Seq<(u16, u16, usize)>,
    window: Rect,
    editor: EditorModel<D, T, C>,
    labels: Seq<AppLabel>,
    icons: Seq<Icon>,
) -> (Cells, Seq<(u16, u16, usize)>) {
    let n = editor.app_state.apps@.len() as int;
    let active = labels[editor.app_state.active_app as int];
    let height = bar_height(editor.config.bufferline, n);
    let background = restyled(
        rect_of(area),
        cells,
        window,
        style_texts(style_of(entries_of(editor.theme), "ui.background"@)),
    );
    let bar = bar_drawn(area, background, window_bar(editor, window, height, labels, icons), n);
    let line = commandline_draws(
        last_row(window),
        status_view(editor.status_msg),
        active.count,
        active.pending_keys@,
        editor.theme,
    );
    if height > 0 {
        (all_drawn(area, bar.1, line, line.len() as int), bar.2)
    } else {
        (all_drawn(area, background, line, line.len() as int), regions)
    }
}

/// The first region from `i` on that holds a column.
pub open spec fn region_at(regions: Seq<(u16, u16, usize)>, column: u16, i: int) -> Option<usize>
    decreases regions.len() - i,
{
    if i < 0 || i >= regions.len() {
        None
    } else if regions[i].0 <= column < regions[i].1 {
        Some(regions[i].2)
    } else {
        region_at(regions, column, i + 1)
    }
}

/// The tab that an event asks for: a click with the left button in the first two rows.
pub open spec fn clicked_tab(regions: Seq<(u16, u16, usize)>, event: Event) -> Option<usize> {
    match event {
        Event::Mouse(mouse) => if mouse.kind == MouseEventKind::Down(MouseButton::Left) && mouse.row
            < 2 {
            region_at(regions, mouse.column, 0)
        } else {
            None
        },
        _ => None,
    }
}

/// The styles of the active tab and of the others.
pub open spec fn tab_styles(theme: Theme) -> (Style, Style) {
    (style_or(theme, "ui.bufferline.active"@, "ui.statusline.active"@), style_or(
        theme,
        "ui.bufferline"@,
        "ui.statusline.inactive"@,
    ))
}

fn get_or(theme: &Theme, scope: &str, other: &str) -> (r: Style)
    ensures
        r == style_or(*theme, scope@, other@),
{
    match theme.try_get(scope) {
        Some(s) => s,
        None => theme.get(other),
    }
}

/// The style of one tab: without underline if it is active, without background else.
pub open spec fn tab_style(styles: (Style, Style), active: bool) -> Style {
    if active {
        Style {
            underline_style: Some(UnderlineStyle::Reset),
            underline_color: Some(Color::Reset),
            ..styles.0
        }
    } else {
        Style { bg: Some(Color::Reset), ..styles.1 }
    }
}

/// The column behind a tab, and the cells, when it is drawn from the column `x` on: its icon if it
/// has one, and its name.
pub open spec fn tab_drawn(
    area: AreaView,
    cells: Cells,
    viewport: Rect,
    x: u16,
    name: Seq<char>,
    icon: Option<Icon>,
    style: Style,
) -> (u16, Cells) {
    let y = (viewport.y + 1) as u16;
    let rest = monus(area.2 as int, monus(x as int, viewport.x as int)) as usize;
    match icon {
        Some(i) => {
            let after = stringn_drawn(
                area,
                cells,
                x,
                y,
                seq![' ', i.icon, ' '],
                rest,
                style_texts(Style { fg: Some(i.color), ..style }),
            );
            stringn_drawn(
                area,
                after.1,
                after.0,
                y,
                name + seq![' '],
                monus(area.2 as int, after.0 as int) as usize,
                style_texts(style),
            )
        },
        None => stringn_drawn(
            area,
            cells,
            x,
            y,
            seq![' '] + name + seq![' '],
            rest,
            style_texts(style),
        ),
    }
}

/// The cells when the active tab is marked above `n` columns from `x` on.
pub open spec fn mark_drawn(area: AreaView, cells: Cells, x: u16, y: u16, style: Style, n: int) -> Cells
    decreases n,
{
    if n <= 0 {
        cells
    } else {
        stringn_drawn(
            area,
            mark_drawn(area, cells, x, y, style, n - 1),
            (x + n - 1) as u16,
            y,
            "▔"@,
            1,
            style_texts(style),
        ).1
    }
}

/// The tabs that are drawn and how.
pub struct BarView {
    pub names: Seq<Seq<char>>,
    pub icons: Option<Seq<Icon>>,
    pub active: int,
    pub viewport: Rect,
    pub styles: (Style, Style),
}

/// The column behind the first `n` tabs, the cells, and the columns of the tabs. Behind a tab that
/// reaches the end of the area there is none.
pub open spec fn bar_drawn(area: AreaView, cells: Cells, bar: BarView, n: int) -> (
    u16,
    Cells,
    Seq<(u16, u16, usize)>,
)
    decreases n,
{
    if n <= 0 {
        (bar.viewport.x, cells, Seq::empty())
    } else {
        let before = bar_drawn(area, cells, bar, n - 1);
        if n > 1 && before.0 >= rect_of(area).spec_right() {
            before
        } else {
            let i = n - 1;
            let style = tab_style(bar.styles, i == bar.active);
            let icon = match bar.icons {
                Some(icons) => Some(icons[i]),
                None => None,
            };
            let after = tab_drawn(
                area,
                before.1,
                bar.viewport,
                before.0,
                bar.names[i],
                icon,
                style,
            );
            let marked = if i == bar.active && bar.viewport.height > 1 {
                mark_drawn(
                    area,
                    after.1,
                    before.0,
                    bar.viewport.y,
                    tab_style(bar.styles, true),
                    after.0 - before.0,
                )
            } else {
                after.1
            };
            (after.0, marked, before.2.push((before.0, after.0, i as usize)))
        }
    }
}

/// Once the end of the area is reached, no further tab changes anything.
proof fn lemma_bar_stops(area: AreaView, cells: Cells, bar: BarView, n: int, m: int)
    requires
        0 < n <= m,
        bar_drawn(area, cells, bar, n).0 >= rect_of(area).spec_right(),
    ensures
        bar_drawn(area, cells, bar, m) == bar_drawn(area, cells, bar, n),
    decreases m,
{
    if n < m {
        lemma_bar_stops(area, cells, bar, n, m - 1);
    }
}

impl Default for TabManager {
    fn default() -> (r: Self)
        ensures
            r.tab_regions@ == Seq::<(u16, u16, usize)>::empty(),
    {
        TabManager::new()
    }
}

impl TabManager {
    pub fn new() -> (r: Self)
        ensures
            r.tab_regions@ == Seq::<(u16, u16, usize)>::empty(),
    {
        TabManager { tab_regions: Vec::new() }
    }

    fn tab_at(&self, column: u16) -> (r: Option<usize>)
        ensures
            r == region_at(self.tab_regions@, column, 0),
    {
        let mut i: usize = 0;
        while i < self.tab_regions.len()
            invariant
                i <= self.tab_regions@.len(),
                region_at(self.tab_regions@, column, 0) == region_at(
                    self.tab_regions@,
                    column,
                    i as int,
                ),
            decreases self.tab_regions@.len() - i,
        {
            let (start, end, tab) = self.tab_regions[i];
            if column >= start && column < end {
                return Some(tab);
            }
            i = i + 1;
        }
        None
    }

    /// Takes an event that no application used: a click on a tab shows its application, a key drops
    /// the status, starts the idle timer anew and goes to the keymap.
    pub fn handle_event<D, T, C>(
        &self,
        event: &Event,
        editor: &mut EditorModel<D, T, C>,
        now: u64,
    ) -> (r: TabStep)
        requires
            old(editor).app_state.wf(),
            event is Key ==> now + old(editor).config.idle_timeout <= u64::MAX,
        ensures
            final(editor).app_state.wf(),
            match clicked_tab(self.tab_regions@, *event) {
                Some(tab) => r == TabStep::Done(EventResult::Consumed) && *final(editor) == (
                EditorModel {
                    app_state: EditorApps {
                        active_app: if tab < old(editor).app_state.apps@.len() {
                            tab
                        } else {
                            old(editor).app_state.active_app
                        },
                        ..old(editor).app_state
                    },
                    ..*old(editor)
                }),
                None => match *event {
                    Event::Key(key) => r == TabStep::Key(canonical(key)) && *final(editor) == (
                    EditorModel {
                        status_msg: None,
                        idle_timer: (now + old(editor).config.idle_timeout) as u64,
                        ..*old(editor)
                    }),
                    _ => r == TabStep::Done(EventResult::Ignored) && *final(editor) == *old(editor),
                },
            },
    {
        match event {
            Event::Mouse(mouse) => {
                if mouse.kind == MouseEventKind::Down(MouseButton::Left) && mouse.row < 2 {
                    match self.tab_at(mouse.column) {
                        Some(tab) => {
                            editor.app_state.switch_app(tab);
                            return TabStep::Done(EventResult::Consumed);
                        },
                        None => {},
                    }
                }
                TabStep::Done(EventResult::Ignored)
            },
            Event::Key(key) => {
                let mut key: KeyEvent = *key;
                canonicalize_key(&mut key);
                editor.clear_status();
                editor.reset_idle_timer(now);
                TabStep::Key(key)
            },
            _ => TabStep::Done(EventResult::Ignored),
        }
    }

    /// Draws the bar of tabs into the rows of `viewport`, and notes which columns belong to which
    /// tab. Tabs have an icon each if there are icons.
    pub fn render_tab_bar(
        &mut self,
        names: &Vec<String>,
        icons: Option<&Vec<Icon>>,
        active: usize,
        viewport: Rect,
        theme: &Theme,
        surface: &mut ratatui::buffer::Buffer,
    )
        requires
            area_of(*old(surface)).x <= viewport.x,
            area_of(*old(surface)).y <= viewport.y,
            viewport.y + 1 < area_of(*old(surface)).spec_bottom(),
            icons matches Some(v) ==> v@.len() == names@.len(),
        ensures
            surface_area(*final(surface)) == surface_area(*old(surface)),
            ({
                let bar = BarView {
                    names: crate::strings::texts(names@),
                    icons: match icons {
                        Some(v) => Some(v@),
                        None => None,
                    },
                    active: active as int,
                    viewport,
                    styles: tab_styles(*theme),
                };
                let done = bar_drawn(
                    surface_area(*old(surface)),
                    surface_cells(*old(surface)),
                    bar,
                    names@.len() as int,
                );
                surface_cells(*final(surface)) == done.1 && final(self).tab_regions@ == done.2
            }),
            forall|i: int|
                0 <= i < final(self).tab_regions@.len() ==> (
                #[trigger] final(self).tab_regions@[i]).0 <= final(self).tab_regions@[i].1,
    {
        let active_style = get_or(theme, "ui.bufferline.active", "ui.statusline.active");
        let inactive_style = get_or(theme, "ui.bufferline", "ui.statusline.inactive");
        let ghost area = surface_area(*surface);
        let ghost cells = surface_cells(*surface);
        let ghost bar = BarView {
            names: crate::strings::texts(names@),
            icons: match icons {
                Some(v) => Some(v@),
                None => None,
            },
            active: active as int,
            viewport,
            styles: tab_styles(*theme),
        };
        let rect = buffer_rect(surface);
        let mut x: u16 = viewport.x;
        self.tab_regions.clear();
        let mut i: usize = 0;
        while i < names.len()
            invariant
                i <= names@.len(),
                area == surface_area(*old(surface)),
                cells == surface_cells(*old(surface)),
                surface_area(*surface) == area,
                rect == rect_of(area),
                rect == area_of(*old(surface)),
                rect.x <= viewport.x <= x,
                rect.y <= viewport.y,
                viewport.y + 1 < rect.spec_bottom(),
                icons matches Some(v) ==> v@.len() == names@.len(),
                active_style == tab_styles(*theme).0,
                inactive_style == tab_styles(*theme).1,
                bar == (BarView {
                    names: crate::strings::texts(names@),
                    icons: match icons {
                        Some(v) => Some(v@),
                        None => None,
                    },
                    active: active as int,
                    viewport,
                    styles: tab_styles(*theme),
                }),
                (x, surface_cells(*surface), self.tab_regions@) == bar_drawn(
                    area,
                    cells,
                    bar,
                    i as int,
                ),
                i > 0 ==> x < rect.spec_right(),
                forall|k: int|
                    0 <= k < self.tab_regions@.len() ==> (#[trigger] self.tab_regions@[k]).0
                        <= self.tab_regions@[k].1,
            decreases names@.len() - i,
        {
            let marked = active_style.underline_style(UnderlineStyle::Reset).underline_color(
                Color::Reset,
            );
            let style = if i == active {
                marked
            } else {
                inactive_style.bg(Color::Reset)
            };
            let start: u16 = x;
            let icon: Option<Icon> = match icons {
                Some(v) => Some(v[i]),
                None => None,
            };
            assert(bar.names[i as int] == names@[i as int]@);
            x = draw_tab(surface, viewport, start, names[i].as_str(), icon, style, rect.width);
            self.tab_regions.push((start, x, i));
            if i == active && viewport.height > 1 {
                draw_mark(surface, start, viewport.y, x, marked);
            }
            i = i + 1;
            if x >= rect.right() {
                proof {
                    lemma_bar_stops(area, cells, bar, i as int, names@.len() as int);
                }
                return;
            }
        }
    }

    /// Draws the window around the active application. Applications for documents that are gone are
    /// dropped first. Then the background is drawn, the window is divided, and the bar of tabs, if it
    /// is shown, and the command line are drawn over the background. `label` gives what is shown of
    /// an application.
    pub fn render<D, T, C, F: Fn(&EditorModel<D, T, C>, usize) -> AppLabel>(
        &mut self,
        window: Rect,
        surface: &mut ratatui::buffer::Buffer,
        editor: &mut EditorModel<D, T, C>,
        ids: &mut AppIds,
        label: F,
    )
        requires
            old(editor).app_state.wf(),
            window.x + window.width <= u16::MAX,
            window.y + window.height <= u16::MAX,
            area_of(*old(surface)).x <= window.x,
            area_of(*old(surface)).y <= window.y,
            window.y + monus(window.height as int, 1) < area_of(*old(surface)).spec_bottom(),
            bar_height(old(editor).config.bufferline, apps_left(old(editor).app_state)) > 0
                ==> window.y + 1 < area_of(*old(surface)).spec_bottom(),
            forall|e: &EditorModel<D, T, C>, i: usize|
                i < e.app_state.apps@.len() ==> #[trigger] call_requires(label, (e, i)),
        ensures
            surface_area(*final(surface)) == surface_area(*old(surface)),
            final(editor).app_state.wf(),
            stale_dropped(
                old(editor).app_state,
                final(editor).app_state,
                old(ids)@,
                final(ids)@,
            ),
            final(editor).app_state.apps@.len() == apps_left(old(editor).app_state),
            *final(editor) == (EditorModel {
                app_state: final(editor).app_state,
                main_area: clipped_bottom(
                    clipped_top(
                        window,
                        bar_height(
                            old(editor).config.bufferline,
                            final(editor).app_state.apps@.len() as int,
                        ),
                    ),
                    1,
                ),
                ..*old(editor)
            }),
            exists|labels: Seq<AppLabel>, icons: Seq<Icon>|
                #![trigger labels_from(label, *final(editor), labels), icons_for(labels, icons)]
                labels_from(label, *final(editor), labels) && icons_for(labels, icons) && (
                surface_cells(*final(surface)),
                final(self).tab_regions@,
            ) == window_drawn(
                surface_area(*old(surface)),
                surface_cells(*old(surface)),
                old(self).tab_regions@,
                window,
                *final(editor),
                labels,
                icons,
            ),
    {
        editor.app_state.cleanup_stale_shells(ids);
        let n: usize = editor.app_state.apps.len();
        restyle_area(surface, window, editor.theme.get("ui.background"));
        let parts = layout(window, editor.config.bufferline, n);
        editor.main_area = parts.main_area;
        let mut labels: Vec<AppLabel> = Vec::new();
        let mut names: Vec<String> = Vec::new();
        let mut icons: Vec<Icon> = Vec::new();
        let mut i: usize = 0;
        while i < n
            invariant
                i <= n,
                n == editor.app_state.apps@.len(),
                labels@.len() == i,
                names@.len() == i,
                icons@.len() == i,
                forall|e: &EditorModel<D, T, C>, i: usize|
                    i < e.app_state.apps@.len() ==> #[trigger] call_requires(label, (e, i)),
                forall|k: int|
                    0 <= k < i ==> call_ensures(label, (&*editor, k as usize), #[trigger] labels@[k]),
                forall|k: int| 0 <= k < i ==> (#[trigger] names@[k])@ == labels@[k].name@,
                forall|k: int|
                    0 <= k < i ==> is_icon_of(#[trigger] icons@[k], shown_path(labels@[k])),
            decreases n - i,
        {
            let l: AppLabel = label(&*editor, i);
            names.push(l.name.clone());
            icons.push(match &l.icon_path {
                Some(path) => file_icon(path.as_str()),
                None => file_icon("[scratch]"),
            });
            labels.push(l);
            i = i + 1;
        }
        let active: usize = editor.app_state.active_app;
        proof {
            assert(crate::strings::texts(names@) =~= labels@.map_values(|l: AppLabel| l.name@));
        }
        match parts.tab_bar {
            Some(rows) => {
                let shown = if editor.config.icons {
                    Some(&icons)
                } else {
                    None
                };
                self.render_tab_bar(&names, shown, active, rows, &editor.theme, surface);
            },
            None => {},
        }
        let status = match &editor.status_msg {
            Some((text, severity)) => Some((text.as_str(), *severity)),
            None => None,
        };
        let line = render_commandline(
            parts.commandline,
            status,
            labels[active].count,
            labels[active].pending_keys.as_str(),
            &editor.theme,
        );
        draw(surface, &line);
        proof {
            assert(labels_from(label, *editor, labels@));
            assert(icons_for(labels@, icons@));
        }
    }

    /// The bar shows no cursor.
    pub fn cursor(&self) -> (r: (Option<Position>, CursorKind))
        ensures
            r == (None::<Position>, CursorKind::Hidden),
    {
        (None, CursorKind::Hidden)
    }
}

fn draw_tab(
    surface: &mut ratatui::buffer::Buffer,
    viewport: Rect,
    x: u16,
    name: &str,
    icon: Option<Icon>,
    style: Style,
    width: u16,
) -> (r: u16)
    requires
        area_of(*old(surface)).x <= viewport.x <= x,
        area_of(*old(surface)).y <= viewport.y,
        viewport.y + 1 < area_of(*old(surface)).spec_bottom(),
        width == area_of(*old(surface)).width,
    ensures
        x <= r,
        surface_area(*final(surface)) == surface_area(*old(surface)),
        (r, surface_cells(*final(surface))) == tab_drawn(
            surface_area(*old(surface)),
            surface_cells(*old(surface)),
            viewport,
            x,
            name@,
            icon,
            style,
        ),
{
    let y: u16 = viewport.y + 1;
    let used: u16 = x.saturating_sub(viewport.x);
    let rest: u16 = width.saturating_sub(used);
    match icon {
        Some(i) => {
            let mut s = String::new();
            s.push(' ');
            s.push(i.icon);
            s.push(' ');
            assert(s@ =~= seq![' ', i.icon, ' ']);
            let at: u16 = draw_text(surface, x, y, s.as_str(), rest as usize, style.fg(i.color));
            let mut t = name.to_owned();
            t.push(' ');
            assert(t@ =~= name@ + seq![' ']);
            let rest: u16 = width.saturating_sub(at);
            draw_text(surface, at, y, t.as_str(), rest as usize, style)
        },
        None => {
            let mut s = String::new();
            s.push(' ');
            s.append(name);
            s.push(' ');
            assert(s@ =~= seq![' '] + name@ + seq![' ']);
            draw_text(surface, x, y, s.as_str(), rest as usize, style)
        },
    }
}

fn draw_mark(surface: &mut ratatui::buffer::Buffer, x: u16, y: u16, end: u16, style: Style)
    requires
        x <= end,
        area_of(*old(surface)).x <= x,
        area_of(*old(surface)).y <= y < area_of(*old(surface)).spec_bottom(),
    ensures
        surface_area(*final(surface)) == surface_area(*old(surface)),
        surface_cells(*final(surface)) == mark_drawn(
            surface_area(*old(surface)),
            surface_cells(*old(surface)),
            x,
            y,
            style,
            end - x,
        ),
{
    let ghost area = surface_area(*surface);
    let ghost cells = surface_cells(*surface);
    let mut at: u16 = x;
    while at < end
        invariant
            x <= at <= end,
            area == surface_area(*old(surface)),
            cells == surface_cells(*old(surface)),
            area_of(*old(surface)).x <= x,
            area_of(*old(surface)).y <= y < area_of(*old(surface)).spec_bottom(),
            surface_area(*surface) == area,
            surface_cells(*surface) == mark_drawn(area, cells, x, y, style, at - x),
        decreases end - at,
    {
        let _behind: u16 = draw_text(surface, at, y, "▔", 1, style);
        at = at + 1;
    }
}

/// Decides what is to be done with what the keymap has for a key.
pub fn global_step(result: KeymapResult) -> (r: GlobalStep)
    ensures
        r == use_of(result),
{
    match result {
        KeymapResult::Matched => GlobalStep::Run(1),
        KeymapResult::MatchedSequence(n) => GlobalStep::Run(n),
        KeymapResult::Pending => GlobalStep::PushMenu,
        KeymapResult::NotFound => GlobalStep::Unused,
        KeymapResult::Cancelled => GlobalStep::Unused,
    }
}

/// The result for a key, after what the keymap has for it was done. The key counts as ignored if it
/// had no use or if the last document was closed. Also tells whether callbacks that the commands
/// left are to be run.
pub fn finish_global(step: GlobalStep, should_close: bool, callbacks: usize) -> (r: (
    EventResult,
    bool,
))
    ensures
        r == global_result(step, should_close, callbacks),
{
    match step {
        GlobalStep::Unused => (EventResult::Ignored, false),
        _ => if should_close {
            (EventResult::Ignored, false)
        } else {
            (EventResult::Consumed, callbacks > 0)
        },
    }
}

/// The rows of the bar of tabs.
pub open spec fn bar_height(bufferline: BufferLine, apps: int) -> u16 {
    match bufferline {
        BufferLine::Always => 2,
        BufferLine::Multiple => if apps > 1 {
            2
        } else {
            0
        },
        BufferLine::Never => 0,
    }
}

/// Divides the window: the bar of tabs if it is shown, the command line in the last row, and the
/// rest.
pub fn layout(area: Rect, bufferline: BufferLine, app_count: usize) -> (r: TabLayout)
    requires
        area.y + area.height <= u16::MAX,
    ensures
        ({
            let h = bar_height(bufferline, app_count as int);
            &&& r.tab_bar == if h > 0 {
                Some(Rect::spec_new(area.x, area.y, area.width, h))
            } else {
                None
            }
            &&& r.main_area == clipped_bottom(clipped_top(area, h), 1)
            &&& r.commandline == last_row(area)
        }),
{
    let height: u16 = match bufferline {
        BufferLine::Always => 2,
        BufferLine::Multiple => if app_count > 1 {
            2
        } else {
            0
        },
        BufferLine::Never => 0,
    };
    TabLayout {
        tab_bar: if height > 0 {
            Some(area.with_height(height))
        } else {
            None
        },
        main_area: area.clip_top(height).clip_bottom(1),
        commandline: Rect::new(area.x, area.y + area.height.saturating_sub(1), area.width, 1),
    }
}

/// The last fifteen bytes of a text, or all of it if they do not start with a character.
pub open spec fn tail(s: Seq<char>) -> Seq<char> {
    let b = encode_utf8(s);
    let cut = monus((b.len() as usize) as int, 15);
    if is_char_boundary(b, cut) {
        decode_utf8(b.subrange(cut, b.len() as int))
    } else {
        s
    }
}

fn last_bytes(s: &str) -> (r: String)
    ensures
        r@ == tail(s@),
{
    let cut: usize = s.len().saturating_sub(15);
    if s.is_char_boundary(cut) {
        let (_, rest) = s.split_at(cut);
        proof {
            encode_utf8_decode_utf8(rest@);
        }
        rest.to_owned()
    } else {
        s.to_owned()
    }
}

/// What the command line shows: the status at its start, and at its end, if there is room, the
/// count and the keys that wait for more.
pub open spec fn commandline_draws(
    area: Rect,
    status: Option<(Seq<char>, Severity)>,
    count: Option<usize>,
    pending: Seq<char>,
    theme: Theme,
) -> Seq<DrawView> {
    let e = entries_of(theme);
    let shown = match status {
        Some((text, severity)) => seq![
            DrawView::Text(
                area.x,
                area.y,
                text,
                usize::MAX,
                style_of(
                    e,
                    if severity == Severity::Error {
                        "error"@
                    } else {
                        "ui.text"@
                    },
                ),
            ),
        ],
        None => Seq::empty(),
    };
    let width = match status {
        Some((text, _)) => width_of(text) as u16,
        None => 0u16,
    };
    if monus(area.width as int, width as int) > 15 {
        let keys = (match count {
            Some(n) => decimal_digits(n as nat),
            None => Seq::empty(),
        }) + pending;
        shown.push(
            DrawView::Text(
                (area.x + monus(area.width as int, 15)) as u16,
                area.y,
                tail(keys),
                usize::MAX,
                style_of(e, "ui.text"@),
            ),
        )
    } else {
        shown
    }
}

/// Draws the command line.
pub fn render_commandline(
    area: Rect,
    status: Option<(&str, Severity)>,
    count: Option<usize>,
    pending: &str,
    theme: &Theme,
) -> (r: Vec<DrawOp>)
    requires
        area.x + area.width <= u16::MAX,
    ensures
        draw_views(r@) == commandline_draws(
            area,
            match status {
                Some((text, severity)) => Some((text@, severity)),
                None => None,
            },
            count,
            pending@,
            *theme,
        ),
{
    let mut out: Vec<DrawOp> = Vec::new();
    assert(draw_views(out@) =~= Seq::empty());
    let mut status_width: u16 = 0;
    match status {
        Some((text, severity)) => {
            status_width = str_width(text) as u16;
            let style = if severity == Severity::Error {
                theme.get("error")
            } else {
                theme.get("ui.text")
            };
            push_draw(
                &mut out,
                DrawOp::Text {
                    x: area.x,
                    y: area.y,
                    text: text.to_owned(),
                    width: usize::MAX,
                    style,
                },
            );
            assert(draw_views(out@) =~= seq![
                DrawView::Text(area.x, area.y, text@, usize::MAX, style),
            ]);
        },
        None => {},
    }
    if area.width.saturating_sub(status_width) > 15 {
        let mut keys = String::new();
        match count {
            Some(n) => {
                keys.append(decimal(n as u64).as_str());
            },
            None => {},
        }
        keys.append(pending);
        assert(keys@ =~= (match count {
            Some(n) => decimal_digits(n as nat),
            None => Seq::empty(),
        }) + pending@);
        let text = last_bytes(keys.as_str());
        push_draw(
            &mut out,
            DrawOp::Text {
                x: area.x + area.width.saturating_sub(15),
                y: area.y,
                text,
                width: usize::MAX,
                style: theme.get("ui.text"),
            },
        );
    }
    out
}

/// Each column of a tab leads back to the tab: a click on it asks for its application. No two tabs
/// share a column, so the first region that holds a column is the only one.
pub proof fn law_click_finds_tab(area: AreaView, cells: Cells, bar: BarView, n: int, k: int, column: u16)
    requires
        0 <= n <= bar.names.len(),
        bar.names.len() <= usize::MAX,
        forall|i: int|
            0 <= i < bar_drawn(area, cells, bar, n).2.len() ==> (
            #[trigger] bar_drawn(area, cells, bar, n).2[i]).0 <= bar_drawn(area, cells, bar, n).2[i].1,
        0 <= k < bar_drawn(area, cells, bar, n).2.len(),
        bar_drawn(area, cells, bar, n).2[k].0 <= column < bar_drawn(area, cells, bar, n).2[k].1,
    ensures
        region_at(bar_drawn(area, cells, bar, n).2, column, 0) == Some(k as usize),
{
    let regions = bar_drawn(area, cells, bar, n).2;
    lemma_regions_in_order(area, cells, bar, n);
    lemma_region_found(regions, column, k, 0);
}

proof fn lemma_regions_in_order(area: AreaView, cells: Cells, bar: BarView, n: int)
    requires
        0 <= n <= usize::MAX,
    ensures
        ({
            let done = bar_drawn(area, cells, bar, n);
            &&& done.2.len() <= n
            &&& forall|i: int| 0 <= i < done.2.len() ==> (#[trigger] done.2[i]).2 == i
            &&& forall|i: int|
                0 <= i < done.2.len() - 1 ==> (#[trigger] done.2[i]).1 == done.2[i + 1].0
            &&& done.2.len() > 0 ==> done.2.last().1 == done.0
            &&& done.2.len() == n || (n > 1 && done.0 >= rect_of(area).spec_right())
        }),
    decreases n,
{
    if n > 0 {
        lemma_regions_in_order(area, cells, bar, n - 1);
    }
}

proof fn lemma_starts_rise(regions: Seq<(u16, u16, usize)>, i: int, k: int)
    requires
        forall|j: int| 0 <= j < regions.len() - 1 ==> (#[trigger] regions[j]).1 == regions[j + 1].0,
        forall|j: int| 0 <= j < regions.len() ==> (#[trigger] regions[j]).0 <= regions[j].1,
        0 <= i < k < regions.len(),
    ensures
        regions[i].1 <= regions[k].0,
    decreases k - i,
{
    if i + 1 < k {
        assert(regions[i].1 == regions[i + 1].0);
        assert(regions[i + 1].0 <= regions[i + 1].1);
        lemma_starts_rise(regions, i + 1, k);
    } else {
        assert(regions[i].1 == regions[i + 1].0);
    }
}

proof fn lemma_region_found(regions: Seq<(u16, u16, usize)>, column: u16, k: int, i: int)
    requires
        forall|j: int| 0 <= j < regions.len() - 1 ==> (#[trigger] regions[j]).1 == regions[j + 1].0,
        forall|j: int| 0 <= j < regions.len() ==> (#[trigger] regions[j]).0 <= regions[j].1,
        forall|j: int| 0 <= j < regions.len() ==> (#[trigger] regions[j]).2 == j,
        0 <= i <= k < regions.len(),
        regions[k].0 <= column < regions[k].1,
    ensures
        region_at(regions, column, i) == Some(k as usize),
    decreases k - i,
{
    if i < k {
        lemma_starts_rise(regions, i, k);
        lemma_region_found(regions, column, k, i + 1);
    }
}

/// The bar of tabs stands side by side: the first tab begins at the left edge, each other one where the
/// one before it ends, and they are in the order of the applications.
pub proof fn law_tabs_stand_side_by_side(area: AreaView, cells: Cells, bar: BarView, n: int)
    requires
        0 < n <= usize::MAX,
    ensures
        ({
            let regions = bar_drawn(area, cells, bar, n).2;
            &&& regions.len() > 0
            &&& regions[0].0 == bar.viewport.x
            &&& forall|i: int| 0 <= i < regions.len() ==> (#[trigger] regions[i]).2 == i
            &&& forall|i: int| 0 <= i < regions.len() - 1 ==> (#[trigger] regions[i]).1 == regions[i + 1].0
            &&& regions.len() < n ==> regions[regions.len() - 1].1 >= rect_of(area).spec_right()
        }),
    decreases n,
{
    reveal_with_fuel(bar_drawn, 2);
    lemma_regions_in_order(area, cells, bar, n);
    if n > 1 {
        law_tabs_stand_side_by_side(area, cells, bar, n - 1);
    }
}

/// The application that is asked for is that of the first tab under the pointer, and none where there
/// is no tab.
pub proof fn law_tab_under_the_pointer(regions: Seq<(u16, u16, usize)>, column: u16, i: int, k: int)
    requires
        0 <= i <= k <= regions.len(),
        forall|m: int|
            i <= m < k ==> !((#[trigger] regions[m]).0 <= column && column < regions[m].1),
    ensures
        k < regions.len() && regions[k].0 <= column < regions[k].1 ==> region_at(regions, column, i)
            == Some(regions[k].2),
        k == regions.len() ==> region_at(regions, column, i) is None,
    decreases k - i,
{
    if i < k {
        law_tab_under_the_pointer(regions, column, i + 1, k);
    }
}

/// Only pressing the left button on one of the two rows of the bar asks for a tab.
pub proof fn law_only_clicks_on_the_bar_count(regions: Seq<(u16, u16, usize)>, event: Event)
    ensures
        clicked_tab(regions, event) is Some ==> (event matches Event::Mouse(mouse) && mouse.kind
            == MouseEventKind::Down(MouseButton::Left) && mouse.row <= 1),
        event matches Event::Mouse(mouse) ==> (mouse.kind == MouseEventKind::Down(MouseButton::Left)
            && mouse.row <= 1 ==> clicked_tab(regions, event) == region_at(regions, mouse.column, 0)),
{
}

/// The active tab is drawn in the active style, without an underline; the others in the inactive style
/// on the plain background.
pub proof fn law_tab_styles(active: Style, inactive: Style)
    ensures
        tab_style((active, inactive), true).fg == active.fg,
        tab_style((active, inactive), true).bg == active.bg,
        tab_style((active, inactive), true).underline_style == Some(UnderlineStyle::Reset),
        tab_style((active, inactive), true).underline_color == Some(Color::Reset),
        tab_style((active, inactive), true).add_modifier == active.add_modifier,
        tab_style((active, inactive), true).sub_modifier == active.sub_modifier,
        tab_style((active, inactive), false).fg == inactive.fg,
        tab_style((active, inactive), false).bg == Some(Color::Reset),
        tab_style((active, inactive), false).underline_style == inactive.underline_style,
        tab_style((active, inactive), false).add_modifier == inactive.add_modifier,
        tab_style((active, inactive), false).sub_modifier == inactive.sub_modifier,
{
}

/// The bar's styles are its own ones, or those of the status line.
pub proof fn law_styles_of_the_bar(theme: Theme)
    ensures
        tab_styles(theme).0 == style_or(theme, "ui.bufferline.active"@, "ui.statusline.active"@),
        tab_styles(theme).1 == style_or(theme, "ui.bufferline"@, "ui.statusline.inactive"@),
{
}

/// A tab shows its name with a blank on either side, in the lower row of the bar; with an icon, that
/// stands before the name, in its own colour, and the name goes on where it ends.
pub proof fn law_tab_shows_its_name(
    area: AreaView,
    cells: Cells,
    viewport: Rect,
    x: u16,
    name: Seq<char>,
    icon: Icon,
    style: Style,
)
    requires
        viewport.y < u16::MAX,
        viewport.x <= x,
        x - viewport.x <= area.2,
    ensures
        tab_drawn(area, cells, viewport, x, name, None, style) == stringn_drawn(
            area,
            cells,
            x,
            (viewport.y + 1) as u16,
            seq![' '] + name + seq![' '],
            (area.2 - (x - viewport.x)) as usize,
            style_texts(style),
        ),
        ({
            let first = stringn_drawn(
                area,
                cells,
                x,
                (viewport.y + 1) as u16,
                seq![' ', icon.icon, ' '],
                (area.2 - (x - viewport.x)) as usize,
                style_texts((Style { fg: Some(icon.color), ..style })),
            );
            first.0 <= area.2 ==> tab_drawn(area, cells, viewport, x, name, Some(icon), style)
                == stringn_drawn(
                area,
                first.1,
                first.0,
                (viewport.y + 1) as u16,
                name + seq![' '],
                (area.2 - first.0) as usize,
                style_texts(style),
            )
        }),
{
}

/// The bar takes two rows if it is shown: always, never, or only with several applications.
pub proof fn law_height_of_the_bar(bufferline: BufferLine, apps: int)
    ensures
        bar_height(bufferline, apps) == 2 || bar_height(bufferline, apps) == 0,
        bufferline == BufferLine::Always ==> bar_height(bufferline, apps) == 2,
        bufferline == BufferLine::Never ==> bar_height(bufferline, apps) == 0,
        bufferline == BufferLine::Multiple ==> (bar_height(bufferline, apps) == 2 <==> apps >= 2),
{
}

/// The command line is the last row of the window, in its whole width.
pub proof fn law_command_line_is_the_last_row(window: Rect, x: int, y: int)
    requires
        window.height > 0,
        window.x + window.width <= u16::MAX,
        window.y + window.height <= u16::MAX,
    ensures
        last_row(window).holds(x, y) <==> window.holds(x, y) && y == window.y + window.height - 1,
{
}

/// Of keys in plain characters the last fifteen are shown, or all if there are no more.
pub proof fn law_last_keys_are_shown(s: Seq<char>)
    requires
        is_ascii_chars(s),
        s.len() <= usize::MAX,
    ensures
        s.len() <= 15 ==> tail(s) == s,
        s.len() > 15 ==> tail(s) == s.skip(s.len() - 15),
{
    let b = encode_utf8(s);
    is_ascii_chars_encode_utf8(s);
    encode_utf8_valid_utf8(s);
    if s.len() <= 15 {
        is_char_boundary_start_end_of_seq(b);
        assert(b.subrange(0, b.len() as int) =~= b);
        encode_utf8_decode_utf8(s);
    } else {
        let cut = s.len() - 15;
        let head = s.take(cut);
        let rest = s.skip(cut);
        assert(s =~= head + rest);
        is_ascii_chars_concat(s, head, rest);
        is_ascii_chars_encode_utf8(head);
        lemma_encode_add(head, rest);
        assert(b.subrange(cut, b.len() as int) =~= encode_utf8(rest));
        encode_utf8_decode_utf8(rest);
        assert(s[cut] as u8 == b[cut]);
        assert(b[cut] < 128);
        is_char_boundary_iff_is_leading_byte(b, cut);
    }
}

/// The command line shows the status at its start, an error in the style of errors and anything else as
/// text. The count and the keys that wait stand at its end if the status leaves room for them.
pub proof fn law_command_line_shows_status_and_keys(
    area: Rect,
    text: Seq<char>,
    severity: Severity,
    count: usize,
    pending: Seq<char>,
    theme: Theme,
)
    requires
        area.width > 15,
        area.x + area.width <= u16::MAX,
        width_of(text) <= u16::MAX,
    ensures
        ({
            let e = entries_of(theme);
            let status = Some((text, severity));
            let line = commandline_draws(area, status, None, pending, theme);
            let counted = commandline_draws(area, None, Some(count), pending, theme);
            &&& line[0] matches DrawView::Text(x, y, s, _, style) && x == area.x && y == area.y && s == text
                && style == (if severity == Severity::Error {
                style_of(e, "error"@)
            } else {
                style_of(e, "ui.text"@)
            })
            &&& line.len() == 2 <==> width_of(text) + 15 < area.width
            &&& line.len() == 1 <==> width_of(text) + 15 >= area.width
            &&& line.len() == 2 ==> (line[1] matches DrawView::Text(x, y, s, _, style) && x == area.x
                + area.width - 15 && y == area.y && s == tail(pending) && style == style_of(
                e,
                "ui.text"@,
            ))
            &&& counted.len() == 1
            &&& counted[0] matches DrawView::Text(x, y, s, _, _) && x == area.x + area.width - 15 && y
                == area.y && s == tail(decimal_digits(count as nat) + pending)
        }),
{
    assert(Seq::<char>::empty() + pending =~= pending);
}

/// A scratch document has a name of its own; any other tab is known by the path of its file.
pub proof fn law_shown_paths(label: AppLabel)
    ensures
        label.icon_path matches Some(path) ==> shown_path(label) == path@,
        label.icon_path is None ==> shown_path(label) == "[scratch]"@,
{
}

/// The window is drawn from back to front: its background, the bar of tabs if there is one, and the
/// command line. Without a bar the tabs that can be clicked stay the ones of before.
pub proof fn law_window_is_drawn_in_order<D, T, C>(
    area: AreaView,
    cells: Cells,
    regions: Seq<(u16, u16, usize)>,
    window: Rect,
    editor: EditorModel<D, T, C>,
    labels: Seq<AppLabel>,
    icons: Seq<Icon>,
)
    ensures
        ({
            let n = editor.app_state.apps@.len() as int;
            let ground = drawn(
                area,
                cells,
                DrawView::Restyle(window, style_of(entries_of(editor.theme), "ui.background"@)),
            );
            let active = labels[editor.app_state.active_app as int];
            let line = commandline_draws(
                last_row(window),
                status_view(editor.status_msg),
                active.count,
                active.pending_keys@,
                editor.theme,
            );
            let done = window_drawn(area, cells, regions, window, editor, labels, icons);
            let bar = bar_drawn(
                area,
                ground,
                window_bar(editor, window, 2, labels, icons),
                n,
            );
            &&& bar_height(editor.config.bufferline, n) == 0 ==> done == (
                all_drawn(area, ground, line, line.len() as int),
                regions,
            )
            &&& bar_height(editor.config.bufferline, n) == 2 ==> done == (
                all_drawn(area, bar.1, line, line.len() as int),
                bar.2,
            )
        }),
{
}

/// The bar names every application, in order, marks the active one, and shows icons just if they are
/// configured; it stands at the top of the window.
pub proof fn law_bar_of_the_window<D, T, C>(
    editor: EditorModel<D, T, C>,
    window: Rect,
    height: u16,
    labels: Seq<AppLabel>,
    icons: Seq<Icon>,
    i: int,
)
    requires
        0 <= i < labels.len(),
    ensures
        window_bar(editor, window, height, labels, icons).names.len() == labels.len(),
        window_bar(editor, window, height, labels, icons).names[i] == labels[i].name@,
        window_bar(editor, window, height, labels, icons).active == editor.app_state.active_app,
        editor.config.icons ==> window_bar(editor, window, height, labels, icons).icons == Some(icons),
        !editor.config.icons ==> window_bar(editor, window, height, labels, icons).icons is None,
        window_bar(editor, window, height, labels, icons).viewport.x == window.x,
        window_bar(editor, window, height, labels, icons).viewport.y == window.y,
        window_bar(editor, window, height, labels, icons).styles == tab_styles(editor.theme),
{
}

/// What is done with what the keymap has for a key.
pub open spec fn use_of(result: KeymapResult) -> GlobalStep {
    match result {
        KeymapResult::Matched => GlobalStep::Run(1),
        KeymapResult::MatchedSequence(n) => GlobalStep::Run(n),
        KeymapResult::Pending => GlobalStep::PushMenu,
        _ => GlobalStep::Unused,
    }
}

/// What a key came to, and whether callbacks are run.
pub open spec fn global_result(step: GlobalStep, should_close: bool, callbacks: usize) -> (
    EventResult,
    bool,
) {
    if step is Unused || should_close {
        (EventResult::Ignored, false)
    } else {
        (EventResult::Consumed, callbacks > 0)
    }
}

/// A key with a command runs that one, a key with a sequence all of it; a key that begins more opens the
/// menu; any other key is left to others. A key that had a use is used up and its callbacks are run,
/// unless the program ends with it.
pub proof fn law_keys_without_an_application(result: KeymapResult, callbacks: usize)
    ensures
        use_of(result) is PushMenu <==> result == KeymapResult::Pending,
        use_of(result) is Unused <==> result == KeymapResult::NotFound || result == KeymapResult::Cancelled,
        result == KeymapResult::Matched ==> use_of(result) == GlobalStep::Run(1),
        result matches KeymapResult::MatchedSequence(n) ==> use_of(result) == GlobalStep::Run(n),
        global_result(use_of(result), true, callbacks) == (EventResult::Ignored, false),
        global_result(use_of(result), false, callbacks).0 == EventResult::Ignored <==> result
            == KeymapResult::NotFound || result == KeymapResult::Cancelled,
        global_result(use_of(result), false, callbacks).0 == EventResult::Consumed ==> (global_result(
            use_of(result),
            false,
            callbacks,
        ).1 <==> callbacks > 0),
{
}

/// The active tab is marked over its whole width, from its first column to its last one, in the row above
/// its name.
pub proof fn law_mark_covers_the_tab(area: AreaView, cells: Cells, x: u16, y: u16, style: Style, n: int)
    requires
        0 < n,
        x + n <= u16::MAX,
    ensures
        mark_drawn(area, cells, x, y, style, 0) == cells,
        mark_drawn(area, cells, x, y, style, n) == drawn(
            area,
            mark_drawn(area, cells, x, y, style, n - 1),
            DrawView::Text((x + n - 1) as u16, y, "▔"@, 1, style),
        ),
{
}

} // verus!
