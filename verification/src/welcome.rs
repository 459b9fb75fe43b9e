//! The page shown while no document is open.
use crate::app_id::AppId;
use crate::app_id::AppIds;
use crate::apps::following;
use crate::draw::draw_views;
use crate::draw::push_draw;
use crate::draw::DrawOp;
use crate::draw::DrawView;
use crate::editor_view::Position;
use crate::graphics::monus;
use crate::graphics::CursorKind;
use crate::graphics::Rect;
use crate::graphics::Style;
use crate::input::Event;
use crate::input::KeyCode;
use crate::theme::entries_of;
use crate::theme::style_of;
use crate::theme::Theme;
use vstd::prelude::*;
use vstd::string::*;
use vstd::utf8::*;

verus! {

/// The page shown while no document is open.
#[derive(Debug, Clone, Copy)]
pub struct WelcomePage {
    pub app_id: AppId,
}

/// What the page does with an event.
#[derive(Debug, Clone, Copy, PartialEq, Eq, Structural)]
pub enum WelcomeStep {
    Ignored,
    /// Open the picker for the files of the workspace.
    FilePicker,
    /// Nothing to pick from; the key is used up.
    NoWorkspace,
    /// Open the explorer of the working directory.
    FileExplorer,
}

/// A line of the page; the first one stands out.
#[derive(Debug)]
struct WelcomeLine {
    dim: bool,
    text: String,
}

spec fn line_views(v: Seq<WelcomeLine>) -> Seq<(bool, Seq<char>)> {
    v.map_values(|l: WelcomeLine| (l.dim, l.text@))
}

fn push_line(lines: &mut Vec<WelcomeLine>, dim: bool, text: String)
    ensures
        line_views(final(lines)@) == line_views(old(lines)@).push((dim, text@)),
{
    let ghost before = lines@;
    lines.push(WelcomeLine { dim, text });
    assert(line_views(lines@) =~= line_views(before).push((dim, text@)));
}

/// The lines of the page, and which of them are dim: the project, the branch if there is one, and
/// the keys.
pub open spec fn welcome_lines(project: Seq<char>, branch: Option<Seq<char>>) -> Seq<
    (bool, Seq<char>),
> {
    seq![(false, project)] + (match branch {
        Some(b) => seq![(true, "on "@ + b)],
        None => Seq::empty(),
    }) + seq![
        (true, Seq::empty()),
        (true, "f   file picker"@),
        (true, "e   file explorer"@),
        (true, ":   command mode"@),
    ]
}

/// The number of bytes of a text, as far as it fits into 16 bits.
pub open spec fn short_len(s: Seq<char>) -> u16 {
    encode_utf8(s).len() as usize as u16
}

/// Where a line of the page is drawn: centred, by its number of bytes.
pub open spec fn welcome_draw(
    lines: Seq<(bool, Seq<char>)>,
    area: Rect,
    text: Style,
    dim: Style,
    i: int,
) -> DrawView {
    DrawView::Text(
        (area.x + monus(area.width as int, short_len(lines[i].1) as int) / 2) as u16,
        (area.y + monus(area.height as int, lines.len() as int) / 2 + i) as u16,
        lines[i].1,
        usize::MAX,
        if lines[i].0 {
            dim
        } else {
            text
        },
    )
}

/// How many of `n` lines fit when they are centred in an area.
pub open spec fn lines_shown(area: Rect, n: int) -> int {
    if n <= area.height {
        n
    } else {
        area.height as int
    }
}

impl WelcomePage {
    pub fn new(ids: &mut AppIds) -> (r: Self)
        ensures
            r.app_id == AppId(old(ids)@),
            final(ids)@ == following(old(ids)@),
    {
        WelcomePage { app_id: AppId::next(ids) }
    }

    pub fn id(&self) -> (r: AppId)
        ensures
            r == self.app_id,
    {
        self.app_id
    }

    pub fn name(&self) -> (r: String)
        ensures
            r@ == "Welcome"@,
    {
        "Welcome".to_owned()
    }

    /// Decides what becomes of an event; `workspace` tells whether the directory of the workspace
    /// exists.
    pub fn handle_event(&self, event: &Event, workspace: bool) -> (r: WelcomeStep)
        ensures
            r == welcome_step(*event, workspace),
    {
        match event {
            Event::Key(key) => match key.code {
                KeyCode::Char('f') => if workspace {
                    WelcomeStep::FilePicker
                } else {
                    WelcomeStep::NoWorkspace
                },
                KeyCode::Char('e') => WelcomeStep::FileExplorer,
                _ => WelcomeStep::Ignored,
            },
            _ => WelcomeStep::Ignored,
        }
    }

    /// Draws the page: the name of the project, its branch, and the keys.
    pub fn render(&self, area: Rect, project: &str, branch: Option<&str>, theme: &Theme) -> (r: Vec<
        DrawOp,
    >)
        requires
            area.x + area.width <= u16::MAX,
            area.y + area.height <= u16::MAX,
        ensures
            ({
                let lines = welcome_lines(
                    project@,
                    match branch {
                        Some(b) => Some(b@),
                        None => None,
                    },
                );
                let e = entries_of(*theme);
                draw_views(r@) == Seq::new(
                    lines_shown(area, lines.len() as int) as nat,
                    |i: int|
                        welcome_draw(
                            lines,
                            area,
                            style_of(e, "ui.text"@),
                            style_of(e, "ui.text.inactive"@),
                            i,
                        ),
                )
            }),
    {
        let text_style = theme.get("ui.text");
        let dim_style = theme.get("ui.text.inactive");
        let ghost branch_text = match branch {
            Some(b) => Some(b@),
            None => None,
        };
        let ghost views = welcome_lines(project@, branch_text);
        let mut lines: Vec<WelcomeLine> = Vec::new();
        push_line(&mut lines, false, project.to_owned());
        match branch {
            Some(b) => {
                let mut on = "on ".to_owned();
                on.append(b);
                push_line(&mut lines, true, on);
            },
            None => {},
        }
        push_line(&mut lines, true, String::new());
        push_line(&mut lines, true, "f   file picker".to_owned());
        push_line(&mut lines, true, "e   file explorer".to_owned());
        push_line(&mut lines, true, ":   command mode".to_owned());
        assert(line_views(lines@) =~= views);
        let total: u16 = lines.len() as u16;
        let start_y: u16 = area.y + area.height.saturating_sub(total) / 2;
        let mut out: Vec<DrawOp> = Vec::new();
        let mut i: usize = 0;
        assert(draw_views(out@) =~= Seq::empty());
        while i < lines.len() && (start_y + i as u16) < area.y + area.height
            invariant
                i <= lines@.len() <= 6,
                i <= area.height,
                lines@.len() == views.len(),
                line_views(lines@) == views,
                area.x + area.width <= u16::MAX,
                area.y + area.height <= u16::MAX,
                start_y == area.y + monus(area.height as int, lines@.len() as int) / 2,
                draw_views(out@) == Seq::new(
                    i as nat,
                    |k: int| welcome_draw(views, area, text_style, dim_style, k),
                ),
            decreases lines@.len() - i,
        {
            let y: u16 = start_y + i as u16;
            let style = if lines[i].dim {
                dim_style
            } else {
                text_style
            };
            let width: u16 = lines[i].text.as_str().len() as u16;
            let x: u16 = area.x + area.width.saturating_sub(width) / 2;
            let ghost before = draw_views(out@);
            proof {
                assert(line_views(lines@)[i as int] == (lines@[i as int].dim, lines@[i as int].text@));
            }
            push_draw(
                &mut out,
                DrawOp::Text { x, y, text: lines[i].text.clone(), width: usize::MAX, style },
            );
            assert(draw_views(out@) =~= Seq::new(
                (i + 1) as nat,
                |k: int| welcome_draw(views, area, text_style, dim_style, k),
            ));
            i = i + 1;
        }
        out
    }

    /// The page shows no cursor.
    pub fn cursor(&self) -> (r: (Option<Position>, CursorKind))
        ensures
            r == (None::<Position>, CursorKind::Hidden),
    {
        (None, CursorKind::Hidden)
    }

    /// The page has no file whose icon could be shown.
    pub fn icon_path(&self) -> (r: Option<String>)
        ensures
            r is None,
    {
        None
    }
}

/// The page begins with the name of the project, in the plain style, with the branch beneath it if there
/// is one; all else is dimmed, and the keys that it tells come last.
pub proof fn law_welcome_lines(project: Seq<char>, branch: Option<Seq<char>>, i: int)
    ensures
        ({
            let lines = welcome_lines(project, branch);
            let n = lines.len() as int;
            &&& lines[0] == (false, project)
            &&& 0 < i < n ==> lines[i].0
            &&& branch matches Some(b) ==> n == 6 && lines[1].1 == "on "@ + b
            &&& branch is None ==> n == 5
            &&& lines[n - 4].1 == Seq::<char>::empty()
            &&& lines[n - 3].1[0] == 'f'
            &&& lines[n - 2].1[0] == 'e'
            &&& lines[n - 1].1[0] == ':'
        }),
{
    reveal_strlit("f   file picker");
    reveal_strlit("e   file explorer");
    reveal_strlit(":   command mode");
}

/// A line that fits is drawn in the middle of the area, with as much room before it as behind it, or one
/// column less, and so are the lines together from top to bottom; each stands one row below the one
/// before it.
pub proof fn law_welcome_is_centred(
    lines: Seq<(bool, Seq<char>)>,
    area: Rect,
    text: Style,
    dim: Style,
    i: int,
)
    requires
        area.x + area.width <= u16::MAX,
        area.y + area.height <= u16::MAX,
        lines.len() <= area.height,
        0 <= i < lines.len(),
        encode_utf8(lines[i].1).len() <= area.width,
    ensures
        welcome_draw(lines, area, text, dim, i) matches DrawView::Text(x, y, s, width, style) && {
            let len = encode_utf8(lines[i].1).len();
            &&& s == lines[i].1
            &&& style == if lines[i].0 {
                dim
            } else {
                text
            }
            &&& area.x <= x
            &&& x + len <= area.x + area.width
            &&& 0 <= (area.x + area.width - (x + len)) - (x - area.x) <= 1
            &&& 0 <= (area.y + area.height - (y - i + lines.len())) - (y - i - area.y) <= 1
            &&& width >= len
        },
{
}

/// All lines are drawn if they fit, else as many as there are rows.
pub proof fn law_welcome_lines_shown(area: Rect, n: int)
    requires
        n >= 0,
    ensures
        0 <= lines_shown(area, n) <= n,
        lines_shown(area, n) <= area.height,
        lines_shown(area, n) == n || lines_shown(area, n) == area.height,
{
}

/// What becomes of an event on the page.
pub open spec fn welcome_step(event: Event, workspace: bool) -> WelcomeStep {
    match event {
        Event::Key(key) => if key.code == KeyCode::Char('f') {
            if workspace {
                WelcomeStep::FilePicker
            } else {
                WelcomeStep::NoWorkspace
            }
        } else if key.code == KeyCode::Char('e') {
            WelcomeStep::FileExplorer
        } else {
            WelcomeStep::Ignored
        },
        _ => WelcomeStep::Ignored,
    }
}

/// The keys that the page tells do what it says of them: the one of the file picker opens it if there is
/// a workspace, and that of the explorer always opens it. All else is left to others.
pub proof fn law_keys_of_the_page(event: Event, workspace: bool)
    ensures
        welcome_step(event, workspace) is FileExplorer <==> (event matches Event::Key(key) && key.code
            == KeyCode::Char('e')),
        welcome_step(event, workspace) is FilePicker <==> workspace && (event matches Event::Key(key)
            && key.code == KeyCode::Char('f')),
        welcome_step(event, workspace) is NoWorkspace <==> !workspace && (event matches Event::Key(key)
            && key.code == KeyCode::Char('f')),
        !(event is Key) ==> welcome_step(event, workspace) is Ignored,
{
}

} // verus!
