//! The view of changed files: a list of files and the hunks of the selected one.
use crate::app_id::AppId;
use crate::app_id::AppIds;
use crate::draw::draw_views;
use crate::draw::piece_views;
use crate::draw::push_draw;
use crate::draw::push_piece;
use crate::draw::DrawOp;
use crate::draw::DrawView;
use crate::draw::Piece;
use crate::file_diff::lemma_side_add;
use crate::file_diff::line_views;
use crate::file_diff::side;
use crate::file_diff::stripped;
use crate::file_diff::stripped_lines;
use crate::file_diff::DiffLineKind;
use crate::file_diff::FileDiff;
use crate::file_diff::FileDiffHunk;
use crate::file_diff::HunkView;
use crate::graphics::clipped_left;
use crate::graphics::min_int;
use crate::graphics::min_u16;
use crate::graphics::monus;
use crate::graphics::patched;
use crate::graphics::plain_style;
use crate::graphics::Color;
use crate::graphics::Rect;
use crate::graphics::RectExt;
use crate::graphics::Style;
use crate::icons::Icon;
use crate::input::Event;
use crate::input::EventResult;
use crate::input::KeyCode;
use crate::input::KeyEvent;
use crate::input::MouseButton;
use crate::input::MouseEvent;
use crate::input::MouseEventKind;
use crate::paths::file_name;
use crate::paths::law_entry_of_a_directory;
use crate::paths::name_in_path;
use crate::strings::decimal;
use crate::strings::decimal_digits;
use crate::strings::digits_value;
use crate::strings::law_decimal_reads_back;
use crate::surface::lemma_encode_add;
use crate::text::line_count;
use crate::text::line_start;
use crate::text::Rope;
use crate::theme::entries_of;
use crate::theme::nearest;
use crate::theme::style_of;
use crate::theme::Theme;
use vstd::prelude::*;
use vstd::string::*;
use vstd::utf8::*;

verus! {

/// What a view of changes shows; there is one view for each.
#[derive(Debug, Clone)]
pub enum DiffKey {
    LocalChanges,
    CommitDiff { hash: String },
}

/// A key, with its text.
pub enum DiffKeyView {
    LocalChanges,
    CommitDiff(Seq<char>),
}

impl View for DiffKey {
    type V = DiffKeyView;

    open spec fn view(&self) -> DiffKeyView {
        match self {
            DiffKey::LocalChanges => DiffKeyView::LocalChanges,
            DiffKey::CommitDiff { hash } => DiffKeyView::CommitDiff(hash@),
        }
    }
}

impl DiffKey {
    /// Whether two keys stand for the same changes.
    pub fn same(&self, other: &DiffKey) -> (r: bool)
        ensures
            r == (self@ == other@),
    {
        match (self, other) {
            (DiffKey::LocalChanges, DiffKey::LocalChanges) => true,
            (DiffKey::CommitDiff { hash: a }, DiffKey::CommitDiff { hash: b }) => *a == *b,
            _ => false,
        }
    }
}

/// A line of the display, with the numbers it has in the two versions.
#[derive(Debug)]
pub struct DisplayLine {
    pub kind: DiffLineKind,
    pub text: String,
    pub old_lineno: Option<usize>,
    pub new_lineno: Option<usize>,
}

/// A line of the display, with its text.
pub struct DisplayView {
    pub kind: DiffLineKind,
    pub text: Seq<char>,
    pub old_lineno: Option<int>,
    pub new_lineno: Option<int>,
}

/// An optional number.
pub open spec fn number(n: Option<usize>) -> Option<int> {
    match n {
        Some(n) => Some(n as int),
        None => None,
    }
}

impl View for DisplayLine {
    type V = DisplayView;

    open spec fn view(&self) -> DisplayView {
        DisplayView {
            kind: self.kind,
            text: self.text@,
            old_lineno: number(self.old_lineno),
            new_lineno: number(self.new_lineno),
        }
    }
}

/// The views of lines of the display.
pub open spec fn display_views(v: Seq<DisplayLine>) -> Seq<DisplayView> {
    v.map_values(|l: DisplayLine| l@)
}

/// A file with the lines that are displayed for it.
#[derive(Debug)]
pub struct DiffFileEntry {
    pub rel_path: String,
    pub change_kind: char,
    pub display_lines: Vec<DisplayLine>,
}

/// How the `k`-th line of a hunk is displayed.
pub open spec fn displayed(
    lines: Seq<(DiffLineKind, Seq<char>)>,
    old_start: int,
    new_start: int,
    k: int,
) -> DisplayView {
    let kind = lines[k].0;
    DisplayView {
        kind,
        text: lines[k].1,
        old_lineno: if kind == DiffLineKind::Context || kind == DiffLineKind::Deleted {
            Some(old_start + side(lines.take(k), DiffLineKind::Deleted).len())
        } else {
            None
        },
        new_lineno: if kind == DiffLineKind::Context || kind == DiffLineKind::Added {
            Some(new_start + side(lines.take(k), DiffLineKind::Added).len())
        } else {
            None
        },
    }
}

/// How a hunk is displayed.
pub open spec fn hunk_display(h: HunkView) -> Seq<DisplayView> {
    Seq::new(h.lines.len(), |k: int| displayed(h.lines, h.old_start, h.new_start, k))
}

/// How the first `n` hunks are displayed.
pub open spec fn hunks_display(hunks: Seq<FileDiffHunk>, n: int) -> Seq<DisplayView>
    decreases n,
{
    if n <= 0 {
        Seq::empty()
    } else {
        hunks_display(hunks, n - 1) + hunk_display(hunks[n - 1]@)
    }
}

/// The line numbers of a hunk can be counted, on each side over the lines of that side.
pub open spec fn numbers_fit(h: FileDiffHunk) -> bool {
    &&& h.old_start + side(line_views(h.lines@), DiffLineKind::Deleted).len() <= usize::MAX
    &&& h.new_start + side(line_views(h.lines@), DiffLineKind::Added).len() <= usize::MAX
}

/// The line numbers of all hunks can be counted.
pub open spec fn all_numbers_fit(hunks: Seq<FileDiffHunk>) -> bool {
    forall|i: int| 0 <= i < hunks.len() ==> numbers_fit(#[trigger] hunks[i])
}

fn push_hunk(out: &mut Vec<DisplayLine>, hunk: &FileDiffHunk)
    requires
        numbers_fit(*hunk),
    ensures
        display_views(final(out)@) == display_views(old(out)@) + hunk_display(hunk@),
{
    let ghost before = display_views(out@);
    let ghost lines = line_views(hunk.lines@);
    let mut old_line: usize = hunk.old_start;
    let mut new_line: usize = hunk.new_start;
    let mut k: usize = 0;
    proof {
        assert(lines.take(0) =~= Seq::empty());
        assert(before + hunk_display(hunk@).take(0) =~= before);
    }
    while k < hunk.lines.len()
        invariant
            k <= hunk.lines@.len(),
            lines == line_views(hunk.lines@),
            numbers_fit(*hunk),
            old_line == hunk.old_start + side(lines.take(k as int), DiffLineKind::Deleted).len(),
            new_line == hunk.new_start + side(lines.take(k as int), DiffLineKind::Added).len(),
            display_views(out@) == before + hunk_display(hunk@).take(k as int),
        decreases hunk.lines@.len() - k,
    {
        let kind = hunk.lines[k].0;
        let text = hunk.lines[k].1.clone();
        let ghost t = lines.take(k + 1);
        let ghost prev = out@;
        proof {
            assert(t.drop_last() =~= lines.take(k as int));
            assert(t.last() == (kind, text@));
            assert(t + lines.skip(k + 1) =~= lines);
            lemma_side_add(t, lines.skip(k + 1), DiffLineKind::Deleted);
            lemma_side_add(t, lines.skip(k + 1), DiffLineKind::Added);
        }
        let mut old_lineno: Option<usize> = None;
        let mut new_lineno: Option<usize> = None;
        match kind {
            DiffLineKind::HunkHeader => {},
            DiffLineKind::Context => {
                old_lineno = Some(old_line);
                new_lineno = Some(new_line);
                old_line = old_line + 1;
                new_line = new_line + 1;
            },
            DiffLineKind::Deleted => {
                old_lineno = Some(old_line);
                old_line = old_line + 1;
            },
            DiffLineKind::Added => {
                new_lineno = Some(new_line);
                new_line = new_line + 1;
            },
        }
        out.push(DisplayLine { kind, text, old_lineno, new_lineno });
        proof {
            let all = hunk_display(hunk@);
            assert(all.take(k + 1) =~= all.take(k as int).push(all[k as int]));
            assert(display_views(out@) =~= display_views(prev).push(out@.last()@));
            assert(display_views(out@) =~= before + all.take(k + 1));
        }
        k = k + 1;
    }
    assert(hunk_display(hunk@).take(lines.len() as int) =~= hunk_display(hunk@));
}

/// Lays the hunks of a file out line by line.
pub fn build_file_entry(fd: FileDiff) -> (r: DiffFileEntry)
    requires
        all_numbers_fit(fd.hunks@),
    ensures
        r.rel_path@ == fd.path@,
        r.change_kind == fd.change_kind,
        display_views(r.display_lines@) == hunks_display(fd.hunks@, fd.hunks@.len() as int),
{
    let mut display_lines: Vec<DisplayLine> = Vec::new();
    assert(display_views(display_lines@) =~= Seq::empty());
    let mut i: usize = 0;
    while i < fd.hunks.len()
        invariant
            i <= fd.hunks@.len(),
            all_numbers_fit(fd.hunks@),
            display_views(display_lines@) == hunks_display(fd.hunks@, i as int),
        decreases fd.hunks@.len() - i,
    {
        assert(numbers_fit(fd.hunks@[i as int]));
        push_hunk(&mut display_lines, &fd.hunks[i]);
        i = i + 1;
    }
    DiffFileEntry { rel_path: fd.path, change_kind: fd.change_kind, display_lines }
}

/// A hunk shows, of either version, the lines that its start and count name.
pub open spec fn shows(h: HunkView, o: Seq<Seq<char>>, n: Seq<Seq<char>>) -> bool {
    &&& side(h.lines, DiffLineKind::Deleted) == stripped_lines(
        o,
        h.old_start - 1,
        h.old_start - 1 + h.old_count,
    )
    &&& side(h.lines, DiffLineKind::Added) == stripped_lines(
        n,
        h.new_start - 1,
        h.new_start - 1 + h.new_count,
    )
}

proof fn lemma_side_at(lines: Seq<(DiffLineKind, Seq<char>)>, kind: DiffLineKind, k: int)
    requires
        0 <= k < lines.len(),
        lines[k].0 == kind || lines[k].0 == DiffLineKind::Context,
    ensures
        side(lines.take(k), kind).len() < side(lines, kind).len(),
        side(lines, kind)[side(lines.take(k), kind).len() as int] == lines[k].1,
{
    let t = lines.take(k + 1);
    assert(t.drop_last() =~= lines.take(k));
    assert(side(t, kind) == side(lines.take(k), kind).push(lines[k].1));
    lemma_side_add(t, lines.skip(k + 1), kind);
    assert(t + lines.skip(k + 1) =~= lines);
}

/// A line of the display is the line of its number in the old and in the new version.
pub proof fn law_display_numbers(h: HunkView, o: Seq<Seq<char>>, n: Seq<Seq<char>>, k: int)
    requires
        shows(h, o, n),
        0 <= k < h.lines.len(),
    ensures
        hunk_display(h)[k].old_lineno matches Some(m) ==> hunk_display(h)[k].text == stripped(
            o[m - 1],
        ),
        hunk_display(h)[k].new_lineno matches Some(m) ==> hunk_display(h)[k].text == stripped(
            n[m - 1],
        ),
{
    let kind = h.lines[k].0;
    if kind == DiffLineKind::Context || kind == DiffLineKind::Deleted {
        lemma_side_at(h.lines, DiffLineKind::Deleted, k);
    }
    if kind == DiffLineKind::Context || kind == DiffLineKind::Added {
        lemma_side_at(h.lines, DiffLineKind::Added, k);
    }
}

/// The view of changed files.
#[derive(Debug)]
pub struct DiffView {
    pub app_id: AppId,
    pub diff_key: DiffKey,
    pub cwd: String,
    pub files: Vec<DiffFileEntry>,
    pub selected_file: usize,
    pub scroll_offset: usize,
    /// The files for which there is a document to highlight.
    pub highlighted: Vec<usize>,
    /// Where the list of files was drawn last.
    pub sidebar_area: Rect,
}

/// What is displayed of a list of files.
pub open spec fn file_views(v: Seq<DiffFileEntry>) -> Seq<(Seq<char>, char, Seq<DisplayView>)> {
    v.map_values(
        |e: DiffFileEntry| (e.rel_path@, e.change_kind, display_views(e.display_lines@)),
    )
}

/// How changed files are displayed.
pub open spec fn entries_for(v: Seq<FileDiff>) -> Seq<(Seq<char>, char, Seq<DisplayView>)> {
    v.map_values(
        |f: FileDiff|
            (f.path@, f.change_kind, hunks_display(f.hunks@, f.hunks@.len() as int)),
    )
}

/// The line numbers of all files can be counted.
pub open spec fn files_fit(v: Seq<FileDiff>) -> bool {
    forall|i: int| 0 <= i < v.len() ==> all_numbers_fit(#[trigger] v[i].hunks@)
}

fn build_entries(file_diffs: Vec<FileDiff>) -> (r: Vec<DiffFileEntry>)
    requires
        files_fit(file_diffs@),
    ensures
        file_views(r@) == entries_for(file_diffs@),
{
    let mut out: Vec<DiffFileEntry> = Vec::new();
    let ghost all = file_diffs@;
    for fd in it: file_diffs
        invariant
            it.seq() == all,
            files_fit(all),
            out@.len() == it.index(),
            forall|k: int|
                0 <= k < it.index() ==> file_views(out@)[k] == #[trigger] entries_for(all)[k],
    {
        let ghost i = it.index() as int;
        let ghost prev = out@;
        assert(all[i] == fd);
        assert(all_numbers_fit(all[i].hunks@));
        out.push(build_file_entry(fd));
        assert forall|k: int| 0 <= k < i + 1 implies file_views(out@)[k]
            == #[trigger] entries_for(all)[k] by {
            if k < i {
                assert(file_views(prev)[k] == entries_for(all)[k]);
            }
        }
    }
    assert(file_views(out@) =~= entries_for(all));
    out
}

/// The first file from `i` on with a path, else the first file.
pub open spec fn file_with_path(files: Seq<DiffFileEntry>, path: Seq<char>, i: int) -> int
    decreases files.len() - i,
{
    if i < 0 || i >= files.len() {
        0
    } else if files[i].rel_path@ == path {
        i
    } else {
        file_with_path(files, path, i + 1)
    }
}

/// At most the last line.
pub open spec fn clamped(scroll: int, lines: int) -> int {
    min_int(scroll, monus(lines, 1))
}

/// Adds two numbers, staying within what can be counted.
pub open spec fn saturated(a: int) -> int {
    if a <= usize::MAX {
        a
    } else {
        usize::MAX as int
    }
}

/// The first seven bytes of a hash.
pub open spec fn short_hash(hash: Seq<char>) -> Seq<char> {
    let bytes = encode_utf8(hash);
    if (bytes.len() as usize) > 7 {
        decode_utf8(bytes.subrange(0, 7))
    } else {
        hash
    }
}

/// What a key makes of the selected file and the scroll offset; `None` if it means nothing.
pub open spec fn key_effect(
    files: Seq<DiffFileEntry>,
    selected: int,
    scroll: int,
    key: KeyEvent,
) -> Option<(int, int)> {
    let n = files.len() as int;
    let lines = files[selected].display_lines@.len() as int;
    let down = |by: int|
        if n == 0 {
            saturated(scroll + by)
        } else {
            clamped(saturated(scroll + by), lines)
        };
    match key.code {
        KeyCode::Char('n') => if !key.modifiers.control {
            None
        } else if n == 0 {
            Some((selected, scroll))
        } else {
            Some(((selected + 1) % n, 0))
        },
        KeyCode::Char('p') => if !key.modifiers.control {
            None
        } else if n == 0 {
            Some((selected, scroll))
        } else {
            Some(
                (
                    if selected == 0 {
                        n - 1
                    } else {
                        selected - 1
                    },
                    0,
                ),
            )
        },
        KeyCode::Char('j') => Some((selected, down(1))),
        KeyCode::Down => Some((selected, down(1))),
        KeyCode::Char('k') => Some((selected, monus(scroll, 1))),
        KeyCode::Up => Some((selected, monus(scroll, 1))),
        KeyCode::Char('d') => if key.modifiers.control {
            Some((selected, down(20)))
        } else {
            None
        },
        KeyCode::Char('u') => if key.modifiers.control {
            Some((selected, monus(scroll, 20)))
        } else {
            None
        },
        KeyCode::Char('g') => Some((selected, 0)),
        KeyCode::Char('G') => Some(
            (
                selected,
                if n == 0 {
                    scroll
                } else {
                    monus(lines, 1)
                },
            ),
        ),
        _ => None,
    }
}

/// Whether a mouse event happened over the list of files.
pub open spec fn over(mouse: MouseEvent, area: Rect) -> bool {
    area.y <= mouse.row < area.y + area.height && area.x <= mouse.column < area.x + area.width
}

/// What the mouse makes of the selected file and the scroll offset; `None` if it means nothing.
pub open spec fn mouse_effect(
    files: Seq<DiffFileEntry>,
    selected: int,
    scroll: int,
    sidebar: Rect,
    mouse: MouseEvent,
) -> Option<(int, int)> {
    let n = files.len() as int;
    let lines = files[selected].display_lines@.len() as int;
    match mouse.kind {
        MouseEventKind::Down(MouseButton::Left) => if over(mouse, sidebar) && mouse.row - sidebar.y
            < n {
            Some((mouse.row - sidebar.y, 0))
        } else {
            Some((selected, scroll))
        },
        MouseEventKind::ScrollUp => if over(mouse, sidebar) {
            Some((selected, scroll))
        } else {
            Some((selected, monus(scroll, 3)))
        },
        MouseEventKind::ScrollDown => if over(mouse, sidebar) {
            Some((selected, scroll))
        } else if n == 0 {
            Some((selected, saturated(scroll + 3)))
        } else {
            Some((selected, clamped(saturated(scroll + 3), lines)))
        },
        _ => None,
    }
}

impl DiffView {
    /// The selected file exists if there is any, and the list of files ends on the screen.
    pub open spec fn wf(self) -> bool {
        &&& self.selected_file < self.files@.len() || (self.files@.len() == 0 && self.selected_file
            == 0)
        &&& self.sidebar_area.x + self.sidebar_area.width <= u16::MAX
        &&& self.sidebar_area.y + self.sidebar_area.height <= u16::MAX
    }

    /// All but the selected file and the scroll offset is the same.
    pub open spec fn same_content(self, other: DiffView) -> bool {
        &&& self.app_id == other.app_id
        &&& self.diff_key == other.diff_key
        &&& self.cwd == other.cwd
        &&& self.files == other.files
        &&& self.highlighted == other.highlighted
        &&& self.sidebar_area == other.sidebar_area
    }

    pub fn new(
        ids: &mut AppIds,
        diff_key: DiffKey,
        cwd: String,
        file_diffs: Vec<FileDiff>,
    ) -> (r: Self)
        requires
            files_fit(file_diffs@),
        ensures
            r.wf(),
            r.app_id == AppId(old(ids)@),
            final(ids)@ == if old(ids)@ == u64::MAX {
                0
            } else {
                (old(ids)@ + 1) as u64
            },
            r.diff_key == diff_key,
            r.cwd == cwd,
            file_views(r.files@) == entries_for(file_diffs@),
            r.selected_file == 0,
            r.scroll_offset == 0,
            r.highlighted@ == Seq::<usize>::empty(),
            r.sidebar_area == (Rect { x: 0, y: 0, width: 0, height: 0 }),
    {
        let files = build_entries(file_diffs);
        DiffView {
            app_id: AppId::next(ids),
            diff_key,
            cwd,
            files,
            selected_file: 0,
            scroll_offset: 0,
            highlighted: Vec::new(),
            sidebar_area: Rect::default(),
        }
    }

    pub fn diff_key(&self) -> (r: &DiffKey)
        ensures
            *r == self.diff_key,
    {
        &self.diff_key
    }

    pub fn cwd(&self) -> (r: &String)
        ensures
            *r == self.cwd,
    {
        &self.cwd
    }

    /// Takes new changes; the selected file stays selected if it is among them.
    pub fn refresh(&mut self, file_diffs: Vec<FileDiff>)
        requires
            old(self).wf(),
            files_fit(file_diffs@),
        ensures
            final(self).wf(),
            file_views(final(self).files@) == entries_for(file_diffs@),
            final(self).selected_file == if old(self).files@.len() > 0 {
                file_with_path(
                    final(self).files@,
                    old(self).files@[old(self).selected_file as int].rel_path@,
                    0,
                )
            } else {
                0
            },
            final(self).scroll_offset == 0,
            final(self).highlighted@ == Seq::<usize>::empty(),
            final(self).app_id == old(self).app_id,
            final(self).diff_key == old(self).diff_key,
            final(self).cwd == old(self).cwd,
            final(self).sidebar_area == old(self).sidebar_area,
    {
        let path: Option<String> = if self.selected_file < self.files.len() {
            Some(self.files[self.selected_file].rel_path.clone())
        } else {
            None
        };
        self.files = build_entries(file_diffs);
        self.selected_file = match path {
            Some(p) => position_of(&self.files, &p),
            None => 0,
        };
        self.highlighted = Vec::new();
        self.scroll_offset = 0;
    }

    fn clamp_scroll(&mut self)
        requires
            old(self).wf(),
        ensures
            final(self).wf(),
            final(self).same_content(*old(self)),
            final(self).selected_file == old(self).selected_file,
            final(self).scroll_offset == if old(self).files@.len() == 0 {
                old(self).scroll_offset as int
            } else {
                clamped(
                    old(self).scroll_offset as int,
                    old(self).files@[old(self).selected_file as int].display_lines@.len() as int,
                )
            },
    {
        if self.selected_file < self.files.len() {
            let max: usize = self.files[self.selected_file].display_lines.len().saturating_sub(1);
            if self.scroll_offset > max {
                self.scroll_offset = max;
            }
        }
    }

    /// Ctrl-n and Ctrl-p change the file; j, k, Ctrl-d, Ctrl-u, g and G scroll.
    pub fn handle_key_event(&mut self, key: KeyEvent) -> (r: EventResult)
        requires
            old(self).wf(),
        ensures
            final(self).wf(),
            final(self).same_content(*old(self)),
            match key_effect(
                old(self).files@,
                old(self).selected_file as int,
                old(self).scroll_offset as int,
                key,
            ) {
                Some((selected, scroll)) => r == EventResult::Consumed && final(self).selected_file
                    == selected && final(self).scroll_offset == scroll,
                None => r == EventResult::Ignored && final(self).selected_file == old(
                    self).selected_file && final(self).scroll_offset == old(self).scroll_offset,
            },
    {
        match key.code {
            KeyCode::Char('n') => {
                if !key.modifiers.control {
                    return EventResult::Ignored;
                }
                if self.files.len() > 0 {
                    self.selected_file = (self.selected_file + 1) % self.files.len();
                    self.scroll_offset = 0;
                }
            },
            KeyCode::Char('p') => {
                if !key.modifiers.control {
                    return EventResult::Ignored;
                }
                if self.files.len() > 0 {
                    self.selected_file = if self.selected_file == 0 {
                        self.files.len() - 1
                    } else {
                        self.selected_file - 1
                    };
                    self.scroll_offset = 0;
                }
            },
            KeyCode::Char('j') | KeyCode::Down => {
                self.scroll_offset = self.scroll_offset.saturating_add(1);
                self.clamp_scroll();
            },
            KeyCode::Char('k') | KeyCode::Up => {
                self.scroll_offset = self.scroll_offset.saturating_sub(1);
            },
            KeyCode::Char('d') => {
                if !key.modifiers.control {
                    return EventResult::Ignored;
                }
                self.scroll_offset = self.scroll_offset.saturating_add(20);
                self.clamp_scroll();
            },
            KeyCode::Char('u') => {
                if !key.modifiers.control {
                    return EventResult::Ignored;
                }
                self.scroll_offset = self.scroll_offset.saturating_sub(20);
            },
            KeyCode::Char('g') => {
                self.scroll_offset = 0;
            },
            KeyCode::Char('G') => {
                if self.selected_file < self.files.len() {
                    let lines: usize = self.files[self.selected_file].display_lines.len();
                    self.scroll_offset = lines.saturating_sub(1);
                }
            },
            _ => {
                return EventResult::Ignored;
            },
        }
        EventResult::Consumed
    }

    /// A click in the list selects a file; the wheel scrolls beside the list.
    pub fn handle_mouse_event(&mut self, mouse: &MouseEvent) -> (r: EventResult)
        requires
            old(self).wf(),
        ensures
            final(self).wf(),
            final(self).same_content(*old(self)),
            match mouse_effect(
                old(self).files@,
                old(self).selected_file as int,
                old(self).scroll_offset as int,
                old(self).sidebar_area,
                *mouse,
            ) {
                Some((selected, scroll)) => r == EventResult::Consumed && final(self).selected_file
                    == selected && final(self).scroll_offset == scroll,
                None => r == EventResult::Ignored && final(self).selected_file == old(
                    self).selected_file && final(self).scroll_offset == old(self).scroll_offset,
            },
    {
        let sidebar = self.sidebar_area;
        let in_sidebar = mouse.row >= sidebar.y && mouse.row < sidebar.y + sidebar.height
            && mouse.column >= sidebar.x && mouse.column < sidebar.x + sidebar.width;
        match mouse.kind {
            MouseEventKind::Down(MouseButton::Left) => {
                if in_sidebar {
                    let clicked: usize = (mouse.row - sidebar.y) as usize;
                    if clicked < self.files.len() {
                        self.selected_file = clicked;
                        self.scroll_offset = 0;
                    }
                }
                EventResult::Consumed
            },
            MouseEventKind::ScrollUp => {
                if !in_sidebar {
                    self.scroll_offset = self.scroll_offset.saturating_sub(3);
                }
                EventResult::Consumed
            },
            MouseEventKind::ScrollDown => {
                if !in_sidebar {
                    self.scroll_offset = self.scroll_offset.saturating_add(3);
                    self.clamp_scroll();
                }
                EventResult::Consumed
            },
            _ => EventResult::Ignored,
        }
    }

    /// Takes an event; only keys and the mouse mean something.
    pub fn handle_event(&mut self, event: &Event) -> (r: EventResult)
        requires
            old(self).wf(),
        ensures
            final(self).wf(),
            final(self).same_content(*old(self)),
            ({
                let effect = match *event {
                    Event::Key(key) => key_effect(
                        old(self).files@,
                        old(self).selected_file as int,
                        old(self).scroll_offset as int,
                        key,
                    ),
                    Event::Mouse(mouse) => mouse_effect(
                        old(self).files@,
                        old(self).selected_file as int,
                        old(self).scroll_offset as int,
                        old(self).sidebar_area,
                        mouse,
                    ),
                    _ => None,
                };
                match effect {
                    Some((selected, scroll)) => r == EventResult::Consumed && final(
                        self).selected_file == selected && final(self).scroll_offset == scroll,
                    None => r == EventResult::Ignored && final(self).selected_file == old(
                        self).selected_file && final(self).scroll_offset == old(
                        self).scroll_offset,
                }
            }),
    {
        match event {
            Event::Key(key) => self.handle_key_event(*key),
            Event::Mouse(mouse) => self.handle_mouse_event(mouse),
            _ => EventResult::Ignored,
        }
    }

    /// The name of the tab. Of a longer hash it shows the first seven bytes, which must not end
    /// within a character.
    pub fn name(&self) -> (r: String)
        requires
            self.diff_key@ matches DiffKeyView::CommitDiff(hash) ==> (encode_utf8(hash).len() as usize) > 7
                ==> is_char_boundary(encode_utf8(hash), 7),
        ensures
            r@ == match self.diff_key@ {
                DiffKeyView::LocalChanges => "Local Changes"@,
                DiffKeyView::CommitDiff(hash) => "["@ + short_hash(hash) + "]"@,
            },
    {
        match &self.diff_key {
            DiffKey::LocalChanges => "Local Changes".to_owned(),
            DiffKey::CommitDiff { hash } => {
                let mut s = "[".to_owned();
                let text: &str = hash.as_str();
                if text.len() > 7 {
                    let (short, _) = text.split_at(7);
                    proof {
                        encode_utf8_decode_utf8(short@);
                    }
                    s.append(short);
                } else {
                    s.append(text);
                }
                s.append("]");
                s
            },
        }
    }

    /// The path whose icon the tab shows.
    pub fn icon_path(&self) -> (r: Option<String>)
        ensures
            match r {
                Some(p) => self.selected_file < self.files@.len() && p@
                    == self.files@[self.selected_file as int].rel_path@,
                None => self.selected_file >= self.files@.len(),
            },
    {
        if self.selected_file < self.files.len() {
            Some(self.files[self.selected_file].rel_path.clone())
        } else {
            None
        }
    }

    /// The text to highlight for the selected file, if there is none yet: all lines of the display,
    /// so that the lines of the document are those of the display.
    pub fn ensure_highlight_doc(&mut self) -> (r: Option<String>)
        requires
            old(self).wf(),
        ensures
            final(self).wf(),
            final(self).files == old(self).files,
            final(self).selected_file == old(self).selected_file,
            final(self).scroll_offset == old(self).scroll_offset,
            final(self).app_id == old(self).app_id,
            final(self).diff_key == old(self).diff_key,
            final(self).cwd == old(self).cwd,
            final(self).sidebar_area == old(self).sidebar_area,
            match r {
                Some(text) => {
                    &&& !old(self).highlighted@.contains(old(self).selected_file)
                    &&& old(self).files@.len() > 0
                    &&& text@ == document_text(
                        old(self).files@[old(self).selected_file as int].display_lines@,
                        old(self).files@[old(self).selected_file as int].display_lines@.len() as int,
                    )
                    &&& final(self).highlighted@ == old(self).highlighted@.push(
                        old(self).selected_file,
                    )
                },
                None => {
                    &&& old(self).highlighted@.contains(old(self).selected_file) || old(
                        self).files@.len() == 0
                    &&& final(self).highlighted@ == old(self).highlighted@
                },
            },
    {
        let idx: usize = self.selected_file;
        let mut i: usize = 0;
        while i < self.highlighted.len()
            invariant
                i <= self.highlighted@.len(),
                *self == *old(self),
                self.wf(),
                idx == self.selected_file,
                forall|k: int| 0 <= k < i ==> self.highlighted@[k] != idx,
            decreases self.highlighted@.len() - i,
        {
            if self.highlighted[i] == idx {
                return None;
            }
            i = i + 1;
        }
        if idx >= self.files.len() {
            return None;
        }
        let text = build_document_text(&self.files[idx].display_lines);
        self.highlighted.push(idx);
        Some(text)
    }
}

fn position_of(files: &Vec<DiffFileEntry>, path: &String) -> (r: usize)
    ensures
        r == file_with_path(files@, path@, 0),
        files@.len() > 0 ==> r < files@.len(),
        files@.len() == 0 ==> r == 0,
{
    let mut i: usize = 0;
    while i < files.len()
        invariant
            i <= files@.len(),
            file_with_path(files@, path@, 0) == file_with_path(files@, path@, i as int),
        decreases files@.len() - i,
    {
        if files[i].rel_path == *path {
            return i;
        }
        i = i + 1;
    }
    0
}

/// The first `n` lines of the display, each with a newline.
pub open spec fn document_text(lines: Seq<DisplayLine>, n: int) -> Seq<char>
    decreases n,
{
    if n <= 0 {
        Seq::empty()
    } else {
        document_text(lines, n - 1) + lines[n - 1].text@ + "\n"@
    }
}

fn build_document_text(lines: &Vec<DisplayLine>) -> (r: String)
    ensures
        r@ == document_text(lines@, lines@.len() as int),
{
    let mut s = String::new();
    let mut i: usize = 0;
    while i < lines.len()
        invariant
            i <= lines@.len(),
            s@ == document_text(lines@, i as int),
        decreases lines@.len() - i,
    {
        s.append(lines[i].text.as_str());
        s.append("\n");
        i = i + 1;
    }
    s
}

/// Scrolling with the keys never leaves the lines of the selected file.
pub proof fn law_keys_keep_scroll_in_range(
    files: Seq<DiffFileEntry>,
    selected: int,
    scroll: int,
    key: KeyEvent,
)
    requires
        0 <= selected < files.len(),
        0 <= scroll <= monus(files[selected].display_lines@.len() as int, 1),
    ensures
        key_effect(files, selected, scroll, key) matches Some((s, o)) ==> 0 <= s < files.len() && 0
            <= o <= monus(files[s].display_lines@.len() as int, 1),
{
}

/// A colour darkened for a background; only colours of known components can be.
pub fn dim_color(color: Color) -> (r: Color)
    ensures
        r == match color {
            Color::Rgb(r, g, b) => Color::Rgb(r / 5, g / 5, b / 5),
            _ => color,
        },
{
    match color {
        Color::Rgb(r, g, b) => Color::Rgb(r / 5, g / 5, b / 5),
        _ => color,
    }
}

/// The background for changed lines: the colour of the scope, darkened, else `fallback`.
pub open spec fn tint(theme: Theme, scope: Seq<char>, fallback: Color) -> Style {
    Style {
        bg: Some(
            match style_of(entries_of(theme), scope).fg {
                Some(Color::Rgb(r, g, b)) => Color::Rgb(r / 5, g / 5, b / 5),
                Some(c) => c,
                None => fallback,
            },
        ),
        ..plain_style()
    }
}

/// The styles of the displayed lines.
#[derive(Debug, Clone, Copy, PartialEq, Eq, Structural)]
pub struct DiffStyles {
    pub added_bg: Style,
    pub deleted_bg: Style,
    pub hunk_header: Style,
    pub linenr: Style,
}

/// The style of a scope, or else that of another one.
pub open spec fn style_or(theme: Theme, scope: Seq<char>, other: Seq<char>) -> Style {
    let e = entries_of(theme);
    match nearest(e, scope) {
        Some(i) => e[i as int].1,
        None => style_of(e, other),
    }
}

/// The styles that a theme has for the displayed lines.
pub open spec fn diff_styles(theme: Theme) -> DiffStyles {
    DiffStyles {
        added_bg: tint(theme, "diff.plus"@, Color::Rgb(0, 40, 0)),
        deleted_bg: tint(theme, "diff.minus"@, Color::Rgb(40, 0, 0)),
        hunk_header: style_or(theme, "ui.statusline.inactive"@, "ui.text.inactive"@),
        linenr: style_of(entries_of(theme), "ui.linenr"@),
    }
}

fn find_tint(theme: &Theme, scope: &str, fallback: Color) -> (r: Style)
    ensures
        r == tint(*theme, scope@, fallback),
{
    match theme.get(scope).fg {
        Some(fg) => Style::default().bg(dim_color(fg)),
        None => Style::default().bg(fallback),
    }
}

/// Where the line numbers and the text of the selected file are drawn, and with which styles;
/// `None` if there is nothing to draw or no room for it.
pub fn render_diff_content(view: &DiffView, area: Rect, theme: &Theme) -> (r: Option<
    (Rect, Rect, DiffStyles),
>)
    requires
        view.wf(),
    ensures
        r == if view.files@.len() > 0 && view.files@[view.selected_file as int].display_lines@.len()
            > 0 && clipped_left(area, 13).width > 0 {
            Some(
                (
                    Rect::spec_new(
                        area.x,
                        area.y,
                        min_int(13, area.width as int) as u16,
                        area.height,
                    ),
                    clipped_left(area, 13),
                    diff_styles(*theme),
                ),
            )
        } else {
            None
        },
{
    if view.selected_file >= view.files.len() {
        return None;
    }
    if view.files[view.selected_file].display_lines.len() == 0 {
        return None;
    }
    let hunk_header = match theme.try_get("ui.statusline.inactive") {
        Some(s) => s,
        None => theme.get("ui.text.inactive"),
    };
    let styles = DiffStyles {
        added_bg: find_tint(theme, "diff.plus", Color::Rgb(0, 40, 0)),
        deleted_bg: find_tint(theme, "diff.minus", Color::Rgb(40, 0, 0)),
        hunk_header,
        linenr: theme.get("ui.linenr"),
    };
    let gutter = Rect::new(area.x, area.y, min_u16(13, area.width), area.height);
    let content = area.clip_left(13);
    if content.width == 0 {
        return None;
    }
    Some((gutter, content, styles))
}

/// The background of a displayed line, if it has one of its own.
pub open spec fn line_background(styles: DiffStyles, kind: DiffLineKind) -> Option<Style> {
    match kind {
        DiffLineKind::Added => Some(styles.added_bg),
        DiffLineKind::Deleted => Some(styles.deleted_bg),
        DiffLineKind::HunkHeader => Some(styles.hunk_header),
        DiffLineKind::Context => None,
    }
}

/// Draws over the background of line `doc_line` of the selected file, which is shown in row `row`.
pub fn draw_line_background(
    entry: &DiffFileEntry,
    styles: DiffStyles,
    doc_line: usize,
    row: u16,
    viewport: Rect,
) -> (r: Option<DrawOp>)
    ensures
        ({
            let lines = entry.display_lines@;
            let background = if doc_line < lines.len() {
                line_background(styles, lines[doc_line as int].kind)
            } else {
                None
            };
            match background {
                Some(style) => r matches Some(op) && op@ == DrawView::Restyle(
                    Rect::spec_new(viewport.x, row, viewport.width, 1),
                    style,
                ),
                None => r is None,
            }
        }),
{
    if doc_line >= entry.display_lines.len() {
        return None;
    }
    let style = match entry.display_lines[doc_line].kind {
        DiffLineKind::Added => styles.added_bg,
        DiffLineKind::Deleted => styles.deleted_bg,
        DiffLineKind::HunkHeader => styles.hunk_header,
        DiffLineKind::Context => {
            return None;
        },
    };
    Some(DrawOp::Restyle { area: Rect::new(viewport.x, row, viewport.width, 1), style })
}

/// The position at which the text of the selected file is shown first.
pub fn scroll_anchor(text: &Rope, scroll_line: usize) -> (r: usize)
    requires
        text@.len() < usize::MAX,
    ensures
        r == if scroll_line < line_count(text@) {
            line_start(text@, scroll_line as int)
        } else {
            text@.len() as int
        },
{
    if scroll_line < text.len_lines() {
        text.line_to_char(scroll_line)
    } else {
        text.len_chars()
    }
}

/// `n` spaces.
pub open spec fn spaces(n: int) -> Seq<char> {
    Seq::new(
        if n > 0 {
            n as nat
        } else {
            0
        },
        |i: int| ' ',
    )
}

/// A number at the right of five columns.
pub open spec fn number_right(n: int) -> Seq<char> {
    let d = decimal_digits(n as nat);
    spaces(5 - d.len()) + d
}

/// A number at the left of five columns.
pub open spec fn number_left(n: int) -> Seq<char> {
    let d = decimal_digits(n as nat);
    d + spaces(5 - d.len())
}

/// The line numbers beside a displayed line.
pub open spec fn gutter_text(old_lineno: Option<int>, new_lineno: Option<int>) -> Seq<char> {
    (match old_lineno {
        Some(n) => number_right(n),
        None => "     "@,
    }) + " "@ + (match new_lineno {
        Some(n) => number_left(n),
        None => "     "@,
    }) + " "@
}

fn push_spaces(s: &mut String, count: usize)
    ensures
        final(s)@ == old(s)@ + spaces(count as int),
{
    let ghost before = s@;
    let mut i: usize = 0;
    assert(before + spaces(0) =~= before);
    while i < count
        invariant
            i <= count,
            s@ == before + spaces(i as int),
        decreases count - i,
    {
        s.push(' ');
        i = i + 1;
        assert(s@ =~= before + spaces(i as int));
    }
}

fn gutter_line(dl: &DisplayLine) -> (r: String)
    ensures
        r@ == gutter_text(number(dl.old_lineno), number(dl.new_lineno)),
{
    let mut s = String::new();
    match dl.old_lineno {
        Some(n) => {
            let d = decimal(n as u64);
            let len: usize = d.as_str().unicode_len();
            if len < 5 {
                push_spaces(&mut s, 5 - len);
            } else {
                assert(spaces(5 - len) =~= Seq::empty());
            }
            s.append(d.as_str());
            assert(s@ =~= number_right(n as int));
        },
        None => {
            s.append("     ");
            assert(s@ =~= "     "@);
        },
    }
    let ghost old_part = s@;
    s.append(" ");
    match dl.new_lineno {
        Some(n) => {
            let d = decimal(n as u64);
            let len: usize = d.as_str().unicode_len();
            s.append(d.as_str());
            if len < 5 {
                push_spaces(&mut s, 5 - len);
            } else {
                assert(spaces(5 - len) =~= Seq::empty());
            }
            assert(s@ =~= old_part + " "@ + number_left(n as int));
        },
        None => {
            s.append("     ");
        },
    }
    s.append(" ");
    s
}

/// How the line numbers beside the `i`-th displayed line are drawn.
pub open spec fn gutter_draw(
    lines: Seq<DisplayLine>,
    gutter: Rect,
    styles: DiffStyles,
    i: int,
    y: u16,
) -> DrawView {
    if lines[i].kind == DiffLineKind::HunkHeader {
        DrawView::Blank(gutter.x, y, (gutter.x + gutter.width) as u16, styles.hunk_header)
    } else {
        DrawView::Text(
            gutter.x,
            y,
            gutter_text(number(lines[i].old_lineno), number(lines[i].new_lineno)),
            gutter.width as usize,
            styles.linenr,
        )
    }
}

/// How many lines can be seen from `scroll` on.
pub open spec fn lines_in_view(lines: int, scroll: int, height: int) -> int {
    min_int(monus(lines, scroll), height)
}

/// Draws the line numbers beside the lines that can be seen; headers have none.
pub fn render_with_syntax(
    entry: &DiffFileEntry,
    scroll_line: usize,
    content: Rect,
    gutter: Rect,
    styles: DiffStyles,
) -> (r: Vec<DrawOp>)
    requires
        gutter.y + content.height <= u16::MAX,
        gutter.x + gutter.width <= u16::MAX,
    ensures
        draw_views(r@) == Seq::new(
            lines_in_view(
                entry.display_lines@.len() as int,
                scroll_line as int,
                content.height as int,
            ) as nat,
            |k: int|
                gutter_draw(
                    entry.display_lines@,
                    gutter,
                    styles,
                    scroll_line + k,
                    (gutter.y + k) as u16,
                ),
        ),
{
    let mut out: Vec<DrawOp> = Vec::new();
    let mut i: usize = scroll_line;
    let mut visual_y: u16 = 0;
    while i < entry.display_lines.len() && visual_y < content.height
        invariant
            gutter.y + content.height <= u16::MAX,
            gutter.x + gutter.width <= u16::MAX,
            visual_y <= content.height,
            i == scroll_line + visual_y,
            i <= entry.display_lines@.len() || i == scroll_line,
            draw_views(out@) == Seq::new(
                visual_y as nat,
                |k: int|
                    gutter_draw(
                        entry.display_lines@,
                        gutter,
                        styles,
                        scroll_line + k,
                        (gutter.y + k) as u16,
                    ),
            ),
        decreases entry.display_lines@.len() - i,
    {
        let dl = &entry.display_lines[i];
        let y: u16 = gutter.y + visual_y;
        let ghost before = draw_views(out@);
        if dl.kind == DiffLineKind::HunkHeader {
            push_draw(
                &mut out,
                DrawOp::Blank { x: gutter.x, y, end: gutter.x + gutter.width, style: styles.hunk_header },
            );
        } else {
            push_draw(
                &mut out,
                DrawOp::Text {
                    x: gutter.x,
                    y,
                    text: gutter_line(dl),
                    width: gutter.width as usize,
                    style: styles.linenr,
                },
            );
        }
        visual_y = visual_y + 1;
        i = i + 1;
        assert(draw_views(out@) =~= Seq::new(
            visual_y as nat,
            |k: int|
                gutter_draw(
                    entry.display_lines@,
                    gutter,
                    styles,
                    scroll_line + k,
                    (gutter.y + k) as u16,
                ),
        ));
    }
    out
}

/// The name that is shown for a file: the last part of its path, or all of the path if it does not
/// end with a name.
pub open spec fn base_name(path: Seq<char>) -> Seq<char> {
    match name_in_path(path) {
        Some(name) => name,
        None => path,
    }
}

/// The name that is shown for the file at a path.
pub fn file_name_of(path: &str) -> (r: String)
    ensures
        r@ == base_name(path@),
{
    match file_name(path) {
        Some(name) => name,
        None => path.to_owned(),
    }
}

/// The styles of the list of files.
#[derive(Debug, Clone, Copy, PartialEq, Eq, Structural)]
pub struct SidebarStyles {
    pub active: Style,
    pub inactive: Style,
    pub added: Style,
    pub deleted: Style,
    pub modified: Style,
}

/// The styles that a theme has for the list of files.
pub open spec fn sidebar_styles(theme: Theme) -> SidebarStyles {
    SidebarStyles {
        active: style_or(theme, "ui.bufferline.active"@, "ui.statusline.active"@),
        inactive: style_or(theme, "ui.bufferline"@, "ui.statusline.inactive"@),
        added: style_of(entries_of(theme), "diff.plus"@),
        deleted: style_of(entries_of(theme), "diff.minus"@),
        modified: style_of(entries_of(theme), "diff.delta"@),
    }
}

/// The mark of a change and its style.
pub open spec fn change_mark(kind: char, styles: SidebarStyles, base: Style) -> (Seq<char>, Style) {
    if kind == 'A' {
        ("A "@, styles.added)
    } else if kind == 'D' {
        ("D "@, styles.deleted)
    } else if kind == 'M' {
        ("M "@, styles.modified)
    } else if kind == 'R' {
        ("R "@, styles.modified)
    } else {
        ("? "@, base)
    }
}

/// How the `i`-th file of the list is drawn: the mark of its change, its icon if there are icons,
/// and its name.
pub open spec fn sidebar_pieces(
    files: Seq<DiffFileEntry>,
    selected: int,
    styles: SidebarStyles,
    icons: Option<Seq<Icon>>,
    i: int,
) -> Seq<(Seq<char>, Style)> {
    let base = if i == selected {
        styles.active
    } else {
        styles.inactive
    };
    let mark = change_mark(files[i].change_kind, styles, base);
    seq![(mark.0, patched(mark.1, base))] + (match icons {
        Some(v) => seq![
            (seq![v[i].icon] + " "@, Style { fg: Some(v[i].color), ..base }),
        ],
        None => Seq::empty(),
    }) + seq![(base_name(files[i].rel_path@), base)]
}

/// How the first `n` files of the list are drawn.
pub open spec fn sidebar_draws(
    files: Seq<DiffFileEntry>,
    selected: int,
    styles: SidebarStyles,
    icons: Option<Seq<Icon>>,
    area: Rect,
    n: int,
) -> Seq<DrawView>
    decreases n,
{
    if n <= 0 {
        Seq::empty()
    } else {
        let y = (area.y + n - 1) as u16;
        let end = (area.x + area.width) as u16;
        let base = if n - 1 == selected {
            styles.active
        } else {
            styles.inactive
        };
        sidebar_draws(files, selected, styles, icons, area, n - 1).push(
            DrawView::Blank(area.x, y, end, base),
        ).push(
            DrawView::Row(
                area.x,
                y,
                end,
                sidebar_pieces(files, selected, styles, icons, n - 1),
            ),
        )
    }
}

/// Draws the list of files; `icons` holds an icon for each file if icons are shown.
pub fn render_sidebar(view: &DiffView, area: Rect, theme: &Theme, icons: Option<&Vec<Icon>>) -> (r:
    Vec<DrawOp>)
    requires
        area.x + area.width <= u16::MAX,
        area.y + area.height <= u16::MAX,
        icons matches Some(v) ==> v@.len() == view.files@.len(),
    ensures
        draw_views(r@) == sidebar_draws(
            view.files@,
            view.selected_file as int,
            sidebar_styles(*theme),
            match icons {
                Some(v) => Some(v@),
                None => None,
            },
            area,
            min_int(view.files@.len() as int, area.height as int),
        ),
{
    let active = match theme.try_get("ui.bufferline.active") {
        Some(s) => s,
        None => theme.get("ui.statusline.active"),
    };
    let inactive = match theme.try_get("ui.bufferline") {
        Some(s) => s,
        None => theme.get("ui.statusline.inactive"),
    };
    let styles = SidebarStyles {
        active,
        inactive,
        added: theme.get("diff.plus"),
        deleted: theme.get("diff.minus"),
        modified: theme.get("diff.delta"),
    };
    let ghost icon_seq = match icons {
        Some(v) => Some(v@),
        None => None,
    };
    let end: u16 = area.x + area.width;
    let mut out: Vec<DrawOp> = Vec::new();
    assert(draw_views(out@) =~= Seq::empty());
    let mut i: usize = 0;
    while i < view.files.len() && i < area.height as usize
        invariant
            area.y + area.height <= u16::MAX,
            end == area.x + area.width,
            i <= view.files@.len(),
            i <= area.height,
            styles == sidebar_styles(*theme),
            icons matches Some(v) ==> v@.len() == view.files@.len(),
            icon_seq == match icons {
                Some(v) => Some(v@),
                None => None,
            },
            draw_views(out@) == sidebar_draws(
                view.files@,
                view.selected_file as int,
                styles,
                icon_seq,
                area,
                i as int,
            ),
        decreases view.files@.len() - i,
    {
        let entry = &view.files[i];
        let y: u16 = area.y + i as u16;
        let base = if i == view.selected_file {
            styles.active
        } else {
            styles.inactive
        };
        let (mark, mark_style) = if entry.change_kind == 'A' {
            ("A ", styles.added)
        } else if entry.change_kind == 'D' {
            ("D ", styles.deleted)
        } else if entry.change_kind == 'M' {
            ("M ", styles.modified)
        } else if entry.change_kind == 'R' {
            ("R ", styles.modified)
        } else {
            ("? ", base)
        };
        let mut pieces: Vec<Piece> = Vec::new();
        push_piece(&mut pieces, mark.to_owned(), mark_style.patch(base));
        match icons {
            Some(v) => {
                let mut s = String::new();
                s.push(v[i].icon);
                assert(s@ =~= seq![v@[i as int].icon]);
                s.append(" ");
                push_piece(&mut pieces, s, base.fg(v[i].color));
            },
            None => {},
        }
        push_piece(&mut pieces, file_name_of(entry.rel_path.as_str()), base);
        assert(piece_views(pieces@) =~= sidebar_pieces(
            view.files@,
            view.selected_file as int,
            styles,
            icon_seq,
            i as int,
        ));
        push_draw(&mut out, DrawOp::Blank { x: area.x, y, end, style: base });
        push_draw(&mut out, DrawOp::Row { x: area.x, y, end, pieces });
        i = i + 1;
    }
    out
}

/// The parts of the view.
#[derive(Debug, Clone, Copy, PartialEq, Eq, Structural)]
pub struct DiffLayout {
    pub sidebar: Rect,
    pub separator: u16,
    pub content: Rect,
}

/// How wide the list of files is: a third of the view, but between 15 and 30 columns.
pub open spec fn sidebar_width(width: u16) -> u16 {
    if width / 3 < 15 {
        15
    } else if width / 3 < 30 {
        width / 3
    } else {
        30
    }
}

/// Divides the view into the list of files, a line, and the hunks; remembers where the list is.
pub fn layout(view: &mut DiffView, area: Rect) -> (r: DiffLayout)
    requires
        old(view).wf(),
        area.x + 31 <= u16::MAX,
    ensures
        r == (DiffLayout {
            sidebar: Rect::spec_new(area.x, area.y, sidebar_width(area.width), area.height),
            separator: (area.x + sidebar_width(area.width)) as u16,
            content: Rect::spec_new(
                (area.x + sidebar_width(area.width) + 1) as u16,
                area.y,
                monus(area.width as int, sidebar_width(area.width) + 1) as u16,
                area.height,
            ),
        }),
        *final(view) == (DiffView { sidebar_area: r.sidebar, ..*old(view) }),
        final(view).wf(),
{
    let third: u16 = area.width / 3;
    let width: u16 = if third < 15 {
        15
    } else if third < 30 {
        third
    } else {
        30
    };
    let sidebar = Rect::new(area.x, area.y, width, area.height);
    let content = Rect::new(
        area.x + width + 1,
        area.y,
        area.width.saturating_sub(width + 1),
        area.height,
    );
    view.sidebar_area = sidebar;
    DiffLayout { sidebar, separator: area.x + width, content }
}

/// The line between the list and the hunks, for the first `n` rows.
pub open spec fn separator_draws(x: u16, area: Rect, style: Style, n: int) -> Seq<DrawView>
    decreases n,
{
    if n <= 0 {
        Seq::empty()
    } else {
        separator_draws(x, area, style, n - 1).push(
            DrawView::Text(x, (area.y + n - 1) as u16, "│"@, 1, style),
        )
    }
}

/// Draws what does not depend on the files: the background, and either the line between list and
/// hunks at column `separator`, or that there are no changes.
pub fn render_frame(view: &DiffView, area: Rect, separator: u16, theme: &Theme) -> (r: Vec<DrawOp>)
    requires
        area.x + area.width <= u16::MAX,
        area.y + area.height <= u16::MAX,
    ensures
        ({
            let e = entries_of(*theme);
            draw_views(r@) == seq![DrawView::Restyle(area, style_of(e, "ui.background"@))] + (
            if view.files@.len() == 0 {
                seq![
                    DrawView::Text(
                        (area.x + monus(area.width as int, 10) / 2) as u16,
                        (area.y + area.height / 2) as u16,
                        "No changes"@,
                        usize::MAX,
                        style_of(e, "ui.text.inactive"@),
                    ),
                ]
            } else {
                separator_draws(
                    separator,
                    area,
                    style_or(*theme, "ui.bufferline"@, "ui.statusline.inactive"@),
                    area.height as int,
                )
            })
        }),
{
    let mut out: Vec<DrawOp> = Vec::new();
    let background = theme.get("ui.background");
    push_draw(&mut out, DrawOp::Restyle { area, style: background });
    let ghost first = draw_views(out@);
    assert(first =~= seq![DrawView::Restyle(area, background)]);
    if view.files.len() == 0 {
        let style = theme.get("ui.text.inactive");
        push_draw(
            &mut out,
            DrawOp::Text {
                x: area.x + area.width.saturating_sub(10) / 2,
                y: area.y + area.height / 2,
                text: "No changes".to_owned(),
                width: usize::MAX,
                style,
            },
        );
        assert(draw_views(out@) =~= first + seq![out@.last()@]);
        return out;
    }
    let style = match theme.try_get("ui.bufferline") {
        Some(s) => s,
        None => theme.get("ui.statusline.inactive"),
    };
    let mut i: u16 = 0;
    assert(first + separator_draws(separator, area, style, 0) =~= first);
    while i < area.height
        invariant
            i <= area.height,
            area.y + area.height <= u16::MAX,
            draw_views(out@) == first + separator_draws(separator, area, style, i as int),
        decreases area.height - i,
    {
        push_draw(
            &mut out,
            DrawOp::Text { x: separator, y: area.y + i, text: "│".to_owned(), width: 1, style },
        );
        i = i + 1;
        assert(draw_views(out@) =~= first + separator_draws(separator, area, style, i as int));
    }
    out
}

/// A line that was added has a number in the new version only, one that was deleted in the old one
/// only, and one that stayed in both; the line itself is shown as it is.
pub proof fn law_numbers_of_a_line(h: HunkView, k: int)
    requires
        0 <= k < h.lines.len(),
    ensures
        hunk_display(h).len() == h.lines.len(),
        hunk_display(h)[k].kind == h.lines[k].0,
        hunk_display(h)[k].text == h.lines[k].1,
        h.lines[k].0 == DiffLineKind::Added ==> hunk_display(h)[k].old_lineno is None && hunk_display(
            h,
        )[k].new_lineno is Some,
        h.lines[k].0 == DiffLineKind::Deleted ==> hunk_display(h)[k].old_lineno is Some && hunk_display(
            h,
        )[k].new_lineno is None,
        h.lines[k].0 == DiffLineKind::Context ==> hunk_display(h)[k].old_lineno is Some && hunk_display(
            h,
        )[k].new_lineno is Some,
        h.lines[k].0 == DiffLineKind::HunkHeader ==> hunk_display(h)[k].old_lineno is None
            && hunk_display(h)[k].new_lineno is None,
{
}

/// All hunks are displayed, one behind the other.
pub proof fn law_hunks_follow_each_other(hunks: Seq<FileDiffHunk>, n: int, k: int)
    requires
        0 <= k < n <= hunks.len(),
    ensures
        hunk_display(hunks[k]@) == hunks_display(hunks, n).subrange(
            hunks_display(hunks, k).len() as int,
            hunks_display(hunks, k + 1).len() as int,
        ),
        hunks_display(hunks, k + 1).is_prefix_of(hunks_display(hunks, n)),
        hunks_display(hunks, k + 1).len() == hunks_display(hunks, k).len() + hunks[k].lines@.len(),
    decreases n,
{
    let all = hunks_display(hunks, n);
    let before = hunks_display(hunks, k);
    let with = hunks_display(hunks, k + 1);
    assert(with == before + hunk_display(hunks[k]@));
    if k < n - 1 {
        law_hunks_follow_each_other(hunks, n - 1, k);
        let shorter = hunks_display(hunks, n - 1);
        assert(all == shorter + hunk_display(hunks[n - 1]@));
        assert(shorter.is_prefix_of(all));
        assert(all.subrange(before.len() as int, with.len() as int) =~= shorter.subrange(
            before.len() as int,
            with.len() as int,
        ));
    } else {
        assert(all.subrange(before.len() as int, with.len() as int) =~= hunk_display(hunks[k]@));
    }
}

/// After the changes were computed again the file that was selected is selected still, at its new
/// place; the first one is if it is gone.
pub proof fn law_selected_file_is_found_again(
    files: Seq<DiffFileEntry>,
    path: Seq<char>,
    i: int,
    k: int,
)
    requires
        0 <= i <= k <= files.len(),
        forall|m: int| i <= m < k ==> (#[trigger] files[m]).rel_path@ != path,
    ensures
        k < files.len() && files[k].rel_path@ == path ==> file_with_path(files, path, i) == k,
        k == files.len() ==> file_with_path(files, path, i) == 0,
    decreases k - i,
{
    if i < k {
        law_selected_file_is_found_again(files, path, i + 1, k);
    }
}

/// The hash of a commit is shown by its first seven characters.
pub proof fn law_hash_is_shortened(hash: Seq<char>)
    requires
        is_ascii_chars(hash),
        hash.len() <= usize::MAX,
    ensures
        hash.len() <= 7 ==> short_hash(hash) == hash,
        hash.len() > 7 ==> short_hash(hash) == hash.take(7),
{
    is_ascii_chars_encode_utf8(hash);
    if hash.len() > 7 {
        let head = hash.take(7);
        let rest = hash.skip(7);
        assert(hash =~= head + rest);
        is_ascii_chars_concat(hash, head, rest);
        is_ascii_chars_encode_utf8(head);
        lemma_encode_add(head, rest);
        assert(encode_utf8(hash).subrange(0, 7) =~= encode_utf8(head));
        encode_utf8_decode_utf8(head);
    }
}

/// Going to the next file and back, or back and to the next one, ends at the same file, also around the
/// end of the list; the lines of a file are shown from its top when it is gone to.
pub proof fn law_next_and_previous_file(
    files: Seq<DiffFileEntry>,
    selected: int,
    scroll: int,
    next: KeyEvent,
    previous: KeyEvent,
)
    requires
        0 <= selected < files.len(),
        next.code == KeyCode::Char('n'),
        previous.code == KeyCode::Char('p'),
        next.modifiers.control,
        previous.modifiers.control,
    ensures
        ({
            let after = key_effect(files, selected, scroll, next)->0;
            let before = key_effect(files, selected, scroll, previous)->0;
            &&& key_effect(files, selected, scroll, next) is Some
            &&& key_effect(files, selected, scroll, previous) is Some
            &&& after.1 == 0
            &&& before.1 == 0
            &&& selected + 1 < files.len() ==> after.0 == selected + 1
            &&& selected + 1 == files.len() ==> after.0 == 0
            &&& key_effect(files, after.0, after.1, previous) == Some((selected, 0int))
            &&& key_effect(files, before.0, before.1, next) == Some((selected, 0int))
        }),
{
    let n = files.len() as int;
    if selected + 1 < n {
        vstd::arithmetic::div_mod::lemma_small_mod((selected + 1) as nat, n as nat);
    } else {
        vstd::arithmetic::div_mod::lemma_mod_self_0(n);
    }
    vstd::arithmetic::div_mod::lemma_small_mod(selected as nat, n as nat);
    vstd::arithmetic::div_mod::lemma_mod_self_0(n);
}

/// Keys that scroll keep the selected file. Down and up go one line, half a page goes twenty, each back
/// what the other goes as far as there are lines; the ends are reached at once.
pub proof fn law_keys_scroll(files: Seq<DiffFileEntry>, selected: int, scroll: int, key: KeyEvent)
    requires
        0 <= selected < files.len(),
        0 <= scroll < files[selected].display_lines@.len() <= usize::MAX - 20,
    ensures
        ({
            let last = files[selected].display_lines@.len() - 1;
            let effect = key_effect(files, selected, scroll, key);
            let control = key.modifiers.control;
            &&& key.code == KeyCode::Char('j') || key.code == KeyCode::Down ==> effect == Some(
                (selected, if scroll < last {
                    scroll + 1
                } else {
                    last
                }),
            )
            &&& key.code == KeyCode::Char('k') || key.code == KeyCode::Up ==> effect == Some(
                (selected, if scroll > 0 {
                    scroll - 1
                } else {
                    0
                }),
            )
            &&& key.code == KeyCode::Char('d') && control ==> effect == Some(
                (selected, if scroll + 20 <= last {
                    scroll + 20
                } else {
                    last
                }),
            )
            &&& key.code == KeyCode::Char('u') && control ==> effect == Some(
                (selected, if scroll >= 20 {
                    scroll - 20
                } else {
                    0
                }),
            )
            &&& key.code == KeyCode::Char('g') ==> effect == Some((selected, 0int))
            &&& key.code == KeyCode::Char('G') ==> effect == Some((selected, last as int))
            &&& !control && (key.code == KeyCode::Char('n') || key.code == KeyCode::Char('p') || key.code
                == KeyCode::Char('d') || key.code == KeyCode::Char('u')) ==> effect is None
        }),
{
}

/// Other keys do nothing.
pub proof fn law_other_keys_do_nothing(
    files: Seq<DiffFileEntry>,
    selected: int,
    scroll: int,
    key: KeyEvent,
)
    requires
        key.code != KeyCode::Down,
        key.code != KeyCode::Up,
        key.code matches KeyCode::Char(c) ==> c != 'n' && c != 'p' && c != 'j' && c != 'k' && c != 'd' && c
            != 'u' && c != 'g' && c != 'G',
    ensures
        key_effect(files, selected, scroll, key) is None,
{
}

/// A click on a file of the list selects it and shows it from its top; a click anywhere else changes
/// nothing.
pub proof fn law_click_selects_a_file(
    files: Seq<DiffFileEntry>,
    selected: int,
    scroll: int,
    sidebar: Rect,
    mouse: MouseEvent,
    k: int,
)
    requires
        mouse.kind == MouseEventKind::Down(MouseButton::Left),
    ensures
        0 <= k < files.len() && k < sidebar.height && mouse.row == sidebar.y + k && sidebar.x
            <= mouse.column < sidebar.x + sidebar.width ==> mouse_effect(
            files,
            selected,
            scroll,
            sidebar,
            mouse,
        ) == Some((k, 0int)),
        !(sidebar.x <= mouse.column < sidebar.x + sidebar.width) || mouse.row < sidebar.y || mouse.row
            >= sidebar.y + sidebar.height || mouse.row - sidebar.y >= files.len() ==> mouse_effect(
            files,
            selected,
            scroll,
            sidebar,
            mouse,
        ) == Some((selected, scroll)),
{
}

/// The wheel scrolls three lines either way, but not past the ends, and not over the list of files.
pub proof fn law_wheel_scrolls_lines(
    files: Seq<DiffFileEntry>,
    selected: int,
    scroll: int,
    sidebar: Rect,
    mouse: MouseEvent,
)
    requires
        0 <= selected < files.len(),
        0 <= scroll < files[selected].display_lines@.len() <= usize::MAX - 3,
    ensures
        ({
            let last = files[selected].display_lines@.len() - 1;
            let effect = mouse_effect(files, selected, scroll, sidebar, mouse);
            let wheel = mouse.kind == MouseEventKind::ScrollUp || mouse.kind == MouseEventKind::ScrollDown;
            &&& wheel && over(mouse, sidebar) ==> effect == Some((selected, scroll))
            &&& mouse.kind == MouseEventKind::ScrollUp && !over(mouse, sidebar) ==> effect == Some(
                (selected, if scroll >= 3 {
                    scroll - 3
                } else {
                    0
                }),
            )
            &&& mouse.kind == MouseEventKind::ScrollDown && !over(mouse, sidebar) ==> effect == Some(
                (selected, if scroll + 3 <= last {
                    scroll + 3
                } else {
                    last
                }),
            )
            &&& !wheel && mouse.kind != MouseEventKind::Down(MouseButton::Left) ==> effect is None
        }),
{
}

/// The text that is highlighted has each line of the display as a line of its own.
pub proof fn law_document_has_all_lines(lines: Seq<DisplayLine>, n: int, k: int)
    requires
        0 <= k < n <= lines.len(),
    ensures
        ({
            let at = document_text(lines, k).len() as int;
            let end = at + lines[k].text@.len();
            &&& end < document_text(lines, n).len()
            &&& document_text(lines, n).subrange(at, end) == lines[k].text@
            &&& document_text(lines, n)[end] == '\n'
            &&& document_text(lines, k + 1).len() == end + 1
        }),
    decreases n,
{
    reveal_strlit("\n");
    let all = document_text(lines, n);
    let at = document_text(lines, k).len() as int;
    let end = at + lines[k].text@.len();
    if k < n - 1 {
        law_document_has_all_lines(lines, n - 1, k);
        let shorter = document_text(lines, n - 1);
        assert(all.subrange(at, end) =~= shorter.subrange(at, end));
        assert(all[end] == shorter[end]);
    } else {
        assert(all.subrange(at, end) =~= lines[k].text@);
    }
}

/// Lines that were added, deleted or head a hunk have a background of their own, each its own one.
pub proof fn law_backgrounds_of_lines(styles: DiffStyles, kind: DiffLineKind)
    ensures
        kind == DiffLineKind::Added ==> line_background(styles, kind) == Some(styles.added_bg),
        kind == DiffLineKind::Deleted ==> line_background(styles, kind) == Some(styles.deleted_bg),
        kind == DiffLineKind::HunkHeader ==> line_background(styles, kind) == Some(styles.hunk_header),
        line_background(styles, kind) is None <==> kind == DiffLineKind::Context,
{
}

/// A background made of the theme's colour for added or deleted lines is darker than it, and keeps the
/// order of its components; without such a colour added lines are green and deleted ones red. Only the
/// background is set.
pub proof fn law_tints_are_dark(theme: Theme, scope: Seq<char>, fallback: Color)
    ensures
        tint(theme, scope, fallback).fg is None,
        style_of(entries_of(theme), scope).fg matches Some(Color::Rgb(r, g, b)) ==> (tint(
            theme,
            scope,
            fallback,
        ).bg matches Some(Color::Rgb(x, y, z)) && 5 * x <= r < 5 * x + 5 && 5 * y <= g < 5 * y + 5 && 5 * z
            <= b < 5 * z + 5),
        style_of(entries_of(theme), scope).fg is None ==> tint(theme, scope, fallback).bg == Some(
            fallback,
        ),
        style_of(entries_of(theme), "diff.plus"@).fg is None ==> (diff_styles(theme).added_bg.bg
            matches Some(Color::Rgb(r, g, b)) && g > r && g > b),
        style_of(entries_of(theme), "diff.minus"@).fg is None ==> (diff_styles(theme).deleted_bg.bg
            matches Some(Color::Rgb(r, g, b)) && r > g && r > b),
{
}

/// The numbers of a line stand in two columns of the same width, the old one to the right and the new
/// one to the left, with a blank behind each; a number that there is not leaves its column empty.
pub proof fn law_numbers_stand_in_columns(old_lineno: int, new_lineno: int)
    requires
        0 <= old_lineno < 100000,
        0 <= new_lineno < 100000,
    ensures
        ({
            let both = gutter_text(Some(old_lineno), Some(new_lineno));
            let a = decimal_digits(old_lineno as nat).len() as int;
            let b = decimal_digits(new_lineno as nat).len() as int;
            &&& both.len() == 12
            &&& both[5] == ' '
            &&& both[11] == ' '
            &&& digits_value(both.subrange(5 - a, 5)) == old_lineno
            &&& digits_value(both.subrange(6, 6 + b)) == new_lineno
            &&& forall|i: int| 0 <= i < 5 - a || 6 + b <= i < 12 ==> #[trigger] both[i] == ' '
            &&& gutter_text(Some(old_lineno), None) == both.take(6) + spaces(6)
            &&& gutter_text(None, Some(new_lineno)) == spaces(6) + both.skip(6)
            &&& gutter_text(None, None) == spaces(12)
        }),
{
    reveal_strlit("     ");
    reveal_strlit(" ");
    let p = decimal_digits(old_lineno as nat);
    let q = decimal_digits(new_lineno as nat);
    lemma_short_number(old_lineno as nat, 5);
    lemma_short_number(new_lineno as nat, 5);
    law_decimal_reads_back(old_lineno as nat);
    law_decimal_reads_back(new_lineno as nat);
    let both = gutter_text(Some(old_lineno), Some(new_lineno));
    let a = p.len() as int;
    let b = q.len() as int;
    assert(both.subrange(5 - a, 5) =~= p);
    assert(both.subrange(6, 6 + b) =~= q);
    assert(gutter_text(Some(old_lineno), None) =~= both.take(6) + spaces(6));
    assert(gutter_text(None, Some(new_lineno)) =~= spaces(6) + both.skip(6));
    assert(gutter_text(None, None) =~= spaces(12));
}

proof fn lemma_short_number(n: nat, digits: nat)
    requires
        digits > 0,
        digits == 1 ==> n < 10,
        digits == 2 ==> n < 100,
        digits == 3 ==> n < 1000,
        digits == 4 ==> n < 10000,
        digits == 5 ==> n < 100000,
        digits <= 5,
    ensures
        decimal_digits(n).len() <= digits,
    decreases digits,
{
    if n >= 10 {
        lemma_short_number(n / 10, (digits - 1) as nat);
    }
}

/// Beside every line its numbers are drawn in the gutter; beside the head of a hunk the gutter is blank.
pub proof fn law_gutter_of_a_line(
    lines: Seq<DisplayLine>,
    gutter: Rect,
    styles: DiffStyles,
    i: int,
    y: u16,
)
    requires
        0 <= i < lines.len(),
    ensures
        lines[i].kind == DiffLineKind::HunkHeader <==> gutter_draw(lines, gutter, styles, i, y) is Blank,
        gutter_draw(lines, gutter, styles, i, y) matches DrawView::Blank(x, row, end, style) ==> x
            == gutter.x && row == y && style == styles.hunk_header && (gutter.x + gutter.width <= u16::MAX
            ==> end == gutter.x + gutter.width),
        lines[i].kind != DiffLineKind::HunkHeader ==> gutter_draw(lines, gutter, styles, i, y)
            == DrawView::Text(
            gutter.x,
            y,
            gutter_text(number(lines[i].old_lineno), number(lines[i].new_lineno)),
            gutter.width as usize,
            styles.linenr,
        ),
{
}

/// As many lines are drawn as there are from the first one in sight on, or as there are rows.
pub proof fn law_lines_in_view(lines: int, scroll: int, height: int)
    requires
        0 <= scroll <= lines,
        height >= 0,
    ensures
        lines_in_view(lines, scroll, height) <= height,
        scroll + lines_in_view(lines, scroll, height) <= lines,
        lines_in_view(lines, scroll, height) == height || scroll + lines_in_view(lines, scroll, height)
            == lines,
{
}

/// The mark of a file tells how it changed, in the colour of that change.
pub proof fn law_marks_of_changes(kind: char, styles: SidebarStyles, base: Style)
    ensures
        change_mark(kind, styles, base).0.len() == 2,
        change_mark(kind, styles, base).0[1] == ' ',
        kind == 'A' || kind == 'D' || kind == 'M' || kind == 'R' ==> change_mark(kind, styles, base).0[0]
            == kind,
        kind != 'A' && kind != 'D' && kind != 'M' && kind != 'R' ==> change_mark(kind, styles, base).0[0]
            == '?' && change_mark(kind, styles, base).1 == base,
        kind == 'A' ==> change_mark(kind, styles, base).1 == styles.added,
        kind == 'D' ==> change_mark(kind, styles, base).1 == styles.deleted,
        kind == 'M' || kind == 'R' ==> change_mark(kind, styles, base).1 == styles.modified,
{
    reveal_strlit("A ");
    reveal_strlit("D ");
    reveal_strlit("M ");
    reveal_strlit("R ");
    reveal_strlit("? ");
}

/// The row of a file begins with its mark and ends with its name, with its icon between them if icons
/// are shown; the selected file has the active style and the others the inactive one.
pub proof fn law_row_of_a_file(
    files: Seq<DiffFileEntry>,
    selected: int,
    styles: SidebarStyles,
    icons: Option<Seq<Icon>>,
    i: int,
)
    requires
        0 <= i < files.len(),
    ensures
        ({
            let row = sidebar_pieces(files, selected, styles, icons, i);
            let base = if i == selected {
                styles.active
            } else {
                styles.inactive
            };
            &&& row[0].0 == change_mark(files[i].change_kind, styles, base).0
            &&& row.last() == (base_name(files[i].rel_path@), base)
            &&& icons is None ==> row.len() == 2
            &&& icons matches Some(v) ==> row.len() == 3 && row[1].0[0] == v[i].icon && row[1].1.fg == Some(
                v[i].color,
            ) && row[1].1.bg == base.bg
        }),
{
    reveal_strlit(" ");
}

/// A file is shown by the last part of its path.
pub proof fn law_file_is_shown_by_its_name(dir: Seq<char>, name: Seq<char>)
    requires
        dir.len() > 0,
        name.len() > 0,
        !name.contains('/'),
        name != "."@,
        name != ".."@,
    ensures
        base_name(dir + seq!['/'] + name) == name,
{
    law_entry_of_a_directory(dir, name);
}

/// Each file of the list has the row of its place: first it is blanked, then its row is drawn.
pub proof fn law_list_of_files(
    files: Seq<DiffFileEntry>,
    selected: int,
    styles: SidebarStyles,
    icons: Option<Seq<Icon>>,
    area: Rect,
    n: int,
    k: int,
)
    requires
        0 <= k < n <= files.len(),
        n <= area.height,
        area.x + area.width <= u16::MAX,
        area.y + area.height <= u16::MAX,
    ensures
        ({
            let draws = sidebar_draws(files, selected, styles, icons, area, n);
            let end = area.x + area.width;
            &&& draws.len() == 2 * n
            &&& draws[2 * k] matches DrawView::Blank(x, y, e, style) && x == area.x && y == area.y + k && e
                == end && style == if k == selected {
                styles.active
            } else {
                styles.inactive
            }
            &&& draws[2 * k + 1] matches DrawView::Row(x, y, e, pieces) && x == area.x && y == area.y + k
                && e == end && pieces == sidebar_pieces(files, selected, styles, icons, k)
        }),
    decreases n,
{
    let prev = sidebar_draws(files, selected, styles, icons, area, n - 1);
    lemma_list_len(files, selected, styles, icons, area, n - 1);
    if k < n - 1 {
        law_list_of_files(files, selected, styles, icons, area, n - 1, k);
        let all = sidebar_draws(files, selected, styles, icons, area, n);
        assert(all[2 * k] == prev[2 * k]);
        assert(all[2 * k + 1] == prev[2 * k + 1]);
    }
}

proof fn lemma_list_len(
    files: Seq<DiffFileEntry>,
    selected: int,
    styles: SidebarStyles,
    icons: Option<Seq<Icon>>,
    area: Rect,
    n: int,
)
    requires
        n >= 0,
    ensures
        sidebar_draws(files, selected, styles, icons, area, n).len() == 2 * n,
    decreases n,
{
    if n > 0 {
        lemma_list_len(files, selected, styles, icons, area, n - 1);
    }
}

/// The list of files takes a third of the view, but never fewer than fifteen columns nor more than
/// thirty.
pub proof fn law_width_of_the_list(width: u16)
    ensures
        15 <= sidebar_width(width) <= 30,
        45 <= width < 90 ==> 0 <= width - 3 * sidebar_width(width) < 3,
        width < 45 ==> sidebar_width(width) == 15,
        width >= 90 ==> sidebar_width(width) == 30,
{
}

/// The line beside the list has a mark in every row.
pub proof fn law_separator_covers_every_row(x: u16, area: Rect, style: Style, n: int, k: int)
    requires
        0 <= k < n,
        area.y + n <= u16::MAX,
    ensures
        separator_draws(x, area, style, n).len() == n,
        separator_draws(x, area, style, n)[k] == DrawView::Text(
            x,
            (area.y + k) as u16,
            "│"@,
            1,
            style,
        ),
    decreases n,
{
    lemma_separator_len(x, area, style, n - 1);
    if k < n - 1 {
        law_separator_covers_every_row(x, area, style, n - 1, k);
    }
}

proof fn lemma_separator_len(x: u16, area: Rect, style: Style, n: int)
    requires
        n >= 0,
    ensures
        separator_draws(x, area, style, n).len() == n,
    decreases n,
{
    if n > 0 {
        lemma_separator_len(x, area, style, n - 1);
    }
}

/// A style is that of its own scope, or of the one that stands in for it.
pub proof fn law_style_or_another(theme: Theme, scope: Seq<char>, other: Seq<char>)
    ensures
        nearest(entries_of(theme), scope) is Some ==> style_or(theme, scope, other) == style_of(
            entries_of(theme),
            scope,
        ),
        nearest(entries_of(theme), scope) is None ==> style_or(theme, scope, other) == style_of(
            entries_of(theme),
            other,
        ),
{
}

/// The list's styles come from the bar of tabs and from the colours of changes.
pub proof fn law_styles_of_the_list(theme: Theme)
    ensures
        sidebar_styles(theme).active == style_or(theme, "ui.bufferline.active"@, "ui.statusline.active"@),
        sidebar_styles(theme).inactive == style_or(theme, "ui.bufferline"@, "ui.statusline.inactive"@),
        sidebar_styles(theme).added == style_of(entries_of(theme), "diff.plus"@),
        sidebar_styles(theme).deleted == style_of(entries_of(theme), "diff.minus"@),
        sidebar_styles(theme).modified == style_of(entries_of(theme), "diff.delta"@),
        diff_styles(theme).linenr == style_of(entries_of(theme), "ui.linenr"@),
        diff_styles(theme).hunk_header == style_or(
            theme,
            "ui.statusline.inactive"@,
            "ui.text.inactive"@,
        ),
{
}

} // verus!
