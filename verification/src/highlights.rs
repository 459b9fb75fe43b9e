//! What is highlighted in a document: selections, diagnostics, links and the like.
use crate::config::CursorShapeConfig;
use crate::config::Mode;
use crate::config::Severity;
use crate::graphics::CursorKind;
use crate::selection::Range;
use crate::selection::Selection;
use crate::text::breaks;
use crate::text::bytes_before;
use crate::text::clustered;
use crate::text::countable;
use crate::text::is_boundary;
use crate::text::law_boundaries_are_the_nearest;
use crate::text::law_boundaries_step_back;
use crate::text::line_count;
use crate::text::line_start;
use crate::text::next_boundary;
use crate::text::prev_boundary;
use crate::text::Rope;
use crate::theme::entries_of;
use crate::theme::exact;
use crate::theme::nearest;
use crate::theme::Theme;
use vstd::prelude::*;
use vstd::string::*;

verus! {

/// A range of positions, its end excluded.
#[derive(Debug, Clone, Copy, PartialEq, Eq, Structural)]
pub struct Span {
    pub start: usize,
    pub end: usize,
}

/// Highlights that are laid over those of the syntax.
#[derive(Debug)]
pub enum OverlayHighlights {
    /// The same highlight in several places.
    Homogeneous { highlight: usize, ranges: Vec<Span> },
    /// Several highlights.
    Heterogenous { highlights: Vec<(usize, Span)> },
}

/// Highlights, as sequences.
pub enum OverlayView {
    Homogeneous(usize, Seq<Span>),
    Heterogenous(Seq<(usize, Span)>),
}

impl View for OverlayHighlights {
    type V = OverlayView;

    open spec fn view(&self) -> OverlayView {
        match self {
            OverlayHighlights::Homogeneous { highlight, ranges } => OverlayView::Homogeneous(
                *highlight,
                ranges@,
            ),
            OverlayHighlights::Heterogenous { highlights } => OverlayView::Heterogenous(
                highlights@,
            ),
        }
    }
}

/// The views of a list of highlights.
pub open spec fn overlay_views(v: Seq<OverlayHighlights>) -> Seq<OverlayView> {
    v.map_values(|o: OverlayHighlights| o@)
}

/// The last line that can be seen of a text, for a view of `height` lines from `row` on.
pub open spec fn last_visible_line(text: Seq<char>, row: int, height: int) -> int {
    let last = line_count(text) - 1;
    let wanted = if row + height >= 1 {
        row + height - 1
    } else {
        0
    };
    if wanted <= last {
        wanted
    } else {
        last
    }
}

/// The first line that can be seen: the first of the view, or the last of the text.
pub open spec fn first_visible_line(text: Seq<char>, row: int) -> int {
    let last = line_count(text) - 1;
    if row <= last {
        row
    } else {
        last
    }
}

fn visible_lines(text: &Rope, row: usize, height: u16) -> (r: (usize, usize))
    requires
        text@.len() < usize::MAX,
        row + height <= usize::MAX,
    ensures
        r.0 == first_visible_line(text@, row as int),
        r.1 == last_visible_line(text@, row as int, height as int),
        r.1 < line_count(text@),
{
    let last: usize = text.len_lines() - 1;
    let wanted: usize = (row + height as usize).saturating_sub(1);
    let first: usize = if row <= last {
        row
    } else {
        last
    };
    let end: usize = if wanted <= last {
        wanted
    } else {
        last
    };
    (first, end)
}

/// The bytes of the lines that can be seen.
pub fn viewport_byte_range(text: &Rope, row: usize, height: u16) -> (r: Span)
    requires
        text@.len() < usize::MAX,
        countable(text@),
        row + height <= usize::MAX,
    ensures
        r.start == bytes_before(
            text@,
            line_start(text@, first_visible_line(text@, row as int)),
        ),
        r.end == bytes_before(
            text@,
            line_start(text@, last_visible_line(text@, row as int, height as int) + 1),
        ),
{
    let (first, last) = visible_lines(text, row, height);
    assert(line_count(text@) <= text@.len() + 1) by {
        crate::text::lemma_line_count(text@);
    }
    Span { start: text.line_to_byte(first), end: text.line_to_byte(last + 1) }
}

/// The line of a position, or the last line if it lies behind the text.
pub open spec fn row_of(text: Seq<char>, anchor: int) -> int {
    breaks(
        text,
        if anchor <= text.len() {
            anchor
        } else {
            text.len() as int
        },
    ) as int
}

fn row_at(text: &Rope, anchor: usize) -> (r: usize)
    ensures
        r == row_of(text@, anchor as int),
        r <= text@.len(),
{
    let pos: usize = if anchor <= text.len_chars() {
        anchor
    } else {
        text.len_chars()
    };
    proof {
        crate::text::lemma_row(text@, pos as int);
    }
    text.char_to_line(pos)
}

/// The bytes whose syntax is highlighted for a view that starts at `anchor`; `None` if the
/// document has no syntax. The bounds are cut to 32 bits.
pub fn doc_syntax_highlighter(
    has_syntax: bool,
    text: &Rope,
    anchor: usize,
    height: u16,
) -> (r: Option<(u32, u32)>)
    requires
        text@.len() + height < usize::MAX,
        countable(text@),
    ensures
        r == if has_syntax {
            let row = row_of(text@, anchor as int);
            Some(
                (
                    bytes_before(
                        text@,
                        line_start(text@, first_visible_line(text@, row)),
                    ) as usize as u32,
                    bytes_before(
                        text@,
                        line_start(text@, last_visible_line(text@, row, height as int) + 1),
                    ) as usize as u32,
                ),
            )
        } else {
            None
        },
{
    if !has_syntax {
        return None;
    }
    let row: usize = row_at(text, anchor);
    let range = viewport_byte_range(text, row, height);
    Some((range.start as u32, range.end as u32))
}

/// The characters for which overlays are collected, for a view that starts at `anchor`.
pub fn overlay_syntax_highlights(text: &Rope, anchor: usize, height: u16) -> (r: Span)
    requires
        text@.len() + height < usize::MAX,
    ensures
        ({
            let row = row_of(text@, anchor as int);
            &&& r.start == line_start(text@, first_visible_line(text@, row))
            &&& r.end == line_start(text@, last_visible_line(text@, row, height as int) + 1)
        }),
{
    let row: usize = row_at(text, anchor);
    let (first, last) = visible_lines(text, row, height);
    proof {
        crate::text::lemma_line_count(text@);
    }
    Span { start: text.line_to_char(first), end: text.line_to_char(last + 1) }
}

/// The bytes in which brackets are coloured: from the start of the syntax node around the visible
/// bytes (`node_start`, if there is one) to the end of the visible bytes. `None` if the document
/// has no syntax.
pub fn doc_rainbow_highlights(
    has_syntax: bool,
    text: &Rope,
    anchor: usize,
    height: u16,
    node_start: Option<u32>,
) -> (r: Option<(u32, u32)>)
    requires
        text@.len() + height < usize::MAX,
        countable(text@),
    ensures
        r == if has_syntax {
            let row = row_of(text@, anchor as int);
            Some(
                (
                    match node_start {
                        Some(s) => s,
                        None => bytes_before(
                            text@,
                            line_start(text@, first_visible_line(text@, row)),
                        ) as usize as u32,
                    },
                    bytes_before(
                        text@,
                        line_start(text@, last_visible_line(text@, row, height as int) + 1),
                    ) as usize as u32,
                ),
            )
        } else {
            None
        },
{
    if !has_syntax {
        return None;
    }
    let row: usize = row_at(text, anchor);
    let range = viewport_byte_range(text, row, height);
    let start: u32 = match node_start {
        Some(s) => s,
        None => range.start as u32,
    };
    Some((start, range.end as u32))
}

/// What marks a diagnostic beside its severity.
#[derive(Debug, Clone, Copy, PartialEq, Eq, Structural)]
pub enum DiagnosticTag {
    Unnecessary,
    Deprecated,
}

/// A remark of a language server on a part of the text.
#[derive(Debug)]
pub struct Diagnostic {
    pub range: Span,
    pub message: String,
    pub severity: Option<Severity>,
    pub code: Option<NumberOrString>,
    pub tags: Vec<DiagnosticTag>,
}

/// The code of a diagnostic.
#[derive(Debug)]
pub enum NumberOrString {
    Number(i32),
    Text(String),
}

/// The ranges with another one; it is merged into the last one if it starts within it or right
/// behind it.
pub open spec fn merged(v: Seq<Span>, r: Span) -> Seq<Span> {
    if v.len() > 0 && r.start <= v.last().end {
        v.update(
            v.len() - 1,
            Span {
                start: v.last().start,
                end: if r.end >= v.last().end {
                    r.end
                } else {
                    v.last().end
                },
            },
        )
    } else {
        v.push(r)
    }
}

fn push_merged(v: &mut Vec<Span>, r: Span)
    ensures
        final(v)@ == merged(old(v)@, r),
{
    let n: usize = v.len();
    if n > 0 && r.start <= v[n - 1].end {
        let last = v[n - 1];
        let end: usize = if r.end >= last.end {
            r.end
        } else {
            last.end
        };
        v.set(n - 1, Span { start: last.start, end });
    } else {
        v.push(r);
    }
}

/// Whether a position lies in one of the ranges.
pub open spec fn covers(v: Seq<Span>, p: int) -> bool {
    exists|i: int| 0 <= i < v.len() && (#[trigger] v[i]).start <= p < v[i].end
}

/// The ranges ascend, and none starts within another or right behind it.
pub open spec fn gapped(v: Seq<Span>) -> bool {
    forall|i: int, j: int|
        0 <= i < j < v.len() ==> (#[trigger] v[i]).end < (#[trigger] v[j]).start && v[i].start
            <= v[j].start
}

/// The last range, if there is one, starts at `start` or before it.
spec fn reached(v: Seq<Span>, start: usize) -> bool {
    v.len() > 0 ==> v.last().start <= start
}

proof fn lemma_merged(v: Seq<Span>, r: Span)
    requires
        gapped(v),
        reached(v, r.start),
    ensures
        gapped(merged(v, r)),
        reached(merged(v, r), r.start),
        forall|p: int| covers(merged(v, r), p) <==> covers(v, p) || r.start <= p < r.end,
{
    let all = merged(v, r);
    assert forall|p: int| covers(all, p) <==> covers(v, p) || r.start <= p < r.end by {
        if covers(v, p) {
            let i = choose|i: int| 0 <= i < v.len() && (#[trigger] v[i]).start <= p < v[i].end;
            assert(all[i].start <= p < all[i].end);
        }
        if r.start <= p < r.end {
            assert(all[all.len() - 1].start <= p < all[all.len() - 1].end);
        }
        if covers(all, p) {
            let i = choose|i: int| 0 <= i < all.len() && (#[trigger] all[i]).start <= p < all[i].end;
            if i < v.len() {
                if i < all.len() - 1 || all.len() > v.len() {
                    assert(v[i].start <= p < v[i].end);
                } else if p < v.last().end {
                    assert(v[v.len() - 1].start <= p < v[v.len() - 1].end);
                }
            }
        }
    }
}

/// The places in which diagnostics are highlighted.
#[derive(Debug, Clone, Copy, PartialEq, Eq, Structural)]
pub enum DiagnosticClass {
    Plain,
    Info,
    Hint,
    Warning,
    Error,
    Unnecessary,
    Deprecated,
}

/// The class of a severity.
pub open spec fn class_of(severity: Option<Severity>) -> DiagnosticClass {
    match severity {
        Some(Severity::Info) => DiagnosticClass::Info,
        Some(Severity::Hint) => DiagnosticClass::Hint,
        Some(Severity::Warning) => DiagnosticClass::Warning,
        Some(Severity::Error) => DiagnosticClass::Error,
        None => DiagnosticClass::Plain,
    }
}

/// Whether a diagnostic is highlighted by its severity: with tags only if it is grave.
pub open spec fn shown_by_severity(d: Diagnostic) -> bool {
    d.tags@.len() == 0 || d.severity == Some(Severity::Warning) || d.severity == Some(
        Severity::Error,
    )
}

/// The class of a tag.
pub open spec fn class_of_tag(tag: DiagnosticTag) -> DiagnosticClass {
    match tag {
        DiagnosticTag::Unnecessary => DiagnosticClass::Unnecessary,
        DiagnosticTag::Deprecated => DiagnosticClass::Deprecated,
    }
}

/// The ranges of `class` with those of the first `n` tags.
pub open spec fn with_tags(
    v: Seq<Span>,
    range: Span,
    tags: Seq<DiagnosticTag>,
    class: DiagnosticClass,
    n: int,
) -> Seq<Span>
    decreases n,
{
    if n <= 0 {
        v
    } else {
        let prev = with_tags(v, range, tags, class, n - 1);
        if class_of_tag(tags[n - 1]) == class {
            merged(prev, range)
        } else {
            prev
        }
    }
}

/// The ranges of `class` with those of one more diagnostic.
pub open spec fn with_diagnostic(v: Seq<Span>, d: Diagnostic, class: DiagnosticClass) -> Seq<Span> {
    let first = if class_of(d.severity) == class && shown_by_severity(d) {
        merged(v, d.range)
    } else {
        v
    };
    with_tags(first, d.range, d.tags@, class, d.tags@.len() as int)
}

/// The ranges of `class` among the first `n` diagnostics.
pub open spec fn class_ranges(ds: Seq<Diagnostic>, class: DiagnosticClass, n: int) -> Seq<Span>
    decreases n,
{
    if n <= 0 {
        Seq::empty()
    } else {
        with_diagnostic(class_ranges(ds, class, n - 1), ds[n - 1], class)
    }
}

/// Whether a diagnostic is highlighted as one of `class`, by its severity or by a tag.
pub open spec fn in_class(d: Diagnostic, class: DiagnosticClass) -> bool {
    ||| class_of(d.severity) == class && shown_by_severity(d)
    ||| exists|k: int| 0 <= k < d.tags@.len() && class_of_tag(#[trigger] d.tags@[k]) == class
}

/// The diagnostics start one after the other.
pub open spec fn diagnostics_rise(ds: Seq<Diagnostic>) -> bool {
    forall|i: int, j: int|
        0 <= i < j < ds.len() ==> (#[trigger] ds[i]).range.start <= (#[trigger] ds[j]).range.start
}

/// Whether one of the first `n` tags is of a class.
spec fn has_tag(tags: Seq<DiagnosticTag>, class: DiagnosticClass, n: int) -> bool {
    exists|k: int| 0 <= k < n && class_of_tag(#[trigger] tags[k]) == class
}

proof fn lemma_has_tag(tags: Seq<DiagnosticTag>, class: DiagnosticClass, n: int)
    requires
        0 < n <= tags.len(),
    ensures
        has_tag(tags, class, n) == (has_tag(tags, class, n - 1) || class_of_tag(tags[n - 1]) == class),
{
}

proof fn lemma_with_tags(
    v: Seq<Span>,
    range: Span,
    tags: Seq<DiagnosticTag>,
    class: DiagnosticClass,
    n: int,
)
    requires
        gapped(v),
        reached(v, range.start),
        0 <= n <= tags.len(),
    ensures
        gapped(with_tags(v, range, tags, class, n)),
        reached(with_tags(v, range, tags, class, n), range.start),
        forall|p: int|
            #![trigger covers(with_tags(v, range, tags, class, n), p)]
            covers(with_tags(v, range, tags, class, n), p) <==> covers(v, p) || (range.start <= p
                < range.end && has_tag(tags, class, n)),
    decreases n,
{
    if n > 0 {
        lemma_with_tags(v, range, tags, class, n - 1);
        lemma_has_tag(tags, class, n);
        let prev = with_tags(v, range, tags, class, n - 1);
        let all = with_tags(v, range, tags, class, n);
        if class_of_tag(tags[n - 1]) == class {
            lemma_merged(prev, range);
            assert(all == merged(prev, range));
        } else {
            assert(all == prev);
        }
        assert forall|p: int|
            #![trigger covers(all, p)]
            covers(all, p) <==> covers(v, p) || (range.start <= p < range.end && has_tag(tags, class, n)) by {
            assert(covers(prev, p) <==> covers(v, p) || (range.start <= p < range.end && has_tag(
                tags,
                class,
                n - 1,
            )));
        }
    }
}

/// Of diagnostics that start one after the other, the highlighted ranges of a class ascend with
/// gaps between them, and they cover the positions of the diagnostics of that class and no others.
pub proof fn law_class_ranges_cover(ds: Seq<Diagnostic>, class: DiagnosticClass, n: int)
    requires
        diagnostics_rise(ds),
        0 <= n <= ds.len(),
    ensures
        gapped(class_ranges(ds, class, n)),
        forall|p: int|
            covers(class_ranges(ds, class, n), p) <==> exists|i: int|
                0 <= i < n && in_class(#[trigger] ds[i], class) && ds[i].range.start <= p
                    < ds[i].range.end,
{
    lemma_class_ranges(ds, class, n);
}

proof fn lemma_class_ranges(ds: Seq<Diagnostic>, class: DiagnosticClass, n: int)
    requires
        diagnostics_rise(ds),
        0 <= n <= ds.len(),
    ensures
        gapped(class_ranges(ds, class, n)),
        n > 0 ==> reached(class_ranges(ds, class, n), ds[n - 1].range.start),
        n <= 0 ==> class_ranges(ds, class, n).len() == 0,
        forall|p: int|
            covers(class_ranges(ds, class, n), p) <==> exists|i: int|
                0 <= i < n && in_class(#[trigger] ds[i], class) && ds[i].range.start <= p
                    < ds[i].range.end,
    decreases n,
{
    if n > 0 {
        lemma_class_ranges(ds, class, n - 1);
        let prev = class_ranges(ds, class, n - 1);
        let d = ds[n - 1];
        if n > 1 {
            assert(ds[n - 2].range.start <= ds[n - 1].range.start);
        }
        let by_severity = class_of(d.severity) == class && shown_by_severity(d);
        let first = if by_severity {
            merged(prev, d.range)
        } else {
            prev
        };
        if by_severity {
            lemma_merged(prev, d.range);
        }
        lemma_with_tags(first, d.range, d.tags@, class, d.tags@.len() as int);
        let all = class_ranges(ds, class, n);
        assert forall|p: int|
            covers(all, p) <==> exists|i: int|
                0 <= i < n && in_class(#[trigger] ds[i], class) && ds[i].range.start <= p
                    < ds[i].range.end by {
            assert(all == with_tags(first, d.range, d.tags@, class, d.tags@.len() as int));
            assert(covers(first, p) <==> covers(prev, p) || (by_severity && d.range.start <= p
                < d.range.end));
            if covers(prev, p) {
                let i = choose|i: int|
                    0 <= i < n - 1 && in_class(#[trigger] ds[i], class) && ds[i].range.start <= p
                        < ds[i].range.end;
                assert(in_class(ds[i], class));
            }
            if in_class(d, class) && d.range.start <= p < d.range.end {
                assert(in_class(ds[n - 1], class));
            }
        }
    }
}

/// The ranges of `class`, merged where they touch.
fn collect_class(ds: &Vec<Diagnostic>, class: DiagnosticClass) -> (r: Vec<Span>)
    ensures
        r@ == class_ranges(ds@, class, ds@.len() as int),
{
    let mut out: Vec<Span> = Vec::new();
    let mut i: usize = 0;
    while i < ds.len()
        invariant
            i <= ds@.len(),
            out@ == class_ranges(ds@, class, i as int),
        decreases ds@.len() - i,
    {
        let d = &ds[i];
        let severity_class = match d.severity {
            Some(Severity::Info) => DiagnosticClass::Info,
            Some(Severity::Hint) => DiagnosticClass::Hint,
            Some(Severity::Warning) => DiagnosticClass::Warning,
            Some(Severity::Error) => DiagnosticClass::Error,
            None => DiagnosticClass::Plain,
        };
        let grave = match d.severity {
            Some(Severity::Warning) => true,
            Some(Severity::Error) => true,
            _ => false,
        };
        if severity_class == class && (d.tags.len() == 0 || grave) {
            push_merged(&mut out, d.range);
        }
        let ghost first = out@;
        let mut j: usize = 0;
        while j < d.tags.len()
            invariant
                j <= d.tags@.len(),
                out@ == with_tags(first, d.range, d.tags@, class, j as int),
            decreases d.tags@.len() - j,
        {
            let tag_class = match d.tags[j] {
                DiagnosticTag::Unnecessary => DiagnosticClass::Unnecessary,
                DiagnosticTag::Deprecated => DiagnosticClass::Deprecated,
            };
            if tag_class == class {
                push_merged(&mut out, d.range);
            }
            j = j + 1;
        }
        i = i + 1;
    }
    out
}

/// The first of two that is there.
pub open spec fn or_else(a: Option<usize>, b: Option<usize>) -> Option<usize> {
    match a {
        Some(_) => a,
        None => b,
    }
}

/// The highlight of diagnostics in general.
pub open spec fn diagnostic_fallback(theme: Theme) -> Option<usize> {
    let e = entries_of(theme);
    or_else(
        exact(e, "diagnostic"@),
        or_else(exact(e, "ui.cursor"@), exact(e, "ui.selection"@)),
    )
}

/// The highlight of one kind of diagnostics.
pub open spec fn diagnostic_scope(theme: Theme, scope: Seq<char>) -> usize {
    or_else(exact(entries_of(theme), scope), diagnostic_fallback(theme))->0
}

fn get_scope_of(theme: &Theme, scope: &str) -> (r: usize)
    requires
        diagnostic_fallback(*theme) is Some,
    ensures
        r == diagnostic_scope(*theme, scope@),
{
    match theme.find_highlight_exact(scope) {
        Some(i) => i,
        None => match theme.find_highlight_exact("diagnostic") {
            Some(i) => i,
            None => match theme.find_highlight_exact("ui.cursor") {
                Some(i) => i,
                None => match theme.find_highlight_exact("ui.selection") {
                    Some(i) => i,
                    None => 0,
                },
            },
        },
    }
}

/// The highlights of one class of diagnostics.
pub open spec fn class_overlay(
    ds: Seq<Diagnostic>,
    highlight: usize,
    class: DiagnosticClass,
) -> OverlayView {
    OverlayView::Homogeneous(highlight, class_ranges(ds, class, ds.len() as int))
}

/// The highlights of a class that is only shown if the theme has a scope for it.
pub open spec fn optional_overlay(
    ds: Seq<Diagnostic>,
    highlight: Option<usize>,
    class: DiagnosticClass,
) -> Seq<OverlayView> {
    match highlight {
        Some(h) => seq![class_overlay(ds, h, class)],
        None => Seq::empty(),
    }
}

/// The highlights of the diagnostics, the gravest last.
pub open spec fn diagnostic_overlays(ds: Seq<Diagnostic>, theme: Theme) -> Seq<OverlayView> {
    let e = entries_of(theme);
    seq![class_overlay(ds, diagnostic_scope(theme, "diagnostic"@), DiagnosticClass::Plain)]
        + optional_overlay(ds, exact(e, "diagnostic.unnecessary"@), DiagnosticClass::Unnecessary)
        + optional_overlay(ds, exact(e, "diagnostic.deprecated"@), DiagnosticClass::Deprecated)
        + seq![
        class_overlay(ds, diagnostic_scope(theme, "diagnostic.info"@), DiagnosticClass::Info),
        class_overlay(ds, diagnostic_scope(theme, "diagnostic.hint"@), DiagnosticClass::Hint),
        class_overlay(ds, diagnostic_scope(theme, "diagnostic.warning"@), DiagnosticClass::Warning),
        class_overlay(ds, diagnostic_scope(theme, "diagnostic.error"@), DiagnosticClass::Error),
    ]
}

fn push_overlay(out: &mut Vec<OverlayHighlights>, o: OverlayHighlights)
    ensures
        overlay_views(final(out)@) == overlay_views(old(out)@).push(o@),
{
    let ghost prev = out@;
    out.push(o);
    assert(overlay_views(out@) =~= overlay_views(prev).push(o@));
}

/// Adds the highlights of the diagnostics. The theme must have one of the scopes `diagnostic`,
/// `ui.cursor` and `ui.selection`.
pub fn doc_diagnostics_highlights_into(
    diagnostics: &Vec<Diagnostic>,
    theme: &Theme,
    overlay_highlights: &mut Vec<OverlayHighlights>,
)
    requires
        diagnostic_fallback(*theme) is Some,
    ensures
        overlay_views(final(overlay_highlights)@) == overlay_views(old(overlay_highlights)@)
            + diagnostic_overlays(diagnostics@, *theme),
{
    let ghost start = overlay_views(overlay_highlights@);
    let highlight: usize = get_scope_of(theme, "diagnostic");
    let ranges = collect_class(diagnostics, DiagnosticClass::Plain);
    push_overlay(overlay_highlights, OverlayHighlights::Homogeneous { highlight, ranges });
    match theme.find_highlight_exact("diagnostic.unnecessary") {
        Some(highlight) => {
            let ranges = collect_class(diagnostics, DiagnosticClass::Unnecessary);
            push_overlay(overlay_highlights, OverlayHighlights::Homogeneous { highlight, ranges });
        },
        None => {},
    }
    match theme.find_highlight_exact("diagnostic.deprecated") {
        Some(highlight) => {
            let ranges = collect_class(diagnostics, DiagnosticClass::Deprecated);
            push_overlay(overlay_highlights, OverlayHighlights::Homogeneous { highlight, ranges });
        },
        None => {},
    }
    let highlight: usize = get_scope_of(theme, "diagnostic.info");
    let ranges = collect_class(diagnostics, DiagnosticClass::Info);
    push_overlay(overlay_highlights, OverlayHighlights::Homogeneous { highlight, ranges });
    let highlight: usize = get_scope_of(theme, "diagnostic.hint");
    let ranges = collect_class(diagnostics, DiagnosticClass::Hint);
    push_overlay(overlay_highlights, OverlayHighlights::Homogeneous { highlight, ranges });
    let highlight: usize = get_scope_of(theme, "diagnostic.warning");
    let ranges = collect_class(diagnostics, DiagnosticClass::Warning);
    push_overlay(overlay_highlights, OverlayHighlights::Homogeneous { highlight, ranges });
    let highlight: usize = get_scope_of(theme, "diagnostic.error");
    let ranges = collect_class(diagnostics, DiagnosticClass::Error);
    push_overlay(overlay_highlights, OverlayHighlights::Homogeneous { highlight, ranges });
    assert(overlay_views(overlay_highlights@) =~= start + diagnostic_overlays(
        diagnostics@,
        *theme,
    ));
}

/// The highlights of the symbol under the cursor, where a server marked it.
pub open spec fn document_highlights(ranges: Option<Seq<Span>>, theme: Theme) -> Option<OverlayView> {
    let e = entries_of(theme);
    let highlight = or_else(
        exact(e, "ui.highlight"@),
        or_else(exact(e, "ui.selection"@), exact(e, "ui.cursor"@)),
    );
    match (ranges, highlight) {
        (Some(r), Some(h)) => if r.len() == 0 {
            None
        } else {
            Some(OverlayView::Homogeneous(h, r))
        },
        _ => None,
    }
}

/// The view of optional highlights.
pub open spec fn overlay_opt(o: Option<OverlayHighlights>) -> Option<OverlayView> {
    match o {
        Some(o) => Some(o@),
        None => None,
    }
}

/// The highlights of the symbol under the cursor, where a server marked it.
pub fn doc_document_highlights(ranges: Option<&Vec<Span>>, theme: &Theme) -> (r: Option<
    OverlayHighlights,
>)
    ensures
        overlay_opt(r) == document_highlights(
            match ranges {
                Some(v) => Some(v@),
                None => None,
            },
            *theme,
        ),
{
    let ranges = match ranges {
        Some(v) => v,
        None => {
            return None;
        },
    };
    if ranges.len() == 0 {
        return None;
    }
    let highlight: Option<usize> = match theme.find_highlight_exact("ui.highlight") {
        Some(h) => Some(h),
        None => match theme.find_highlight_exact("ui.selection") {
            Some(h) => Some(h),
            None => theme.find_highlight_exact("ui.cursor"),
        },
    };
    match highlight {
        Some(highlight) => {
            let copy = copy_spans(ranges);
            Some(OverlayHighlights::Homogeneous { highlight, ranges: copy })
        },
        None => None,
    }
}

fn copy_spans(v: &Vec<Span>) -> (r: Vec<Span>)
    ensures
        r@ == v@,
{
    let mut out: Vec<Span> = Vec::new();
    let mut i: usize = 0;
    while i < v.len()
        invariant
            i <= v@.len(),
            out@ == v@.take(i as int),
        decreases v@.len() - i,
    {
        out.push(v[i]);
        i = i + 1;
    }
    assert(out@ =~= v@);
    out
}

/// The merged ranges of the first `n` links; empty links are left out.
pub open spec fn link_ranges(links: Seq<Span>, n: int) -> Seq<Span>
    decreases n,
{
    if n <= 0 {
        Seq::empty()
    } else if links[n - 1].start >= links[n - 1].end {
        link_ranges(links, n - 1)
    } else {
        merged(link_ranges(links, n - 1), links[n - 1])
    }
}

/// The links start one after the other.
pub open spec fn starts_rise(v: Seq<Span>) -> bool {
    forall|i: int, j: int|
        0 <= i < j < v.len() ==> (#[trigger] v[i]).start <= (#[trigger] v[j]).start
}

proof fn lemma_link_ranges(links: Seq<Span>, n: int)
    requires
        starts_rise(links),
        0 <= n <= links.len(),
    ensures
        gapped(link_ranges(links, n)),
        n > 0 ==> reached(link_ranges(links, n), links[n - 1].start),
        n <= 0 ==> link_ranges(links, n).len() == 0,
        forall|p: int| covers(link_ranges(links, n), p) <==> covers(links.take(n), p),
    decreases n,
{
    if n > 0 {
        lemma_link_ranges(links, n - 1);
        let prev = link_ranges(links, n - 1);
        let link = links[n - 1];
        if n > 1 {
            assert(links[n - 2].start <= links[n - 1].start);
        }
        if link.start < link.end {
            lemma_merged(prev, link);
        }
        let (a, b) = (links.take(n - 1), links.take(n));
        assert forall|p: int| covers(b, p) <==> covers(a, p) || link.start <= p < link.end by {
            if covers(a, p) {
                let i = choose|i: int| 0 <= i < a.len() && (#[trigger] a[i]).start <= p < a[i].end;
                assert(b[i].start <= p < b[i].end);
            }
            if link.start <= p < link.end {
                assert(b[n - 1].start <= p < b[n - 1].end);
            }
            if covers(b, p) {
                let i = choose|i: int| 0 <= i < b.len() && (#[trigger] b[i]).start <= p < b[i].end;
                if i < n - 1 {
                    assert(a[i].start <= p < a[i].end);
                }
            }
        }
        assert forall|p: int| covers(link_ranges(links, n), p) <==> covers(b, p) by {
            assert(covers(prev, p) <==> covers(a, p));
        }
    } else {
        assert(links.take(n) =~= Seq::empty());
    }
}

/// Of links that start one after the other, the highlighted ranges ascend with gaps between them,
/// and they cover the positions of the links and no others.
pub proof fn law_link_ranges_cover(links: Seq<Span>)
    requires
        starts_rise(links),
    ensures
        gapped(link_ranges(links, links.len() as int)),
        forall|p: int|
            covers(link_ranges(links, links.len() as int), p) <==> covers(links, p),
{
    lemma_link_ranges(links, links.len() as int);
    assert(links.take(links.len() as int) =~= links);
}

/// The highlights of the links.
pub open spec fn link_highlights(links: Seq<Span>, theme: Theme) -> Option<OverlayView> {
    let e = entries_of(theme);
    match or_else(exact(e, "markup.link.url"@), exact(e, "markup.link"@)) {
        Some(h) => if link_ranges(links, links.len() as int).len() == 0 {
            None
        } else {
            Some(OverlayView::Homogeneous(h, link_ranges(links, links.len() as int)))
        },
        None => None,
    }
}

/// The highlights of the links in a document.
pub fn doc_document_link_highlights(links: &Vec<Span>, theme: &Theme) -> (r: Option<
    OverlayHighlights,
>)
    ensures
        overlay_opt(r) == link_highlights(links@, *theme),
{
    let highlight: usize = match theme.find_highlight_exact("markup.link.url") {
        Some(h) => h,
        None => match theme.find_highlight_exact("markup.link") {
            Some(h) => h,
            None => {
                return None;
            },
        },
    };
    let mut ranges: Vec<Span> = Vec::new();
    let mut i: usize = 0;
    while i < links.len()
        invariant
            i <= links@.len(),
            ranges@ == link_ranges(links@, i as int),
        decreases links@.len() - i,
    {
        let link = links[i];
        if link.start < link.end {
            push_merged(&mut ranges, link);
        }
        i = i + 1;
    }
    if ranges.len() == 0 {
        return None;
    }
    Some(OverlayHighlights::Homogeneous { highlight, ranges })
}

/// The highlights of cursors and selections.
pub struct SelectionScopes {
    pub cursor: usize,
    pub selection: usize,
    pub primary_cursor: usize,
    pub primary_selection: usize,
}

/// `a` if it is there, else `b`.
pub open spec fn or_value(a: Option<usize>, b: usize) -> usize {
    match a {
        Some(v) => v,
        None => b,
    }
}

/// The scopes that a theme has for cursors and selections in a mode.
pub open spec fn selection_scopes(theme: Theme, mode: Mode) -> SelectionScopes {
    let e = entries_of(theme);
    let selection = exact(e, "ui.selection"@)->0;
    let base_cursor = or_value(exact(e, "ui.cursor"@), selection);
    let base_primary = or_value(nearest(e, "ui.cursor.primary"@), base_cursor);
    SelectionScopes {
        cursor: or_value(
            match mode {
                Mode::Normal => exact(e, "ui.cursor.normal"@),
                Mode::Select => exact(e, "ui.cursor.select"@),
            },
            base_cursor,
        ),
        selection,
        primary_cursor: or_value(
            match mode {
                Mode::Normal => exact(e, "ui.cursor.primary.normal"@),
                Mode::Select => exact(e, "ui.cursor.primary.select"@),
            },
            base_primary,
        ),
        primary_selection: or_value(exact(e, "ui.selection.primary"@), selection),
    }
}

fn value_or(a: Option<usize>, b: usize) -> (r: usize)
    ensures
        r == or_value(a, b),
{
    match a {
        Some(v) => v,
        None => b,
    }
}

fn find_scopes(theme: &Theme, mode: Mode) -> (r: SelectionScopes)
    requires
        exact(entries_of(*theme), "ui.selection"@) is Some,
    ensures
        r == selection_scopes(*theme, mode),
{
    let selection: usize = value_or(theme.find_highlight_exact("ui.selection"), 0);
    let primary_selection: usize = value_or(
        theme.find_highlight_exact("ui.selection.primary"),
        selection,
    );
    let base_cursor: usize = value_or(theme.find_highlight_exact("ui.cursor"), selection);
    let base_primary: usize = value_or(theme.find_highlight("ui.cursor.primary"), base_cursor);
    let cursor: usize = value_or(
        match mode {
            Mode::Normal => theme.find_highlight_exact("ui.cursor.normal"),
            Mode::Select => theme.find_highlight_exact("ui.cursor.select"),
        },
        base_cursor,
    );
    let primary_cursor: usize = value_or(
        match mode {
            Mode::Normal => theme.find_highlight_exact("ui.cursor.primary.normal"),
            Mode::Select => theme.find_highlight_exact("ui.cursor.primary.select"),
        },
        base_primary,
    );
    SelectionScopes { cursor, selection, primary_cursor, primary_selection }
}

/// The highlights of one range. `drawn` tells whether the cursor is drawn here and not by the
/// terminal, `own_shape` whether it is the primary cursor and no block.
pub open spec fn range_highlights(
    text: Seq<char>,
    range: Range,
    mode: Mode,
    cursor_scope: usize,
    selection_scope: usize,
    drawn: bool,
    own_shape: bool,
) -> Seq<(usize, Span)> {
    if range.head == range.anchor && range.head == text.len() {
        if drawn {
            seq![(cursor_scope, Span { start: range.head, end: (range.head + 1) as usize })]
        } else {
            Seq::empty()
        }
    } else {
        let range = range.widened(text);
        if range.head > range.anchor {
            let cursor_start = prev_boundary(text, range.head as int) as usize;
            let selection_end = if own_shape && mode != Mode::Normal {
                range.head
            } else {
                cursor_start
            };
            seq![(selection_scope, Span { start: range.anchor, end: selection_end })] + (if drawn {
                seq![(cursor_scope, Span { start: cursor_start, end: range.head })]
            } else {
                Seq::empty()
            })
        } else {
            let cursor_end = next_boundary(text, range.head as int) as usize;
            let selection_start = if own_shape && !(mode == Mode::Normal && cursor_end
                == range.anchor) {
                range.head
            } else {
                cursor_end
            };
            (if drawn {
                seq![(cursor_scope, Span { start: range.head, end: cursor_end })]
            } else {
                Seq::empty()
            }) + seq![(selection_scope, Span { start: selection_start, end: range.anchor })]
        }
    }
}

/// The highlights of the first `n` ranges of a selection.
pub open spec fn selection_highlights(
    text: Seq<char>,
    ranges: Seq<Range>,
    primary: int,
    mode: Mode,
    scopes: SelectionScopes,
    block: bool,
    focused: bool,
    n: int,
) -> Seq<(usize, Span)>
    decreases n,
{
    if n <= 0 {
        Seq::empty()
    } else {
        let is_primary = n - 1 == primary;
        selection_highlights(text, ranges, primary, mode, scopes, block, focused, n - 1)
            + range_highlights(
            text,
            ranges[n - 1],
            mode,
            if is_primary {
                scopes.primary_cursor
            } else {
                scopes.cursor
            },
            if is_primary {
                scopes.primary_selection
            } else {
                scopes.selection
            },
            !is_primary || (block && focused),
            is_primary && !block,
        )
    }
}

fn push_range_highlights(
    spans: &mut Vec<(usize, Span)>,
    text: &Rope,
    range: Range,
    mode: Mode,
    cursor_scope: usize,
    selection_scope: usize,
    drawn: bool,
    own_shape: bool,
)
    requires
        text@.len() < usize::MAX,
    ensures
        final(spans)@ == old(spans)@ + range_highlights(
            text@,
            range,
            mode,
            cursor_scope,
            selection_scope,
            drawn,
            own_shape,
        ),
{
    let ghost before = spans@;
    if range.head == range.anchor && range.head == text.len_chars() {
        if drawn {
            spans.push((cursor_scope, Span { start: range.head, end: range.head + 1 }));
        }
        assert(spans@ =~= before + range_highlights(
            text@,
            range,
            mode,
            cursor_scope,
            selection_scope,
            drawn,
            own_shape,
        ));
        return;
    }
    let wide = range.min_width_1(text);
    if wide.head > wide.anchor {
        let cursor_start: usize = text.prev_grapheme_boundary(wide.head);
        let selection_end: usize = if own_shape && mode != Mode::Normal {
            wide.head
        } else {
            cursor_start
        };
        spans.push((selection_scope, Span { start: wide.anchor, end: selection_end }));
        if drawn {
            spans.push((cursor_scope, Span { start: cursor_start, end: wide.head }));
        }
    } else {
        let cursor_end: usize = text.next_grapheme_boundary(wide.head);
        if drawn {
            spans.push((cursor_scope, Span { start: wide.head, end: cursor_end }));
        }
        let selection_start: usize = if own_shape && !(mode == Mode::Normal && cursor_end
            == wide.anchor) {
            wide.head
        } else {
            cursor_end
        };
        spans.push((selection_scope, Span { start: selection_start, end: wide.anchor }));
    }
    assert(spans@ =~= before + range_highlights(
        text@,
        range,
        mode,
        cursor_scope,
        selection_scope,
        drawn,
        own_shape,
    ));
}

/// The highlights of the selections of a view. The theme must have the scope `ui.selection`.
pub fn doc_selection_highlights(
    mode: Mode,
    text: &Rope,
    selection: &Selection,
    theme: &Theme,
    cursor_shape_config: &CursorShapeConfig,
    is_terminal_focused: bool,
) -> (r: OverlayHighlights)
    requires
        text@.len() < usize::MAX,
        exact(entries_of(*theme), "ui.selection"@) is Some,
    ensures
        r@ == OverlayView::Heterogenous(
            selection_highlights(
                text@,
                selection@.0,
                selection@.1,
                mode,
                selection_scopes(*theme, mode),
                cursor_shape_config.shape(mode) == CursorKind::Block,
                is_terminal_focused,
                selection@.0.len() as int,
            ),
        ),
{
    let block: bool = cursor_shape_config.from_mode(mode) == CursorKind::Block;
    let scopes = find_scopes(theme, mode);
    let mut spans: Vec<(usize, Span)> = Vec::new();
    let mut i: usize = 0;
    while i < selection.ranges.len()
        invariant
            i <= selection.ranges@.len(),
            text@.len() < usize::MAX,
            spans@ == selection_highlights(
                text@,
                selection@.0,
                selection@.1,
                mode,
                scopes,
                block,
                is_terminal_focused,
                i as int,
            ),
        decreases selection.ranges@.len() - i,
    {
        let primary: bool = i == selection.primary_index;
        let (cursor_scope, selection_scope): (usize, usize) = if primary {
            (scopes.primary_cursor, scopes.primary_selection)
        } else {
            (scopes.cursor, scopes.selection)
        };
        push_range_highlights(
            &mut spans,
            text,
            selection.ranges[i],
            mode,
            cursor_scope,
            selection_scope,
            !primary || (block && is_terminal_focused),
            primary && !block,
        );
        i = i + 1;
    }
    OverlayHighlights::Heterogenous { highlights: spans }
}

/// The highlight of the bracket that matches the one under the cursor, at `matching` if there is
/// one; only documents with a syntax have it.
pub fn highlight_focused_view_elements(
    has_syntax: bool,
    theme: &Theme,
    matching: Option<usize>,
) -> (r: Option<OverlayHighlights>)
    requires
        matching matches Some(p) ==> p < usize::MAX,
    ensures
        overlay_opt(r) == match (exact(entries_of(*theme), "ui.cursor.match"@), matching) {
            (Some(h), Some(p)) => if has_syntax {
                Some(
                    OverlayView::Homogeneous(h, seq![Span { start: p, end: (p + 1) as usize }]),
                )
            } else {
                None
            },
            _ => None,
        },
{
    if !has_syntax {
        return None;
    }
    match (theme.find_highlight_exact("ui.cursor.match"), matching) {
        (Some(highlight), Some(p)) => {
            let ranges = vec![Span { start: p, end: p + 1 }];
            assert(ranges@ =~= seq![Span { start: p, end: (p + 1) as usize }]);
            Some(OverlayHighlights::Homogeneous { highlight, ranges })
        },
        _ => None,
    }
}

/// What the overlays of a view are made of.
pub struct OverlaySources<'a> {
    pub text: &'a Rope,
    pub selection: &'a Selection,
    pub mode: Mode,
    pub has_syntax: bool,
    pub focused: bool,
    pub terminal_focused: bool,
    pub auto_document_highlight: bool,
    pub cursor_shape: CursorShapeConfig,
    pub links: &'a Vec<Span>,
    pub diagnostics: &'a Vec<Diagnostic>,
    pub document_highlights: Option<&'a Vec<Span>>,
    pub matching_bracket: Option<usize>,
}

/// The list of zero or one overlays.
pub open spec fn overlay_list(o: Option<OverlayView>) -> Seq<OverlayView> {
    match o {
        Some(o) => seq![o],
        None => Seq::empty(),
    }
}

/// The overlay of the symbol that is marked throughout the document, if it is to be shown.
pub open spec fn marked_overlays(s: OverlaySources, theme: Theme) -> Seq<OverlayView> {
    if s.auto_document_highlight {
        overlay_list(
            document_highlights(
                match s.document_highlights {
                    Some(v) => Some(v@),
                    None => None,
                },
                theme,
            ),
        )
    } else {
        Seq::empty()
    }
}

/// The overlay of the selections.
pub open spec fn selection_overlay(s: OverlaySources, theme: Theme) -> OverlayView {
    OverlayView::Heterogenous(
        selection_highlights(
            s.text@,
            s.selection@.0,
            s.selection@.1,
            s.mode,
            selection_scopes(theme, s.mode),
            s.cursor_shape.shape(s.mode) == CursorKind::Block,
            s.terminal_focused,
            s.selection@.0.len() as int,
        ),
    )
}

/// The overlay of the bracket that matches the one under the cursor, if there is one.
pub open spec fn bracket_overlays(s: OverlaySources, theme: Theme) -> Seq<OverlayView> {
    overlay_list(
        match (exact(entries_of(theme), "ui.cursor.match"@), s.matching_bracket) {
            (Some(h), Some(p)) => if s.has_syntax {
                Some(OverlayView::Homogeneous(h, seq![Span { start: p, end: (p + 1) as usize }]))
            } else {
                None
            },
            _ => None,
        },
    )
}

/// The overlays of a view, the later ones over the earlier ones: links, diagnostics, and in the
/// focused view the marked symbol, the selections and the matching bracket.
pub open spec fn view_overlays(s: OverlaySources, theme: Theme) -> Seq<OverlayView> {
    overlay_list(link_highlights(s.links@, theme)) + diagnostic_overlays(s.diagnostics@, theme) + (
    if s.focused {
        marked_overlays(s, theme) + seq![selection_overlay(s, theme)] + bracket_overlays(s, theme)
    } else {
        Seq::empty()
    })
}

proof fn lemma_regroup(
    s: Seq<OverlayView>,
    a: Seq<OverlayView>,
    b: Seq<OverlayView>,
    c: Seq<OverlayView>,
    d: OverlayView,
    e: Seq<OverlayView>,
)
    ensures
        ((s + a + b) + c).push(d) + e == s + (a + b + (c + seq![d] + e)),
        s + a + b == s + (a + b + Seq::<OverlayView>::empty()),
        (s + a + b) + Seq::<OverlayView>::empty() == s + a + b,
{
    assert(((s + a + b) + c).push(d) + e =~= s + (a + b + (c + seq![d] + e)));
    assert(s + a + b =~= s + (a + b + Seq::<OverlayView>::empty()));
    assert((s + a + b) + Seq::<OverlayView>::empty() =~= s + a + b);
}

fn push_optional(out: &mut Vec<OverlayHighlights>, o: Option<OverlayHighlights>)
    ensures
        overlay_views(final(out)@) == overlay_views(old(out)@) + overlay_list(overlay_opt(o)),
{
    let ghost before = overlay_views(out@);
    match o {
        Some(o) => {
            push_overlay(out, o);
            assert(overlay_views(out@) =~= before + seq![o@]);
        },
        None => {
            assert(overlay_views(out@) =~= before + Seq::empty());
        },
    }
}

/// Puts the overlays of a view together, behind those that the syntax gave.
pub fn collect_view_overlays(
    sources: OverlaySources,
    theme: &Theme,
    syntax_overlays: Vec<OverlayHighlights>,
) -> (r: Vec<OverlayHighlights>)
    requires
        sources.text@.len() < usize::MAX,
        diagnostic_fallback(*theme) is Some,
        sources.focused ==> exact(entries_of(*theme), "ui.selection"@) is Some,
        sources.matching_bracket matches Some(p) ==> p < usize::MAX,
    ensures
        overlay_views(r@) == overlay_views(syntax_overlays@) + view_overlays(sources, *theme),
{
    let ghost start = overlay_views(syntax_overlays@);
    proof {
        lemma_regroup(
            start,
            overlay_list(link_highlights(sources.links@, *theme)),
            diagnostic_overlays(sources.diagnostics@, *theme),
            marked_overlays(sources, *theme),
            selection_overlay(sources, *theme),
            bracket_overlays(sources, *theme),
        );
    }
    let mut out = syntax_overlays;
    push_optional(&mut out, doc_document_link_highlights(sources.links, theme));
    doc_diagnostics_highlights_into(sources.diagnostics, theme, &mut out);
    if sources.focused {
        if sources.auto_document_highlight {
            push_optional(&mut out, doc_document_highlights(sources.document_highlights, theme));
        }
        let selections = doc_selection_highlights(
            sources.mode,
            sources.text,
            sources.selection,
            theme,
            &sources.cursor_shape,
            sources.terminal_focused,
        );
        push_overlay(&mut out, selections);
        push_optional(
            &mut out,
            highlight_focused_view_elements(sources.has_syntax, theme, sources.matching_bracket),
        );
    }
    out
}

/// Whether a position is highlighted by one of the spans.
pub open spec fn highlighted(v: Seq<(usize, Span)>, p: int) -> bool {
    exists|i: int| 0 <= i < v.len() && (#[trigger] v[i]).1.start <= p < v[i].1.end
}

/// Whether two positions are the ends of one grapheme.
pub open spec fn one_grapheme(text: Seq<char>, start: int, end: int) -> bool {
    &&& start < end
    &&& is_boundary(text, start)
    &&& is_boundary(text, end)
    &&& forall|b: int| #[trigger] is_boundary(text, b) ==> !(start < b < end)
}

/// Where cursors are drawn here, the highlights of a range that is not empty cover it from its start
/// to its end and nothing else, whichever way it goes, and none of them twice. One of the two is that
/// of the cursor: the grapheme at the head.
pub proof fn law_range_is_covered(
    text: Seq<char>,
    range: Range,
    mode: Mode,
    cursor_scope: usize,
    selection_scope: usize,
)
    requires
        clustered(text),
        text.len() <= usize::MAX,
        range.anchor != range.head,
        range.anchor <= text.len(),
        range.head <= text.len(),
        is_boundary(text, range.anchor as int),
        is_boundary(text, range.head as int),
    ensures
        ({
            let v = range_highlights(text, range, mode, cursor_scope, selection_scope, true, false);
            let c = if range.head > range.anchor {
                1int
            } else {
                0int
            };
            &&& v.len() == 2
            &&& v[c].0 == cursor_scope && v[1 - c].0 == selection_scope
            &&& one_grapheme(text, v[c].1.start as int, v[c].1.end as int)
            &&& if range.head > range.anchor {
                v[c].1.end == range.head && v[1 - c].1.start == range.anchor
            } else {
                v[c].1.start == range.head && v[1 - c].1.end == range.anchor
            }
            &&& forall|p: int|
                highlighted(v, p) <==> (range.anchor <= p < range.head || range.head <= p
                    < range.anchor)
            &&& v[0].1.end == v[1].1.start
        }),
{
    law_boundaries_are_the_nearest(text, range.head as int);
    let v = range_highlights(text, range, mode, cursor_scope, selection_scope, true, false);
    assert(v[0].1.end == v[1].1.start);
    assert forall|p: int|
        highlighted(v, p) <==> (range.anchor <= p < range.head || range.head <= p
            < range.anchor) by {
        if v[0].1.start <= p < v[1].1.end {
            if p < v[0].1.end {
                assert(v[0].1.start <= p < v[0].1.end);
            } else {
                assert(v[1].1.start <= p < v[1].1.end);
            }
        }
    }
}

/// An empty range shows the cursor on the grapheme at it and selects nothing more; at the end of the
/// text it shows the cursor behind the last character.
pub proof fn law_empty_range_shows_its_cursor(
    text: Seq<char>,
    pos: usize,
    mode: Mode,
    cursor_scope: usize,
    selection_scope: usize,
)
    requires
        clustered(text),
        text.len() < usize::MAX,
        pos <= text.len(),
        is_boundary(text, pos as int),
    ensures
        ({
            let range = Range { anchor: pos, head: pos };
            let v = range_highlights(text, range, mode, cursor_scope, selection_scope, true, false);
            &&& pos == text.len() ==> v == seq![
                (cursor_scope, Span { start: pos, end: (pos + 1) as usize }),
            ]
            &&& pos < text.len() ==> {
                &&& v.len() == 2
                &&& v[0] == (selection_scope, Span { start: pos, end: pos })
                &&& v[1].0 == cursor_scope && v[1].1.start == pos
                &&& one_grapheme(text, v[1].1.start as int, v[1].1.end as int)
            }
        }),
{
    law_boundaries_are_the_nearest(text, pos as int);
    law_boundaries_step_back(text, pos as int);
}

/// Where the terminal draws the cursor, there is no highlight for it. With a block cursor the rest of
/// the range is highlighted as it would be beside a drawn one; with another shape in the select mode
/// the whole range is.
pub proof fn law_terminal_cursor_is_not_drawn(
    text: Seq<char>,
    range: Range,
    mode: Mode,
    cursor_scope: usize,
    selection_scope: usize,
)
    requires
        range.anchor != range.head,
    ensures
        ({
            let drawn = range_highlights(text, range, mode, cursor_scope, selection_scope, true, false);
            let c = if range.head > range.anchor {
                1int
            } else {
                0int
            };
            let v = range_highlights(text, range, mode, cursor_scope, selection_scope, false, false);
            v == seq![drawn[1 - c]]
        }),
        mode != Mode::Normal ==> range_highlights(
            text,
            range,
            mode,
            cursor_scope,
            selection_scope,
            false,
            true,
        ) == seq![(selection_scope, Span { start: range.start(), end: range.end() })],
{
    let v = range_highlights(text, range, mode, cursor_scope, selection_scope, false, false);
    let drawn = range_highlights(text, range, mode, cursor_scope, selection_scope, true, false);
    let c = if range.head > range.anchor {
        1int
    } else {
        0int
    };
    assert(v =~= seq![drawn[1 - c]]);
    assert(mode != Mode::Normal ==> range_highlights(
        text,
        range,
        mode,
        cursor_scope,
        selection_scope,
        false,
        true,
    ) =~= seq![(selection_scope, Span { start: range.start(), end: range.end() })]);
}

/// The highlights of every range are among those of a selection, in one piece and in the order of
/// the ranges. The primary range has its own scopes, and its cursor is drawn here only as a block in
/// a focused terminal; the others are always drawn.
pub proof fn law_every_range_is_highlighted(
    text: Seq<char>,
    ranges: Seq<Range>,
    primary: int,
    mode: Mode,
    scopes: SelectionScopes,
    block: bool,
    focused: bool,
    n: int,
    k: int,
) -> (at: int)
    requires
        0 <= k < n <= ranges.len(),
    ensures
        ({
            let all = selection_highlights(text, ranges, primary, mode, scopes, block, focused, n);
            let own = if k == primary {
                range_highlights(
                    text,
                    ranges[k],
                    mode,
                    scopes.primary_cursor,
                    scopes.primary_selection,
                    block && focused,
                    !block,
                )
            } else {
                range_highlights(
                    text,
                    ranges[k],
                    mode,
                    scopes.cursor,
                    scopes.selection,
                    true,
                    false,
                )
            };
            &&& 0 <= at <= at + own.len() <= all.len()
            &&& all.subrange(at, at + own.len()) == own
            &&& k == 0 ==> at == 0
            &&& k == n - 1 ==> at + own.len() == all.len()
        }),
    decreases n,
{
    let prev = selection_highlights(text, ranges, primary, mode, scopes, block, focused, n - 1);
    let all = selection_highlights(text, ranges, primary, mode, scopes, block, focused, n);
    if k == n - 1 {
        if n == 1 {
            assert(prev.len() == 0);
        }
        let own = all.subrange(prev.len() as int, all.len() as int);
        assert(all =~= prev + own);
        let part = range_highlights(
            text,
            ranges[n - 1],
            mode,
            if k == primary {
                scopes.primary_cursor
            } else {
                scopes.cursor
            },
            if k == primary {
                scopes.primary_selection
            } else {
                scopes.selection
            },
            k != primary || (block && focused),
            k == primary && !block,
        );
        assert(all =~= prev + part);
        assert(own =~= part);
        prev.len() as int
    } else {
        let at = law_every_range_is_highlighted(
            text,
            ranges,
            primary,
            mode,
            scopes,
            block,
            focused,
            n - 1,
            k,
        );
        assert(prev =~= all.take(prev.len() as int));
        let own = if k == primary {
            range_highlights(
                text,
                ranges[k],
                mode,
                scopes.primary_cursor,
                scopes.primary_selection,
                block && focused,
                !block,
            )
        } else {
            range_highlights(text, ranges[k], mode, scopes.cursor, scopes.selection, true, false)
        };
        assert(all.subrange(at, at + own.len()) =~= prev.subrange(at, at + own.len()));
        at
    }
}

/// A theme's own scope for a cursor or selection counts; without it the more general one does: that
/// of the mode, of cursors, and of selections at last.
pub proof fn law_selection_scopes_fall_back(theme: Theme, mode: Mode)
    requires
        exact(entries_of(theme), "ui.selection"@) is Some,
    ensures
        ({
            let e = entries_of(theme);
            let s = selection_scopes(theme, mode);
            &&& exact(e, "ui.selection"@) == Some(s.selection)
            &&& exact(e, "ui.selection.primary"@) matches Some(h) ==> s.primary_selection == h
            &&& exact(e, "ui.selection.primary"@) is None ==> s.primary_selection == s.selection
            &&& mode == Mode::Normal ==> (exact(e, "ui.cursor.normal"@) matches Some(h) ==> s.cursor
                == h)
            &&& mode == Mode::Select ==> (exact(e, "ui.cursor.select"@) matches Some(h) ==> s.cursor
                == h)
            &&& mode == Mode::Normal ==> (exact(e, "ui.cursor.primary.normal"@) matches Some(h)
                ==> s.primary_cursor == h)
            &&& mode == Mode::Select ==> (exact(e, "ui.cursor.primary.select"@) matches Some(h)
                ==> s.primary_cursor == h)
            &&& exact(e, "ui.cursor.normal"@) is None && exact(e, "ui.cursor.select"@) is None ==> (
            exact(e, "ui.cursor"@) matches Some(h) ==> s.cursor == h)
            &&& exact(e, "ui.cursor.normal"@) is None && exact(e, "ui.cursor.select"@) is None
                && exact(e, "ui.cursor"@) is None ==> s.cursor == s.selection
        }),
{
}

/// Diagnostics are shown in the class of their severity and of their tags: errors and warnings
/// always, informations, hints and those without severity only if they have no tag.
pub proof fn law_classes_of_a_diagnostic(d: Diagnostic)
    ensures
        in_class(d, DiagnosticClass::Error) <==> d.severity == Some(Severity::Error),
        in_class(d, DiagnosticClass::Warning) <==> d.severity == Some(Severity::Warning),
        in_class(d, DiagnosticClass::Info) <==> d.severity == Some(Severity::Info) && d.tags@.len()
            == 0,
        in_class(d, DiagnosticClass::Hint) <==> d.severity == Some(Severity::Hint) && d.tags@.len()
            == 0,
        in_class(d, DiagnosticClass::Plain) <==> d.severity is None && d.tags@.len() == 0,
        in_class(d, DiagnosticClass::Unnecessary) <==> d.tags@.contains(DiagnosticTag::Unnecessary),
        in_class(d, DiagnosticClass::Deprecated) <==> d.tags@.contains(DiagnosticTag::Deprecated),
{
    if d.tags@.contains(DiagnosticTag::Unnecessary) {
        let k = choose|k: int| 0 <= k < d.tags@.len() && d.tags@[k] == DiagnosticTag::Unnecessary;
        assert(class_of_tag(d.tags@[k]) == DiagnosticClass::Unnecessary);
    }
    if d.tags@.contains(DiagnosticTag::Deprecated) {
        let k = choose|k: int| 0 <= k < d.tags@.len() && d.tags@[k] == DiagnosticTag::Deprecated;
        assert(class_of_tag(d.tags@[k]) == DiagnosticClass::Deprecated);
    }
}

/// Graver diagnostics are drawn over others: errors last, before them warnings, hints and
/// informations, and under all of them those without severity. Each class has the ranges of its own
/// diagnostics, in its own scope where the theme has one.
pub proof fn law_graver_diagnostics_are_drawn_later(ds: Seq<Diagnostic>, theme: Theme)
    requires
        diagnostic_fallback(theme) is Some,
    ensures
        ({
            let e = entries_of(theme);
            let v = diagnostic_overlays(ds, theme);
            let n = v.len() as int;
            let m = ds.len() as int;
            let ranges = |c: DiagnosticClass| class_ranges(ds, c, m);
            &&& 5 <= n <= 7
            &&& v[n - 1]->Homogeneous_1 == ranges(DiagnosticClass::Error)
            &&& v[n - 2]->Homogeneous_1 == ranges(DiagnosticClass::Warning)
            &&& v[n - 3]->Homogeneous_1 == ranges(DiagnosticClass::Hint)
            &&& v[n - 4]->Homogeneous_1 == ranges(DiagnosticClass::Info)
            &&& v[0]->Homogeneous_1 == ranges(DiagnosticClass::Plain)
            &&& forall|i: int| 0 <= i < n ==> #[trigger] v[i] is Homogeneous
            &&& exact(e, "diagnostic.error"@) matches Some(h) ==> v[n - 1]->Homogeneous_0 == h
            &&& exact(e, "diagnostic.warning"@) matches Some(h) ==> v[n - 2]->Homogeneous_0 == h
            &&& exact(e, "diagnostic.hint"@) matches Some(h) ==> v[n - 3]->Homogeneous_0 == h
            &&& exact(e, "diagnostic.info"@) matches Some(h) ==> v[n - 4]->Homogeneous_0 == h
            &&& exact(e, "diagnostic"@) matches Some(h) ==> v[0]->Homogeneous_0 == h
            &&& exact(e, "diagnostic.unnecessary"@) matches Some(h) ==> v[1]
                == OverlayView::Homogeneous(h, ranges(DiagnosticClass::Unnecessary))
            &&& exact(e, "diagnostic.deprecated"@) matches Some(h) ==> v[n - 5]
                == OverlayView::Homogeneous(h, ranges(DiagnosticClass::Deprecated))
            &&& exact(e, "diagnostic.unnecessary"@) is None && exact(
                e,
                "diagnostic.deprecated"@,
            ) is None ==> n == 5
        }),
{
}

/// A kind of diagnostics without a scope of its own has that of diagnostics in general; without that
/// it has that of cursors, and at last that of selections.
pub proof fn law_diagnostic_scopes_fall_back(theme: Theme, scope: Seq<char>)
    requires
        exact(entries_of(theme), "ui.selection"@) is Some,
    ensures
        ({
            let e = entries_of(theme);
            let found = diagnostic_scope(theme, scope);
            &&& exact(e, scope) matches Some(h) ==> found == h
            &&& exact(e, scope) is None ==> (exact(e, "diagnostic"@) matches Some(h) ==> found == h)
            &&& exact(e, scope) is None && exact(e, "diagnostic"@) is None ==> (exact(
                e,
                "ui.cursor"@,
            ) matches Some(h) ==> found == h)
            &&& exact(e, scope) is None && exact(e, "diagnostic"@) is None && exact(
                e,
                "ui.cursor"@,
            ) is None ==> Some(found) == exact(e, "ui.selection"@)
        }),
{
}

/// The lines that can be seen are those of the view that the text has; where it has none of them, the
/// last one of the text is taken. The first of them comes before the last.
pub proof fn law_visible_lines(text: Seq<char>, row: int, height: int)
    requires
        0 <= row,
        0 < height,
    ensures
        0 <= first_visible_line(text, row) <= last_visible_line(text, row, height) < line_count(text),
        row < line_count(text) ==> first_visible_line(text, row) == row,
        row + height <= line_count(text) ==> last_visible_line(text, row, height) == row + height - 1,
        row < line_count(text) < row + height ==> last_visible_line(text, row, height) + 1
            == line_count(text),
{
}

/// A marked symbol is highlighted in every place that it has, with the theme's highlight for it or,
/// without one, that of selections or of cursors.
pub proof fn law_marked_symbol_is_highlighted(ranges: Seq<Span>, theme: Theme)
    requires
        ranges.len() > 0,
    ensures
        ({
            let e = entries_of(theme);
            let v = document_highlights(Some(ranges), theme);
            &&& exact(e, "ui.highlight"@) matches Some(h) ==> v == Some(
                OverlayView::Homogeneous(h, ranges),
            )
            &&& exact(e, "ui.highlight"@) is None ==> (exact(e, "ui.selection"@) matches Some(h)
                ==> v == Some(OverlayView::Homogeneous(h, ranges)))
            &&& exact(e, "ui.highlight"@) is None && exact(e, "ui.selection"@) is None ==> (exact(
                e,
                "ui.cursor"@,
            ) matches Some(h) ==> v == Some(OverlayView::Homogeneous(h, ranges)))
        }),
        document_highlights(None, theme) is None,
        document_highlights(Some(Seq::empty()), theme) is None,
{
}

/// Links are highlighted with the theme's highlight for their addresses, or else that for links, and
/// not at all if there is no link to see.
pub proof fn law_links_are_highlighted(links: Seq<Span>, theme: Theme)
    requires
        starts_rise(links),
    ensures
        ({
            let e = entries_of(theme);
            let v = link_highlights(links, theme);
            &&& (v matches Some(OverlayView::Homogeneous(h, ranges)) ==> {
                &&& forall|p: int| covers(ranges, p) <==> covers(links, p)
                &&& exact(e, "markup.link.url"@) matches Some(own) ==> h == own
                &&& exact(e, "markup.link.url"@) is None ==> exact(e, "markup.link"@) == Some(h)
            })
            &&& !(v matches Some(OverlayView::Heterogenous(_)))
            &&& v is None && (exact(e, "markup.link.url"@) is Some || exact(e, "markup.link"@) is Some)
                ==> forall|p: int| !covers(links, p)
        }),
{
    law_link_ranges_cover(links);
    if link_ranges(links, links.len() as int).len() == 0 {
        assert forall|p: int| !covers(links, p) by {
            assert(covers(link_ranges(links, links.len() as int), p) <==> covers(links, p));
        }
    }
}

/// The overlays of a view that has not the focus are those of its links and diagnostics alone. With
/// the focus they come first; then the marked symbol, over it the selections, and over them the
/// matching bracket.
pub proof fn law_overlays_lie_over_each_other(s: OverlaySources, theme: Theme)
    ensures
        ({
            let all = view_overlays(s, theme);
            let links = overlay_list(link_highlights(s.links@, theme));
            let ds = diagnostic_overlays(s.diagnostics@, theme);
            &&& (links + ds).is_prefix_of(all)
            &&& !s.focused ==> all.len() == links.len() + ds.len()
            &&& s.focused && s.matching_bracket is None ==> all.last() == selection_overlay(s, theme)
            &&& s.focused && !s.has_syntax ==> all.last() == selection_overlay(s, theme)
            &&& s.focused && s.has_syntax ==> (s.matching_bracket matches Some(p) ==> (exact(
                entries_of(theme),
                "ui.cursor.match"@,
            ) matches Some(h) ==> all[all.len() - 2] == selection_overlay(s, theme) && all.last()
                == OverlayView::Homogeneous(h, seq![Span { start: p, end: (p + 1) as usize }])))
            &&& s.focused && !s.auto_document_highlight && s.matching_bracket is None ==> all.len()
                == links.len() + ds.len() + 1
        }),
{
    let all = view_overlays(s, theme);
    let links = overlay_list(link_highlights(s.links@, theme));
    let ds = diagnostic_overlays(s.diagnostics@, theme);
    assert((links + ds) =~= all.take((links.len() + ds.len()) as int));
}

} // verus!
