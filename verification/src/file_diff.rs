//! Differences between two versions of a file, as hunks with context lines.
use crate::strings::decimal;
use crate::strings::decimal_digits;
use crate::strings::digits_value;
use crate::strings::law_decimal_reads_back;
use crate::strings::texts;
use vstd::prelude::*;
use vstd::string::*;

verus! {

/// What a line of a hunk stands for.
#[derive(Debug, Clone, Copy, PartialEq, Eq, Structural)]
pub enum DiffLineKind {
    /// A line of both versions.
    Context,
    /// A line of the new version only.
    Added,
    /// A line of the old version only.
    Deleted,
    /// The line that opens a hunk.
    HunkHeader,
}

/// A run of changes with the lines around it. Line numbers start at 1.
#[derive(Debug, Clone)]
pub struct FileDiffHunk {
    pub old_start: usize,
    pub old_count: usize,
    pub new_start: usize,
    pub new_count: usize,
    pub lines: Vec<(DiffLineKind, String)>,
}

/// The hunks of one file.
#[derive(Debug, Clone)]
pub struct FileDiff {
    /// The path relative to the work tree.
    pub path: String,
    /// `A`dded, `D`eleted, `M`odified or `R`enamed.
    pub change_kind: char,
    pub hunks: Vec<FileDiffHunk>,
}

/// A hunk, with the texts of its lines.
#[verifier::ext_equal]
pub struct HunkView {
    pub old_start: int,
    pub old_count: int,
    pub new_start: int,
    pub new_count: int,
    pub lines: Seq<(DiffLineKind, Seq<char>)>,
}

/// The kinds and texts of a list of lines.
pub open spec fn line_views(lines: Seq<(DiffLineKind, String)>) -> Seq<(DiffLineKind, Seq<char>)> {
    lines.map_values(|p: (DiffLineKind, String)| (p.0, p.1@))
}

impl View for FileDiffHunk {
    type V = HunkView;

    open spec fn view(&self) -> HunkView {
        HunkView {
            old_start: self.old_start as int,
            old_count: self.old_count as int,
            new_start: self.new_start as int,
            new_count: self.new_count as int,
            lines: line_views(self.lines@),
        }
    }
}

/// The views of a list of hunks.
pub open spec fn hunk_views(hunks: Seq<FileDiffHunk>) -> Seq<HunkView> {
    hunks.map_values(|h: FileDiffHunk| h@)
}

/// A replaced range of lines: start and end in the old version, start and end in the new one,
/// counted from 0, each end excluded.
pub type RawHunk = (u32, u32, u32, u32);

/// The position behind the first newline at or after `i`, or the length of the text.
pub open spec fn line_end(s: Seq<char>, i: int) -> int
    decreases s.len() - i,
{
    if i >= s.len() {
        s.len() as int
    } else if s[i] == '\n' {
        i + 1
    } else {
        line_end(s, i + 1)
    }
}

proof fn lemma_line_end(s: Seq<char>, i: int)
    requires
        0 <= i < s.len(),
    ensures
        i < line_end(s, i) <= s.len(),
    decreases s.len() - i,
{
    if s[i] != '\n' {
        if i + 1 < s.len() {
            lemma_line_end(s, i + 1);
        } else {
            assert(line_end(s, i + 1) == s.len());
        }
    }
}

/// The lines of the text from `i` on, each with the newline that ends it.
pub open spec fn lines_from(s: Seq<char>, i: int) -> Seq<Seq<char>>
    decreases s.len() - i,
    via lines_from_decreases
{
    if i < 0 || i >= s.len() {
        Seq::empty()
    } else {
        seq![s.subrange(i, line_end(s, i))] + lines_from(s, line_end(s, i))
    }
}

#[via_fn]
proof fn lines_from_decreases(s: Seq<char>, i: int) {
    if 0 <= i < s.len() {
        lemma_line_end(s, i);
    }
}

/// The lines of a text, each with the newline that ends it.
pub open spec fn lines_of(s: Seq<char>) -> Seq<Seq<char>> {
    lines_from(s, 0)
}

/// Cuts a text into its lines; every line keeps its newline.
pub fn split_lines(text: &str) -> (r: Vec<String>)
    ensures
        texts(r@) == lines_of(text@),
{
    let mut out: Vec<String> = Vec::new();
    let mut line = String::new();
    let ghost s = text@;
    let ghost mut start: int = 0;
    proof {
        assert(s.subrange(0, 0) =~= Seq::<char>::empty());
    }
    for c in it: text.chars()
        invariant
            s == text@,
            it.seq() == s,
            0 <= start <= it.index() <= s.len(),
            line@ == s.subrange(start, it.index() as int),
            start < s.len() ==> line_end(s, start) == line_end(s, it.index() as int),
            texts(out@) + lines_from(s, start) == lines_of(s),
    {
        let ghost i = it.index() as int;
        assert(s[i] == c);
        line.push(c);
        assert(line@ =~= s.subrange(start, i + 1));
        if c == '\n' {
            let ghost before = out@;
            out.push(line);
            line = String::new();
            proof {
                assert(line_end(s, start) == i + 1);
                assert(texts(out@) =~= texts(before) + seq![s.subrange(start, i + 1)]);
                assert(lines_from(s, start) == seq![s.subrange(start, i + 1)] + lines_from(s, i + 1));
                assert(texts(out@) + lines_from(s, i + 1) =~= texts(before) + lines_from(s, start));
                start = i + 1;
                assert(s.subrange(start, i + 1) =~= Seq::<char>::empty());
            }
        }
    }
    if line.as_str().unicode_len() > 0 {
        let ghost before = out@;
        proof {
            assert(line_end(s, start) == s.len());
            assert(lines_from(s, s.len() as int) =~= Seq::<Seq<char>>::empty());
            assert(lines_from(s, start) =~= seq![s.subrange(start, s.len() as int)]);
        }
        out.push(line);
        assert(texts(out@) =~= texts(before) + seq![line@]);
    } else {
        assert(lines_from(s, start) =~= Seq::<Seq<char>>::empty());
        assert(texts(out@) =~= lines_of(s));
    }
    out
}

/// A line without the newline that ends it.
pub open spec fn stripped(l: Seq<char>) -> Seq<char> {
    if l.len() > 0 && l.last() == '\n' {
        l.drop_last()
    } else {
        l
    }
}

fn strip_newline(s: &str) -> (r: &str)
    ensures
        r@ == stripped(s@),
{
    let n: usize = s.unicode_len();
    if n > 0 && s.get_char(n - 1) == '\n' {
        let r = s.substring_char(0, n - 1);
        assert(r@ =~= s@.drop_last());
        r
    } else {
        s
    }
}

/// Lines `from..to` without their newlines, each marked with `kind`.
pub open spec fn marked(kind: DiffLineKind, lines: Seq<Seq<char>>, from: int, to: int) -> Seq<
    (DiffLineKind, Seq<char>),
> {
    Seq::new(
        if from <= to {
            (to - from) as nat
        } else {
            0
        },
        |i: int| (kind, stripped(lines[from + i])),
    )
}

/// Where the kept lines before the `k`-th replaced range start in the old version.
pub open spec fn old_end(h: Seq<RawHunk>, k: int) -> int {
    if k <= 0 {
        0
    } else {
        h[k - 1].1 as int
    }
}

/// Where the kept lines before the `k`-th replaced range start in the new version.
pub open spec fn new_end(h: Seq<RawHunk>, k: int) -> int {
    if k <= 0 {
        0
    } else {
        h[k - 1].3 as int
    }
}

/// Where the kept lines before the `k`-th replaced range stop in the old version.
pub open spec fn old_begin(o: Seq<Seq<char>>, h: Seq<RawHunk>, k: int) -> int {
    if k < h.len() {
        h[k].0 as int
    } else {
        o.len() as int
    }
}

/// Where the kept lines before the `k`-th replaced range stop in the new version.
pub open spec fn new_begin(n: Seq<Seq<char>>, h: Seq<RawHunk>, k: int) -> int {
    if k < h.len() {
        h[k].2 as int
    } else {
        n.len() as int
    }
}

/// The lines before the `k`-th replaced range (behind the last one, if `k` is their number) are
/// the same in both versions.
pub open spec fn kept(o: Seq<Seq<char>>, n: Seq<Seq<char>>, h: Seq<RawHunk>, k: int) -> bool {
    &&& old_begin(o, h, k) - old_end(h, k) == new_begin(n, h, k) - new_end(h, k)
    &&& old_begin(o, h, k) >= old_end(h, k)
    &&& o.subrange(old_end(h, k), old_begin(o, h, k)) == n.subrange(
        new_end(h, k),
        new_begin(n, h, k),
    )
}

/// Replacing the ranges `h` turns the lines `o` into the lines `n`.
pub open spec fn edit_script(o: Seq<Seq<char>>, n: Seq<Seq<char>>, h: Seq<RawHunk>) -> bool {
    &&& forall|k: int|
        0 <= k < h.len() ==> (#[trigger] h[k]).0 <= h[k].1 <= o.len() && h[k].2 <= h[k].3
            <= n.len()
    &&& forall|k: int| 0 <= k <= h.len() ==> #[trigger] kept(o, n, h, k)
}

/// How many kept lines lie between a replaced range and the one before it.
pub open spec fn gap(h: Seq<RawHunk>, k: int) -> int {
    let before = h[k].0 - h[k - 1].1;
    let after = h[k].2 - h[k - 1].3;
    if before <= after {
        before
    } else {
        after
    }
}

/// The end of the group that starts with the `i`-th replaced range: ranges with at most six kept
/// lines between them share one hunk.
pub open spec fn group_end(h: Seq<RawHunk>, i: int) -> int
    decreases h.len() - i,
{
    if i + 1 >= h.len() {
        h.len() as int
    } else if gap(h, i + 1) <= 6 {
        group_end(h, i + 1)
    } else {
        i + 1
    }
}

proof fn lemma_group_end(h: Seq<RawHunk>, i: int)
    requires
        0 <= i < h.len(),
    ensures
        i < group_end(h, i) <= h.len(),
        group_end(h, i) < h.len() ==> gap(h, group_end(h, i)) > 6,
    decreases h.len() - i,
{
    if i + 1 < h.len() && gap(h, i + 1) <= 6 {
        lemma_group_end(h, i + 1);
    }
}

/// At most three lines before position `p`.
pub open spec fn context_start(p: int) -> int {
    if p >= 3 {
        p - 3
    } else {
        0
    }
}

/// At most three lines behind position `p`, of `len` lines.
pub open spec fn context_end(p: int, len: int) -> int {
    if p + 3 <= len {
        p + 3
    } else {
        len
    }
}

/// The lines of a hunk from the `k`-th replaced range on; the hunk ends with range `j - 1`, and
/// the old version is shown from line `pos` on.
pub open spec fn hunk_body(
    o: Seq<Seq<char>>,
    n: Seq<Seq<char>>,
    h: Seq<RawHunk>,
    k: int,
    j: int,
    pos: int,
) -> Seq<(DiffLineKind, Seq<char>)>
    decreases j - k,
{
    if k >= j {
        marked(DiffLineKind::Context, o, pos, context_end(old_end(h, j), o.len() as int))
    } else {
        marked(DiffLineKind::Context, o, pos, h[k].0 as int) + marked(
            DiffLineKind::Deleted,
            o,
            h[k].0 as int,
            h[k].1 as int,
        ) + marked(DiffLineKind::Added, n, h[k].2 as int, h[k].3 as int) + hunk_body(
            o,
            n,
            h,
            k + 1,
            j,
            h[k].1 as int,
        )
    }
}

/// The header of a hunk.
pub open spec fn header_text(old_start: int, old_count: int, new_start: int, new_count: int) -> Seq<
    char,
> {
    "@@ -"@ + decimal_digits(old_start as nat) + ","@ + decimal_digits(old_count as nat) + " +"@
        + decimal_digits(new_start as nat) + ","@ + decimal_digits(new_count as nat) + " @@"@
}

/// The texts of the context lines and of the lines marked `kind`.
pub open spec fn side(lines: Seq<(DiffLineKind, Seq<char>)>, kind: DiffLineKind) -> Seq<Seq<char>>
    decreases lines.len(),
{
    if lines.len() == 0 {
        Seq::empty()
    } else if lines.last().0 == kind || lines.last().0 == DiffLineKind::Context {
        side(lines.drop_last(), kind).push(lines.last().1)
    } else {
        side(lines.drop_last(), kind)
    }
}

/// The lines of the hunk of the replaced ranges `i..j`.
pub open spec fn hunk_lines(
    o: Seq<Seq<char>>,
    n: Seq<Seq<char>>,
    h: Seq<RawHunk>,
    i: int,
    j: int,
) -> Seq<(DiffLineKind, Seq<char>)> {
    let old_from = context_start(h[i].0 as int);
    let new_from = context_start(h[i].2 as int);
    let old_to = context_end(h[j - 1].1 as int, o.len() as int);
    let new_to = context_end(h[j - 1].3 as int, n.len() as int);
    seq![
        (
            DiffLineKind::HunkHeader,
            header_text(old_from + 1, old_to - old_from, new_from + 1, new_to - new_from),
        ),
    ] + hunk_body(o, n, h, i, j, old_from)
}

/// The hunk of the replaced ranges `i..j`.
pub open spec fn hunk_of(
    o: Seq<Seq<char>>,
    n: Seq<Seq<char>>,
    h: Seq<RawHunk>,
    i: int,
    j: int,
) -> HunkView {
    let lines = hunk_lines(o, n, h, i, j);
    HunkView {
        old_start: context_start(h[i].0 as int) + 1,
        old_count: side(lines, DiffLineKind::Deleted).len() as int,
        new_start: context_start(h[i].2 as int) + 1,
        new_count: side(lines, DiffLineKind::Added).len() as int,
        lines,
    }
}

/// The hunks of the replaced ranges from the `i`-th on.
pub open spec fn hunks_from(
    o: Seq<Seq<char>>,
    n: Seq<Seq<char>>,
    h: Seq<RawHunk>,
    i: int,
) -> Seq<HunkView>
    decreases h.len() - i,
    via hunks_from_decreases
{
    if i < 0 || i >= h.len() {
        Seq::empty()
    } else {
        seq![hunk_of(o, n, h, i, group_end(h, i))] + hunks_from(o, n, h, group_end(h, i))
    }
}

#[via_fn]
proof fn hunks_from_decreases(
    o: Seq<Seq<char>>,
    n: Seq<Seq<char>>,
    h: Seq<RawHunk>,
    i: int,
) {
    if 0 <= i < h.len() {
        lemma_group_end(h, i);
    }
}

/// Appends lines `from..to` without their newlines, each marked with `kind`.
fn push_lines(
    out: &mut Vec<(DiffLineKind, String)>,
    kind: DiffLineKind,
    lines: &Vec<String>,
    from: usize,
    to: usize,
)
    requires
        to <= lines@.len(),
    ensures
        line_views(final(out)@) == line_views(old(out)@) + marked(
            kind,
            texts(lines@),
            from as int,
            to as int,
        ),
{
    let ghost start = line_views(out@);
    let mut i: usize = from;
    assert(line_views(out@) =~= start + marked(kind, texts(lines@), from as int, i as int));
    while i < to
        invariant
            to <= lines@.len(),
            from <= i,
            i <= to || i == from,
            line_views(out@) == start + marked(kind, texts(lines@), from as int, i as int),
        decreases to - i,
    {
        let ghost prev = out@;
        out.push((kind, strip_newline(lines[i].as_str()).to_owned()));
        assert(line_views(out@) =~= line_views(prev).push((kind, stripped(lines@[i as int]@))));
        assert(marked(kind, texts(lines@), from as int, i + 1) =~= marked(
            kind,
            texts(lines@),
            from as int,
            i as int,
        ).push((kind, stripped(lines@[i as int]@))));
        i = i + 1;
        assert(line_views(out@) =~= start + marked(kind, texts(lines@), from as int, i as int));
    }
    assert(marked(kind, texts(lines@), from as int, to as int) =~= marked(
        kind,
        texts(lines@),
        from as int,
        i as int,
    ));
}

/// Counts the context lines and the lines marked `kind`.
fn count_side(lines: &Vec<(DiffLineKind, String)>, kind: DiffLineKind) -> (r: usize)
    ensures
        r == side(line_views(lines@), kind).len(),
{
    let mut count: usize = 0;
    let mut i: usize = 0;
    assert(line_views(lines@).take(0) =~= Seq::empty());
    while i < lines.len()
        invariant
            i <= lines@.len(),
            count <= i,
            count == side(line_views(lines@).take(i as int), kind).len(),
        decreases lines@.len() - i,
    {
        let ghost t = line_views(lines@).take(i + 1);
        assert(t.drop_last() =~= line_views(lines@).take(i as int));
        if lines[i].0 == kind || lines[i].0 == DiffLineKind::Context {
            count = count + 1;
        }
        i = i + 1;
    }
    assert(line_views(lines@).take(lines@.len() as int) =~= line_views(lines@));
    count
}

fn header(old_start: u64, old_count: u64, new_start: u64, new_count: u64) -> (r: String)
    ensures
        r@ == header_text(
            old_start as int,
            old_count as int,
            new_start as int,
            new_count as int,
        ),
{
    let mut s = "@@ -".to_owned();
    s.append(decimal(old_start).as_str());
    s.append(",");
    s.append(decimal(old_count).as_str());
    s.append(" +");
    s.append(decimal(new_start).as_str());
    s.append(",");
    s.append(decimal(new_count).as_str());
    s.append(" @@");
    s
}

/// Builds the hunk of the replaced ranges `i..j`.
fn build_hunk(
    old_lines: &Vec<String>,
    new_lines: &Vec<String>,
    hunks: &Vec<RawHunk>,
    i: usize,
    j: usize,
) -> (r: FileDiffHunk)
    requires
        edit_script(texts(old_lines@), texts(new_lines@), hunks@),
        old_lines@.len() < i32::MAX,
        new_lines@.len() < i32::MAX,
        i < j <= hunks@.len(),
    ensures
        r@ == hunk_of(texts(old_lines@), texts(new_lines@), hunks@, i as int, j as int),
{
    let ghost o = texts(old_lines@);
    let ghost n = texts(new_lines@);
    let ghost h = hunks@;
    assert(o.len() == old_lines@.len());
    assert(n.len() == new_lines@.len());
    let first = hunks[i];
    let last = hunks[j - 1];
    assert(h[i as int].0 <= h[i as int].1);
    assert(h[j - 1].1 <= o.len());
    let old_from: usize = (first.0 as usize).saturating_sub(3);
    let new_from: usize = (first.2 as usize).saturating_sub(3);
    let old_to: usize = if last.1 as usize + 3 <= old_lines.len() {
        last.1 as usize + 3
    } else {
        old_lines.len()
    };
    let new_to: usize = if last.3 as usize + 3 <= new_lines.len() {
        last.3 as usize + 3
    } else {
        new_lines.len()
    };
    proof {
        lemma_ordered(o, n, h, i as int, j - 1);
    }
    let mut lines: Vec<(DiffLineKind, String)> = Vec::new();
    lines.push(
        (
            DiffLineKind::HunkHeader,
            header(
                old_from as u64 + 1,
                (old_to - old_from) as u64,
                new_from as u64 + 1,
                (new_to - new_from) as u64,
            ),
        ),
    );
    let ghost target = hunk_lines(o, n, h, i as int, j as int);
    assert(line_views(lines@) + hunk_body(o, n, h, i as int, j as int, old_from as int) =~= target);
    let mut k: usize = i;
    let mut pos: usize = old_from;
    while k < j
        invariant
            i <= k <= j <= hunks@.len(),
            o == texts(old_lines@),
            n == texts(new_lines@),
            h == hunks@,
            edit_script(o, n, h),
            i < j,
            k > i ==> pos == old_end(h, k as int),
            k == i ==> pos <= h[k as int].0,
            line_views(lines@) + hunk_body(o, n, h, k as int, j as int, pos as int) == target,
        decreases j - k,
    {
        let hunk = hunks[k];
        let ghost v0 = line_views(lines@);
        assert(h[k as int].0 <= h[k as int].1 <= o.len());
        push_lines(&mut lines, DiffLineKind::Context, old_lines, pos, hunk.0 as usize);
        push_lines(&mut lines, DiffLineKind::Deleted, old_lines, hunk.0 as usize, hunk.1 as usize);
        push_lines(&mut lines, DiffLineKind::Added, new_lines, hunk.2 as usize, hunk.3 as usize);
        assert(v0 + hunk_body(o, n, h, k as int, j as int, pos as int) =~= line_views(lines@)
            + hunk_body(o, n, h, k + 1, j as int, hunk.1 as int));
        pos = hunk.1 as usize;
        k = k + 1;
    }
    push_lines(&mut lines, DiffLineKind::Context, old_lines, pos, old_to);
    assert(line_views(lines@) =~= target);
    let old_count: usize = count_side(&lines, DiffLineKind::Deleted);
    let new_count: usize = count_side(&lines, DiffLineKind::Added);
    FileDiffHunk { old_start: old_from + 1, old_count, new_start: new_from + 1, new_count, lines }
}

/// The replaced ranges of an edit script come in order.
proof fn lemma_ordered(o: Seq<Seq<char>>, n: Seq<Seq<char>>, h: Seq<RawHunk>, i: int, j: int)
    requires
        edit_script(o, n, h),
        0 <= i <= j < h.len(),
    ensures
        h[i].0 <= h[j].0,
        h[i].1 <= h[j].1,
        h[i].2 <= h[j].2,
        h[i].3 <= h[j].3,
    decreases j - i,
{
    if i < j {
        lemma_ordered(o, n, h, i, j - 1);
        assert(kept(o, n, h, j));
        assert(h[j - 1].0 <= h[j - 1].1);
        assert(h[j].0 <= h[j].1);
    }
}

/// Whether the `k`-th replaced range goes into the hunk of the one before it.
fn shares_hunk(
    old_lines: &Vec<String>,
    new_lines: &Vec<String>,
    hunks: &Vec<RawHunk>,
    k: usize,
) -> (r: bool)
    requires
        edit_script(texts(old_lines@), texts(new_lines@), hunks@),
        0 < k < hunks@.len(),
    ensures
        r == (gap(hunks@, k as int) <= 6),
{
    assert(kept(texts(old_lines@), texts(new_lines@), hunks@, k as int));
    let before: u32 = hunks[k].0 - hunks[k - 1].1;
    let after: u32 = hunks[k].2 - hunks[k - 1].3;
    before <= 6 || after <= 6
}

/// Builds the hunks of a list of replaced ranges.
pub fn hunks_for_lines(
    old_lines: &Vec<String>,
    new_lines: &Vec<String>,
    hunks: &Vec<RawHunk>,
) -> (r: Vec<FileDiffHunk>)
    requires
        edit_script(texts(old_lines@), texts(new_lines@), hunks@),
        old_lines@.len() < i32::MAX,
        new_lines@.len() < i32::MAX,
    ensures
        hunk_views(r@) == hunks_from(texts(old_lines@), texts(new_lines@), hunks@, 0),
{
    let ghost o = texts(old_lines@);
    let ghost n = texts(new_lines@);
    let ghost h = hunks@;
    let mut result: Vec<FileDiffHunk> = Vec::new();
    let mut i: usize = 0;
    assert(hunk_views(result@) + hunks_from(o, n, h, 0) =~= hunks_from(o, n, h, 0));
    while i < hunks.len()
        invariant
            o == texts(old_lines@),
            n == texts(new_lines@),
            h == hunks@,
            edit_script(o, n, h),
            old_lines@.len() < i32::MAX,
            new_lines@.len() < i32::MAX,
            i <= h.len(),
            hunk_views(result@) + hunks_from(o, n, h, i as int) == hunks_from(o, n, h, 0),
        decreases h.len() - i,
    {
        let mut j: usize = i + 1;
        while j < hunks.len() && shares_hunk(old_lines, new_lines, hunks, j)
            invariant
                i < j <= h.len(),
                o == texts(old_lines@),
                n == texts(new_lines@),
                h == hunks@,
                edit_script(o, n, h),
                group_end(h, i as int) == group_end(h, j - 1),
            decreases h.len() - j,
        {
            j = j + 1;
        }
        proof {
            lemma_group_end(h, i as int);
        }
        let ghost before = result@;
        result.push(build_hunk(old_lines, new_lines, hunks, i, j));
        assert(hunk_views(result@) =~= hunk_views(before).push(
            hunk_of(o, n, h, i as int, j as int),
        ));
        assert(hunk_views(result@) + hunks_from(o, n, h, j as int) =~= hunk_views(before)
            + hunks_from(o, n, h, i as int));
        i = j;
    }
    assert(hunk_views(result@) =~= hunks_from(o, n, h, 0));
    result
}

/// `String::from_utf8_lossy`: the characters that it reads from the bytes.
pub uninterp spec fn utf8_lossy(bytes: Seq<u8>) -> Seq<char>;

/// `String::from_utf8_lossy` of std. Its result depends on the bytes alone; bytes that are valid
/// UTF-8 are decoded as they are. How invalid bytes are replaced is not stated.
#[verifier::external_body]
pub(crate) fn from_utf8_lossy(bytes: &[u8]) -> (r: String)
    ensures
        r@ == utf8_lossy(bytes@),
        vstd::utf8::valid_utf8(bytes@) ==> r@ == vstd::utf8::decode_utf8(bytes@),
{
    String::from_utf8_lossy(bytes).into_owned()
}

/// Whether each of the ranges holds an old or a new line.
pub open spec fn all_change(h: Seq<RawHunk>) -> bool {
    forall|k: int| 0 <= k < h.len() ==> (#[trigger] h[k]).0 < h[k].1 || h[k].2 < h[k].3
}

/// The ranges that `imara_diff` replaces between two texts, by its histogram algorithm and after
/// its line postprocessing.
pub uninterp spec fn line_hunks_of(old: Seq<char>, new: Seq<char>) -> Seq<RawHunk>;

/// `imara_diff::Diff::compute` with `Algorithm::Histogram` on the lines of two texts, followed by
/// `postprocess_lines`; the ranges are those of `Diff::hunks`. The result depends on the texts
/// alone, and replacing the ranges turns the old lines into the new ones. No range is empty on both
/// sides, and between equal texts there is none. Which of the possible edit scripts is chosen is
/// not stated. `Diff::compute` panics from `i32::MAX` lines on.
#[verifier::external_body]
fn line_hunks(old: &str, new: &str) -> (r: Vec<RawHunk>)
    requires
        lines_of(old@).len() < i32::MAX,
        lines_of(new@).len() < i32::MAX,
    ensures
        r@ == line_hunks_of(old@, new@),
        edit_script(lines_of(old@), lines_of(new@), r@),
        all_change(r@),
        old@ == new@ ==> r@.len() == 0,
{
    let input = imara_diff::InternedInput::new(old, new);
    let mut diff = imara_diff::Diff::compute(imara_diff::Algorithm::Histogram, &input);
    diff.postprocess_lines(&input);
    diff.hunks().map(|h| (h.before.start, h.before.end, h.after.start, h.after.end)).collect()
}

/// The hunks that describe how the text `old` became the text `new`.
pub open spec fn text_hunks(old: Seq<char>, new: Seq<char>) -> Seq<HunkView> {
    hunks_from(lines_of(old), lines_of(new), line_hunks_of(old, new), 0)
}

/// Builds the hunks for the old and the new content of a file, with up to three context lines
/// around each change.
pub fn structured_diff_for_blobs(old: &[u8], new: &[u8]) -> (r: Vec<FileDiffHunk>)
    requires
        lines_of(utf8_lossy(old@)).len() < i32::MAX,
        lines_of(utf8_lossy(new@)).len() < i32::MAX,
    ensures
        hunk_views(r@) == text_hunks(utf8_lossy(old@), utf8_lossy(new@)),
        edit_script(
            lines_of(utf8_lossy(old@)),
            lines_of(utf8_lossy(new@)),
            line_hunks_of(utf8_lossy(old@), utf8_lossy(new@)),
        ),
        all_change(line_hunks_of(utf8_lossy(old@), utf8_lossy(new@))),
        utf8_lossy(old@) == utf8_lossy(new@) ==> r@.len() == 0,
{
    let old_text = from_utf8_lossy(old);
    let new_text = from_utf8_lossy(new);
    let hunks = line_hunks(old_text.as_str(), new_text.as_str());
    let old_lines = split_lines(old_text.as_str());
    let new_lines = split_lines(new_text.as_str());
    assert(texts(old_lines@).len() == old_lines@.len());
    assert(texts(new_lines@).len() == new_lines@.len());
    let r = hunks_for_lines(&old_lines, &new_lines, &hunks);
    assert(hunk_views(r@).len() == r@.len());
    r
}

/// Like `structured_diff_for_blobs`, for contents of any size: `None` if either version has too
/// many lines to be compared.
pub fn try_structured_diff_for_blobs(old: &[u8], new: &[u8]) -> (r: Option<Vec<FileDiffHunk>>)
    ensures
        match r {
            Some(hunks) => hunk_views(hunks@) == text_hunks(utf8_lossy(old@), utf8_lossy(new@)) && (
            utf8_lossy(old@) == utf8_lossy(new@) ==> hunks@.len() == 0),
            None => true,
        },
        r is Some <==> lines_of(utf8_lossy(old@)).len() < i32::MAX && lines_of(
            utf8_lossy(new@),
        ).len() < i32::MAX,
{
    let old_lines = split_lines(from_utf8_lossy(old).as_str());
    let new_lines = split_lines(from_utf8_lossy(new).as_str());
    assert(texts(old_lines@).len() == old_lines@.len());
    assert(texts(new_lines@).len() == new_lines@.len());
    if old_lines.len() < 0x7fff_ffff && new_lines.len() < 0x7fff_ffff {
        Some(structured_diff_for_blobs(old, new))
    } else {
        None
    }
}

/// Lines `from..to` without their newlines.
pub open spec fn stripped_lines(lines: Seq<Seq<char>>, from: int, to: int) -> Seq<Seq<char>> {
    Seq::new(
        if from <= to {
            (to - from) as nat
        } else {
            0
        },
        |i: int| stripped(lines[from + i]),
    )
}

pub proof fn lemma_side_add(
    a: Seq<(DiffLineKind, Seq<char>)>,
    b: Seq<(DiffLineKind, Seq<char>)>,
    kind: DiffLineKind,
)
    ensures
        side(a + b, kind) == side(a, kind) + side(b, kind),
    decreases b.len(),
{
    if b.len() == 0 {
        assert(a + b =~= a);
        assert(side(a, kind) + side(b, kind) =~= side(a, kind));
    } else {
        assert((a + b).drop_last() =~= a + b.drop_last());
        lemma_side_add(a, b.drop_last(), kind);
        assert(side(a + b, kind) =~= side(a, kind) + side(b, kind));
    }
}

proof fn lemma_side_marked(
    mark: DiffLineKind,
    lines: Seq<Seq<char>>,
    from: int,
    to: int,
    kind: DiffLineKind,
)
    ensures
        side(marked(mark, lines, from, to), kind) == if mark == kind || mark
            == DiffLineKind::Context {
            stripped_lines(lines, from, to)
        } else {
            Seq::empty()
        },
    decreases to - from,
{
    let m = marked(mark, lines, from, to);
    if from < to {
        assert(m.drop_last() =~= marked(mark, lines, from, to - 1));
        lemma_side_marked(mark, lines, from, to - 1, kind);
        assert(side(m, kind) =~= if mark == kind || mark == DiffLineKind::Context {
            stripped_lines(lines, from, to)
        } else {
            Seq::empty()
        });
    } else {
        assert(stripped_lines(lines, from, to) =~= Seq::<Seq<char>>::empty());
    }
}

/// The kept lines before the `k`-th replaced range are the same, also without their newlines.
proof fn lemma_kept_range(
    o: Seq<Seq<char>>,
    n: Seq<Seq<char>>,
    h: Seq<RawHunk>,
    k: int,
    from: int,
    to: int,
)
    requires
        edit_script(o, n, h),
        0 <= k <= h.len(),
        old_end(h, k) <= from,
        to <= old_begin(o, h, k),
    ensures
        stripped_lines(o, from, to) == stripped_lines(
            n,
            from - old_end(h, k) + new_end(h, k),
            to - old_end(h, k) + new_end(h, k),
        ),
{
    assert(kept(o, n, h, k));
    let a = old_end(h, k);
    let b = new_end(h, k);
    let so = o.subrange(a, old_begin(o, h, k));
    let sn = n.subrange(b, new_begin(n, h, k));
    lemma_bounds(o, n, h, k);
    assert forall|i: int| 0 <= i < to - from implies #[trigger] stripped_lines(o, from, to)[i]
        == stripped_lines(n, from - a + b, to - a + b)[i] by {
        assert(so[from + i - a] == sn[from + i - a]);
    }
    assert(stripped_lines(o, from, to) =~= stripped_lines(n, from - a + b, to - a + b));
}

proof fn lemma_bounds(o: Seq<Seq<char>>, n: Seq<Seq<char>>, h: Seq<RawHunk>, k: int)
    requires
        edit_script(o, n, h),
        0 <= k <= h.len(),
    ensures
        0 <= old_end(h, k) <= old_begin(o, h, k) <= o.len(),
        0 <= new_end(h, k) <= new_begin(n, h, k) <= n.len(),
{
    assert(kept(o, n, h, k));
    if k < h.len() {
        assert(h[k].0 <= h[k].1);
    }
    if k > 0 {
        assert(h[k - 1].0 <= h[k - 1].1);
    }
}

proof fn lemma_stripped_join(lines: Seq<Seq<char>>, a: int, b: int, c: int)
    requires
        a <= b <= c,
    ensures
        stripped_lines(lines, a, b) + stripped_lines(lines, b, c) == stripped_lines(lines, a, c),
{
    assert(stripped_lines(lines, a, b) + stripped_lines(lines, b, c) =~= stripped_lines(
        lines,
        a,
        c,
    ));
}

/// What the lines of a hunk from the `k`-th replaced range on show of either version.
proof fn lemma_body_sides(
    o: Seq<Seq<char>>,
    n: Seq<Seq<char>>,
    h: Seq<RawHunk>,
    k: int,
    j: int,
    pos: int,
)
    requires
        edit_script(o, n, h),
        0 <= k <= j <= h.len(),
        0 < j,
        j < h.len() ==> gap(h, j) > 6,
        k < j ==> old_end(h, k) <= pos <= old_begin(o, h, k),
        k == j ==> pos == old_end(h, k),
    ensures
        side(hunk_body(o, n, h, k, j, pos), DiffLineKind::Deleted) == stripped_lines(
            o,
            pos,
            context_end(old_end(h, j), o.len() as int),
        ),
        side(hunk_body(o, n, h, k, j, pos), DiffLineKind::Added) == stripped_lines(
            n,
            pos - old_end(h, k) + new_end(h, k),
            context_end(new_end(h, j), n.len() as int),
        ),
    decreases j - k,
{
    let del = DiffLineKind::Deleted;
    let added = DiffLineKind::Added;
    let old_to = context_end(old_end(h, j), o.len() as int);
    let new_to = context_end(new_end(h, j), n.len() as int);
    let new_pos = pos - old_end(h, k) + new_end(h, k);
    lemma_bounds(o, n, h, k);
    lemma_bounds(o, n, h, j);
    if k == j {
        lemma_side_marked(DiffLineKind::Context, o, pos, old_to, del);
        lemma_side_marked(DiffLineKind::Context, o, pos, old_to, added);
        assert(kept(o, n, h, j));
        lemma_kept_range(o, n, h, j, pos, old_to);
    } else {
        let (bs, be, ns, ne) = (h[k].0 as int, h[k].1 as int, h[k].2 as int, h[k].3 as int);
        assert(h[k].0 <= h[k].1 && h[k].2 <= h[k].3);
        assert(kept(o, n, h, k));
        let context = marked(DiffLineKind::Context, o, pos, bs);
        let deleted = marked(del, o, bs, be);
        let inserted = marked(added, n, ns, ne);
        let rest = hunk_body(o, n, h, k + 1, j, be);
        lemma_bounds(o, n, h, k + 1);
        lemma_body_sides(o, n, h, k + 1, j, be);
        lemma_ordered(o, n, h, k, j - 1);
        lemma_side_add(context + deleted + inserted, rest, del);
        lemma_side_add(context + deleted, inserted, del);
        lemma_side_add(context, deleted, del);
        lemma_side_add(context + deleted + inserted, rest, added);
        lemma_side_add(context + deleted, inserted, added);
        lemma_side_add(context, deleted, added);
        lemma_side_marked(DiffLineKind::Context, o, pos, bs, del);
        lemma_side_marked(DiffLineKind::Context, o, pos, bs, added);
        lemma_side_marked(del, o, bs, be, del);
        lemma_side_marked(del, o, bs, be, added);
        lemma_side_marked(added, n, ns, ne, del);
        lemma_side_marked(added, n, ns, ne, added);
        lemma_kept_range(o, n, h, k, pos, bs);
        assert(side(hunk_body(o, n, h, k, j, pos), del) =~= stripped_lines(o, pos, bs)
            + stripped_lines(o, bs, be) + stripped_lines(o, be, old_to));
        lemma_stripped_join(o, pos, bs, be);
        lemma_stripped_join(o, pos, be, old_to);
        assert(side(hunk_body(o, n, h, k, j, pos), added) =~= stripped_lines(n, new_pos, ns)
            + stripped_lines(n, ns, ne) + stripped_lines(n, ne, new_to));
        lemma_stripped_join(n, new_pos, ns, ne);
        lemma_stripped_join(n, new_pos, ne, new_to);
    }
}

/// Whether a group of replaced ranges starts with the `i`-th one.
pub open spec fn group_start(h: Seq<RawHunk>, i: int) -> bool {
    0 <= i < h.len() && (i > 0 ==> gap(h, i) > 6)
}

/// A hunk's lines show, of either version, exactly the lines that the hunk's start and count name,
/// and the header tells the same counts.
pub proof fn law_hunk_shows_both_versions(
    o: Seq<Seq<char>>,
    n: Seq<Seq<char>>,
    h: Seq<RawHunk>,
    i: int,
)
    requires
        edit_script(o, n, h),
        group_start(h, i),
    ensures
        ({
            let v = hunk_of(o, n, h, i, group_end(h, i));
            &&& side(v.lines, DiffLineKind::Deleted) == stripped_lines(
                o,
                v.old_start - 1,
                v.old_start - 1 + v.old_count,
            )
            &&& side(v.lines, DiffLineKind::Added) == stripped_lines(
                n,
                v.new_start - 1,
                v.new_start - 1 + v.new_count,
            )
            &&& v.lines[0] == (
                DiffLineKind::HunkHeader,
                header_text(v.old_start, v.old_count, v.new_start, v.new_count),
            )
            &&& v.old_start - 1 + v.old_count == context_end(
                old_end(h, group_end(h, i)),
                o.len() as int,
            )
            &&& v.new_start - 1 + v.new_count == context_end(
                new_end(h, group_end(h, i)),
                n.len() as int,
            )
        }),
{
    let j = group_end(h, i);
    lemma_group_end(h, i);
    lemma_bounds(o, n, h, i);
    lemma_bounds(o, n, h, j);
    lemma_ordered(o, n, h, i, j - 1);
    assert(kept(o, n, h, i));
    assert(h[i].0 <= h[i].1 && h[i].2 <= h[i].3);
    let v = hunk_of(o, n, h, i, j);
    let pos = context_start(h[i].0 as int);
    let body = hunk_body(o, n, h, i, j, pos);
    let head = seq![v.lines[0]];
    assert(v.lines =~= head + body);
    lemma_body_sides(o, n, h, i, j, pos);
    lemma_side_add(head, body, DiffLineKind::Deleted);
    lemma_side_add(head, body, DiffLineKind::Added);
    assert(head.drop_last() =~= Seq::empty());
    reveal_with_fuel(side, 2);
    assert(side(head, DiffLineKind::Deleted) =~= Seq::empty());
    assert(side(head, DiffLineKind::Added) =~= Seq::empty());
    assert(side(v.lines, DiffLineKind::Deleted) =~= side(body, DiffLineKind::Deleted));
    assert(side(v.lines, DiffLineKind::Added) =~= side(body, DiffLineKind::Added));
}

/// The lines `o` from `pos` on, with what every hunk shows of the old version replaced by what it
/// shows of the new one.
pub open spec fn patched_from(o: Seq<Seq<char>>, hunks: Seq<HunkView>, pos: int) -> Seq<Seq<char>>
    decreases hunks.len(),
{
    if hunks.len() == 0 {
        stripped_lines(o, pos, o.len() as int)
    } else {
        stripped_lines(o, pos, hunks[0].old_start - 1) + side(hunks[0].lines, DiffLineKind::Added)
            + patched_from(o, hunks.drop_first(), hunks[0].old_start - 1 + hunks[0].old_count)
    }
}

proof fn lemma_patched_from(
    o: Seq<Seq<char>>,
    n: Seq<Seq<char>>,
    h: Seq<RawHunk>,
    i: int,
)
    requires
        edit_script(o, n, h),
        group_start(h, i) || i == h.len(),
    ensures
        ({
            let pos = if i == 0 {
                0
            } else {
                context_end(old_end(h, i), o.len() as int)
            };
            let new_pos = if i == 0 {
                0
            } else {
                context_end(new_end(h, i), n.len() as int)
            };
            patched_from(o, hunks_from(o, n, h, i), pos) == stripped_lines(
                n,
                new_pos,
                n.len() as int,
            )
        }),
    decreases h.len() - i,
{
    let pos = if i == 0 {
        0
    } else {
        context_end(old_end(h, i), o.len() as int)
    };
    let new_pos = if i == 0 {
        0
    } else {
        context_end(new_end(h, i), n.len() as int)
    };
    lemma_bounds(o, n, h, i);
    assert(kept(o, n, h, i));
    if i == h.len() {
        lemma_kept_range(o, n, h, i, pos, o.len() as int);
    } else {
        let j = group_end(h, i);
        lemma_group_end(h, i);
        let all = hunks_from(o, n, h, i);
        let v = hunk_of(o, n, h, i, j);
        assert(all[0] == v);
        assert(all.drop_first() =~= hunks_from(o, n, h, j));
        law_hunk_shows_both_versions(o, n, h, i);
        lemma_patched_from(o, n, h, j);
        lemma_kept_range(o, n, h, i, pos, v.old_start - 1);
        lemma_bounds(o, n, h, j);
        lemma_ordered(o, n, h, i, j - 1);
        assert(h[i].0 <= h[i].1 && h[i].2 <= h[i].3);
        let new_to = context_end(new_end(h, j), n.len() as int);
        lemma_stripped_join(n, new_pos, v.new_start - 1, new_to);
        lemma_stripped_join(n, new_pos, new_to, n.len() as int);
    }
}

/// Replacing, in the old lines, what every hunk shows of the old version by what it shows of the
/// new one gives the new lines (newlines aside).
pub proof fn law_hunks_turn_old_into_new(o: Seq<Seq<char>>, n: Seq<Seq<char>>, h: Seq<RawHunk>)
    requires
        edit_script(o, n, h),
    ensures
        patched_from(o, hunks_from(o, n, h, 0), 0) == stripped_lines(n, 0, n.len() as int),
{
    lemma_patched_from(o, n, h, 0);
}

proof fn lemma_concat_lines(s: Seq<char>, i: int)
    requires
        0 <= i <= s.len(),
    ensures
        lines_from(s, i).flatten() == s.subrange(i, s.len() as int),
    decreases s.len() - i,
{
    if i < s.len() {
        lemma_line_end(s, i);
        let e = line_end(s, i);
        lemma_concat_lines(s, e);
        let l = lines_from(s, i);
        assert(l.drop_first() =~= lines_from(s, e));
        assert(l.flatten() == l.first() + l.drop_first().flatten());
        assert(s.subrange(i, e) + s.subrange(e, s.len() as int) =~= s.subrange(i, s.len() as int));
    } else {
        assert(s.subrange(i, s.len() as int) =~= Seq::<char>::empty());
    }
}

/// No character is lost when a text is cut into lines: put together, the lines are the text.
pub proof fn law_lines_make_the_text(s: Seq<char>)
    ensures
        lines_of(s).flatten() == s,
{
    lemma_concat_lines(s, 0);
    assert(s.subrange(0, s.len() as int) =~= s);
}

/// Whether a text is a line without the newline that ends it, and with every other character.
pub open spec fn is_text_of(text: Seq<char>, line: Seq<char>) -> bool {
    if line.len() > 0 && line[line.len() - 1] == '\n' {
        line == text + seq!['\n']
    } else {
        line == text
    }
}

/// A line loses the newline that ends it and no other character.
pub proof fn law_only_the_newline_is_lost(line: Seq<char>)
    ensures
        is_text_of(stripped(line), line),
{
    if line.len() > 0 && line.last() == '\n' {
        assert(stripped(line) + seq!['\n'] =~= line);
    }
}

/// The lines of a hunk that belong to the old version: context and deleted lines.
pub open spec fn old_shown(lines: Seq<(DiffLineKind, Seq<char>)>) -> Seq<(DiffLineKind, Seq<char>)> {
    lines.filter(
        |l: (DiffLineKind, Seq<char>)|
            l.0 == DiffLineKind::Context || l.0 == DiffLineKind::Deleted,
    )
}

/// The lines of a hunk that belong to the new version: context and added lines.
pub open spec fn new_shown(lines: Seq<(DiffLineKind, Seq<char>)>) -> Seq<(DiffLineKind, Seq<char>)> {
    lines.filter(
        |l: (DiffLineKind, Seq<char>)| l.0 == DiffLineKind::Context || l.0 == DiffLineKind::Added,
    )
}

proof fn lemma_shown_sides(lines: Seq<(DiffLineKind, Seq<char>)>)
    ensures
        old_shown(lines).len() == side(lines, DiffLineKind::Deleted).len(),
        new_shown(lines).len() == side(lines, DiffLineKind::Added).len(),
        forall|m: int|
            0 <= m < old_shown(lines).len() ==> (#[trigger] old_shown(lines)[m]).1 == side(
                lines,
                DiffLineKind::Deleted,
            )[m],
        forall|m: int|
            0 <= m < new_shown(lines).len() ==> (#[trigger] new_shown(lines)[m]).1 == side(
                lines,
                DiffLineKind::Added,
            )[m],
    decreases lines.len(),
{
    reveal(Seq::filter);
    if lines.len() > 0 {
        lemma_shown_sides(lines.drop_last());
        let l = lines.last();
        let (a, b) = (old_shown(lines.drop_last()), new_shown(lines.drop_last()));
        if l.0 == DiffLineKind::Context || l.0 == DiffLineKind::Deleted {
            assert(old_shown(lines) =~= a.push(l));
        } else {
            assert(old_shown(lines) =~= a);
        }
        if l.0 == DiffLineKind::Context || l.0 == DiffLineKind::Added {
            assert(new_shown(lines) =~= b.push(l));
        } else {
            assert(new_shown(lines) =~= b);
        }
    }
}

proof fn lemma_hunk_at(o: Seq<Seq<char>>, n: Seq<Seq<char>>, h: Seq<RawHunk>, i: int, k: int) -> (r:
    int)
    requires
        edit_script(o, n, h),
        group_start(h, i),
        0 <= k < hunks_from(o, n, h, i).len(),
    ensures
        group_start(h, r),
        hunks_from(o, n, h, i)[k] == hunk_of(o, n, h, r, group_end(h, r)),
    decreases k,
{
    lemma_group_end(h, i);
    let j = group_end(h, i);
    if k == 0 {
        i
    } else {
        assert(hunks_from(o, n, h, i)[k] == hunks_from(o, n, h, j)[k - 1]);
        lemma_hunk_at(o, n, h, j, k - 1)
    }
}

/// Every line of every hunk is shown whole. Of the old version a hunk shows the lines from its start
/// on, as many as its count says, one for one and in order, each as it stands in the text but for
/// the newline that ends it; of the new version it does the same. Behind the header there is no
/// other one.
pub proof fn law_hunks_show_whole_lines(
    o: Seq<Seq<char>>,
    n: Seq<Seq<char>>,
    h: Seq<RawHunk>,
    k: int,
)
    requires
        edit_script(o, n, h),
        0 <= k < hunks_from(o, n, h, 0).len(),
    ensures
        ({
            let v = hunks_from(o, n, h, 0)[k];
            &&& 1 <= v.old_start && v.old_start - 1 + v.old_count <= o.len()
            &&& 1 <= v.new_start && v.new_start - 1 + v.new_count <= n.len()
            &&& old_shown(v.lines).len() == v.old_count
            &&& new_shown(v.lines).len() == v.new_count
            &&& forall|m: int|
                0 <= m < v.old_count ==> is_text_of(
                    (#[trigger] old_shown(v.lines)[m]).1,
                    o[v.old_start - 1 + m],
                )
            &&& forall|m: int|
                0 <= m < v.new_count ==> is_text_of(
                    (#[trigger] new_shown(v.lines)[m]).1,
                    n[v.new_start - 1 + m],
                )
            &&& v.lines[0].0 == DiffLineKind::HunkHeader
            &&& forall|m: int|
                0 < m < v.lines.len() ==> (#[trigger] v.lines[m]).0 != DiffLineKind::HunkHeader
        }),
{
    let v = hunks_from(o, n, h, 0)[k];
    let i = lemma_hunk_at(o, n, h, 0, k);
    let j = group_end(h, i);
    law_hunk_shows_both_versions(o, n, h, i);
    lemma_group_end(h, i);
    lemma_bounds(o, n, h, i);
    lemma_bounds(o, n, h, j);
    lemma_shown_sides(v.lines);
    assert forall|m: int| 0 <= m < v.old_count implies is_text_of(
        (#[trigger] old_shown(v.lines)[m]).1,
        o[v.old_start - 1 + m],
    ) by {
        law_only_the_newline_is_lost(o[v.old_start - 1 + m]);
    }
    assert forall|m: int| 0 <= m < v.new_count implies is_text_of(
        (#[trigger] new_shown(v.lines)[m]).1,
        n[v.new_start - 1 + m],
    ) by {
        law_only_the_newline_is_lost(n[v.new_start - 1 + m]);
    }
    let pos = context_start(h[i].0 as int);
    lemma_body_lines(o, n, h, i, j, pos, i, j);
    let body = hunk_body(o, n, h, i, j, pos);
    assert forall|m: int| 0 < m < v.lines.len() implies (#[trigger] v.lines[m]).0
        != DiffLineKind::HunkHeader by {
        assert(v.lines[m] == body[m - 1]);
        assert(shown_as_changed(o, n, h, i, j, body[m - 1]));
    }
}

/// Whether a line of a hunk is marked for what it is: deleted lines and added ones lie in one of the
/// replaced ranges `i..j`, context lines in none.
pub open spec fn shown_as_changed(
    o: Seq<Seq<char>>,
    n: Seq<Seq<char>>,
    h: Seq<RawHunk>,
    i: int,
    j: int,
    line: (DiffLineKind, Seq<char>),
) -> bool {
    match line.0 {
        DiffLineKind::Deleted => exists|r: int, p: int|
            i <= r < j && (#[trigger] h[r]).0 <= p < h[r].1 && is_text_of(line.1, #[trigger] o[p]),
        DiffLineKind::Added => exists|r: int, p: int|
            i <= r < j && (#[trigger] h[r]).2 <= p < h[r].3 && is_text_of(line.1, #[trigger] n[p]),
        DiffLineKind::Context => exists|p: int|
            0 <= p < o.len() && (forall|r: int|
                0 <= r < h.len() ==> !((#[trigger] h[r]).0 <= p < h[r].1)) && is_text_of(
                line.1,
                #[trigger] o[p],
            ),
        DiffLineKind::HunkHeader => false,
    }
}

proof fn lemma_outside(o: Seq<Seq<char>>, n: Seq<Seq<char>>, h: Seq<RawHunk>, k: int, p: int)
    requires
        edit_script(o, n, h),
        0 <= k <= h.len(),
        old_end(h, k) <= p < old_begin(o, h, k),
    ensures
        forall|r: int| 0 <= r < h.len() ==> !((#[trigger] h[r]).0 <= p < h[r].1),
{
    assert forall|r: int| 0 <= r < h.len() implies !((#[trigger] h[r]).0 <= p < h[r].1) by {
        if r < k {
            lemma_ordered(o, n, h, r, k - 1);
        } else {
            lemma_ordered(o, n, h, k, r);
        }
    }
}

proof fn lemma_context_marked(
    o: Seq<Seq<char>>,
    n: Seq<Seq<char>>,
    h: Seq<RawHunk>,
    k: int,
    from: int,
    to: int,
    i: int,
    j: int,
)
    requires
        edit_script(o, n, h),
        0 <= k <= h.len(),
        old_end(h, k) <= from,
        to <= old_begin(o, h, k),
    ensures
        forall|m: int|
            0 <= m < marked(DiffLineKind::Context, o, from, to).len() ==> shown_as_changed(
                o,
                n,
                h,
                i,
                j,
                #[trigger] marked(DiffLineKind::Context, o, from, to)[m],
            ),
{
    lemma_bounds(o, n, h, k);
    let c = marked(DiffLineKind::Context, o, from, to);
    assert forall|m: int| 0 <= m < c.len() implies shown_as_changed(
        o,
        n,
        h,
        i,
        j,
        #[trigger] c[m],
    ) by {
        lemma_outside(o, n, h, k, from + m);
        law_only_the_newline_is_lost(o[from + m]);
        assert(is_text_of(c[m].1, o[from + m]));
    }
}

proof fn lemma_body_lines(
    o: Seq<Seq<char>>,
    n: Seq<Seq<char>>,
    h: Seq<RawHunk>,
    k: int,
    j: int,
    pos: int,
    i: int,
    e: int,
)
    requires
        edit_script(o, n, h),
        0 <= i <= k <= j <= h.len(),
        j == e,
        0 < j,
        j < h.len() ==> gap(h, j) > 6,
        k < j ==> old_end(h, k) <= pos <= old_begin(o, h, k),
        k == j ==> pos == old_end(h, k),
    ensures
        forall|m: int|
            0 <= m < hunk_body(o, n, h, k, j, pos).len() ==> shown_as_changed(
                o,
                n,
                h,
                i,
                e,
                #[trigger] hunk_body(o, n, h, k, j, pos)[m],
            ),
    decreases j - k,
{
    lemma_bounds(o, n, h, k);
    lemma_bounds(o, n, h, j);
    let all = hunk_body(o, n, h, k, j, pos);
    if k == j {
        assert(kept(o, n, h, j));
        lemma_context_marked(o, n, h, j, pos, context_end(old_end(h, j), o.len() as int), i, e);
    } else {
        let (bs, be, ns, ne) = (h[k].0 as int, h[k].1 as int, h[k].2 as int, h[k].3 as int);
        assert(h[k].0 <= h[k].1 && h[k].2 <= h[k].3);
        lemma_bounds(o, n, h, k + 1);
        lemma_body_lines(o, n, h, k + 1, j, be, i, e);
        lemma_context_marked(o, n, h, k, pos, bs, i, e);
        let context = marked(DiffLineKind::Context, o, pos, bs);
        let deleted = marked(DiffLineKind::Deleted, o, bs, be);
        let inserted = marked(DiffLineKind::Added, n, ns, ne);
        let rest = hunk_body(o, n, h, k + 1, j, be);
        assert(all =~= context + deleted + inserted + rest);
        let (a, b, c) = (
            context.len() as int,
            (context.len() + deleted.len()) as int,
            (context.len() + deleted.len() + inserted.len()) as int,
        );
        assert forall|m: int| 0 <= m < all.len() implies shown_as_changed(
            o,
            n,
            h,
            i,
            e,
            #[trigger] all[m],
        ) by {
            if m < a {
                assert(all[m] == context[m]);
            } else if m < b {
                assert(all[m] == deleted[m - a]);
                law_only_the_newline_is_lost(o[bs + m - a]);
                assert(h[k].0 <= bs + m - a < h[k].1 && is_text_of(all[m].1, o[bs + m - a]));
            } else if m < c {
                assert(all[m] == inserted[m - b]);
                law_only_the_newline_is_lost(n[ns + m - b]);
                assert(h[k].2 <= ns + m - b < h[k].3 && is_text_of(all[m].1, n[ns + m - b]));
            } else {
                assert(all[m] == rest[m - c]);
            }
        }
    }
}

/// Only what changed is marked as changed: every deleted line of a hunk lies in a range of old lines
/// that was replaced, every added line in the range of new lines that replaced one, and every
/// context line outside of all of them.
pub proof fn law_only_changes_are_marked(
    o: Seq<Seq<char>>,
    n: Seq<Seq<char>>,
    h: Seq<RawHunk>,
    k: int,
    m: int,
)
    requires
        edit_script(o, n, h),
        0 <= k < hunks_from(o, n, h, 0).len(),
        0 < m < hunks_from(o, n, h, 0)[k].lines.len(),
    ensures
        shown_as_changed(
            o,
            n,
            h,
            0,
            h.len() as int,
            hunks_from(o, n, h, 0)[k].lines[m],
        ),
{
    let v = hunks_from(o, n, h, 0)[k];
    let i = lemma_hunk_at(o, n, h, 0, k);
    let j = group_end(h, i);
    lemma_group_end(h, i);
    lemma_bounds(o, n, h, i);
    assert(h[i].0 <= h[i].1);
    let pos = context_start(h[i].0 as int);
    lemma_body_lines(o, n, h, i, j, pos, i, j);
    let body = hunk_body(o, n, h, i, j, pos);
    assert(v.lines[m] == body[m - 1]);
    assert(shown_as_changed(o, n, h, i, j, body[m - 1]));
}

/// A hunk starts three lines before its first change and ends three lines behind its last one, or at
/// the ends of the file if those are nearer. Changes in one hunk have at most six lines between them,
/// and the next hunk is farther away than that.
pub proof fn law_hunks_have_three_lines_of_context(
    o: Seq<Seq<char>>,
    n: Seq<Seq<char>>,
    h: Seq<RawHunk>,
    k: int,
) -> (r: (int, int))
    requires
        edit_script(o, n, h),
        0 <= k < hunks_from(o, n, h, 0).len(),
    ensures
        0 <= r.0 < r.1 <= h.len(),
        ({
            let v = hunks_from(o, n, h, 0)[k];
            let old_stop = v.old_start - 1 + v.old_count;
            let new_stop = v.new_start - 1 + v.new_count;
            &&& v.old_start - 1 == h[r.0].0 - 3 || (v.old_start == 1 && h[r.0].0 < 3)
            &&& v.new_start - 1 == h[r.0].2 - 3 || (v.new_start == 1 && h[r.0].2 < 3)
            &&& old_stop == h[r.1 - 1].1 + 3 || (old_stop == o.len() && o.len() < h[r.1 - 1].1 + 3)
            &&& new_stop == h[r.1 - 1].3 + 3 || (new_stop == n.len() && n.len() < h[r.1 - 1].3 + 3)
        }),
        forall|q: int| r.0 < q < r.1 ==> (#[trigger] h[q]).0 - h[q - 1].1 <= 6,
        r.0 > 0 ==> h[r.0].0 - h[r.0 - 1].1 > 6,
        r.1 < h.len() ==> h[r.1].0 - h[r.1 - 1].1 > 6,
{
    let i = lemma_hunk_at(o, n, h, 0, k);
    let j = group_end(h, i);
    lemma_group_end(h, i);
    law_hunk_shows_both_versions(o, n, h, i);
    lemma_group_gaps(o, n, h, i);
    assert(kept(o, n, h, i));
    assert(kept(o, n, h, j));
    (i, j)
}

proof fn lemma_group_gaps(o: Seq<Seq<char>>, n: Seq<Seq<char>>, h: Seq<RawHunk>, i: int)
    requires
        edit_script(o, n, h),
        0 <= i < h.len(),
    ensures
        forall|q: int| i < q < group_end(h, i) ==> (#[trigger] h[q]).0 - h[q - 1].1 <= 6,
    decreases h.len() - i,
{
    if i + 1 < h.len() && gap(h, i + 1) <= 6 {
        lemma_group_gaps(o, n, h, i + 1);
        assert(kept(o, n, h, i + 1));
    }
}

/// Every replaced range is shown in a hunk: with no hunk there is no change.
pub proof fn law_no_hunk_means_no_change(o: Seq<Seq<char>>, n: Seq<Seq<char>>, h: Seq<RawHunk>)
    requires
        edit_script(o, n, h),
        all_change(h),
    ensures
        hunks_from(o, n, h, 0).len() == 0 <==> h.len() == 0,
        h.len() == 0 ==> o == n,
{
    if h.len() == 0 {
        assert(kept(o, n, h, 0));
        assert(o.subrange(0, o.len() as int) =~= o);
        assert(n.subrange(0, n.len() as int) =~= n);
    }
}

/// The header of a hunk names start and count of the old version behind a minus, and those of the
/// new version behind a plus.
pub proof fn law_header_names_both_sides(a: int, b: int, c: int, d: int)
    requires
        0 <= a,
        0 <= b,
        0 <= c,
        0 <= d,
    ensures
        exists|p: Seq<char>, q: Seq<char>, r: Seq<char>, s: Seq<char>|
            #![trigger digits_value(p), digits_value(q), digits_value(r), digits_value(s)]
            digits_value(p) == a && digits_value(q) == b && digits_value(r) == c && digits_value(s)
                == d && header_text(a, b, c, d) == "@@ -"@ + p + ","@ + q + " +"@ + r + ","@ + s
                + " @@"@,
{
    law_decimal_reads_back(a as nat);
    law_decimal_reads_back(b as nat);
    law_decimal_reads_back(c as nat);
    law_decimal_reads_back(d as nat);
}

proof fn lemma_line_end_at(s: Seq<char>, i: int)
    requires
        0 <= i < s.len(),
    ensures
        forall|k: int| i <= k < line_end(s, i) - 1 ==> s[k] != '\n',
        line_end(s, i) < s.len() ==> s[line_end(s, i) - 1] == '\n',
        i < line_end(s, i) <= s.len(),
    decreases s.len() - i,
{
    lemma_line_end(s, i);
    if s[i] != '\n' && i + 1 < s.len() {
        lemma_line_end_at(s, i + 1);
        lemma_line_end(s, i + 1);
    }
}

proof fn lemma_lines_shape(s: Seq<char>, i: int)
    requires
        0 <= i <= s.len(),
    ensures
        forall|k: int| 0 <= k < lines_from(s, i).len() ==> (#[trigger] lines_from(s, i)[k]).len() > 0,
        forall|k: int, m: int|
            0 <= k < lines_from(s, i).len() && 0 <= m < lines_from(s, i)[k].len() - 1
                ==> #[trigger] lines_from(s, i)[k][m] != '\n',
        forall|k: int|
            0 <= k < lines_from(s, i).len() - 1 ==> (#[trigger] lines_from(s, i)[k]).last() == '\n',
    decreases s.len() - i,
{
    if i < s.len() {
        lemma_line_end_at(s, i);
        let e = line_end(s, i);
        lemma_lines_shape(s, e);
        let all = lines_from(s, i);
        let rest = lines_from(s, e);
        assert forall|k: int| 0 <= k < all.len() implies (#[trigger] all[k]).len() > 0 by {
            if k > 0 {
                assert(all[k] == rest[k - 1]);
            }
        }
        assert forall|k: int, m: int|
            0 <= k < all.len() && 0 <= m < all[k].len() - 1 implies #[trigger] all[k][m]
            != '\n' by {
            if k > 0 {
                assert(all[k] == rest[k - 1]);
                assert(rest[k - 1][m] != '\n');
            }
        }
        assert forall|k: int| 0 <= k < all.len() - 1 implies (#[trigger] all[k]).last()
            == '\n' by {
            if k > 0 {
                assert(all[k] == rest[k - 1]);
            }
        }
    }
}

/// A line holds a newline only at its end, and only the last line of a text may lack it. No line is
/// empty.
pub proof fn law_lines_end_at_newlines(s: Seq<char>)
    ensures
        forall|k: int| 0 <= k < lines_of(s).len() ==> (#[trigger] lines_of(s)[k]).len() > 0,
        forall|k: int, m: int|
            0 <= k < lines_of(s).len() && 0 <= m < lines_of(s)[k].len() - 1 ==> #[trigger] lines_of(
                s,
            )[k][m] != '\n',
        forall|k: int|
            0 <= k < lines_of(s).len() - 1 ==> (#[trigger] lines_of(s)[k]).last() == '\n',
{
    lemma_lines_shape(s, 0);
}

} // verus!
