//! Text buffers, their lines, bytes and grapheme boundaries.
use crate::strings::char_vec;
use crate::strings::string_of;
use crate::strings::texts;
use crate::unicode::graphemes;
use crate::unicode::graphemes_of;
use vstd::prelude::*;
use vstd::string::*;

verus! {

/// The number of line breaks among the first `i` characters.
pub open spec fn breaks(s: Seq<char>, i: int) -> nat
    decreases i,
{
    if i <= 0 {
        0
    } else {
        breaks(s, i - 1) + if s[i - 1] == '\n' {
            1nat
        } else {
            0
        }
    }
}

/// The number of lines; an empty text has one.
pub open spec fn line_count(s: Seq<char>) -> nat {
    breaks(s, s.len() as int) + 1
}

/// The first position from `i` on with `line` line breaks before it, or the length of the text.
pub open spec fn line_start_from(s: Seq<char>, line: int, i: int) -> int
    decreases s.len() - i,
{
    if i >= s.len() || breaks(s, i) >= line {
        i
    } else {
        line_start_from(s, line, i + 1)
    }
}

/// Where a line starts; the line behind the last one starts at the end of the text.
pub open spec fn line_start(s: Seq<char>, line: int) -> int {
    line_start_from(s, line, 0)
}

/// Where the contents of a line end, before its line break.
pub open spec fn line_end_index(s: Seq<char>, line: int) -> int {
    let start = line_start(s, line);
    let next = line_start(s, line + 1);
    if next <= start || s[next - 1] != '\n' {
        next
    } else if next - 1 > start && s[next - 2] == '\r' {
        next - 2
    } else {
        next - 1
    }
}

/// Whether a grapheme cluster is a line break.
pub open spec fn is_line_ending(cluster: Seq<char>) -> bool {
    cluster == seq!['\n'] || cluster == seq!['\r', '\n']
}

/// Whether a character is white space. Line breaks are not.
pub open spec fn is_white(c: char) -> bool {
    let u = c as u32;
    u == 0x9 || u == 0x20 || u == 0xa0 || u == 0x180e || 0x2000 <= u <= 0x200b || u == 0x202f || u
        == 0x205f || u == 0x3000 || u == 0xfeff
}

/// Whether all characters are white space.
pub open spec fn all_white(s: Seq<char>) -> bool {
    forall|i: int| 0 <= i < s.len() ==> is_white(#[trigger] s[i])
}

/// Whether a grapheme cluster is a line break.
pub fn str_is_line_ending(cluster: &str) -> (r: bool)
    ensures
        r == is_line_ending(cluster@),
{
    let chars = char_vec(cluster);
    let r = (chars.len() == 1 && chars[0] == '\n') || (chars.len() == 2 && chars[0] == '\r'
        && chars[1] == '\n');
    proof {
        if r {
            assert(chars@ =~= seq!['\n'] || chars@ =~= seq!['\r', '\n']);
        }
    }
    r
}

/// Whether a character is white space. Line breaks are not.
pub fn char_is_whitespace(c: char) -> (r: bool)
    ensures
        r == is_white(c),
{
    let u = c as u32;
    u == 0x9 || u == 0x20 || u == 0xa0 || u == 0x180e || (0x2000 <= u && u <= 0x200b) || u == 0x202f
        || u == 0x205f || u == 0x3000 || u == 0xfeff
}

/// Whether all characters are white space.
pub fn is_blank(s: &str) -> (r: bool)
    ensures
        r == all_white(s@),
{
    let chars = char_vec(s);
    let mut i: usize = 0;
    while i < chars.len()
        invariant
            i <= chars@.len(),
            chars@ == s@,
            forall|k: int| 0 <= k < i ==> is_white(#[trigger] s@[k]),
        decreases chars@.len() - i,
    {
        if !char_is_whitespace(chars[i]) {
            assert(!is_white(s@[i as int]));
            return false;
        }
        i = i + 1;
    }
    true
}

/// The number of bytes of a character in UTF-8.
pub open spec fn char_bytes(c: char) -> nat {
    let u = c as u32;
    if u < 0x80 {
        1
    } else if u < 0x800 {
        2
    } else if u < 0x10000 {
        3
    } else {
        4
    }
}

/// The number of bytes of the first `i` characters.
pub open spec fn bytes_before(s: Seq<char>, i: int) -> nat
    decreases i,
{
    if i <= 0 {
        0
    } else {
        bytes_before(s, i - 1) + char_bytes(s[i - 1])
    }
}

proof fn lemma_breaks(s: Seq<char>, i: int, j: int)
    requires
        0 <= i <= j,
    ensures
        breaks(s, i) <= breaks(s, j) <= breaks(s, i) + (j - i),
    decreases j - i,
{
    if i < j {
        lemma_breaks(s, i, j - 1);
    }
}

proof fn lemma_bytes(s: Seq<char>, i: int, j: int)
    requires
        0 <= i <= j,
    ensures
        bytes_before(s, i) + (j - i) <= bytes_before(s, j),
    decreases j - i,
{
    if i < j {
        lemma_bytes(s, i, j - 1);
    }
}

proof fn lemma_line_start(s: Seq<char>, line: int, i: int)
    requires
        0 <= i <= s.len(),
        forall|k: int| 0 <= k < i ==> (#[trigger] breaks(s, k)) < line,
    ensures
        i <= line_start_from(s, line, i) <= s.len(),
        forall|k: int| 0 <= k < line_start_from(s, line, i) ==> (#[trigger] breaks(s, k)) < line,
        line_start_from(s, line, i) == s.len() || breaks(s, line_start_from(s, line, i)) >= line,
    decreases s.len() - i,
{
    if i < s.len() && breaks(s, i) < line {
        lemma_line_start(s, line, i + 1);
    }
}

/// There is at most one line more than there are characters.
pub proof fn lemma_line_count(s: Seq<char>)
    ensures
        line_count(s) <= s.len() + 1,
{
    lemma_breaks(s, 0, s.len() as int);
}

/// The line of a position is not greater than the position.
pub proof fn lemma_row(s: Seq<char>, pos: int)
    requires
        0 <= pos <= s.len(),
    ensures
        breaks(s, pos) <= pos,
        breaks(s, pos) < line_count(s),
{
    lemma_breaks(s, 0, pos);
    lemma_breaks(s, pos, s.len() as int);
}

/// Later lines start later.
pub proof fn law_lines_start_in_order(s: Seq<char>, a: int, b: int)
    requires
        a <= b,
    ensures
        0 <= line_start(s, a) <= line_start(s, b) <= s.len(),
{
    lemma_line_start(s, a, 0);
    lemma_line_start(s, b, 0);
    if line_start(s, b) < line_start(s, a) {
        assert(breaks(s, line_start(s, b)) < a);
    }
}

/// A line starts behind as many line breaks as its number says.
pub proof fn law_line_starts_behind_its_breaks(s: Seq<char>, line: int)
    requires
        0 <= line < line_count(s),
    ensures
        breaks(s, line_start(s, line)) == line,
{
    lemma_line_start(s, line, 0);
    let p = line_start(s, line);
    if p > 0 {
        assert(breaks(s, p - 1) < line);
    }
}

/// A text, addressed by characters.
#[derive(Debug)]
pub struct Rope {
    chars: Vec<char>,
}

impl View for Rope {
    type V = Seq<char>;

    closed spec fn view(&self) -> Seq<char> {
        self.chars@
    }
}

/// The bytes of the text can be counted.
pub open spec fn countable(s: Seq<char>) -> bool {
    bytes_before(s, s.len() as int) <= usize::MAX
}

/// The last grapheme boundary in `b` that lies before `pos`, from the `k` first ones.
pub open spec fn boundary_before(b: Seq<int>, pos: int, k: int) -> int
    decreases k,
{
    if k <= 0 {
        0
    } else if b[k - 1] < pos {
        b[k - 1]
    } else {
        boundary_before(b, pos, k - 1)
    }
}

/// The first grapheme boundary in `b` from the `k`-th on that lies behind `pos`, else `end`.
pub open spec fn boundary_behind(b: Seq<int>, pos: int, k: int, end: int) -> int
    decreases b.len() - k,
{
    if k < 0 || k >= b.len() {
        end
    } else if b[k] > pos {
        b[k]
    } else {
        boundary_behind(b, pos, k + 1, end)
    }
}

/// The ends of clusters that follow each other.
pub open spec fn cluster_ends(clusters: Seq<Seq<char>>) -> Seq<int>
    decreases clusters.len(),
{
    if clusters.len() == 0 {
        Seq::empty()
    } else {
        let before = cluster_ends(clusters.drop_last());
        let start = if before.len() == 0 {
            0
        } else {
            before.last()
        };
        before.push(start + clusters.last().len())
    }
}

/// The grapheme boundary before `pos`: 0 if there is none.
pub open spec fn prev_boundary(s: Seq<char>, pos: int) -> int {
    let b = cluster_ends(graphemes_of(s));
    boundary_before(b, pos, b.len() as int)
}

/// The grapheme boundary behind `pos`: the end of the text if there is none.
pub open spec fn next_boundary(s: Seq<char>, pos: int) -> int {
    boundary_behind(cluster_ends(graphemes_of(s)), pos, 0, s.len() as int)
}

proof fn lemma_ends(clusters: Seq<Seq<char>>)
    ensures
        cluster_ends(clusters).len() == clusters.len(),
        clusters.len() > 0 ==> cluster_ends(clusters).last() == clusters.flatten().len(),
        clusters.len() == 0 ==> clusters.flatten().len() == 0,
        forall|i: int|
            0 <= i < clusters.len() ==> 0 <= #[trigger] cluster_ends(clusters)[i]
                <= clusters.flatten().len(),
    decreases clusters.len(),
{
    if clusters.len() > 0 {
        lemma_ends(clusters.drop_last());
        clusters.drop_last().lemma_flatten_push(clusters.last());
        assert(clusters.drop_last().push(clusters.last()) =~= clusters);
    }
}

impl Rope {
    /// The text with the characters of `s`.
    pub fn from_str(s: &str) -> (r: Rope)
        ensures
            r@ == s@,
    {
        Rope { chars: char_vec(s) }
    }

    pub fn len_chars(&self) -> (r: usize)
        ensures
            r == self@.len(),
    {
        self.chars.len()
    }

    /// The number of lines; an empty text has one.
    pub fn len_lines(&self) -> (r: usize)
        requires
            self@.len() < usize::MAX,
        ensures
            r == line_count(self@),
    {
        proof {
            lemma_breaks(self@, 0, self@.len() as int);
        }
        let n: usize = self.char_to_line(self.chars.len());
        n + 1
    }

    /// The line of a position.
    pub fn char_to_line(&self, pos: usize) -> (r: usize)
        requires
            pos <= self@.len(),
        ensures
            r == breaks(self@, pos as int),
    {
        let mut i: usize = 0;
        let mut n: usize = 0;
        while i < pos
            invariant
                i <= pos <= self.chars@.len(),
                n == breaks(self@, i as int),
                n <= i,
            decreases pos - i,
        {
            if self.chars[i] == '\n' {
                n = n + 1;
            }
            i = i + 1;
        }
        n
    }

    /// Where a line starts; a line behind the last one starts at the end of the text.
    pub fn line_to_char(&self, line: usize) -> (r: usize)
        ensures
            r == line_start(self@, line as int),
            r <= self@.len(),
    {
        let mut i: usize = 0;
        let mut n: usize = 0;
        while i < self.chars.len() && n < line
            invariant
                i <= self.chars@.len(),
                n == breaks(self@, i as int),
                n <= i,
                line_start(self@, line as int) == line_start_from(self@, line as int, i as int),
            decreases self.chars@.len() - i,
        {
            if self.chars[i] == '\n' {
                n = n + 1;
            }
            i = i + 1;
        }
        i
    }

    /// Where the contents of a line end, before its line break.
    pub fn line_end_char_index(&self, line: usize) -> (r: usize)
        requires
            line < usize::MAX,
        ensures
            r == line_end_index(self@, line as int),
    {
        let start: usize = self.line_to_char(line);
        let next: usize = self.line_to_char(line + 1);
        if next <= start || self.chars[next - 1] != '\n' {
            next
        } else if next - 1 > start && self.chars[next - 2] == '\r' {
            next - 2
        } else {
            next - 1
        }
    }

    /// The number of bytes before a position.
    pub fn char_to_byte(&self, pos: usize) -> (r: usize)
        requires
            pos <= self@.len(),
            countable(self@),
        ensures
            r == bytes_before(self@, pos as int),
    {
        let mut i: usize = 0;
        let mut n: usize = 0;
        while i < pos
            invariant
                i <= pos <= self.chars@.len(),
                countable(self@),
                n == bytes_before(self@, i as int),
            decreases pos - i,
        {
            proof {
                lemma_bytes(self@, i + 1, self@.len() as int);
            }
            let u: u32 = self.chars[i] as u32;
            n = n + if u < 0x80 {
                1usize
            } else if u < 0x800 {
                2usize
            } else if u < 0x10000 {
                3usize
            } else {
                4usize
            };
            i = i + 1;
        }
        n
    }

    /// The byte at which a line starts.
    pub fn line_to_byte(&self, line: usize) -> (r: usize)
        requires
            countable(self@),
        ensures
            r == bytes_before(self@, line_start(self@, line as int)),
    {
        let pos: usize = self.line_to_char(line);
        self.char_to_byte(pos)
    }

    /// The ends of the grapheme clusters.
    fn boundaries(&self) -> (r: Vec<usize>)
        ensures
            r@.map_values(|e: usize| e as int) == cluster_ends(graphemes_of(self@)),
            forall|i: int| 0 <= i < r@.len() ==> #[trigger] r@[i] <= self@.len(),
    {
        let total: usize = self.chars.len();
        let s = string_of(self.chars.as_slice(), 0, total);
        assert(s@ =~= self@);
        let clusters = graphemes(s.as_str());
        let ghost all = texts(clusters@);
        proof {
            lemma_ends(all);
        }
        let mut out: Vec<usize> = Vec::new();
        let mut start: usize = 0;
        let mut i: usize = 0;
        assert(all.take(0) =~= Seq::empty());
        assert(out@.map_values(|e: usize| e as int) =~= Seq::empty());
        while i < clusters.len()
            invariant
                i <= clusters@.len(),
                all == texts(clusters@),
                all.flatten() == self@,
                total == self@.len(),
                forall|k: int|
                    0 <= k < all.len() ==> 0 <= #[trigger] cluster_ends(all)[k] <= self@.len(),
                cluster_ends(all).len() == all.len(),
                out@.map_values(|e: usize| e as int) == cluster_ends(all.take(i as int)),
                out@.len() == i,
                start == if i == 0 {
                    0
                } else {
                    cluster_ends(all.take(i as int)).last()
                },
                forall|k: int| 0 <= k < i ==> #[trigger] out@[k] <= self@.len(),
            decreases clusters@.len() - i,
        {
            let ghost t = all.take(i + 1);
            proof {
                assert(t.drop_last() =~= all.take(i as int));
                lemma_ends_prefix(all, i as int);
            }
            let n: usize = clusters[i].as_str().unicode_len();
            let ghost prev = out@;
            assert(t.last() == clusters@[i as int]@);
            assert(start + n == cluster_ends(t).last());
            assert(cluster_ends(all)[i as int] <= total);
            start = start + n;
            out.push(start);
            assert(out@.map_values(|e: usize| e as int) =~= prev.map_values(
                |e: usize| e as int,
            ).push(start as int));
            i = i + 1;
        }
        assert(all.take(all.len() as int) =~= all);
        out
    }

    /// The grapheme boundary before `pos`: 0 if there is none.
    pub fn prev_grapheme_boundary(&self, pos: usize) -> (r: usize)
        ensures
            r == prev_boundary(self@, pos as int),
            r <= pos,
            r <= self@.len(),
    {
        let b = self.boundaries();
        let ghost e = b@.map_values(|e: usize| e as int);
        let mut k: usize = b.len();
        while k > 0
            invariant
                k <= b@.len(),
                e == b@.map_values(|e: usize| e as int),
                e == cluster_ends(graphemes_of(self@)),
                forall|i: int| 0 <= i < b@.len() ==> #[trigger] b@[i] <= self@.len(),
                prev_boundary(self@, pos as int) == boundary_before(e, pos as int, k as int),
            decreases k,
        {
            if b[k - 1] < pos {
                return b[k - 1];
            }
            k = k - 1;
        }
        0
    }

    /// The grapheme boundary behind `pos`: the end of the text if there is none.
    pub fn next_grapheme_boundary(&self, pos: usize) -> (r: usize)
        ensures
            r == next_boundary(self@, pos as int),
            r <= self@.len(),
            pos <= self@.len() ==> r >= pos,
    {
        let b = self.boundaries();
        let ghost e = b@.map_values(|e: usize| e as int);
        let mut k: usize = 0;
        while k < b.len()
            invariant
                k <= b@.len(),
                e == b@.map_values(|e: usize| e as int),
                e == cluster_ends(graphemes_of(self@)),
                forall|i: int| 0 <= i < b@.len() ==> #[trigger] b@[i] <= self@.len(),
                next_boundary(self@, pos as int) == boundary_behind(
                    e,
                    pos as int,
                    k as int,
                    self@.len() as int,
                ),
            decreases b@.len() - k,
        {
            if b[k] > pos {
                return b[k];
            }
            k = k + 1;
        }
        self.chars.len()
    }
}

proof fn lemma_ends_prefix(clusters: Seq<Seq<char>>, k: int)
    requires
        0 <= k < clusters.len(),
    ensures
        cluster_ends(clusters.take(k + 1)).len() == k + 1,
        cluster_ends(clusters.take(k + 1)).last() == cluster_ends(clusters)[k],
    decreases clusters.len(),
{
    lemma_ends(clusters);
    lemma_ends(clusters.take(k + 1));
    if k + 1 == clusters.len() {
        assert(clusters.take(k + 1) =~= clusters);
    } else {
        lemma_ends_prefix(clusters.drop_last(), k);
        lemma_ends(clusters.drop_last());
        assert(clusters.drop_last().take(k + 1) =~= clusters.take(k + 1));
    }
}

/// Whether the grapheme clusters of a text make it up, and none is empty.
pub open spec fn clustered(s: Seq<char>) -> bool {
    &&& graphemes_of(s).flatten() == s
    &&& forall|i: int| 0 <= i < graphemes_of(s).len() ==> (#[trigger] graphemes_of(s)[i]).len() > 0
}

/// Whether a number of grapheme clusters ends at a position.
pub open spec fn is_boundary(s: Seq<char>, pos: int) -> bool {
    exists|k: int| 0 <= k <= graphemes_of(s).len() && pos == #[trigger] clusters_len(s, k)
}

/// The number of characters of the first `k` grapheme clusters.
pub open spec fn clusters_len(s: Seq<char>, k: int) -> int {
    graphemes_of(s).take(k).flatten().len() as int
}

proof fn lemma_clusters_len(s: Seq<char>, k: int)
    requires
        clustered(s),
        0 <= k <= graphemes_of(s).len(),
    ensures
        clusters_len(s, 0) == 0,
        clusters_len(s, graphemes_of(s).len() as int) == s.len(),
        k > 0 ==> clusters_len(s, k) == cluster_ends(graphemes_of(s))[k - 1],
        k > 0 ==> clusters_len(s, k - 1) < clusters_len(s, k),
        cluster_ends(graphemes_of(s)).len() == graphemes_of(s).len(),
{
    let g = graphemes_of(s);
    assert(g.take(0) =~= Seq::empty());
    assert(g.take(0).flatten() =~= Seq::<char>::empty());
    assert(g.take(g.len() as int) =~= g);
    lemma_ends(g);
    if k > 0 {
        lemma_ends_prefix(g, k - 1);
        lemma_ends(g.take(k));
        assert(g.take(k) =~= g.take(k - 1).push(g[k - 1]));
        g.take(k - 1).lemma_flatten_push(g[k - 1]);
        assert(g[k - 1].len() > 0);
    }
}

proof fn lemma_clusters_rise(s: Seq<char>, i: int, j: int)
    requires
        clustered(s),
        0 <= i <= j <= graphemes_of(s).len(),
    ensures
        clusters_len(s, i) <= clusters_len(s, j),
        i < j ==> clusters_len(s, i) < clusters_len(s, j),
    decreases j - i,
{
    if i < j {
        lemma_clusters_len(s, j);
        lemma_clusters_rise(s, i, j - 1);
    }
}

proof fn lemma_behind(s: Seq<char>, pos: int, k: int)
    requires
        clustered(s),
        0 <= k <= graphemes_of(s).len(),
        0 <= pos <= s.len(),
        clusters_len(s, k) <= pos,
    ensures
        ({
            let n = boundary_behind(cluster_ends(graphemes_of(s)), pos, k, s.len() as int);
            &&& is_boundary(s, n)
            &&& pos < s.len() ==> pos < n
            &&& pos == s.len() ==> n == pos
            &&& forall|b: int| #[trigger] is_boundary(s, b) ==> !(pos < b < n)
        }),
    decreases graphemes_of(s).len() - k,
{
    let g = graphemes_of(s);
    let e = cluster_ends(g);
    lemma_clusters_len(s, k);
    let n = boundary_behind(e, pos, k, s.len() as int);
    if k < g.len() {
        lemma_clusters_len(s, k + 1);
        if e[k] > pos {
            assert(n == clusters_len(s, k + 1));
            assert forall|b: int| #[trigger] is_boundary(s, b) implies !(pos < b < n) by {
                let m = choose|m: int| 0 <= m <= g.len() && b == #[trigger] clusters_len(s, m);
                if m <= k {
                    lemma_clusters_rise(s, m, k);
                } else {
                    lemma_clusters_rise(s, k + 1, m);
                }
            }
            lemma_clusters_rise(s, k + 1, g.len() as int);
        } else {
            lemma_behind(s, pos, k + 1);
        }
    } else {
        assert(n == clusters_len(s, g.len() as int));
    }
}

proof fn lemma_before(s: Seq<char>, pos: int, k: int)
    requires
        clustered(s),
        0 <= k <= graphemes_of(s).len(),
        k < graphemes_of(s).len() ==> clusters_len(s, k + 1) >= pos,
        0 <= pos <= s.len(),
    ensures
        ({
            let n = boundary_before(cluster_ends(graphemes_of(s)), pos, k);
            &&& is_boundary(s, n)
            &&& pos > 0 ==> n < pos
            &&& pos == 0 ==> n == 0
            &&& forall|b: int| #[trigger] is_boundary(s, b) ==> !(n < b < pos)
        }),
    decreases k,
{
    let g = graphemes_of(s);
    let e = cluster_ends(g);
    lemma_clusters_len(s, k);
    let n = boundary_before(e, pos, k);
    if k > 0 {
        if e[k - 1] < pos {
            assert(n == clusters_len(s, k));
            assert forall|b: int| #[trigger] is_boundary(s, b) implies !(n < b < pos) by {
                let m = choose|m: int| 0 <= m <= g.len() && b == #[trigger] clusters_len(s, m);
                if m <= k {
                    lemma_clusters_rise(s, m, k);
                } else {
                    lemma_clusters_rise(s, k + 1, m);
                }
            }
            lemma_clusters_rise(s, 0, k);
        } else {
            lemma_before(s, pos, k - 1);
        }
    } else {
        assert(n == clusters_len(s, 0));
        assert forall|b: int| #[trigger] is_boundary(s, b) implies !(n < b < pos) by {
            let m = choose|m: int| 0 <= m <= g.len() && b == #[trigger] clusters_len(s, m);
            if m > 0 {
                lemma_clusters_rise(s, 1, m);
            }
        }
    }
}

/// The boundary behind a position is the nearest one: clusters end there, and nowhere between. The
/// same holds of the boundary before it. At the ends of the text there is none farther on.
pub proof fn law_boundaries_are_the_nearest(s: Seq<char>, pos: int)
    requires
        clustered(s),
        0 <= pos <= s.len(),
    ensures
        is_boundary(s, next_boundary(s, pos)),
        is_boundary(s, prev_boundary(s, pos)),
        pos < s.len() ==> pos < next_boundary(s, pos) <= s.len(),
        pos == s.len() ==> next_boundary(s, pos) == pos,
        pos > 0 ==> 0 <= prev_boundary(s, pos) < pos,
        pos == 0 ==> prev_boundary(s, pos) == 0,
        forall|b: int|
            #[trigger] is_boundary(s, b) ==> !(pos < b < next_boundary(s, pos)) && !(prev_boundary(
                s,
                pos,
            ) < b < pos),
{
    let g = graphemes_of(s);
    lemma_clusters_len(s, 0);
    lemma_clusters_len(s, g.len() as int);
    lemma_behind(s, pos, 0);
    lemma_before(s, pos, g.len() as int);
    let b = next_boundary(s, pos);
    let k = choose|k: int| 0 <= k <= g.len() && b == #[trigger] clusters_len(s, k);
    lemma_clusters_rise(s, k, g.len() as int);
    let c = prev_boundary(s, pos);
    let m = choose|m: int| 0 <= m <= g.len() && c == #[trigger] clusters_len(s, m);
    lemma_clusters_rise(s, 0, m);
}

/// One boundary on and one back again, from a boundary on, is where one was.
pub proof fn law_boundaries_step_back(s: Seq<char>, pos: int)
    requires
        clustered(s),
        is_boundary(s, pos),
        0 <= pos <= s.len(),
    ensures
        pos < s.len() ==> prev_boundary(s, next_boundary(s, pos)) == pos,
        pos > 0 ==> next_boundary(s, prev_boundary(s, pos)) == pos,
{
    law_boundaries_are_the_nearest(s, pos);
    if pos < s.len() {
        law_boundaries_are_the_nearest(s, next_boundary(s, pos));
    }
    if pos > 0 {
        law_boundaries_are_the_nearest(s, prev_boundary(s, pos));
    }
}

/// The characters before a position take as many bytes as their text does in UTF-8.
pub proof fn law_bytes_are_those_of_the_text(s: Seq<char>, i: int)
    requires
        0 <= i <= s.len(),
    ensures
        bytes_before(s, i) == vstd::utf8::encode_utf8(s.take(i)).len(),
    decreases i,
{
    if i > 0 {
        law_bytes_are_those_of_the_text(s, i - 1);
        let c = seq![s[i - 1]];
        assert(s.take(i) =~= s.take(i - 1) + c);
        crate::surface::lemma_encode_add(s.take(i - 1), c);
        assert(c.drop_first() =~= Seq::empty());
        assert(vstd::utf8::encode_utf8(c.drop_first()) =~= Seq::empty());
        vstd::utf8::char_u32_cast(c[0], c[0] as u32);
        assert(vstd::utf8::encode_utf8(c) =~= vstd::utf8::encode_scalar(c[0] as u32));
    } else {
        assert(s.take(i) =~= Seq::empty());
    }
}

proof fn lemma_no_break_between(s: Seq<char>, i: int, j: int)
    requires
        0 <= i <= j <= s.len(),
        breaks(s, i) == breaks(s, j),
    ensures
        forall|k: int| i <= k < j ==> s[k] != '\n',
    decreases j - i,
{
    if i < j {
        lemma_breaks(s, i, j - 1);
        lemma_no_break_between(s, i, j - 1);
    }
}

/// A line's contents lie between its start and its end and hold no line feed. Behind the end there
/// is nothing more of the text, a line feed, or a carriage return and a line feed.
pub proof fn law_line_ends_before_its_break(s: Seq<char>, line: int)
    requires
        0 <= line < line_count(s),
    ensures
        line_start(s, line) <= line_end_index(s, line) <= s.len(),
        forall|k: int| line_start(s, line) <= k < line_end_index(s, line) ==> s[k] != '\n',
        ({
            let e = line_end_index(s, line);
            ||| e == s.len() && line + 1 == line_count(s)
            ||| s[e] == '\n' && (e == line_start(s, line) || s[e - 1] != '\r')
            ||| e + 1 < s.len() && s[e] == '\r' && s[e + 1] == '\n'
        }),
{
    let start = line_start(s, line);
    let next = line_start(s, line + 1);
    law_lines_start_in_order(s, line, line + 1);
    law_line_starts_behind_its_breaks(s, line);
    lemma_line_start(s, line + 1, 0);
    if line + 1 < line_count(s) {
        law_line_starts_behind_its_breaks(s, line + 1);
        assert(breaks(s, next - 1) < line + 1);
        assert(next > start);
        lemma_breaks(s, start, next - 1);
        lemma_no_break_between(s, start, next - 1);
    } else {
        if next < s.len() {
            lemma_breaks(s, next, s.len() as int);
        }
        assert(next == s.len());
        lemma_breaks(s, start, next);
        lemma_no_break_between(s, start, next);
    }
}

/// Tabs and spaces are white, those that join words or have another width as well. Line breaks and
/// the characters that can be seen are not.
pub proof fn law_white_space(c: char)
    ensures
        c == ' ' || c == '\t' ==> is_white(c),
        c as u32 == 0xa0 || c as u32 == 0x202f || c as u32 == 0x3000 ==> is_white(c),
        0x2000 <= c as u32 <= 0x200b ==> is_white(c),
        c == '\n' || c == '\r' ==> !is_white(c),
        0x21 <= c as u32 <= 0x7e ==> !is_white(c),
{
}

/// A line break is one cluster: a line feed, which a carriage return may come before.
pub proof fn law_line_endings(cluster: Seq<char>)
    ensures
        is_line_ending(cluster) ==> cluster.last() == '\n' && cluster.len() <= 2,
        cluster.len() == 1 && cluster[0] == '\n' ==> is_line_ending(cluster),
        cluster.len() == 2 && cluster[0] == '\r' && cluster[1] == '\n' ==> is_line_ending(cluster),
        cluster.len() == 2 && cluster[0] != '\r' ==> !is_line_ending(cluster),
{
    if cluster.len() == 1 && cluster[0] == '\n' {
        assert(cluster =~= seq!['\n']);
    }
    if cluster.len() == 2 && cluster[0] == '\r' && cluster[1] == '\n' {
        assert(cluster =~= seq!['\r', '\n']);
    }
}

} // verus!
