//! Selected ranges of a text.
use crate::text::breaks;
use crate::text::clustered;
use crate::text::is_boundary;
use crate::text::law_boundaries_are_the_nearest;
use crate::text::law_boundaries_step_back;
use crate::text::next_boundary;
use crate::text::prev_boundary;
use crate::text::Rope;
use vstd::prelude::*;

verus! {

/// A selected range; the head is the side that moves.
#[derive(Debug, Clone, Copy, PartialEq, Eq, Structural)]
pub struct Range {
    pub anchor: usize,
    pub head: usize,
}

/// One or more ranges, one of which is the primary one.
#[derive(Debug)]
pub struct Selection {
    pub ranges: Vec<Range>,
    pub primary_index: usize,
}

impl View for Selection {
    type V = (Seq<Range>, int);

    open spec fn view(&self) -> (Seq<Range>, int) {
        (self.ranges@, self.primary_index as int)
    }
}

impl Clone for Selection {
    fn clone(&self) -> (r: Self)
        ensures
            r@ == self@,
    {
        let mut ranges: Vec<Range> = Vec::new();
        let mut i: usize = 0;
        while i < self.ranges.len()
            invariant
                i <= self.ranges@.len(),
                ranges@ == self.ranges@.take(i as int),
            decreases self.ranges@.len() - i,
        {
            ranges.push(self.ranges[i]);
            i = i + 1;
        }
        assert(ranges@ =~= self.ranges@);
        Selection { ranges, primary_index: self.primary_index }
    }
}

impl Range {
    /// The range with both sides at one position.
    pub fn point(head: usize) -> (r: Range)
        ensures
            r == (Range { anchor: head, head }),
    {
        Range { anchor: head, head }
    }

    /// The first position of the range.
    pub open spec fn start(self) -> usize {
        if self.anchor <= self.head {
            self.anchor
        } else {
            self.head
        }
    }

    /// The position behind the range.
    pub open spec fn end(self) -> usize {
        if self.anchor <= self.head {
            self.head
        } else {
            self.anchor
        }
    }

    pub fn from(&self) -> (r: usize)
        ensures
            r == self.start(),
    {
        if self.anchor <= self.head {
            self.anchor
        } else {
            self.head
        }
    }

    pub fn to(&self) -> (r: usize)
        ensures
            r == self.end(),
    {
        if self.anchor <= self.head {
            self.head
        } else {
            self.anchor
        }
    }

    /// The range, or if it is empty the one that also holds the grapheme behind it.
    pub open spec fn widened(self, text: Seq<char>) -> Range {
        if self.anchor == self.head {
            Range { anchor: self.anchor, head: next_boundary(text, self.head as int) as usize }
        } else {
            self
        }
    }

    /// Makes an empty range one grapheme wide.
    pub fn min_width_1(&self, text: &Rope) -> (r: Range)
        ensures
            r == self.widened(text@),
    {
        if self.anchor == self.head {
            Range { anchor: self.anchor, head: text.next_grapheme_boundary(self.head) }
        } else {
            *self
        }
    }

    /// Where the block cursor of the range stands.
    pub open spec fn cursor_at(self, text: Seq<char>) -> int {
        if self.head > self.anchor {
            prev_boundary(text, self.head as int)
        } else {
            self.head as int
        }
    }

    /// Where the block cursor of the range stands.
    pub fn cursor(&self, text: &Rope) -> (r: usize)
        ensures
            r == self.cursor_at(text@),
            self.head <= text@.len() ==> r <= text@.len(),
    {
        if self.head > self.anchor {
            text.prev_grapheme_boundary(self.head)
        } else {
            self.head
        }
    }

    /// The line of the block cursor.
    pub fn cursor_line(&self, text: &Rope) -> (r: usize)
        requires
            self.head <= text@.len(),
        ensures
            r == breaks(text@, self.cursor_at(text@)),
    {
        let pos: usize = self.cursor(text);
        text.char_to_line(pos)
    }

    /// The range with its block cursor at `pos`; extended from its anchor if `extend`.
    pub open spec fn with_cursor(self, text: Seq<char>, pos: usize, extend: bool) -> Range {
        if extend {
            let anchor = if self.head >= self.anchor && pos < self.anchor {
                next_boundary(text, self.anchor as int) as usize
            } else if self.head < self.anchor && pos >= self.anchor {
                prev_boundary(text, self.anchor as int) as usize
            } else {
                self.anchor
            };
            if anchor <= pos {
                Range { anchor, head: next_boundary(text, pos as int) as usize }
            } else {
                Range { anchor, head: pos }
            }
        } else {
            Range { anchor: pos, head: pos }
        }
    }

    /// Moves the block cursor to `pos`, and with `extend` keeps the grapheme at the anchor selected.
    pub fn put_cursor(&self, text: &Rope, pos: usize, extend: bool) -> (r: Range)
        ensures
            r == self.with_cursor(text@, pos, extend),
    {
        if extend {
            let anchor: usize = if self.head >= self.anchor && pos < self.anchor {
                text.next_grapheme_boundary(self.anchor)
            } else if self.head < self.anchor && pos >= self.anchor {
                text.prev_grapheme_boundary(self.anchor)
            } else {
                self.anchor
            };
            if anchor <= pos {
                Range { anchor, head: text.next_grapheme_boundary(pos) }
            } else {
                Range { anchor, head: pos }
            }
        } else {
            Range::point(pos)
        }
    }
}

impl Selection {
    /// There is a range, and the primary one is among them.
    pub open spec fn wf(self) -> bool {
        self.primary_index < self.ranges@.len()
    }

    /// The selection of one range.
    pub fn single(anchor: usize, head: usize) -> (r: Selection)
        ensures
            r.wf(),
            r@ == (seq![Range { anchor, head }], 0int),
    {
        let r = Selection { ranges: vec![Range { anchor, head }], primary_index: 0 };
        assert(r.ranges@ =~= seq![Range { anchor, head }]);
        r
    }

    /// The selection of an empty range.
    pub fn point(pos: usize) -> (r: Selection)
        ensures
            r.wf(),
            r@ == (seq![Range { anchor: pos, head: pos }], 0int),
    {
        Selection::single(pos, pos)
    }

    /// The primary range.
    pub fn primary(&self) -> (r: Range)
        requires
            self.wf(),
        ensures
            r == self@.0[self@.1],
    {
        self.ranges[self.primary_index]
    }
}

/// The two sides of a range are its start and its end, whichever way it goes.
pub proof fn law_range_has_two_ends(r: Range)
    ensures
        r.start() <= r.end(),
        r.start() + r.end() == r.anchor + r.head,
        r.start() == r.anchor || r.start() == r.head,
{
}

/// An empty range is widened to the one grapheme behind it; no other range changes.
pub proof fn law_widened_range_is_not_empty(r: Range, text: Seq<char>)
    requires
        clustered(text),
        r.head <= text.len() <= usize::MAX,
    ensures
        r.anchor != r.head ==> r.widened(text) == r,
        r.anchor == r.head && r.head < text.len() ==> {
            let w = r.widened(text);
            &&& w.anchor == r.anchor
            &&& w.head > w.anchor
            &&& is_boundary(text, w.head as int)
            &&& forall|b: int| #[trigger] is_boundary(text, b) ==> !(w.anchor < b < w.head)
        },
{
    law_boundaries_are_the_nearest(text, r.head as int);
}

/// The block cursor stands on the grapheme at the head: on the one behind it if the range goes
/// backward or is empty, and on the one before it if it goes forward.
pub proof fn law_cursor_stands_at_the_head(r: Range, text: Seq<char>)
    requires
        clustered(text),
        r.head <= text.len(),
    ensures
        r.head <= r.anchor ==> r.cursor_at(text) == r.head,
        r.head > r.anchor ==> r.cursor_at(text) < r.head && is_boundary(text, r.cursor_at(text))
            && forall|b: int| #[trigger] is_boundary(text, b) ==> !(r.cursor_at(text) < b < r.head),
{
    law_boundaries_are_the_nearest(text, r.head as int);
}

/// Moving the block cursor puts it where it was to go. A range that is extended meanwhile still holds
/// the grapheme that it was anchored at: the one behind its anchor if it went forward, and the one
/// before it if it went backward.
pub proof fn law_cursor_lands_where_it_is_put(r: Range, text: Seq<char>, pos: usize, extend: bool)
    requires
        clustered(text),
        text.len() <= usize::MAX,
        r.anchor < text.len(),
        r.head <= text.len(),
        is_boundary(text, r.anchor as int),
        is_boundary(text, pos as int),
        pos < text.len(),
    ensures
        r.with_cursor(text, pos, extend).cursor_at(text) == pos,
        !extend ==> r.with_cursor(text, pos, extend).anchor == pos,
        extend && r.head >= r.anchor ==> {
            let w = r.with_cursor(text, pos, extend);
            w.start() <= r.anchor && next_boundary(text, r.anchor as int) <= w.end()
        },
        extend && r.head < r.anchor ==> {
            let w = r.with_cursor(text, pos, extend);
            w.start() <= prev_boundary(text, r.anchor as int) && r.anchor <= w.end()
        },
{
    law_boundaries_are_the_nearest(text, pos as int);
    law_boundaries_are_the_nearest(text, r.anchor as int);
    law_boundaries_step_back(text, pos as int);
    law_boundaries_step_back(text, r.anchor as int);
    law_boundaries_are_the_nearest(text, next_boundary(text, pos as int));
    law_boundaries_are_the_nearest(text, next_boundary(text, r.anchor as int));
}

/// Moving the cursor of a selection covers all from the cluster that it is anchored at to the one that
/// the cursor is put on, both of them included, in whichever direction.
pub proof fn law_moved_cursor_covers_both_ends(r: Range, text: Seq<char>, pos: usize)
    requires
        clustered(text),
        text.len() <= usize::MAX,
        0 < r.anchor < text.len(),
        r.head <= text.len(),
        is_boundary(text, r.anchor as int),
        is_boundary(text, pos as int),
        pos < text.len(),
    ensures
        ({
            let w = r.with_cursor(text, pos, true);
            let next = next_boundary(text, r.anchor as int);
            let prev = prev_boundary(text, r.anchor as int);
            &&& r.head >= r.anchor && pos >= r.anchor ==> w.start() == r.anchor && w.end() == next_boundary(
                text,
                pos as int,
            )
            &&& r.head >= r.anchor && pos < r.anchor ==> w.start() == pos && w.end() == next
            &&& r.head < r.anchor && pos >= r.anchor ==> w.start() == prev && w.end() == next_boundary(
                text,
                pos as int,
            )
            &&& r.head < r.anchor && pos < r.anchor ==> w.start() == pos && w.end() == r.anchor
        }),
{
    law_boundaries_are_the_nearest(text, pos as int);
    law_boundaries_are_the_nearest(text, r.anchor as int);
}

} // verus!
