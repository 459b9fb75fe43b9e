//! The state of one tab: a document, the views of it, and the mode.
use crate::config::Mode;
use crate::editor_view::Position;
use crate::selection::Range;
use crate::selection::Selection;
use vstd::prelude::*;

verus! {

/// Remembers where the cursor stands on the screen, so that it is computed once for each drawing.
#[derive(Debug, Clone, Copy)]
pub struct CursorCache {
    pub cached: Option<Option<Position>>,
}

impl Default for CursorCache {
    fn default() -> (r: Self)
        ensures
            r.cached is None,
    {
        CursorCache { cached: None }
    }
}

impl CursorCache {
    /// The position that was remembered; if there is none, `computed` is remembered and given.
    pub fn get(&mut self, computed: Option<Position>) -> (r: Option<Position>)
        ensures
            r == match old(self).cached {
                Some(pos) => pos,
                None => computed,
            },
            final(self).cached == Some(r),
    {
        match self.cached {
            Some(pos) => pos,
            None => {
                self.set(computed);
                computed
            },
        }
    }

    /// Remembers a position.
    pub fn set(&mut self, cursor_pos: Option<Position>)
        ensures
            final(self).cached == Some(cursor_pos),
    {
        self.cached = Some(cursor_pos);
    }

    /// Forgets the position.
    pub fn reset(&mut self)
        ensures
            final(self).cached is None,
    {
        self.cached = None;
    }
}

/// The state of one tab.
pub trait Tab {
    /// The document.
    type Doc;

    /// The views of the document.
    type Tree;

    fn doc(&self) -> &Self::Doc;

    fn doc_mut(&mut self) -> &mut Self::Doc;

    fn tree(&self) -> &Self::Tree;

    fn tree_mut(&mut self) -> &mut Self::Tree;

    fn mode(&self) -> Mode;

    fn set_mode(&mut self, mode: Mode);

    fn count(&self) -> Option<usize>;

    /// A count is not zero.
    fn set_count(&mut self, count: Option<usize>)
        requires
            count != Some(0usize),
    ;

    fn last_selection(&self) -> &Option<Selection>;

    fn set_last_selection(&mut self, sel: Option<Selection>);

    fn mouse_down_range(&self) -> Option<Range>;

    fn set_mouse_down_range(&mut self, range: Option<Range>);

    fn cursor_cache(&self) -> &CursorCache;

    /// The document and its views, both to be changed.
    fn doc_and_tree_mut(&mut self) -> (&mut Self::Doc, &mut Self::Tree);
}

/// A document `D`, the views `T` of it, and the mode.
#[derive(Debug)]
pub struct DocView<D, T> {
    pub doc: D,
    pub tree: T,
    pub mode: Mode,
    /// The count that was typed; not zero.
    pub count: Option<usize>,
    pub last_selection: Option<Selection>,
    /// The primary range when the mouse button was pressed.
    pub mouse_down_range: Option<Range>,
    pub cursor_cache: CursorCache,
}

impl<D, T> DocView<D, T> {
    /// The count is not zero.
    pub open spec fn wf(self) -> bool {
        self.count != Some(0usize)
    }

    /// The tab for a document and the tree that holds one view of it.
    pub fn new(doc: D, tree: T) -> (r: Self)
        ensures
            r.wf(),
            r.doc == doc,
            r.tree == tree,
            r.mode == Mode::Normal,
            r.count is None,
            r.last_selection is None,
            r.mouse_down_range is None,
            r.cursor_cache.cached is None,
    {
        DocView {
            doc,
            tree,
            mode: Mode::Normal,
            count: None,
            last_selection: None,
            mouse_down_range: None,
            cursor_cache: CursorCache::default(),
        }
    }
}

impl<D, T> Tab for DocView<D, T> {
    type Doc = D;

    type Tree = T;

    fn doc(&self) -> (r: &D)
        ensures
            *r == self.doc,
    {
        &self.doc
    }

    fn doc_mut(&mut self) -> (r: &mut D)
        ensures
            *r == old(self).doc,
            *final(self) == (DocView { doc: *final(r), ..*old(self) }),
    {
        &mut self.doc
    }

    fn tree(&self) -> (r: &T)
        ensures
            *r == self.tree,
    {
        &self.tree
    }

    fn tree_mut(&mut self) -> (r: &mut T)
        ensures
            *r == old(self).tree,
            *final(self) == (DocView { tree: *final(r), ..*old(self) }),
    {
        &mut self.tree
    }

    fn mode(&self) -> (r: Mode)
        ensures
            r == self.mode,
    {
        self.mode
    }

    fn set_mode(&mut self, mode: Mode)
        ensures
            *final(self) == (DocView { mode, ..*old(self) }),
    {
        self.mode = mode;
    }

    fn count(&self) -> (r: Option<usize>)
        ensures
            r == self.count,
    {
        self.count
    }

    fn set_count(&mut self, count: Option<usize>)
        ensures
            *final(self) == (DocView { count, ..*old(self) }),
            final(self).wf(),
    {
        self.count = count;
    }

    fn last_selection(&self) -> (r: &Option<Selection>)
        ensures
            *r == self.last_selection,
    {
        &self.last_selection
    }

    fn set_last_selection(&mut self, sel: Option<Selection>)
        ensures
            *final(self) == (DocView { last_selection: sel, ..*old(self) }),
    {
        self.last_selection = sel;
    }

    fn mouse_down_range(&self) -> (r: Option<Range>)
        ensures
            r == self.mouse_down_range,
    {
        self.mouse_down_range
    }

    fn set_mouse_down_range(&mut self, range: Option<Range>)
        ensures
            *final(self) == (DocView { mouse_down_range: range, ..*old(self) }),
    {
        self.mouse_down_range = range;
    }

    fn cursor_cache(&self) -> (r: &CursorCache)
        ensures
            *r == self.cursor_cache,
    {
        &self.cursor_cache
    }

    fn doc_and_tree_mut(&mut self) -> (r: (&mut D, &mut T))
        ensures
            *r.0 == old(self).doc,
            *r.1 == old(self).tree,
            *final(self) == (DocView { doc: *final(r.0), tree: *final(r.1), ..*old(self) }),
    {
        (&mut self.doc, &mut self.tree)
    }
}

} // verus!
