//! Watching files and work trees, and what follows when they change.
//!
//! Changes are gathered until none has come for a while, and then dealt with together. A work tree
//! is watched once, however many views of its changes there are.
use crate::apps::AppKind;
use crate::apps::AppKindView;
use crate::apps::EditorApps;
use crate::diff_view::DiffKey;
use crate::diff_view::DiffKeyView;
use crate::handlers::FileWatcherCommand;
use crate::paths::path_parts;
use crate::paths::same_path;
use crate::strings::clone_strings;
use crate::strings::str_eq;
use crate::strings::text_opt;
use crate::strings::texts;
use vstd::prelude::*;
use vstd::string::*;

verus! {

/// How long no change must have come, in milliseconds.
pub const DEBOUNCE: u64 = 500;

/// A resolved path, by its components.
#[derive(Debug)]
pub struct WatchedPath {
    pub parts: Vec<String>,
}

impl View for WatchedPath {
    type V = Seq<Seq<char>>;

    open spec fn view(&self) -> Seq<Seq<char>> {
        texts(self.parts@)
    }
}

/// Whether a path lies in a directory or is it.
pub open spec fn lies_in(path: Seq<Seq<char>>, dir: Seq<Seq<char>>) -> bool {
    dir.len() <= path.len() && path.take(dir.len() as int) == dir
}

/// Whether a component of a path is the directory with git's own files.
pub open spec fn in_git_dir(path: Seq<Seq<char>>) -> bool {
    exists|i: int| 0 <= i < path.len() && #[trigger] path[i] == ".git"@
}

impl WatchedPath {
    /// Whether the path lies in a directory or is it.
    pub fn starts_with(&self, dir: &WatchedPath) -> (r: bool)
        ensures
            r == lies_in(self@, dir@),
    {
        if dir.parts.len() > self.parts.len() {
            return false;
        }
        let mut i: usize = 0;
        while i < dir.parts.len()
            invariant
                i <= dir.parts@.len() <= self.parts@.len(),
                forall|k: int| 0 <= k < i ==> #[trigger] self@[k] == dir@[k],
            decreases dir.parts@.len() - i,
        {
            if !str_eq(self.parts[i].as_str(), dir.parts[i].as_str()) {
                assert(self@.take(dir@.len() as int)[i as int] == self@[i as int]);
                assert(self@[i as int] != dir@[i as int]);
                return false;
            }
            i = i + 1;
        }
        assert(self@.take(dir@.len() as int) =~= dir@);
        true
    }

    /// Whether two paths are the same.
    pub fn same(&self, other: &WatchedPath) -> (r: bool)
        ensures
            r == (self@ == other@),
    {
        let r = self.parts.len() == other.parts.len() && self.starts_with(other);
        proof {
            if self.parts@.len() == other.parts@.len() {
                assert(self@.take(other@.len() as int) =~= self@);
            } else {
                assert(self@.len() != other@.len());
            }
        }
        r
    }

    fn in_git(&self) -> (r: bool)
        ensures
            r == in_git_dir(self@),
    {
        let mut i: usize = 0;
        while i < self.parts.len()
            invariant
                i <= self.parts@.len(),
                forall|k: int| 0 <= k < i ==> #[trigger] self@[k] != ".git"@,
            decreases self.parts@.len() - i,
        {
            if str_eq(self.parts[i].as_str(), ".git") {
                assert(self@[i as int] == ".git"@);
                return true;
            }
            i = i + 1;
        }
        false
    }

    fn copy(&self) -> (r: WatchedPath)
        ensures
            r@ == self@,
    {
        WatchedPath { parts: clone_strings(&self.parts) }
    }
}

/// A work tree and how many views of its changes there are.
#[derive(Debug)]
pub struct WorktreeCount {
    pub worktree: WatchedPath,
    pub count: usize,
}

/// What the watcher is asked to do.
#[derive(Debug)]
pub enum WatchRequest {
    Watch(WatchedPath),
    Unwatch(WatchedPath),
    WatchWorktree(WatchedPath),
    UnwatchWorktree(WatchedPath),
}

/// What is asked of the operating system.
#[derive(Debug)]
pub enum WatchAction {
    Nothing,
    /// Watch a path, with all that lies in it if `recursive`.
    Watch { path: WatchedPath, recursive: bool },
    Unwatch { path: WatchedPath },
}

/// What is asked of the operating system, with its path.
pub enum WatchActionView {
    Nothing,
    Watch(Seq<Seq<char>>, bool),
    Unwatch(Seq<Seq<char>>),
}

impl View for WatchAction {
    type V = WatchActionView;

    open spec fn view(&self) -> WatchActionView {
        match self {
            WatchAction::Nothing => WatchActionView::Nothing,
            WatchAction::Watch { path, recursive } => WatchActionView::Watch(path@, *recursive),
            WatchAction::Unwatch { path } => WatchActionView::Unwatch(path@),
        }
    }
}

/// What happened to files.
#[derive(Debug, Clone, Copy, PartialEq, Eq, Structural)]
pub enum ChangeKind {
    /// Permissions, owners or times changed.
    Metadata,
    /// Contents or names changed.
    Modify,
    Create,
    Other,
}

/// What is dealt with when changes have come to rest.
#[derive(Debug)]
pub struct Settled {
    /// The files whose documents are loaded again.
    pub reload: Vec<WatchedPath>,
    /// Views of changes are to be computed again.
    pub diff_refresh: bool,
}

/// The paths of a list.
pub open spec fn path_views(v: Seq<WatchedPath>) -> Seq<Seq<Seq<char>>> {
    v.map_values(|p: WatchedPath| p@)
}

/// The work trees of a list and their counts.
pub open spec fn count_views(v: Seq<WorktreeCount>) -> Seq<(Seq<Seq<char>>, usize)> {
    v.map_values(|c: WorktreeCount| (c.worktree@, c.count))
}

/// How many views of the changes of a work tree there are.
pub open spec fn count_of(v: Seq<(Seq<Seq<char>>, usize)>, worktree: Seq<Seq<char>>, i: int) -> usize
    decreases v.len() - i,
{
    if i < 0 || i >= v.len() {
        0
    } else if v[i].0 == worktree {
        v[i].1
    } else {
        count_of(v, worktree, i + 1)
    }
}

/// The paths with another one, unless it is among them.
pub open spec fn with_path(paths: Seq<Seq<Seq<char>>>, path: Seq<Seq<char>>) -> Seq<Seq<Seq<char>>> {
    if paths.contains(path) {
        paths
    } else {
        paths.push(path)
    }
}

/// The paths with the first `n` of others.
pub open spec fn with_paths(paths: Seq<Seq<Seq<char>>>, more: Seq<Seq<Seq<char>>>, n: int) -> Seq<
    Seq<Seq<char>>,
>
    decreases n,
{
    if n <= 0 {
        paths
    } else {
        with_path(with_paths(paths, more, n - 1), more[n - 1])
    }
}

/// Whether a path lies in a work tree that is watched.
pub open spec fn in_worktree(trees: Seq<(Seq<Seq<char>>, usize)>, path: Seq<Seq<char>>) -> bool {
    exists|i: int| 0 <= i < trees.len() && lies_in(path, (#[trigger] trees[i]).0)
}

/// Those of the first `n` paths whose documents are loaded again: all but those of git's own files
/// in a work tree that is watched.
pub open spec fn reloaded(
    trees: Seq<(Seq<Seq<char>>, usize)>,
    paths: Seq<Seq<Seq<char>>>,
    n: int,
) -> Seq<Seq<Seq<char>>>
    decreases n,
{
    if n <= 0 {
        Seq::empty()
    } else if in_worktree(trees, paths[n - 1]) && in_git_dir(paths[n - 1]) {
        reloaded(trees, paths, n - 1)
    } else {
        reloaded(trees, paths, n - 1).push(paths[n - 1])
    }
}

/// Whether one of the first `n` paths lies in a work tree that is watched.
pub open spec fn touches_worktree(
    trees: Seq<(Seq<Seq<char>>, usize)>,
    paths: Seq<Seq<Seq<char>>>,
    n: int,
) -> bool {
    exists|i: int| 0 <= i < n && in_worktree(trees, #[trigger] paths[i])
}

/// Watches files and work trees.
#[derive(Debug)]
pub struct FileWatcher {
    /// The files that have changed since changes last came to rest.
    pub pending: Vec<WatchedPath>,
    /// When changes will have come to rest, if some wait for it.
    pub deadline: Option<u64>,
    pub worktrees: Vec<WorktreeCount>,
}

/// No work tree stands twice in a list, and each has a view of its changes.
pub open spec fn counts_wf(v: Seq<(Seq<Seq<char>>, usize)>) -> bool {
    &&& forall|i: int, j: int| 0 <= i < j < v.len() ==> (#[trigger] v[i]).0 != (#[trigger] v[j]).0
    &&& forall|i: int| 0 <= i < v.len() ==> (#[trigger] v[i]).1 > 0
}

proof fn lemma_count_at(v: Seq<(Seq<Seq<char>>, usize)>, k: int, i: int)
    requires
        counts_wf(v),
        0 <= i <= k < v.len(),
    ensures
        count_of(v, v[k].0, i) == v[k].1,
    decreases k - i,
{
    if i < k {
        assert(v[i].0 != v[k].0);
        lemma_count_at(v, k, i + 1);
    }
}

proof fn lemma_count_absent(v: Seq<(Seq<Seq<char>>, usize)>, worktree: Seq<Seq<char>>, i: int)
    requires
        0 <= i,
        forall|j: int| i <= j < v.len() ==> (#[trigger] v[j]).0 != worktree,
    ensures
        count_of(v, worktree, i) == 0,
    decreases v.len() - i,
{
    if i < v.len() {
        lemma_count_absent(v, worktree, i + 1);
    }
}

/// The lists agree on the counts of all work trees but one.
pub open spec fn same_counts_but(
    a: Seq<(Seq<Seq<char>>, usize)>,
    b: Seq<(Seq<Seq<char>>, usize)>,
    worktree: Seq<Seq<char>>,
) -> bool {
    forall|t: Seq<Seq<char>>| t != worktree ==> #[trigger] count_of(a, t, 0) == count_of(b, t, 0)
}

proof fn lemma_count_push(v: Seq<(Seq<Seq<char>>, usize)>, entry: (Seq<Seq<char>>, usize), t: Seq<Seq<char>>, i: int)
    requires
        0 <= i <= v.len(),
        t != entry.0,
    ensures
        count_of(v.push(entry), t, i) == count_of(v, t, i),
    decreases v.len() - i,
{
    reveal_with_fuel(count_of, 2);
    if i < v.len() {
        assert(v.push(entry)[i] == v[i]);
        lemma_count_push(v, entry, t, i + 1);
    }
}

proof fn lemma_count_update(v: Seq<(Seq<Seq<char>>, usize)>, k: int, n: usize, t: Seq<Seq<char>>, i: int)
    requires
        0 <= i <= v.len(),
        0 <= k < v.len(),
        t != v[k].0,
    ensures
        count_of(v.update(k, (v[k].0, n)), t, i) == count_of(v, t, i),
    decreases v.len() - i,
{
    if i < v.len() {
        lemma_count_update(v, k, n, t, i + 1);
    }
}

proof fn lemma_count_remove(v: Seq<(Seq<Seq<char>>, usize)>, k: int, t: Seq<Seq<char>>, i: int)
    requires
        0 <= i <= v.len(),
        0 <= k < v.len(),
        t != v[k].0,
    ensures
        count_of(v.remove(k), t, if i <= k {
            i
        } else {
            i - 1
        }) == count_of(v, t, i),
    decreases v.len() - i,
{
    if i < v.len() {
        lemma_count_remove(v, k, t, i + 1);
        if i < k {
            assert(v.remove(k)[i] == v[i]);
        } else if i > k {
            assert(v.remove(k)[i - 1] == v[i]);
        }
    }
}

impl Default for FileWatcher {
    fn default() -> (r: Self)
        ensures
            r.wf(),
            r.pending@ == Seq::<WatchedPath>::empty(),
            r.deadline is None,
            r.worktrees@ == Seq::<WorktreeCount>::empty(),
    {
        FileWatcher { pending: Vec::new(), deadline: None, worktrees: Vec::new() }
    }
}

impl FileWatcher {
    /// Each work tree stands in the list once, with the number of views of its changes.
    pub open spec fn wf(self) -> bool {
        counts_wf(count_views(self.worktrees@))
    }

    /// How many views of the changes of a work tree there are.
    pub open spec fn views_of(self, worktree: Seq<Seq<char>>) -> usize {
        count_of(count_views(self.worktrees@), worktree, 0)
    }

    fn find(&self, worktree: &WatchedPath) -> (r: Option<usize>)
        requires
            self.wf(),
        ensures
            match r {
                Some(i) => i < self.worktrees@.len() && self.worktrees@[i as int].worktree@
                    == worktree@ && self.worktrees@[i as int].count == self.views_of(worktree@),
                None => self.views_of(worktree@) == 0 && forall|j: int|
                    0 <= j < self.worktrees@.len() ==> (
                    #[trigger] self.worktrees@[j]).worktree@ != worktree@,
            },
    {
        let ghost v = count_views(self.worktrees@);
        let mut i: usize = 0;
        while i < self.worktrees.len()
            invariant
                i <= self.worktrees@.len(),
                v == count_views(self.worktrees@),
                self.wf(),
                forall|j: int|
                    0 <= j < i ==> (#[trigger] self.worktrees@[j]).worktree@ != worktree@,
            decreases self.worktrees@.len() - i,
        {
            if self.worktrees[i].worktree.same(worktree) {
                proof {
                    lemma_count_at(v, i as int, 0);
                }
                return Some(i);
            }
            i = i + 1;
        }
        proof {
            assert forall|j: int| 0 <= j < v.len() implies (#[trigger] v[j]).0 != worktree@ by {
                assert(v[j].0 == self.worktrees@[j].worktree@);
            }
            lemma_count_absent(v, worktree@, 0);
        }
        None
    }

    /// Takes a request. A work tree is watched with its first view and not any more with its last
    /// one; a request to unwatch one that is not watched is left.
    pub fn handle_command(&mut self, request: WatchRequest) -> (r: WatchAction)
        requires
            old(self).wf(),
            request matches WatchRequest::WatchWorktree(w) ==> old(self).views_of(w@) < usize::MAX,
        ensures
            final(self).wf(),
            final(self).pending == old(self).pending,
            final(self).deadline == old(self).deadline,
            match request {
                WatchRequest::Watch(path) => r@ == WatchActionView::Watch(path@, false) && final(
                    self).worktrees == old(self).worktrees,
                WatchRequest::Unwatch(path) => r@ == WatchActionView::Unwatch(path@) && final(
                    self).worktrees == old(self).worktrees,
                WatchRequest::WatchWorktree(w) => {
                    &&& (final(self).views_of(w@) as int, r@) == view_opened(
                        w@,
                        old(self).views_of(w@) as int,
                    )
                    &&& same_counts_but(
                        count_views(final(self).worktrees@),
                        count_views(old(self).worktrees@),
                        w@,
                    )
                },
                WatchRequest::UnwatchWorktree(w) => {
                    &&& (final(self).views_of(w@) as int, r@) == view_closed(
                        w@,
                        old(self).views_of(w@) as int,
                    )
                    &&& same_counts_but(
                        count_views(final(self).worktrees@),
                        count_views(old(self).worktrees@),
                        w@,
                    )
                },
            },
    {
        match request {
            WatchRequest::Watch(path) => WatchAction::Watch { path, recursive: false },
            WatchRequest::Unwatch(path) => WatchAction::Unwatch { path },
            WatchRequest::WatchWorktree(worktree) => self.watch_worktree(worktree),
            WatchRequest::UnwatchWorktree(worktree) => self.unwatch_worktree(worktree),
        }
    }

    fn watch_worktree(&mut self, worktree: WatchedPath) -> (r: WatchAction)
        requires
            old(self).wf(),
            old(self).views_of(worktree@) < usize::MAX,
        ensures
            final(self).wf(),
            final(self).pending == old(self).pending,
            final(self).deadline == old(self).deadline,
            r@ == if old(self).views_of(worktree@) == 0 {
                WatchActionView::Watch(worktree@, true)
            } else {
                WatchActionView::Nothing
            },
            final(self).views_of(worktree@) == old(self).views_of(worktree@) + 1,
            same_counts_but(
                count_views(final(self).worktrees@),
                count_views(old(self).worktrees@),
                worktree@,
            ),
    {
        let ghost before = count_views(self.worktrees@);
        match self.find(&worktree) {
            Some(i) => {
                proof {
                    assert(before[i as int].1 > 0);
                }
                let count: usize = self.worktrees[i].count + 1;
                let path = self.worktrees[i].worktree.copy();
                self.worktrees.set(i, WorktreeCount { worktree: path, count });
                proof {
                    let after = count_views(self.worktrees@);
                    assert(after =~= before.update(i as int, (before[i as int].0, count)));
                    lemma_count_at(after, i as int, 0);
                    assert forall|t: Seq<Seq<char>>| t != worktree@ implies #[trigger] count_of(
                        after,
                        t,
                        0,
                    ) == count_of(before, t, 0) by {
                        lemma_count_update(before, i as int, count, t, 0);
                    }
                }
                WatchAction::Nothing
            },
            None => {
                let path = worktree.copy();
                self.worktrees.push(WorktreeCount { worktree: path, count: 1 });
                proof {
                    let after = count_views(self.worktrees@);
                    let entry = (worktree@, 1usize);
                    assert(after =~= before.push(entry));
                    assert forall|i: int, j: int| 0 <= i < j < after.len() implies (
                    #[trigger] after[i]).0 != (#[trigger] after[j]).0 by {
                        assert(after[i].0 == old(self).worktrees@[i].worktree@);
                    }
                    lemma_count_at(after, before.len() as int, 0);
                    assert forall|t: Seq<Seq<char>>| t != worktree@ implies #[trigger] count_of(
                        after,
                        t,
                        0,
                    ) == count_of(before, t, 0) by {
                        lemma_count_push(before, entry, t, 0);
                    }
                }
                WatchAction::Watch { path: worktree, recursive: true }
            },
        }
    }

    fn unwatch_worktree(&mut self, worktree: WatchedPath) -> (r: WatchAction)
        requires
            old(self).wf(),
        ensures
            final(self).wf(),
            final(self).pending == old(self).pending,
            final(self).deadline == old(self).deadline,
            r@ == if old(self).views_of(worktree@) == 1 {
                WatchActionView::Unwatch(worktree@)
            } else {
                WatchActionView::Nothing
            },
            final(self).views_of(worktree@) == if old(self).views_of(worktree@) == 0 {
                0
            } else {
                old(self).views_of(worktree@) - 1
            },
            same_counts_but(
                count_views(final(self).worktrees@),
                count_views(old(self).worktrees@),
                worktree@,
            ),
    {
        let ghost before = count_views(self.worktrees@);
        match self.find(&worktree) {
            Some(i) => {
                proof {
                    assert(before[i as int].1 > 0);
                    assert(before[i as int].0 == worktree@);
                }
                let count: usize = self.worktrees[i].count - 1;
                if count == 0 {
                    let _gone = self.worktrees.remove(i);
                    proof {
                        let after = count_views(self.worktrees@);
                        assert(after =~= before.remove(i as int));
                        assert forall|j: int| 0 <= j < after.len() implies (
                        #[trigger] after[j]).0 != worktree@ by {
                            let k = if j < i {
                                j
                            } else {
                                j + 1
                            };
                            assert(after[j] == before[k]);
                            assert(before[k].0 != before[i as int].0);
                        }
                        lemma_count_absent(after, worktree@, 0);
                        assert forall|t: Seq<Seq<char>>| t != worktree@ implies #[trigger] count_of(
                            after,
                            t,
                            0,
                        ) == count_of(before, t, 0) by {
                            lemma_count_remove(before, i as int, t, 0);
                        }
                    }
                    WatchAction::Unwatch { path: worktree }
                } else {
                    let path = self.worktrees[i].worktree.copy();
                    self.worktrees.set(i, WorktreeCount { worktree: path, count });
                    proof {
                        let after = count_views(self.worktrees@);
                        assert(after =~= before.update(i as int, (before[i as int].0, count)));
                        lemma_count_at(after, i as int, 0);
                        assert forall|t: Seq<Seq<char>>| t != worktree@ implies #[trigger] count_of(
                            after,
                            t,
                            0,
                        ) == count_of(before, t, 0) by {
                            lemma_count_update(before, i as int, count, t, 0);
                        }
                    }
                    WatchAction::Nothing
                }
            },
            None => WatchAction::Nothing,
        }
    }

    fn note(&mut self, path: WatchedPath)
        ensures
            path_views(final(self).pending@) == with_path(path_views(old(self).pending@), path@),
            final(self).worktrees == old(self).worktrees,
            final(self).deadline == old(self).deadline,
    {
        let ghost before = path_views(self.pending@);
        let mut i: usize = 0;
        while i < self.pending.len()
            invariant
                i <= self.pending@.len(),
                *self == *old(self),
                before == path_views(self.pending@),
                forall|k: int| 0 <= k < i ==> #[trigger] before[k] != path@,
            decreases self.pending@.len() - i,
        {
            if self.pending[i].same(&path) {
                assert(before[i as int] == path@);
                assert(before.contains(path@));
                return;
            }
            i = i + 1;
        }
        assert(!before.contains(path@));
        let ghost shown = path@;
        self.pending.push(path);
        assert(path_views(self.pending@) =~= before.push(shown));
    }

    /// Takes changes of files, by their resolved paths. Contents, names and new files count, and
    /// let the time until changes have come to rest start anew.
    pub fn handle_change(&mut self, kind: ChangeKind, paths: Vec<WatchedPath>, now: u64)
        requires
            now + DEBOUNCE <= u64::MAX,
        ensures
            final(self).worktrees == old(self).worktrees,
            if counts(kind) {
                &&& path_views(final(self).pending@) == with_paths(
                    path_views(old(self).pending@),
                    path_views(paths@),
                    paths@.len() as int,
                )
                &&& final(self).deadline == Some((now + DEBOUNCE) as u64)
            } else {
                final(self).pending == old(self).pending && final(self).deadline == old(
                    self).deadline
            },
    {
        match kind {
            ChangeKind::Modify | ChangeKind::Create => {
                let ghost all = paths@;
                let ghost before = path_views(self.pending@);
                for path in it: paths
                    invariant
                        it.seq() == all,
                        before == path_views(old(self).pending@),
                        self.worktrees == old(self).worktrees,
                        path_views(self.pending@) == with_paths(
                            before,
                            path_views(all),
                            it.index() as int,
                        ),
                {
                    assert(path_views(all)[it.index() as int] == path@);
                    self.note(path);
                }
                self.deadline = Some(now + DEBOUNCE);
            },
            _ => {},
        }
    }

    fn is_in_worktree(&self, path: &WatchedPath) -> (r: bool)
        ensures
            r == in_worktree(count_views(self.worktrees@), path@),
    {
        let ghost trees = count_views(self.worktrees@);
        let mut i: usize = 0;
        while i < self.worktrees.len()
            invariant
                i <= self.worktrees@.len(),
                trees == count_views(self.worktrees@),
                forall|k: int| 0 <= k < i ==> !lies_in(path@, (#[trigger] trees[k]).0),
            decreases self.worktrees@.len() - i,
        {
            assert(trees[i as int].0 == self.worktrees@[i as int].worktree@);
            if path.starts_with(&self.worktrees[i].worktree) {
                return true;
            }
            i = i + 1;
        }
        false
    }

    /// Deals with the changes that have come to rest: gives the files whose documents are loaded
    /// again, and whether views of changes are computed again.
    pub fn settle(&mut self) -> (r: Settled)
        ensures
            final(self).worktrees == old(self).worktrees,
            final(self).pending@ == Seq::<WatchedPath>::empty(),
            final(self).deadline is None,
            ({
                let trees = count_views(old(self).worktrees@);
                let paths = path_views(old(self).pending@);
                &&& path_views(r.reload@) == reloaded(trees, paths, paths.len() as int)
                &&& r.diff_refresh == touches_worktree(trees, paths, paths.len() as int)
            }),
    {
        self.deadline = None;
        let ghost all = self.pending@;
        let ghost paths = path_views(all);
        let ghost trees = count_views(self.worktrees@);
        let mut pending: Vec<WatchedPath> = Vec::new();
        std::mem::swap(&mut self.pending, &mut pending);
        let mut reload: Vec<WatchedPath> = Vec::new();
        let mut diff_refresh = false;
        assert(path_views(reload@) =~= Seq::empty());
        for path in it: pending
            invariant
                it.seq() == all,
                all == old(self).pending@,
                paths == path_views(all),
                trees == count_views(self.worktrees@),
                self.worktrees == old(self).worktrees,
                self.pending@ == Seq::<WatchedPath>::empty(),
                self.deadline is None,
                path_views(reload@) == reloaded(trees, paths, it.index() as int),
                diff_refresh == touches_worktree(trees, paths, it.index() as int),
        {
            let ghost i = it.index() as int;
            let ghost before = reload@;
            assert(paths[i] == path@);
            proof {
                assert(touches_worktree(trees, paths, i + 1) == (touches_worktree(trees, paths, i)
                    || in_worktree(trees, paths[i])));
            }
            if self.is_in_worktree(&path) {
                diff_refresh = true;
                if !path.in_git() {
                    reload.push(path);
                    assert(path_views(reload@) =~= path_views(before).push(paths[i]));
                }
            } else {
                reload.push(path);
                assert(path_views(reload@) =~= path_views(before).push(paths[i]));
            }
        }
        Settled { reload, diff_refresh }
    }
}

/// Watching a work tree and unwatching it again leaves the number of views of every work tree as it
/// was, and the operating system is asked to unwatch the tree exactly if it was asked to watch it.
pub proof fn law_watch_and_unwatch_cancel(
    before: Seq<(Seq<Seq<char>>, usize)>,
    watched: Seq<(Seq<Seq<char>>, usize)>,
    after: Seq<(Seq<Seq<char>>, usize)>,
    worktree: Seq<Seq<char>>,
)
    requires
        count_of(watched, worktree, 0) == count_of(before, worktree, 0) + 1,
        same_counts_but(watched, before, worktree),
        count_of(after, worktree, 0) == if count_of(watched, worktree, 0) == 0 {
            0
        } else {
            count_of(watched, worktree, 0) - 1
        },
        same_counts_but(after, watched, worktree),
    ensures
        forall|t: Seq<Seq<char>>| #[trigger] count_of(after, t, 0) == count_of(before, t, 0),
        count_of(before, worktree, 0) == 0 <==> count_of(watched, worktree, 0) == 1,
{
    assert forall|t: Seq<Seq<char>>| #[trigger] count_of(after, t, 0) == count_of(before, t, 0) by {
        if t != worktree {
            assert(count_of(watched, t, 0) == count_of(before, t, 0));
        }
    }
}

/// A file that changes outside of git's own directory has its document loaded again.
pub proof fn law_changed_file_is_reloaded(
    trees: Seq<(Seq<Seq<char>>, usize)>,
    paths: Seq<Seq<Seq<char>>>,
    k: int,
    n: int,
)
    requires
        0 <= k < n <= paths.len(),
        !in_git_dir(paths[k]),
    ensures
        reloaded(trees, paths, n).contains(paths[k]),
    decreases n,
{
    if k == n - 1 {
        assert(reloaded(trees, paths, n).last() == paths[k]);
    } else {
        law_changed_file_is_reloaded(trees, paths, k, n - 1);
        let before = reloaded(trees, paths, n - 1);
        let at = choose|i: int| 0 <= i < before.len() && before[i] == paths[k];
        assert(reloaded(trees, paths, n)[at] == paths[k]);
    }
}

/// Whether the document of the active tab is loaded again for a file that has changed: reloading is
/// switched on, the document is that of the file, and a view shows it.
pub fn reloads(auto_reload: bool, path: &str, doc_path: Option<&str>, has_views: bool) -> (r: bool)
    ensures
        r == (auto_reload && (doc_path matches Some(p) && path_parts(p@)
            == path_parts(path@)) && has_views),
{
    match doc_path {
        Some(p) => auto_reload && same_path(p, path) && has_views,
        None => false,
    }
}

/// What is told after a document was loaded again; `name` is that of its file.
pub fn reloaded_status(name: Option<&str>) -> (r: String)
    ensures
        r@ == "Reloaded '"@ + (match name {
            Some(n) => n@,
            None => Seq::empty(),
        }) + "'"@,
{
    let mut s = "Reloaded '".to_owned();
    match name {
        Some(n) => {
            s.append(n);
        },
        None => {},
    }
    s.append("'");
    assert(s@ =~= "Reloaded '"@ + (match name {
        Some(n) => n@,
        None => Seq::empty(),
    }) + "'"@);
    s
}

/// The work tree whose local changes the application that is shown shows.
pub fn diff_to_refresh(apps: &EditorApps) -> (r: Option<String>)
    ensures
        text_opt(r) == if apps.active_app < apps.apps@.len() {
            match apps.apps@[apps.active_app as int].kind@ {
                AppKindView::Diff(DiffKeyView::LocalChanges, cwd) => Some(cwd),
                _ => None,
            }
        } else {
            None
        },
{
    if apps.active_app >= apps.apps.len() {
        return None;
    }
    match &apps.apps[apps.active_app].kind {
        AppKind::Diff { key, cwd } => match key {
            DiffKey::LocalChanges => Some(cwd.clone()),
            _ => None,
        },
        _ => None,
    }
}

/// What the watcher is asked to do, with its text.
pub enum CommandView {
    Watch(Seq<char>),
    Unwatch(Seq<char>),
    WatchWorktree(Seq<char>),
    UnwatchWorktree(Seq<char>),
}

impl View for FileWatcherCommand {
    type V = CommandView;

    open spec fn view(&self) -> CommandView {
        match self {
            FileWatcherCommand::Watch { path } => CommandView::Watch(path@),
            FileWatcherCommand::Unwatch { path } => CommandView::Unwatch(path@),
            FileWatcherCommand::WatchWorktree { worktree } => CommandView::WatchWorktree(worktree@),
            FileWatcherCommand::UnwatchWorktree { worktree } => CommandView::UnwatchWorktree(
                worktree@,
            ),
        }
    }
}

/// The views of commands.
pub open spec fn command_views(v: Seq<FileWatcherCommand>) -> Seq<CommandView> {
    v.map_values(|c: FileWatcherCommand| c@)
}

/// What the watcher is asked to do when a document is opened: watch its file, and the work tree
/// whose local changes it shows.
pub fn document_opened(path: Option<String>, changes_of: Option<String>) -> (r: Vec<
    FileWatcherCommand,
>)
    ensures
        command_views(r@) == (match path {
            Some(p) => seq![CommandView::Watch(p@)],
            None => Seq::empty(),
        }) + (match changes_of {
            Some(w) => seq![CommandView::WatchWorktree(w@)],
            None => Seq::empty(),
        }),
{
    let mut out: Vec<FileWatcherCommand> = Vec::new();
    match path {
        Some(path) => {
            out.push(FileWatcherCommand::Watch { path });
        },
        None => {},
    }
    match changes_of {
        Some(worktree) => {
            out.push(FileWatcherCommand::WatchWorktree { worktree });
        },
        None => {},
    }
    assert(command_views(out@) =~= (match path {
        Some(p) => seq![CommandView::Watch(p@)],
        None => Seq::empty(),
    }) + (match changes_of {
        Some(w) => seq![CommandView::WatchWorktree(w@)],
        None => Seq::empty(),
    }));
    out
}

/// What the watcher is asked to do when a document is closed.
pub fn document_closed(path: Option<String>, changes_of: Option<String>) -> (r: Vec<
    FileWatcherCommand,
>)
    ensures
        command_views(r@) == (match path {
            Some(p) => seq![CommandView::Unwatch(p@)],
            None => Seq::empty(),
        }) + (match changes_of {
            Some(w) => seq![CommandView::UnwatchWorktree(w@)],
            None => Seq::empty(),
        }),
{
    let mut out: Vec<FileWatcherCommand> = Vec::new();
    match path {
        Some(path) => {
            out.push(FileWatcherCommand::Unwatch { path });
        },
        None => {},
    }
    match changes_of {
        Some(worktree) => {
            out.push(FileWatcherCommand::UnwatchWorktree { worktree });
        },
        None => {},
    }
    assert(command_views(out@) =~= (match path {
        Some(p) => seq![CommandView::Unwatch(p@)],
        None => Seq::empty(),
    }) + (match changes_of {
        Some(w) => seq![CommandView::UnwatchWorktree(w@)],
        None => Seq::empty(),
    }));
    out
}

/// What lies in a directory is the directory itself and whatever has further components behind it, at
/// any depth; what has another beginning, or is shorter, does not.
pub proof fn law_what_lies_in_a_directory(
    dir: Seq<Seq<char>>,
    rest: Seq<Seq<char>>,
    path: Seq<Seq<char>>,
    i: int,
)
    ensures
        lies_in(dir + rest, dir),
        path.len() < dir.len() ==> !lies_in(path, dir),
        0 <= i < dir.len() && i < path.len() && path[i] != dir[i] ==> !lies_in(path, dir),
{
    assert((dir + rest).take(dir.len() as int) =~= dir);
    if 0 <= i < dir.len() && i < path.len() && path[i] != dir[i] && lies_in(path, dir) {
        assert(path.take(dir.len() as int)[i] == path[i]);
    }
}

/// A path is in git's own directory just if one of its components is that directory; a name that only
/// begins so is another one.
pub proof fn law_git_directory(before: Seq<Seq<char>>, after: Seq<Seq<char>>, path: Seq<Seq<char>>)
    ensures
        in_git_dir(before + seq![".git"@] + after),
        !path.contains(".git"@) ==> !in_git_dir(path),
{
    let all = before + seq![".git"@] + after;
    assert(all[before.len() as int] == ".git"@);
    if in_git_dir(path) {
        let i = choose|i: int| 0 <= i < path.len() && #[trigger] path[i] == ".git"@;
        assert(path.contains(path[i]));
    }
}

/// All that changed is loaded again, in its order, except what lies in the git directory of a work tree
/// that is watched.
pub proof fn law_only_git_internals_are_not_reloaded(trees: Seq<(Seq<Seq<char>>, usize)>, paths: Seq<Seq<Seq<char>>>, n: int)
    requires
        0 <= n <= paths.len(),
    ensures
        reloaded(trees, paths, n) == paths.take(n).filter(|x: Seq<Seq<char>>| !(in_git_dir(x) && in_worktree(trees, x))),
    decreases n,
{
    reveal(Seq::filter);
    if n > 0 {
        law_only_git_internals_are_not_reloaded(trees, paths, n - 1);
        assert(paths.take(n).drop_last() =~= paths.take(n - 1));
    } else {
        assert(paths.take(n) =~= Seq::empty());
        assert(reloaded(trees, paths, n) =~= paths.take(n).filter(|x: Seq<Seq<char>>| !(in_git_dir(x) && in_worktree(trees, x))));
    }
}

/// A path that is noted twice is there once, at its first place; noting it forgets no other one.
pub proof fn law_noted_path_is_there_once(
    paths: Seq<Seq<Seq<char>>>,
    path: Seq<Seq<char>>,
    other: Seq<Seq<char>>,
)
    ensures
        with_path(paths, path).contains(path),
        with_path(with_path(paths, path), path) == with_path(paths, path),
        other != path ==> (with_path(paths, path).contains(other) <==> paths.contains(other)),
        paths == with_path(paths, path).take(paths.len() as int),
        paths.no_duplicates() ==> with_path(paths, path).no_duplicates(),
{
    let all = with_path(paths, path);
    assert(paths =~= all.take(paths.len() as int));
    if !paths.contains(path) {
        assert(all[paths.len() as int] == path);
        if paths.contains(other) {
            let i = choose|i: int| 0 <= i < paths.len() && paths[i] == other;
            assert(all[i] == other);
        }
        if all.contains(other) && other != path {
            let i = choose|i: int| 0 <= i < all.len() && all[i] == other;
            assert(paths[i] == other);
        }
    }
}

/// All paths of an event are noted, and none of those that were noted before is forgotten.
pub proof fn law_all_paths_are_noted(
    paths: Seq<Seq<Seq<char>>>,
    more: Seq<Seq<Seq<char>>>,
    n: int,
    x: Seq<Seq<char>>,
)
    requires
        0 <= n <= more.len(),
    ensures
        with_paths(paths, more, n).contains(x) <==> paths.contains(x) || more.take(n).contains(x),
        paths.no_duplicates() ==> with_paths(paths, more, n).no_duplicates(),
    decreases n,
{
    let part = more.take(n);
    if n > 0 {
        law_all_paths_are_noted(paths, more, n - 1, x);
        law_noted_path_is_there_once(with_paths(paths, more, n - 1), more[n - 1], x);
        let shorter = more.take(n - 1);
        assert(part[n - 1] == more[n - 1]);
        if shorter.contains(x) {
            let i = choose|i: int| 0 <= i < shorter.len() && shorter[i] == x;
            assert(part[i] == x);
        }
        if part.contains(x) && x != more[n - 1] {
            let i = choose|i: int| 0 <= i < part.len() && part[i] == x;
            assert(shorter[i] == x);
        }
    }
}

/// The number of views of a work tree is the one that stands beside it, and none where it does not
/// occur.
pub proof fn law_views_of_a_worktree(v: Seq<(Seq<Seq<char>>, usize)>, worktree: Seq<Seq<char>>, i: int, k: int)
    requires
        0 <= i <= k <= v.len(),
        forall|m: int| i <= m < k ==> (#[trigger] v[m]).0 != worktree,
    ensures
        k < v.len() && v[k].0 == worktree ==> count_of(v, worktree, i) == v[k].1,
        k == v.len() ==> count_of(v, worktree, i) == 0,
    decreases k - i,
{
    if i < k {
        law_views_of_a_worktree(v, worktree, i + 1, k);
    }
}

/// The number of views of a work tree after another one was opened, and what the operating system is
/// asked to do.
pub open spec fn view_opened(worktree: Seq<Seq<char>>, views: int) -> (int, WatchActionView) {
    (views + 1, if views == 0 {
        WatchActionView::Watch(worktree, true)
    } else {
        WatchActionView::Nothing
    })
}

/// The number of views of a work tree after one was closed, and what the operating system is asked to
/// do.
pub open spec fn view_closed(worktree: Seq<Seq<char>>, views: int) -> (int, WatchActionView) {
    (if views == 0 {
        0
    } else {
        views - 1
    }, if views == 1 {
        WatchActionView::Unwatch(worktree)
    } else {
        WatchActionView::Nothing
    })
}

/// Whether a change of a file counts.
pub open spec fn counts(kind: ChangeKind) -> bool {
    kind == ChangeKind::Modify || kind == ChangeKind::Create
}

/// A work tree is watched as long as there is a view of it: the system is asked to watch it, with all
/// below it, when the number of views leaves zero, and to stop when it comes back there. Closing a view
/// undoes opening it; closing one that there is not does nothing.
pub proof fn law_worktree_is_watched_with_views(worktree: Seq<Seq<char>>, views: int)
    requires
        views >= 0,
    ensures
        view_opened(worktree, views).0 == views + 1,
        view_closed(worktree, view_opened(worktree, views).0).0 == views,
        view_opened(worktree, views).1 is Watch <==> views == 0,
        view_opened(worktree, views).1 matches WatchActionView::Watch(w, all) ==> w == worktree && all,
        view_closed(worktree, view_opened(worktree, views).0).1 is Unwatch <==> views == 0,
        view_closed(worktree, views).1 matches WatchActionView::Unwatch(w) ==> w == worktree && view_closed(
            worktree,
            views,
        ).0 == 0 && views > 0,
        view_closed(worktree, 0) == (0int, WatchActionView::Nothing),
        !(view_opened(worktree, views).1 is Unwatch),
        !(view_closed(worktree, views).1 is Watch),
{
}

/// New contents, new names and new files count; permissions, owners, times and anything else do not.
pub proof fn law_changes_that_count(kind: ChangeKind)
    ensures
        counts(ChangeKind::Modify),
        counts(ChangeKind::Create),
        kind != ChangeKind::Modify && kind != ChangeKind::Create ==> !counts(kind),
{
}

} // verus!
