//! The applications in the tabs.
use crate::app_id::AppId;
use crate::app_id::AppIds;
use crate::diff_view::DiffKey;
use crate::diff_view::DiffKeyView;
use crate::paths::path_parts;
use crate::paths::same_path;
use crate::strings::text_opt;
use vstd::prelude::*;
use vstd::string::*;

verus! {

/// What an application shows.
#[derive(Debug)]
pub enum AppKind {
    /// The page shown without any document.
    Welcome,
    /// A document.
    Editor,
    /// Changed files of a work tree.
    Diff { key: DiffKey, cwd: String },
}

/// What an application shows, with its texts.
pub enum AppKindView {
    Welcome,
    Editor,
    Diff(DiffKeyView, Seq<char>),
}

impl View for AppKind {
    type V = AppKindView;

    open spec fn view(&self) -> AppKindView {
        match self {
            AppKind::Welcome => AppKindView::Welcome,
            AppKind::Editor => AppKindView::Editor,
            AppKind::Diff { key, cwd } => AppKindView::Diff(key@, cwd@),
        }
    }
}

/// An application.
#[derive(Debug)]
pub struct AppEntry {
    pub id: AppId,
    pub kind: AppKind,
}

/// The applications, which of them is shown, and which have a document.
#[derive(Debug)]
pub struct EditorApps {
    pub apps: Vec<AppEntry>,
    pub active_app: usize,
    pub doc_views: Vec<AppId>,
}

/// The identifier and kind of an application.
pub type AppView = (AppId, AppKindView);

/// The views of applications.
pub open spec fn app_views(v: Seq<AppEntry>) -> Seq<AppView> {
    v.map_values(|a: AppEntry| (a.id, a.kind@))
}

/// The identifiers without one of them.
pub open spec fn ids_without(ids: Seq<AppId>, id: AppId, n: int) -> Seq<AppId>
    decreases n,
{
    if n <= 0 {
        Seq::empty()
    } else if ids[n - 1] == id {
        ids_without(ids, id, n - 1)
    } else {
        ids_without(ids, id, n - 1).push(ids[n - 1])
    }
}

/// The work tree that need not be watched any more once an application is closed.
pub open spec fn unwatched(app: AppView) -> Option<Seq<char>> {
    match app.1 {
        AppKindView::Diff(DiffKeyView::LocalChanges, cwd) => Some(cwd),
        _ => None,
    }
}

/// The identifier after `id`.
pub open spec fn following(id: u64) -> u64 {
    if id == u64::MAX {
        0
    } else {
        (id + 1) as u64
    }
}

/// The documents that are left once an application is closed.
pub open spec fn docs_after_close(docs: Seq<AppId>, app: AppView) -> Seq<AppId> {
    if app.1 is Editor {
        ids_without(docs, app.0, docs.len() as int)
    } else {
        docs
    }
}

/// The application shown after the one at `index` was closed and `len` are left.
pub open spec fn active_after_close(active: int, index: int, len: int) -> int {
    if active >= len {
        len - 1
    } else if active > index {
        active - 1
    } else {
        active
    }
}

/// Closing the application at `index` turns `before` into `after`: without any other the welcome
/// page is shown, with the identifier `next`. `unwatch` is the work tree that need not be watched
/// any more, `next_after` the next identifier then. Where there is no application, nothing happens.
pub open spec fn closing(
    before: EditorApps,
    index: int,
    after: EditorApps,
    unwatch: Option<Seq<char>>,
    next: u64,
    next_after: u64,
) -> bool {
    if index >= before.apps@.len() {
        unwatch is None && after == before && next_after == next
    } else {
        let app = app_views(before.apps@)[index];
        let rest = before.apps@.remove(index);
        &&& unwatch == unwatched(app)
        &&& after.doc_views@ == docs_after_close(before.doc_views@, app)
        &&& if rest.len() == 0 {
            &&& app_views(after.apps@) == seq![(AppId(next), AppKindView::Welcome)]
            &&& after.active_app == 0
            &&& next_after == following(next)
        } else {
            &&& after.apps@ == rest
            &&& after.active_app == active_after_close(
                before.active_app as int,
                index,
                rest.len() as int,
            )
            &&& next_after == next
        }
    }
}

impl EditorApps {
    /// The application that is shown exists, if there is any.
    pub open spec fn wf(self) -> bool {
        self.active_app < self.apps@.len() || (self.apps@.len() == 0 && self.active_app == 0)
    }

    pub fn new() -> (r: Self)
        ensures
            r.wf(),
            r.apps@ == Seq::<AppEntry>::empty(),
            r.active_app == 0,
            r.doc_views@ == Seq::<AppId>::empty(),
    {
        EditorApps { apps: Vec::new(), active_app: 0, doc_views: Vec::new() }
    }

    pub fn app_count(&self) -> (r: usize)
        ensures
            r == self.apps@.len(),
    {
        self.apps.len()
    }

    pub fn active_app_index(&self) -> (r: usize)
        ensures
            r == self.active_app,
    {
        self.active_app
    }

    /// Whether only the welcome page is there.
    pub open spec fn only_welcome(self) -> bool {
        self.apps@.len() == 1 && self.apps@[0].kind@ is Welcome
    }

    fn shows_only_welcome(&self) -> (r: bool)
        ensures
            r == self.only_welcome(),
    {
        if self.apps.len() != 1 {
            return false;
        }
        match self.apps[0].kind {
            AppKind::Welcome => true,
            _ => false,
        }
    }

    /// Adds an application and shows it; it takes the place of the welcome page.
    pub fn add_app(&mut self, app: AppEntry)
        ensures
            final(self).wf(),
            final(self).apps@ == (if old(self).only_welcome() {
                Seq::empty()
            } else {
                old(self).apps@
            }).push(app),
            final(self).active_app == final(self).apps@.len() - 1,
            final(self).doc_views == old(self).doc_views,
    {
        if self.shows_only_welcome() {
            let _welcome = self.apps.remove(0);
            assert(self.apps@ =~= Seq::empty());
        }
        self.apps.push(app);
        self.active_app = self.apps.len() - 1;
    }

    /// Closes the application at `index`. Without any other the welcome page is shown. Gives the
    /// work tree that need not be watched any more.
    pub fn close_app_at(&mut self, index: usize, ids: &mut AppIds) -> (r: Option<String>)
        requires
            old(self).wf(),
        ensures
            final(self).wf(),
            closing(
                *old(self),
                index as int,
                *final(self),
                text_opt(r),
                old(ids)@,
                final(ids)@,
            ),
    {
        if index >= self.apps.len() {
            return None;
        }
        let app = self.apps.remove(index);
        assert(app_views(old(self).apps@)[index as int] == (app.id, app.kind@));
        let worktree: Option<String> = match &app.kind {
            AppKind::Diff { key, cwd } => match key {
                DiffKey::LocalChanges => Some(cwd.clone()),
                _ => None,
            },
            _ => None,
        };
        match app.kind {
            AppKind::Editor => {
                self.remove_doc_view(app.id);
            },
            _ => {},
        }
        if self.apps.len() == 0 {
            self.show_welcome(ids);
            return worktree;
        }
        if self.active_app >= self.apps.len() {
            self.active_app = self.apps.len() - 1;
        } else if self.active_app > index {
            self.active_app = self.active_app - 1;
        }
        worktree
    }

    fn show_welcome(&mut self, ids: &mut AppIds)
        requires
            old(self).apps@.len() == 0,
        ensures
            app_views(final(self).apps@) == seq![(AppId(old(ids)@), AppKindView::Welcome)],
            final(self).apps@.len() == 1,
            final(self).active_app == 0,
            final(self).doc_views == old(self).doc_views,
            final(ids)@ == following(old(ids)@),
    {
        let ghost next = ids@;
        self.apps.push(AppEntry { id: AppId::next(ids), kind: AppKind::Welcome });
        self.active_app = 0;
        assert(app_views(self.apps@) =~= seq![(AppId(next), AppKindView::Welcome)]);
    }

    fn remove_doc_view(&mut self, id: AppId)
        ensures
            final(self).doc_views@ == ids_without(
                old(self).doc_views@,
                id,
                old(self).doc_views@.len() as int,
            ),
            final(self).apps == old(self).apps,
            final(self).active_app == old(self).active_app,
    {
        let mut rest: Vec<AppId> = Vec::new();
        let mut i: usize = 0;
        while i < self.doc_views.len()
            invariant
                i <= self.doc_views@.len(),
                *self == *old(self),
                rest@ == ids_without(self.doc_views@, id, i as int),
            decreases self.doc_views@.len() - i,
        {
            let d = self.doc_views[i];
            if d != id {
                rest.push(d);
            }
            i = i + 1;
        }
        self.doc_views = rest;
    }

    /// Closes the application that is shown.
    pub fn close_active_app(&mut self, ids: &mut AppIds) -> (r: Option<String>)
        requires
            old(self).wf(),
        ensures
            final(self).wf(),
            closing(
                *old(self),
                old(self).active_app as int,
                *final(self),
                text_opt(r),
                old(ids)@,
                final(ids)@,
            ),
    {
        let index: usize = self.active_app;
        self.close_app_at(index, ids)
    }

    /// Closes all applications but the one that is shown, the last one first. Gives the work trees
    /// that need not be watched any more.
    pub fn close_other_apps(&mut self, ids: &mut AppIds) -> (r: Vec<String>)
        requires
            old(self).wf(),
        ensures
            final(self).wf(),
            old(self).apps@.len() == 0 ==> *final(self) == *old(self),
            old(self).apps@.len() > 0 ==> final(self).apps@ == seq![
                old(self).apps@[old(self).active_app as int],
            ] && final(self).active_app == 0,
            crate::strings::texts(r@) == unwatched_others(
                app_views(old(self).apps@),
                old(self).active_app as int,
                0,
            ),
            final(self).doc_views@ == docs_without_others(
                old(self).doc_views@,
                app_views(old(self).apps@),
                old(self).active_app as int,
                0,
            ),
            final(ids)@ == old(ids)@,
    {
        let ghost all = self.apps@;
        let ghost active = self.active_app as int;
        let ghost views = app_views(all);
        let mut out: Vec<String> = Vec::new();
        let mut i: usize = self.apps.len();
        let kept: usize = self.active_app;
        assert(crate::strings::texts(out@) =~= Seq::empty());
        if i == 0 {
            return out;
        }
        assert(all.take(i as int) =~= all);
        while i > 0
            invariant
                self.wf(),
                i <= all.len(),
                all == old(self).apps@,
                views == app_views(all),
                active == old(self).active_app,
                kept == active,
                active < all.len(),
                self.apps@ == others_closed(all, active, i as int),
                self.active_app == if i > active {
                    active
                } else {
                    i as int
                },
                crate::strings::texts(out@) == unwatched_others(views, active, i as int),
                self.doc_views@ == docs_without_others(
                    old(self).doc_views@,
                    views,
                    active,
                    i as int,
                ),
                ids@ == old(ids)@,
            decreases i,
        {
            i = i - 1;
            if i != kept {
                let ghost before = self.apps@;
                let ghost texts_before = crate::strings::texts(out@);
                proof {
                    assert(before[i as int] == all[i as int]);
                    assert(app_views(before)[i as int] == views[i as int]);
                    assert(before.remove(i as int) =~= others_closed(all, active, i as int));
                    if i > active {
                        assert(before[active] == all[active]);
                    }
                }
                match self.close_app_at(i, ids) {
                    Some(worktree) => {
                        out.push(worktree);
                        assert(crate::strings::texts(out@) =~= texts_before.push(worktree@));
                    },
                    None => {},
                }
            } else {
                assert(self.apps@ =~= others_closed(all, active, i as int));
            }
        }
        assert(self.apps@ =~= seq![all[active]]);
        out
    }

    /// Closes all applications. Gives the work trees that need not be watched any more.
    pub fn close_all_apps(&mut self, ids: &mut AppIds) -> (r: Vec<String>)
        requires
            old(self).wf(),
        ensures
            final(self).wf(),
            old(self).apps@.len() == 0 ==> *final(self) == *old(self) && final(ids)@ == old(ids)@,
            old(self).apps@.len() > 0 ==> app_views(final(self).apps@) == seq![
                (AppId(old(ids)@), AppKindView::Welcome),
            ] && final(self).active_app == 0 && final(ids)@ == following(old(ids)@),
            crate::strings::texts(r@) == unwatched_first(
                app_views(old(self).apps@),
                old(self).apps@.len() as int,
            ),
            final(self).doc_views@ == docs_without_first(
                old(self).doc_views@,
                app_views(old(self).apps@),
                old(self).apps@.len() as int,
            ),
    {
        let ghost all = self.apps@;
        let ghost views = app_views(all);
        let count: usize = self.apps.len();
        let mut out: Vec<String> = Vec::new();
        assert(crate::strings::texts(out@) =~= Seq::empty());
        assert(all.skip(0) =~= all);
        let mut i: usize = 0;
        while i < count
            invariant
                self.wf(),
                i <= count,
                count == all.len(),
                all == old(self).apps@,
                views == app_views(all),
                count == 0 ==> *self == *old(self),
                i < count || count == 0 ==> self.apps@ == all.skip(i as int) && ids@ == old(ids)@,
                i == count && count > 0 ==> app_views(self.apps@) == seq![
                    (AppId(old(ids)@), AppKindView::Welcome),
                ] && self.active_app == 0 && ids@ == following(old(ids)@),
                crate::strings::texts(out@) == unwatched_first(views, i as int),
                self.doc_views@ == docs_without_first(old(self).doc_views@, views, i as int),
            decreases count - i,
        {
            let ghost before = self.apps@;
            let ghost texts_before = crate::strings::texts(out@);
            proof {
                assert(app_views(before)[0] == views[i as int]);
                assert(before.remove(0) =~= all.skip(i + 1));
            }
            match self.close_app_at(0, ids) {
                Some(worktree) => {
                    out.push(worktree);
                    assert(crate::strings::texts(out@) =~= texts_before.push(worktree@));
                },
                None => {},
            }
            i = i + 1;
        }
        out
    }

    /// Shows the next application; behind the last one comes the first.
    pub fn next_app(&mut self)
        requires
            old(self).wf(),
        ensures
            final(self).wf(),
            final(self).apps == old(self).apps,
            final(self).doc_views == old(self).doc_views,
            final(self).active_app == next_place(
                old(self).active_app as int,
                old(self).apps@.len() as int,
            ),
    {
        if self.apps.len() > 0 {
            self.active_app = (self.active_app + 1) % self.apps.len();
        }
    }

    /// Shows the application before; before the first one comes the last.
    pub fn prev_app(&mut self)
        requires
            old(self).wf(),
        ensures
            final(self).wf(),
            final(self).apps == old(self).apps,
            final(self).doc_views == old(self).doc_views,
            final(self).active_app == prev_place(
                old(self).active_app as int,
                old(self).apps@.len() as int,
            ),
    {
        if self.apps.len() > 0 {
            self.active_app = if self.active_app == 0 {
                self.apps.len() - 1
            } else {
                self.active_app - 1
            };
        }
    }

    /// Shows the application at `index`, if there is one.
    pub fn switch_app(&mut self, index: usize)
        requires
            old(self).wf(),
        ensures
            final(self).wf(),
            final(self).apps == old(self).apps,
            final(self).doc_views == old(self).doc_views,
            final(self).active_app == if index < old(self).apps@.len() {
                index
            } else {
                old(self).active_app
            },
    {
        if index < self.apps.len() {
            self.active_app = index;
        }
    }

    /// Adds a document, or shows the application that has it open already. Files are compared by
    /// their resolved paths: `path` is that of the new document, `open_paths` those of the open
    /// ones. Gives the identifier of the added application.
    pub fn add_editor_app(
        &mut self,
        path: Option<&str>,
        open_paths: &Vec<Option<String>>,
        ids: &mut AppIds,
    ) -> (r: Option<AppId>)
        requires
            old(self).wf(),
            open_paths@.len() == old(self).apps@.len(),
        ensures
            final(self).wf(),
            match open_at(
                *old(self),
                match path {
                    Some(p) => Some(p@),
                    None => None,
                },
                open_paths@,
                0,
            ) {
                Some(i) => {
                    &&& r is None
                    &&& final(self).apps == old(self).apps
                    &&& final(self).doc_views == old(self).doc_views
                    &&& final(self).active_app == i
                    &&& final(ids)@ == old(ids)@
                },
                None => {
                    &&& r == Some(AppId(old(ids)@))
                    &&& final(ids)@ == following(old(ids)@)
                    &&& final(self).doc_views@ == old(self).doc_views@.push(AppId(old(ids)@))
                    &&& app_views(final(self).apps@) == (if old(self).only_welcome() {
                        Seq::empty()
                    } else {
                        app_views(old(self).apps@)
                    }).push((AppId(old(ids)@), AppKindView::Editor))
                    &&& final(self).active_app == final(self).apps@.len() - 1
                },
            },
    {
        let ghost wanted = match path {
            Some(p) => Some(p@),
            None => None,
        };
        match path {
            Some(p) => {
                let mut i: usize = 0;
                while i < self.apps.len()
                    invariant
                        i <= self.apps@.len(),
                        *self == *old(self),
                        ids@ == old(ids)@,
                        self.wf(),
                        open_paths@.len() == self.apps@.len(),
                        path == Some(p),
                        wanted == Some(p@),
                        open_at(*self, wanted, open_paths@, 0) == open_at(
                            *self,
                            wanted,
                            open_paths@,
                            i as int,
                        ),
                    decreases self.apps@.len() - i,
                {
                    let is_editor = match self.apps[i].kind {
                        AppKind::Editor => true,
                        _ => false,
                    };
                    let same = match &open_paths[i] {
                        Some(q) => same_path(q.as_str(), p),
                        None => false,
                    };
                    if is_editor && self.has_doc_view(self.apps[i].id) && same {
                        self.active_app = i;
                        return None;
                    }
                    i = i + 1;
                }
            },
            None => {
                proof {
                    lemma_no_path(*self, open_paths@, 0);
                }
            },
        }
        let ghost before = self.apps@;
        let id = AppId::next(ids);
        self.doc_views.push(id);
        self.add_app(AppEntry { id, kind: AppKind::Editor });
        assert(app_views(self.apps@) =~= (if old(self).only_welcome() {
            Seq::empty()
        } else {
            app_views(before)
        }).push((id, AppKindView::Editor)));
        Some(id)
    }

    fn has_doc_view(&self, id: AppId) -> (r: bool)
        ensures
            r == self.doc_views@.contains(id),
    {
        let mut i: usize = 0;
        while i < self.doc_views.len()
            invariant
                i <= self.doc_views@.len(),
                forall|k: int| 0 <= k < i ==> self.doc_views@[k] != id,
            decreases self.doc_views@.len() - i,
        {
            if self.doc_views[i] == id {
                return true;
            }
            i = i + 1;
        }
        false
    }

    /// Adds a view of changes, or shows the one that shows the same changes already. Gives the work
    /// tree that is to be watched, and whether the view was added.
    pub fn add_diff_app(&mut self, id: AppId, key: DiffKey, cwd: String) -> (r: (Option<String>, bool))
        requires
            old(self).wf(),
        ensures
            final(self).wf(),
            text_opt(r.0) == if key@ is LocalChanges {
                Some(cwd@)
            } else {
                None
            },
            final(self).doc_views == old(self).doc_views,
            match diff_at(app_views(old(self).apps@), key@, 0) {
                Some(i) => {
                    &&& !r.1
                    &&& final(self).apps == old(self).apps
                    &&& final(self).active_app == i
                },
                None => {
                    &&& r.1
                    &&& app_views(final(self).apps@) == (if old(self).only_welcome() {
                        Seq::empty()
                    } else {
                        app_views(old(self).apps@)
                    }).push((id, AppKindView::Diff(key@, cwd@)))
                    &&& final(self).active_app == final(self).apps@.len() - 1
                },
            },
    {
        let watched: Option<String> = match key {
            DiffKey::LocalChanges => Some(cwd.clone()),
            _ => None,
        };
        let ghost views = app_views(self.apps@);
        let mut i: usize = 0;
        while i < self.apps.len()
            invariant
                i <= self.apps@.len(),
                *self == *old(self),
                self.wf(),
                views == app_views(self.apps@),
                text_opt(watched) == if key@ is LocalChanges {
                    Some(cwd@)
                } else {
                    None
                },
                diff_at(views, key@, 0) == diff_at(views, key@, i as int),
            decreases self.apps@.len() - i,
        {
            assert(views[i as int] == (self.apps@[i as int].id, self.apps@[i as int].kind@));
            let same = match &self.apps[i].kind {
                AppKind::Diff { key: other, .. } => other.same(&key),
                _ => false,
            };
            if same {
                self.active_app = i;
                return (watched, false);
            }
            i = i + 1;
        }
        let ghost before = self.apps@;
        self.add_app(AppEntry { id, kind: AppKind::Diff { key, cwd } });
        assert(app_views(self.apps@) =~= (if old(self).only_welcome() {
            Seq::empty()
        } else {
            app_views(before)
        }).push((id, AppKindView::Diff(key@, cwd@))));
        (watched, true)
    }

    /// Drops applications for documents that are gone. Without any left the welcome page is shown.
    pub fn cleanup_stale_shells(&mut self, ids: &mut AppIds)
        requires
            old(self).wf(),
        ensures
            final(self).wf(),
            stale_dropped(*old(self), *final(self), old(ids)@, final(ids)@),
            final(self).apps@.len() == apps_left(*old(self)),
    {
        if self.shows_only_welcome() {
            return;
        }
        let ghost all = self.apps@;
        let ghost docs = self.doc_views@;
        let mut taken: Vec<AppEntry> = Vec::new();
        std::mem::swap(&mut self.apps, &mut taken);
        let mut kept: Vec<AppEntry> = Vec::new();
        for app in it: taken
            invariant
                it.seq() == all,
                docs == self.doc_views@,
                kept@ == live_apps(all, docs, it.index() as int),
        {
            assert(all[it.index() as int] == app);
            let live = match app.kind {
                AppKind::Editor => self.has_doc_view(app.id),
                _ => true,
            };
            if live {
                kept.push(app);
            }
        }
        self.apps = kept;
        if self.apps.len() == 0 {
            self.show_welcome(ids);
            return;
        }
        if self.active_app >= self.apps.len() {
            self.active_app = self.apps.len() - 1;
        }
    }
}

/// Dropping applications for documents that are gone turns `before` into `after`. Without any left
/// the welcome page is shown, with the identifier `next`; `next_after` is the next identifier then.
pub open spec fn stale_dropped(
    before: EditorApps,
    after: EditorApps,
    next: u64,
    next_after: u64,
) -> bool {
    let kept = live_apps(before.apps@, before.doc_views@, before.apps@.len() as int);
    if before.only_welcome() {
        after == before && next_after == next
    } else if kept.len() == 0 {
        &&& app_views(after.apps@) == seq![(AppId(next), AppKindView::Welcome)]
        &&& after.active_app == 0
        &&& after.doc_views == before.doc_views
        &&& next_after == following(next)
    } else {
        &&& after.apps@ == kept
        &&& after.active_app == if before.active_app >= kept.len() {
            kept.len() - 1
        } else {
            before.active_app as int
        }
        &&& after.doc_views == before.doc_views
        &&& next_after == next
    }
}

/// The number of applications once those for documents that are gone were dropped; one if it is the
/// welcome page.
pub open spec fn apps_left(apps: EditorApps) -> int {
    let kept = live_apps(apps.apps@, apps.doc_views@, apps.apps@.len() as int);
    if apps.only_welcome() || kept.len() == 0 {
        1
    } else {
        kept.len() as int
    }
}

/// The applications that are left when those from `i` on, but for the one at `active`, are closed.
pub open spec fn others_closed(all: Seq<AppEntry>, active: int, i: int) -> Seq<AppEntry> {
    if i > active {
        all.take(i)
    } else {
        all.take(i).push(all[active])
    }
}

/// The list of zero or one texts.
pub open spec fn opt_list(t: Option<Seq<char>>) -> Seq<Seq<char>> {
    match t {
        Some(s) => seq![s],
        None => Seq::empty(),
    }
}

/// The work trees of the applications from `i` on but for the one at `active`, the last one first.
pub open spec fn unwatched_others(all: Seq<AppView>, active: int, i: int) -> Seq<Seq<char>>
    decreases all.len() - i,
{
    if i < 0 || i >= all.len() {
        Seq::empty()
    } else if i == active {
        unwatched_others(all, active, i + 1)
    } else {
        unwatched_others(all, active, i + 1) + opt_list(unwatched(all[i]))
    }
}

/// The documents that are left when the applications from `i` on but for the one at `active` are
/// closed.
pub open spec fn docs_without_others(docs: Seq<AppId>, all: Seq<AppView>, active: int, i: int) -> Seq<
    AppId,
>
    decreases all.len() - i,
{
    if i < 0 || i >= all.len() {
        docs
    } else if i == active {
        docs_without_others(docs, all, active, i + 1)
    } else {
        docs_after_close(docs_without_others(docs, all, active, i + 1), all[i])
    }
}

/// The work trees of the first `n` applications.
pub open spec fn unwatched_first(all: Seq<AppView>, n: int) -> Seq<Seq<char>>
    decreases n,
{
    if n <= 0 {
        Seq::empty()
    } else {
        unwatched_first(all, n - 1) + opt_list(unwatched(all[n - 1]))
    }
}

/// The documents that are left when the first `n` applications are closed.
pub open spec fn docs_without_first(docs: Seq<AppId>, all: Seq<AppView>, n: int) -> Seq<AppId>
    decreases n,
{
    if n <= 0 {
        docs
    } else {
        docs_after_close(docs_without_first(docs, all, n - 1), all[n - 1])
    }
}

/// The first application from `i` on that has the file at `path` open.
pub open spec fn open_at(
    apps: EditorApps,
    path: Option<Seq<char>>,
    open_paths: Seq<Option<String>>,
    i: int,
) -> Option<int>
    decreases apps.apps@.len() - i,
{
    if i < 0 || i >= apps.apps@.len() {
        None
    } else if apps.apps@[i].kind@ is Editor && apps.doc_views@.contains(apps.apps@[i].id) && (path
        matches Some(p) && open_paths[i] matches Some(q) && path_parts(q@) == path_parts(p)) {
        Some(i)
    } else {
        open_at(apps, path, open_paths, i + 1)
    }
}

proof fn lemma_no_path(apps: EditorApps, open_paths: Seq<Option<String>>, i: int)
    ensures
        open_at(apps, None, open_paths, i) is None,
    decreases apps.apps@.len() - i,
{
    if 0 <= i < apps.apps@.len() {
        lemma_no_path(apps, open_paths, i + 1);
    }
}

/// The first view of changes from `i` on with a key.
pub open spec fn diff_at(apps: Seq<AppView>, key: DiffKeyView, i: int) -> Option<int>
    decreases apps.len() - i,
{
    if i < 0 || i >= apps.len() {
        None
    } else if apps[i].1 matches AppKindView::Diff(k, _) && k == key {
        Some(i)
    } else {
        diff_at(apps, key, i + 1)
    }
}

/// The first `n` applications without those for documents that are gone.
pub open spec fn live_apps(apps: Seq<AppEntry>, docs: Seq<AppId>, n: int) -> Seq<AppEntry>
    decreases n,
{
    if n <= 0 {
        Seq::empty()
    } else if apps[n - 1].kind@ is Editor && !docs.contains(apps[n - 1].id) {
        live_apps(apps, docs, n - 1)
    } else {
        live_apps(apps, docs, n - 1).push(apps[n - 1])
    }
}

proof fn lemma_diff_push(apps: Seq<AppView>, app: AppView, key: DiffKeyView, i: int)
    requires
        0 <= i <= apps.len(),
        diff_at(apps, key, i) is None,
        app.1 matches AppKindView::Diff(k, _) && k == key,
    ensures
        diff_at(apps.push(app), key, i) == Some(apps.len() as int),
    decreases apps.len() - i,
{
    if i < apps.len() {
        assert(apps.push(app)[i] == apps[i]);
        lemma_diff_push(apps, app, key, i + 1);
    }
}

/// A view of changes that was added is found by its key, so that there is one for each.
pub proof fn law_added_diff_is_found(apps: Seq<AppView>, id: AppId, key: DiffKeyView, cwd: Seq<char>)
    requires
        diff_at(apps, key, 0) is None,
    ensures
        diff_at(apps.push((id, AppKindView::Diff(key, cwd))), key, 0) == Some(apps.len() as int),
{
    lemma_diff_push(apps, (id, AppKindView::Diff(key, cwd)), key, 0);
}

/// Going to the next application and back leads to where it started, and the other way round.
pub proof fn law_next_and_prev_cancel(active: int, len: int)
    requires
        0 <= active < len,
    ensures
        ({
            let next = (active + 1) % len;
            (if next == 0 {
                len - 1
            } else {
                next - 1
            }) == active
        }),
        ({
            let prev = if active == 0 {
                len - 1
            } else {
                active - 1
            };
            (prev + 1) % len == active
        }),
{
    if active + 1 < len {
        vstd::arithmetic::div_mod::lemma_small_mod((active + 1) as nat, len as nat);
    } else {
        vstd::arithmetic::div_mod::lemma_mod_self_0(len);
    }
    if active == 0 {
        vstd::arithmetic::div_mod::lemma_mod_self_0(len);
    } else {
        vstd::arithmetic::div_mod::lemma_small_mod(active as nat, len as nat);
    }
}

/// A document is found in the first tab that shows a document with the same path, path components
/// compared; a tab whose document is gone, or that shows something else, is passed over.
pub proof fn law_open_document_is_found(apps: EditorApps, path: Seq<char>, open_paths: Seq<Option<String>>, i: int)
    requires
        0 <= i <= apps.apps@.len(),
    ensures
        match open_at(apps, Some(path), open_paths, i) {
            Some(k) => i <= k < apps.apps@.len() && apps.apps@[(k as int)].kind is Editor && apps.doc_views@.contains(apps.apps@[(k as int)].id) && (open_paths[(k as int)] matches Some(q) && path_parts(q@) == path_parts(path)) && (forall|m: int|
                #![trigger apps.apps@[m]]
                i <= m < k ==> !(apps.apps@[m].kind is Editor && apps.doc_views@.contains(apps.apps@[m].id) && (open_paths[m] matches Some(q) && path_parts(q@) == path_parts(path)))),
            None => forall|m: int| #![trigger apps.apps@[m]] i <= m < apps.apps@.len() ==> !(apps.apps@[m].kind is Editor && apps.doc_views@.contains(apps.apps@[m].id) && (open_paths[m] matches Some(q) && path_parts(q@) == path_parts(path))),
        },
    decreases apps.apps@.len() - i,
{
    if i < apps.apps@.len() && !(apps.apps@[i].kind is Editor && apps.doc_views@.contains(apps.apps@[i].id) && (open_paths[i] matches Some(q) && path_parts(q@) == path_parts(path))) {
        law_open_document_is_found(apps, path, open_paths, i + 1);
    }
}

/// The view of changes that is found is the first one with the same key.
pub proof fn law_open_diff_is_found(apps: Seq<AppView>, key: DiffKeyView, i: int)
    requires
        0 <= i <= apps.len(),
    ensures
        match diff_at(apps, key, i) {
            Some(k) => i <= k < apps.len() && (apps[(k as int)].1 matches AppKindView::Diff(other, _) && other == key) && (forall|m: int|
                #![trigger apps[m]]
                i <= m < k ==> !((apps[m].1 matches AppKindView::Diff(other, _) && other == key))),
            None => forall|m: int| #![trigger apps[m]] i <= m < apps.len() ==> !((apps[m].1 matches AppKindView::Diff(other, _) && other == key)),
        },
    decreases apps.len() - i,
{
    if i < apps.len() && !((apps[i].1 matches AppKindView::Diff(other, _) && other == key)) {
        law_open_diff_is_found(apps, key, i + 1);
    }
}

/// The applications that stay are those whose document is still there, and those that show none;
/// they stay in their order.
pub proof fn law_live_applications_stay(apps: Seq<AppEntry>, docs: Seq<AppId>, n: int)
    requires
        0 <= n <= apps.len(),
    ensures
        live_apps(apps, docs, n) == apps.take(n).filter(|x: AppEntry| !(x.kind is Editor) || docs.contains(x.id)),
    decreases n,
{
    reveal(Seq::filter);
    if n > 0 {
        law_live_applications_stay(apps, docs, n - 1);
        assert(apps.take(n).drop_last() =~= apps.take(n - 1));
    } else {
        assert(apps.take(n) =~= Seq::empty());
        assert(live_apps(apps, docs, n) =~= apps.take(n).filter(|x: AppEntry| !(x.kind is Editor) || docs.contains(x.id)));
    }
}

/// Closing a document takes its identifier away, and no other one.
pub proof fn law_closed_document_is_gone(ids: Seq<AppId>, id: AppId, n: int)
    requires
        0 <= n <= ids.len(),
    ensures
        ids_without(ids, id, n) == ids.take(n).filter(|x: AppId| x != id),
    decreases n,
{
    reveal(Seq::filter);
    if n > 0 {
        law_closed_document_is_gone(ids, id, n - 1);
        assert(ids.take(n).drop_last() =~= ids.take(n - 1));
    } else {
        assert(ids.take(n) =~= Seq::empty());
        assert(ids_without(ids, id, n) =~= ids.take(n).filter(|x: AppId| x != id));
    }
}

/// Closing a tab keeps the other ones in their order, and keeps showing the one that was shown: it is
/// at its new place if one before it was closed. If the shown one itself was closed, the one that took
/// its place is shown, or the last one if it was the last. The last tab of all gives way to the welcome
/// page, so that there is always a tab.
pub proof fn law_closing_keeps_the_shown_tab(
    before: EditorApps,
    index: int,
    after: EditorApps,
    unwatch: Option<Seq<char>>,
    next: u64,
    next_after: u64,
)
    requires
        before.wf(),
        0 <= index < before.apps@.len(),
        closing(before, index, after, unwatch, next, next_after),
    ensures
        after.wf(),
        before.apps@.len() > 1 ==> {
            &&& after.apps@.len() == before.apps@.len() - 1
            &&& forall|k: int| 0 <= k < index ==> after.apps@[k] == before.apps@[k]
            &&& forall|k: int| index < k < before.apps@.len() ==> after.apps@[k - 1] == before.apps@[k]
            &&& before.active_app < index ==> after.active_app == before.active_app
            &&& before.active_app > index ==> after.active_app == before.active_app - 1
            &&& before.active_app == index && index < before.apps@.len() - 1 ==> after.active_app
                == index
            &&& before.active_app == index && index == before.apps@.len() - 1 ==> after.active_app
                == index - 1
        },
        before.apps@.len() == 1 ==> after.apps@.len() == 1 && after.apps@[0].kind is Welcome
            && after.active_app == 0 && after.apps@[0].id == AppId(next),
        unwatch is Some <==> (before.apps@[index].kind matches AppKind::Diff { key, cwd }
            && key is LocalChanges),
        unwatch matches Some(w) ==> (before.apps@[index].kind matches AppKind::Diff { key, cwd }
            && cwd@ == w),
        before.apps@[index].kind is Editor ==> !after.doc_views@.contains(before.apps@[index].id),
        !(before.apps@[index].kind is Editor) ==> after.doc_views@ == before.doc_views@,
        forall|id: AppId|
            #![trigger after.doc_views@.contains(id)]
            id != before.apps@[index].id && before.doc_views@.contains(id)
                ==> after.doc_views@.contains(id),
{
    let docs = before.doc_views@;
    let app = app_views(before.apps@)[index];
    if before.apps@.len() == 1 {
        assert(app_views(after.apps@).len() == after.apps@.len());
        assert(app_views(after.apps@)[0] == (AppId(next), AppKindView::Welcome));
    }
    law_closed_document_is_gone(docs, app.0, docs.len() as int);
    assert(docs.take(docs.len() as int) =~= docs);
    let pred = |x: AppId| x != app.0;
    docs.filter_lemma(pred);
    if app.1 is Editor && after.doc_views@.contains(app.0) {
        let k = choose|k: int| 0 <= k < after.doc_views@.len() && after.doc_views@[k] == app.0;
        assert(pred(docs.filter(pred)[k]));
    }
    assert forall|id: AppId|
        #![trigger after.doc_views@.contains(id)]
        id != app.0 && docs.contains(id) implies after.doc_views@.contains(id) by {
        let k = choose|k: int| 0 <= k < docs.len() && docs[k] == id;
        assert(pred(docs[k]));
        assert(docs.filter(pred).contains(docs[k]));
    }
}

/// Only the changes of the work tree are watched, so only closing such a view ends watching, of its
/// own work tree.
pub proof fn law_only_local_changes_are_unwatched(app: AppView)
    ensures
        unwatched(app) is Some <==> (app.1 matches AppKindView::Diff(key, _) && key is LocalChanges),
        unwatched(app) matches Some(cwd) ==> app.1 == AppKindView::Diff(
            DiffKeyView::LocalChanges,
            cwd,
        ),
{
}

/// When all others are closed, exactly the shown tab is left.
pub proof fn law_others_are_closed(all: Seq<AppEntry>, active: int)
    requires
        0 <= active < all.len(),
    ensures
        others_closed(all, active, 0).len() == 1,
        others_closed(all, active, 0)[0] == all[active],
        others_closed(all, active, all.len() as int) == all,
{
    assert(all.take(all.len() as int) =~= all);
}

/// Closing all others unwatches the work tree of every one of them that shows local changes, and not
/// that of the tab that stays.
pub proof fn law_others_are_unwatched(all: Seq<AppView>, active: int, i: int, k: int)
    requires
        0 <= i <= k < all.len(),
        k != active,
        all[k].1 matches AppKindView::Diff(key, _) && key is LocalChanges,
    ensures
        unwatched_others(all, active, i).contains(all[k].1->Diff_1),
    decreases all.len() - i,
{
    let w = all[k].1->Diff_1;
    let rest = unwatched_others(all, active, i + 1);
    let list = unwatched_others(all, active, i);
    if i < k {
        law_others_are_unwatched(all, active, i + 1, k);
        let m = choose|m: int| 0 <= m < rest.len() && rest[m] == w;
        assert(list[m] == w);
    } else {
        assert(list[rest.len() as int] == w);
    }
}

/// Closing all tabs unwatches the work tree of every one of them that shows local changes.
pub proof fn law_all_are_unwatched(all: Seq<AppView>, n: int, k: int)
    requires
        0 <= k < n <= all.len(),
        all[k].1 matches AppKindView::Diff(key, _) && key is LocalChanges,
    ensures
        unwatched_first(all, n).contains(all[k].1->Diff_1),
    decreases n,
{
    let w = all[k].1->Diff_1;
    let rest = unwatched_first(all, n - 1);
    let list = unwatched_first(all, n);
    if k < n - 1 {
        law_all_are_unwatched(all, n - 1, k);
        let m = choose|m: int| 0 <= m < rest.len() && rest[m] == w;
        assert(list[m] == w);
    } else {
        assert(list[rest.len() as int] == w);
    }
}

proof fn lemma_ids_without(ids: Seq<AppId>, id: AppId, n: int, x: AppId)
    requires
        0 <= n <= ids.len(),
    ensures
        ids_without(ids, id, n).contains(x) <==> x != id && ids.take(n).contains(x),
    decreases n,
{
    let all = ids_without(ids, id, n);
    let part = ids.take(n);
    if n > 0 {
        lemma_ids_without(ids, id, n - 1, x);
        let prev = ids_without(ids, id, n - 1);
        let shorter = ids.take(n - 1);
        assert(part == shorter.push(ids[n - 1]));
        assert(part[n - 1] == ids[n - 1]);
        if shorter.contains(x) {
            let k = choose|k: int| 0 <= k < shorter.len() && shorter[k] == x;
            assert(part[k] == x);
        }
        if prev.contains(x) {
            let k = choose|k: int| 0 <= k < prev.len() && prev[k] == x;
            assert(all[k] == x);
        }
        if ids[n - 1] != id {
            assert(all[prev.len() as int] == ids[n - 1]);
        }
        if all.contains(x) {
            let k = choose|k: int| 0 <= k < all.len() && all[k] == x;
            assert(k < prev.len() ==> prev[k] == x);
        }
        if part.contains(x) {
            let k = choose|k: int| 0 <= k < part.len() && part[k] == x;
            assert(k < n - 1 ==> shorter[k] == x);
        }
    }
}

proof fn lemma_doc_stays(docs: Seq<AppId>, app: AppView, id: AppId)
    ensures
        docs_after_close(docs, app).contains(id) <==> docs.contains(id) && !(app.1 is Editor && app.0
            == id),
{
    lemma_ids_without(docs, app.0, docs.len() as int, id);
    assert(docs.take(docs.len() as int) =~= docs);
}

/// Closing all others leaves the document of the tab that stays, and takes those of the others away.
pub proof fn law_documents_of_others_are_gone(
    docs: Seq<AppId>,
    all: Seq<AppView>,
    active: int,
    i: int,
    id: AppId,
)
    requires
        0 <= i <= all.len(),
    ensures
        docs_without_others(docs, all, active, i).contains(id) <==> docs.contains(id) && (forall|k: int|
            i <= k < all.len() && k != active ==> !((#[trigger] all[k]).1 is Editor && all[k].0 == id)),
    decreases all.len() - i,
{
    if i < all.len() {
        law_documents_of_others_are_gone(docs, all, active, i + 1, id);
        lemma_doc_stays(docs_without_others(docs, all, active, i + 1), all[i], id);
    }
}

/// Closing all tabs takes the documents of all of them away.
pub proof fn law_documents_of_all_are_gone(docs: Seq<AppId>, all: Seq<AppView>, n: int, id: AppId)
    requires
        0 <= n <= all.len(),
    ensures
        docs_without_first(docs, all, n).contains(id) <==> docs.contains(id) && (forall|k: int|
            0 <= k < n ==> !((#[trigger] all[k]).1 is Editor && all[k].0 == id)),
    decreases n,
{
    if n > 0 {
        law_documents_of_all_are_gone(docs, all, n - 1, id);
        lemma_doc_stays(docs_without_first(docs, all, n - 1), all[n - 1], id);
    }
}

/// After stale tabs were dropped there is a tab, one of them is shown, and none of them is stale.
pub proof fn law_no_stale_tab_is_left(before: EditorApps, after: EditorApps, next: u64, next_after: u64, k: int)
    requires
        before.wf(),
        stale_dropped(before, after, next, next_after),
        0 <= k < after.apps@.len(),
    ensures
        after.active_app < after.apps@.len(),
        after.apps@[k].kind is Editor ==> before.doc_views@.contains(after.apps@[k].id),
        before.active_app < after.apps@.len() && !(after.apps@[0].kind is Welcome)
            ==> after.active_app == before.active_app,
{
    let all = before.apps@;
    let docs = before.doc_views@;
    law_live_applications_stay(all, docs, all.len() as int);
    assert(all.take(all.len() as int) =~= all);
    let pred = |x: AppEntry| !(x.kind is Editor) || docs.contains(x.id);
    all.filter_lemma(pred);
    let kept = live_apps(all, docs, all.len() as int);
    if !before.only_welcome() && kept.len() == 0 {
        assert(app_views(after.apps@).len() == after.apps@.len());
        assert(app_views(after.apps@)[0] == (AppId(next), AppKindView::Welcome));
    } else if !before.only_welcome() {
        assert(pred(all.filter(pred)[k]));
    }
}

/// The place behind `active` among `n` ones; behind the last one comes the first.
pub open spec fn next_place(active: int, n: int) -> int {
    if n == 0 {
        0
    } else {
        (active + 1) % n
    }
}

/// The place before `active` among `n` ones; before the first one comes the last.
pub open spec fn prev_place(active: int, n: int) -> int {
    if n == 0 {
        0
    } else if active == 0 {
        n - 1
    } else {
        active - 1
    }
}

/// Going on and back again, or back and on again, ends where it began; going on passes all places in
/// order and then begins anew.
pub proof fn law_on_and_back(active: int, n: int)
    requires
        0 <= active < n,
    ensures
        prev_place(next_place(active, n), n) == active,
        next_place(prev_place(active, n), n) == active,
        active + 1 < n ==> next_place(active, n) == active + 1,
        next_place(n - 1, n) == 0,
{
    vstd::arithmetic::div_mod::lemma_small_mod(active as nat, n as nat);
    vstd::arithmetic::div_mod::lemma_mod_self_0(n);
    if active + 1 < n {
        vstd::arithmetic::div_mod::lemma_small_mod((active + 1) as nat, n as nat);
    }
}

/// As many tabs are drawn as are left when stale ones were dropped, and that is never none.
pub proof fn law_number_of_tabs_left(before: EditorApps, after: EditorApps, next: u64, next_after: u64)
    requires
        before.wf(),
        before.only_welcome() ==> before.apps@.len() > 0,
        stale_dropped(before, after, next, next_after),
    ensures
        apps_left(before) == after.apps@.len(),
        apps_left(before) > 0,
{
    assert(app_views(after.apps@).len() == after.apps@.len());
}

/// Identifiers count up, and begin anew behind the greatest.
pub proof fn law_following_identifiers(id: u64)
    ensures
        id < u64::MAX ==> following(id) == id + 1,
        following(u64::MAX) == 0,
        following(id) != id,
{
}

} // verus!
