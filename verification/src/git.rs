//! What is shown of a git repository: changed files, commit log and unified diffs.
use crate::file_diff::from_utf8_lossy;
use crate::file_diff::lines_of;
use crate::file_diff::split_lines;
use crate::file_diff::utf8_lossy;
use crate::strings::char_vec;
use crate::strings::decimal;
use crate::strings::decimal_digits;
use crate::strings::digits_value;
use crate::strings::law_decimal_reads_back;
use crate::strings::lemma_lex_irreflexive;
use crate::strings::lemma_lex_total;
use crate::strings::lemma_lex_transitive;
use crate::strings::lex_less;
use crate::strings::str_less;
use crate::strings::string_of;
use crate::strings::text_opt;
use crate::strings::texts;
use vstd::prelude::*;
use vstd::string::*;

verus! {

/// A change of the work tree against the head commit. Paths are absolute.
#[derive(Debug, Clone)]
pub enum FileChange {
    Untracked { path: String },
    Modified { path: String },
    Conflict { path: String },
    Deleted { path: String },
    Renamed { from_path: String, to_path: String },
}

/// A change, with the texts of its paths.
pub enum ChangeView {
    Untracked(Seq<char>),
    Modified(Seq<char>),
    Conflict(Seq<char>),
    Deleted(Seq<char>),
    Renamed(Seq<char>, Seq<char>),
}

impl View for FileChange {
    type V = ChangeView;

    open spec fn view(&self) -> ChangeView {
        match self {
            FileChange::Untracked { path } => ChangeView::Untracked(path@),
            FileChange::Modified { path } => ChangeView::Modified(path@),
            FileChange::Conflict { path } => ChangeView::Conflict(path@),
            FileChange::Deleted { path } => ChangeView::Deleted(path@),
            FileChange::Renamed { from_path, to_path } => ChangeView::Renamed(
                from_path@,
                to_path@,
            ),
        }
    }
}

/// How an entry of the index compares with the work tree.
#[derive(Debug, Clone, Copy, PartialEq, Eq, Structural)]
pub enum EntryStatus {
    Conflict,
    Removed,
    Modification,
    /// The file became something else, such as a link.
    TypeChange,
    SubmoduleModification,
    /// Only the cached file information is stale.
    NeedsUpdate,
    /// Added with `--intent-to-add`.
    IntentToAdd,
}

/// One finding of a walk over index and work tree.
#[derive(Debug, Clone)]
pub enum StatusItem {
    Modification { path: String, status: EntryStatus },
    DirectoryContents { path: String, untracked: bool },
    Rewrite { from_path: String, to_path: String },
}

/// The change that a finding stands for, if any.
pub open spec fn change_of(item: StatusItem) -> Option<ChangeView> {
    match item {
        StatusItem::Modification { path, status } => match status {
            EntryStatus::Conflict => Some(ChangeView::Conflict(path@)),
            EntryStatus::Removed => Some(ChangeView::Deleted(path@)),
            EntryStatus::Modification => Some(ChangeView::Modified(path@)),
            EntryStatus::IntentToAdd => Some(ChangeView::Untracked(path@)),
            _ => None,
        },
        StatusItem::DirectoryContents { path, untracked } => if untracked {
            Some(ChangeView::Untracked(path@))
        } else {
            None
        },
        StatusItem::Rewrite { from_path, to_path } => Some(
            ChangeView::Renamed(from_path@, to_path@),
        ),
    }
}

/// Tells what changed. Entries with `--intent-to-add` count as untracked, since they show up as
/// new files; findings that are no change of a file's content are left out.
pub fn file_change(item: StatusItem) -> (r: Option<FileChange>)
    ensures
        match r {
            Some(change) => change_of(item) == Some(change@),
            None => change_of(item) is None,
        },
{
    match item {
        StatusItem::Modification { path, status } => match status {
            EntryStatus::Conflict => Some(FileChange::Conflict { path }),
            EntryStatus::Removed => Some(FileChange::Deleted { path }),
            EntryStatus::Modification => Some(FileChange::Modified { path }),
            EntryStatus::IntentToAdd => Some(FileChange::Untracked { path }),
            _ => None,
        },
        StatusItem::DirectoryContents { path, untracked } => if untracked {
            Some(FileChange::Untracked { path })
        } else {
            None
        },
        StatusItem::Rewrite { from_path, to_path } => Some(
            FileChange::Renamed { from_path, to_path },
        ),
    }
}

/// What to do with one outcome of the status walk.
#[derive(Debug)]
pub enum StatusStep {
    /// The walk failed on this item: tell the consumer and go on.
    ReportError(String),
    /// Tell the consumer, and stop if it does not want more.
    Report(FileChange),
    /// Go on with the next item.
    Skip,
}

/// Decides what to do with one outcome of the status walk.
pub fn for_each_changed_file(item: Result<StatusItem, String>) -> (r: StatusStep)
    ensures
        match item {
            Err(e) => r matches StatusStep::ReportError(t) && t@ == e@,
            Ok(i) => match change_of(i) {
                Some(c) => r matches StatusStep::Report(change) && change@ == c,
                None => r is Skip,
            },
        },
{
    match item {
        Err(e) => StatusStep::ReportError(e),
        Ok(i) => match file_change(i) {
            Some(change) => StatusStep::Report(change),
            None => StatusStep::Skip,
        },
    }
}

/// Whether the walk goes on after a step. The consumer can only end it when it was told of a change.
pub open spec fn continues(step: StatusStep, wants_more: bool) -> bool {
    step is Report ==> wants_more
}

/// Tells whether the status walk goes on after a step, by what the consumer answered to it. What
/// it answers to an error does not count, nor does anything where it was not asked.
pub fn goes_on(step: &StatusStep, wants_more: bool) -> (r: bool)
    ensures
        r == continues(*step, wants_more),
{
    match step {
        StatusStep::Report(_) => wants_more,
        _ => true,
    }
}

/// How many items the walk takes: it goes from item to item, and past each after which it goes on.
/// `steps` are what is to be done with the items, and `answers` are the consumer's.
pub open spec fn walk_len(steps: Seq<StatusStep>, answers: Seq<bool>) -> int
    decreases steps.len(),
{
    if steps.len() == 0 {
        0
    } else if !continues(steps[0], answers[0]) {
        1
    } else {
        1 + walk_len(steps.drop_first(), answers.drop_first())
    }
}

/// The walk takes all items up to the first change after which the consumer wants no more, and all
/// there are if there is no such change.
pub proof fn law_walk_ends_at_first_refusal(steps: Seq<StatusStep>, answers: Seq<bool>)
    requires
        answers.len() == steps.len(),
    ensures
        0 <= walk_len(steps, answers) <= steps.len(),
        forall|i: int|
            0 <= i < walk_len(steps, answers) - 1 ==> !(#[trigger] steps[i] is Report && !answers[i]),
        walk_len(steps, answers) < steps.len() ==> walk_len(steps, answers) > 0 && steps[walk_len(
            steps,
            answers,
        ) - 1] is Report && !answers[walk_len(steps, answers) - 1],
    decreases steps.len(),
{
    if steps.len() > 0 && continues(steps[0], answers[0]) {
        let (rest, later) = (steps.drop_first(), answers.drop_first());
        law_walk_ends_at_first_refusal(rest, later);
        let n = walk_len(steps, answers);
        assert forall|i: int| 0 <= i < n - 1 implies !(#[trigger] steps[i] is Report
            && !answers[i]) by {
            if i > 0 {
                assert(rest[i - 1] == steps[i]);
                assert(later[i - 1] == answers[i]);
            }
        }
        if n < steps.len() {
            assert(rest[n - 2] == steps[n - 1]);
            assert(later[n - 2] == answers[n - 1]);
        }
    }
}

/// Why a question to the repository has no answer.
#[derive(Debug, Clone)]
pub enum GitError {
    BareRepository,
    FileUntracked,
    NotAFile(EntryKind),
}

/// The root of the work tree; a bare repository has none.
pub fn get_worktree_root(workdir: Option<String>) -> (r: Result<String, GitError>)
    ensures
        match workdir {
            Some(dir) => r matches Ok(root) && root@ == dir@,
            None => r matches Err(GitError::BareRepository),
        },
{
    match workdir {
        Some(dir) => Ok(dir),
        None => Err(GitError::BareRepository),
    }
}

/// The first `n` characters of a text, or all there are.
pub open spec fn first_chars(s: Seq<char>, n: int) -> Seq<char> {
    if n < s.len() {
        s.take(n)
    } else {
        s
    }
}

fn shortened(s: &str, n: usize) -> (r: String)
    ensures
        r@ == first_chars(s@, n as int),
{
    let chars = char_vec(s);
    let end: usize = if n < chars.len() {
        n
    } else {
        chars.len()
    };
    let r = string_of(chars.as_slice(), 0, end);
    assert(r@ =~= first_chars(s@, n as int));
    r
}

/// The name shown for the head: that of its branch, or the first eight digits of the commit's id if
/// it is detached.
pub fn head_name(reference: Option<String>, id: String) -> (r: String)
    ensures
        r@ == match reference {
            Some(name) => name@,
            None => first_chars(id@, 8),
        },
{
    match reference {
        Some(name) => name,
        None => shortened(id.as_str(), 8),
    }
}

/// What an entry of a tree is.
#[derive(Debug, Clone, Copy, PartialEq, Eq, Structural)]
pub enum EntryKind {
    Tree,
    Blob,
    BlobExecutable,
    Link,
    Commit,
}

/// Whether an entry holds file contents.
pub open spec fn holds_file(kind: EntryKind) -> bool {
    kind == EntryKind::Blob || kind == EntryKind::BlobExecutable
}

fn is_file(kind: EntryKind) -> (r: bool)
    ensures
        r == holds_file(kind),
{
    kind == EntryKind::Blob || kind == EntryKind::BlobExecutable
}

/// An entry of a tree; `id` is the object's hexadecimal id.
#[derive(Debug, Clone)]
pub struct TreeEntry {
    pub name: String,
    pub kind: EntryKind,
    pub id: String,
}

/// An entry of a tree, with the texts of its name and id.
pub struct EntryView {
    pub name: Seq<char>,
    pub kind: EntryKind,
    pub id: Seq<char>,
}

impl View for TreeEntry {
    type V = EntryView;

    open spec fn view(&self) -> EntryView {
        EntryView { name: self.name@, kind: self.kind, id: self.id@ }
    }
}

/// The views of a list of entries.
pub open spec fn entry_views(v: Seq<TreeEntry>) -> Seq<EntryView> {
    v.map_values(|e: TreeEntry| e@)
}

/// The object with the contents of a file at a commit, given the entry at the file's path.
pub fn find_file_in_commit(entry: Option<TreeEntry>) -> (r: Result<String, GitError>)
    ensures
        match entry {
            None => r matches Err(GitError::FileUntracked),
            Some(e) => if holds_file(e.kind) {
                r matches Ok(id) && id@ == e.id@
            } else {
                r matches Err(GitError::NotAFile(k)) && k == e.kind
            },
        },
{
    match entry {
        None => Err(GitError::FileUntracked),
        Some(e) => if is_file(e.kind) {
            Ok(e.id)
        } else {
            Err(GitError::NotAFile(e.kind))
        },
    }
}

/// The first position from `i` on whose entry does not come before `name`.
pub open spec fn place(v: Seq<EntryView>, name: Seq<char>, i: int) -> int
    decreases v.len() - i,
{
    if i < 0 || i >= v.len() || !lex_less(v[i].name, name) {
        i
    } else {
        place(v, name, i + 1)
    }
}

/// The list with `e` in its place; an entry of the same name gives way to it.
pub open spec fn entry_inserted(v: Seq<EntryView>, e: EntryView) -> Seq<EntryView> {
    let p = place(v, e.name, 0);
    if p < v.len() && v[p].name == e.name {
        v.update(p, e)
    } else {
        v.insert(p, e)
    }
}

/// The entries by name; of entries with one name the last one counts.
pub open spec fn by_name(v: Seq<EntryView>) -> Seq<EntryView>
    decreases v.len(),
{
    if v.len() == 0 {
        Seq::empty()
    } else {
        entry_inserted(by_name(v.drop_last()), v.last())
    }
}

/// The names rise strictly, so that none occurs twice.
pub open spec fn names_rise(v: Seq<EntryView>) -> bool {
    forall|i: int, j: int| 0 <= i < j < v.len() ==> lex_less(#[trigger] v[i].name, #[trigger] v[j].name)
}

proof fn lemma_place(v: Seq<EntryView>, name: Seq<char>, i: int)
    requires
        0 <= i <= v.len(),
        forall|k: int| 0 <= k < i ==> lex_less(#[trigger] v[k].name, name),
    ensures
        i <= place(v, name, i) <= v.len(),
        forall|k: int| 0 <= k < place(v, name, i) ==> lex_less(#[trigger] v[k].name, name),
        place(v, name, i) < v.len() ==> !lex_less(v[place(v, name, i)].name, name),
    decreases v.len() - i,
{
    if i < v.len() && lex_less(v[i].name, name) {
        lemma_place(v, name, i + 1);
    }
}

/// Inserting keeps the names rising.
pub proof fn law_insert_keeps_order(v: Seq<EntryView>, e: EntryView)
    requires
        names_rise(v),
    ensures
        names_rise(entry_inserted(v, e)),
{
    lemma_place(v, e.name, 0);
    let p = place(v, e.name, 0);
    let r = entry_inserted(v, e);
    assert forall|i: int, j: int| 0 <= i < j < r.len() implies lex_less(
        #[trigger] r[i].name,
        #[trigger] r[j].name,
    ) by {
        if p < v.len() {
            lemma_lex_total(v[p].name, e.name);
            if v[p].name == e.name {
                assert(r.len() == v.len());
                assert(lex_less(v[i].name, v[j].name));
            } else {
                if i == p {
                    if j - 1 > p {
                        lemma_lex_transitive(e.name, v[p].name, v[j - 1].name);
                    }
                } else if j == p {
                } else {
                    let a = if i < p {
                        i
                    } else {
                        i - 1
                    };
                    let b = if j < p {
                        j
                    } else {
                        j - 1
                    };
                    assert(lex_less(v[a].name, v[b].name));
                }
            }
        } else {
            if j < p {
                assert(lex_less(v[i].name, v[j].name));
            }
        }
    }
}

/// Ordering entries by name gives strictly rising names, whatever order they came in.
pub proof fn law_by_name_rises(v: Seq<EntryView>)
    ensures
        names_rise(by_name(v)),
    decreases v.len(),
{
    if v.len() > 0 {
        law_by_name_rises(v.drop_last());
        law_insert_keeps_order(by_name(v.drop_last()), v.last());
    }
}

/// Puts the entries of a tree into the order of their names.
pub fn collect_tree_entries(entries: Vec<TreeEntry>) -> (r: Vec<TreeEntry>)
    ensures
        entry_views(r@) == by_name(entry_views(entries@)),
        names_rise(entry_views(r@)),
{
    let ghost all = entry_views(entries@);
    let mut out: Vec<TreeEntry> = Vec::new();
    assert(entry_views(out@) =~= Seq::empty());
    assert(all.take(0) =~= Seq::empty());
    for e in it: entries
        invariant
            all == entry_views(it.seq()),
            entry_views(out@) == by_name(all.take(it.index() as int)),
    {
        let ghost prev = out@;
        let ghost i = it.index() as int;
        assert(all.take(i + 1).drop_last() =~= all.take(i));
        assert(all.take(i + 1).last() == e@);
        let mut p: usize = 0;
        while p < out.len() && str_less(out[p].name.as_str(), e.name.as_str())
            invariant
                p <= out@.len(),
                out@ == prev,
                place(entry_views(prev), e.name@, 0) == place(entry_views(prev), e.name@, p as int),
            decreases out@.len() - p,
        {
            p = p + 1;
        }
        if p < out.len() && out[p].name == e.name {
            out.set(p, e);
            assert(entry_views(out@) =~= entry_views(prev).update(p as int, e@));
        } else {
            out.insert(p, e);
            assert(entry_views(out@) =~= entry_views(prev).insert(p as int, e@));
        }
    }
    assert(all.take(all.len() as int) =~= all);
    proof {
        law_by_name_rises(all);
    }
    out
}

/// One piece of work in comparing two trees.
#[derive(Debug)]
pub enum TreeStep {
    /// Compare two directories; without `old` the directory is new.
    Trees { path: String, old: Option<String>, id: String },
    /// A directory is gone.
    DeletedTree { path: String, id: String },
    /// Compare two files; a missing side is an empty file.
    Blobs { path: String, old: Option<String>, new: Option<String> },
}

/// A step, with the texts that it holds.
pub enum StepView {
    Trees(Seq<char>, Option<Seq<char>>, Seq<char>),
    DeletedTree(Seq<char>, Seq<char>),
    Blobs(Seq<char>, Option<Seq<char>>, Option<Seq<char>>),
}

impl View for TreeStep {
    type V = StepView;

    open spec fn view(&self) -> StepView {
        match self {
            TreeStep::Trees { path, old, id } => StepView::Trees(path@, text_opt(*old), id@),
            TreeStep::DeletedTree { path, id } => StepView::DeletedTree(path@, id@),
            TreeStep::Blobs { path, old, new } => StepView::Blobs(
                path@,
                text_opt(*old),
                text_opt(*new),
            ),
        }
    }
}

/// The views of a list of steps.
pub open spec fn step_views(v: Seq<TreeStep>) -> Seq<StepView> {
    v.map_values(|s: TreeStep| s@)
}

/// The path of an entry below `prefix`.
pub open spec fn entry_path(prefix: Seq<char>, name: Seq<char>) -> Seq<char> {
    if prefix.len() == 0 {
        name
    } else {
        prefix + "/"@ + name
    }
}

/// What to do about one name of two trees.
pub open spec fn step_for(
    path: Seq<char>,
    old: Option<EntryView>,
    new: Option<EntryView>,
) -> Option<StepView> {
    match (old, new) {
        (Some(o), Some(n)) => if o.kind == EntryKind::Tree && n.kind == EntryKind::Tree {
            if o.id != n.id {
                Some(StepView::Trees(path, Some(o.id), n.id))
            } else {
                None
            }
        } else if holds_file(o.kind) && holds_file(n.kind) && o.id != n.id {
            Some(StepView::Blobs(path, Some(o.id), Some(n.id)))
        } else {
            None
        },
        (None, Some(n)) => if n.kind == EntryKind::Tree {
            Some(StepView::Trees(path, None, n.id))
        } else if holds_file(n.kind) {
            Some(StepView::Blobs(path, None, Some(n.id)))
        } else {
            None
        },
        (Some(o), None) => if o.kind == EntryKind::Tree {
            Some(StepView::DeletedTree(path, o.id))
        } else if holds_file(o.kind) {
            Some(StepView::Blobs(path, Some(o.id), None))
        } else {
            None
        },
        (None, None) => None,
    }
}

/// The list of zero or one steps.
pub open spec fn as_list(s: Option<StepView>) -> Seq<StepView> {
    match s {
        Some(s) => seq![s],
        None => Seq::empty(),
    }
}

/// The steps for the names from `i` and `j` on of two trees in the order of their names.
pub open spec fn tree_steps(
    old: Seq<EntryView>,
    new: Seq<EntryView>,
    i: int,
    j: int,
    prefix: Seq<char>,
) -> Seq<StepView>
    decreases old.len() - i + new.len() - j,
{
    if i < 0 || j < 0 || i > old.len() || j > new.len() || (i == old.len() && j == new.len()) {
        Seq::empty()
    } else if j == new.len() || (i < old.len() && lex_less(old[i].name, new[j].name)) {
        as_list(step_for(entry_path(prefix, old[i].name), Some(old[i]), None)) + tree_steps(
            old,
            new,
            i + 1,
            j,
            prefix,
        )
    } else if i == old.len() || lex_less(new[j].name, old[i].name) {
        as_list(step_for(entry_path(prefix, new[j].name), None, Some(new[j]))) + tree_steps(
            old,
            new,
            i,
            j + 1,
            prefix,
        )
    } else {
        as_list(step_for(entry_path(prefix, new[j].name), Some(old[i]), Some(new[j])))
            + tree_steps(old, new, i + 1, j + 1, prefix)
    }
}

fn join_path(prefix: &str, name: &str) -> (r: String)
    ensures
        r@ == entry_path(prefix@, name@),
{
    if prefix.unicode_len() == 0 {
        name.to_owned()
    } else {
        let mut s = prefix.to_owned();
        s.append("/");
        s.append(name);
        s
    }
}

/// Decides what to do about one name of two trees.
fn tree_step(prefix: &str, old: Option<&TreeEntry>, new: Option<&TreeEntry>) -> (r: Option<TreeStep>)
    requires
        old is Some || new is Some,
        old is Some && new is Some ==> old->0.name@ == new->0.name@,
    ensures
        ({
            let name = match new {
                Some(n) => n.name@,
                None => old->0.name@,
            };
            let o = match old {
                Some(o) => Some(o@),
                None => None,
            };
            let n = match new {
                Some(n) => Some(n@),
                None => None,
            };
            match r {
                Some(s) => step_for(entry_path(prefix@, name), o, n) == Some(s@),
                None => step_for(entry_path(prefix@, name), o, n) is None,
            }
        }),
{
    match (old, new) {
        (Some(o), Some(n)) => {
            let path = join_path(prefix, n.name.as_str());
            if o.kind == EntryKind::Tree && n.kind == EntryKind::Tree {
                if o.id != n.id {
                    Some(TreeStep::Trees { path, old: Some(o.id.clone()), id: n.id.clone() })
                } else {
                    None
                }
            } else if is_file(o.kind) && is_file(n.kind) && o.id != n.id {
                Some(TreeStep::Blobs { path, old: Some(o.id.clone()), new: Some(n.id.clone()) })
            } else {
                None
            }
        },
        (None, Some(n)) => {
            let path = join_path(prefix, n.name.as_str());
            if n.kind == EntryKind::Tree {
                Some(TreeStep::Trees { path, old: None, id: n.id.clone() })
            } else if is_file(n.kind) {
                Some(TreeStep::Blobs { path, old: None, new: Some(n.id.clone()) })
            } else {
                None
            }
        },
        (Some(o), None) => {
            let path = join_path(prefix, o.name.as_str());
            if o.kind == EntryKind::Tree {
                Some(TreeStep::DeletedTree { path, id: o.id.clone() })
            } else if is_file(o.kind) {
                Some(TreeStep::Blobs { path, old: Some(o.id.clone()), new: None })
            } else {
                None
            }
        },
        (None, None) => None,
    }
}

fn push_step(out: &mut Vec<TreeStep>, s: Option<TreeStep>)
    ensures
        step_views(final(out)@) == step_views(old(out)@) + as_list(
            match s {
                Some(s) => Some(s@),
                None => None,
            },
        ),
{
    let ghost prev = out@;
    match s {
        Some(s) => {
            out.push(s);
            assert(step_views(out@) =~= step_views(prev) + seq![s@]);
        },
        None => {
            assert(step_views(out@) =~= step_views(prev) + Seq::empty());
        },
    }
}

/// Compares two trees name by name, in the order of the names. Without an old tree everything is
/// new. The caller carries the steps out in this order.
pub fn diff_trees(
    old_entries: Option<Vec<TreeEntry>>,
    new_entries: Vec<TreeEntry>,
    prefix: &str,
) -> (r: Vec<TreeStep>)
    ensures
        step_views(r@) == tree_steps(
            by_name(
                match old_entries {
                    Some(v) => entry_views(v@),
                    None => Seq::empty(),
                },
            ),
            by_name(entry_views(new_entries@)),
            0,
            0,
            prefix@,
        ),
{
    let old_list: Vec<TreeEntry> = match old_entries {
        Some(v) => collect_tree_entries(v),
        None => {
            let v: Vec<TreeEntry> = Vec::new();
            assert(entry_views(v@) =~= Seq::empty());
            v
        },
    };
    let new_list = collect_tree_entries(new_entries);
    let ghost o = entry_views(old_list@);
    let ghost n = entry_views(new_list@);
    let mut out: Vec<TreeStep> = Vec::new();
    let mut i: usize = 0;
    let mut j: usize = 0;
    assert(step_views(out@) + tree_steps(o, n, 0, 0, prefix@) =~= tree_steps(o, n, 0, 0, prefix@));
    while i < old_list.len() || j < new_list.len()
        invariant
            o == entry_views(old_list@),
            n == entry_views(new_list@),
            i <= old_list@.len(),
            j <= new_list@.len(),
            step_views(out@) + tree_steps(o, n, i as int, j as int, prefix@) == tree_steps(
                o,
                n,
                0,
                0,
                prefix@,
            ),
        decreases old_list@.len() - i + new_list@.len() - j,
    {
        let ghost rest = tree_steps(o, n, i as int, j as int, prefix@);
        let ghost prev = step_views(out@);
        if j == new_list.len() || (i < old_list.len() && str_less(
            old_list[i].name.as_str(),
            new_list[j].name.as_str(),
        )) {
            push_step(&mut out, tree_step(prefix, Some(&old_list[i]), None));
            i = i + 1;
        } else if i == old_list.len() || str_less(
            new_list[j].name.as_str(),
            old_list[i].name.as_str(),
        ) {
            push_step(&mut out, tree_step(prefix, None, Some(&new_list[j])));
            j = j + 1;
        } else {
            proof {
                lemma_lex_total(old_list@[i as int].name@, new_list@[j as int].name@);
            }
            push_step(&mut out, tree_step(prefix, Some(&old_list[i]), Some(&new_list[j])));
            i = i + 1;
            j = j + 1;
        }
        assert(prev + rest =~= step_views(out@) + tree_steps(o, n, i as int, j as int, prefix@));
    }
    assert(step_views(out@) =~= tree_steps(o, n, 0, 0, prefix@));
    out
}

/// The steps for the first `count` entries of a directory that is gone.
pub open spec fn deleted_steps(entries: Seq<EntryView>, prefix: Seq<char>, count: int) -> Seq<StepView>
    decreases count,
{
    if count <= 0 {
        Seq::empty()
    } else {
        deleted_steps(entries, prefix, count - 1) + as_list(
            step_for(
                prefix + "/"@ + entries[count - 1].name,
                Some(entries[count - 1]),
                None,
            ),
        )
    }
}

/// Lists what is gone with a directory, in the order of the tree.
pub fn diff_deleted_tree(entries: &Vec<TreeEntry>, prefix: &str) -> (r: Vec<TreeStep>)
    ensures
        step_views(r@) == deleted_steps(entry_views(entries@), prefix@, entries@.len() as int),
{
    let mut out: Vec<TreeStep> = Vec::new();
    assert(step_views(out@) =~= Seq::empty());
    let mut i: usize = 0;
    while i < entries.len()
        invariant
            i <= entries@.len(),
            step_views(out@) == deleted_steps(entry_views(entries@), prefix@, i as int),
        decreases entries@.len() - i,
    {
        let e = &entries[i];
        let mut path = prefix.to_owned();
        path.append("/");
        path.append(e.name.as_str());
        let step = if e.kind == EntryKind::Tree {
            Some(TreeStep::DeletedTree { path, id: e.id.clone() })
        } else if is_file(e.kind) {
            Some(TreeStep::Blobs { path, old: Some(e.id.clone()), new: None })
        } else {
            None
        };
        push_step(&mut out, step);
        i = i + 1;
    }
    out
}

proof fn lemma_same_tree(v: Seq<EntryView>, i: int, prefix: Seq<char>)
    requires
        0 <= i <= v.len(),
    ensures
        tree_steps(v, v, i, i, prefix) == Seq::<StepView>::empty(),
    decreases v.len() - i,
{
    if i < v.len() {
        lemma_lex_irreflexive(v[i].name);
        lemma_same_tree(v, i + 1, prefix);
        assert(tree_steps(v, v, i, i, prefix) =~= Seq::empty());
    }
}

/// A tree compared with itself asks for no work.
pub proof fn law_same_tree_has_no_steps(v: Seq<EntryView>, prefix: Seq<char>)
    ensures
        tree_steps(v, v, 0, 0, prefix) == Seq::<StepView>::empty(),
{
    lemma_same_tree(v, 0, prefix);
}

/// The contents that a change compares: where the old file is found in the head commit and where
/// the new one is read, `None` for an empty side.
#[derive(Debug)]
pub struct LocalDiff {
    pub old_path: Option<String>,
    pub new_path: Option<String>,
    /// The paths that the two sides are named after; an empty side has the name of the other one.
    pub old_name: String,
    pub new_name: String,
}

/// The paths of the old and of the new side of a change.
pub open spec fn sides_of(change: ChangeView) -> (Option<Seq<char>>, Option<Seq<char>>) {
    match change {
        ChangeView::Modified(p) => (Some(p), Some(p)),
        ChangeView::Conflict(p) => (Some(p), Some(p)),
        ChangeView::Untracked(p) => (None, Some(p)),
        ChangeView::Deleted(p) => (Some(p), None),
        ChangeView::Renamed(from, to) => (Some(from), Some(to)),
    }
}

/// The paths that the old and the new side of a change are named after.
pub open spec fn names_of(change: ChangeView) -> (Seq<char>, Seq<char>) {
    match change {
        ChangeView::Modified(p) => (p, p),
        ChangeView::Conflict(p) => (p, p),
        ChangeView::Untracked(p) => (p, p),
        ChangeView::Deleted(p) => (p, p),
        ChangeView::Renamed(from, to) => (from, to),
    }
}

/// Tells which contents to compare for a change of the work tree.
pub fn get_local_diff(change: &FileChange) -> (r: LocalDiff)
    ensures
        (text_opt(r.old_path), text_opt(r.new_path)) == sides_of(change@),
        (r.old_name@, r.new_name@) == names_of(change@),
{
    match change {
        FileChange::Modified { path } => LocalDiff {
            old_path: Some(path.clone()),
            new_path: Some(path.clone()),
            old_name: path.clone(),
            new_name: path.clone(),
        },
        FileChange::Conflict { path } => LocalDiff {
            old_path: Some(path.clone()),
            new_path: Some(path.clone()),
            old_name: path.clone(),
            new_name: path.clone(),
        },
        FileChange::Untracked { path } => LocalDiff {
            old_path: None,
            new_path: Some(path.clone()),
            old_name: path.clone(),
            new_name: path.clone(),
        },
        FileChange::Deleted { path } => LocalDiff {
            old_path: Some(path.clone()),
            new_path: None,
            old_name: path.clone(),
            new_name: path.clone(),
        },
        FileChange::Renamed { from_path, to_path } => LocalDiff {
            old_path: Some(from_path.clone()),
            new_path: Some(to_path.clone()),
            old_name: from_path.clone(),
            new_name: to_path.clone(),
        },
    }
}

/// The unified diff that `imara_diff` prints for two texts.
pub uninterp spec fn unified_text_of(old: Seq<char>, new: Seq<char>) -> Seq<char>;

/// `imara_diff::Diff::unified_diff` with its default configuration, on a diff that
/// `Diff::compute_with` made of the lines of two texts by the histogram algorithm. The text
/// depends on the two texts alone; what it looks like is not stated. `Diff::compute_with` panics
/// from `i32::MAX` lines on.
#[verifier::external_body]
fn unified_text(old: &str, new: &str) -> (r: String)
    requires
        lines_of(old@).len() < i32::MAX,
        lines_of(new@).len() < i32::MAX,
    ensures
        r@ == unified_text_of(old@, new@),
{
    let input = imara_diff::InternedInput::new(old, new);
    let mut diff = imara_diff::Diff::default();
    diff.compute_with(
        imara_diff::Algorithm::Histogram,
        &input.before,
        &input.after,
        input.interner.num_tokens(),
    );
    let printer = imara_diff::BasicLineDiffPrinter(&input.interner);
    diff.unified_diff(&printer, imara_diff::UnifiedDiffConfig::default(), &input).to_string()
}

/// A unified diff under the names of its two files; without changes there is nothing to show.
pub open spec fn with_file_names(
    unified: Seq<char>,
    old_name: Seq<char>,
    new_name: Seq<char>,
) -> Seq<char> {
    if unified.len() == 0 {
        Seq::empty()
    } else {
        "--- a/"@ + old_name + "\n"@ + "+++ b/"@ + new_name + "\n"@ + unified
    }
}

/// Puts the names of its two files above a unified diff.
pub fn name_files(unified: &str, old_name: &str, new_name: &str) -> (r: String)
    ensures
        r@ == with_file_names(unified@, old_name@, new_name@),
{
    if unified.unicode_len() == 0 {
        return String::new();
    }
    let mut s = "--- a/".to_owned();
    s.append(old_name);
    s.append("\n");
    s.append("+++ b/");
    s.append(new_name);
    s.append("\n");
    s.append(unified);
    s
}

/// The unified diff of the old and the new content of a file.
pub fn unified_diff_for_blobs(old: &[u8], new: &[u8], old_name: &str, new_name: &str) -> (r: String)
    requires
        lines_of(utf8_lossy(old@)).len() < i32::MAX,
        lines_of(utf8_lossy(new@)).len() < i32::MAX,
    ensures
        r@ == with_file_names(
            unified_text_of(utf8_lossy(old@), utf8_lossy(new@)),
            old_name@,
            new_name@,
        ),
{
    let old_text = from_utf8_lossy(old);
    let new_text = from_utf8_lossy(new);
    let unified = unified_text(old_text.as_str(), new_text.as_str());
    name_files(unified.as_str(), old_name, new_name)
}

/// Like `unified_diff_for_blobs`, for contents of any size: `None` if either version has too many
/// lines to be compared.
pub fn try_unified_diff_for_blobs(
    old: &[u8],
    new: &[u8],
    old_name: &str,
    new_name: &str,
) -> (r: Option<String>)
    ensures
        r is Some <==> lines_of(utf8_lossy(old@)).len() < i32::MAX && lines_of(
            utf8_lossy(new@),
        ).len() < i32::MAX,
        match r {
            Some(s) => s@ == with_file_names(
                unified_text_of(utf8_lossy(old@), utf8_lossy(new@)),
                old_name@,
                new_name@,
            ),
            None => true,
        },
{
    let old_lines = split_lines(from_utf8_lossy(old).as_str());
    let new_lines = split_lines(from_utf8_lossy(new).as_str());
    assert(texts(old_lines@).len() == old_lines@.len());
    assert(texts(new_lines@).len() == new_lines@.len());
    if old_lines.len() < 0x7fff_ffff && new_lines.len() < 0x7fff_ffff {
        Some(unified_diff_for_blobs(old, new, old_name, new_name))
    } else {
        None
    }
}

/// How long ago something was, in words.
pub open spec fn relative_time(delta: int) -> Seq<char> {
    if delta < 60 {
        "just now"@
    } else if delta < 3600 {
        decimal_digits((delta / 60) as nat) + " min ago"@
    } else if delta < 86400 {
        decimal_digits((delta / 3600) as nat) + " hours ago"@
    } else if delta < 2592000 {
        decimal_digits((delta / 86400) as nat) + " days ago"@
    } else if delta < 31536000 {
        decimal_digits((delta / 2592000) as nat) + " months ago"@
    } else {
        decimal_digits((delta / 31536000) as nat) + " years ago"@
    }
}

/// Says how long before `now` a time was; both in seconds since the epoch.
pub fn format_relative_time(now: i64, seconds_since_epoch: i64) -> (r: String)
    requires
        i64::MIN <= now - seconds_since_epoch <= i64::MAX,
    ensures
        r@ == relative_time(now - seconds_since_epoch),
{
    let delta: i64 = now - seconds_since_epoch;
    if delta < 60 {
        return "just now".to_owned();
    }
    let d: u64 = delta as u64;
    let (count, unit): (u64, &str) = if d < 3600 {
        (d / 60, " min ago")
    } else if d < 86400 {
        (d / 3600, " hours ago")
    } else if d < 2592000 {
        (d / 86400, " days ago")
    } else if d < 31536000 {
        (d / 2592000, " months ago")
    } else {
        (d / 31536000, " years ago")
    };
    let mut s = decimal(count);
    s.append(unit);
    s
}

/// A commit as it is read from the repository.
#[derive(Debug)]
pub struct RawCommit {
    pub hash: String,
    pub message: String,
    pub author: String,
    /// When it was authored, in seconds since the epoch, if that is known.
    pub seconds: Option<i64>,
}

/// A commit as it is listed.
#[derive(Debug, Clone)]
pub struct CommitInfo {
    pub hash: String,
    pub short_hash: String,
    pub message: String,
    pub author: String,
    pub date: String,
}

/// Whether `info` lists the commit `raw` as of `now`.
pub open spec fn lists(info: CommitInfo, raw: RawCommit, now: i64) -> bool {
    &&& info.hash@ == raw.hash@
    &&& info.short_hash@ == first_chars(raw.hash@, 7)
    &&& info.message@ == raw.message@
    &&& info.author@ == raw.author@
    &&& info.date@ == match raw.seconds {
        Some(s) => relative_time(now - s),
        None => Seq::empty(),
    }
}

/// Whether the age of a commit can be computed.
pub open spec fn age_fits(raw: RawCommit, now: i64) -> bool {
    raw.seconds matches Some(s) ==> i64::MIN <= now - s <= i64::MAX
}

/// Lists the first `max_count` commits, with their ages as of `now`.
pub fn get_commit_log(commits: &Vec<RawCommit>, max_count: usize, now: i64) -> (r: Vec<CommitInfo>)
    requires
        forall|i: int| 0 <= i < commits@.len() ==> age_fits(#[trigger] commits@[i], now),
    ensures
        r@.len() == if max_count <= commits@.len() {
            max_count as int
        } else {
            commits@.len() as int
        },
        forall|i: int| 0 <= i < r@.len() ==> lists(#[trigger] r@[i], commits@[i], now),
{
    let mut out: Vec<CommitInfo> = Vec::new();
    let mut i: usize = 0;
    while i < commits.len() && i < max_count
        invariant
            i <= commits@.len(),
            i <= max_count,
            out@.len() == i,
            forall|k: int| 0 <= k < commits@.len() ==> age_fits(#[trigger] commits@[k], now),
            forall|k: int| 0 <= k < i ==> lists(#[trigger] out@[k], commits@[k], now),
        decreases commits@.len() - i,
    {
        let c = &commits[i];
        assert(age_fits(commits@[i as int], now));
        let date = match c.seconds {
            Some(s) => format_relative_time(now, s),
            None => String::new(),
        };
        out.push(
            CommitInfo {
                hash: c.hash.clone(),
                short_hash: shortened(c.hash.as_str(), 7),
                message: c.message.clone(),
                author: c.author.clone(),
                date,
            },
        );
        i = i + 1;
    }
    out
}

/// The path that a step is about.
pub open spec fn step_path(s: StepView) -> Seq<char> {
    match s {
        StepView::Trees(path, _, _) => path,
        StepView::DeletedTree(path, _) => path,
        StepView::Blobs(path, _, _) => path,
    }
}

/// The steps about a path.
pub open spec fn steps_at(steps: Seq<StepView>, path: Seq<char>) -> Seq<StepView> {
    steps.filter(|s: StepView| step_path(s) == path)
}

/// The first entry from `i` on with a name.
pub open spec fn entry_named(v: Seq<EntryView>, name: Seq<char>, i: int) -> Option<EntryView>
    decreases v.len() - i,
{
    if i < 0 || i >= v.len() {
        None
    } else if v[i].name == name {
        Some(v[i])
    } else {
        entry_named(v, name, i + 1)
    }
}

proof fn lemma_named(v: Seq<EntryView>, name: Seq<char>, i: int)
    requires
        0 <= i <= v.len(),
    ensures
        entry_named(v, name, i) matches Some(e) ==> e.name == name && exists|k: int|
            i <= k < v.len() && v[k] == e,
        entry_named(v, name, i) is None ==> forall|k: int|
            i <= k < v.len() ==> (#[trigger] v[k]).name != name,
    decreases v.len() - i,
{
    if i < v.len() && v[i].name != name {
        lemma_named(v, name, i + 1);
    }
}

proof fn lemma_named_at(v: Seq<EntryView>, k: int, i: int)
    requires
        names_rise(v),
        0 <= i <= k < v.len(),
    ensures
        entry_named(v, v[k].name, i) == Some(v[k]),
    decreases k - i,
{
    if i < k {
        assert(lex_less(v[i].name, v[k].name));
        lemma_lex_irreflexive(v[k].name);
        lemma_named_at(v, k, i + 1);
    }
}

proof fn lemma_not_named_behind(v: Seq<EntryView>, name: Seq<char>, i: int)
    requires
        names_rise(v),
        0 <= i <= v.len(),
        i < v.len() ==> lex_less(name, v[i].name),
    ensures
        entry_named(v, name, i) is None,
{
    lemma_named(v, name, i);
    if entry_named(v, name, i) is Some {
        let e = entry_named(v, name, i)->0;
        let k = choose|k: int| i <= k < v.len() && v[k] == e;
        lemma_lex_irreflexive(name);
        if k > i {
            assert(lex_less(v[i].name, v[k].name));
            lemma_lex_transitive(name, v[i].name, name);
        }
    }
}

/// The path of an entry is its name, behind the path of the directory and a slash unless that is
/// the root. Different names have different paths.
pub proof fn law_entry_paths(prefix: Seq<char>, a: Seq<char>, b: Seq<char>)
    ensures
        prefix.len() == 0 ==> entry_path(prefix, a) == a,
        prefix.len() > 0 ==> entry_path(prefix, a) == prefix.push('/') + a,
        entry_path(prefix, a) == entry_path(prefix, b) ==> a == b,
{
    reveal_strlit("/");
    if prefix.len() > 0 {
        assert(prefix + "/"@ =~= prefix.push('/'));
        let (x, y) = (entry_path(prefix, a), entry_path(prefix, b));
        assert(x.skip(prefix.len() as int + 1) =~= a);
        assert(y.skip(prefix.len() as int + 1) =~= b);
    }
}

proof fn lemma_one_step(s: Option<StepView>, path: Seq<char>)
    ensures
        steps_at(as_list(s), path) == match s {
            Some(step) => if step_path(step) == path {
                seq![step]
            } else {
                Seq::empty()
            },
            None => Seq::empty(),
        },
{
    reveal(Seq::filter);
    match s {
        Some(step) => {
            let l = as_list(s);
            assert(l.drop_last() =~= Seq::empty());
            assert(l.drop_last().filter(|s: StepView| step_path(s) == path) =~= Seq::empty());
            assert(steps_at(l, path) =~= if step_path(step) == path {
                seq![step]
            } else {
                Seq::empty()
            });
        },
        None => {
            assert(steps_at(as_list(s), path) =~= Seq::empty());
        },
    }
}

#[verifier::spinoff_prover]
#[verifier::rlimit(60)]
proof fn lemma_steps_at(
    old: Seq<EntryView>,
    new: Seq<EntryView>,
    i: int,
    j: int,
    prefix: Seq<char>,
    name: Seq<char>,
)
    requires
        names_rise(old),
        names_rise(new),
        0 <= i <= old.len(),
        0 <= j <= new.len(),
    ensures
        steps_at(tree_steps(old, new, i, j, prefix), entry_path(prefix, name)) == as_list(
            step_for(
                entry_path(prefix, name),
                entry_named(old, name, i),
                entry_named(new, name, j),
            ),
        ),
    decreases old.len() - i + new.len() - j,
{
    let path = entry_path(prefix, name);
    let pred = |s: StepView| step_path(s) == path;
    let all = tree_steps(old, new, i, j, prefix);
    if i == old.len() && j == new.len() {
        reveal(Seq::filter);
        assert(steps_at(all, path) =~= Seq::empty());
    } else if j == new.len() || (i < old.len() && lex_less(old[i].name, new[j].name)) {
        let s = step_for(entry_path(prefix, old[i].name), Some(old[i]), None);
        lemma_steps_at(old, new, i + 1, j, prefix, name);
        Seq::filter_distributes_over_add(
            as_list(s),
            tree_steps(old, new, i + 1, j, prefix),
            pred,
        );
        lemma_one_step(s, path);
        law_entry_paths(prefix, old[i].name, name);
        if old[i].name == name {
            lemma_gone_behind(old, name, i);
            lemma_not_named_behind(new, name, j);
            assert(steps_at(all, path) =~= as_list(s));
        } else {
            assert(steps_at(all, path) =~= steps_at(tree_steps(old, new, i + 1, j, prefix), path));
        }
    } else if i == old.len() || lex_less(new[j].name, old[i].name) {
        let s = step_for(entry_path(prefix, new[j].name), None, Some(new[j]));
        lemma_steps_at(old, new, i, j + 1, prefix, name);
        Seq::filter_distributes_over_add(
            as_list(s),
            tree_steps(old, new, i, j + 1, prefix),
            pred,
        );
        lemma_one_step(s, path);
        law_entry_paths(prefix, new[j].name, name);
        if new[j].name == name {
            lemma_gone_behind(new, name, j);
            lemma_not_named_behind(old, name, i);
            assert(steps_at(all, path) =~= as_list(s));
        } else {
            assert(steps_at(all, path) =~= steps_at(tree_steps(old, new, i, j + 1, prefix), path));
        }
    } else {
        lemma_lex_total(old[i].name, new[j].name);
        let s = step_for(entry_path(prefix, new[j].name), Some(old[i]), Some(new[j]));
        lemma_steps_at(old, new, i + 1, j + 1, prefix, name);
        Seq::filter_distributes_over_add(
            as_list(s),
            tree_steps(old, new, i + 1, j + 1, prefix),
            pred,
        );
        lemma_one_step(s, path);
        law_entry_paths(prefix, new[j].name, name);
        if new[j].name == name {
            lemma_gone_behind(old, name, i);
            lemma_gone_behind(new, name, j);
            assert(steps_at(all, path) =~= as_list(s));
        } else {
            assert(steps_at(all, path) =~= steps_at(
                tree_steps(old, new, i + 1, j + 1, prefix),
                path,
            ));
        }
    }
}

proof fn lemma_gone_behind(v: Seq<EntryView>, name: Seq<char>, i: int)
    requires
        names_rise(v),
        0 <= i < v.len(),
        v[i].name == name,
    ensures
        entry_named(v, name, i + 1) is None,
{
    if i + 1 < v.len() {
        assert(lex_less(v[i].name, v[i + 1].name));
    }
    lemma_not_named_behind(v, name, i + 1);
}

/// A file that both trees have, with other contents, is compared once, its old contents with its new
/// ones. It makes no difference whether it can be executed.
pub proof fn law_changed_file_is_compared(
    old: Seq<EntryView>,
    new: Seq<EntryView>,
    a: int,
    b: int,
    prefix: Seq<char>,
)
    requires
        names_rise(old),
        names_rise(new),
        0 <= a < old.len(),
        0 <= b < new.len(),
        old[a].name == new[b].name,
        old[a].kind == EntryKind::Blob || old[a].kind == EntryKind::BlobExecutable,
        new[b].kind == EntryKind::Blob || new[b].kind == EntryKind::BlobExecutable,
        old[a].id != new[b].id,
    ensures
        ({
            let path = entry_path(prefix, new[b].name);
            steps_at(tree_steps(old, new, 0, 0, prefix), path) == seq![
                StepView::Blobs(path, Some(old[a].id), Some(new[b].id)),
            ]
        }),
{
    lemma_named_at(old, a, 0);
    lemma_named_at(new, b, 0);
    lemma_steps_at(old, new, 0, 0, prefix, new[b].name);
}

/// A directory that both trees have, with other contents, is compared once, the old one with the new
/// one.
pub proof fn law_changed_directory_is_compared(
    old: Seq<EntryView>,
    new: Seq<EntryView>,
    a: int,
    b: int,
    prefix: Seq<char>,
)
    requires
        names_rise(old),
        names_rise(new),
        0 <= a < old.len(),
        0 <= b < new.len(),
        old[a].name == new[b].name,
        old[a].kind == EntryKind::Tree,
        new[b].kind == EntryKind::Tree,
        old[a].id != new[b].id,
    ensures
        ({
            let path = entry_path(prefix, new[b].name);
            steps_at(tree_steps(old, new, 0, 0, prefix), path) == seq![
                StepView::Trees(path, Some(old[a].id), new[b].id),
            ]
        }),
{
    lemma_named_at(old, a, 0);
    lemma_named_at(new, b, 0);
    lemma_steps_at(old, new, 0, 0, prefix, new[b].name);
}

/// What has the same contents in both trees is not looked at, and neither is what became something
/// else.
pub proof fn law_unchanged_entry_has_no_step(
    old: Seq<EntryView>,
    new: Seq<EntryView>,
    a: int,
    b: int,
    prefix: Seq<char>,
)
    requires
        names_rise(old),
        names_rise(new),
        0 <= a < old.len(),
        0 <= b < new.len(),
        old[a].name == new[b].name,
        old[a].id == new[b].id || (old[a].kind == EntryKind::Tree) != (new[b].kind
            == EntryKind::Tree) || old[a].kind == EntryKind::Link || old[a].kind
            == EntryKind::Commit || new[b].kind == EntryKind::Link || new[b].kind
            == EntryKind::Commit,
    ensures
        steps_at(
            tree_steps(old, new, 0, 0, prefix),
            entry_path(prefix, new[b].name),
        ).len() == 0,
{
    lemma_named_at(old, a, 0);
    lemma_named_at(new, b, 0);
    lemma_steps_at(old, new, 0, 0, prefix, new[b].name);
}

/// What only the new tree has is compared with nothing, and what only the old tree has is gone:
/// files and directories once each, links and other commits not at all.
pub proof fn law_one_sided_entry(
    old: Seq<EntryView>,
    new: Seq<EntryView>,
    k: int,
    prefix: Seq<char>,
)
    requires
        names_rise(old),
        names_rise(new),
    ensures
        0 <= k < new.len() && (forall|m: int|
            0 <= m < old.len() ==> (#[trigger] old[m]).name != new[k].name) ==> {
            let path = entry_path(prefix, new[k].name);
            steps_at(tree_steps(old, new, 0, 0, prefix), path) == match new[k].kind {
                EntryKind::Tree => seq![StepView::Trees(path, None, new[k].id)],
                EntryKind::Blob => seq![StepView::Blobs(path, None, Some(new[k].id))],
                EntryKind::BlobExecutable => seq![StepView::Blobs(path, None, Some(new[k].id))],
                EntryKind::Link => Seq::empty(),
                EntryKind::Commit => Seq::empty(),
            }
        },
        0 <= k < old.len() && (forall|m: int|
            0 <= m < new.len() ==> (#[trigger] new[m]).name != old[k].name) ==> {
            let path = entry_path(prefix, old[k].name);
            steps_at(tree_steps(old, new, 0, 0, prefix), path) == match old[k].kind {
                EntryKind::Tree => seq![StepView::DeletedTree(path, old[k].id)],
                EntryKind::Blob => seq![StepView::Blobs(path, Some(old[k].id), None)],
                EntryKind::BlobExecutable => seq![StepView::Blobs(path, Some(old[k].id), None)],
                EntryKind::Link => Seq::empty(),
                EntryKind::Commit => Seq::empty(),
            }
        },
{
    if 0 <= k < new.len() {
        lemma_named_at(new, k, 0);
        lemma_steps_at(old, new, 0, 0, prefix, new[k].name);
        lemma_named(old, new[k].name, 0);
    }
    if 0 <= k < old.len() {
        lemma_named_at(old, k, 0);
        lemma_steps_at(old, new, 0, 0, prefix, old[k].name);
        lemma_named(new, old[k].name, 0);
    }
}

proof fn lemma_inserted_holds(v: Seq<EntryView>, e: EntryView, x: EntryView)
    requires
        names_rise(v),
    ensures
        entry_inserted(v, e).contains(e),
        v.contains(x) && x.name != e.name ==> entry_inserted(v, e).contains(x),
        entry_inserted(v, e).contains(x) ==> x == e || v.contains(x),
{
    lemma_place(v, e.name, 0);
    let p = place(v, e.name, 0);
    let r = entry_inserted(v, e);
    assert(r[p] == e);
    if v.contains(x) && x.name != e.name {
        let k = choose|k: int| 0 <= k < v.len() && v[k] == x;
        if p < v.len() && v[p].name == e.name {
            assert(r[k] == x);
        } else if k < p {
            assert(r[k] == x);
        } else {
            assert(r[k + 1] == x);
        }
    }
    if r.contains(x) {
        let k = choose|k: int| 0 <= k < r.len() && r[k] == x;
        if k != p {
            if p < v.len() && v[p].name == e.name {
                assert(v[k] == x);
            } else if k < p {
                assert(v[k] == x);
            } else {
                assert(v[k - 1] == x);
            }
        }
    }
}

/// Ordering entries by name neither loses an entry nor makes one up: the last one of each name is
/// there, and nothing else.
pub proof fn law_by_name_keeps_entries(v: Seq<EntryView>, k: int)
    requires
        0 <= k < v.len(),
        forall|m: int| k < m < v.len() ==> (#[trigger] v[m]).name != v[k].name,
    ensures
        by_name(v).contains(v[k]),
    decreases v.len(),
{
    let prev = v.drop_last();
    law_by_name_rises(prev);
    lemma_inserted_holds(by_name(prev), v.last(), v[k]);
    if k < v.len() - 1 {
        assert forall|m: int| k < m < prev.len() implies (#[trigger] prev[m]).name
            != prev[k].name by {
            assert(v[m].name != v[k].name);
        }
        law_by_name_keeps_entries(prev, k);
        assert(v[v.len() - 1].name != v[k].name);
    }
}

/// Every entry of a tree in the order of its names is one of the tree.
pub proof fn law_by_name_makes_nothing_up(v: Seq<EntryView>, e: EntryView)
    requires
        by_name(v).contains(e),
    ensures
        v.contains(e),
    decreases v.len(),
{
    if v.len() > 0 {
        law_by_name_rises(v.drop_last());
        lemma_inserted_holds(by_name(v.drop_last()), v.last(), e);
        if e == v.last() {
            assert(v[v.len() - 1] == e);
        } else {
            law_by_name_makes_nothing_up(v.drop_last(), e);
            let k = choose|k: int| 0 <= k < v.drop_last().len() && v.drop_last()[k] == e;
            assert(v[k] == e);
        }
    }
}

/// All files and directories of a directory that is gone are gone, each at its path below that of
/// the directory.
pub proof fn law_all_of_a_deleted_tree_is_gone(entries: Seq<EntryView>, prefix: Seq<char>, n: int, k: int)
    requires
        0 <= k < n <= entries.len(),
    ensures
        ({
            let e = entries[k];
            let path = prefix.push('/') + e.name;
            let steps = deleted_steps(entries, prefix, n);
            match e.kind {
                EntryKind::Tree => steps.contains(StepView::DeletedTree(path, e.id)),
                EntryKind::Blob => steps.contains(StepView::Blobs(path, Some(e.id), None)),
                EntryKind::BlobExecutable => steps.contains(
                    StepView::Blobs(path, Some(e.id), None),
                ),
                _ => true,
            }
        }),
    decreases n,
{
    reveal_strlit("/");
    assert(prefix + "/"@ =~= prefix.push('/'));
    let before = deleted_steps(entries, prefix, n - 1);
    let steps = deleted_steps(entries, prefix, n);
    if k < n - 1 {
        law_all_of_a_deleted_tree_is_gone(entries, prefix, n - 1, k);
        assert forall|s: StepView| before.contains(s) implies steps.contains(s) by {
            let m = choose|m: int| 0 <= m < before.len() && before[m] == s;
            assert(steps[m] == s);
        }
    } else if steps.len() > before.len() {
        assert(steps[steps.len() - 1] == steps.last());
    }
}

/// Nothing is gone with a directory but its files and directories, in the order of the tree.
pub proof fn law_only_a_deleted_tree_is_gone(entries: Seq<EntryView>, prefix: Seq<char>, n: int, m: int) -> (k:
    int)
    requires
        0 <= n <= entries.len(),
        0 <= m < deleted_steps(entries, prefix, n).len(),
    ensures
        m <= k < n,
        step_path(deleted_steps(entries, prefix, n)[m]) == prefix.push('/') + entries[k].name,
        entries[k].kind != EntryKind::Link,
        entries[k].kind != EntryKind::Commit,
    decreases n,
{
    reveal_strlit("/");
    assert(prefix + "/"@ =~= prefix.push('/'));
    let before = deleted_steps(entries, prefix, n - 1);
    lemma_deleted_len(entries, prefix, n - 1);
    if m < before.len() {
        assert(deleted_steps(entries, prefix, n)[m] == before[m]);
        law_only_a_deleted_tree_is_gone(entries, prefix, n - 1, m)
    } else {
        n - 1
    }
}

proof fn lemma_deleted_len(entries: Seq<EntryView>, prefix: Seq<char>, n: int)
    ensures
        n >= 0 ==> deleted_steps(entries, prefix, n).len() <= n,
    decreases n,
{
    if n > 0 {
        lemma_deleted_len(entries, prefix, n - 1);
    }
}

/// A change has no old side exactly if it is untracked, and no new side exactly if it is deleted.
/// A side that is there is the file at the path of the change; a renamed file has its old path on the
/// old side and its new one on the new side. Either side is named after the file that it shows, or
/// after the other side if it shows none.
pub proof fn law_sides_of_a_change(change: ChangeView)
    ensures
        sides_of(change).0 is None <==> change is Untracked,
        sides_of(change).1 is None <==> change is Deleted,
        change matches ChangeView::Modified(p) ==> sides_of(change).0 == Some(p)
            && sides_of(change).1 == Some(p),
        change matches ChangeView::Conflict(p) ==> sides_of(change).0 == Some(p)
            && sides_of(change).1 == Some(p),
        change matches ChangeView::Untracked(p) ==> sides_of(change).1 == Some(p),
        change matches ChangeView::Deleted(p) ==> sides_of(change).0 == Some(p),
        change matches ChangeView::Renamed(from, to) ==> sides_of(change).0 == Some(from)
            && sides_of(change).1 == Some(to),
        sides_of(change).0 matches Some(p) ==> names_of(change).0 == p,
        sides_of(change).1 matches Some(p) ==> names_of(change).1 == p,
        sides_of(change).0 is None ==> names_of(change).0 == names_of(change).1,
        sides_of(change).1 is None ==> names_of(change).1 == names_of(change).0,
{
}

/// What the status walk finds is shown for what it is: a file that is not in the head commit has
/// nothing to be compared with, one that is gone leaves nothing, one with other contents is compared
/// with itself, and a moved one with what it was. What has no other contents shows nothing.
pub proof fn law_findings_are_compared(path: String, other: String, status: EntryStatus, untracked: bool)
    ensures
        ({
            let found = change_of(StatusItem::Modification { path, status });
            &&& found is Some <==> (status is Conflict || status is Removed || status is Modification
                || status is IntentToAdd)
            &&& found matches Some(c) ==> {
                &&& sides_of(c).0 == if status is IntentToAdd {
                    None
                } else {
                    Some(path@)
                }
                &&& sides_of(c).1 == if status is Removed {
                    None
                } else {
                    Some(path@)
                }
                &&& c is Conflict <==> status is Conflict
            }
        }),
        ({
            let found = change_of(StatusItem::DirectoryContents { path, untracked });
            &&& found is Some <==> untracked
            &&& found matches Some(c) ==> sides_of(c) == (None::<Seq<char>>, Some(path@))
        }),
        ({
            let found = change_of(StatusItem::Rewrite { from_path: path, to_path: other });
            found matches Some(c) && sides_of(c) == (Some(path@), Some(other@))
        }),
{
}

/// A shortened id is the start of the id, and as long as it may be.
pub proof fn law_shortened_id(s: Seq<char>, n: int)
    requires
        0 <= n,
    ensures
        first_chars(s, n).is_prefix_of(s),
        first_chars(s, n).len() == if s.len() < n {
            s.len() as int
        } else {
            n
        },
{
}

/// Whether a number of seconds is one of those that ages are told in, with the word for it.
pub open spec fn time_unit(seconds: int, word: Seq<char>) -> bool {
    ||| seconds == 60 && word == " min ago"@
    ||| seconds == 60 * 60 && word == " hours ago"@
    ||| seconds == 24 * 60 * 60 && word == " days ago"@
    ||| seconds == 30 * 24 * 60 * 60 && word == " months ago"@
    ||| seconds == 365 * 24 * 60 * 60 && word == " years ago"@
}

/// An age is told as the number of whole units that have passed. The unit is the longest one that
/// has passed at all; what is younger than the shortest, or lies ahead, is told as just now.
pub proof fn law_age_counts_whole_units(delta: int) -> (r: (nat, int, Seq<char>))
    requires
        delta >= 60,
    ensures
        time_unit(r.1, r.2),
        r.0 >= 1,
        r.0 * r.1 <= delta < (r.0 + 1) * r.1,
        relative_time(delta) == decimal_digits(r.0) + r.2,
        digits_value(decimal_digits(r.0)) == r.0,
        forall|s: int, w: Seq<char>| #[trigger] time_unit(s, w) && s > r.1 ==> delta < s,
{
    let (s, w) = if delta < 3600 {
        (60int, " min ago"@)
    } else if delta < 86400 {
        (3600int, " hours ago"@)
    } else if delta < 2592000 {
        (86400int, " days ago"@)
    } else if delta < 31536000 {
        (2592000int, " months ago"@)
    } else {
        (31536000int, " years ago"@)
    };
    let n = delta / s;
    vstd::arithmetic::div_mod::lemma_fundamental_div_mod(delta, s);
    assert(n * s <= delta < (n + 1) * s) by (nonlinear_arith)
        requires
            s > 0,
            delta == s * n + delta % s,
            0 <= delta % s < s,
    ;
    law_decimal_reads_back(n as nat);
    (n as nat, s, w)
}

/// What is younger than a minute, or lies ahead, was just now.
pub proof fn law_recent_times_are_now(delta: int)
    requires
        delta < 60,
    ensures
        relative_time(delta) == "just now"@,
{
}

/// Equal contents show nothing. Otherwise the diff stands as it is behind two lines, the first with
/// the old name and the second with the new one.
pub proof fn law_named_diff(unified: Seq<char>, old_name: Seq<char>, new_name: Seq<char>)
    ensures
        with_file_names(unified, old_name, new_name).len() == 0 <==> unified.len() == 0,
        unified.len() > 0 ==> {
            let all = with_file_names(unified, old_name, new_name);
            let first = "--- a/"@ + old_name + "\n"@;
            let second = "+++ b/"@ + new_name + "\n"@;
            &&& all.len() == first.len() + second.len() + unified.len()
            &&& first.is_prefix_of(all)
            &&& second.is_prefix_of(all.skip(first.len() as int))
            &&& all.skip((first.len() + second.len()) as int) == unified
        },
{
    if unified.len() > 0 {
        let all = with_file_names(unified, old_name, new_name);
        let first = "--- a/"@ + old_name + "\n"@;
        let second = "+++ b/"@ + new_name + "\n"@;
        assert(all =~= first + second + unified);
        assert(all.skip(first.len() as int) =~= second + unified);
        assert(all.skip((first.len() + second.len()) as int) =~= unified);
        assert(first =~= all.take(first.len() as int));
    }
}

/// A commit is listed with its own hash, message and author, its hash shortened to seven characters, and
/// its age; without a time it has none.
pub proof fn law_listed_commit(info: CommitInfo, raw: RawCommit, now: i64)
    requires
        lists(info, raw, now),
    ensures
        info.hash@ == raw.hash@,
        info.message@ == raw.message@,
        info.author@ == raw.author@,
        info.short_hash@ == raw.hash@.take(info.short_hash@.len() as int),
        info.short_hash@.len() <= 7,
        info.short_hash@.len() == 7 || info.short_hash@ == raw.hash@,
        raw.seconds is None ==> info.date@.len() == 0,
        raw.seconds matches Some(s) ==> info.date@ == relative_time(now - s),
{
    law_shortened_id(raw.hash@, 7);
    assert(raw.hash@.take(raw.hash@.len() as int) =~= raw.hash@);
}

} // verus!
