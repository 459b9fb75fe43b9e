//! The log of changes that lets views catch up with a document.
use crate::selection::Selection;
use crate::text::Rope;
use crate::transaction::composed;
use crate::transaction::op_views;
use crate::transaction::same_selection;
use crate::transaction::Op;
use crate::transaction::Transaction;
use vstd::prelude::*;

verus! {

/// A document and the selection in it.
#[derive(Debug)]
pub struct State {
    pub doc: Rope,
    pub selection: Selection,
}

/// A linear log of transactions.
#[derive(Debug)]
pub struct History {
    revisions: Vec<Transaction>,
    current: usize,
}

/// Each change fits behind the one before it.
pub open spec fn chained(revisions: Seq<Transaction>) -> bool {
    &&& forall|k: int| 0 <= k < revisions.len() ==> (#[trigger] revisions[k]).changes.wf()
    &&& forall|k: int|
        0 < k < revisions.len() ==> revisions[k - 1].changes.len_after == (
        #[trigger] revisions[k]).changes.len
}

/// The text that a list of changes makes of `doc`, one after the other.
pub open spec fn replayed(revisions: Seq<Transaction>, doc: Seq<char>) -> Seq<char>
    decreases revisions.len(),
{
    if revisions.len() == 0 {
        doc
    } else {
        revisions.last().changes.apply_to(replayed(revisions.drop_last(), doc))
    }
}

/// The steps of a change.
pub open spec fn steps_of(t: Transaction) -> Seq<Op> {
    op_views(t.changes.changes@)
}

/// The steps of a list of changes, put together from the oldest to the newest.
pub open spec fn composed_log(revisions: Seq<Transaction>) -> Seq<Op>
    decreases revisions.len(),
{
    if revisions.len() == 0 {
        Seq::empty()
    } else {
        composed(composed_log(revisions.drop_last()), steps_of(revisions.last()))
    }
}

impl Default for History {
    fn default() -> (r: Self)
        ensures
            r@ == Seq::<Transaction>::empty(),
    {
        History { revisions: Vec::new(), current: 0 }
    }
}

impl View for History {
    type V = Seq<Transaction>;

    closed spec fn view(&self) -> Seq<Transaction> {
        self.revisions@
    }
}

impl History {
    #[verifier::type_invariant]
    spec fn inv(self) -> bool {
        self.current == self.revisions@.len()
    }

    /// Appends a transaction to the log.
    pub fn commit_changeset(&mut self, transaction: Transaction)
        ensures
            final(self)@ == old(self)@.push(transaction),
    {
        let mut other = History { revisions: Vec::new(), current: 0 };
        std::mem::swap(self, &mut other);
        let mut revisions = other.into_revisions();
        revisions.push(transaction);
        let current: usize = revisions.len();
        *self = History { revisions, current };
    }

    fn into_revisions(self) -> (r: Vec<Transaction>)
        ensures
            r@ == self@,
    {
        self.revisions
    }

    /// The number of the newest revision: how many transactions there are.
    pub fn current_revision(&self) -> (r: usize)
        ensures
            r == self@.len(),
    {
        proof {
            use_type_invariant(self);
        }
        self.current
    }

    /// The changes since a revision as one transaction; `None` if there are none.
    pub fn changes_since(&self, revision: usize) -> (r: Option<Transaction>)
        requires
            revision < self@.len() ==> chained(self@.skip(revision as int)),
        ensures
            r is None <==> revision >= self@.len(),
            r matches Some(t) ==> {
                &&& t.changes.wf()
                &&& steps_of(t) == composed_log(self@.skip(revision as int))
                &&& t.changes.len == self@[revision as int].changes.len
                &&& t.changes.len_after == self@.last().changes.len_after
                &&& same_selection(t.selection, self@.last().selection)
                &&& forall|doc: Seq<char>|
                    doc.len() == t.changes.len ==> #[trigger] t.changes.apply_to(doc) == replayed(
                        self@.skip(revision as int),
                        doc,
                    )
            },
    {
        proof {
            use_type_invariant(self);
        }
        if revision >= self.current {
            return None;
        }
        let ghost log = self@.skip(revision as int);
        assert(log[0] == self@[revision as int]);
        let mut acc = self.revisions[revision].clone();
        let mut i: usize = revision + 1;
        proof {
            assert(log.take(1).drop_last() =~= Seq::empty());
            reveal_with_fuel(replayed, 2);
            assert(log.take(1).last() == log[0]);
            reveal_with_fuel(composed_log, 2);
        }
        while i < self.current
            invariant
                self.current == self.revisions@.len(),
                revision < i <= self.current,
                log == self.revisions@.skip(revision as int),
                chained(log),
                acc.changes.wf(),
                steps_of(acc) == composed_log(log.take(i - revision)),
                acc.changes.len == log[0].changes.len,
                acc.changes.len_after == log[i - revision - 1].changes.len_after,
                same_selection(acc.selection, log[i - revision - 1].selection),
                forall|doc: Seq<char>|
                    doc.len() == acc.changes.len ==> #[trigger] acc.changes.apply_to(doc)
                        == replayed(log.take(i - revision), doc),
            decreases self.current - i,
        {
            let next = self.revisions[i].clone();
            let ghost prev = acc;
            let ghost k = i - revision;
            proof {
                assert(log[k] == self.revisions@[i as int]);
                assert(log[k].changes.wf());
                assert(log.take(k + 1).drop_last() =~= log.take(k));
                assert(log.take(k + 1).last() == log[k]);
            }
            acc = acc.compose(next);
            assert forall|doc: Seq<char>| doc.len() == acc.changes.len implies
                #[trigger] acc.changes.apply_to(doc) == replayed(log.take(k + 1), doc) by {
                assert(prev.changes.apply_to(doc) == replayed(log.take(k), doc));
            }
            i = i + 1;
        }
        assert(log.take(log.len() as int) =~= log);
        assert(log.last() == self@.last());
        Some(acc)
    }
}

/// Right after a commit, the changes since the revision before it are those that were committed.
pub proof fn law_commit_is_the_newest_change(log: Seq<Transaction>, t: Transaction)
    ensures
        composed_log(log.push(t).skip(log.len() as int)) == steps_of(t),
{
    let newest = log.push(t).skip(log.len() as int);
    assert(newest.drop_last() =~= Seq::empty());
    assert(newest.last() == t);
    reveal_with_fuel(composed_log, 2);
}

/// A commit adds its steps to the changes since every earlier revision.
pub proof fn law_commit_composes(log: Seq<Transaction>, t: Transaction, revision: int)
    requires
        0 <= revision <= log.len(),
    ensures
        composed_log(log.push(t).skip(revision)) == composed(
            composed_log(log.skip(revision)),
            steps_of(t),
        ),
{
    assert(log.push(t).skip(revision).drop_last() =~= log.skip(revision));
    assert(log.push(t).skip(revision).last() == t);
}

/// Catching up in two steps, first to an intermediate revision and then to the newest one, leads
/// to the same text as catching up at once.
pub proof fn law_catch_up_in_steps(log: Seq<Transaction>, mid: int, doc: Seq<char>)
    requires
        0 <= mid <= log.len(),
    ensures
        replayed(log.skip(mid), replayed(log.take(mid), doc)) == replayed(log, doc),
    decreases log.len(),
{
    if mid == log.len() {
        assert(log.take(mid) =~= log);
        assert(log.skip(mid) =~= Seq::empty());
    } else {
        law_catch_up_in_steps(log.drop_last(), mid, doc);
        assert(log.drop_last().take(mid) =~= log.take(mid));
        assert(log.drop_last().skip(mid) =~= log.skip(mid).drop_last());
        assert(log.skip(mid).last() == log.last());
    }
}

/// Replaying a log does its changes one after the other, the newest one last; an empty log changes
/// nothing.
pub proof fn law_replay_does_all_changes(log: Seq<Transaction>, t: Transaction, doc: Seq<char>)
    ensures
        replayed(Seq::empty(), doc) == doc,
        replayed(log.push(t), doc) == t.changes.apply_to(replayed(log, doc)),
{
    assert(log.push(t).drop_last() =~= log);
}

} // verus!
