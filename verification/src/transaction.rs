//! Changes to a text, and how they are put together.
use crate::selection::Selection;
use vstd::prelude::*;
use vstd::string::*;

verus! {

/// One step of a change; the steps of a change walk over the text from its start.
#[derive(Debug)]
pub enum Operation {
    /// Keeps the next characters.
    Retain(usize),
    /// Drops the next characters.
    Delete(usize),
    /// Adds a text.
    Insert(String),
}

/// A step, with its text.
pub enum Op {
    Retain(nat),
    Delete(nat),
    Insert(Seq<char>),
}

impl View for Operation {
    type V = Op;

    open spec fn view(&self) -> Op {
        match self {
            Operation::Retain(n) => Op::Retain(*n as nat),
            Operation::Delete(n) => Op::Delete(*n as nat),
            Operation::Insert(s) => Op::Insert(s@),
        }
    }
}

impl Clone for Operation {
    fn clone(&self) -> (r: Self)
        ensures
            r@ == self@,
    {
        match self {
            Operation::Retain(n) => Operation::Retain(*n),
            Operation::Delete(n) => Operation::Delete(*n),
            Operation::Insert(s) => Operation::Insert(s.clone()),
        }
    }
}

/// The views of a list of steps.
pub open spec fn op_views(v: Seq<Operation>) -> Seq<Op> {
    v.map_values(|o: Operation| o@)
}

/// How many characters of the old text a step walks over.
pub open spec fn consumed(op: Op) -> nat {
    match op {
        Op::Retain(n) => n,
        Op::Delete(n) => n,
        Op::Insert(_) => 0,
    }
}

/// How many characters of the new text a step makes.
pub open spec fn produced(op: Op) -> nat {
    match op {
        Op::Retain(n) => n,
        Op::Delete(_) => 0,
        Op::Insert(s) => s.len(),
    }
}

/// How long a text must be for the steps.
pub open spec fn length_before(ops: Seq<Op>) -> nat
    decreases ops.len(),
{
    if ops.len() == 0 {
        0
    } else {
        consumed(ops[0]) + length_before(ops.drop_first())
    }
}

/// How long the text is behind the steps.
pub open spec fn length_after(ops: Seq<Op>) -> nat
    decreases ops.len(),
{
    if ops.len() == 0 {
        0
    } else {
        produced(ops[0]) + length_after(ops.drop_first())
    }
}

/// The text that the steps make of `doc`.
pub open spec fn applied(ops: Seq<Op>, doc: Seq<char>) -> Seq<char>
    decreases ops.len(),
{
    if ops.len() == 0 {
        doc
    } else {
        match ops[0] {
            Op::Retain(n) => doc.take(n as int) + applied(ops.drop_first(), doc.skip(n as int)),
            Op::Delete(n) => applied(ops.drop_first(), doc.skip(n as int)),
            Op::Insert(s) => s + applied(ops.drop_first(), doc),
        }
    }
}

/// The steps with another one in front.
pub open spec fn cons(op: Op, ops: Seq<Op>) -> Seq<Op> {
    seq![op] + ops
}

/// One sequence of steps for `a` followed by `b`.
pub open spec fn composed(a: Seq<Op>, b: Seq<Op>) -> Seq<Op>
    decreases length_before(a) + length_after(a) + length_before(b) + length_after(b), a.len()
        + b.len(),
    via composed_decreases
{
    if a.len() == 0 {
        b
    } else if b.len() == 0 {
        a
    } else {
        let ra = a.drop_first();
        let rb = b.drop_first();
        match (a[0], b[0]) {
            (Op::Delete(n), _) => cons(Op::Delete(n), composed(ra, b)),
            (_, Op::Insert(s)) => cons(Op::Insert(s), composed(a, rb)),
            (Op::Retain(i), Op::Retain(j)) => if i < j {
                cons(Op::Retain(i), composed(ra, cons(Op::Retain((j - i) as nat), rb)))
            } else if i == j {
                cons(Op::Retain(i), composed(ra, rb))
            } else {
                cons(Op::Retain(j), composed(cons(Op::Retain((i - j) as nat), ra), rb))
            },
            (Op::Retain(i), Op::Delete(j)) => if i < j {
                cons(Op::Delete(i), composed(ra, cons(Op::Delete((j - i) as nat), rb)))
            } else if i == j {
                cons(Op::Delete(i), composed(ra, rb))
            } else {
                cons(Op::Delete(j), composed(cons(Op::Retain((i - j) as nat), ra), rb))
            },
            (Op::Insert(s), Op::Retain(j)) => if s.len() < j {
                cons(Op::Insert(s), composed(ra, cons(Op::Retain((j - s.len()) as nat), rb)))
            } else if s.len() == j {
                cons(Op::Insert(s), composed(ra, rb))
            } else {
                cons(
                    Op::Insert(s.take(j as int)),
                    composed(cons(Op::Insert(s.skip(j as int)), ra), rb),
                )
            },
            (Op::Insert(s), Op::Delete(j)) => if s.len() < j {
                composed(ra, cons(Op::Delete((j - s.len()) as nat), rb))
            } else if s.len() == j {
                composed(ra, rb)
            } else {
                composed(cons(Op::Insert(s.skip(j as int)), ra), rb)
            },
        }
    }
}

proof fn lemma_cons(op: Op, ops: Seq<Op>)
    ensures
        cons(op, ops)[0] == op,
        cons(op, ops).drop_first() == ops,
        cons(op, ops).len() == ops.len() + 1,
        length_before(cons(op, ops)) == consumed(op) + length_before(ops),
        length_after(cons(op, ops)) == produced(op) + length_after(ops),
{
    assert(cons(op, ops).drop_first() =~= ops);
}

#[via_fn]
proof fn composed_decreases(a: Seq<Op>, b: Seq<Op>) {
    if a.len() > 0 && b.len() > 0 {
        let ra = a.drop_first();
        let rb = b.drop_first();
        match (a[0], b[0]) {
            (Op::Delete(n), _) => {},
            (_, Op::Insert(s)) => {},
            (Op::Retain(i), Op::Retain(j)) => {
                lemma_cons(Op::Retain((j - i) as nat), rb);
                lemma_cons(Op::Retain((i - j) as nat), ra);
            },
            (Op::Retain(i), Op::Delete(j)) => {
                lemma_cons(Op::Delete((j - i) as nat), rb);
                lemma_cons(Op::Retain((i - j) as nat), ra);
            },
            (Op::Insert(s), Op::Retain(j)) => {
                lemma_cons(Op::Retain((j - s.len()) as nat), rb);
                lemma_cons(Op::Insert(s.skip(j as int)), ra);
            },
            (Op::Insert(s), Op::Delete(j)) => {
                lemma_cons(Op::Delete((j - s.len()) as nat), rb);
                lemma_cons(Op::Insert(s.skip(j as int)), ra);
            },
        }
    }
}

proof fn lemma_applied_cons(op: Op, ops: Seq<Op>, doc: Seq<char>)
    ensures
        applied(cons(op, ops), doc) == match op {
            Op::Retain(n) => doc.take(n as int) + applied(ops, doc.skip(n as int)),
            Op::Delete(n) => applied(ops, doc.skip(n as int)),
            Op::Insert(s) => s + applied(ops, doc),
        },
{
    lemma_cons(op, ops);
}

/// Splitting the first step into two that do the same changes nothing.
proof fn lemma_applied_split(ops: Seq<Op>, doc: Seq<char>, i: nat)
    requires
        ops.len() > 0,
        length_before(ops) <= doc.len(),
        match ops[0] {
            Op::Retain(n) => i <= n,
            Op::Delete(n) => i <= n,
            Op::Insert(s) => i <= s.len(),
        },
    ensures
        match ops[0] {
            Op::Retain(n) => applied(ops, doc) == doc.take(i as int) + applied(
                cons(Op::Retain((n - i) as nat), ops.drop_first()),
                doc.skip(i as int),
            ),
            Op::Delete(n) => applied(ops, doc) == applied(
                cons(Op::Delete((n - i) as nat), ops.drop_first()),
                doc.skip(i as int),
            ),
            Op::Insert(s) => applied(ops, doc) == s.take(i as int) + applied(
                cons(Op::Insert(s.skip(i as int)), ops.drop_first()),
                doc,
            ),
        },
{
    let r = ops.drop_first();
    match ops[0] {
        Op::Retain(n) => {
            let d = doc.skip(i as int);
            lemma_applied_cons(Op::Retain((n - i) as nat), r, d);
            assert(d.skip(n - i) =~= doc.skip(n as int));
            assert(doc.take(i as int) + (d.take(n - i) + applied(r, d.skip(n - i))) =~= doc.take(
                n as int,
            ) + applied(r, doc.skip(n as int)));
        },
        Op::Delete(n) => {
            let d = doc.skip(i as int);
            lemma_applied_cons(Op::Delete((n - i) as nat), r, d);
            assert(d.skip(n - i) =~= doc.skip(n as int));
        },
        Op::Insert(s) => {
            lemma_applied_cons(Op::Insert(s.skip(i as int)), r, doc);
            assert(s.take(i as int) + (s.skip(i as int) + applied(r, doc)) =~= s + applied(r, doc));
        },
    }
}

proof fn lemma_applied_len(ops: Seq<Op>, doc: Seq<char>)
    requires
        length_before(ops) <= doc.len(),
    ensures
        applied(ops, doc).len() == doc.len() - length_before(ops) + length_after(ops),
    decreases ops.len(),
{
    if ops.len() > 0 {
        match ops[0] {
            Op::Retain(n) => lemma_applied_len(ops.drop_first(), doc.skip(n as int)),
            Op::Delete(n) => lemma_applied_len(ops.drop_first(), doc.skip(n as int)),
            Op::Insert(s) => lemma_applied_len(ops.drop_first(), doc),
        }
    }
}

/// The composed change does to every text what the two changes do one after the other, and goes
/// from the length before the first to the length after the second.
pub proof fn law_compose(a: Seq<Op>, b: Seq<Op>, doc: Seq<char>)
    requires
        length_after(a) == length_before(b),
        doc.len() == length_before(a),
    ensures
        applied(composed(a, b), doc) == applied(b, applied(a, doc)),
        length_before(composed(a, b)) == length_before(a),
        length_after(composed(a, b)) == length_after(b),
    decreases length_before(a) + length_after(a) + length_before(b) + length_after(b), a.len()
        + b.len(),
{
    if a.len() == 0 {
        assert(doc.len() == 0);
    } else if b.len() == 0 {
    } else {
        let ra = a.drop_first();
        let rb = b.drop_first();
        let mid = applied(a, doc);
        lemma_applied_len(a, doc);
        match (a[0], b[0]) {
            (Op::Delete(n), _) => {
                law_compose(ra, b, doc.skip(n as int));
                lemma_applied_cons(Op::Delete(n), composed(ra, b), doc);
                lemma_cons(Op::Delete(n), composed(ra, b));
            },
            (_, Op::Insert(s)) => {
                law_compose(a, rb, doc);
                lemma_applied_cons(Op::Insert(s), composed(a, rb), doc);
                lemma_cons(Op::Insert(s), composed(a, rb));
            },
            _ => {
                let m = if op_size(a[0]) <= op_size(b[0]) {
                    op_size(a[0])
                } else {
                    op_size(b[0])
                };
                let (na, nb) = rest_after(a, b, m);
                let d = if a[0] is Retain {
                    doc.skip(m as int)
                } else {
                    doc
                };
                lemma_rest(a, b, m);
                lemma_step(a, b, doc, m);
                lemma_composed_step(a, b, m);
                law_compose(na, nb, d);
                let rest = composed(na, nb);
                match (a[0], b[0]) {
                    (Op::Retain(_), Op::Retain(_)) => {
                        lemma_applied_cons(Op::Retain(m), rest, doc);
                        lemma_cons(Op::Retain(m), rest);
                    },
                    (Op::Retain(_), Op::Delete(_)) => {
                        lemma_applied_cons(Op::Delete(m), rest, doc);
                        lemma_cons(Op::Delete(m), rest);
                    },
                    (Op::Insert(s), Op::Retain(_)) => {
                        lemma_applied_cons(Op::Insert(s.take(m as int)), rest, doc);
                        lemma_cons(Op::Insert(s.take(m as int)), rest);
                    },
                    _ => {},
                }
            },
        }
    }
}

/// What the first `m` characters of two meeting steps do.
proof fn lemma_step(a: Seq<Op>, b: Seq<Op>, doc: Seq<char>, m: nat)
    requires
        a.len() > 0,
        b.len() > 0,
        !(a[0] is Delete),
        !(b[0] is Insert),
        m <= op_size(a[0]),
        m <= op_size(b[0]),
        m == op_size(a[0]) || m == op_size(b[0]),
        length_after(a) == length_before(b),
        doc.len() == length_before(a),
    ensures
        ({
            let (na, nb) = rest_after(a, b, m);
            let d = if a[0] is Retain {
                doc.skip(m as int)
            } else {
                doc
            };
            let shown = match a[0] {
                Op::Insert(s) => s.take(m as int),
                _ => doc.take(m as int),
            };
            &&& d.len() == length_before(na)
            &&& length_after(na) == length_before(nb)
            &&& applied(b, applied(a, doc)) == if b[0] is Retain {
                shown + applied(nb, applied(na, d))
            } else {
                applied(nb, applied(na, d))
            }
        }),
{
    let (na, nb) = rest_after(a, b, m);
    let d = if a[0] is Retain {
        doc.skip(m as int)
    } else {
        doc
    };
    let shown = match a[0] {
        Op::Insert(s) => s.take(m as int),
        _ => doc.take(m as int),
    };
    let mid = applied(a, doc);
    lemma_rest(a, b, m);
    lemma_applied_len(a, doc);
    lemma_applied_split(a, doc, m);
    lemma_head_gone(a, doc, m, na);
    assert(mid == shown + applied(na, d));
    assert(mid.take(m as int) =~= shown);
    assert(mid.skip(m as int) =~= applied(na, d));
    lemma_applied_split(b, mid, m);
    lemma_head_gone(b, mid, m, nb);
}

proof fn lemma_composed_step(a: Seq<Op>, b: Seq<Op>, m: nat)
    requires
        a.len() > 0,
        b.len() > 0,
        !(a[0] is Delete),
        !(b[0] is Insert),
        m <= op_size(a[0]),
        m <= op_size(b[0]),
        m == op_size(a[0]) || m == op_size(b[0]),
    ensures
        ({
            let (na, nb) = rest_after(a, b, m);
            let rest = composed(na, nb);
            composed(a, b) == match (a[0], b[0]) {
                (Op::Retain(_), Op::Retain(_)) => cons(Op::Retain(m), rest),
                (Op::Retain(_), Op::Delete(_)) => cons(Op::Delete(m), rest),
                (Op::Insert(s), Op::Retain(_)) => cons(Op::Insert(s.take(m as int)), rest),
                _ => rest,
            }
        }),
{
    match a[0] {
        Op::Insert(s) => {
            if m == s.len() {
                assert(s.take(m as int) =~= s);
            }
        },
        _ => {},
    }
}

/// The step without its first `m` characters.
spec fn op_rest(op: Op, m: nat) -> Op {
    match op {
        Op::Retain(n) => Op::Retain((n - m) as nat),
        Op::Delete(n) => Op::Delete((n - m) as nat),
        Op::Insert(s) => Op::Insert(s.skip(m as int)),
    }
}

spec fn op_size(op: Op) -> nat {
    match op {
        Op::Retain(n) => n,
        Op::Delete(n) => n,
        Op::Insert(s) => s.len(),
    }
}

/// The steps without the first `m` characters of the first one.
spec fn ops_rest(ops: Seq<Op>, m: nat) -> Seq<Op> {
    if op_size(ops[0]) == m {
        ops.drop_first()
    } else {
        cons(op_rest(ops[0], m), ops.drop_first())
    }
}

spec fn rest_after(a: Seq<Op>, b: Seq<Op>, m: nat) -> (Seq<Op>, Seq<Op>) {
    (ops_rest(a, m), ops_rest(b, m))
}

proof fn lemma_rest(a: Seq<Op>, b: Seq<Op>, m: nat)
    requires
        a.len() > 0,
        b.len() > 0,
        m <= op_size(a[0]),
        m <= op_size(b[0]),
        m == op_size(a[0]) || m == op_size(b[0]),
    ensures
        ({
            let (na, nb) = rest_after(a, b, m);
            &&& length_before(na) == length_before(a) - (if a[0] is Insert {
                0
            } else {
                m as int
            })
            &&& length_after(na) == length_after(a) - (if a[0] is Delete {
                0
            } else {
                m as int
            })
            &&& length_before(nb) == length_before(b) - (if b[0] is Insert {
                0
            } else {
                m as int
            })
            &&& length_after(nb) == length_after(b) - (if b[0] is Delete {
                0
            } else {
                m as int
            })
            &&& na.len() + nb.len() < a.len() + b.len()
            &&& na.len() <= a.len()
            &&& nb.len() <= b.len()
        }),
{
    lemma_cons(op_rest(a[0], m), a.drop_first());
    lemma_cons(op_rest(b[0], m), b.drop_first());
}

/// Dropping a first step with nothing left to do changes nothing.
proof fn lemma_head_gone(ops: Seq<Op>, doc: Seq<char>, m: nat, rest: Seq<Op>)
    requires
        ops.len() > 0,
        m <= op_size(ops[0]),
        rest == ops_rest(ops, m),
    ensures
        forall|d: Seq<char>| #[trigger]
            applied(cons(op_rest(ops[0], m), ops.drop_first()), d) == applied(rest, d),
{
    assert forall|d: Seq<char>| #[trigger]
        applied(cons(op_rest(ops[0], m), ops.drop_first()), d) == applied(rest, d) by {
        lemma_applied_cons(op_rest(ops[0], m), ops.drop_first(), d);
        if op_size(ops[0]) == m {
            assert(d.skip(0) =~= d);
            assert(d.take(0) + applied(rest, d) =~= applied(rest, d));
            match ops[0] {
                Op::Insert(s) => {
                    assert(s.skip(m as int) + applied(rest, d) =~= applied(rest, d));
                },
                _ => {},
            }
        }
    }
}

/// A change to a text of known length.
#[derive(Debug)]
pub struct ChangeSet {
    pub changes: Vec<Operation>,
    /// The length of the text before the change, in characters.
    pub len: usize,
    /// The length of the text after the change, in characters.
    pub len_after: usize,
}

impl ChangeSet {
    /// The lengths are those of the steps.
    pub open spec fn wf(self) -> bool {
        &&& self.len == length_before(op_views(self.changes@))
        &&& self.len_after == length_after(op_views(self.changes@))
    }

    /// The text that the change makes of `doc`.
    pub open spec fn apply_to(self, doc: Seq<char>) -> Seq<char> {
        applied(op_views(self.changes@), doc)
    }
}

impl Clone for ChangeSet {
    fn clone(&self) -> (r: Self)
        ensures
            op_views(r.changes@) == op_views(self.changes@),
            r.len == self.len,
            r.len_after == self.len_after,
    {
        let mut changes: Vec<Operation> = Vec::new();
        let mut i: usize = 0;
        while i < self.changes.len()
            invariant
                i <= self.changes@.len(),
                changes@.len() == i,
                forall|k: int| 0 <= k < i ==> (#[trigger] changes@[k])@ == self.changes@[k]@,
            decreases self.changes@.len() - i,
        {
            changes.push(self.changes[i].clone());
            i = i + 1;
        }
        assert(op_views(changes@) =~= op_views(self.changes@));
        ChangeSet { changes, len: self.len, len_after: self.len_after }
    }
}

/// A change, and the selection that goes with it.
#[derive(Debug)]
pub struct Transaction {
    pub changes: ChangeSet,
    pub selection: Option<Selection>,
}

impl Clone for Transaction {
    fn clone(&self) -> (r: Self)
        ensures
            r.same(*self),
    {
        Transaction {
            changes: self.changes.clone(),
            selection: match &self.selection {
                Some(s) => Some(s.clone()),
                None => None,
            },
        }
    }
}

/// Whether two optional selections are the same.
pub open spec fn same_selection(a: Option<Selection>, b: Option<Selection>) -> bool {
    match (a, b) {
        (Some(x), Some(y)) => x@ == y@,
        (None, None) => true,
        _ => false,
    }
}

impl Transaction {
    /// Whether two transactions hold the same change and selection.
    pub open spec fn same(self, other: Transaction) -> bool {
        &&& op_views(self.changes.changes@) == op_views(other.changes.changes@)
        &&& self.changes.len == other.changes.len
        &&& self.changes.len_after == other.changes.len_after
        &&& same_selection(self.selection, other.selection)
    }

    /// Puts two transactions together: first `self`, then `other`, whose selection counts.
    pub fn compose(self, other: Transaction) -> (r: Transaction)
        requires
            self.changes.wf(),
            other.changes.wf(),
            self.changes.len_after == other.changes.len,
        ensures
            r.changes.wf(),
            r.changes.len == self.changes.len,
            r.changes.len_after == other.changes.len_after,
            op_views(r.changes.changes@) == composed(
                op_views(self.changes.changes@),
                op_views(other.changes.changes@),
            ),
            forall|doc: Seq<char>|
                doc.len() == self.changes.len ==> #[trigger] r.changes.apply_to(doc)
                    == other.changes.apply_to(self.changes.apply_to(doc)),
            same_selection(r.selection, other.selection),
    {
        let ghost a = op_views(self.changes.changes@);
        let ghost b = op_views(other.changes.changes@);
        let len: usize = self.changes.len;
        let len_after: usize = other.changes.len_after;
        let changes = compose_operations(self.changes.changes, other.changes.changes);
        proof {
            assert forall|doc: Seq<char>| doc.len() == len implies applied(composed(a, b), doc)
                == applied(b, applied(a, doc)) by {
                law_compose(a, b, doc);
            }
            law_compose(a, b, Seq::new(len as nat, |i: int| ' '));
        }
        Transaction { changes: ChangeSet { changes, len, len_after }, selection: other.selection }
    }
}

proof fn lemma_skip_cons(v: Seq<Op>, i: int)
    requires
        0 <= i < v.len(),
    ensures
        v.skip(i) == cons(v[i], v.skip(i + 1)),
        v.skip(i).drop_first() == v.skip(i + 1),
{
    assert(v.skip(i) =~= cons(v[i], v.skip(i + 1)));
    assert(v.skip(i).drop_first() =~= v.skip(i + 1));
}

/// The steps from a partly done one on.
spec fn pending(head: Option<Operation>, v: Seq<Op>, i: int) -> Seq<Op> {
    match head {
        Some(op) => cons(op@, v.skip(i)),
        None => v.skip(i),
    }
}

/// The next step: the rest of the last one, or a new one from the list.
fn next_op(head: Option<Operation>, v: &Vec<Operation>, i: &mut usize) -> (r: Option<Operation>)
    requires
        *old(i) <= v@.len(),
    ensures
        *old(i) <= *final(i) <= v@.len(),
        pending(r, op_views(v@), *final(i) as int) == pending(head, op_views(v@), *old(i) as int),
        r is None ==> *final(i) == v@.len(),
        r is None ==> pending(head, op_views(v@), *old(i) as int).len() == 0,
{
    match head {
        Some(op) => Some(op),
        None => if *i < v.len() {
            let op = v[*i].clone();
            proof {
                lemma_skip_cons(op_views(v@), *i as int);
            }
            *i = *i + 1;
            Some(op)
        } else {
            None
        },
    }
}

fn chars_before(s: &String, n: usize) -> (r: String)
    requires
        n <= s@.len(),
    ensures
        r@ == s@.take(n as int),
{
    let r = s.as_str().substring_char(0, n).to_owned();
    assert(r@ =~= s@.take(n as int));
    r
}

fn chars_behind(s: &String, n: usize) -> (r: String)
    requires
        n <= s@.len(),
    ensures
        r@ == s@.skip(n as int),
{
    let len: usize = s.as_str().unicode_len();
    let r = s.as_str().substring_char(n, len).to_owned();
    assert(r@ =~= s@.skip(n as int));
    r
}

fn push_op(out: &mut Vec<Operation>, op: Operation)
    ensures
        op_views(final(out)@) == op_views(old(out)@).push(op@),
{
    let ghost prev = out@;
    out.push(op);
    assert(op_views(out@) =~= op_views(prev).push(op@));
}

proof fn lemma_push_cons(out: Seq<Op>, op: Op, rest: Seq<Op>)
    ensures
        out + cons(op, rest) == out.push(op) + rest,
{
    assert(out + cons(op, rest) =~= out.push(op) + rest);
}

/// One list of steps for two.
#[verifier::rlimit(60)]
fn compose_operations(first: Vec<Operation>, second: Vec<Operation>) -> (r: Vec<Operation>)
    ensures
        op_views(r@) == composed(op_views(first@), op_views(second@)),
{
    let ghost a = op_views(first@);
    let ghost b = op_views(second@);
    let mut out: Vec<Operation> = Vec::new();
    let mut i: usize = 0;
    let mut j: usize = 0;
    let mut head_a: Option<Operation> = None;
    let mut head_b: Option<Operation> = None;
    proof {
        assert(a.skip(0) =~= a);
        assert(b.skip(0) =~= b);
        assert(op_views(out@) =~= Seq::empty());
        assert(op_views(out@) + composed(a, b) =~= composed(a, b));
    }
    loop
        invariant
            a == op_views(first@),
            b == op_views(second@),
            i <= first@.len(),
            j <= second@.len(),
            op_views(out@) + composed(
                pending(head_a, a, i as int),
                pending(head_b, b, j as int),
            ) == composed(a, b),
        ensures
            op_views(out@) == composed(a, b),
        decreases
                length_before(pending(head_a, a, i as int)) + length_after(
                    pending(head_a, a, i as int),
                ) + length_before(pending(head_b, b, j as int)) + length_after(
                    pending(head_b, b, j as int),
                ),
                pending(head_a, a, i as int).len() + pending(head_b, b, j as int).len(),
    {
        let ghost pa = pending(head_a, a, i as int);
        let ghost pb = pending(head_b, b, j as int);
        let ghost before = op_views(out@);
        let next_a = next_op(head_a, &first, &mut i);
        let next_b = next_op(head_b, &second, &mut j);
        let ghost ra = a.skip(i as int);
        let ghost rb = b.skip(j as int);
        head_a = None;
        head_b = None;
        match (next_a, next_b) {
            (None, None) => {
                assert(composed(pa, pb) == pb);
                assert(op_views(out@) =~= composed(a, b));
                break;
            },
            (None, Some(y)) => {
                proof {
                    lemma_cons(y@, rb);
                    lemma_push_cons(before, y@, rb);
                    assert(composed(a.skip(i as int), rb) == rb);
                }
                push_op(&mut out, y);
            },
            (Some(x), None) => {
                proof {
                    lemma_cons(x@, ra);
                    lemma_push_cons(before, x@, ra);
                    assert(composed(ra, b.skip(j as int)) == ra) by {
                        if ra.len() == 0 {
                            assert(b.skip(j as int) =~= ra);
                        }
                    }
                }
                push_op(&mut out, x);
            },
            (Some(x), Some(y)) => {
                proof {
                    lemma_cons(x@, ra);
                    lemma_cons(y@, rb);
                }
                match (x, y) {
                    (Operation::Delete(n), y) => {
                        push_op(&mut out, Operation::Delete(n));
                        head_b = Some(y);
                        proof {
                            lemma_push_cons(before, Op::Delete(n as nat), composed(ra, pb));
                        }
                    },
                    (x, Operation::Insert(s)) => {
                        proof {
                            lemma_push_cons(before, Op::Insert(s@), composed(pa, rb));
                        }
                        push_op(&mut out, Operation::Insert(s));
                        head_a = Some(x);
                    },
                    (Operation::Retain(n), Operation::Retain(m)) => {
                        if n < m {
                            push_op(&mut out, Operation::Retain(n));
                            head_b = Some(Operation::Retain(m - n));
                            proof {
                                lemma_cons(Op::Retain((m - n) as nat), rb);
                                lemma_push_cons(
                                    before,
                                    Op::Retain(n as nat),
                                    composed(ra, pending(head_b, b, j as int)),
                                );
                            }
                        } else if n == m {
                            push_op(&mut out, Operation::Retain(n));
                            proof {
                                lemma_push_cons(before, Op::Retain(n as nat), composed(ra, rb));
                            }
                        } else {
                            push_op(&mut out, Operation::Retain(m));
                            head_a = Some(Operation::Retain(n - m));
                            proof {
                                lemma_cons(Op::Retain((n - m) as nat), ra);
                                lemma_push_cons(
                                    before,
                                    Op::Retain(m as nat),
                                    composed(pending(head_a, a, i as int), rb),
                                );
                            }
                        }
                    },
                    (Operation::Retain(n), Operation::Delete(m)) => {
                        if n < m {
                            push_op(&mut out, Operation::Delete(n));
                            head_b = Some(Operation::Delete(m - n));
                            proof {
                                lemma_cons(Op::Delete((m - n) as nat), rb);
                                lemma_push_cons(
                                    before,
                                    Op::Delete(n as nat),
                                    composed(ra, pending(head_b, b, j as int)),
                                );
                            }
                        } else if n == m {
                            push_op(&mut out, Operation::Delete(n));
                            proof {
                                lemma_push_cons(before, Op::Delete(n as nat), composed(ra, rb));
                            }
                        } else {
                            push_op(&mut out, Operation::Delete(m));
                            head_a = Some(Operation::Retain(n - m));
                            proof {
                                lemma_cons(Op::Retain((n - m) as nat), ra);
                                lemma_push_cons(
                                    before,
                                    Op::Delete(m as nat),
                                    composed(pending(head_a, a, i as int), rb),
                                );
                            }
                        }
                    },
                    (Operation::Insert(s), Operation::Retain(m)) => {
                        let n: usize = s.as_str().unicode_len();
                        if n < m {
                            head_b = Some(Operation::Retain(m - n));
                            proof {
                                lemma_cons(Op::Retain((m - n) as nat), rb);
                                lemma_push_cons(
                                    before,
                                    Op::Insert(s@),
                                    composed(ra, pending(head_b, b, j as int)),
                                );
                            }
                            push_op(&mut out, Operation::Insert(s));
                        } else if n == m {
                            proof {
                                lemma_push_cons(before, Op::Insert(s@), composed(ra, rb));
                            }
                            push_op(&mut out, Operation::Insert(s));
                        } else {
                            push_op(&mut out, Operation::Insert(chars_before(&s, m)));
                            head_a = Some(Operation::Insert(chars_behind(&s, m)));
                            proof {
                                lemma_cons(Op::Insert(s@.skip(m as int)), ra);
                                lemma_push_cons(
                                    before,
                                    Op::Insert(s@.take(m as int)),
                                    composed(pending(head_a, a, i as int), rb),
                                );
                            }
                        }
                    },
                    (Operation::Insert(s), Operation::Delete(m)) => {
                        let n: usize = s.as_str().unicode_len();
                        if n < m {
                            head_b = Some(Operation::Delete(m - n));
                            proof {
                                lemma_cons(Op::Delete((m - n) as nat), rb);
                            }
                        } else if n > m {
                            head_a = Some(Operation::Insert(chars_behind(&s, m)));
                            proof {
                                lemma_cons(Op::Insert(s@.skip(m as int)), ra);
                            }
                        }
                    },
                }
            },
        }
    }
    out
}

/// Each step of a change does its own thing at its place: to keep, to take away and to put in. So a
/// change that keeps what stands before a range and after it, and takes the range away and puts a
/// text in, replaces the range by the text.
pub proof fn law_replacing_a_range(doc: Seq<char>, from: nat, to: nat, text: Seq<char>)
    requires
        from <= to <= doc.len(),
    ensures
        ({
            let change = seq![
                Op::Retain(from),
                Op::Delete((to - from) as nat),
                Op::Insert(text),
                Op::Retain((doc.len() - to) as nat),
            ];
            &&& applied(change, doc) == doc.take(from as int) + text + doc.skip(to as int)
            &&& length_before(change) == doc.len()
            &&& length_after(change) == from + text.len() + (doc.len() - to)
        }),
{
    let keep = Op::Retain((doc.len() - to) as nat);
    let put = Op::Insert(text);
    let drop = Op::Delete((to - from) as nat);
    let first = Op::Retain(from);
    let c1 = seq![keep];
    let c2 = seq![put, keep];
    let c3 = seq![drop, put, keep];
    let c4 = seq![first, drop, put, keep];
    let none: Seq<Op> = Seq::empty();
    assert(c4.drop_first() =~= c3);
    assert(c3.drop_first() =~= c2);
    assert(c2.drop_first() =~= c1);
    assert(c1.drop_first() =~= none);
    let tail = doc.skip(to as int);
    assert(doc.skip(from as int).skip((to - from) as int) =~= tail);
    assert(tail.take(tail.len() as int) =~= tail);
    assert(tail.skip(tail.len() as int) =~= Seq::empty());
    reveal_with_fuel(applied, 5);
    reveal_with_fuel(length_before, 5);
    reveal_with_fuel(length_after, 5);
    assert(applied(c1, tail) =~= tail);
    assert(applied(c2, tail) =~= text + tail);
    assert(applied(c4, doc) =~= doc.take(from as int) + text + tail);
}

/// A change makes a text of the length that it says of one of the length that it says.
pub proof fn law_change_tells_the_length(ops: Seq<Op>, doc: Seq<char>)
    requires
        doc.len() == length_before(ops),
    ensures
        applied(ops, doc).len() == length_after(ops),
{
    lemma_applied_len(ops, doc);
}

} // verus!
