//! An in-memory model of the hierarchical, transactional key-value store.
//!
//! The store is a tree of nodes; each node holds named scalar values and
//! named child nodes. Nodes live in one arena, addressed by index; node 0 is
//! the root. A transaction works on a private copy of the tree: every write
//! lands in that copy, and only [`Store::commit`] makes it the observable
//! committed state. Discarding a transaction without committing leaves the
//! committed state untouched.
//!
//! Writes into a node are kept as an append-only log of `(name, value)`
//! entries; the binding of a name is the last entry for it, which
//! [`lookup_val`] and [`lookup_kid`] make precise.

use vstd::prelude::*;

use crate::scalar::ScalarV;
use crate::scalar::ScalarValue;

verus! {

/// One container in the store: named scalar values and named child nodes,
/// each as an append-only log where the last entry for a name wins.
pub struct Node {
    pub vals: Vec<(String, ScalarValue)>,
    pub kids: Vec<(String, usize)>,
}

/// The model of a node: the same two logs, with names and scalars abstracted
/// to their views.
pub struct NodeV {
    pub vals: Seq<(Seq<char>, ScalarV)>,
    pub kids: Seq<(Seq<char>, usize)>,
}

/// The model of a value log.
pub open spec fn vals_view(s: Seq<(String, ScalarValue)>) -> Seq<(Seq<char>, ScalarV)> {
    s.map_values(|p: (String, ScalarValue)| (p.0@, p.1@))
}

/// The model of a child log.
pub open spec fn kids_view(s: Seq<(String, usize)>) -> Seq<(Seq<char>, usize)> {
    s.map_values(|p: (String, usize)| (p.0@, p.1))
}

impl View for Node {
    type V = NodeV;

    open spec fn view(&self) -> NodeV {
        NodeV { vals: vals_view(self.vals@), kids: kids_view(self.kids@) }
    }
}

/// The model of a node arena.
pub open spec fn tree_view(s: Seq<Node>) -> Seq<NodeV> {
    s.map_values(|n: Node| n@)
}

/// The value bound to `name` in the log `s`: the last entry for `name`,
/// if any.
pub open spec fn lookup_val(s: Seq<(Seq<char>, ScalarV)>, name: Seq<char>) -> Option<ScalarV>
    decreases s.len(),
{
    if s.len() == 0 {
        None
    } else if s.last().0 == name {
        Some(s.last().1)
    } else {
        lookup_val(s.drop_last(), name)
    }
}

/// The child node bound to `name` in the log `s`: the last entry for `name`,
/// if any.
pub open spec fn lookup_kid(s: Seq<(Seq<char>, usize)>, name: Seq<char>) -> Option<usize>
    decreases s.len(),
{
    if s.len() == 0 {
        None
    } else if s.last().0 == name {
        Some(s.last().1)
    } else {
        lookup_kid(s.drop_last(), name)
    }
}

/// A well-formed tree: nonempty (node 0 is the root) and every recorded
/// child index points into the arena.
pub open spec fn wf_tree(t: Seq<NodeV>) -> bool {
    &&& t.len() >= 1
    &&& forall|i: int, j: int|
        0 <= i < t.len() && 0 <= j < t[i].kids.len() ==> (#[trigger] t[i].kids[j]).1 < t.len()
}

/// Every child index that [`lookup_kid`] can return is one recorded in the
/// log, so it respects any bound the log's entries respect.
pub proof fn lemma_lookup_kid_bound(s: Seq<(Seq<char>, usize)>, name: Seq<char>, b: int)
    requires
        forall|j: int| 0 <= j < s.len() ==> (#[trigger] s[j]).1 < b,
    ensures
        lookup_kid(s, name) matches Some(k) ==> k < b,
    decreases s.len(),
{
    if s.len() > 0 && s.last().0 != name {
        lemma_lookup_kid_bound(s.drop_last(), name, b);
    }
}

/// Appending an entry to a value log appends its view to the log's view.
pub proof fn lemma_vals_view_push(s: Seq<(String, ScalarValue)>, q: (String, ScalarValue))
    ensures
        vals_view(s.push(q)) == vals_view(s).push((q.0@, q.1@)),
{
    assert(vals_view(s.push(q)) =~= vals_view(s).push((q.0@, q.1@)));
}

/// Appending an entry to a child log appends its view to the log's view.
pub proof fn lemma_kids_view_push(s: Seq<(String, usize)>, q: (String, usize))
    ensures
        kids_view(s.push(q)) == kids_view(s).push((q.0@, q.1)),
{
    assert(kids_view(s.push(q)) =~= kids_view(s).push((q.0@, q.1)));
}

/// Appending a node to an arena appends its view to the arena's view.
pub proof fn lemma_tree_view_push(s: Seq<Node>, n: Node)
    ensures
        tree_view(s.push(n)) == tree_view(s).push(n@),
{
    assert(tree_view(s.push(n)) =~= tree_view(s).push(n@));
}

/// Replacing a node in an arena replaces its view in the arena's view.
pub proof fn lemma_tree_view_update(s: Seq<Node>, k: int, n: Node)
    requires
        0 <= k < s.len(),
    ensures
        tree_view(s.update(k, n)) == tree_view(s).update(k, n@),
{
    assert(tree_view(s.update(k, n)) =~= tree_view(s).update(k, n@));
}

fn find_kid(kids: &Vec<(String, usize)>, name: &String) -> (r: Option<usize>)
    ensures
        r == lookup_kid(kids_view(kids@), name@),
{
    let ghost kv = kids_view(kids@);
    let mut i: usize = kids.len();
    proof {
        assert(kv.take(i as int) =~= kv);
    }
    while i > 0
        invariant
            i <= kids.len(),
            kv == kids_view(kids@),
            lookup_kid(kv, name@) == lookup_kid(kv.take(i as int), name@),
        decreases i,
    {
        i = i - 1;
        proof {
            assert(kv.take(i + 1).last() == kv[i as int]);
            assert(kv[i as int] == (kids@[i as int].0@, kids@[i as int].1));
            assert(kv.take(i + 1).drop_last() =~= kv.take(i as int));
        }
        if kids[i].0.eq(name) {
            return Some(kids[i].1);
        }
    }
    proof {
        assert(kv.take(0) =~= Seq::<(Seq<char>, usize)>::empty());
    }
    None
}

fn find_val<'a>(vals: &'a Vec<(String, ScalarValue)>, name: &String) -> (r: Option<
    &'a ScalarValue,
>)
    ensures
        match r {
            Some(v) => lookup_val(vals_view(vals@), name@) == Some(v@),
            None => lookup_val(vals_view(vals@), name@) is None,
        },
{
    let ghost vv = vals_view(vals@);
    let mut i: usize = vals.len();
    proof {
        assert(vv.take(i as int) =~= vv);
    }
    while i > 0
        invariant
            i <= vals.len(),
            vv == vals_view(vals@),
            lookup_val(vv, name@) == lookup_val(vv.take(i as int), name@),
        decreases i,
    {
        i = i - 1;
        proof {
            assert(vv.take(i + 1).last() == vv[i as int]);
            assert(vv[i as int] == (vals@[i as int].0@, vals@[i as int].1@));
            assert(vv.take(i + 1).drop_last() =~= vv.take(i as int));
        }
        if vals[i].0.eq(name) {
            return Some(&vals[i].1);
        }
    }
    proof {
        assert(vv.take(0) =~= Seq::<(Seq<char>, ScalarV)>::empty());
    }
    None
}

/// Why a store operation was refused: the handle it was given does not
/// belong to this store.
#[derive(Debug, PartialEq, Eq, Structural, Clone, Copy)]
pub enum StoreError {
    /// The transaction handle names no transaction of this store.
    BadTransaction,
    /// The node index points outside the tree the operation works on.
    BadNode,
}

/// An atomic unit of work against the store. It is only a capability: the
/// writes buffered under it live in the store, and [`Store::commit`] consumes
/// the handle to make them the committed state. Dropping the handle without
/// committing leaves the committed state unchanged.
pub struct Transaction {
    idx: usize,
}

impl Transaction {
    /// Which of the store's work trees this transaction writes to.
    pub closed spec fn id(&self) -> int {
        self.idx as int
    }

    /// The transaction's slot number, equal to [`Transaction::id`].
    pub fn slot(&self) -> (i: usize)
        ensures
            i as int == self.id(),
    {
        self.idx
    }
}

/// The hierarchical, transactional key-value store: the committed tree, and
/// one work tree per transaction ever begun. A work tree starts as a copy of
/// the committed tree; writes only ever touch work trees, and only
/// [`Store::commit`] replaces the committed tree with a work tree.
pub struct Store {
    pub base: Vec<Node>,
    pub txs: Vec<Vec<Node>>,
}

/// The model of a store: the committed tree and the work trees.
pub struct StoreV {
    pub base: Seq<NodeV>,
    pub txs: Seq<Seq<NodeV>>,
}

/// The model of the collection of work trees.
pub open spec fn txs_view(s: Seq<Vec<Node>>) -> Seq<Seq<NodeV>> {
    s.map_values(|w: Vec<Node>| tree_view(w@))
}

/// Appending a work tree appends its view.
pub proof fn lemma_txs_view_push(s: Seq<Vec<Node>>, w: Vec<Node>)
    ensures
        txs_view(s.push(w)) == txs_view(s).push(tree_view(w@)),
{
    assert(txs_view(s.push(w)) =~= txs_view(s).push(tree_view(w@)));
}

/// Replacing a work tree replaces its view.
pub proof fn lemma_txs_view_update(s: Seq<Vec<Node>>, k: int, w: Vec<Node>)
    requires
        0 <= k < s.len(),
    ensures
        txs_view(s.update(k, w)) == txs_view(s).update(k, tree_view(w@)),
{
    assert(txs_view(s.update(k, w)) =~= txs_view(s).update(k, tree_view(w@)));
}

impl View for Store {
    type V = StoreV;

    open spec fn view(&self) -> StoreV {
        StoreV { base: tree_view(self.base@), txs: txs_view(self.txs@) }
    }
}

impl Store {
    /// A well-formed store: the committed tree and every work tree are
    /// well-formed.
    pub open spec fn wf(&self) -> bool {
        &&& wf_tree(self@.base)
        &&& forall|t: int| 0 <= t < self@.txs.len() ==> wf_tree(#[trigger] self@.txs[t])
    }

    /// A fresh store: one empty root node, no transactions.
    pub fn new() -> (s: Store)
        ensures
            s.wf(),
            s@.base.len() == 1,
            s@.base[0].vals == Seq::<(Seq<char>, ScalarV)>::empty(),
            s@.base[0].kids == Seq::<(Seq<char>, usize)>::empty(),
            s@.txs == Seq::<Seq<NodeV>>::empty(),
    {
        let root = Node { vals: Vec::new(), kids: Vec::new() };
        let mut base: Vec<Node> = Vec::new();
        base.push(root);
        let s = Store { base, txs: Vec::new() };
        proof {
            assert(s@.base =~= seq![s.base@[0]@]);
            assert(s@.txs =~= Seq::<Seq<NodeV>>::empty());
        }
        s
    }
}

fn clone_vals(v: &Vec<(String, ScalarValue)>) -> (r: Vec<(String, ScalarValue)>)
    ensures
        vals_view(r@) == vals_view(v@),
{
    let mut r: Vec<(String, ScalarValue)> = Vec::new();
    let mut i: usize = 0;
    while i < v.len()
        invariant
            i <= v.len(),
            vals_view(r@) == vals_view(v@).subrange(0, i as int),
        decreases v.len() - i,
    {
        let ghost r0 = r@;
        let p = &v[i];
        let q = (p.0.clone(), p.1.clone());
        let ghost q0 = q;
        r.push(q);
        i = i + 1;
        proof {
            lemma_vals_view_push(r0, q0);
            assert((q0.0@, q0.1@) == vals_view(v@)[i - 1]);
            assert(vals_view(v@).subrange(0, i - 1).push(vals_view(v@)[i - 1]) =~= vals_view(
                v@,
            ).subrange(0, i as int));
        }
    }
    proof {
        assert(vals_view(v@).subrange(0, v@.len() as int) =~= vals_view(v@));
    }
    r
}

fn clone_kids(v: &Vec<(String, usize)>) -> (r: Vec<(String, usize)>)
    ensures
        kids_view(r@) == kids_view(v@),
{
    let mut r: Vec<(String, usize)> = Vec::new();
    let mut i: usize = 0;
    while i < v.len()
        invariant
            i <= v.len(),
            kids_view(r@) == kids_view(v@).subrange(0, i as int),
        decreases v.len() - i,
    {
        let ghost r0 = r@;
        let p = &v[i];
        let q = (p.0.clone(), p.1);
        let ghost q0 = q;
        r.push(q);
        i = i + 1;
        proof {
            lemma_kids_view_push(r0, q0);
            assert((q0.0@, q0.1) == kids_view(v@)[i - 1]);
            assert(kids_view(v@).subrange(0, i - 1).push(kids_view(v@)[i - 1]) =~= kids_view(
                v@,
            ).subrange(0, i as int));
        }
    }
    proof {
        assert(kids_view(v@).subrange(0, v@.len() as int) =~= kids_view(v@));
    }
    r
}

impl Clone for Node {
    fn clone(&self) -> (res: Self)
        ensures
            res@ == self@,
    {
        Node { vals: clone_vals(&self.vals), kids: clone_kids(&self.kids) }
    }
}

fn clone_tree(v: &Vec<Node>) -> (r: Vec<Node>)
    ensures
        tree_view(r@) == tree_view(v@),
{
    let mut r: Vec<Node> = Vec::new();
    let mut i: usize = 0;
    while i < v.len()
        invariant
            i <= v.len(),
            tree_view(r@) == tree_view(v@).subrange(0, i as int),
        decreases v.len() - i,
    {
        let ghost r0 = r@;
        let n = v[i].clone();
        let ghost n0 = n;
        r.push(n);
        i = i + 1;
        proof {
            lemma_tree_view_push(r0, n0);
            assert(n0@ == tree_view(v@)[i - 1]);
            assert(tree_view(v@).subrange(0, i - 1).push(tree_view(v@)[i - 1]) =~= tree_view(
                v@,
            ).subrange(0, i as int));
        }
    }
    proof {
        assert(tree_view(v@).subrange(0, v@.len() as int) =~= tree_view(v@));
    }
    r
}

impl Store {
    /// Begin a transaction: take a private copy of the committed tree as the
    /// new work tree. The committed state is untouched; an in-memory store
    /// never refuses to begin.
    pub fn begin_transaction(&mut self) -> (tx: Transaction)
        requires
            old(self).wf(),
        ensures
            final(self).wf(),
            tx.id() == old(self)@.txs.len(),
            final(self)@.base == old(self)@.base,
            final(self)@.txs == old(self)@.txs.push(old(self)@.base),
    {
        let idx = self.txs.len();
        let work = clone_tree(&self.base);
        let ghost w0 = work;
        self.txs.push(work);
        proof {
            lemma_txs_view_push(old(self).txs@, w0);
            assert(self@.txs == old(self)@.txs.push(old(self)@.base));
            assert forall|t: int| 0 <= t < self@.txs.len() implies wf_tree(
                #[trigger] self@.txs[t],
            ) by {
                if t < old(self)@.txs.len() {
                    assert(self@.txs[t] == old(self)@.txs[t]);
                } else {
                    assert(self@.txs[t] == old(self)@.base);
                }
            }
        }
        Transaction { idx }
    }

    /// Commit a transaction: the committed tree becomes the transaction's
    /// work tree, all of its buffered writes at once. Consumes the handle,
    /// so a committed transaction can never be written to or committed
    /// again. Refused only for a handle that names no transaction of this
    /// store.
    pub fn commit(&mut self, tx: Transaction) -> (r: Result<(), StoreError>)
        requires
            old(self).wf(),
        ensures
            final(self).wf(),
            final(self)@.txs == old(self)@.txs,
            tx.id() < old(self)@.txs.len() ==> r == Ok::<(), StoreError>(())
                && final(self)@.base == old(self)@.txs[tx.id()],
            tx.id() >= old(self)@.txs.len() ==> r == Err::<(), StoreError>(
                StoreError::BadTransaction,
            ) && *final(self) == *old(self),
    {
        let i = tx.slot();
        if i >= self.txs.len() {
            return Err(StoreError::BadTransaction);
        }
        let work = clone_tree(&self.txs[i]);
        self.base = work;
        proof {
            assert(old(self)@.txs[i as int] == tree_view(old(self).txs@[i as int]@));
            assert(self@.txs == old(self)@.txs);
        }
        Ok(())
    }

    /// Buffer a scalar write: bind `value` to `name` inside node `node` of
    /// transaction `t`'s work tree. Nothing is observable in the committed
    /// state until the transaction commits. Refused exactly when the handles
    /// do not name a transaction or a node of its work tree.
    pub fn set_value(&mut self, t: usize, node: usize, name: &String, value: ScalarValue) -> (r:
        Result<(), StoreError>)
        requires
            old(self).wf(),
        ensures
            final(self).wf(),
            final(self)@.base == old(self)@.base,
            final(self)@.txs.len() == old(self)@.txs.len(),
            forall|u: int|
                0 <= u < old(self)@.txs.len() && u != t as int ==> final(self)@.txs[u] == old(
                    self,
                )@.txs[u],
            t as int >= old(self)@.txs.len() ==> r == Err::<(), StoreError>(
                StoreError::BadTransaction,
            ) && *final(self) == *old(self),
            (t as int) < old(self)@.txs.len() && node as int >= old(self)@.txs[t as int].len()
                ==> r == Err::<(), StoreError>(StoreError::BadNode) && *final(self) == *old(self),
            (t as int) < old(self)@.txs.len() && (node as int) < old(self)@.txs[t as int].len()
                ==> r == Ok::<(), StoreError>(()) && final(self)@.txs[t as int] == old(
                self,
            )@.txs[t as int].update(
                node as int,
                (NodeV {
                    vals: old(self)@.txs[t as int][node as int].vals.push((name@, value@)),
                    kids: old(self)@.txs[t as int][node as int].kids,
                }),
            ),
    {
        if t >= self.txs.len() {
            return Err(StoreError::BadTransaction);
        }
        if node >= self.txs[t].len() {
            return Err(StoreError::BadNode);
        }
        let ghost txs0 = self.txs@;
        let ghost w0 = self.txs@[t as int]@;
        let work = &mut self.txs[t];
        let node_ref = &mut work[node];
        let ghost n0 = *node_ref;
        let q = (name.clone(), value);
        let ghost q0 = q;
        node_ref.vals.push(q);
        proof {
            let wf_vec = self.txs@[t as int];
            assert(self.txs@ == txs0.update(t as int, wf_vec));
            lemma_txs_view_update(txs0, t as int, wf_vec);
            let nf = wf_vec@[node as int];
            assert(wf_vec@ == w0.update(node as int, nf));
            lemma_tree_view_update(w0, node as int, nf);
            lemma_vals_view_push(n0.vals@, q0);
            assert(old(self)@.txs[t as int] == tree_view(w0));
            assert(old(self)@.txs[t as int][node as int] == n0@);
            assert(nf@.vals == vals_view(n0.vals@).push((name@, value@)));
            assert(nf@.kids == n0@.kids);
            assert(self@.txs[t as int] == old(self)@.txs[t as int].update(
                node as int,
                (NodeV {
                    vals: old(self)@.txs[t as int][node as int].vals.push((name@, value@)),
                    kids: old(self)@.txs[t as int][node as int].kids,
                }),
            ));
            assert forall|u: int| 0 <= u < self@.txs.len() implies wf_tree(
                #[trigger] self@.txs[u],
            ) by {
                if u == t as int {
                    let wold = old(self)@.txs[u];
                    let wnew = self@.txs[u];
                    assert(wf_tree(wold));
                    assert forall|i2: int, j2: int|
                        0 <= i2 < wnew.len() && 0 <= j2 < wnew[i2].kids.len() implies (
                        #[trigger] wnew[i2].kids[j2]).1 < wnew.len() by {
                        if i2 == node as int {
                            assert(wnew[i2].kids == wold[i2].kids);
                        } else {
                            assert(wnew[i2] == wold[i2]);
                        }
                    }
                } else {
                    assert(self@.txs[u] == old(self)@.txs[u]);
                }
            }
        }
        Ok(())
    }

    /// Open the child of `parent` named `name` in transaction `t`'s work
    /// tree, creating it empty when it does not exist, and return its node
    /// index. Creation is buffered like any other write. Refused exactly
    /// when the handles do not name a transaction or a node of its work
    /// tree.
    pub fn open_or_create(&mut self, t: usize, parent: usize, name: &String) -> (r: Result<
        usize,
        StoreError,
    >)
        requires
            old(self).wf(),
        ensures
            final(self).wf(),
            final(self)@.base == old(self)@.base,
            final(self)@.txs.len() == old(self)@.txs.len(),
            forall|u: int|
                0 <= u < old(self)@.txs.len() && u != t as int ==> final(self)@.txs[u] == old(
                    self,
                )@.txs[u],
            t as int >= old(self)@.txs.len() ==> r == Err::<usize, StoreError>(
                StoreError::BadTransaction,
            ) && *final(self) == *old(self),
            (t as int) < old(self)@.txs.len() && parent as int >= old(self)@.txs[t as int].len()
                ==> r == Err::<usize, StoreError>(StoreError::BadNode) && *final(self) == *old(
                self,
            ),
            (t as int) < old(self)@.txs.len() && (parent as int) < old(self)@.txs[t as int].len()
                ==> match lookup_kid(old(self)@.txs[t as int][parent as int].kids, name@) {
                Some(k) => r == Ok::<usize, StoreError>(k) && *final(self) == *old(self) && (
                k as int) < old(self)@.txs[t as int].len(),
                None => r == Ok::<usize, StoreError>(
                    old(self)@.txs[t as int].len() as usize,
                ) && final(self)@.txs[t as int] == old(self)@.txs[t as int].push(
                    (NodeV {
                        vals: Seq::<(Seq<char>, ScalarV)>::empty(),
                        kids: Seq::<(Seq<char>, usize)>::empty(),
                    }),
                ).update(
                    parent as int,
                    (NodeV {
                        vals: old(self)@.txs[t as int][parent as int].vals,
                        kids: old(self)@.txs[t as int][parent as int].kids.push(
                            (name@, old(self)@.txs[t as int].len() as usize),
                        ),
                    }),
                ),
            },
    {
        if t >= self.txs.len() {
            return Err(StoreError::BadTransaction);
        }
        if parent >= self.txs[t].len() {
            return Err(StoreError::BadNode);
        }
        proof {
            assert(old(self)@.txs[t as int] == tree_view(old(self).txs@[t as int]@));
            assert(old(self)@.txs[t as int][parent as int] == old(
                self,
            ).txs@[t as int]@[parent as int]@);
        }
        let found = find_kid(&self.txs[t][parent].kids, name);
        match found {
            Some(k) => {
                proof {
                    let w = old(self)@.txs[t as int];
                    let s = w[parent as int].kids;
                    assert(wf_tree(w));
                    assert forall|j: int| 0 <= j < s.len() implies (#[trigger] s[j]).1
                        < w.len() by {
                        assert(s[j] == w[parent as int].kids[j]);
                    }
                    lemma_lookup_kid_bound(s, name@, w.len() as int);
                }
                Ok(k)
            },
            None => {
                let ghost txs0 = self.txs@;
                let ghost w0 = self.txs@[t as int]@;
                let work = &mut self.txs[t];
                let id = work.len();
                let fresh = Node { vals: Vec::new(), kids: Vec::new() };
                let ghost f0 = fresh;
                work.push(fresh);
                let ghost w1 = work@;
                let parent_ref = &mut work[parent];
                let ghost p0 = *parent_ref;
                let q = (name.clone(), id);
                let ghost q0 = q;
                parent_ref.kids.push(q);
                proof {
                    let wf_vec = self.txs@[t as int];
                    assert(self.txs@ == txs0.update(t as int, wf_vec));
                    lemma_txs_view_update(txs0, t as int, wf_vec);
                    let pf = wf_vec@[parent as int];
                    assert(wf_vec@ == w1.update(parent as int, pf));
                    lemma_tree_view_update(w1, parent as int, pf);
                    lemma_tree_view_push(w0, f0);
                    assert(f0@.vals =~= Seq::<(Seq<char>, ScalarV)>::empty());
                    assert(f0@.kids =~= Seq::<(Seq<char>, usize)>::empty());
                    lemma_kids_view_push(p0.kids@, q0);
                    assert(p0 == w1[parent as int]);
                    assert(p0 == w0[parent as int]);
                    assert(p0@ == tree_view(w0)[parent as int]);
                    assert(pf@.vals == p0@.vals);
                    assert(pf@.kids == p0@.kids.push((name@, id)));
                    let wold = old(self)@.txs[t as int];
                    assert(wold == tree_view(w0));
                    assert(id == wold.len());
                    assert(self@.txs[t as int] == wold.push(
                        (NodeV {
                            vals: Seq::<(Seq<char>, ScalarV)>::empty(),
                            kids: Seq::<(Seq<char>, usize)>::empty(),
                        }),
                    ).update(
                        parent as int,
                        (NodeV {
                            vals: wold[parent as int].vals,
                            kids: wold[parent as int].kids.push((name@, wold.len() as usize)),
                        }),
                    ));
                    assert forall|u: int| 0 <= u < self@.txs.len() implies wf_tree(
                        #[trigger] self@.txs[u],
                    ) by {
                        if u == t as int {
                            let wnew = self@.txs[u];
                            assert(wf_tree(wold));
                            assert(wnew.len() == wold.len() + 1);
                            assert forall|i2: int, j2: int|
                                0 <= i2 < wnew.len() && 0 <= j2 < wnew[i2].kids.len() implies (
                            #[trigger] wnew[i2].kids[j2]).1 < wnew.len() by {
                                if i2 == parent as int {
                                    if j2 < wold[i2].kids.len() {
                                        assert(wnew[i2].kids[j2] == wold[i2].kids[j2]);
                                    } else {
                                        assert(wnew[i2].kids[j2] == (name@, id));
                                    }
                                } else if i2 < wold.len() {
                                    assert(wnew[i2] == wold[i2]);
                                }
                            }
                        } else {
                            assert(self@.txs[u] == old(self)@.txs[u]);
                        }
                    }
                }
                Ok(id)
            },
        }
    }

    /// The value bound to `name` in node `node` of the committed tree, if
    /// any: what an outside observer of the store sees.
    pub fn get_value<'a>(&'a self, node: usize, name: &String) -> (r: Option<&'a ScalarValue>)
        ensures
            (node as int) < self@.base.len() ==> match r {
                Some(v) => lookup_val(self@.base[node as int].vals, name@) == Some(v@),
                None => lookup_val(self@.base[node as int].vals, name@) is None,
            },
            node as int >= self@.base.len() ==> r is None,
    {
        if node >= self.base.len() {
            return None;
        }
        proof {
            assert(self@.base[node as int] == self.base@[node as int]@);
        }
        find_val(&self.base[node].vals, name)
    }

    /// The child of `node` named `name` in the committed tree, if any.
    pub fn get_child(&self, node: usize, name: &String) -> (r: Option<usize>)
        ensures
            (node as int) < self@.base.len() ==> r == lookup_kid(
                self@.base[node as int].kids,
                name@,
            ),
            node as int >= self@.base.len() ==> r is None,
    {
        if node >= self.base.len() {
            return None;
        }
        proof {
            assert(self@.base[node as int] == self.base@[node as int]@);
        }
        find_kid(&self.base[node].kids, name)
    }

    /// How many transactions have been begun against this store.
    pub fn tx_count(&self) -> (r: usize)
        ensures
            r == self@.txs.len(),
    {
        self.txs.len()
    }

    /// How many nodes the committed tree holds.
    pub fn node_count(&self) -> (r: usize)
        ensures
            r == self@.base.len(),
    {
        self.base.len()
    }

    /// How many value entries node `node` of the committed tree holds; 0 for
    /// a node index outside the tree.
    pub fn value_count(&self, node: usize) -> (r: usize)
        ensures
            (node as int) < self@.base.len() ==> r == self@.base[node as int].vals.len(),
            node as int >= self@.base.len() ==> r == 0,
    {
        if node >= self.base.len() {
            return 0;
        }
        proof {
            assert(self@.base[node as int] == self.base@[node as int]@);
        }
        self.base[node].vals.len()
    }

    /// The value bound to `name` in node `node` of transaction `t`'s work
    /// tree, if any: a buffered write, not yet observable.
    pub fn tx_get_value<'a>(&'a self, t: usize, node: usize, name: &String) -> (r: Option<
        &'a ScalarValue,
    >)
        ensures
            (t as int) < self@.txs.len() && (node as int) < self@.txs[t as int].len() ==> match r {
                Some(v) => lookup_val(self@.txs[t as int][node as int].vals, name@) == Some(v@),
                None => lookup_val(self@.txs[t as int][node as int].vals, name@) is None,
            },
            t as int >= self@.txs.len() || node as int >= self@.txs[t as int].len() ==> r is None,
    {
        if t >= self.txs.len() {
            return None;
        }
        if node >= self.txs[t].len() {
            return None;
        }
        proof {
            assert(self@.txs[t as int] == tree_view(self.txs@[t as int]@));
            assert(self@.txs[t as int][node as int] == self.txs@[t as int]@[node as int]@);
        }
        find_val(&self.txs[t][node].vals, name)
    }

    /// The child of `node` named `name` in transaction `t`'s work tree, if
    /// any.
    pub fn tx_get_child(&self, t: usize, node: usize, name: &String) -> (r: Option<usize>)
        ensures
            (t as int) < self@.txs.len() && (node as int) < self@.txs[t as int].len() ==> r
                == lookup_kid(self@.txs[t as int][node as int].kids, name@),
            t as int >= self@.txs.len() || node as int >= self@.txs[t as int].len() ==> r is None,
    {
        if t >= self.txs.len() {
            return None;
        }
        if node >= self.txs[t].len() {
            return None;
        }
        proof {
            assert(self@.txs[t as int] == tree_view(self.txs@[t as int]@));
            assert(self@.txs[t as int][node as int] == self.txs@[t as int]@[node as int]@);
        }
        find_kid(&self.txs[t][node].kids, name)
    }

    /// How many nodes transaction `t`'s work tree holds; 0 for a handle that
    /// names no transaction of this store.
    pub fn tx_node_count(&self, t: usize) -> (r: usize)
        ensures
            (t as int) < self@.txs.len() ==> r == self@.txs[t as int].len(),
            t as int >= self@.txs.len() ==> r == 0,
    {
        if t >= self.txs.len() {
            return 0;
        }
        proof {
            assert(self@.txs[t as int] == tree_view(self.txs@[t as int]@));
        }
        self.txs[t].len()
    }

    /// How many value entries node `node` of transaction `t`'s work tree
    /// holds; 0 outside the tree.
    pub fn tx_value_count(&self, t: usize, node: usize) -> (r: usize)
        ensures
            (t as int) < self@.txs.len() && (node as int) < self@.txs[t as int].len() ==> r
                == self@.txs[t as int][node as int].vals.len(),
            t as int >= self@.txs.len() || node as int >= self@.txs[t as int].len() ==> r == 0,
    {
        if t >= self.txs.len() {
            return 0;
        }
        if node >= self.txs[t].len() {
            return 0;
        }
        proof {
            assert(self@.txs[t as int] == tree_view(self.txs@[t as int]@));
            assert(self@.txs[t as int][node as int] == self.txs@[t as int]@[node as int]@);
        }
        self.txs[t][node].vals.len()
    }
}

} // verus!
