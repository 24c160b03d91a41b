//! The order of the recursive lister, as a law. A backend namespace is
//! modelled as a tree of entries; the depth-first pre-order walk the lister
//! performs — an entry first, then the whole subtree under it, then its later
//! siblings — is written down as a sequence, and its two ordering guarantees
//! are proved: the walk has exactly one position per node of the tree, and a
//! directory's own position comes before the position of everything under it.

use vstd::prelude::*;

verus! {

/// A backend namespace: a file, or a directory with an ordered sequence of
/// children, each node carrying its path.
pub enum SpecTree {
    File { path: Seq<char> },
    Dir { path: Seq<char>, children: Seq<SpecTree> },
}

impl SpecTree {
    /// The path of the node itself.
    pub open spec fn path(self) -> Seq<char> {
        match self {
            SpecTree::File { path } => path,
            SpecTree::Dir { path, .. } => path,
        }
    }
}

/// The depth-first pre-order walk of one tree: the node's own path, then the
/// walks of its children in order.
pub open spec fn spec_preorder(t: SpecTree) -> Seq<Seq<char>>
    decreases t, 0int,
{
    match t {
        SpecTree::File { path } => seq![path],
        SpecTree::Dir { path, children } => seq![path] + spec_preorder_all(children, 0),
    }
}

/// The concatenated walks of `ts[i..]`.
pub open spec fn spec_preorder_all(ts: Seq<SpecTree>, i: int) -> Seq<Seq<char>>
    decreases ts, ts.len() - i,
{
    if i < 0 || i >= ts.len() {
        Seq::<Seq<char>>::empty()
    } else {
        spec_preorder(ts[i]) + spec_preorder_all(ts, i + 1)
    }
}

/// The number of nodes of one tree.
pub open spec fn spec_node_count(t: SpecTree) -> int
    decreases t, 0int,
{
    match t {
        SpecTree::File { .. } => 1,
        SpecTree::Dir { children, .. } => 1 + spec_node_count_all(children, 0),
    }
}

/// The number of nodes of the trees `ts[i..]`.
pub open spec fn spec_node_count_all(ts: Seq<SpecTree>, i: int) -> int
    decreases ts, ts.len() - i,
{
    if i < 0 || i >= ts.len() {
        0
    } else {
        spec_node_count(ts[i]) + spec_node_count_all(ts, i + 1)
    }
}

/// Whether `d` is `t` itself or stands somewhere below it.
pub open spec fn spec_is_subtree(t: SpecTree, d: SpecTree) -> bool
    decreases t, 0int,
{
    t == d || match t {
        SpecTree::File { .. } => false,
        SpecTree::Dir { children, .. } => exists|i: int|
            0 <= i < children.len() && spec_is_subtree(#[trigger] children[i], d),
    }
}

/// Law: the walk visits every node exactly once — it has exactly one
/// position per node of the tree.
pub proof fn lemma_preorder_visits_once(t: SpecTree)
    ensures
        spec_preorder(t).len() == spec_node_count(t),
    decreases t, 0int,
{
    match t {
        SpecTree::File { .. } => {},
        SpecTree::Dir { children, .. } => {
            lemma_preorder_visits_once_all(children, 0);
        },
    }
}

proof fn lemma_preorder_visits_once_all(ts: Seq<SpecTree>, i: int)
    ensures
        spec_preorder_all(ts, i).len() == spec_node_count_all(ts, i),
    decreases ts, ts.len() - i,
{
    if 0 <= i < ts.len() {
        lemma_preorder_visits_once(ts[i]);
        lemma_preorder_visits_once_all(ts, i + 1);
    }
}

/// The walk of `ts[j]` stands contiguously inside the concatenated walks of
/// `ts[i..]`, for `i <= j`: the returned index is where it starts.
proof fn lemma_walk_of_child_is_contiguous(ts: Seq<SpecTree>, i: int, j: int) -> (k: int)
    requires
        0 <= i <= j < ts.len(),
    ensures
        0 <= k,
        k + spec_preorder(ts[j]).len() <= spec_preorder_all(ts, i).len(),
        spec_preorder_all(ts, i).subrange(k, k + spec_preorder(ts[j]).len()) == spec_preorder(
            ts[j],
        ),
    decreases j - i,
{
    let whole = spec_preorder_all(ts, i);
    let part = spec_preorder(ts[j]);
    if i == j {
        assert(whole.subrange(0, part.len() as int) =~= part);
        0
    } else {
        let k0 = lemma_walk_of_child_is_contiguous(ts, i + 1, j);
        let shift = spec_preorder(ts[i]).len();
        assert(whole.subrange(shift + k0, shift + k0 + part.len()) =~= spec_preorder_all(
            ts,
            i + 1,
        ).subrange(k0, k0 + part.len()));
        shift + k0
    }
}

/// The walk of any subtree stands contiguously inside the walk of the whole
/// tree: the returned index is where it starts.
proof fn lemma_walk_of_subtree_is_contiguous(t: SpecTree, d: SpecTree) -> (k: int)
    requires
        spec_is_subtree(t, d),
    ensures
        0 <= k,
        k + spec_preorder(d).len() <= spec_preorder(t).len(),
        spec_preorder(t).subrange(k, k + spec_preorder(d).len()) == spec_preorder(d),
    decreases t, 0int,
{
    let whole = spec_preorder(t);
    let part = spec_preorder(d);
    if t == d {
        assert(whole.subrange(0, part.len() as int) =~= part);
        0
    } else {
        match t {
            SpecTree::File { .. } => 0,
            SpecTree::Dir { children, .. } => {
                let i = choose|i: int|
                    0 <= i < children.len() && spec_is_subtree(#[trigger] children[i], d);
                let k1 = lemma_walk_of_subtree_is_contiguous(children[i], d);
                let k2 = lemma_walk_of_child_is_contiguous(children, 0, i);
                let k = 1 + k2 + k1;
                assert(whole.subrange(k, k + part.len()) =~= spec_preorder_all(
                    children,
                    0,
                ).subrange(k2 + k1, k2 + k1 + part.len()));
                assert(spec_preorder_all(children, 0).subrange(k2 + k1, k2 + k1 + part.len())
                    =~= spec_preorder(children[i]).subrange(k1, k1 + part.len()));
                k
            },
        }
    }
}

/// Law: a parent directory's entry is visited before any entry of its
/// descendants. Wherever a directory stands in the tree, the whole walk
/// holds the directory's own path at some position, and the rest of the
/// directory's walk — every path under it — at the positions right after it.
pub proof fn lemma_preorder_parent_before_descendants(t: SpecTree, d: SpecTree) -> (k: int)
    requires
        spec_is_subtree(t, d),
        d is Dir,
    ensures
        0 <= k < spec_preorder(t).len(),
        spec_preorder(t)[k] == d.path(),
        forall|m: int|
            1 <= m < spec_preorder(d).len() ==> spec_preorder(t)[k + m] == spec_preorder(d)[m],
{
    let k = lemma_walk_of_subtree_is_contiguous(t, d);
    let part = spec_preorder(d);
    assert(part.len() >= 1);
    assert(part[0] == d.path());
    assert(spec_preorder(t)[k] == spec_preorder(t).subrange(k, k + part.len())[0]);
    assert forall|m: int| 1 <= m < part.len() implies spec_preorder(t)[k + m] == part[m] by {
        assert(spec_preorder(t).subrange(k, k + part.len())[m] == spec_preorder(t)[k + m]);
    }
    k
}

} // verus!
