use vstd::prelude::*;

use super::ids::{LabelId, RootId, TokenId};
use super::tree::{Root, Tree, TreeDelta, TreeMap};

verus! {

/// A labelled branch: the root it is in, its label, the root, the subtree it
/// leads to and the token path reported for it.
pub type LabelInfo<'a, O, C, RE, LE, TE> = (
    RootId,
    LabelId,
    &'a Root<O, C, RE, LE, TE>,
    (&'a Tree<O, C, LE, TE>, Vec<TokenId>),
);

/// The value of a [`LabelInfo`].
pub type LabelEntry<O, C, RE, LE, TE> = (
    RootId,
    LabelId,
    Root<O, C, RE, LE, TE>,
    Tree<O, C, LE, TE>,
    Seq<TokenId>,
);

/// The value a [`LabelInfo`] stands for.
pub open spec fn label_entry<O, C, RE, LE, TE>(x: LabelInfo<'_, O, C, RE, LE, TE>) -> LabelEntry<
    O,
    C,
    RE,
    LE,
    TE,
> {
    (x.0, x.1, *x.2, *x.3.0, x.3.1@)
}

/// The labelled branches among the deltas from index `i` on, in order, each
/// reported with `prefix` followed by its own token.
pub open spec fn direct_labels<O, C, RE, LE, TE>(
    rid: RootId,
    root: Root<O, C, RE, LE, TE>,
    prefix: Seq<TokenId>,
    ds: Seq<(TokenId, TreeDelta<O, C, LE, TE>)>,
    i: int,
) -> Seq<LabelEntry<O, C, RE, LE, TE>>
    decreases ds.len() - i,
{
    if i < 0 || i >= ds.len() {
        Seq::empty()
    } else {
        let rest = direct_labels(rid, root, prefix, ds, i + 1);
        match ds[i].1 {
            TreeDelta::Branch(b) => match b.label {
                Some(l) => seq![(rid, l, root, b.tree, prefix.push(ds[i].0))] + rest,
                None => rest,
            },
            TreeDelta::Leaf(..) => rest,
        }
    }
}

/// The labelled branches of a tree as the listing reports them: those
/// directly under the tree first, then those of each branch subtree in
/// order. The path reported for a branch is the token of the subtree it is
/// directly under (none for a root) followed by its own token.
pub open spec fn tree_labels<O, C, RE, LE, TE>(
    rid: RootId,
    root: Root<O, C, RE, LE, TE>,
    prefix: Seq<TokenId>,
    t: Tree<O, C, LE, TE>,
) -> Seq<LabelEntry<O, C, RE, LE, TE>>
    decreases t, 0int,
{
    direct_labels(rid, root, prefix, t.deltas@, 0) + child_labels(rid, root, t.deltas@, 0)
}

/// [`tree_labels`] of the branch subtrees among the deltas from index `i` on.
pub open spec fn child_labels<O, C, RE, LE, TE>(
    rid: RootId,
    root: Root<O, C, RE, LE, TE>,
    ds: Seq<(TokenId, TreeDelta<O, C, LE, TE>)>,
    i: int,
) -> Seq<LabelEntry<O, C, RE, LE, TE>>
    decreases ds, ds.len() - i,
{
    if i < 0 || i >= ds.len() {
        Seq::empty()
    } else {
        match ds[i].1 {
            TreeDelta::Branch(b) => tree_labels(rid, root, seq![ds[i].0], b.tree) + child_labels(
                rid,
                root,
                ds,
                i + 1,
            ),
            TreeDelta::Leaf(..) => child_labels(rid, root, ds, i + 1),
        }
    }
}

/// The labelled branches of the first `n` roots, root by root.
pub open spec fn roots_labels<O, C, RE, LE, TE>(roots: Seq<Root<O, C, RE, LE, TE>>, n: int) -> Seq<
    LabelEntry<O, C, RE, LE, TE>,
>
    decreases n,
{
    if n <= 0 || n > roots.len() {
        Seq::empty()
    } else {
        roots_labels(roots, n - 1) + tree_labels(
            RootId((n - 1) as u32),
            roots[n - 1],
            Seq::empty(),
            roots[n - 1].tree,
        )
    }
}

/// How many labelled branches a tree has, at any depth.
pub open spec fn labelled_count<O, C, LE, TE>(t: Tree<O, C, LE, TE>) -> nat
    decreases t, 0int,
{
    labelled_in(t.deltas@, 0)
}

/// How many labelled branches the deltas from index `i` on have: each
/// branch that carries a label, and those in each branch's subtree.
pub open spec fn labelled_in<O, C, LE, TE>(ds: Seq<(TokenId, TreeDelta<O, C, LE, TE>)>, i: int) -> nat
    decreases ds, ds.len() - i,
{
    if i < 0 || i >= ds.len() {
        0
    } else {
        match ds[i].1 {
            TreeDelta::Branch(b) => (if b.label is Some {
                1nat
            } else {
                0nat
            }) + labelled_count(b.tree) + labelled_in(ds, i + 1),
            TreeDelta::Leaf(..) => labelled_in(ds, i + 1),
        }
    }
}

/// How many labelled branches the first `n` roots have.
pub open spec fn roots_labelled_count<O, C, RE, LE, TE>(roots: Seq<Root<O, C, RE, LE, TE>>, n: int) -> nat
    decreases n,
{
    if n <= 0 || n > roots.len() {
        0
    } else {
        roots_labelled_count(roots, n - 1) + labelled_count(roots[n - 1].tree)
    }
}

proof fn lemma_tree_labels_count<O, C, RE, LE, TE>(
    rid: RootId,
    root: Root<O, C, RE, LE, TE>,
    prefix: Seq<TokenId>,
    t: Tree<O, C, LE, TE>,
)
    ensures
        tree_labels(rid, root, prefix, t).len() == labelled_count(t),
        forall|k: int| 0 <= k < tree_labels(rid, root, prefix, t).len() ==> (#[trigger] tree_labels(rid, root, prefix, t)[k]).0 == rid,
    decreases t, 0int,
{
    lemma_deltas_labels_count(rid, root, prefix, t.deltas@, 0);
    let d = direct_labels(rid, root, prefix, t.deltas@, 0);
    let c = child_labels(rid, root, t.deltas@, 0);
    assert forall|k: int| 0 <= k < (d + c).len() implies (#[trigger] (d + c)[k]).0 == rid by {
        if k < d.len() {
            assert((d + c)[k] == d[k]);
        } else {
            assert((d + c)[k] == c[k - d.len()]);
        }
    }
}

proof fn lemma_deltas_labels_count<O, C, RE, LE, TE>(
    rid: RootId,
    root: Root<O, C, RE, LE, TE>,
    prefix: Seq<TokenId>,
    ds: Seq<(TokenId, TreeDelta<O, C, LE, TE>)>,
    i: int,
)
    ensures
        direct_labels(rid, root, prefix, ds, i).len() + child_labels(rid, root, ds, i).len() == labelled_in(ds, i),
        forall|k: int| 0 <= k < direct_labels(rid, root, prefix, ds, i).len() ==> (#[trigger] direct_labels(rid, root, prefix, ds, i)[k]).0 == rid,
        forall|k: int| 0 <= k < child_labels(rid, root, ds, i).len() ==> (#[trigger] child_labels(rid, root, ds, i)[k]).0 == rid,
    decreases ds, ds.len() - i,
{
    if i < 0 || i >= ds.len() {
    } else {
        lemma_deltas_labels_count(rid, root, prefix, ds, i + 1);
        let d1 = direct_labels(rid, root, prefix, ds, i + 1);
        let c1 = child_labels(rid, root, ds, i + 1);
        match ds[i].1 {
            TreeDelta::Branch(b) => {
                lemma_tree_labels_count(rid, root, seq![ds[i].0], b.tree);
                let tl = tree_labels(rid, root, seq![ds[i].0], b.tree);
                assert forall|k: int| 0 <= k < (tl + c1).len() implies (#[trigger] (tl + c1)[k]).0 == rid by {
                    if k < tl.len() {
                        assert((tl + c1)[k] == tl[k]);
                    } else {
                        assert((tl + c1)[k] == c1[k - tl.len()]);
                    }
                }
                match b.label {
                    Some(l) => {
                        let e = seq![(rid, l, root, b.tree, prefix.push(ds[i].0))];
                        assert forall|k: int| 0 <= k < (e + d1).len() implies (#[trigger] (e + d1)[k]).0 == rid by {
                            if k < 1 {
                                assert((e + d1)[k] == e[k]);
                            } else {
                                assert((e + d1)[k] == d1[k - 1]);
                            }
                        }
                    },
                    None => {},
                }
            },
            TreeDelta::Leaf(..) => {},
        }
    }
}

/// The listing of labelled branches has one entry for each labelled branch
/// at any depth of each root, and no more; its entries come root by root,
/// in root order, each naming a root that exists.
pub proof fn lemma_labels_each_once<O, C, RE, LE, TE>(roots: Seq<Root<O, C, RE, LE, TE>>, n: int)
    requires
        0 <= n <= roots.len(),
        roots.len() <= u32::MAX as int + 1,
    ensures
        roots_labels(roots, n).len() == roots_labelled_count(roots, n),
        forall|k: int| 0 <= k < roots_labels(roots, n).len() ==> (#[trigger] roots_labels(roots, n)[k]).0.0 < n,
        forall|a: int, b: int|
            0 <= a < b < roots_labels(roots, n).len() ==> (#[trigger] roots_labels(roots, n)[a]).0.0
                <= (#[trigger] roots_labels(roots, n)[b]).0.0,
    decreases n,
{
    if n > 0 {
        lemma_labels_each_once(roots, n - 1);
        let rid = RootId((n - 1) as u32);
        lemma_tree_labels_count(rid, roots[n - 1], Seq::empty(), roots[n - 1].tree);
        let p = roots_labels(roots, n - 1);
        let t = tree_labels(rid, roots[n - 1], Seq::empty(), roots[n - 1].tree);
        assert(roots_labels(roots, n) == p + t);
        assert(rid.0 == n - 1);
        assert forall|k: int| 0 <= k < (p + t).len() implies (#[trigger] (p + t)[k]).0.0 < n by {
            if k < p.len() {
                assert((p + t)[k] == p[k]);
            } else {
                assert((p + t)[k] == t[k - p.len()]);
            }
        }
        assert forall|a: int, b: int| 0 <= a < b < (p + t).len() implies (#[trigger] (p + t)[a]).0.0 <= (#[trigger] (p + t)[b]).0.0 by {
            if b < p.len() {
                assert((p + t)[a] == p[a] && (p + t)[b] == p[b]);
            } else if a < p.len() {
                assert((p + t)[a] == p[a] && (p + t)[b] == t[b - p.len()]);
            } else {
                assert((p + t)[a] == t[a - p.len()] && (p + t)[b] == t[b - p.len()]);
            }
        }
    }
}

impl<O, C, LE, TE> Tree<O, C, LE, TE> {
    fn collect_direct_labels<'a, RE>(
        &'a self,
        rid: RootId,
        root: &'a Root<O, C, RE, LE, TE>,
        prefix: &Vec<TokenId>,
        out: &mut Vec<LabelInfo<'a, O, C, RE, LE, TE>>,
    )
        ensures
            final(out)@.map_values(|x: LabelInfo<'a, O, C, RE, LE, TE>| label_entry(x)) == old(
                out,
            )@.map_values(|x: LabelInfo<'a, O, C, RE, LE, TE>| label_entry(x)) + direct_labels(
                rid,
                *root,
                prefix@,
                self.deltas@,
                0,
            ),
    {
        let ghost start = old(out)@.map_values(|x: LabelInfo<'a, O, C, RE, LE, TE>| label_entry(x));
        let mut i: usize = 0;
        while i < self.deltas.len()
            invariant
                i <= self.deltas@.len(),
                start + direct_labels(rid, *root, prefix@, self.deltas@, 0) == out@.map_values(
                    |x: LabelInfo<'a, O, C, RE, LE, TE>| label_entry(x),
                ) + direct_labels(rid, *root, prefix@, self.deltas@, i as int),
            decreases self.deltas@.len() - i,
        {
            let ghost before = out@.map_values(|x: LabelInfo<'a, O, C, RE, LE, TE>| label_entry(x));
            let token = self.deltas[i].0;
            match &self.deltas[i].1 {
                TreeDelta::Branch(b) => {
                    match b.label {
                        Some(l) => {
                            let mut path = prefix.clone();
                            path.push(token);
                            out.push((rid, l, root, (&b.tree, path)));
                            proof {
                                assert(out@.map_values(
                                    |x: LabelInfo<'a, O, C, RE, LE, TE>| label_entry(x),
                                ) =~= before.push((rid, l, *root, b.tree, prefix@.push(token))));
                                assert(before + direct_labels(rid, *root, prefix@, self.deltas@, i as int)
                                    =~= out@.map_values(
                                    |x: LabelInfo<'a, O, C, RE, LE, TE>| label_entry(x),
                                ) + direct_labels(rid, *root, prefix@, self.deltas@, i + 1));
                            }
                        },
                        None => {},
                    }
                },
                TreeDelta::Leaf(..) => {},
            }
            i = i + 1;
        }
        proof {
            assert(direct_labels(rid, *root, prefix@, self.deltas@, i as int) =~= Seq::<
                LabelEntry<O, C, RE, LE, TE>,
            >::empty());
            assert(out@.map_values(|x: LabelInfo<'a, O, C, RE, LE, TE>| label_entry(x))
                =~= start + direct_labels(rid, *root, prefix@, self.deltas@, 0));
        }
    }
}

} // verus!

verus! {

impl<O, C, LE, TE> Tree<O, C, LE, TE> {
    fn collect_tree_labels<'a, RE>(
        &'a self,
        rid: RootId,
        root: &'a Root<O, C, RE, LE, TE>,
        prefix: &Vec<TokenId>,
        out: &mut Vec<LabelInfo<'a, O, C, RE, LE, TE>>,
    )
        ensures
            final(out)@.map_values(|x: LabelInfo<'a, O, C, RE, LE, TE>| label_entry(x)) == old(
                out,
            )@.map_values(|x: LabelInfo<'a, O, C, RE, LE, TE>| label_entry(x)) + tree_labels(
                rid,
                *root,
                prefix@,
                *self,
            ),
        decreases *self, 1int,
    {
        let ghost start = old(out)@.map_values(|x: LabelInfo<'a, O, C, RE, LE, TE>| label_entry(x));
        self.collect_direct_labels(rid, root, prefix, out);
        let ghost mid = out@.map_values(|x: LabelInfo<'a, O, C, RE, LE, TE>| label_entry(x));
        let mut i: usize = 0;
        while i < self.deltas.len()
            invariant
                i <= self.deltas@.len(),
                mid + child_labels(rid, *root, self.deltas@, 0) == out@.map_values(
                    |x: LabelInfo<'a, O, C, RE, LE, TE>| label_entry(x),
                ) + child_labels(rid, *root, self.deltas@, i as int),
            decreases self.deltas@.len() - i,
        {
            let ghost before = out@.map_values(|x: LabelInfo<'a, O, C, RE, LE, TE>| label_entry(x));
            let token = self.deltas[i].0;
            match &self.deltas[i].1 {
                TreeDelta::Branch(b) => {
                    let mut sub: Vec<TokenId> = Vec::new();
                    sub.push(token);
                    proof {
                        assert(sub@ =~= seq![token]);
                    }
                    b.tree.collect_tree_labels(rid, root, &sub, out);
                    proof {
                        assert(before + child_labels(rid, *root, self.deltas@, i as int)
                            =~= out@.map_values(
                            |x: LabelInfo<'a, O, C, RE, LE, TE>| label_entry(x),
                        ) + child_labels(rid, *root, self.deltas@, i + 1));
                    }
                },
                TreeDelta::Leaf(..) => {},
            }
            i = i + 1;
        }
        proof {
            assert(child_labels(rid, *root, self.deltas@, i as int) =~= Seq::<
                LabelEntry<O, C, RE, LE, TE>,
            >::empty());
            assert(out@.map_values(|x: LabelInfo<'a, O, C, RE, LE, TE>| label_entry(x))
                =~= start + tree_labels(rid, *root, prefix@, *self));
        }
    }
}

impl<O, C, TD, RE, LE, TE> TreeMap<O, C, TD, RE, LE, TE> {
    /// Every labelled branch of every root, root by root; within a tree, the
    /// labelled branches directly under it come before those of its
    /// subtrees.
    pub fn labels(&self) -> (r: Vec<LabelInfo<'_, O, C, RE, LE, TE>>)
        requires
            self.ids_fit(),
        ensures
            r@.map_values(|x: LabelInfo<'_, O, C, RE, LE, TE>| label_entry(x)) == roots_labels(
                self.roots@,
                self.roots@.len() as int,
            ),
    {
        let mut out: Vec<LabelInfo<'_, O, C, RE, LE, TE>> = Vec::new();
        let empty: Vec<TokenId> = Vec::new();
        let mut n: usize = 0;
        proof {
            assert(out@.map_values(|x: LabelInfo<'_, O, C, RE, LE, TE>| label_entry(x)) =~= Seq::<
                LabelEntry<O, C, RE, LE, TE>,
            >::empty());
        }
        while n < self.roots.len()
            invariant
                n <= self.roots@.len(),
                self.ids_fit(),
                empty@ == Seq::<TokenId>::empty(),
                out@.map_values(|x: LabelInfo<'_, O, C, RE, LE, TE>| label_entry(x)) == roots_labels(
                    self.roots@,
                    n as int,
                ),
            decreases self.roots@.len() - n,
        {
            let root = &self.roots[n];
            root.tree.collect_tree_labels(RootId(n as u32), root, &empty, &mut out);
            n = n + 1;
        }
        out
    }
}

} // verus!
