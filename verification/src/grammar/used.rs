use vstd::prelude::*;

use super::ids::{LabelId, RootId, TokenId};
use super::labels::{label_entry, roots_labels, LabelEntry, LabelInfo};
use super::tree::{Leaf, Root, Tree, TreeDelta, TreeMap};
use super::flatten::{branch_at, find_tok, lemma_find_tok_range, walk};

verus! {

/// A set of token numbers, held in a `hashbrown` hash set.
#[verifier::external_body]
pub struct TokenSet {
    inner: hashbrown::HashSet<u32>,
}

/// The token numbers a [`TokenSet`] holds.
pub uninterp spec fn token_set_contents(s: TokenSet) -> Set<u32>;

impl TokenSet {
    /// `hashbrown::HashSet::new`: a set that holds nothing.
    #[verifier::external_body]
    pub(crate) fn new() -> (r: TokenSet)
        ensures
            token_set_contents(r) == Set::<u32>::empty(),
    {
        TokenSet { inner: hashbrown::HashSet::new() }
    }

    /// `hashbrown::HashSet::insert`: adds the value, and tells whether it was
    /// absent before.
    #[verifier::external_body]
    pub(crate) fn insert(&mut self, v: u32) -> (r: bool)
        ensures
            token_set_contents(*final(self)) == token_set_contents(*old(self)).insert(v),
            r == !token_set_contents(*old(self)).contains(v),
    {
        self.inner.insert(v)
    }

    /// `hashbrown::HashSet::contains`.
    #[verifier::external_body]
    pub(crate) fn contains(&self, v: u32) -> (r: bool)
        ensures
            r == token_set_contents(*self).contains(v),
    {
        self.inner.contains(&v)
    }
}

/// A set of (root number, label number) pairs, held in a `hashbrown` hash
/// set.
#[verifier::external_body]
pub struct LabelSet {
    inner: hashbrown::HashSet<(u32, u32)>,
}

/// The pairs a [`LabelSet`] holds.
pub uninterp spec fn label_set_contents(s: LabelSet) -> Set<(u32, u32)>;

impl LabelSet {
    /// `hashbrown::HashSet::new`: a set that holds nothing.
    #[verifier::external_body]
    pub(crate) fn new() -> (r: LabelSet)
        ensures
            label_set_contents(r) == Set::<(u32, u32)>::empty(),
    {
        LabelSet { inner: hashbrown::HashSet::new() }
    }

    /// `hashbrown::HashSet::insert`: adds the pair, and tells whether it was
    /// absent before.
    #[verifier::external_body]
    pub(crate) fn insert(&mut self, v: (u32, u32)) -> (r: bool)
        ensures
            label_set_contents(*final(self)) == label_set_contents(*old(self)).insert(v),
            r == !label_set_contents(*old(self)).contains(v),
    {
        self.inner.insert(v)
    }

    /// `hashbrown::HashSet::contains`.
    #[verifier::external_body]
    pub(crate) fn contains(&self, v: (u32, u32)) -> (r: bool)
        ensures
            r == label_set_contents(*self).contains(v),
    {
        self.inner.contains(&v)
    }
}

/// The numbers of the tokens that the deltas from index `i` on use, at any
/// depth.
pub open spec fn tokens_used_from<O, C, LE, TE>(ds: Seq<(TokenId, TreeDelta<O, C, LE, TE>)>, i: int) -> Set<
    u32,
>
    decreases ds, ds.len() - i,
{
    if i < 0 || i >= ds.len() {
        Set::empty()
    } else {
        let here = match ds[i].1 {
            TreeDelta::Leaf(..) => Set::empty().insert(ds[i].0.0),
            TreeDelta::Branch(b) => tokens_used_tree(b.tree).insert(ds[i].0.0),
        };
        here + tokens_used_from(ds, i + 1)
    }
}

/// The numbers of the tokens a tree uses, at any depth.
pub open spec fn tokens_used_tree<O, C, LE, TE>(t: Tree<O, C, LE, TE>) -> Set<u32>
    decreases t, 0int,
{
    tokens_used_from(t.deltas@, 0)
}

/// The numbers of the tokens the first `n` roots use.
pub open spec fn tokens_used_roots<O, C, RE, LE, TE>(roots: Seq<Root<O, C, RE, LE, TE>>, n: int) -> Set<
    u32,
>
    decreases n,
{
    if n <= 0 || n > roots.len() {
        Set::empty()
    } else {
        tokens_used_roots(roots, n - 1) + tokens_used_tree(roots[n - 1].tree)
    }
}

/// The (root, label) pairs a leaf of root `r` refers to.
pub open spec fn leaf_labels<O>(l: Leaf<O>, r: u32) -> Set<(u32, u32)> {
    match l {
        Leaf::Goto(l, _) => Set::empty().insert((r, l.0)),
        Leaf::Retry(Some(l)) => Set::empty().insert((r, l.0)),
        _ => Set::empty(),
    }
}

/// The (root, label) pairs that leaves of the deltas from index `i` on refer
/// to, at any depth, defaults included, for root `r`.
pub open spec fn labels_used_from<O, C, LE, TE>(
    ds: Seq<(TokenId, TreeDelta<O, C, LE, TE>)>,
    i: int,
    r: u32,
) -> Set<(u32, u32)>
    decreases ds, ds.len() - i,
{
    if i < 0 || i >= ds.len() {
        Set::empty()
    } else {
        let here = match ds[i].1 {
            TreeDelta::Leaf(l, _) => leaf_labels(l, r),
            TreeDelta::Branch(b) => labels_used_tree(b.tree, r),
        };
        here + labels_used_from(ds, i + 1, r)
    }
}

/// The (root, label) pairs that leaves of a tree of root `r` refer to, at any
/// depth, defaults included.
pub open spec fn labels_used_tree<O, C, LE, TE>(t: Tree<O, C, LE, TE>, r: u32) -> Set<(u32, u32)>
    decreases t, 0int,
{
    labels_used_from(t.deltas@, 0, r) + leaf_labels(t.default, r)
}

/// The (root, label) pairs that the first `n` roots refer to.
pub open spec fn labels_used_roots<O, C, RE, LE, TE>(roots: Seq<Root<O, C, RE, LE, TE>>, n: int) -> Set<
    (u32, u32),
>
    decreases n,
{
    if n <= 0 || n > roots.len() {
        Set::empty()
    } else {
        labels_used_roots(roots, n - 1) + labels_used_tree(roots[n - 1].tree, (n - 1) as u32)
    }
}

impl<O, C, LE, TE> Tree<O, C, LE, TE> {
    fn populate_used_tokens(&self, used: &mut TokenSet)
        ensures
            token_set_contents(*final(used)) == token_set_contents(*old(used)) + tokens_used_tree(
                *self,
            ),
        decreases *self, 1int,
    {
        let mut i: usize = 0;
        while i < self.deltas.len()
            invariant
                i <= self.deltas@.len(),
                token_set_contents(*old(used)) + tokens_used_tree(*self) == token_set_contents(
                    *used,
                ) + tokens_used_from(self.deltas@, i as int),
            decreases self.deltas@.len() - i,
        {
            let ghost before = token_set_contents(*used);
            let token = self.deltas[i].0;
            used.insert(token.0);
            match &self.deltas[i].1 {
                TreeDelta::Leaf(..) => {},
                TreeDelta::Branch(b) => {
                    b.tree.populate_used_tokens(used);
                },
            }
            proof {
                assert(token_set_contents(*used) + tokens_used_from(self.deltas@, i + 1)
                    =~= before + tokens_used_from(self.deltas@, i as int));
            }
            i = i + 1;
        }
        proof {
            assert(tokens_used_from(self.deltas@, i as int) =~= Set::<u32>::empty());
            assert(token_set_contents(*used) + Set::<u32>::empty() =~= token_set_contents(*used));
        }
    }
}

} // verus!

verus! {

impl<O, C, LE, TE> Tree<O, C, LE, TE> {
    fn populate_used_labels(&self, root: RootId, used: &mut LabelSet)
        ensures
            label_set_contents(*final(used)) == label_set_contents(*old(used)) + labels_used_tree(
                *self,
                root.0,
            ),
        decreases *self, 1int,
    {
        let mut i: usize = 0;
        while i < self.deltas.len()
            invariant
                i <= self.deltas@.len(),
                label_set_contents(*old(used)) + labels_used_from(self.deltas@, 0, root.0)
                    == label_set_contents(*used) + labels_used_from(self.deltas@, i as int, root.0),
            decreases self.deltas@.len() - i,
        {
            let ghost before = label_set_contents(*used);
            match &self.deltas[i].1 {
                TreeDelta::Leaf(l, _) => {
                    l.populate_used_labels(root, used);
                },
                TreeDelta::Branch(b) => {
                    b.tree.populate_used_labels(root, used);
                },
            }
            proof {
                assert(label_set_contents(*used) + labels_used_from(self.deltas@, i + 1, root.0)
                    =~= before + labels_used_from(self.deltas@, i as int, root.0));
            }
            i = i + 1;
        }
        proof {
            assert(labels_used_from(self.deltas@, i as int, root.0) =~= Set::<(u32, u32)>::empty());
            assert(label_set_contents(*used) =~= label_set_contents(*old(used)) + labels_used_from(
                self.deltas@,
                0,
                root.0,
            ));
        }
        self.default.populate_used_labels(root, used);
        proof {
            assert(label_set_contents(*used) =~= label_set_contents(*old(used)) + labels_used_tree(
                *self,
                root.0,
            ));
        }
    }
}

impl<O> Leaf<O> {
    fn populate_used_labels(&self, root: RootId, used: &mut LabelSet)
        ensures
            label_set_contents(*final(used)) == label_set_contents(*old(used)) + leaf_labels(
                *self,
                root.0,
            ),
    {
        match self {
            Leaf::Goto(l, _) => {
                used.insert((root.0, l.0));
            },
            Leaf::Retry(Some(l)) => {
                used.insert((root.0, l.0));
            },
            _ => {},
        }
        proof {
            assert(label_set_contents(*final(used)) =~= label_set_contents(*old(used))
                + leaf_labels(*self, root.0));
        }
    }
}

} // verus!

verus! {

impl<O, C, TD, RE, LE, TE> TreeMap<O, C, TD, RE, LE, TE> {
    /// The numbers of the tokens that some root uses.
    pub open spec fn spec_used_tokens(self) -> Set<u32> {
        tokens_used_roots(self.roots@, self.roots@.len() as int)
    }

    /// The (root, label) pairs that some leaf refers to.
    pub open spec fn spec_used_labels(self) -> Set<(u32, u32)> {
        labels_used_roots(self.roots@, self.roots@.len() as int)
    }

    fn used_tokens(&self) -> (r: TokenSet)
        ensures
            token_set_contents(r) == self.spec_used_tokens(),
    {
        let mut used = TokenSet::new();
        let mut n: usize = 0;
        while n < self.roots.len()
            invariant
                n <= self.roots@.len(),
                token_set_contents(used) == tokens_used_roots(self.roots@, n as int),
            decreases self.roots@.len() - n,
        {
            self.roots[n].tree.populate_used_tokens(&mut used);
            n = n + 1;
        }
        used
    }

    fn used_labels(&self) -> (r: LabelSet)
        requires
            self.ids_fit(),
        ensures
            label_set_contents(r) == self.spec_used_labels(),
    {
        let mut used = LabelSet::new();
        let mut n: usize = 0;
        while n < self.roots.len()
            invariant
                n <= self.roots@.len(),
                self.ids_fit(),
                label_set_contents(used) == labels_used_roots(self.roots@, n as int),
            decreases self.roots@.len() - n,
        {
            self.roots[n].tree.populate_used_labels(RootId(n as u32), &mut used);
            n = n + 1;
        }
        used
    }

    /// The tokens that no root uses, in id order.
    pub fn unused_tokens(&self) -> (r: Vec<(TokenId, &TD)>)
        requires
            self.ids_fit(),
        ensures
            forall|k: int|
                #![trigger r@[k]]
                0 <= k < r@.len() ==> {
                    &&& r@[k].0.0 < self.tokens@.len()
                    &&& !self.spec_used_tokens().contains(r@[k].0.0)
                    &&& *r@[k].1 == self.tokens@[r@[k].0.0 as int]
                },
            forall|j: int, k: int| 0 <= j < k < r@.len() ==> r@[j].0.0 < r@[k].0.0,
            forall|i: u32|
                i < self.tokens@.len() && !self.spec_used_tokens().contains(i) ==> exists|k: int|
                    0 <= k < r@.len() && r@[k].0.0 == i,
    {
        let used = self.used_tokens();
        let mut r: Vec<(TokenId, &TD)> = Vec::new();
        let mut i: usize = 0;
        while i < self.tokens.len()
            invariant
                i <= self.tokens@.len(),
                self.ids_fit(),
                token_set_contents(used) == self.spec_used_tokens(),
                forall|k: int|
                    #![trigger r@[k]]
                    0 <= k < r@.len() ==> {
                        &&& r@[k].0.0 < i
                        &&& !self.spec_used_tokens().contains(r@[k].0.0)
                        &&& *r@[k].1 == self.tokens@[r@[k].0.0 as int]
                    },
                forall|j: int, k: int| 0 <= j < k < r@.len() ==> r@[j].0.0 < r@[k].0.0,
                forall|t: u32|
                    t < i && !self.spec_used_tokens().contains(t) ==> exists|k: int|
                        0 <= k < r@.len() && r@[k].0.0 == t,
            decreases self.tokens@.len() - i,
        {
            let id = i as u32;
            let ghost old_r = r@;
            if !used.contains(id) {
                r.push((TokenId(id), &self.tokens[i]));
                proof {
                    assert(r@[r@.len() - 1].0.0 == id);
                }
            }
            proof {
                assert forall|t: u32|
                    t < i + 1 && !self.spec_used_tokens().contains(t) implies exists|k: int|
                        0 <= k < r@.len() && r@[k].0.0 == t by {
                    if t == id {
                        assert(r@[r@.len() - 1].0.0 == id);
                    } else {
                        let k = choose|k: int| 0 <= k < old_r.len() && old_r[k].0.0 == t;
                        assert(r@[k] == old_r[k]);
                    }
                }
            }
            i = i + 1;
        }
        r
    }

    /// The labelled branches that no leaf of their own root refers to, in
    /// the order of [`TreeMap::labels`].
    pub fn unused_labels(&self) -> (r: Vec<LabelInfo<'_, O, C, RE, LE, TE>>)
        requires
            self.ids_fit(),
        ensures
            r@.map_values(|x: LabelInfo<'_, O, C, RE, LE, TE>| label_entry(x)) == roots_labels(
                self.roots@,
                self.roots@.len() as int,
            ).filter(|e: LabelEntry<O, C, RE, LE, TE>| !self.spec_used_labels().contains((e.0.0, e.1.0))),
    {
        let used = self.used_labels();
        let all = self.labels();
        let ghost pred = |e: LabelEntry<O, C, RE, LE, TE>|
            !self.spec_used_labels().contains((e.0.0, e.1.0));
        let ghost all_v = all@.map_values(|x: LabelInfo<'_, O, C, RE, LE, TE>| label_entry(x));
        let mut r: Vec<LabelInfo<'_, O, C, RE, LE, TE>> = Vec::new();
        let mut i: usize = 0;
        proof {
            assert(all_v.take(0) =~= Seq::<LabelEntry<O, C, RE, LE, TE>>::empty());
            reveal_with_fuel(Seq::filter, 1);
            assert(r@.map_values(|x: LabelInfo<'_, O, C, RE, LE, TE>| label_entry(x)) =~= Seq::<
                LabelEntry<O, C, RE, LE, TE>,
            >::empty());
        }
        while i < all.len()
            invariant
                i <= all@.len(),
                label_set_contents(used) == self.spec_used_labels(),
                pred == (|e: LabelEntry<O, C, RE, LE, TE>|
                    !self.spec_used_labels().contains((e.0.0, e.1.0))),
                all_v == all@.map_values(|x: LabelInfo<'_, O, C, RE, LE, TE>| label_entry(x)),
                r@.map_values(|x: LabelInfo<'_, O, C, RE, LE, TE>| label_entry(x)) == all_v.take(
                    i as int,
                ).filter(pred),
            decreases all@.len() - i,
        {
            let x = &all[i];
            let ghost before = r@.map_values(|x: LabelInfo<'_, O, C, RE, LE, TE>| label_entry(x));
            let keep = !used.contains((x.0.0, x.1.0));
            proof {
                let s1 = all_v.take(i + 1);
                assert(s1.drop_last() =~= all_v.take(i as int));
                assert(s1.last() == label_entry(*x));
                assert(pred(label_entry(*x)) == keep);
                reveal_with_fuel(Seq::filter, 1);
                if keep {
                    assert(s1.filter(pred) == all_v.take(i as int).filter(pred).push(label_entry(*x)));
                } else {
                    assert(s1.filter(pred) == all_v.take(i as int).filter(pred));
                }
            }
            if keep {
                r.push((x.0, x.1, x.2, (x.3.0, x.3.1.clone())));
                proof {
                    assert(r@.map_values(|x: LabelInfo<'_, O, C, RE, LE, TE>| label_entry(x))
                        =~= before.push(label_entry(*x)));
                }
            }
            i = i + 1;
        }
        proof {
            assert(all_v.take(i as int) =~= all_v);
        }
        r
    }
}

/// A leaf names `lab`, by a goto or a retry.
pub open spec fn names_label<O>(l: Leaf<O>, lab: LabelId) -> bool {
    match l {
        Leaf::Goto(x, _) => x == lab,
        Leaf::Retry(Some(x)) => x == lab,
        _ => false,
    }
}

proof fn lemma_delta_labels_used<O, C, LE, TE>(ds: Seq<(TokenId, TreeDelta<O, C, LE, TE>)>, i: int, j: int, r: u32)
    requires
        0 <= i <= j < ds.len(),
    ensures
        (match ds[j].1 {
            TreeDelta::Leaf(l, _) => leaf_labels(l, r),
            TreeDelta::Branch(b) => labels_used_tree(b.tree, r),
        }).subset_of(labels_used_from(ds, i, r)),
    decreases j - i,
{
    if i < j {
        lemma_delta_labels_used(ds, i + 1, j, r);
    }
}

proof fn lemma_walk_labels_used<O, C, LE, TE>(t: Tree<O, C, LE, TE>, path: Seq<TokenId>, sub: Tree<O, C, LE, TE>, r: u32)
    requires
        walk(t, path) == Some(sub),
    ensures
        labels_used_tree(sub, r).subset_of(labels_used_tree(t, r)),
    decreases path.len(),
{
    if path.len() > 0 {
        let k = find_tok(t.deltas@, path[0], 0);
        lemma_find_tok_range(t.deltas@, path[0], 0);
        let u = branch_at(t, path[0])->0;
        lemma_delta_labels_used(t.deltas@, 0, k, r);
        lemma_walk_labels_used(u, path.drop_first(), sub, r);
    }
}

proof fn lemma_root_labels_used<O, C, RE, LE, TE>(roots: Seq<Root<O, C, RE, LE, TE>>, n: int, r: int)
    requires
        0 <= r < n <= roots.len(),
    ensures
        labels_used_tree(roots[r].tree, r as u32).subset_of(labels_used_roots(roots, n)),
    decreases n,
{
    if r < n - 1 {
        lemma_root_labels_used(roots, n - 1, r);
    }
}

/// A label that a leaf of a root names, anywhere in the root's tree and
/// its default leaves included, is used in that root, so never listed as
/// unused.
pub proof fn lemma_named_labels_used<O, C, TD, RE, LE, TE>(
    m: TreeMap<O, C, TD, RE, LE, TE>,
    r: int,
    path: Seq<TokenId>,
    sub: Tree<O, C, LE, TE>,
    lab: LabelId,
    k: int,
)
    requires
        0 <= r < m.roots@.len(),
        walk(m.roots@[r].tree, path) == Some(sub),
        names_label(sub.default, lab) || (0 <= k < sub.deltas@.len() && (sub.deltas@[k].1 matches TreeDelta::Leaf(
            l,
            _,
        ) && names_label(l, lab))),
    ensures
        m.spec_used_labels().contains((r as u32, lab.0)),
{
    let ru = r as u32;
    lemma_walk_labels_used(m.roots@[r].tree, path, sub, ru);
    lemma_root_labels_used(m.roots@, m.roots@.len() as int, r);
    if names_label(sub.default, lab) {
        assert(leaf_labels(sub.default, ru).contains((ru, lab.0)));
    } else {
        lemma_delta_labels_used(sub.deltas@, 0, k, ru);
        assert(labels_used_from(sub.deltas@, 0, ru).contains((ru, lab.0)));
    }
    assert(labels_used_tree(sub, ru).contains((ru, lab.0)));
}

} // verus!
