use vstd::prelude::*;

use super::ids::{LabelId, RootId, TokenId};

verus! {

/// What a tree does on a token that ends a path.
#[derive(Debug)]
pub enum Leaf<Output> {
    /// Yield the output and restart at the root.
    Output(Output),
    /// Yield the output and continue at the labelled subtree.
    Goto(LabelId, Output),
    /// Re-run the token from the labelled subtree, or from the root.
    Retry(Option<LabelId>),
}

/// The delta of a tree for one token.
#[derive(Debug)]
pub enum TreeDelta<Output, ExtendConversion, LeafExtra, TreeExtra> {
    Leaf(Leaf<Output>, LeafExtra),
    Branch(Branch<Output, ExtendConversion, LeafExtra, TreeExtra>),
}

/// A subtree entered on a token, with the output yielded on entering it.
#[derive(Debug)]
pub struct Branch<Output, ExtendConversion, LeafExtra, TreeExtra> {
    pub label: Option<LabelId>,
    pub out: Output,
    pub tree: Tree<Output, ExtendConversion, LeafExtra, TreeExtra>,
}

/// A node of a grammar: its deltas by token (at most one per token, in
/// insertion order), the grammars it extends, and what happens on any other
/// token.
#[derive(Debug)]
pub struct Tree<Output, ExtendConversion, LeafExtra, TreeExtra> {
    pub deltas: Vec<(TokenId, TreeDelta<Output, ExtendConversion, LeafExtra, TreeExtra>)>,
    pub extends: Vec<(RootId, Option<LabelId>, ExtendConversion)>,
    pub default: Leaf<Output>,
    pub extra: TreeExtra,
}

/// A named grammar.
#[derive(Debug)]
pub struct Root<Output, ExtendConversion, RootExtra, LeafExtra, TreeExtra> {
    pub tree: Tree<Output, ExtendConversion, LeafExtra, TreeExtra>,
    pub extra: RootExtra,
}

/// All grammars of a definition, with the token definitions they share.
#[derive(Debug)]
pub struct TreeMap<Output, ExtendConversion, TokenDef, RootExtra, LeafExtra, TreeExtra> {
    pub tokens: Vec<TokenDef>,
    pub roots: Vec<Root<Output, ExtendConversion, RootExtra, LeafExtra, TreeExtra>>,
}

/// The first subtree, in depth-first order over the deltas from index `i`
/// on, whose branch carries `label`.
pub open spec fn search_from<O, C, LE, TE>(
    ds: Seq<(TokenId, TreeDelta<O, C, LE, TE>)>,
    i: int,
    label: LabelId,
) -> Option<Tree<O, C, LE, TE>>
    decreases ds, ds.len() - i,
{
    if i < 0 || i >= ds.len() {
        None
    } else {
        match ds[i].1 {
            TreeDelta::Leaf(..) => search_from(ds, i + 1, label),
            TreeDelta::Branch(b) => if b.label == Some(label) {
                Some(b.tree)
            } else {
                match search_tree(b.tree, label) {
                    Some(t) => Some(t),
                    None => search_from(ds, i + 1, label),
                }
            },
        }
    }
}

/// The first subtree of `t`, in depth-first order, whose branch carries
/// `label`.
pub open spec fn search_tree<O, C, LE, TE>(t: Tree<O, C, LE, TE>, label: LabelId) -> Option<
    Tree<O, C, LE, TE>,
>
    decreases t, 0int,
{
    search_from(t.deltas@, 0, label)
}

impl<O, C, LE, TE> Tree<O, C, LE, TE> {
    pub fn search_label(&self, label: LabelId) -> (r: Option<&Self>)
        ensures
            r is Some <==> search_tree(*self, label) is Some,
            r matches Some(t) ==> search_tree(*self, label) == Some(*t),
        decreases *self, 1int,
    {
        let mut i: usize = 0;
        while i < self.deltas.len()
            invariant
                i <= self.deltas@.len(),
                search_tree(*self, label) == search_from(self.deltas@, i as int, label),
            decreases self.deltas@.len() - i,
        {
            match &self.deltas[i].1 {
                TreeDelta::Leaf(..) => {},
                TreeDelta::Branch(b) => {
                    if b.label == Some(label) {
                        return Some(&b.tree);
                    }
                    let found = b.tree.search_label(label);
                    if found.is_some() {
                        return found;
                    }
                },
            }
            i = i + 1;
        }
        None
    }
}

} // verus!

verus! {

/// Like [`search_from`], also giving the tokens that lead from the searched
/// tree to the found subtree (the branch's own token last).
pub open spec fn search_path_from<O, C, LE, TE>(
    ds: Seq<(TokenId, TreeDelta<O, C, LE, TE>)>,
    i: int,
    label: LabelId,
) -> Option<(Tree<O, C, LE, TE>, Seq<TokenId>)>
    decreases ds, ds.len() - i,
{
    if i < 0 || i >= ds.len() {
        None
    } else {
        match ds[i].1 {
            TreeDelta::Leaf(..) => search_path_from(ds, i + 1, label),
            TreeDelta::Branch(b) => if b.label == Some(label) {
                Some((b.tree, seq![ds[i].0]))
            } else {
                match search_path_tree(b.tree, label) {
                    Some((t, p)) => Some((t, seq![ds[i].0] + p)),
                    None => search_path_from(ds, i + 1, label),
                }
            },
        }
    }
}

/// Like [`search_tree`], also giving the token path to the found subtree.
pub open spec fn search_path_tree<O, C, LE, TE>(t: Tree<O, C, LE, TE>, label: LabelId) -> Option<
    (Tree<O, C, LE, TE>, Seq<TokenId>),
>
    decreases t, 0int,
{
    search_path_from(t.deltas@, 0, label)
}

impl<O, C, LE, TE> Tree<O, C, LE, TE> {
    pub fn search_label_path(&self, label: LabelId) -> (r: Option<(&Self, Vec<TokenId>)>)
        ensures
            r is Some <==> search_path_tree(*self, label) is Some,
            r matches Some((t, p)) ==> search_path_tree(*self, label) == Some((*t, p@)),
        decreases *self, 1int,
    {
        let mut i: usize = 0;
        while i < self.deltas.len()
            invariant
                i <= self.deltas@.len(),
                search_path_tree(*self, label) == search_path_from(self.deltas@, i as int, label),
            decreases self.deltas@.len() - i,
        {
            let token = self.deltas[i].0;
            match &self.deltas[i].1 {
                TreeDelta::Leaf(..) => {},
                TreeDelta::Branch(b) => {
                    if b.label == Some(label) {
                        let mut path = Vec::new();
                        path.push(token);
                        proof {
                            assert(path@ =~= seq![token]);
                        }
                        return Some((&b.tree, path));
                    }
                    match b.tree.search_label_path(label) {
                        Some((t, mut path)) => {
                            let ghost tail = path@;
                            path.insert(0, token);
                            proof {
                                assert(path@ =~= seq![token] + tail);
                            }
                            return Some((t, path));
                        },
                        None => {},
                    }
                },
            }
            i = i + 1;
        }
        None
    }
}

/// The tree that searching by path finds is the one that searching by label
/// finds.
pub proof fn lemma_search_path_agrees<O, C, LE, TE>(t: Tree<O, C, LE, TE>, label: LabelId)
    ensures
        search_path_tree(t, label) is Some <==> search_tree(t, label) is Some,
        search_path_tree(t, label) matches Some((u, _)) ==> search_tree(t, label) == Some(u),
    decreases t, 0int,
{
    lemma_search_path_from_agrees(t.deltas@, 0, label);
}

/// [`lemma_search_path_agrees`] over the deltas from index `i` on.
pub proof fn lemma_search_path_from_agrees<O, C, LE, TE>(
    ds: Seq<(TokenId, TreeDelta<O, C, LE, TE>)>,
    i: int,
    label: LabelId,
)
    ensures
        search_path_from(ds, i, label) is Some <==> search_from(ds, i, label) is Some,
        search_path_from(ds, i, label) matches Some((u, _)) ==> search_from(ds, i, label) == Some(
            u,
        ),
    decreases ds, ds.len() - i,
{
    if 0 <= i < ds.len() {
        match ds[i].1 {
            TreeDelta::Leaf(..) => {
                lemma_search_path_from_agrees(ds, i + 1, label);
            },
            TreeDelta::Branch(b) => {
                if b.label != Some(label) {
                    lemma_search_path_agrees(b.tree, label);
                    lemma_search_path_from_agrees(ds, i + 1, label);
                }
            },
        }
    }
}

impl<O, C, RE, LE, TE> Root<O, C, RE, LE, TE> {
    #[inline]
    pub fn extra(&self) -> (r: &RE)
        ensures
            *r == self.extra,
    {
        &self.extra
    }

    #[inline]
    pub fn as_tree(&self) -> (r: &Tree<O, C, LE, TE>)
        ensures
            *r == self.tree,
    {
        &self.tree
    }

    /// The subtree a label stands for: the root's own tree for no label.
    pub open spec fn spec_resolve_label(self, label: Option<LabelId>) -> Option<Tree<O, C, LE, TE>> {
        match label {
            None => Some(self.tree),
            Some(l) => search_tree(self.tree, l),
        }
    }

    /// The subtree a label stands for, with the token path leading to it.
    pub open spec fn spec_resolve_label_path(self, label: Option<LabelId>) -> Option<
        (Tree<O, C, LE, TE>, Seq<TokenId>),
    > {
        match label {
            None => Some((self.tree, Seq::empty())),
            Some(l) => search_path_tree(self.tree, l),
        }
    }

    #[inline]
    pub fn try_resolve_label(&self, label: Option<LabelId>) -> (r: Option<&Tree<O, C, LE, TE>>)
        ensures
            r is Some <==> self.spec_resolve_label(label) is Some,
            r matches Some(t) ==> self.spec_resolve_label(label) == Some(*t),
    {
        match label {
            None => Some(&self.tree),
            Some(l) => self.tree.search_label(l),
        }
    }

    #[inline]
    pub fn resolve_label(&self, label: Option<LabelId>) -> (r: &Tree<O, C, LE, TE>)
        requires
            self.spec_resolve_label(label) is Some,
        ensures
            self.spec_resolve_label(label) == Some(*r),
    {
        match self.try_resolve_label(label) {
            Some(t) => t,
            None => {
                proof {
                    assert(false);
                }
                &self.tree
            },
        }
    }

    #[inline]
    pub fn try_resolve_label_path(&self, label: Option<LabelId>) -> (r: Option<
        (&Tree<O, C, LE, TE>, Vec<TokenId>),
    >)
        ensures
            r is Some <==> self.spec_resolve_label_path(label) is Some,
            r matches Some((t, p)) ==> self.spec_resolve_label_path(label) == Some((*t, p@)),
    {
        match label {
            None => {
                let path = Vec::new();
                proof {
                    assert(path@ =~= Seq::<TokenId>::empty());
                }
                Some((&self.tree, path))
            },
            Some(l) => self.tree.search_label_path(l),
        }
    }

    #[inline]
    pub fn resolve_label_path(&self, label: Option<LabelId>) -> (r: (
        &Tree<O, C, LE, TE>,
        Vec<TokenId>,
    ))
        requires
            self.spec_resolve_label_path(label) is Some,
        ensures
            self.spec_resolve_label_path(label) == Some((*r.0, r.1@)),
    {
        match self.try_resolve_label_path(label) {
            Some(r) => r,
            None => {
                proof {
                    assert(false);
                }
                (&self.tree, Vec::new())
            },
        }
    }
}

} // verus!

verus! {

impl<O, C, TD, RE, LE, TE> TreeMap<O, C, TD, RE, LE, TE> {
    /// Every token and every root has an id that fits its 32-bit index.
    pub open spec fn ids_fit(self) -> bool {
        &&& self.tokens@.len() <= u32::MAX as int + 1
        &&& self.roots@.len() <= u32::MAX as int + 1
    }

    #[inline]
    pub fn as_tokens(&self) -> (r: &[TD])
        ensures
            r@ == self.tokens@,
    {
        self.tokens.as_slice()
    }

    #[inline]
    pub fn token(&self, id: TokenId) -> (r: Option<&TD>)
        ensures
            r is Some <==> id.0 < self.tokens@.len(),
            r matches Some(d) ==> *d == self.tokens@[id.0 as int],
    {
        let i = id.0 as usize;
        if i < self.tokens.len() {
            Some(&self.tokens[i])
        } else {
            None
        }
    }

    #[inline]
    pub fn root(&self, id: RootId) -> (r: Option<&Root<O, C, RE, LE, TE>>)
        ensures
            r is Some <==> id.0 < self.roots@.len(),
            r matches Some(t) ==> *t == self.roots@[id.0 as int],
    {
        let i = id.0 as usize;
        if i < self.roots.len() {
            Some(&self.roots[i])
        } else {
            None
        }
    }

    /// The ids of all roots, in order.
    pub fn root_ids(&self) -> (r: Vec<RootId>)
        requires
            self.ids_fit(),
        ensures
            r@.len() == self.roots@.len(),
            forall|i: int| 0 <= i < r@.len() ==> r@[i].0 == i,
    {
        let mut r: Vec<RootId> = Vec::new();
        let mut i: usize = 0;
        while i < self.roots.len()
            invariant
                i <= self.roots@.len(),
                self.roots@.len() <= u32::MAX as int + 1,
                r@.len() == i,
                forall|k: int| 0 <= k < r@.len() ==> r@[k].0 == k,
            decreases self.roots@.len() - i,
        {
            r.push(RootId(i as u32));
            i = i + 1;
        }
        r
    }

    /// All token definitions with their ids, in order.
    pub fn tokens(&self) -> (r: Vec<(TokenId, &TD)>)
        requires
            self.ids_fit(),
        ensures
            r@.len() == self.tokens@.len(),
            forall|i: int| #![trigger r@[i]] 0 <= i < r@.len() ==> r@[i].0.0 == i && *r@[i].1 == self.tokens@[i],
    {
        let mut r: Vec<(TokenId, &TD)> = Vec::new();
        let mut i: usize = 0;
        while i < self.tokens.len()
            invariant
                i <= self.tokens@.len(),
                self.tokens@.len() <= u32::MAX as int + 1,
                r@.len() == i,
                forall|k: int| #![trigger r@[k]] 0 <= k < r@.len() ==> r@[k].0.0 == k && *r@[k].1 == self.tokens@[k],
            decreases self.tokens@.len() - i,
        {
            r.push((TokenId(i as u32), &self.tokens[i]));
            i = i + 1;
        }
        r
    }

    /// All roots with their ids, in order.
    pub fn roots(&self) -> (r: Vec<(RootId, &Root<O, C, RE, LE, TE>)>)
        requires
            self.ids_fit(),
        ensures
            r@.len() == self.roots@.len(),
            forall|i: int| #![trigger r@[i]] 0 <= i < r@.len() ==> r@[i].0.0 == i && *r@[i].1 == self.roots@[i],
    {
        let mut r: Vec<(RootId, &Root<O, C, RE, LE, TE>)> = Vec::new();
        let mut i: usize = 0;
        while i < self.roots.len()
            invariant
                i <= self.roots@.len(),
                self.roots@.len() <= u32::MAX as int + 1,
                r@.len() == i,
                forall|k: int| #![trigger r@[k]] 0 <= k < r@.len() ==> r@[k].0.0 == k && *r@[k].1 == self.roots@[k],
            decreases self.roots@.len() - i,
        {
            r.push((RootId(i as u32), &self.roots[i]));
            i = i + 1;
        }
        r
    }
}

impl<O, C, LE, TE> Tree<O, C, LE, TE> {
    #[inline]
    pub fn deltas(&self) -> (r: &Vec<(TokenId, TreeDelta<O, C, LE, TE>)>)
        ensures
            *r == self.deltas,
    {
        &self.deltas
    }

    #[inline]
    pub fn extends(&self) -> (r: &[(RootId, Option<LabelId>, C)])
        ensures
            r@ == self.extends@,
    {
        self.extends.as_slice()
    }

    #[inline]
    pub fn default(&self) -> (r: &Leaf<O>)
        ensures
            *r == self.default,
    {
        &self.default
    }

    #[inline]
    pub fn extra(&self) -> (r: &TE)
        ensures
            *r == self.extra,
    {
        &self.extra
    }
}

impl<O, C, LE, TE> Branch<O, C, LE, TE> {
    #[inline]
    pub fn label(&self) -> (r: Option<LabelId>)
        ensures
            r == self.label,
    {
        self.label
    }

    #[inline]
    pub fn out(&self) -> (r: &O)
        ensures
            *r == self.out,
    {
        &self.out
    }

    #[inline]
    pub fn as_tree(&self) -> (r: &Tree<O, C, LE, TE>)
        ensures
            *r == self.tree,
    {
        &self.tree
    }
}

} // verus!
