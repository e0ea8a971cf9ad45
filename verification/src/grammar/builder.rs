use vstd::prelude::*;

use super::tree::TreeMap;

verus! {

/// A name in a grammar definition: of a token, a root, or a label.
pub type Name = u32;

/// The first index at or after `i` of an entry keyed `k`, or -1.
pub open spec fn find_key<V>(s: Seq<(Name, V)>, k: Name, i: int) -> int
    decreases s.len() - i,
{
    if i < 0 || i >= s.len() {
        -1
    } else if s[i].0 == k {
        i
    } else {
        find_key(s, k, i + 1)
    }
}

/// The first index of an entry keyed `k` is that of an entry with that key,
/// and no earlier entry has it.
pub proof fn lemma_find_key<V>(s: Seq<(Name, V)>, k: Name, i: int)
    requires
        0 <= i,
    ensures
        find_key(s, k, i) == -1 || (i <= find_key(s, k, i) < s.len() && s[find_key(s, k, i)].0
            == k),
        forall|j: int| i <= j < s.len() && (find_key(s, k, i) == -1 || j < find_key(s, k, i)) ==> s[j].0 != k,
    decreases s.len() - i,
{
    if i < s.len() && s[i].0 != k {
        lemma_find_key(s, k, i + 1);
    }
}

/// A multimap as a sequence of distinct keys, each with the values pushed
/// under it in order.
pub open spec fn mm_view<V>(m: Seq<(Name, Vec<V>)>) -> Seq<(Name, Seq<V>)> {
    m.map_values(|e: (Name, Vec<V>)| (e.0, e.1@))
}

/// Pushing `v` under `k`: appended to the key's values, or as a new last
/// key.
pub open spec fn mm_push<V>(m: Seq<(Name, Seq<V>)>, k: Name, v: V) -> Seq<(Name, Seq<V>)> {
    let i = find_key(m, k, 0);
    if i == -1 {
        m.push((k, seq![v]))
    } else {
        m.update(i, (k, m[i].1.push(v)))
    }
}

/// Keys are distinct and each has at least one value.
pub open spec fn mm_wf<V>(m: Seq<(Name, Seq<V>)>) -> bool {
    &&& forall|i: int, j: int| 0 <= i < j < m.len() ==> m[i].0 != m[j].0
    &&& forall|i: int| 0 <= i < m.len() ==> m[i].1.len() > 0
}

fn find_key_exec<V>(m: &Vec<(Name, V)>, k: Name) -> (r: Option<usize>)
    ensures
        r is None <==> find_key(m@, k, 0) == -1,
        r matches Some(i) ==> i == find_key(m@, k, 0),
{
    let mut i: usize = 0;
    while i < m.len()
        invariant
            i <= m@.len(),
            find_key(m@, k, 0) == find_key(m@, k, i as int),
        decreases m@.len() - i,
    {
        if m[i].0 == k {
            return Some(i);
        }
        i = i + 1;
    }
    None
}

fn multi_push<V>(m: &mut Vec<(Name, Vec<V>)>, k: Name, v: V)
    ensures
        mm_view(final(m)@) == mm_push(mm_view(old(m)@), k, v),
{
    proof {
        assert(forall|j: int| 0 <= j < m@.len() ==> mm_view(m@)[j].0 == m@[j].0);
        assert(m@.map_values(|e: (Name, Vec<V>)| e.0) =~= mm_view(m@).map_values(|e: (Name, Seq<V>)| e.0));
        lemma_find_key_map(m@, k);
        lemma_find_key(m@, k, 0);
    }
    match find_key_exec(m, k) {
        Some(i) => {
            let mut e = m.remove(i);
            e.1.push(v);
            m.insert(i, e);
            proof {
                assert(mm_view(m@) =~= mm_push(mm_view(old(m)@), k, v));
            }
        },
        None => {
            let mut vs = Vec::new();
            vs.push(v);
            m.push((k, vs));
            proof {
                assert(mm_view(m@) =~= mm_push(mm_view(old(m)@), k, v));
            }
        },
    }
}

/// Looking a key up finds the same index in a multimap as in its view.
proof fn lemma_find_key_map<V>(m: Seq<(Name, Vec<V>)>, k: Name)
    ensures
        find_key(m, k, 0) == find_key(mm_view(m), k, 0),
{
    lemma_find_key_map_from(m, k, 0);
}

proof fn lemma_find_key_map_from<V>(m: Seq<(Name, Vec<V>)>, k: Name, i: int)
    requires
        0 <= i,
    ensures
        find_key(m, k, i) == find_key(mm_view(m), k, i),
    decreases m.len() - i,
{
    if i < m.len() {
        lemma_find_key_map_from(m, k, i + 1);
    }
}

/// Pushing keeps a multimap's keys distinct and its value lists non-empty.
pub proof fn lemma_mm_push_wf<V>(m: Seq<(Name, Seq<V>)>, k: Name, v: V)
    requires
        mm_wf(m),
    ensures
        mm_wf(mm_push(m, k, v)),
{
    lemma_find_key(m, k, 0);
}

} // verus!

verus! {

/// A leaf as written: its label reference is still a name, and a goto may
/// leave its output to the default.
#[derive(Debug)]
pub enum LeafBuilder<Output> {
    Output(Output),
    Goto(Name, Option<Output>),
    Retry(Option<Name>),
}

/// A delta as written.
#[derive(Debug)]
pub enum DeltaBuilder<Output, ExtendConversion, LeafExtra, TreeExtra> {
    Leaf(LeafBuilder<Output>, LeafExtra),
    Branch(BranchBuilder<Output, ExtendConversion, LeafExtra, TreeExtra>),
}

/// A branch as written: an optional label, an optional output, and its
/// subtree.
#[derive(Debug)]
pub struct BranchBuilder<Output, ExtendConversion, LeafExtra, TreeExtra> {
    pub label: Option<Name>,
    pub out: Option<Output>,
    pub tree: TreeBuilder<Output, ExtendConversion, LeafExtra, TreeExtra>,
}

/// A tree as written: every delta given for each token name (in the order
/// the names first came), the grammars it extends, and its default.
#[derive(Debug)]
pub struct TreeBuilder<Output, ExtendConversion, LeafExtra, TreeExtra> {
    pub deltas: Vec<(Name, Vec<DeltaBuilder<Output, ExtendConversion, LeafExtra, TreeExtra>>)>,
    pub extends: Vec<(Name, Option<Name>, ExtendConversion)>,
    pub default: Option<LeafBuilder<Output>>,
    pub extra: TreeExtra,
}

/// A grammar definition as written: every definition given for each token
/// name and each root name.
#[derive(Debug)]
pub struct TreeMapBuilder<Output, ExtendConversion, TokenDef, RootExtra, LeafExtra, TreeExtra> {
    pub tokens: Vec<(Name, Vec<TokenDef>)>,
    pub roots: Vec<(Name, Vec<(TreeBuilder<Output, ExtendConversion, LeafExtra, TreeExtra>, RootExtra)>)>,
}

/// The delta lists of a tree and of all its subtrees have distinct token
/// names and no empty list.
pub open spec fn tb_wf<O, C, LE, TE>(tb: TreeBuilder<O, C, LE, TE>) -> bool
    decreases tb, 0int,
{
    &&& mm_wf(mm_view(tb.deltas@))
    &&& entries_wf(tb.deltas@, 0)
}

/// [`tb_wf`] for the subtrees of the delta lists from index `i` on.
pub open spec fn entries_wf<O, C, LE, TE>(es: Seq<(Name, Vec<DeltaBuilder<O, C, LE, TE>>)>, i: int) -> bool
    decreases es, es.len() - i,
{
    if i < 0 || i >= es.len() {
        true
    } else {
        &&& deltas_wf(es[i].1@, 0)
        &&& entries_wf(es, i + 1)
    }
}

/// [`tb_wf`] for the branch subtrees among `ds` from index `k` on.
pub open spec fn deltas_wf<O, C, LE, TE>(ds: Seq<DeltaBuilder<O, C, LE, TE>>, k: int) -> bool
    decreases ds, ds.len() - k,
{
    if k < 0 || k >= ds.len() {
        true
    } else {
        &&& match ds[k] {
            DeltaBuilder::Branch(b) => tb_wf(b.tree),
            DeltaBuilder::Leaf(..) => true,
        }
        &&& deltas_wf(ds, k + 1)
    }
}

impl<O, C, LE, TE> TreeBuilder<O, C, LE, TE> {
    /// An empty tree: no deltas, no extends, no default.
    pub fn new(extra: TE) -> (r: Self)
        ensures
            r.deltas@.len() == 0,
            r.extends@.len() == 0,
            r.default is None,
            r.extra == extra,
            tb_wf(r),
    {
        let r = TreeBuilder { deltas: Vec::new(), extends: Vec::new(), default: None, extra };
        proof {
            assert(mm_view(r.deltas@) =~= Seq::<(Name, Seq<DeltaBuilder<O, C, LE, TE>>)>::empty());
        }
        r
    }

    pub fn leaf_with_extra(&mut self, token: Name, leaf: LeafBuilder<O>, extra: LE)
        ensures
            mm_view(final(self).deltas@) == mm_push(
                mm_view(old(self).deltas@),
                token,
                DeltaBuilder::Leaf(leaf, extra),
            ),
            final(self).extends == old(self).extends,
            final(self).default == old(self).default,
            final(self).extra == old(self).extra,
    {
        multi_push(&mut self.deltas, token, DeltaBuilder::Leaf(leaf, extra));
    }

    pub fn branch_with_extra(&mut self, token: Name, branch: BranchBuilder<O, C, LE, TE>)
        ensures
            mm_view(final(self).deltas@) == mm_push(
                mm_view(old(self).deltas@),
                token,
                DeltaBuilder::Branch(branch),
            ),
            final(self).extends == old(self).extends,
            final(self).default == old(self).default,
            final(self).extra == old(self).extra,
    {
        multi_push(&mut self.deltas, token, DeltaBuilder::Branch(branch));
    }

    /// [`Self::leaf_with_extra`] with the default leaf extra.
    pub fn leaf(&mut self, token: Name, leaf: LeafBuilder<O>)
        where
            LE: Default,
        ensures
            exists|e: LE|
                mm_view(final(self).deltas@) == #[trigger] mm_push(mm_view(old(self).deltas@), token, DeltaBuilder::Leaf(leaf, e)),
            final(self).extends == old(self).extends,
            final(self).default == old(self).default,
            final(self).extra == old(self).extra,
    {
        let e = LE::default();
        self.leaf_with_extra(token, leaf, e);
    }

    pub fn extend(&mut self, root: Name, label: Option<Name>, conversion: C)
        ensures
            final(self).extends@ == old(self).extends@.push((root, label, conversion)),
            final(self).deltas == old(self).deltas,
            final(self).default == old(self).default,
            final(self).extra == old(self).extra,
    {
        self.extends.push((root, label, conversion));
    }

    pub fn default(&mut self, leaf: LeafBuilder<O>)
        ensures
            final(self).default == Some(leaf),
            final(self).deltas == old(self).deltas,
            final(self).extends == old(self).extends,
            final(self).extra == old(self).extra,
    {
        self.default = Some(leaf);
    }
}

impl<O, C, LE, TE> BranchBuilder<O, C, LE, TE> {
    /// A branch with no label and no output over an empty tree.
    pub fn new(extra: TE) -> (r: Self)
        ensures
            r.label is None,
            r.out is None,
            r.tree.deltas@.len() == 0,
            r.tree.extends@.len() == 0,
            r.tree.default is None,
            r.tree.extra == extra,
            tb_wf(r.tree),
    {
        BranchBuilder { label: None, out: None, tree: TreeBuilder::new(extra) }
    }

    pub fn label(&mut self, label: Name)
        ensures
            final(self).label == Some(label),
            final(self).out == old(self).out,
            final(self).tree == old(self).tree,
    {
        self.label = Some(label);
    }

    pub fn out(&mut self, out: O)
        ensures
            final(self).out == Some(out),
            final(self).label == old(self).label,
            final(self).tree == old(self).tree,
    {
        self.out = Some(out);
    }
}

impl<O, C, TD, RE, LE, TE> TreeMap<O, C, TD, RE, LE, TE> {
    /// A builder that holds no token and no root yet.
    pub fn builder() -> (r: TreeMapBuilder<O, C, TD, RE, LE, TE>)
        ensures
            r.tokens@.len() == 0,
            r.roots@.len() == 0,
    {
        TreeMapBuilder::new()
    }
}

impl<O, C, TD, RE, LE, TE> TreeMapBuilder<O, C, TD, RE, LE, TE> {
    pub fn new() -> (r: Self)
        ensures
            r.tokens@.len() == 0,
            r.roots@.len() == 0,
    {
        TreeMapBuilder { tokens: Vec::new(), roots: Vec::new() }
    }

    pub fn token(&mut self, name: Name, def: TD)
        ensures
            mm_view(final(self).tokens@) == mm_push(mm_view(old(self).tokens@), name, def),
            final(self).roots == old(self).roots,
    {
        multi_push(&mut self.tokens, name, def);
    }

    pub fn root_with_extra(
        &mut self,
        name: Name,
        root_extra: RE,
        tree: TreeBuilder<O, C, LE, TE>,
    )
        ensures
            mm_view(final(self).roots@) == mm_push(mm_view(old(self).roots@), name, (tree, root_extra)),
            final(self).tokens == old(self).tokens,
    {
        multi_push(&mut self.roots, name, (tree, root_extra));
    }

    /// [`Self::root_with_extra`] with the default root extra.
    pub fn root(&mut self, name: Name, tree: TreeBuilder<O, C, LE, TE>)
        where
            RE: Default,
        ensures
            exists|e: RE| mm_view(final(self).roots@) == #[trigger] mm_push(mm_view(old(self).roots@), name, (tree, e)),
            final(self).tokens == old(self).tokens,
    {
        let e = RE::default();
        self.root_with_extra(name, e, tree);
    }
}

} // verus!
