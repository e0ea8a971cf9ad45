use vstd::prelude::*;

use super::flatten::{deltas_ok, extend_ok, keys_distinct, leaf_ok, tree_ok};
use super::ids::{LabelId, RootId, TokenId};
use super::path_set::roots_ok;
use super::tree::{Leaf, Root, Tree, TreeDelta, TreeMap};

verus! {

/// Whether a leaf's label, if any, names a subtree of root `r`; see
/// [`leaf_ok`].
fn check_leaf<O, C, RE, LE, TE>(roots: &Vec<Root<O, C, RE, LE, TE>>, r: RootId, l: &Leaf<O>) -> (b: bool)
    requires
        r.0 < roots@.len(),
    ensures
        b == leaf_ok(roots@, r, *l),
{
    let label: Option<LabelId> = match l {
        Leaf::Goto(lab, _) => Some(*lab),
        Leaf::Retry(Some(lab)) => Some(*lab),
        _ => None,
    };
    match label {
        Some(lab) => roots[r.0 as usize].tree.search_label_path(lab).is_some(),
        None => true,
    }
}

/// Whether no token has two deltas; see [`keys_distinct`].
fn check_keys_distinct<T>(ds: &Vec<(TokenId, T)>) -> (b: bool)
    ensures
        b == keys_distinct(ds@),
{
    let mut j: usize = 0;
    while j < ds.len()
        invariant
            j <= ds@.len(),
            forall|a: int, c: int| 0 <= a < c < j ==> ds@[a].0 != ds@[c].0,
        decreases ds@.len() - j,
    {
        let mut i: usize = 0;
        while i < j
            invariant
                j < ds@.len(),
                i <= j,
                forall|a: int| 0 <= a < i ==> ds@[a].0 != ds@[j as int].0,
            decreases j - i,
        {
            if ds[i].0.0 == ds[j].0.0 {
                return false;
            }
            i = i + 1;
        }
        j = j + 1;
    }
    true
}

/// Whether an extend names a root and, if it has a label, a subtree of
/// that root; see [`extend_ok`].
fn check_extend<O, C, RE, LE, TE>(roots: &Vec<Root<O, C, RE, LE, TE>>, x: &(RootId, Option<LabelId>, C)) -> (b: bool)
    ensures
        b == extend_ok(roots@, *x),
{
    if x.0.0 as usize >= roots.len() {
        return false;
    }
    roots[x.0.0 as usize].try_resolve_label_path(x.1).is_some()
}

/// Whether a subtree of root `r` refers only to what exists; see
/// [`tree_ok`].
fn check_tree<O, C, RE, LE, TE>(roots: &Vec<Root<O, C, RE, LE, TE>>, ntok: usize, r: RootId, t: &Tree<O, C, LE, TE>) -> (b: bool)
    requires
        r.0 < roots@.len(),
    ensures
        b == tree_ok(roots@, ntok as nat, r, *t),
    decreases *t,
{
    if !check_keys_distinct(&t.deltas) {
        return false;
    }
    let mut i: usize = 0;
    while i < t.deltas.len()
        invariant
            r.0 < roots@.len(),
            i <= t.deltas@.len(),
            deltas_ok(roots@, ntok as nat, r, t.deltas@, 0) == deltas_ok(roots@, ntok as nat, r, t.deltas@, i as int),
        decreases t.deltas@.len() - i,
    {
        if t.deltas[i].0.0 as usize >= ntok {
            return false;
        }
        let ok = match &t.deltas[i].1 {
            TreeDelta::Leaf(l, _) => check_leaf(roots, r, l),
            TreeDelta::Branch(b) => check_tree(roots, ntok, r, &b.tree),
        };
        if !ok {
            return false;
        }
        i = i + 1;
    }
    if !check_leaf(roots, r, &t.default) {
        return false;
    }
    let mut k: usize = 0;
    while k < t.extends.len()
        invariant
            k <= t.extends@.len(),
            forall|a: int| 0 <= a < k ==> #[trigger] extend_ok(roots@, t.extends@[a]),
        decreases t.extends@.len() - k,
    {
        if !check_extend(roots, &t.extends[k]) {
            return false;
        }
        k = k + 1;
    }
    true
}

impl<O, C, TD, RE, LE, TE> TreeMap<O, C, TD, RE, LE, TE> {
    /// Whether the map can be flattened (see [`Self::flatten_ok`]): there
    /// are at most as many roots as root ids, and every root refers only to
    /// tokens, roots and labels that exist, with at most one delta per token
    /// in each subtree.
    pub fn check_flatten_ok(&self) -> (r: bool)
        ensures
            r == self.flatten_ok(),
    {
        if self.roots.len() as u64 > 0x1_0000_0000u64 {
            return false;
        }
        let ntok = self.tokens.len();
        let mut i: usize = 0;
        while i < self.roots.len()
            invariant
                self.roots@.len() <= u32::MAX as int + 1,
                ntok == self.tokens@.len(),
                i <= self.roots@.len(),
                forall|a: int| 0 <= a < i ==> tree_ok(self.roots@, ntok as nat, RootId(a as u32), #[trigger] self.roots@[a].tree),
            decreases self.roots@.len() - i,
        {
            if !check_tree(&self.roots, ntok, RootId(i as u32), &self.roots[i].tree) {
                return false;
            }
            i = i + 1;
        }
        true
    }
}

} // verus!
