use vstd::prelude::*;

use super::builder::{
    find_key, BranchBuilder, DeltaBuilder, LeafBuilder, Name, TreeBuilder,
    TreeMapBuilder,
};
use super::ids::{LabelId, RootId, TokenId};
use super::tree::{Branch, Leaf, Root, Tree, TreeDelta, TreeMap};
use crate::accept::AcceptState;

verus! {

/// What building a grammar definition found wrong with it.
#[derive(Debug)]
pub enum BuildError<TokenDef, RootExtra, LeafExtra, TreeExtra> {
    /// A token name was defined more than once; one error per definition.
    DuplicateToken(Name, TokenDef),
    /// A root name was defined more than once; one error per definition.
    DuplicateRoot(Name, RootExtra, TreeExtra),
    /// A tree of the root has several leaves for the token.
    DuplicateLeaf(Name, Name, LeafExtra),
    /// A tree of the root has several branches for the token.
    DuplicateBranch(Name, Name, TreeExtra),
    /// The root labels several branches with the label.
    DuplicateLabel(Name, Name),
    UnknownToken(Name),
    UnknownRoot(Name),
    /// The root refers to a label none of its branches carries.
    UnknownLabel(Name, Name),
}

/// How far a label is known within a root.
#[derive(Debug, Clone, Copy, PartialEq, Eq, Structural)]
pub enum Res {
    /// Referred to, but no branch carries it yet.
    Unresolved,
    /// Exactly one branch carries it.
    Resolved,
    /// Several branches carry it.
    Duplicate,
}

/// The label bookkeeping of a build: label names by id, what each root knows
/// of each label, and the extra references to labels not yet resolved.
pub type LSt = (Seq<Name>, Seq<(Name, Name, Res)>, Seq<(Name, Name)>);

/// The label bookkeeping of a build.
pub struct LabelMap {
    pub names: Vec<Name>,
    pub res: Vec<(Name, Name, Res)>,
    pub pending: Vec<(Name, Name)>,
}

impl LabelMap {
    pub open spec fn st(self) -> LSt {
        (self.names@, self.res@, self.pending@)
    }
}

/// The first index at or after `i` holding `x`, or -1.
pub open spec fn find_name(s: Seq<Name>, x: Name, i: int) -> int
    decreases s.len() - i,
{
    if i < 0 || i >= s.len() {
        -1
    } else if s[i] == x {
        i
    } else {
        find_name(s, x, i + 1)
    }
}

/// The first index at or after `j` of what `root` knows of label `label`, or -1.
pub open spec fn find_res(res: Seq<(Name, Name, Res)>, label: Name, root: Name, j: int) -> int
    decreases res.len() - j,
{
    if j < 0 || j >= res.len() {
        -1
    } else if res[j].0 == label && res[j].1 == root {
        j
    } else {
        find_res(res, label, root, j + 1)
    }
}

/// Meeting label `label` in root `root`, as a branch's own label (`used`) or
/// as a reference: the bookkeeping after it, the label's id, and the errors
/// it raises. A new label name gets the next id.
pub open spec fn resolve_spec<TD, RE, LE, TE>(st: LSt, label: Name, root: Name, used: bool) -> (
    LSt,
    LabelId,
    Seq<BuildError<TD, RE, LE, TE>>,
) {
    let fresh = if used {
        Res::Resolved
    } else {
        Res::Unresolved
    };
    let li = find_name(st.0, label, 0);
    if li == -1 {
        let id = st.0.len() as u32;
        ((st.0.push(label), st.1.push((label, root, fresh)), st.2), LabelId(id), Seq::empty())
    } else {
        let id = li as u32;
        let j = find_res(st.1, label, root, 0);
        if j == -1 {
            ((st.0, st.1.push((label, root, fresh)), st.2), LabelId(id), Seq::empty())
        } else {
            match (used, st.1[j].2) {
                (true, Res::Unresolved) => (
                    (st.0, st.1.update(j, (label, root, Res::Resolved)), st.2),
                    LabelId(id),
                    Seq::empty(),
                ),
                (true, Res::Resolved) => (
                    (st.0, st.1.update(j, (label, root, Res::Duplicate)), st.2),
                    LabelId(id),
                    seq![BuildError::DuplicateLabel(root, label), BuildError::DuplicateLabel(root, label)],
                ),
                (true, Res::Duplicate) => (st, LabelId(id), seq![BuildError::DuplicateLabel(root, label)]),
                (false, Res::Unresolved) => ((st.0, st.1, st.2.push((label, root))), LabelId(id), Seq::empty()),
                (false, _) => (st, LabelId(id), Seq::empty()),
            }
        }
    }
}

fn find_name_exec(s: &Vec<Name>, x: Name) -> (r: Option<usize>)
    ensures
        r is None <==> find_name(s@, x, 0) == -1,
        r matches Some(i) ==> i == find_name(s@, x, 0) && i < s@.len(),
{
    let mut i: usize = 0;
    while i < s.len()
        invariant
            i <= s@.len(),
            find_name(s@, x, 0) == find_name(s@, x, i as int),
        decreases s@.len() - i,
    {
        if s[i] == x {
            return Some(i);
        }
        i = i + 1;
    }
    None
}

fn find_res_exec(res: &Vec<(Name, Name, Res)>, label: Name, root: Name) -> (r: Option<usize>)
    ensures
        r is None <==> find_res(res@, label, root, 0) == -1,
        r matches Some(j) ==> j == find_res(res@, label, root, 0) && j < res@.len() && res@[j as int].0
            == label && res@[j as int].1 == root,
{
    let mut j: usize = 0;
    while j < res.len()
        invariant
            j <= res@.len(),
            find_res(res@, label, root, 0) == find_res(res@, label, root, j as int),
        decreases res@.len() - j,
    {
        if res[j].0 == label && res[j].1 == root {
            return Some(j);
        }
        j = j + 1;
    }
    None
}

impl LabelMap {
    pub fn new() -> (r: LabelMap)
        ensures
            r.st() == (Seq::<Name>::empty(), Seq::<(Name, Name, Res)>::empty(), Seq::<(Name, Name)>::empty()),
    {
        LabelMap { names: Vec::new(), res: Vec::new(), pending: Vec::new() }
    }

    /// Meets a label; see [`resolve_spec`].
    pub fn resolve<TD, RE, LE, TE>(
        &mut self,
        label: Name,
        root: Name,
        used: bool,
        errors: &mut Vec<BuildError<TD, RE, LE, TE>>,
    ) -> (r: LabelId)
        requires
            resolve_spec::<TD, RE, LE, TE>(old(self).st(), label, root, used).0.0.len() <= u32::MAX + 1,
        ensures
            ({
                let s = resolve_spec::<TD, RE, LE, TE>(old(self).st(), label, root, used);
                &&& final(self).st() == s.0
                &&& r == s.1
                &&& final(errors)@ == old(errors)@ + s.2
            }),
    {
        let ghost s = resolve_spec::<TD, RE, LE, TE>(self.st(), label, root, used);
        let fresh = if used {
            Res::Resolved
        } else {
            Res::Unresolved
        };
        match find_name_exec(&self.names, label) {
            None => {
                let id = self.names.len() as u32;
                self.names.push(label);
                self.res.push((label, root, fresh));
                proof {
                    assert(errors@ =~= old(errors)@ + s.2);
                }
                LabelId(id)
            },
            Some(li) => {
                let id = li as u32;
                match find_res_exec(&self.res, label, root) {
                    None => {
                        self.res.push((label, root, fresh));
                        proof {
                            assert(errors@ =~= old(errors)@ + s.2);
                        }
                    },
                    Some(j) => {
                        let known = self.res[j].2;
                        if used {
                            match known {
                                Res::Unresolved => {
                                    self.res.set(j, (label, root, Res::Resolved));
                                    proof {
                                        assert(errors@ =~= old(errors)@ + s.2);
                                    }
                                },
                                Res::Resolved => {
                                    self.res.set(j, (label, root, Res::Duplicate));
                                    errors.push(BuildError::DuplicateLabel(root, label));
                                    errors.push(BuildError::DuplicateLabel(root, label));
                                    proof {
                                        assert(errors@ =~= old(errors)@ + s.2);
                                    }
                                },
                                Res::Duplicate => {
                                    errors.push(BuildError::DuplicateLabel(root, label));
                                    proof {
                                        assert(errors@ =~= old(errors)@ + s.2);
                                    }
                                },
                            }
                        } else {
                            match known {
                                Res::Unresolved => {
                                    self.pending.push((label, root));
                                },
                                _ => {},
                            }
                            proof {
                                assert(errors@ =~= old(errors)@ + s.2);
                            }
                        }
                    },
                }
                LabelId(id)
            },
        }
    }
}

} // verus!

verus! {

/// What a name list says of a name: not listed, listed but unusable (it was
/// defined more than once), or listed with its id.
pub open spec fn lookup_id(ids: Seq<(Name, Option<u32>)>, n: Name) -> Option<Option<u32>> {
    let k = find_key(ids, n, 0);
    if k == -1 {
        None
    } else {
        Some(ids[k].1)
    }
}

/// The output a missing one defaults to.
pub open spec fn or_advance<O: AcceptState>(o: Option<O>) -> O {
    match o {
        Some(o) => o,
        None => O::spec_advance(),
    }
}

/// A built leaf, the bookkeeping after it and its errors.
pub open spec fn leaf_result<O: AcceptState, TD, RE, LE, TE>(l: LeafBuilder<O>, root: Name, st: LSt) -> (
    Leaf<O>,
    LSt,
    Seq<BuildError<TD, RE, LE, TE>>,
) {
    match l {
        LeafBuilder::Output(o) => (Leaf::Output(o), st, Seq::empty()),
        LeafBuilder::Goto(lab, o) => {
            let r = resolve_spec::<TD, RE, LE, TE>(st, lab, root, false);
            (Leaf::Goto(r.1, or_advance(o)), r.0, r.2)
        },
        LeafBuilder::Retry(None) => (Leaf::Retry(None), st, Seq::empty()),
        LeafBuilder::Retry(Some(lab)) => {
            let r = resolve_spec::<TD, RE, LE, TE>(st, lab, root, false);
            (Leaf::Retry(Some(r.1)), r.0, r.2)
        },
    }
}

/// A built default (the trap output when none is given).
pub open spec fn default_result<O: AcceptState, TD, RE, LE, TE>(
    d: Option<LeafBuilder<O>>,
    root: Name,
    st: LSt,
) -> (Leaf<O>, LSt, Seq<BuildError<TD, RE, LE, TE>>) {
    match d {
        None => (Leaf::Output(O::spec_trap()), st, Seq::empty()),
        Some(l) => leaf_result(l, root, st),
    }
}

/// A branch's own label, met as a definition.
pub open spec fn label_step<TD, RE, LE, TE>(label: Option<Name>, root: Name, st: LSt) -> (
    LSt,
    Option<LabelId>,
    Seq<BuildError<TD, RE, LE, TE>>,
) {
    match label {
        None => (st, None, Seq::empty()),
        Some(l) => {
            let r = resolve_spec::<TD, RE, LE, TE>(st, l, root, true);
            (r.0, Some(r.1), r.2)
        },
    }
}

/// The error for one of several deltas given for a token.
pub open spec fn dup_error<O, C, TD, RE, LE, TE>(
    root: Name,
    token: Name,
    d: DeltaBuilder<O, C, LE, TE>,
) -> BuildError<TD, RE, LE, TE> {
    match d {
        DeltaBuilder::Leaf(_, e) => BuildError::DuplicateLeaf(root, token, e),
        DeltaBuilder::Branch(b) => BuildError::DuplicateBranch(root, token, b.tree.extra),
    }
}

/// The errors for the token names among the first `n` delta lists that
/// were given more than one delta, in order.
pub open spec fn dup_errors_upto<O, C, TD, RE, LE, TE>(
    root: Name,
    es: Seq<(Name, Vec<DeltaBuilder<O, C, LE, TE>>)>,
    n: int,
) -> Seq<BuildError<TD, RE, LE, TE>>
    decreases n,
{
    if n <= 0 || n > es.len() {
        Seq::empty()
    } else {
        dup_errors_upto(root, es, n - 1) + if es[n - 1].1@.len() != 1 {
            es[n - 1].1@.map_values(|d: DeltaBuilder<O, C, LE, TE>| dup_error(root, es[n - 1].0, d))
        } else {
            Seq::empty()
        }
    }
}

/// The built extends from index `i` on: unknown roots are reported and
/// dropped, roots defined more than once are dropped, labels are met as
/// references.
pub open spec fn extends_result<C, TD, RE, LE, TE>(
    xs: Seq<(Name, Option<Name>, C)>,
    i: int,
    root: Name,
    rids: Seq<(Name, Option<u32>)>,
    st: LSt,
) -> (Seq<(RootId, Option<LabelId>, C)>, LSt, Seq<BuildError<TD, RE, LE, TE>>)
    decreases xs.len() - i,
{
    if i < 0 || i >= xs.len() {
        (Seq::empty(), st, Seq::empty())
    } else {
        let x = xs[i];
        match lookup_id(rids, x.0) {
            None => {
                let rest = extends_result::<C, TD, RE, LE, TE>(xs, i + 1, root, rids, st);
                (rest.0, rest.1, seq![BuildError::UnknownRoot(x.0)] + rest.2)
            },
            Some(None) => extends_result(xs, i + 1, root, rids, st),
            Some(Some(id)) => {
                let lr: (LSt, Option<LabelId>, Seq<BuildError<TD, RE, LE, TE>>) = match x.1 {
                    None => (st, None, Seq::empty()),
                    Some(l) => {
                        let r = resolve_spec::<TD, RE, LE, TE>(st, l, root, false);
                        (r.0, Some(r.1), r.2)
                    },
                };
                let rest = extends_result::<C, TD, RE, LE, TE>(xs, i + 1, root, rids, lr.0);
                (seq![(RootId(id), lr.1, x.2)] + rest.0, rest.1, lr.2 + rest.2)
            },
        }
    }
}

/// The bookkeeping and errors after building the deltas from index `i` on.
pub open spec fn entries_state<O: AcceptState, C, TD, RE, LE, TE>(
    es: Seq<(Name, Vec<DeltaBuilder<O, C, LE, TE>>)>,
    i: int,
    root: Name,
    tids: Seq<(Name, Option<u32>)>,
    rids: Seq<(Name, Option<u32>)>,
    st: LSt,
) -> (LSt, Seq<BuildError<TD, RE, LE, TE>>)
    decreases es, es.len() - i,
{
    if i < 0 || i >= es.len() {
        (st, Seq::empty())
    } else if es[i].1@.len() != 1 {
        entries_state(es, i + 1, root, tids, rids, st)
    } else {
        match lookup_id(tids, es[i].0) {
            None => {
                let rest = entries_state::<O, C, TD, RE, LE, TE>(es, i + 1, root, tids, rids, st);
                (rest.0, seq![BuildError::UnknownToken(es[i].0)] + rest.1)
            },
            Some(None) => entries_state(es, i + 1, root, tids, rids, st),
            Some(Some(_)) => match es[i].1@[0] {
                DeltaBuilder::Leaf(l, _) => {
                    let lr = leaf_result::<O, TD, RE, LE, TE>(l, root, st);
                    let rest = entries_state::<O, C, TD, RE, LE, TE>(es, i + 1, root, tids, rids, lr.1);
                    (rest.0, lr.2 + rest.1)
                },
                DeltaBuilder::Branch(b) => {
                    let ls = label_step::<TD, RE, LE, TE>(b.label, root, st);
                    let ts = tree_state::<O, C, TD, RE, LE, TE>(b.tree, root, tids, rids, ls.0);
                    let rest = entries_state::<O, C, TD, RE, LE, TE>(es, i + 1, root, tids, rids, ts.0);
                    (rest.0, ls.2 + ts.1 + rest.1)
                },
            },
        }
    }
}

/// The bookkeeping and errors after building a tree of root `root`: first
/// the errors for duplicate deltas, then the deltas, the extends and the
/// default.
pub open spec fn tree_state<O: AcceptState, C, TD, RE, LE, TE>(
    tb: TreeBuilder<O, C, LE, TE>,
    root: Name,
    tids: Seq<(Name, Option<u32>)>,
    rids: Seq<(Name, Option<u32>)>,
    st: LSt,
) -> (LSt, Seq<BuildError<TD, RE, LE, TE>>)
    decreases tb, 0int,
{
    let es = tb.deltas@;
    let d0 = dup_errors_upto::<O, C, TD, RE, LE, TE>(root, es, es.len() as int);
    let en = entries_state::<O, C, TD, RE, LE, TE>(es, 0, root, tids, rids, st);
    let ex = extends_result::<C, TD, RE, LE, TE>(tb.extends@, 0, root, rids, en.0);
    let df = default_result::<O, TD, RE, LE, TE>(tb.default, root, ex.1);
    (df.1, d0 + en.1 + ex.2 + df.2)
}

/// `ds` is what building the deltas from index `i` on gives.
pub open spec fn entries_match<O: AcceptState, C, TD, RE, LE, TE>(
    es: Seq<(Name, Vec<DeltaBuilder<O, C, LE, TE>>)>,
    i: int,
    ds: Seq<(TokenId, TreeDelta<O, C, LE, TE>)>,
    root: Name,
    tids: Seq<(Name, Option<u32>)>,
    rids: Seq<(Name, Option<u32>)>,
    st: LSt,
) -> bool
    decreases es, es.len() - i,
{
    if i < 0 || i >= es.len() {
        ds.len() == 0
    } else if es[i].1@.len() != 1 {
        entries_match::<O, C, TD, RE, LE, TE>(es, i + 1, ds, root, tids, rids, st)
    } else {
        match lookup_id(tids, es[i].0) {
            None => entries_match::<O, C, TD, RE, LE, TE>(es, i + 1, ds, root, tids, rids, st),
            Some(None) => entries_match::<O, C, TD, RE, LE, TE>(es, i + 1, ds, root, tids, rids, st),
            Some(Some(id)) => {
                &&& ds.len() > 0
                &&& ds[0].0 == TokenId(id)
                &&& match es[i].1@[0] {
                    DeltaBuilder::Leaf(l, e) => {
                        let lr = leaf_result::<O, TD, RE, LE, TE>(l, root, st);
                        &&& ds[0].1 == TreeDelta::<O, C, LE, TE>::Leaf(lr.0, e)
                        &&& entries_match::<O, C, TD, RE, LE, TE>(
                            es,
                            i + 1,
                            ds.drop_first(),
                            root,
                            tids,
                            rids,
                            lr.1,
                        )
                    },
                    DeltaBuilder::Branch(b) => {
                        let ls = label_step::<TD, RE, LE, TE>(b.label, root, st);
                        let ts = tree_state::<O, C, TD, RE, LE, TE>(b.tree, root, tids, rids, ls.0);
                        &&& ds[0].1 matches TreeDelta::Branch(b2) && b2.label == ls.1 && b2.out
                            == or_advance(b.out) && tree_match::<O, C, TD, RE, LE, TE>(
                            b.tree,
                            b2.tree,
                            root,
                            tids,
                            rids,
                            ls.0,
                        )
                        &&& entries_match::<O, C, TD, RE, LE, TE>(
                            es,
                            i + 1,
                            ds.drop_first(),
                            root,
                            tids,
                            rids,
                            ts.0,
                        )
                    },
                }
            },
        }
    }
}

/// `t` is what building `tb` for root `root` gives: its deltas for the
/// usable tokens (duplicates and unknown tokens dropped), in order, with
/// labels numbered by [`resolve_spec`], its extends, its default and its
/// extra.
pub open spec fn tree_match<O: AcceptState, C, TD, RE, LE, TE>(
    tb: TreeBuilder<O, C, LE, TE>,
    t: Tree<O, C, LE, TE>,
    root: Name,
    tids: Seq<(Name, Option<u32>)>,
    rids: Seq<(Name, Option<u32>)>,
    st: LSt,
) -> bool
    decreases tb, 0int,
{
    let es = tb.deltas@;
    let en = entries_state::<O, C, TD, RE, LE, TE>(es, 0, root, tids, rids, st);
    let ex = extends_result::<C, TD, RE, LE, TE>(tb.extends@, 0, root, rids, en.0);
    let df = default_result::<O, TD, RE, LE, TE>(tb.default, root, ex.1);
    &&& entries_match::<O, C, TD, RE, LE, TE>(es, 0, t.deltas@, root, tids, rids, st)
    &&& t.extends@ == ex.0
    &&& t.default == df.0
    &&& t.extra == tb.extra
}

/// Meeting a label never forgets a label name.
pub proof fn lemma_resolve_grows<TD, RE, LE, TE>(st: LSt, label: Name, root: Name, used: bool)
    ensures
        resolve_spec::<TD, RE, LE, TE>(st, label, root, used).0.0.len() >= st.0.len(),
{
}

/// Building a leaf never forgets a label name.
pub proof fn lemma_leaf_grows<O: AcceptState, TD, RE, LE, TE>(l: LeafBuilder<O>, root: Name, st: LSt)
    ensures
        leaf_result::<O, TD, RE, LE, TE>(l, root, st).1.0.len() >= st.0.len(),
{
}

/// Building the extends from index `i` on never forgets a label name.
pub proof fn lemma_extends_grows<C, TD, RE, LE, TE>(
    xs: Seq<(Name, Option<Name>, C)>,
    i: int,
    root: Name,
    rids: Seq<(Name, Option<u32>)>,
    st: LSt,
)
    ensures
        extends_result::<C, TD, RE, LE, TE>(xs, i, root, rids, st).1.0.len() >= st.0.len(),
    decreases xs.len() - i,
{
    if 0 <= i < xs.len() {
        let x = xs[i];
        match lookup_id(rids, x.0) {
            None => lemma_extends_grows::<C, TD, RE, LE, TE>(xs, i + 1, root, rids, st),
            Some(None) => lemma_extends_grows::<C, TD, RE, LE, TE>(xs, i + 1, root, rids, st),
            Some(Some(_)) => match x.1 {
                None => lemma_extends_grows::<C, TD, RE, LE, TE>(xs, i + 1, root, rids, st),
                Some(l) => {
                    let r = resolve_spec::<TD, RE, LE, TE>(st, l, root, false);
                    lemma_extends_grows::<C, TD, RE, LE, TE>(xs, i + 1, root, rids, r.0);
                },
            },
        }
    }
}

/// Building the deltas from index `i` on never forgets a label name.
pub proof fn lemma_entries_grows<O: AcceptState, C, TD, RE, LE, TE>(
    es: Seq<(Name, Vec<DeltaBuilder<O, C, LE, TE>>)>,
    i: int,
    root: Name,
    tids: Seq<(Name, Option<u32>)>,
    rids: Seq<(Name, Option<u32>)>,
    st: LSt,
)
    ensures
        entries_state::<O, C, TD, RE, LE, TE>(es, i, root, tids, rids, st).0.0.len() >= st.0.len(),
    decreases es, es.len() - i,
{
    if 0 <= i < es.len() {
        if es[i].1@.len() != 1 {
            lemma_entries_grows::<O, C, TD, RE, LE, TE>(es, i + 1, root, tids, rids, st);
        } else {
            match lookup_id(tids, es[i].0) {
                None => lemma_entries_grows::<O, C, TD, RE, LE, TE>(es, i + 1, root, tids, rids, st),
                Some(None) => lemma_entries_grows::<O, C, TD, RE, LE, TE>(es, i + 1, root, tids, rids, st),
                Some(Some(_)) => match es[i].1@[0] {
                    DeltaBuilder::Leaf(l, _) => {
                        let lr = leaf_result::<O, TD, RE, LE, TE>(l, root, st);
                        lemma_entries_grows::<O, C, TD, RE, LE, TE>(es, i + 1, root, tids, rids, lr.1);
                    },
                    DeltaBuilder::Branch(b) => {
                        let ls = label_step::<TD, RE, LE, TE>(b.label, root, st);
                        let ts = tree_state::<O, C, TD, RE, LE, TE>(b.tree, root, tids, rids, ls.0);
                        lemma_tree_grows::<O, C, TD, RE, LE, TE>(b.tree, root, tids, rids, ls.0);
                        lemma_entries_grows::<O, C, TD, RE, LE, TE>(es, i + 1, root, tids, rids, ts.0);
                    },
                },
            }
        }
    }
}

/// Building a tree never forgets a label name.
pub proof fn lemma_tree_grows<O: AcceptState, C, TD, RE, LE, TE>(
    tb: TreeBuilder<O, C, LE, TE>,
    root: Name,
    tids: Seq<(Name, Option<u32>)>,
    rids: Seq<(Name, Option<u32>)>,
    st: LSt,
)
    ensures
        tree_state::<O, C, TD, RE, LE, TE>(tb, root, tids, rids, st).0.0.len() >= st.0.len(),
    decreases tb, 0int,
{
    let es = tb.deltas@;
    let en = entries_state::<O, C, TD, RE, LE, TE>(es, 0, root, tids, rids, st);
    let ex = extends_result::<C, TD, RE, LE, TE>(tb.extends@, 0, root, rids, en.0);
    lemma_entries_grows::<O, C, TD, RE, LE, TE>(es, 0, root, tids, rids, st);
    lemma_extends_grows::<C, TD, RE, LE, TE>(tb.extends@, 0, root, rids, en.0);
    match tb.default {
        None => {},
        Some(l) => lemma_leaf_grows::<O, TD, RE, LE, TE>(l, root, ex.1),
    }
}

} // verus!

verus! {

fn lookup_exec(ids: &Vec<(Name, Option<u32>)>, n: Name) -> (r: Option<Option<u32>>)
    ensures
        r == lookup_id(ids@, n),
{
    let mut k: usize = 0;
    while k < ids.len()
        invariant
            k <= ids@.len(),
            find_key(ids@, n, 0) == find_key(ids@, n, k as int),
        decreases ids@.len() - k,
    {
        if ids[k].0 == n {
            return Some(ids[k].1);
        }
        k = k + 1;
    }
    None
}

impl<O: AcceptState> LeafBuilder<O> {
    fn build<TD, RE, LE, TE>(
        self,
        root: Name,
        map: &mut LabelMap,
        errors: &mut Vec<BuildError<TD, RE, LE, TE>>,
    ) -> (r: Leaf<O>)
        requires
            leaf_result::<O, TD, RE, LE, TE>(self, root, old(map).st()).1.0.len() <= u32::MAX + 1,
        ensures
            ({
                let s = leaf_result::<O, TD, RE, LE, TE>(self, root, old(map).st());
                &&& r == s.0
                &&& final(map).st() == s.1
                &&& final(errors)@ == old(errors)@ + s.2
            }),
    {
        match self {
            LeafBuilder::Output(o) => {
                proof {
                    assert(errors@ =~= old(errors)@ + Seq::<BuildError<TD, RE, LE, TE>>::empty());
                }
                Leaf::Output(o)
            },
            LeafBuilder::Goto(l, o) => {
                let id = map.resolve(l, root, false, errors);
                let o = match o {
                    Some(o) => o,
                    None => O::advance(),
                };
                Leaf::Goto(id, o)
            },
            LeafBuilder::Retry(None) => {
                proof {
                    assert(errors@ =~= old(errors)@ + Seq::<BuildError<TD, RE, LE, TE>>::empty());
                }
                Leaf::Retry(None)
            },
            LeafBuilder::Retry(Some(l)) => {
                let id = map.resolve(l, root, false, errors);
                Leaf::Retry(Some(id))
            },
        }
    }
}

} // verus!

verus! {

/// The delta lists after their duplicates were reported: same names, the
/// single deltas kept, the others emptied.
pub open spec fn reported<O, C, LE, TE>(
    es: Seq<(Name, Vec<DeltaBuilder<O, C, LE, TE>>)>,
    ds: Seq<(Name, Vec<DeltaBuilder<O, C, LE, TE>>)>,
    from: int,
) -> bool {
    &&& ds.len() + from == es.len()
    &&& forall|k: int|
        #![trigger ds[k]]
        0 <= k < ds.len() ==> {
            &&& ds[k].0 == es[k + from].0
            &&& es[k + from].1@.len() == 1 ==> ds[k] == es[k + from]
            &&& es[k + from].1@.len() != 1 ==> ds[k].1@.len() == 0
        }
}

fn report_duplicates<O, C, TD, RE, LE, TE>(
    deltas: &mut Vec<(Name, Vec<DeltaBuilder<O, C, LE, TE>>)>,
    root: Name,
    errors: &mut Vec<BuildError<TD, RE, LE, TE>>,
)
    ensures
        reported(old(deltas)@, final(deltas)@, 0),
        final(errors)@ == old(errors)@ + dup_errors_upto::<O, C, TD, RE, LE, TE>(
            root,
            old(deltas)@,
            old(deltas)@.len() as int,
        ),
{
    let ghost es = deltas@;
    let mut i: usize = 0;
    while i < deltas.len()
        invariant
            i <= deltas@.len(),
            deltas@.len() == es.len(),
            forall|k: int|
                #![trigger deltas@[k]]
                0 <= k < i ==> {
                    &&& deltas@[k].0 == es[k].0
                    &&& es[k].1@.len() == 1 ==> deltas@[k] == es[k]
                    &&& es[k].1@.len() != 1 ==> deltas@[k].1@.len() == 0
                },
            forall|k: int| i <= k < es.len() ==> #[trigger] deltas@[k] == es[k],
            errors@ == old(errors)@ + dup_errors_upto::<O, C, TD, RE, LE, TE>(root, es, i as int),
        decreases es.len() - i,
    {
        if deltas[i].1.len() != 1 {
            let (name, mut vals) = deltas.remove(i);
            let ghost vs = vals@;
            let ghost before = errors@;
            let ghost n = vs.len();
            while vals.len() > 0
                invariant
                    vals@.len() <= n,
                    n == vs.len(),
                    vals@ == vs.skip(n - vals@.len()),
                    errors@ == before + vs.take(n - vals@.len()).map_values(
                        |d: DeltaBuilder<O, C, LE, TE>| dup_error::<O, C, TD, RE, LE, TE>(root, name, d),
                    ),
                decreases vals@.len(),
            {
                let ghost done = n - vals@.len();
                let d = vals.remove(0);
                let err = match d {
                    DeltaBuilder::Leaf(_, e) => BuildError::DuplicateLeaf(root, name, e),
                    DeltaBuilder::Branch(b) => {
                        let BranchBuilder { label: _, out: _, tree } = b;
                        let TreeBuilder { deltas: _, extends: _, default: _, extra } = tree;
                        BuildError::DuplicateBranch(root, name, extra)
                    },
                };
                errors.push(err);
                proof {
                    assert(vs[done] == d);
                    assert(vals@ =~= vs.skip(n - vals@.len()));
                    assert(vs.take(done + 1) =~= vs.take(done).push(d));
                    assert(errors@ =~= before + vs.take(n - vals@.len()).map_values(
                        |d: DeltaBuilder<O, C, LE, TE>| dup_error::<O, C, TD, RE, LE, TE>(root, name, d),
                    ));
                }
            }
            proof {
                assert(vs.take(n as int) =~= vs);
                assert(es[i as int].1@ == vs);
                assert(errors@ =~= old(errors)@ + dup_errors_upto::<O, C, TD, RE, LE, TE>(root, es, i + 1));
            }
            deltas.insert(i, (name, vals));
        } else {
            proof {
                assert(dup_errors_upto::<O, C, TD, RE, LE, TE>(root, es, i + 1) =~= dup_errors_upto::<O, C, TD, RE, LE, TE>(root, es, i as int));
            }
        }
        i = i + 1;
    }
}

} // verus!

verus! {

fn build_extends<C, TD, RE, LE, TE>(
    xs: Vec<(Name, Option<Name>, C)>,
    root: Name,
    rids: &Vec<(Name, Option<u32>)>,
    map: &mut LabelMap,
    errors: &mut Vec<BuildError<TD, RE, LE, TE>>,
) -> (r: Vec<(RootId, Option<LabelId>, C)>)
    requires
        extends_result::<C, TD, RE, LE, TE>(xs@, 0, root, rids@, old(map).st()).1.0.len() <= u32::MAX + 1,
    ensures
        ({
            let s = extends_result::<C, TD, RE, LE, TE>(xs@, 0, root, rids@, old(map).st());
            &&& r@ == s.0
            &&& final(map).st() == s.1
            &&& final(errors)@ == old(errors)@ + s.2
        }),
{
    let ghost all = xs@;
    let ghost st0 = map.st();
    let ghost e0 = errors@;
    let ghost n0 = map.names@.len();
    let mut xs = xs;
    let mut out: Vec<(RootId, Option<LabelId>, C)> = Vec::new();
    let ghost mut i: int = 0;
    while xs.len() > 0
        invariant
            0 <= i <= all.len(),
            xs@ == all.skip(i),
            ({
                let whole = extends_result::<C, TD, RE, LE, TE>(all, 0, root, rids@, st0);
                let here = extends_result::<C, TD, RE, LE, TE>(all, i, root, rids@, map.st());
                &&& whole.0 == out@ + here.0
                &&& whole.1 == here.1
                &&& e0 + whole.2 == errors@ + here.2
            }),
            extends_result::<C, TD, RE, LE, TE>(all, 0, root, rids@, st0).1.0.len() <= u32::MAX + 1,
        decreases xs@.len(),
    {
        let ghost st = map.st();
        let ghost eb = errors@;
        let ghost ob = out@;
        let x = xs.remove(0);
        proof {
            assert(x == all[i]);
            assert(xs@ =~= all.skip(i + 1));
        }
        let (r, l, c) = x;
        match lookup_exec(rids, r) {
            None => {
                errors.push(BuildError::UnknownRoot(r));
                proof {
                    let here = extends_result::<C, TD, RE, LE, TE>(all, i, root, rids@, st);
                    let next = extends_result::<C, TD, RE, LE, TE>(all, i + 1, root, rids@, st);
                    assert(here.2 =~= seq![BuildError::UnknownRoot(r)] + next.2);
                    assert(eb + here.2 =~= errors@ + next.2);
                }
            },
            Some(None) => {},
            Some(Some(id)) => {
                proof {
                    match l {
                        Some(lv) => {
                            let r = resolve_spec::<TD, RE, LE, TE>(st, lv, root, false);
                            lemma_extends_grows::<C, TD, RE, LE, TE>(all, i + 1, root, rids@, r.0);
                        },
                        None => {},
                    }
                }
                let lab = match l {
                    None => None,
                    Some(l) => Some(map.resolve(l, root, false, errors)),
                };
                out.push((RootId(id), lab, c));
                proof {
                    let here = extends_result::<C, TD, RE, LE, TE>(all, i, root, rids@, st);
                    let next = extends_result::<C, TD, RE, LE, TE>(all, i + 1, root, rids@, map.st());
                    assert(here.0 =~= seq![(RootId(id), lab, c)] + next.0);
                    assert(ob + here.0 =~= out@ + next.0);
                    assert(eb + here.2 =~= errors@ + next.2);
                }
            },
        }
        proof {
            i = i + 1;
        }
    }
    proof {
        assert(out@ =~= out@ + Seq::<(RootId, Option<LabelId>, C)>::empty());
        assert(errors@ =~= errors@ + Seq::<BuildError<TD, RE, LE, TE>>::empty());
    }
    out
}

} // verus!

verus! {

fn build_entries<O: AcceptState, C, TD, RE, LE, TE>(
    deltas: Vec<(Name, Vec<DeltaBuilder<O, C, LE, TE>>)>,
    Ghost(es): Ghost<Seq<(Name, Vec<DeltaBuilder<O, C, LE, TE>>)>>,
    root: Name,
    tids: &Vec<(Name, Option<u32>)>,
    rids: &Vec<(Name, Option<u32>)>,
    map: &mut LabelMap,
    errors: &mut Vec<BuildError<TD, RE, LE, TE>>,
) -> (r: Vec<(TokenId, TreeDelta<O, C, LE, TE>)>)
    requires
        reported(es, deltas@, 0),
        entries_state::<O, C, TD, RE, LE, TE>(es, 0, root, tids@, rids@, old(map).st()).0.0.len() <= u32::MAX + 1,
    ensures
        entries_match::<O, C, TD, RE, LE, TE>(es, 0, r@, root, tids@, rids@, old(map).st()),
        final(map).st() == entries_state::<O, C, TD, RE, LE, TE>(
            es,
            0,
            root,
            tids@,
            rids@,
            old(map).st(),
        ).0,
        final(errors)@ == old(errors)@ + entries_state::<O, C, TD, RE, LE, TE>(
            es,
            0,
            root,
            tids@,
            rids@,
            old(map).st(),
        ).1,
    decreases es, 1int,
{
    let ghost st0 = map.st();
    let ghost e0 = errors@;
    let ghost n0 = map.names@.len();
    let mut deltas = deltas;
    let mut out: Vec<(TokenId, TreeDelta<O, C, LE, TE>)> = Vec::new();
    let ghost mut i: int = 0;
    proof {
        assert forall|rest: Seq<(TokenId, TreeDelta<O, C, LE, TE>)>|
            #![trigger entries_match::<O, C, TD, RE, LE, TE>(es, 0, rest, root, tids@, rids@, st0)]
            entries_match::<O, C, TD, RE, LE, TE>(es, 0, out@ + rest, root, tids@, rids@, st0)
                == entries_match::<O, C, TD, RE, LE, TE>(es, 0, rest, root, tids@, rids@, st0) by {
            assert(out@ + rest =~= rest);
        }
    }
    while deltas.len() > 0
        invariant
            0 <= i <= es.len(),
            reported(es, deltas@, i),
            entries_state::<O, C, TD, RE, LE, TE>(es, 0, root, tids@, rids@, st0).0
                == entries_state::<O, C, TD, RE, LE, TE>(es, i, root, tids@, rids@, map.st()).0,
            e0 + entries_state::<O, C, TD, RE, LE, TE>(es, 0, root, tids@, rids@, st0).1
                == errors@ + entries_state::<O, C, TD, RE, LE, TE>(es, i, root, tids@, rids@, map.st()).1,
            forall|rest: Seq<(TokenId, TreeDelta<O, C, LE, TE>)>|
                #![trigger entries_match::<O, C, TD, RE, LE, TE>(es, i, rest, root, tids@, rids@, map.st())]
                entries_match::<O, C, TD, RE, LE, TE>(es, 0, out@ + rest, root, tids@, rids@, st0)
                    == entries_match::<O, C, TD, RE, LE, TE>(es, i, rest, root, tids@, rids@, map.st()),
            entries_state::<O, C, TD, RE, LE, TE>(es, 0, root, tids@, rids@, st0).0.0.len() <= u32::MAX + 1,
        decreases deltas@.len(),
    {
        let ghost st = map.st();
        let ghost eb = errors@;
        let ghost ob = out@;
        let ghost dold = deltas@;
        let (name, vals) = deltas.remove(0);
        proof {
            assert(dold[0] == (name, vals));
            assert forall|k: int|
                #![trigger deltas@[k]]
                0 <= k < deltas@.len() implies {
                &&& deltas@[k].0 == es[k + (i + 1)].0
                &&& es[k + (i + 1)].1@.len() == 1 ==> deltas@[k] == es[k + (i + 1)]
                &&& es[k + (i + 1)].1@.len() != 1 ==> deltas@[k].1@.len() == 0
            } by {
                assert(deltas@[k] == dold[k + 1]);
            }
            assert(es[i].0 == name);
        }
        if vals.len() != 1 {
            proof {
                assert(es[i].1@.len() != 1);
                assert forall|rest: Seq<(TokenId, TreeDelta<O, C, LE, TE>)>|
                    #![trigger entries_match::<O, C, TD, RE, LE, TE>(es, i + 1, rest, root, tids@, rids@, st)]
                    entries_match::<O, C, TD, RE, LE, TE>(es, 0, out@ + rest, root, tids@, rids@, st0)
                        == entries_match::<O, C, TD, RE, LE, TE>(es, i + 1, rest, root, tids@, rids@, st) by {
                    assert(entries_match::<O, C, TD, RE, LE, TE>(es, i, rest, root, tids@, rids@, st)
                        == entries_match::<O, C, TD, RE, LE, TE>(es, i + 1, rest, root, tids@, rids@, st));
                }
            }
        } else {
            proof {
                assert(es[i] == (name, vals));
            }
            match lookup_exec(tids, name) {
                None => {
                    errors.push(BuildError::UnknownToken(name));
                    proof {
                        let here = entries_state::<O, C, TD, RE, LE, TE>(es, i, root, tids@, rids@, st);
                        let next = entries_state::<O, C, TD, RE, LE, TE>(es, i + 1, root, tids@, rids@, st);
                        assert(here.1 == seq![BuildError::UnknownToken(name)] + next.1);
                        assert(eb + here.1 =~= errors@ + next.1);
                        assert forall|rest: Seq<(TokenId, TreeDelta<O, C, LE, TE>)>|
                            #![trigger entries_match::<O, C, TD, RE, LE, TE>(es, i + 1, rest, root, tids@, rids@, st)]
                            entries_match::<O, C, TD, RE, LE, TE>(es, 0, out@ + rest, root, tids@, rids@, st0)
                                == entries_match::<O, C, TD, RE, LE, TE>(es, i + 1, rest, root, tids@, rids@, st) by {
                            assert(entries_match::<O, C, TD, RE, LE, TE>(es, i, rest, root, tids@, rids@, st)
                                == entries_match::<O, C, TD, RE, LE, TE>(es, i + 1, rest, root, tids@, rids@, st));
                        }
                    }
                },
                Some(None) => {
                    proof {
                        assert forall|rest: Seq<(TokenId, TreeDelta<O, C, LE, TE>)>|
                            #![trigger entries_match::<O, C, TD, RE, LE, TE>(es, i + 1, rest, root, tids@, rids@, st)]
                            entries_match::<O, C, TD, RE, LE, TE>(es, 0, out@ + rest, root, tids@, rids@, st0)
                                == entries_match::<O, C, TD, RE, LE, TE>(es, i + 1, rest, root, tids@, rids@, st) by {
                            assert(entries_match::<O, C, TD, RE, LE, TE>(es, i, rest, root, tids@, rids@, st)
                                == entries_match::<O, C, TD, RE, LE, TE>(es, i + 1, rest, root, tids@, rids@, st));
                        }
                    }
                },
                Some(Some(id)) => {
                    let mut vals = vals;
                    let d = vals.remove(0);
                    proof {
                        assert(d == es[i].1@[0]);
                    }
                    match d {
                        DeltaBuilder::Leaf(l, e) => {
                            proof {
                                let lr = leaf_result::<O, TD, RE, LE, TE>(l, root, st);
                                lemma_entries_grows::<O, C, TD, RE, LE, TE>(es, i + 1, root, tids@, rids@, lr.1);
                            }
                            let leaf = l.build::<TD, RE, LE, TE>(root, map, errors);
                            let x = (TokenId(id), TreeDelta::Leaf(leaf, e));
                            out.push(x);
                            proof {
                                let lr = leaf_result::<O, TD, RE, LE, TE>(l, root, st);
                                let here = entries_state::<O, C, TD, RE, LE, TE>(es, i, root, tids@, rids@, st);
                                let next = entries_state::<O, C, TD, RE, LE, TE>(es, i + 1, root, tids@, rids@, map.st());
                                assert(here.1 == lr.2 + next.1);
                                assert(eb + here.1 =~= errors@ + next.1);
                                assert forall|rest: Seq<(TokenId, TreeDelta<O, C, LE, TE>)>|
                                    #![trigger entries_match::<O, C, TD, RE, LE, TE>(es, i + 1, rest, root, tids@, rids@, map.st())]
                                    entries_match::<O, C, TD, RE, LE, TE>(es, 0, out@ + rest, root, tids@, rids@, st0)
                                        == entries_match::<O, C, TD, RE, LE, TE>(es, i + 1, rest, root, tids@, rids@, map.st()) by {
                                    let xr = seq![x] + rest;
                                    assert(ob + xr =~= out@ + rest);
                                    assert(xr.drop_first() =~= rest);
                                    assert(entries_match::<O, C, TD, RE, LE, TE>(es, i, xr, root, tids@, rids@, st)
                                        == entries_match::<O, C, TD, RE, LE, TE>(es, i + 1, rest, root, tids@, rids@, map.st()));
                                }
                            }
                        },
                        DeltaBuilder::Branch(b) => {
                            let ghost bb = b;
                            proof {
                                let ls = label_step::<TD, RE, LE, TE>(bb.label, root, st);
                                let ts = tree_state::<O, C, TD, RE, LE, TE>(bb.tree, root, tids@, rids@, ls.0);
                                lemma_tree_grows::<O, C, TD, RE, LE, TE>(bb.tree, root, tids@, rids@, ls.0);
                                lemma_entries_grows::<O, C, TD, RE, LE, TE>(es, i + 1, root, tids@, rids@, ts.0);
                            }
                            let BranchBuilder { label, out: bo, tree } = b;
                            let lab = match label {
                                None => None,
                                Some(l) => Some(map.resolve(l, root, true, errors)),
                            };
                            let ghost sl = map.st();
                            let ghost el = errors@;
                            let o = match bo {
                                Some(o) => o,
                                None => O::advance(),
                            };
                            let t = tree.build_tree::<TD, RE>(root, tids, rids, map, errors);
                            let x = (TokenId(id), TreeDelta::Branch(Branch { label: lab, out: o, tree: t }));
                            out.push(x);
                            proof {
                                let ls = label_step::<TD, RE, LE, TE>(bb.label, root, st);
                                let ts = tree_state::<O, C, TD, RE, LE, TE>(bb.tree, root, tids@, rids@, ls.0);
                                let here = entries_state::<O, C, TD, RE, LE, TE>(es, i, root, tids@, rids@, st);
                                let next = entries_state::<O, C, TD, RE, LE, TE>(es, i + 1, root, tids@, rids@, map.st());
                                assert(sl == ls.0);
                                assert(el == eb + ls.2);
                                assert(here.1 == ls.2 + ts.1 + next.1);
                                assert(eb + here.1 =~= errors@ + next.1);
                                assert forall|rest: Seq<(TokenId, TreeDelta<O, C, LE, TE>)>|
                                    #![trigger entries_match::<O, C, TD, RE, LE, TE>(es, i + 1, rest, root, tids@, rids@, map.st())]
                                    entries_match::<O, C, TD, RE, LE, TE>(es, 0, out@ + rest, root, tids@, rids@, st0)
                                        == entries_match::<O, C, TD, RE, LE, TE>(es, i + 1, rest, root, tids@, rids@, map.st()) by {
                                    let xr = seq![x] + rest;
                                    assert(ob + xr =~= out@ + rest);
                                    assert(xr.drop_first() =~= rest);
                                    assert(entries_match::<O, C, TD, RE, LE, TE>(es, i, xr, root, tids@, rids@, st)
                                        == entries_match::<O, C, TD, RE, LE, TE>(es, i + 1, rest, root, tids@, rids@, map.st()));
                                }
                            }
                        },
                    }
                },
            }
        }
        proof {
            i = i + 1;
        }
    }
    proof {
        assert(entries_match::<O, C, TD, RE, LE, TE>(es, i, Seq::empty(), root, tids@, rids@, map.st()));
        assert(out@ + Seq::<(TokenId, TreeDelta<O, C, LE, TE>)>::empty() =~= out@);
        assert(errors@ + Seq::<BuildError<TD, RE, LE, TE>>::empty() =~= errors@);
    }
    out
}

} // verus!

verus! {

impl<O: AcceptState, C, LE, TE> TreeBuilder<O, C, LE, TE> {
    /// Builds the tree of root `root`: reports duplicate deltas, then builds
    /// the deltas, the extends and the default, in that order.
    pub(crate) fn build_tree<TD, RE>(
        self,
        root: Name,
        tids: &Vec<(Name, Option<u32>)>,
        rids: &Vec<(Name, Option<u32>)>,
        map: &mut LabelMap,
        errors: &mut Vec<BuildError<TD, RE, LE, TE>>,
    ) -> (r: Tree<O, C, LE, TE>)
        requires
            tree_state::<O, C, TD, RE, LE, TE>(self, root, tids@, rids@, old(map).st()).0.0.len() <= u32::MAX + 1,
        ensures
            tree_match::<O, C, TD, RE, LE, TE>(self, r, root, tids@, rids@, old(map).st()),
            final(map).st() == tree_state::<O, C, TD, RE, LE, TE>(self, root, tids@, rids@, old(map).st()).0,
            final(errors)@ == old(errors)@ + tree_state::<O, C, TD, RE, LE, TE>(
                self,
                root,
                tids@,
                rids@,
                old(map).st(),
            ).1,
        decreases self, 0int,
    {
        let ghost e0 = errors@;
        let ghost sg = self;
        let TreeBuilder { deltas, extends, default, extra } = self;
        let ghost es = deltas@;
        let mut deltas = deltas;
        report_duplicates(&mut deltas, root, errors);
        let ghost e1 = errors@;
        proof {
            let en = entries_state::<O, C, TD, RE, LE, TE>(es, 0, root, tids@, rids@, old(map).st());
            let ex = extends_result::<C, TD, RE, LE, TE>(sg.extends@, 0, root, rids@, en.0);
            lemma_extends_grows::<C, TD, RE, LE, TE>(sg.extends@, 0, root, rids@, en.0);
            match sg.default {
                None => {},
                Some(l) => lemma_leaf_grows::<O, TD, RE, LE, TE>(l, root, ex.1),
            }
        }
        let ds = build_entries(deltas, Ghost(es), root, tids, rids, map, errors);
        let ghost e2 = errors@;
        let xs = build_extends(extends, root, rids, map, errors);
        let ghost e3 = errors@;
        let d = match default {
            None => {
                proof {
                    assert(errors@ =~= errors@ + Seq::<BuildError<TD, RE, LE, TE>>::empty());
                }
                Leaf::Output(O::trap())
            },
            Some(l) => l.build::<TD, RE, LE, TE>(root, map, errors),
        };
        proof {
            assert(errors@ =~= e0 + tree_state::<O, C, TD, RE, LE, TE>(self, root, tids@, rids@, old(map).st()).1);
        }
        Tree { deltas: ds, extends: xs, default: d, extra }
    }
}

} // verus!
