use vstd::prelude::*;

use super::flatten::{
    branch_at, close_adds, close_from, conv_view, deltas_ok, entry_steps, ext_entry, extend_ok,
    find_path, find_tok, ins, label_target, leaf_delta, leaf_ok, lemma_deltas_ok_at,
    lemma_find_tok_distinct, lemma_find_tok_range, lemma_search_walk, lemma_walk_ok,
    lemma_walk_push, path_set_delta, set_steps, tok_step, tree_ok, walk, Entry, LeafOrBranch,
    Path, PathData, PathDeltaV, PathV, TreeOutput,
};
use super::ids::{LabelId, RootId, TokenId};
use super::tree::{Leaf, Root, Tree, TreeDelta};

verus! {

pub open spec fn path_view(p: Path) -> PathV {
    (p.root, p.toks@)
}

pub open spec fn entry_view<'t, O, C, LE, TE>(e: (Path, PathData<'t, O, C, LE, TE>)) -> Entry<O, C, LE, TE> {
    (path_view(e.0), *e.1.tree, conv_view(e.1.conversion@))
}

/// A path set as plain values.
pub open spec fn set_view<'t, O, C, LE, TE>(v: Seq<(Path, PathData<'t, O, C, LE, TE>)>) -> Seq<Entry<O, C, LE, TE>> {
    v.map_values(|e: (Path, PathData<'t, O, C, LE, TE>)| entry_view(e))
}

pub(crate) fn copy_toks(v: &Vec<TokenId>) -> (r: Vec<TokenId>)
    ensures
        r@ == v@,
{
    let mut r: Vec<TokenId> = Vec::new();
    let mut i: usize = 0;
    while i < v.len()
        invariant
            i <= v@.len(),
            r@ == v@.take(i as int),
        decreases v@.len() - i,
    {
        r.push(v[i]);
        proof {
            assert(v@.take(i + 1) =~= v@.take(i as int).push(v@[i as int]));
        }
        i = i + 1;
    }
    proof {
        assert(v@.take(v@.len() as int) =~= v@);
    }
    r
}

pub(crate) fn copy_conv<'t, C>(v: &Vec<&'t C>) -> (r: Vec<&'t C>)
    ensures
        r@ == v@,
{
    let mut r: Vec<&'t C> = Vec::new();
    let mut i: usize = 0;
    while i < v.len()
        invariant
            i <= v@.len(),
            r@ == v@.take(i as int),
        decreases v@.len() - i,
    {
        r.push(v[i]);
        proof {
            assert(v@.take(i + 1) =~= v@.take(i as int).push(v@[i as int]));
        }
        i = i + 1;
    }
    proof {
        assert(v@.take(v@.len() as int) =~= v@);
    }
    r
}

pub(crate) fn copy_path(p: &Path) -> (r: Path)
    ensures
        path_view(r) == path_view(*p),
{
    Path { root: p.root, toks: copy_toks(&p.toks) }
}

pub(crate) fn path_eq(a: &Path, b: &Path) -> (r: bool)
    ensures
        r == (path_view(*a) == path_view(*b)),
{
    if a.root.0 != b.root.0 || a.toks.len() != b.toks.len() {
        return false;
    }
    let mut i: usize = 0;
    while i < a.toks.len()
        invariant
            i <= a.toks@.len(),
            a.toks@.len() == b.toks@.len(),
            forall|k: int| 0 <= k < i ==> a.toks@[k] == b.toks@[k],
        decreases a.toks@.len() - i,
    {
        if a.toks[i].0 != b.toks[i].0 {
            return false;
        }
        i = i + 1;
    }
    proof {
        assert(a.toks@ =~= b.toks@);
    }
    true
}

/// The first index below `n` of an entry at the place of `p`.
pub(crate) fn find_in<'t, O, C, LE, TE>(set: &Vec<(Path, PathData<'t, O, C, LE, TE>)>, p: &Path, n: usize) -> (r: Option<usize>)
    requires
        n <= set@.len(),
    ensures
        r is None <==> find_path(set_view(set@).take(n as int), path_view(*p), 0) == -1,
        r matches Some(j) ==> j == find_path(set_view(set@).take(n as int), path_view(*p), 0) && j < n,
{
    let ghost sv = set_view(set@).take(n as int);
    let mut i: usize = 0;
    while i < n
        invariant
            i <= n <= set@.len(),
            sv == set_view(set@).take(n as int),
            find_path(sv, path_view(*p), 0) == find_path(sv, path_view(*p), i as int),
        decreases n - i,
    {
        if path_eq(&set[i].0, p) {
            proof {
                assert(sv[i as int] == entry_view(set@[i as int]));
            }
            return Some(i);
        }
        proof {
            assert(sv[i as int] == entry_view(set@[i as int]));
        }
        i = i + 1;
    }
    None
}

/// Inserts an entry, in place of the entry at its place or last.
pub(crate) fn ins_entry<'t, O, C, LE, TE>(
    set: &mut Vec<(Path, PathData<'t, O, C, LE, TE>)>,
    e: (Path, PathData<'t, O, C, LE, TE>),
)
    ensures
        set_view(final(set)@) == ins(set_view(old(set)@), entry_view(e)),
{
    let n = set.len();
    let ghost before = set_view(set@);
    proof {
        assert(set_view(set@).take(n as int) =~= before);
    }
    match find_in(set, &e.0, n) {
        Some(j) => {
            set.set(j, e);
            proof {
                assert(set_view(set@) =~= before.update(j as int, entry_view(e)));
            }
        },
        None => {
            set.push(e);
            proof {
                assert(set_view(set@) =~= before.push(entry_view(e)));
            }
        },
    }
}

/// Every root's tree is sound, and every root has an id.
pub open spec fn roots_ok<O, C, RE, LE, TE>(roots: Seq<Root<O, C, RE, LE, TE>>, ntok: nat) -> bool {
    &&& roots.len() <= u32::MAX as int + 1
    &&& forall|r: int| 0 <= r < roots.len() ==> tree_ok(roots, ntok, RootId(r as u32), #[trigger] roots[r].tree)
}

/// An entry's place names a root, and its tokens lead from the root's tree
/// to the entry's subtree.
pub open spec fn entry_ok<O, C, RE, LE, TE>(roots: Seq<Root<O, C, RE, LE, TE>>, e: Entry<O, C, LE, TE>) -> bool {
    &&& e.0.0.0 < roots.len()
    &&& walk(roots[e.0.0.0 as int].tree, e.0.1) == Some(e.1)
}

/// Every entry of a path set is [`entry_ok`].
pub open spec fn all_ok<O, C, RE, LE, TE>(roots: Seq<Root<O, C, RE, LE, TE>>, set: Seq<Entry<O, C, LE, TE>>) -> bool {
    forall|i: int| 0 <= i < set.len() ==> #[trigger] entry_ok(roots, set[i])
}

/// The subtree of a sound entry is sound.
pub proof fn lemma_entry_tree_ok<O, C, RE, LE, TE>(
    roots: Seq<Root<O, C, RE, LE, TE>>,
    ntok: nat,
    e: Entry<O, C, LE, TE>,
)
    requires
        roots_ok(roots, ntok),
        entry_ok(roots, e),
    ensures
        tree_ok(roots, ntok, e.0.0, e.1),
{
    let r = e.0.0.0 as int;
    assert(RootId(r as u32) == e.0.0);
    assert(tree_ok(roots, ntok, RootId(r as u32), roots[r].tree));
    lemma_walk_ok(roots, ntok, e.0.0, roots[r].tree, e.0.1);
}

/// The subtree a sound label reference names is reached by its tokens.
pub proof fn lemma_label_target_ok<O, C, RE, LE, TE>(
    roots: Seq<Root<O, C, RE, LE, TE>>,
    ntok: nat,
    r: RootId,
    label: Option<LabelId>,
)
    requires
        roots_ok(roots, ntok),
        r.0 < roots.len(),
        roots[r.0 as int].spec_resolve_label_path(label) is Some,
    ensures
        walk(roots[r.0 as int].tree, label_target(roots, r, label).1) == Some(label_target(roots, r, label).0),
{
    assert(RootId(r.0 as u32) == r);
    assert(tree_ok(roots, ntok, RootId(r.0 as int as u32), roots[r.0 as int].tree));
    match label {
        None => {},
        Some(l) => {
            lemma_search_walk(roots, ntok, r, roots[r.0 as int].tree, l);
        },
    }
}

/// The first index at or after `i` of an entry at place `p` holds that
/// place, and no earlier one does.
pub proof fn lemma_find_path<O, C, LE, TE>(s: Seq<Entry<O, C, LE, TE>>, p: PathV, i: int)
    requires
        0 <= i,
    ensures
        find_path(s, p, i) == -1 || (i <= find_path(s, p, i) < s.len() && s[find_path(s, p, i)].0 == p),
        forall|j: int| i <= j < s.len() && (find_path(s, p, i) == -1 || j < find_path(s, p, i)) ==> s[j].0 != p,
    decreases s.len() - i,
{
    if i < s.len() && s[i].0 != p {
        lemma_find_path(s, p, i + 1);
    }
}

/// Closes a path set under extends; see [`close_from`].
pub(crate) fn close_set<'t, O, C, RE, LE, TE>(
    roots: &'t Vec<Root<O, C, RE, LE, TE>>,
    set: &mut Vec<(Path, PathData<'t, O, C, LE, TE>)>,
    Ghost(ntok): Ghost<nat>,
    Ghost(fuel): Ghost<nat>,
)
    requires
        roots_ok(roots@, ntok),
        all_ok(roots@, set_view(old(set)@)),
        close_from(roots@, set_view(old(set)@), 0, fuel) is Some,
    ensures
        set_view(final(set)@) == close_from(roots@, set_view(old(set)@), 0, fuel)->0,
        all_ok(roots@, set_view(final(set)@)),
        final(set)@.len() >= old(set)@.len(),
{
    let ghost target = close_from(roots@, set_view(set@), 0, fuel);
    let ghost n_orig = set@.len();
    let ghost mut f: nat = fuel;
    let mut i: usize = 0;
    while i < set.len()
        invariant
            roots_ok(roots@, ntok),
            all_ok(roots@, set_view(set@)),
            close_from(roots@, set_view(set@), i as int, f) == target,
            target is Some,
            set@.len() >= n_orig,
        decreases f,
    {
        let ghost base = set_view(set@);
        let n0 = set.len();
        let tree: &'t Tree<O, C, LE, TE> = set[i].1.tree;
        let conv = copy_conv(&set[i].1.conversion);
        proof {
            assert(base[i as int] == entry_view(set@[i as int]));
            assert(entry_ok(roots@, base[i as int]));
            lemma_entry_tree_ok(roots@, ntok, base[i as int]);
        }
        let ghost xs = tree.extends@;
        let ghost cv = conv_view(conv@);
        let mut k: usize = 0;
        while k < tree.extends.len()
            invariant
                roots_ok(roots@, ntok),
                tree_ok(roots@, ntok, base[i as int].0.0, *tree),
                xs == tree.extends@,
                cv == conv_view(conv@),
                n0 <= set@.len(),
                n0 == base.len(),
                n0 >= n_orig,
                set_view(set@).take(n0 as int) == base,
                all_ok(roots@, set_view(set@)),
                close_adds(roots@, base, set_view(set@), xs, cv, k as int) == close_adds(
                    roots@,
                    base,
                    base,
                    xs,
                    cv,
                    0,
                ),
            decreases xs.len() - k,
        {
            let x = &tree.extends[k];
            proof {
                assert(extend_ok(roots@, xs[k as int]));
            }
            let root: &'t Root<O, C, RE, LE, TE> = &roots[x.0.0 as usize];
            let (t, toks) = root.resolve_label_path(x.1);
            let p = Path { root: x.0, toks };
            let ghost e = ext_entry(roots@, xs[k as int], cv);
            proof {
                lemma_label_target_ok(roots@, ntok, x.0, x.1);
                assert(path_view(p) == e.0);
                assert(*t == e.1);
            }
            let ghost cur = set_view(set@);
            match find_in(set, &p, n0) {
                Some(_) => {
                    proof {
                        assert(set_view(set@).take(n0 as int) == base);
                    }
                },
                None => {
                    let mut c = copy_conv(&conv);
                    c.push(&x.2);
                    let pd = PathData { tree: t, conversion: c };
                    proof {
                        assert(conv_view(c@) =~= cv.push(x.2));
                        assert(entry_view((p, pd)) == e);
                        lemma_find_path(cur, e.0, 0);
                        lemma_find_path(base, e.0, 0);
                        assert forall|j: int| 0 <= j < n0 implies cur[j].0 != e.0 by {
                            assert(cur.take(n0 as int)[j] == cur[j]);
                        }
                    }
                    ins_entry(set, (p, pd));
                    proof {
                        assert(set_view(set@).take(n0 as int) =~= base) by {
                            assert forall|j: int| 0 <= j < n0 implies set_view(set@)[j] == base[j] by {
                                assert(cur.take(n0 as int)[j] == cur[j]);
                            }
                        }
                        assert forall|j: int| 0 <= j < set_view(set@).len() implies #[trigger] entry_ok(roots@, set_view(set@)[j]) by {
                            if j < cur.len() && set_view(set@)[j] == cur[j] {
                            } else {
                                assert(set_view(set@)[j] == e);
                            }
                        }
                    }
                },
            }
            k = k + 1;
        }
        proof {
            f = (f - 1) as nat;
        }
        i = i + 1;
    }
}

/// Where a transition leads, as a path set, and what it yields.
pub struct PathDelta<'t, O, C, LE, TE> {
    pub next: Vec<(Path, PathData<'t, O, C, LE, TE>)>,
    pub output: Option<TreeOutput<'t, O, C>>,
}

pub open spec fn out_view<'t, O, C>(o: Option<TreeOutput<'t, O, C>>) -> Option<(O, Seq<C>)> {
    match o {
        Some(t) => Some((*t.output, conv_view(t.conversion@))),
        None => None,
    }
}

pub open spec fn pd_view<'t, O, C, LE, TE>(pd: PathDelta<'t, O, C, LE, TE>) -> PathDeltaV<O, C, LE, TE> {
    (set_view(pd.next@), out_view(pd.output))
}

pub open spec fn lob_view<'t, O, C, LE, TE>(x: LeafOrBranch<PathDelta<'t, O, C, LE, TE>>) -> LeafOrBranch<
    PathDeltaV<O, C, LE, TE>,
> {
    match x {
        LeafOrBranch::Leaf(pd) => LeafOrBranch::Leaf(pd_view(pd)),
        LeafOrBranch::Branch(pd) => LeafOrBranch::Branch(pd_view(pd)),
    }
}

/// Transitions by token as plain values.
pub open spec fn bt_view<'t, O, C, LE, TE>(bt: Seq<(TokenId, LeafOrBranch<PathDelta<'t, O, C, LE, TE>>)>) -> Seq<
    (TokenId, LeafOrBranch<PathDeltaV<O, C, LE, TE>>),
> {
    bt.map_values(|x: (TokenId, LeafOrBranch<PathDelta<'t, O, C, LE, TE>>)| (x.0, lob_view(x.1)))
}

/// Every transition leads to a non-empty path set of sound entries.
pub open spec fn bt_ok<O, C, RE, LE, TE>(
    roots: Seq<Root<O, C, RE, LE, TE>>,
    bt: Seq<(TokenId, LeafOrBranch<PathDeltaV<O, C, LE, TE>>)>,
) -> bool {
    forall|k: int|
        0 <= k < bt.len() ==> {
            &&& all_ok(roots, #[trigger] bt[k].1.spec_inner().0)
            &&& bt[k].1.spec_inner().0.len() > 0
        }
}

/// The transition a leaf gives; see [`leaf_delta`].
pub(crate) fn leaf_delta_exec<'t, O, C, RE, LE, TE>(
    roots: &'t Vec<Root<O, C, RE, LE, TE>>,
    leaf: &'t Leaf<O>,
    conv: Vec<&'t C>,
    table_root: RootId,
    ext_root: RootId,
    Ghost(ntok): Ghost<nat>,
) -> (r: PathDelta<'t, O, C, LE, TE>)
    requires
        roots_ok(roots@, ntok),
        table_root.0 < roots@.len(),
        ext_root.0 < roots@.len(),
        leaf_ok(roots@, ext_root, *leaf),
    ensures
        pd_view(r) == leaf_delta(roots@, *leaf, conv_view(conv@), table_root, ext_root),
        all_ok(roots@, set_view(r.next@)),
        r.next@.len() == 1,
{
    let ghost cv = conv_view(conv@);
    let home_tree: &'t Tree<O, C, LE, TE> = &roots[table_root.0 as usize].tree;
    proof {
        assert(walk(roots@[table_root.0 as int].tree, Seq::<TokenId>::empty()) == Some(*home_tree));
    }
    let r = match leaf {
        Leaf::Output(o) => {
            let c = copy_conv(&conv);
            let next = vec![(Path { root: table_root, toks: Vec::new() }, PathData { tree: home_tree, conversion: c })];
            PathDelta { next, output: Some(TreeOutput { output: o, conversion: conv }) }
        },
        Leaf::Goto(l, o) => {
            let (t, toks) = roots[ext_root.0 as usize].resolve_label_path(Some(*l));
            proof {
                lemma_label_target_ok(roots@, ntok, ext_root, Some(*l));
            }
            let c = copy_conv(&conv);
            let next = vec![(Path { root: ext_root, toks }, PathData { tree: t, conversion: c })];
            PathDelta { next, output: Some(TreeOutput { output: o, conversion: conv }) }
        },
        Leaf::Retry(None) => {
            let next = vec![(Path { root: table_root, toks: Vec::new() }, PathData { tree: home_tree, conversion: conv })];
            PathDelta { next, output: None }
        },
        Leaf::Retry(Some(l)) => {
            let (t, toks) = roots[ext_root.0 as usize].resolve_label_path(Some(*l));
            proof {
                lemma_label_target_ok(roots@, ntok, ext_root, Some(*l));
            }
            let next = vec![(Path { root: ext_root, toks }, PathData { tree: t, conversion: conv })];
            PathDelta { next, output: None }
        },
    };
    proof {
        assert(set_view(r.next@) =~= leaf_delta(roots@, *leaf, cv, table_root, ext_root).0);
        assert(all_ok(roots@, set_view(r.next@))) by {
            assert forall|i: int| 0 <= i < set_view(r.next@).len() implies #[trigger] entry_ok(roots@, set_view(r.next@)[i]) by {
                assert(i == 0);
            }
        }
    }
    r
}

fn find_tok_exec<T>(bt: &Vec<(TokenId, T)>, tok: TokenId) -> (r: Option<usize>)
    ensures
        r is None <==> find_tok(bt@, tok, 0) == -1,
        r matches Some(j) ==> j == find_tok(bt@, tok, 0) && j < bt@.len(),
{
    let mut i: usize = 0;
    while i < bt.len()
        invariant
            i <= bt@.len(),
            find_tok(bt@, tok, 0) == find_tok(bt@, tok, i as int),
        decreases bt@.len() - i,
    {
        if bt[i].0.0 == tok.0 {
            return Some(i);
        }
        i = i + 1;
    }
    None
}

/// Takes the delta `d` for token `tok` of entry `e`'s subtree into the
/// transitions by token; see [`tok_step`].
fn tok_step_exec<'t, O, C, RE, LE, TE>(
    roots: &'t Vec<Root<O, C, RE, LE, TE>>,
    bt: &mut Vec<(TokenId, LeafOrBranch<PathDelta<'t, O, C, LE, TE>>)>,
    e: &(Path, PathData<'t, O, C, LE, TE>),
    tok: TokenId,
    d: &'t TreeDelta<O, C, LE, TE>,
    table_root: RootId,
    Ghost(ntok): Ghost<nat>,
)
    requires
        roots_ok(roots@, ntok),
        table_root.0 < roots@.len(),
        entry_ok(roots@, entry_view(*e)),
        bt_ok(roots@, bt_view(old(bt)@)),
        match *d {
            TreeDelta::Leaf(l, _) => leaf_ok(roots@, e.0.root, l),
            TreeDelta::Branch(b) => walk(roots@[e.0.root.0 as int].tree, e.0.toks@.push(tok)) == Some(b.tree),
        },
    ensures
        bt_view(final(bt)@) == tok_step(roots@, bt_view(old(bt)@), entry_view(*e), tok, *d, table_root),
        bt_ok(roots@, bt_view(final(bt)@)),
{
    let ghost ev = entry_view(*e);
    let ghost before = bt_view(bt@);
    let ghost np: PathV = (ev.0.0, ev.0.1.push(tok));
    let j = find_tok_exec(bt, tok);
    proof {
        assert forall|k: int| 0 <= k < bt@.len() implies #[trigger] before[k].0 == bt@[k].0 by {}
        assert(bt@.map_values(|x: (TokenId, LeafOrBranch<PathDelta<'t, O, C, LE, TE>>)| x.0) =~= before.map_values(
            |x: (TokenId, LeafOrBranch<PathDeltaV<O, C, LE, TE>>)| x.0,
        ));
        lemma_find_tok_same(bt@, before, tok, 0);
    }
    match j {
        None => {
            let x = match d {
                TreeDelta::Leaf(l, _) => LeafOrBranch::Leaf(
                    leaf_delta_exec(roots, l, copy_conv(&e.1.conversion), table_root, e.0.root, Ghost(ntok)),
                ),
                TreeDelta::Branch(b) => {
                    let mut toks = copy_toks(&e.0.toks);
                    toks.push(tok);
                    let next = vec![
                        (Path { root: e.0.root, toks }, PathData { tree: &b.tree, conversion: copy_conv(&e.1.conversion) }),
                    ];
                    let pd = PathDelta {
                        next,
                        output: Some(TreeOutput { output: &b.out, conversion: copy_conv(&e.1.conversion) }),
                    };
                    proof {
                        assert(set_view(pd.next@) =~= seq![(np, b.tree, ev.2)]);
                        assert(all_ok(roots@, set_view(pd.next@))) by {
                            assert forall|i: int| 0 <= i < set_view(pd.next@).len() implies #[trigger] entry_ok(roots@, set_view(pd.next@)[i]) by {
                                assert(i == 0);
                            }
                        }
                    }
                    LeafOrBranch::Branch(pd)
                },
            };
            bt.push((tok, x));
            proof {
                assert(bt_view(bt@) =~= before.push((tok, lob_view(x))));
            }
        },
        Some(j) => {
            let is_branch = match &bt[j].1 {
                LeafOrBranch::Branch(_) => true,
                LeafOrBranch::Leaf(_) => false,
            };
            proof {
                assert(before[j as int] == (bt@[j as int].0, lob_view(bt@[j as int].1)));
            }
            if is_branch {
                match d {
                    TreeDelta::Leaf(l, _) => {
                        let x = LeafOrBranch::Leaf(
                            leaf_delta_exec(roots, l, copy_conv(&e.1.conversion), table_root, e.0.root, Ghost(ntok)),
                        );
                        bt.set(j, (tok, x));
                        proof {
                            assert(bt_view(bt@) =~= before.update(j as int, (tok, lob_view(x))));
                        }
                    },
                    TreeDelta::Branch(b) => {
                        let ghost oldj = bt@[j as int];
                        let ghost rest = bt@;
                        proof {
                            lemma_find_tok_range(before, tok, 0);
                            assert(all_ok(roots@, before[j as int].1.spec_inner().0));
                        }
                        let (t0, lob) = bt.remove(j);
                        match lob {
                            LeafOrBranch::Branch(mut pd) => {
                                let ghost old_pd = pd_view(pd);
                                proof {
                                    assert(lob_view(oldj.1) == LeafOrBranch::Branch(old_pd));
                                    assert(before[j as int].1 == LeafOrBranch::Branch(old_pd));
                                    assert(t0 == tok);
                                }
                                let mut toks = copy_toks(&e.0.toks);
                                toks.push(tok);
                                let p = Path { root: e.0.root, toks };
                                proof {
                                    assert(path_view(p) == np);
                                    assert(set_view(pd.next@).take(pd.next@.len() as int) =~= set_view(pd.next@));
                                }
                                let n = pd.next.len();
                                let found = find_in(&pd.next, &p, n);
                                if found.is_none() {
                                    let ent = (p, PathData { tree: &b.tree, conversion: copy_conv(&e.1.conversion) });
                                    pd.next.push(ent);
                                    proof {
                                        assert(set_view(pd.next@) =~= old_pd.0.push((np, b.tree, ev.2)));
                                        assert(all_ok(roots@, set_view(pd.next@))) by {
                                            assert forall|i: int| 0 <= i < set_view(pd.next@).len() implies #[trigger] entry_ok(roots@, set_view(pd.next@)[i]) by {
                                                if i < old_pd.0.len() {
                                                    assert(set_view(pd.next@)[i] == old_pd.0[i]);
                                                }
                                            }
                                        }
                                    }
                                }
                                let ghost new_pd = pd_view(pd);
                                proof {
                                    if found.is_none() {
                                        assert(find_path(old_pd.0, np, 0) == -1);
                                        assert(new_pd == (old_pd.0.push((np, b.tree, ev.2)), old_pd.1));
                                    } else {
                                        assert(find_path(old_pd.0, np, 0) != -1);
                                        assert(new_pd == old_pd);
                                    }
                                }
                                let x = LeafOrBranch::Branch(pd);
                                bt.insert(j, (t0, x));
                                proof {
                                    assert(bt@ =~= rest.update(j as int, (t0, x)));
                                    assert(bt_view(bt@) =~= before.update(j as int, (tok, LeafOrBranch::Branch(new_pd))));
                                    assert(bt_view(bt@) =~= tok_step(roots@, before, ev, tok, *d, table_root));
                                }
                            },
                            LeafOrBranch::Leaf(_) => {
                                proof {
                                    assert(false);
                                }
                                bt.insert(j, (t0, lob));
                            },
                        }
                    },
                }
            } else {
                proof {
                    assert(bt_view(bt@) == tok_step(roots@, before, ev, tok, *d, table_root));
                }
            }
        },
    }
    proof {
        assert(bt_ok(roots@, bt_view(bt@))) by {
            assert forall|k: int| 0 <= k < bt_view(bt@).len() implies {
                &&& all_ok(roots@, #[trigger] bt_view(bt@)[k].1.spec_inner().0)
                &&& bt_view(bt@)[k].1.spec_inner().0.len() > 0
            } by {
                if k < before.len() && bt_view(bt@)[k] == before[k] {
                    assert(all_ok(roots@, before[k].1.spec_inner().0));
                }
            }
        }
    }
}

/// Looking a token up finds the same index in transitions and in their view.
proof fn lemma_find_tok_same<A, B>(a: Seq<(TokenId, A)>, b: Seq<(TokenId, B)>, t: TokenId, i: int)
    requires
        a.len() == b.len(),
        forall|k: int| 0 <= k < a.len() ==> a[k].0 == b[k].0,
        0 <= i,
    ensures
        find_tok(a, t, i) == find_tok(b, t, i),
    decreases a.len() - i,
{
    if i < a.len() {
        lemma_find_tok_same(a, b, t, i + 1);
    }
}

/// Takes every delta of a set's entries into the transitions by token, and
/// gives the set's default transition; see [`path_set_delta`].
pub(crate) fn path_set_delta_exec<'t, O, C, RE, LE, TE>(
    roots: &'t Vec<Root<O, C, RE, LE, TE>>,
    set: &Vec<(Path, PathData<'t, O, C, LE, TE>)>,
    table_root: RootId,
    Ghost(ntok): Ghost<nat>,
) -> (r: (Vec<(TokenId, LeafOrBranch<PathDelta<'t, O, C, LE, TE>>)>, PathDelta<'t, O, C, LE, TE>))
    requires
        roots_ok(roots@, ntok),
        table_root.0 < roots@.len(),
        set@.len() > 0,
        all_ok(roots@, set_view(set@)),
    ensures
        (bt_view(r.0@), pd_view(r.1)) == path_set_delta(roots@, set_view(set@), table_root),
        bt_ok(roots@, bt_view(r.0@)),
        all_ok(roots@, set_view(r.1.next@)),
        r.1.next@.len() > 0,
{
    let ghost sv = set_view(set@);
    let mut bt: Vec<(TokenId, LeafOrBranch<PathDelta<'t, O, C, LE, TE>>)> = Vec::new();
    proof {
        assert(bt_view(bt@) =~= Seq::<(TokenId, LeafOrBranch<PathDeltaV<O, C, LE, TE>>)>::empty());
    }
    let mut i: usize = 0;
    while i < set.len()
        invariant
            roots_ok(roots@, ntok),
            table_root.0 < roots@.len(),
            sv == set_view(set@),
            all_ok(roots@, sv),
            i <= set@.len(),
            bt_ok(roots@, bt_view(bt@)),
            set_steps(roots@, bt_view(bt@), sv, i as int, table_root) == set_steps(
                roots@,
                Seq::empty(),
                sv,
                0,
                table_root,
            ),
        decreases set@.len() - i,
    {
        let e = &set[i];
        let tree: &'t Tree<O, C, LE, TE> = e.1.tree;
        let ghost ev = entry_view(*e);
        let ghost bt0 = bt_view(bt@);
        proof {
            assert(sv[i as int] == ev);
            assert(entry_ok(roots@, ev));
            lemma_entry_tree_ok(roots@, ntok, ev);
        }
        let mut k: usize = 0;
        while k < tree.deltas.len()
            invariant
                roots_ok(roots@, ntok),
                table_root.0 < roots@.len(),
                ev == entry_view(*e),
                ev.1 == *tree,
                entry_ok(roots@, ev),
                tree_ok(roots@, ntok, ev.0.0, *tree),
                k <= tree.deltas@.len(),
                bt_ok(roots@, bt_view(bt@)),
                entry_steps(roots@, bt_view(bt@), ev, k as int, table_root) == entry_steps(
                    roots@,
                    bt0,
                    ev,
                    0,
                    table_root,
                ),
            decreases tree.deltas@.len() - k,
        {
            let (tok, d) = &tree.deltas[k];
            let ghost dv = *d;
            proof {
                lemma_deltas_ok_at(roots@, ntok, ev.0.0, tree.deltas@, 0, k as int);
                match dv {
                    TreeDelta::Branch(b) => {
                        lemma_find_tok_distinct(tree.deltas@, k as int, 0);
                        assert(branch_at(*tree, *tok) == Some(b.tree));
                        lemma_walk_push(roots@[ev.0.0.0 as int].tree, ev.0.1, *tok);
                    },
                    TreeDelta::Leaf(..) => {},
                }
            }
            tok_step_exec(roots, &mut bt, e, *tok, d, table_root, Ghost(ntok));
            k = k + 1;
        }
        i = i + 1;
    }
    let first = &set[0];
    let ghost fv = entry_view(*first);
    proof {
        assert(sv[0] == fv);
        assert(entry_ok(roots@, fv));
        lemma_entry_tree_ok(roots@, ntok, fv);
    }
    let default = leaf_delta_exec(
        roots,
        &first.1.tree.default,
        copy_conv(&first.1.conversion),
        table_root,
        first.0.root,
        Ghost(ntok),
    );
    (bt, default)
}

} // verus!
