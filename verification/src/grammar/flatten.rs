use vstd::prelude::*;

use super::ids::{LabelId, RootId, TokenId};
use super::tree::{search_path_from, search_path_tree, Leaf, Root, Tree, TreeDelta};

verus! {

/// An output of a flattened table: the output a tree gives, with the
/// conversions of the extends it was reached through, outermost first.
#[derive(Debug)]
pub struct TreeOutput<'t, Output, ExtendConversion> {
    pub output: &'t Output,
    pub conversion: Vec<&'t ExtendConversion>,
}

/// Where a state of a flattened table stands in its grammar: the root's
/// extra, its tree's extra, and each token on the way with its definition
/// and the extra of the subtree it leads to.
#[derive(Debug)]
pub struct TreeStatePath<'t, TokenDef, RootExtra, TreeExtra> {
    pub root: &'t RootExtra,
    pub root_tree: &'t TreeExtra,
    pub path: Vec<(TokenId, &'t TokenDef, &'t TreeExtra)>,
}

/// A place in a grammar: a root and the tokens leading from its tree to a
/// subtree.
#[derive(Debug)]
pub struct Path {
    pub root: RootId,
    pub toks: Vec<TokenId>,
}

/// The subtree a path leads to, and the conversions of the extends it was
/// reached through.
pub struct PathData<'t, Output, ExtendConversion, LeafExtra, TreeExtra> {
    pub tree: &'t Tree<Output, ExtendConversion, LeafExtra, TreeExtra>,
    pub conversion: Vec<&'t ExtendConversion>,
}

pub open spec fn conv_view<'t, C>(c: Seq<&'t C>) -> Seq<C> {
    c.map_values(|r: &'t C| *r)
}

/// A place as a plain value: a root and a token path.
pub type PathV = (RootId, Seq<TokenId>);

/// An entry of a path set as plain values: the place, the subtree it leads
/// to, and the conversions it was reached through.
pub type Entry<O, C, LE, TE> = (PathV, Tree<O, C, LE, TE>, Seq<C>);

/// Where a transition leads, as a path set, and what it yields, if
/// anything: an output with its conversions.
pub type PathDeltaV<O, C, LE, TE> = (Seq<Entry<O, C, LE, TE>>, Option<(O, Seq<C>)>);

/// The transitions of a path set by token, each token listed once, and its
/// transition on any other token.
pub type SetDeltaV<O, C, LE, TE> = (Seq<(TokenId, LeafOrBranch<PathDeltaV<O, C, LE, TE>>)>, PathDeltaV<O, C, LE, TE>);

/// A transition that a leaf gives, or one that branches give.
#[derive(Debug)]
pub enum LeafOrBranch<T> {
    Leaf(T),
    Branch(T),
}

impl<T> LeafOrBranch<T> {
    pub open spec fn spec_inner(self) -> T {
        match self {
            LeafOrBranch::Leaf(t) => t,
            LeafOrBranch::Branch(t) => t,
        }
    }

    #[inline]
    pub fn inner(&self) -> (r: &T)
        ensures
            *r == self.spec_inner(),
    {
        match self {
            LeafOrBranch::Leaf(t) => t,
            LeafOrBranch::Branch(t) => t,
        }
    }

    #[inline]
    pub fn into_inner(self) -> (r: T)
        ensures
            r == self.spec_inner(),
    {
        match self {
            LeafOrBranch::Leaf(t) => t,
            LeafOrBranch::Branch(t) => t,
        }
    }
}

/// A place as plain numbers: the root's and the tokens'.
pub open spec fn place(p: PathV) -> (u32, Seq<u32>) {
    (p.0.0, p.1.map_values(|t: TokenId| t.0))
}

/// The places of a path set, in order, as plain numbers: what names a
/// state.
pub open spec fn places<O, C, LE, TE>(set: Seq<Entry<O, C, LE, TE>>) -> Seq<(u32, Seq<u32>)> {
    set.map_values(|e: Entry<O, C, LE, TE>| place(e.0))
}

/// The first index at or after `i` of an entry of `set` at place `p`, or -1.
pub open spec fn find_path<O, C, LE, TE>(set: Seq<Entry<O, C, LE, TE>>, p: PathV, i: int) -> int
    decreases set.len() - i,
{
    if i < 0 || i >= set.len() {
        -1
    } else if set[i].0 == p {
        i
    } else {
        find_path(set, p, i + 1)
    }
}

/// Inserts an entry: in place of the entry at its place, or last.
pub open spec fn ins<O, C, LE, TE>(set: Seq<Entry<O, C, LE, TE>>, e: Entry<O, C, LE, TE>) -> Seq<Entry<O, C, LE, TE>> {
    let j = find_path(set, e.0, 0);
    if j == -1 {
        set.push(e)
    } else {
        set.update(j, e)
    }
}

/// The subtree a label stands for in root `r`, with its token path; the
/// root's own tree for no label.
pub open spec fn label_target<O, C, RE, LE, TE>(
    roots: Seq<Root<O, C, RE, LE, TE>>,
    r: RootId,
    label: Option<LabelId>,
) -> (Tree<O, C, LE, TE>, Seq<TokenId>) {
    match roots[r.0 as int].spec_resolve_label_path(label) {
        Some(x) => x,
        None => (roots[r.0 as int].tree, Seq::empty()),
    }
}

/// The entry an extend of a tree reached with conversions `conv` adds.
pub open spec fn ext_entry<O, C, RE, LE, TE>(
    roots: Seq<Root<O, C, RE, LE, TE>>,
    x: (RootId, Option<LabelId>, C),
    conv: Seq<C>,
) -> Entry<O, C, LE, TE> {
    let t = label_target(roots, x.0, x.1);
    ((x.0, t.1), t.0, conv.push(x.2))
}

/// The set `cur` after the extends from index `k` on were added: each whose
/// place `base` lacks, a later one at the same place replacing an earlier.
pub open spec fn close_adds<O, C, RE, LE, TE>(
    roots: Seq<Root<O, C, RE, LE, TE>>,
    base: Seq<Entry<O, C, LE, TE>>,
    cur: Seq<Entry<O, C, LE, TE>>,
    xs: Seq<(RootId, Option<LabelId>, C)>,
    conv: Seq<C>,
    k: int,
) -> Seq<Entry<O, C, LE, TE>>
    decreases xs.len() - k,
{
    if k < 0 || k >= xs.len() {
        cur
    } else {
        let e = ext_entry(roots, xs[k], conv);
        let next = if find_path(base, e.0, 0) == -1 {
            ins(cur, e)
        } else {
            cur
        };
        close_adds(roots, base, next, xs, conv, k + 1)
    }
}

/// The closure of a path set under extends, from entry `i` on: each entry's
/// extends are added in turn, new entries last; `None` if it takes more
/// than `fuel` entries.
pub open spec fn close_from<O, C, RE, LE, TE>(
    roots: Seq<Root<O, C, RE, LE, TE>>,
    set: Seq<Entry<O, C, LE, TE>>,
    i: int,
    fuel: nat,
) -> Option<Seq<Entry<O, C, LE, TE>>>
    decreases fuel,
{
    if i < 0 || i >= set.len() {
        Some(set)
    } else if fuel == 0 {
        None
    } else {
        let next = close_adds(roots, set, set, set[i].1.extends@, set[i].2, 0);
        close_from(roots, next, i + 1, (fuel - 1) as nat)
    }
}

/// The transition a leaf gives, for a path of root `ext_root` reached with
/// conversions `conv`, in the table of root `table_root`.
pub open spec fn leaf_delta<O, C, RE, LE, TE>(
    roots: Seq<Root<O, C, RE, LE, TE>>,
    leaf: Leaf<O>,
    conv: Seq<C>,
    table_root: RootId,
    ext_root: RootId,
) -> PathDeltaV<O, C, LE, TE> {
    let home: Entry<O, C, LE, TE> = ((table_root, Seq::empty()), roots[table_root.0 as int].tree, conv);
    match leaf {
        Leaf::Output(o) => (seq![home], Some((o, conv))),
        Leaf::Goto(l, o) => {
            let t = label_target(roots, ext_root, Some(l));
            (seq![((ext_root, t.1), t.0, conv)], Some((o, conv)))
        },
        Leaf::Retry(None) => (seq![home], None),
        Leaf::Retry(Some(l)) => {
            let t = label_target(roots, ext_root, Some(l));
            (seq![((ext_root, t.1), t.0, conv)], None)
        },
    }
}

/// The first index at or after `i` of the transition for token `t`, or -1.
pub open spec fn find_tok<T>(bt: Seq<(TokenId, T)>, t: TokenId, i: int) -> int
    decreases bt.len() - i,
{
    if i < 0 || i >= bt.len() {
        -1
    } else if bt[i].0 == t {
        i
    } else {
        find_tok(bt, t, i + 1)
    }
}

/// The transitions by token after the delta `d` for `tok` of entry `e`: a
/// new token gets the delta's transition; a leaf replaces branches met
/// before it; a branch adds its place to branches met before it; anything
/// else keeps what was there.
pub open spec fn tok_step<O, C, RE, LE, TE>(
    roots: Seq<Root<O, C, RE, LE, TE>>,
    bt: Seq<(TokenId, LeafOrBranch<PathDeltaV<O, C, LE, TE>>)>,
    e: Entry<O, C, LE, TE>,
    tok: TokenId,
    d: TreeDelta<O, C, LE, TE>,
    table_root: RootId,
) -> Seq<(TokenId, LeafOrBranch<PathDeltaV<O, C, LE, TE>>)> {
    let j = find_tok(bt, tok, 0);
    let np: PathV = (e.0.0, e.0.1.push(tok));
    if j == -1 {
        bt.push(
            (
                tok,
                match d {
                    TreeDelta::Leaf(l, _) => LeafOrBranch::Leaf(leaf_delta(roots, l, e.2, table_root, e.0.0)),
                    TreeDelta::Branch(b) => LeafOrBranch::Branch(
                        (seq![(np, b.tree, e.2)], Some((b.out, e.2))),
                    ),
                },
            ),
        )
    } else {
        match (d, bt[j].1) {
            (TreeDelta::Leaf(l, _), LeafOrBranch::Branch(_)) => bt.update(
                j,
                (tok, LeafOrBranch::Leaf(leaf_delta(roots, l, e.2, table_root, e.0.0))),
            ),
            (TreeDelta::Branch(b), LeafOrBranch::Branch(pd)) => if find_path(pd.0, np, 0) == -1 {
                bt.update(j, (tok, LeafOrBranch::Branch((pd.0.push((np, b.tree, e.2)), pd.1))))
            } else {
                bt
            },
            _ => bt,
        }
    }
}

/// What a step over one delta does to the transitions by token, said
/// plainly: tokens already there keep their places, and only `tok`'s
/// transition can change; a new token comes last; a leaf met after
/// branches for the same token takes the transition over, branches met
/// after branches add to it, and nothing replaces a leaf met first. No
/// token gets two transitions.
pub proof fn lemma_tok_step<O, C, RE, LE, TE>(
    roots: Seq<Root<O, C, RE, LE, TE>>,
    bt: Seq<(TokenId, LeafOrBranch<PathDeltaV<O, C, LE, TE>>)>,
    e: Entry<O, C, LE, TE>,
    tok: TokenId,
    d: TreeDelta<O, C, LE, TE>,
    table_root: RootId,
)
    requires
        keys_distinct(bt),
    ensures
        ({
            let r = tok_step(roots, bt, e, tok, d, table_root);
            &&& keys_distinct(r)
            &&& r.len() == bt.len() + if find_tok(bt, tok, 0) == -1 {
                1int
            } else {
                0int
            }
            &&& find_tok(bt, tok, 0) == -1 ==> r.last().0 == tok
            &&& forall|i: int| 0 <= i < bt.len() ==> (#[trigger] r[i]).0 == bt[i].0
            &&& forall|i: int| 0 <= i < bt.len() && bt[i].0 != tok ==> #[trigger] r[i] == bt[i]
            &&& forall|i: int| 0 <= i < bt.len() && bt[i].0 == tok && bt[i].1 is Leaf ==> #[trigger] r[i] == bt[i]
            &&& forall|i: int|
                0 <= i < bt.len() && bt[i].0 == tok && bt[i].1 is Branch ==> ((#[trigger] r[i]).1 is Leaf
                    <==> d is Leaf)
        }),
{
    lemma_find_tok_range(bt, tok, 0);
    let j = find_tok(bt, tok, 0);
    if j == -1 {
        super::finite::lemma_find_tok_none(bt, tok, 0);
    } else {
        assert forall|i: int| 0 <= i < bt.len() && bt[i].0 == tok implies i == j by {
            if i != j {
                if i < j {
                    assert(bt[i].0 != bt[j].0);
                } else {
                    assert(bt[j].0 != bt[i].0);
                }
            }
        }
    }
}

/// [`tok_step`] over the deltas of an entry's tree from index `k` on.
pub open spec fn entry_steps<O, C, RE, LE, TE>(
    roots: Seq<Root<O, C, RE, LE, TE>>,
    bt: Seq<(TokenId, LeafOrBranch<PathDeltaV<O, C, LE, TE>>)>,
    e: Entry<O, C, LE, TE>,
    k: int,
    table_root: RootId,
) -> Seq<(TokenId, LeafOrBranch<PathDeltaV<O, C, LE, TE>>)>
    decreases e.1.deltas@.len() - k,
{
    if k < 0 || k >= e.1.deltas@.len() {
        bt
    } else {
        let next = tok_step(roots, bt, e, e.1.deltas@[k].0, e.1.deltas@[k].1, table_root);
        entry_steps(roots, next, e, k + 1, table_root)
    }
}

/// [`entry_steps`] over the entries of a path set from index `i` on.
pub open spec fn set_steps<O, C, RE, LE, TE>(
    roots: Seq<Root<O, C, RE, LE, TE>>,
    bt: Seq<(TokenId, LeafOrBranch<PathDeltaV<O, C, LE, TE>>)>,
    set: Seq<Entry<O, C, LE, TE>>,
    i: int,
    table_root: RootId,
) -> Seq<(TokenId, LeafOrBranch<PathDeltaV<O, C, LE, TE>>)>
    decreases set.len() - i,
{
    if i < 0 || i >= set.len() {
        bt
    } else {
        set_steps(roots, entry_steps(roots, bt, set[i], 0, table_root), set, i + 1, table_root)
    }
}

/// Stepping over an entry's deltas gives no token two transitions.
pub proof fn lemma_entry_steps_distinct<O, C, RE, LE, TE>(
    roots: Seq<Root<O, C, RE, LE, TE>>,
    bt: Seq<(TokenId, LeafOrBranch<PathDeltaV<O, C, LE, TE>>)>,
    e: Entry<O, C, LE, TE>,
    k: int,
    table_root: RootId,
)
    requires
        keys_distinct(bt),
    ensures
        keys_distinct(entry_steps(roots, bt, e, k, table_root)),
    decreases e.1.deltas@.len() - k,
{
    if 0 <= k < e.1.deltas@.len() {
        lemma_tok_step(roots, bt, e, e.1.deltas@[k].0, e.1.deltas@[k].1, table_root);
        let next = tok_step(roots, bt, e, e.1.deltas@[k].0, e.1.deltas@[k].1, table_root);
        lemma_entry_steps_distinct(roots, next, e, k + 1, table_root);
    }
}

/// Stepping over a path set's entries gives no token two transitions.
pub proof fn lemma_set_steps_distinct<O, C, RE, LE, TE>(
    roots: Seq<Root<O, C, RE, LE, TE>>,
    bt: Seq<(TokenId, LeafOrBranch<PathDeltaV<O, C, LE, TE>>)>,
    set: Seq<Entry<O, C, LE, TE>>,
    i: int,
    table_root: RootId,
)
    requires
        keys_distinct(bt),
    ensures
        keys_distinct(set_steps(roots, bt, set, i, table_root)),
    decreases set.len() - i,
{
    if 0 <= i < set.len() {
        lemma_entry_steps_distinct(roots, bt, set[i], 0, table_root);
        lemma_set_steps_distinct(roots, entry_steps(roots, bt, set[i], 0, table_root), set, i + 1, table_root);
    }
}

/// A path set's transitions give no token two transitions.
pub proof fn lemma_path_set_delta_distinct<O, C, RE, LE, TE>(
    roots: Seq<Root<O, C, RE, LE, TE>>,
    set: Seq<Entry<O, C, LE, TE>>,
    table_root: RootId,
)
    ensures
        keys_distinct(path_set_delta(roots, set, table_root).0),
{
    lemma_set_steps_distinct(roots, Seq::empty(), set, 0, table_root);
}

/// The transitions of a (closed, non-empty) path set: by token over all its
/// entries in order, and on other tokens the default of its first entry.
pub open spec fn path_set_delta<O, C, RE, LE, TE>(
    roots: Seq<Root<O, C, RE, LE, TE>>,
    set: Seq<Entry<O, C, LE, TE>>,
    table_root: RootId,
) -> SetDeltaV<O, C, LE, TE> {
    (
        set_steps(roots, Seq::empty(), set, 0, table_root),
        leaf_delta(roots, set[0].1.default, set[0].2, table_root, set[0].0.0),
    )
}

/// The path sets a state's transitions lead to: by token in order, then
/// the default.
pub open spec fn successors<O, C, LE, TE>(d: SetDeltaV<O, C, LE, TE>) -> Seq<Seq<Entry<O, C, LE, TE>>> {
    d.0.map_values(|x: (TokenId, LeafOrBranch<PathDeltaV<O, C, LE, TE>>)| x.1.spec_inner().0) + seq![d.1.0]
}

/// A state of a flattened table as plain values: the places of its closed
/// path set and its transitions.
pub type StateV<O, C, LE, TE> = (Seq<(u32, Seq<u32>)>, SetDeltaV<O, C, LE, TE>);

/// The first index at or after `j` of the state with places `k`, or -1.
pub open spec fn find_state<O, C, LE, TE>(states: Seq<StateV<O, C, LE, TE>>, k: Seq<(u32, Seq<u32>)>, j: int) -> int
    decreases states.len() - j,
{
    if j < 0 || j >= states.len() {
        -1
    } else if states[j].0 == k {
        j
    } else {
        find_state(states, k, j + 1)
    }
}

/// The exploration of a table from the path sets waiting in `q`, in order:
/// a path set already met is skipped; another is closed and names the
/// state with the same places, made a new state (last) if there is none, its
/// successors then waiting last. `seen` gives each path set met its state;
/// `None` if it takes more than `fuel` steps.
pub open spec fn explore<O, C, RE, LE, TE>(
    roots: Seq<Root<O, C, RE, LE, TE>>,
    table_root: RootId,
    q: Seq<Seq<Entry<O, C, LE, TE>>>,
    seen: Map<Seq<(u32, Seq<u32>)>, u32>,
    states: Seq<StateV<O, C, LE, TE>>,
    fuel: nat,
) -> Option<(Map<Seq<(u32, Seq<u32>)>, u32>, Seq<StateV<O, C, LE, TE>>)>
    decreases fuel,
{
    if q.len() == 0 {
        Some((seen, states))
    } else if fuel == 0 {
        None
    } else {
        let set = q[0];
        let rest = q.drop_first();
        let k = places(set);
        if seen.contains_key(k) {
            explore(roots, table_root, rest, seen, states, (fuel - 1) as nat)
        } else {
            match close_from(roots, set, 0, fuel) {
                None => None,
                Some(c) => {
                    let j = find_state(states, places(c), 0);
                    if j != -1 {
                        explore(roots, table_root, rest, seen.insert(k, j as u32), states, (fuel - 1) as nat)
                    } else {
                        let d = path_set_delta(roots, c, table_root);
                        explore(
                            roots,
                            table_root,
                            rest + successors(d),
                            seen.insert(k, states.len() as u32),
                            states.push((places(c), d)),
                            (fuel - 1) as nat,
                        )
                    }
                },
            }
        }
    }
}

/// The path set a table of root `r` starts from: the root's tree, reached
/// through no extend.
pub open spec fn start_set<O, C, RE, LE, TE>(roots: Seq<Root<O, C, RE, LE, TE>>, r: RootId) -> Seq<
    Entry<O, C, LE, TE>,
> {
    seq![((r, Seq::empty()), roots[r.0 as int].tree, Seq::empty())]
}

/// The exploration of the table of root `r` runs to its end within `fuel`
/// steps.
pub open spec fn explores_within<O, C, RE, LE, TE>(roots: Seq<Root<O, C, RE, LE, TE>>, r: RootId, fuel: nat) -> bool {
    explore(roots, r, seq![start_set(roots, r)], Map::empty(), Seq::empty(), fuel) is Some
}

/// The exploration of the table of root `r`, if it ends: the state each
/// path set met names, and the states in order.
pub open spec fn explored<O, C, RE, LE, TE>(roots: Seq<Root<O, C, RE, LE, TE>>, r: RootId) -> Option<
    (Map<Seq<(u32, Seq<u32>)>, u32>, Seq<StateV<O, C, LE, TE>>),
> {
    if exists|fuel: nat| explores_within(roots, r, fuel) {
        let fuel = choose|fuel: nat| explores_within(roots, r, fuel);
        explore(roots, r, seq![start_set(roots, r)], Map::empty(), Seq::empty(), fuel)
    } else {
        None
    }
}

} // verus!

verus! {

/// The subtree the branch of `t` for token `tok` leads to, if its delta
/// for that token is a branch.
pub open spec fn branch_at<O, C, LE, TE>(t: Tree<O, C, LE, TE>, tok: TokenId) -> Option<Tree<O, C, LE, TE>> {
    let k = find_tok(t.deltas@, tok, 0);
    if k == -1 {
        None
    } else {
        match t.deltas@[k].1 {
            TreeDelta::Branch(b) => Some(b.tree),
            TreeDelta::Leaf(..) => None,
        }
    }
}

/// The subtree the branches for `toks` lead to from `t`, if they do.
pub open spec fn walk<O, C, LE, TE>(t: Tree<O, C, LE, TE>, toks: Seq<TokenId>) -> Option<Tree<O, C, LE, TE>>
    decreases toks.len(),
{
    if toks.len() == 0 {
        Some(t)
    } else {
        match branch_at(t, toks[0]) {
            Some(u) => walk(u, toks.drop_first()),
            None => None,
        }
    }
}

/// No token has two deltas.
pub open spec fn keys_distinct<T>(ds: Seq<(TokenId, T)>) -> bool {
    forall|i: int, j: int| 0 <= i < j < ds.len() ==> ds[i].0 != ds[j].0
}

/// A leaf's label, if any, names a subtree of root `r`.
pub open spec fn leaf_ok<O, C, RE, LE, TE>(roots: Seq<Root<O, C, RE, LE, TE>>, r: RootId, l: Leaf<O>) -> bool {
    match l {
        Leaf::Goto(lab, _) => search_path_tree(roots[r.0 as int].tree, lab) is Some,
        Leaf::Retry(Some(lab)) => search_path_tree(roots[r.0 as int].tree, lab) is Some,
        _ => true,
    }
}

/// An extend names a root and, if it has a label, a subtree of that root.
pub open spec fn extend_ok<O, C, RE, LE, TE>(
    roots: Seq<Root<O, C, RE, LE, TE>>,
    x: (RootId, Option<LabelId>, C),
) -> bool {
    &&& x.0.0 < roots.len()
    &&& roots[x.0.0 as int].spec_resolve_label_path(x.1) is Some
}

/// [`tree_ok`] for the deltas from index `i` on.
pub open spec fn deltas_ok<O, C, RE, LE, TE>(
    roots: Seq<Root<O, C, RE, LE, TE>>,
    ntok: nat,
    r: RootId,
    ds: Seq<(TokenId, TreeDelta<O, C, LE, TE>)>,
    i: int,
) -> bool
    decreases ds, ds.len() - i,
{
    if i < 0 || i >= ds.len() {
        true
    } else {
        &&& ds[i].0.0 < ntok
        &&& match ds[i].1 {
            TreeDelta::Leaf(l, _) => leaf_ok(roots, r, l),
            TreeDelta::Branch(b) => tree_ok(roots, ntok, r, b.tree),
        }
        &&& deltas_ok(roots, ntok, r, ds, i + 1)
    }
}

/// A subtree of root `r` refers only to what exists: its tokens are among
/// the first `ntok`, each token has at most one delta, its labels name
/// subtrees of `r`, and its extends name roots and their subtrees; and so
/// for all its subtrees.
pub open spec fn tree_ok<O, C, RE, LE, TE>(
    roots: Seq<Root<O, C, RE, LE, TE>>,
    ntok: nat,
    r: RootId,
    t: Tree<O, C, LE, TE>,
) -> bool
    decreases t, 0int,
{
    &&& keys_distinct(t.deltas@)
    &&& deltas_ok(roots, ntok, r, t.deltas@, 0)
    &&& leaf_ok(roots, r, t.default)
    &&& forall|k: int| 0 <= k < t.extends@.len() ==> #[trigger] extend_ok(roots, t.extends@[k])
}

/// Walking one more token goes one branch further.
pub proof fn lemma_walk_push<O, C, LE, TE>(t: Tree<O, C, LE, TE>, s: Seq<TokenId>, x: TokenId)
    ensures
        walk(t, s.push(x)) == match walk(t, s) {
            Some(u) => branch_at(u, x),
            None => None,
        },
    decreases s.len(),
{
    let sx = s.push(x);
    if s.len() == 0 {
        assert(sx.drop_first() =~= Seq::<TokenId>::empty());
        assert(sx[0] == x);
        match branch_at(t, x) {
            Some(u) => {
                assert(walk(u, sx.drop_first()) == Some(u));
            },
            None => {},
        }
    } else {
        assert(sx[0] == s[0]);
        assert(sx.drop_first() =~= s.drop_first().push(x));
        match branch_at(t, s[0]) {
            Some(u) => {
                lemma_walk_push(u, s.drop_first(), x);
                assert(walk(t, sx) == walk(u, s.drop_first().push(x)));
            },
            None => {},
        }
    }
}

/// In deltas with distinct tokens, looking a delta's token up finds it.
pub proof fn lemma_find_tok_distinct<T>(ds: Seq<(TokenId, T)>, k: int, i: int)
    requires
        keys_distinct(ds),
        0 <= i <= k < ds.len(),
    ensures
        find_tok(ds, ds[k].0, i) == k,
    decreases k - i,
{
    if i < k {
        lemma_find_tok_distinct(ds, k, i + 1);
    }
}

/// What [`deltas_ok`] says of the delta at index `k`.
pub proof fn lemma_deltas_ok_at<O, C, RE, LE, TE>(
    roots: Seq<Root<O, C, RE, LE, TE>>,
    ntok: nat,
    r: RootId,
    ds: Seq<(TokenId, TreeDelta<O, C, LE, TE>)>,
    i: int,
    k: int,
)
    requires
        deltas_ok(roots, ntok, r, ds, i),
        0 <= i <= k < ds.len(),
    ensures
        ds[k].0.0 < ntok,
        match ds[k].1 {
            TreeDelta::Leaf(l, _) => leaf_ok(roots, r, l),
            TreeDelta::Branch(b) => tree_ok(roots, ntok, r, b.tree),
        },
    decreases k - i,
{
    if i < k {
        lemma_deltas_ok_at(roots, ntok, r, ds, i + 1, k);
    }
}

/// Walking from a sound subtree reaches a sound subtree.
pub proof fn lemma_walk_ok<O, C, RE, LE, TE>(
    roots: Seq<Root<O, C, RE, LE, TE>>,
    ntok: nat,
    r: RootId,
    t: Tree<O, C, LE, TE>,
    s: Seq<TokenId>,
)
    requires
        tree_ok(roots, ntok, r, t),
        walk(t, s) is Some,
    ensures
        tree_ok(roots, ntok, r, walk(t, s)->0),
    decreases s.len(),
{
    if s.len() > 0 {
        let k = find_tok(t.deltas@, s[0], 0);
        lemma_find_tok_range(t.deltas@, s[0], 0);
        lemma_deltas_ok_at(roots, ntok, r, t.deltas@, 0, k);
        lemma_walk_ok(roots, ntok, r, branch_at(t, s[0])->0, s.drop_first());
    }
}

/// A found token index is in range and holds the token.
pub proof fn lemma_find_tok_range<T>(ds: Seq<(TokenId, T)>, t: TokenId, i: int)
    requires
        0 <= i,
    ensures
        find_tok(ds, t, i) == -1 || (i <= find_tok(ds, t, i) < ds.len() && ds[find_tok(ds, t, i)].0 == t),
    decreases ds.len() - i,
{
    if i < ds.len() && ds[i].0 != t {
        lemma_find_tok_range(ds, t, i + 1);
    }
}

/// In a sound subtree, walking the token path that a label search gives
/// reaches the subtree it finds.
pub proof fn lemma_search_walk<O, C, RE, LE, TE>(
    roots: Seq<Root<O, C, RE, LE, TE>>,
    ntok: nat,
    r: RootId,
    t: Tree<O, C, LE, TE>,
    label: LabelId,
)
    requires
        tree_ok(roots, ntok, r, t),
        search_path_tree(t, label) is Some,
    ensures
        walk(t, (search_path_tree(t, label)->0).1) == Some((search_path_tree(t, label)->0).0),
    decreases t, 0int,
{
    lemma_search_walk_from(roots, ntok, r, t, t.deltas@, 0, label);
}

/// [`lemma_search_walk`] over the deltas of `t` from index `i` on.
pub proof fn lemma_search_walk_from<O, C, RE, LE, TE>(
    roots: Seq<Root<O, C, RE, LE, TE>>,
    ntok: nat,
    r: RootId,
    t: Tree<O, C, LE, TE>,
    ds: Seq<(TokenId, TreeDelta<O, C, LE, TE>)>,
    i: int,
    label: LabelId,
)
    requires
        ds == t.deltas@,
        tree_ok(roots, ntok, r, t),
        0 <= i,
        search_path_from(ds, i, label) is Some,
    ensures
        walk(t, (search_path_from(ds, i, label)->0).1) == Some((search_path_from(ds, i, label)->0).0),
    decreases ds, ds.len() - i,
{
    if i < ds.len() {
        match ds[i].1 {
            TreeDelta::Leaf(..) => {
                lemma_search_walk_from(roots, ntok, r, t, ds, i + 1, label);
            },
            TreeDelta::Branch(b) => {
                lemma_find_tok_distinct(ds, i, 0);
                assert(branch_at(t, ds[i].0) == Some(b.tree));
                lemma_deltas_ok_at(roots, ntok, r, ds, 0, i);
                if b.label == Some(label) {
                    let p = seq![ds[i].0];
                    assert(p.drop_first() =~= Seq::<TokenId>::empty());
                    assert(walk(b.tree, p.drop_first()) == Some(b.tree));
                    assert(walk(t, p) == Some(b.tree));
                } else {
                    match search_path_tree(b.tree, label) {
                        Some((u, q)) => {
                            lemma_search_walk(roots, ntok, r, b.tree, label);
                            let p = seq![ds[i].0] + q;
                            assert(p[0] == ds[i].0);
                            assert(p.drop_first() =~= q);
                            assert(walk(t, p) == walk(b.tree, q));
                        },
                        None => {
                            lemma_search_walk_from(roots, ntok, r, t, ds, i + 1, label);
                        },
                    }
                }
            },
        }
    }
}

} // verus!
