//! Why exploring a grammar's table ends: the places of a grammar are
//! finitely many, so are the path sets that keep each place once, and each
//! state of a table is such a path set.

use vstd::prelude::*;
use vstd::set_lib::lemma_len_subset;
use vstd::seq_lib::seq_to_set_is_finite;

use super::flatten::{
    branch_at, close_adds, close_from, entry_steps, ext_entry, extend_ok, find_path, find_tok, ins,
    keys_distinct, leaf_delta, leaf_ok, lemma_deltas_ok_at, lemma_find_tok_distinct, lemma_find_tok_range,
    lemma_walk_push, path_set_delta, place, places, set_steps, successors, tok_step, walk, Entry,
    LeafOrBranch, PathDeltaV, PathV, explore, explored, explores_within, find_state, start_set, StateV,
};
use super::path_set::{all_ok, bt_ok, entry_ok, lemma_entry_tree_ok, lemma_find_path, lemma_label_target_ok, roots_ok};
use super::ids::RootId;
use super::tree::Leaf;
use super::tree::{Root, Tree, TreeDelta};
use super::ids::TokenId;

verus! {

/// A sequence without repeats whose items all occur in `u` is no longer
/// than `u`.
pub proof fn lemma_distinct_len<A>(s: Seq<A>, u: Seq<A>)
    requires
        s.no_duplicates(),
        forall|i: int| 0 <= i < s.len() ==> u.contains(#[trigger] s[i]),
    ensures
        s.len() <= u.len(),
{
    broadcast use seq_to_set_is_finite;

    s.unique_seq_to_set();
    u.lemma_cardinality_of_set();
    assert(s.to_set().subset_of(u.to_set())) by {
        assert forall|a: A| s.to_set().contains(a) implies u.to_set().contains(a) by {
            let i = choose|i: int| 0 <= i < s.len() && s[i] == a;
        }
    }
    lemma_len_subset(s.to_set(), u.to_set());
}

/// `x` put in front of each sequence of `m`.
pub open spec fn prefixed<A>(x: A, m: Seq<Seq<A>>) -> Seq<Seq<A>> {
    m.map_values(|t: Seq<A>| seq![x] + t)
}

/// The sequences of `m` with each item of `u` from index `i` on put in
/// front, item by item.
pub open spec fn prefixed_all<A>(u: Seq<A>, m: Seq<Seq<A>>, i: int) -> Seq<Seq<A>>
    decreases u.len() - i,
{
    if i < 0 || i >= u.len() {
        Seq::empty()
    } else {
        prefixed(u[i], m) + prefixed_all(u, m, i + 1)
    }
}

/// Every sequence of at most `n` items of `u`, some more than once.
pub open spec fn all_seqs<A>(u: Seq<A>, n: nat) -> Seq<Seq<A>>
    decreases n,
{
    if n == 0 {
        seq![Seq::empty()]
    } else {
        seq![Seq::empty()] + prefixed_all(u, all_seqs(u, (n - 1) as nat), 0)
    }
}

/// [`prefixed_all`] holds `u[k]` in front of each sequence of `m`.
pub proof fn lemma_prefixed_all_has<A>(u: Seq<A>, m: Seq<Seq<A>>, i: int, k: int, j: int)
    requires
        0 <= i <= k < u.len(),
        0 <= j < m.len(),
    ensures
        prefixed_all(u, m, i).contains(seq![u[k]] + m[j]),
    decreases k - i,
{
    let here = prefixed(u[i], m);
    let rest = prefixed_all(u, m, i + 1);
    if i == k {
        assert((here + rest)[j] == seq![u[k]] + m[j]);
    } else {
        lemma_prefixed_all_has(u, m, i + 1, k, j);
        let w = choose|w: int| 0 <= w < rest.len() && rest[w] == seq![u[k]] + m[j];
        assert((here + rest)[here.len() + w] == rest[w]);
    }
}

/// Every sequence of at most `n` items of `u` is in [`all_seqs`].
pub proof fn lemma_all_seqs_has<A>(u: Seq<A>, n: nat, s: Seq<A>)
    requires
        s.len() <= n,
        forall|i: int| 0 <= i < s.len() ==> u.contains(#[trigger] s[i]),
    ensures
        all_seqs(u, n).contains(s),
    decreases n,
{
    if s.len() == 0 {
        assert(s =~= Seq::<A>::empty());
        assert(all_seqs(u, n)[0] == Seq::<A>::empty());
    } else {
        let m = all_seqs(u, (n - 1) as nat);
        let t = s.drop_first();
        assert forall|i: int| 0 <= i < t.len() implies u.contains(#[trigger] t[i]) by {
            assert(t[i] == s[i + 1]);
        }
        lemma_all_seqs_has(u, (n - 1) as nat, t);
        let j = choose|j: int| 0 <= j < m.len() && m[j] == t;
        assert(u.contains(s[0]));
        let k = choose|k: int| 0 <= k < u.len() && u[k] == s[0];
        lemma_prefixed_all_has(u, m, 0, k, j);
        assert(seq![u[k]] + m[j] =~= s);
        let p = prefixed_all(u, m, 0);
        let w = choose|w: int| 0 <= w < p.len() && p[w] == s;
        assert((seq![Seq::<A>::empty()] + p)[w + 1] == s);
    }
}


/// Every token path along which branches lead from `t`, the empty one
/// first.
pub open spec fn paths_of<O, C, LE, TE>(t: Tree<O, C, LE, TE>) -> Seq<Seq<TokenId>>
    decreases t, 0int,
{
    seq![Seq::empty()] + paths_from(t.deltas@, 0)
}

/// The token paths through the branches of `ds` from index `i` on, each
/// starting with its branch's token.
pub open spec fn paths_from<O, C, LE, TE>(ds: Seq<(TokenId, TreeDelta<O, C, LE, TE>)>, i: int) -> Seq<
    Seq<TokenId>,
>
    decreases ds, ds.len() - i,
{
    if i < 0 || i >= ds.len() {
        Seq::empty()
    } else {
        let rest = paths_from(ds, i + 1);
        match ds[i].1 {
            TreeDelta::Branch(b) => prefixed(ds[i].0, paths_of(b.tree)) + rest,
            TreeDelta::Leaf(..) => rest,
        }
    }
}

/// [`paths_from`] holds the paths through the branch at index `k`.
pub proof fn lemma_paths_from_has<O, C, LE, TE>(ds: Seq<(TokenId, TreeDelta<O, C, LE, TE>)>, i: int, k: int, j: int)
    requires
        0 <= i <= k < ds.len(),
        match ds[k].1 {
            TreeDelta::Branch(b) => 0 <= j < paths_of(b.tree).len(),
            TreeDelta::Leaf(..) => false,
        },
    ensures
        match ds[k].1 {
            TreeDelta::Branch(b) => paths_from(ds, i).contains(seq![ds[k].0] + paths_of(b.tree)[j]),
            TreeDelta::Leaf(..) => false,
        },
    decreases k - i,
{
    let rest = paths_from(ds, i + 1);
    if i < k {
        lemma_paths_from_has(ds, i + 1, k, j);
        match ds[k].1 {
            TreeDelta::Branch(b) => {
                let x = seq![ds[k].0] + paths_of(b.tree)[j];
                let w = choose|w: int| 0 <= w < rest.len() && rest[w] == x;
                match ds[i].1 {
                    TreeDelta::Branch(c) => {
                        let here = prefixed(ds[i].0, paths_of(c.tree));
                        assert((here + rest)[here.len() + w] == x);
                    },
                    TreeDelta::Leaf(..) => {
                        assert(rest[w] == x);
                    },
                }
            },
            TreeDelta::Leaf(..) => {},
        }
    } else {
        match ds[k].1 {
            TreeDelta::Branch(b) => {
                let here = prefixed(ds[k].0, paths_of(b.tree));
                assert((here + rest)[j] == seq![ds[k].0] + paths_of(b.tree)[j]);
            },
            TreeDelta::Leaf(..) => {},
        }
    }
}

/// A token path that leads somewhere from `t` is one of [`paths_of`] it.
pub proof fn lemma_walk_in_paths<O, C, LE, TE>(t: Tree<O, C, LE, TE>, p: Seq<TokenId>)
    requires
        walk(t, p) is Some,
    ensures
        paths_of(t).contains(p),
    decreases p.len(),
{
    if p.len() == 0 {
        assert(p =~= Seq::<TokenId>::empty());
        assert(paths_of(t)[0] == p);
    } else {
        let ds = t.deltas@;
        let k = find_tok(ds, p[0], 0);
        lemma_find_tok_range(ds, p[0], 0);
        match ds[k].1 {
            TreeDelta::Branch(b) => {
                assert(branch_at(t, p[0]) == Some(b.tree));
                lemma_walk_in_paths(b.tree, p.drop_first());
                let j = choose|j: int| 0 <= j < paths_of(b.tree).len() && paths_of(b.tree)[j] == p.drop_first();
                lemma_paths_from_has(ds, 0, k, j);
                assert(seq![p[0]] + p.drop_first() =~= p);
                let rest = paths_from(ds, 0);
                let w = choose|w: int| 0 <= w < rest.len() && rest[w] == p;
                assert(paths_of(t)[w + 1] == p);
            },
            TreeDelta::Leaf(..) => {},
        }
    }
}

/// The places of root number `r` with tree `t`, as plain numbers.
pub open spec fn root_places<O, C, LE, TE>(r: int, t: Tree<O, C, LE, TE>) -> Seq<(u32, Seq<u32>)> {
    paths_of(t).map_values(|p: Seq<TokenId>| (r as u32, p.map_values(|x: TokenId| x.0)))
}

/// The places of the roots from index `r` on.
pub open spec fn places_from<O, C, RE, LE, TE>(roots: Seq<Root<O, C, RE, LE, TE>>, r: int) -> Seq<
    (u32, Seq<u32>),
>
    decreases roots.len() - r,
{
    if r < 0 || r >= roots.len() {
        Seq::empty()
    } else {
        root_places(r, roots[r].tree) + places_from(roots, r + 1)
    }
}

/// Every place of a grammar, as plain numbers.
pub open spec fn all_places<O, C, RE, LE, TE>(roots: Seq<Root<O, C, RE, LE, TE>>) -> Seq<(u32, Seq<u32>)> {
    places_from(roots, 0)
}

/// [`places_from`] holds the places of root `r`.
pub proof fn lemma_places_from_has<O, C, RE, LE, TE>(
    roots: Seq<Root<O, C, RE, LE, TE>>,
    i: int,
    r: int,
    x: (u32, Seq<u32>),
)
    requires
        0 <= i <= r < roots.len(),
        root_places(r, roots[r].tree).contains(x),
    ensures
        places_from(roots, i).contains(x),
    decreases r - i,
{
    let here = root_places(i, roots[i].tree);
    let rest = places_from(roots, i + 1);
    if i < r {
        lemma_places_from_has(roots, i + 1, r, x);
        let w = choose|w: int| 0 <= w < rest.len() && rest[w] == x;
        assert((here + rest)[here.len() + w] == x);
    } else {
        let w = choose|w: int| 0 <= w < here.len() && here[w] == x;
        assert((here + rest)[w] == x);
    }
}

/// The place of a sound entry is a place of the grammar.
pub proof fn lemma_entry_place<O, C, RE, LE, TE>(roots: Seq<Root<O, C, RE, LE, TE>>, e: Entry<O, C, LE, TE>)
    requires
        entry_ok(roots, e),
    ensures
        all_places(roots).contains(place(e.0)),
{
    let r = e.0.0.0 as int;
    let t = roots[r].tree;
    lemma_walk_in_paths(t, e.0.1);
    let j = choose|j: int| 0 <= j < paths_of(t).len() && paths_of(t)[j] == e.0.1;
    assert(root_places(r, t)[j] == place(e.0));
    lemma_places_from_has(roots, 0, r, place(e.0));
}

/// Two paths with the same place are the same path.
pub proof fn lemma_place_injective(a: PathV, b: PathV)
    requires
        place(a) == place(b),
    ensures
        a == b,
{
    let sa = a.1.map_values(|x: TokenId| x.0);
    let sb = b.1.map_values(|x: TokenId| x.0);
    assert(sa == sb);
    assert(a.1.len() == b.1.len());
    assert forall|i: int| 0 <= i < a.1.len() implies a.1[i] == b.1[i] by {
        assert(sa[i] == sb[i]);
    }
    assert(a.1 =~= b.1);
}

/// No two entries of a path set stand at the same place.
pub open spec fn paths_distinct<O, C, LE, TE>(set: Seq<Entry<O, C, LE, TE>>) -> bool {
    forall|i: int, j: int| 0 <= i < j < set.len() ==> set[i].0 != set[j].0
}

/// The places of a sound path set without repeated places are distinct
/// places of the grammar, so it has at most as many entries as the grammar
/// has places.
pub proof fn lemma_set_places<O, C, RE, LE, TE>(roots: Seq<Root<O, C, RE, LE, TE>>, set: Seq<Entry<O, C, LE, TE>>)
    requires
        all_ok(roots, set),
        paths_distinct(set),
    ensures
        places(set).no_duplicates(),
        forall|i: int| 0 <= i < places(set).len() ==> all_places(roots).contains(#[trigger] places(set)[i]),
        set.len() <= all_places(roots).len(),
{
    let ps = places(set);
    assert forall|i: int, j: int| 0 <= i < ps.len() && 0 <= j < ps.len() && i != j implies ps[i] != ps[j] by {
        if ps[i] == ps[j] {
            lemma_place_injective(set[i].0, set[j].0);
            if i < j {
                assert(set[i].0 != set[j].0);
            } else {
                assert(set[j].0 != set[i].0);
            }
        }
    }
    assert forall|i: int| 0 <= i < ps.len() implies all_places(roots).contains(#[trigger] ps[i]) by {
        assert(entry_ok(roots, set[i]));
        lemma_entry_place(roots, set[i]);
    }
    lemma_distinct_len(ps, all_places(roots));
}

/// Inserting a sound entry keeps a sound path set sound and without
/// repeated places, and never shortens it.
pub proof fn lemma_ins_ok<O, C, RE, LE, TE>(
    roots: Seq<Root<O, C, RE, LE, TE>>,
    cur: Seq<Entry<O, C, LE, TE>>,
    e: Entry<O, C, LE, TE>,
)
    requires
        all_ok(roots, cur),
        paths_distinct(cur),
        entry_ok(roots, e),
    ensures
        all_ok(roots, ins(cur, e)),
        paths_distinct(ins(cur, e)),
        ins(cur, e).len() >= cur.len(),
{
    lemma_find_path(cur, e.0, 0);
    let j = find_path(cur, e.0, 0);
    let n = ins(cur, e);
    assert forall|i: int| 0 <= i < n.len() implies #[trigger] entry_ok(roots, n[i]) by {
        if i == j || i == cur.len() {
        } else {
            assert(n[i] == cur[i]);
        }
    }
    assert forall|a: int, b: int| 0 <= a < b < n.len() implies n[a].0 != n[b].0 by {
        if j == -1 {
            if b == cur.len() {
                assert(n[a] == cur[a]);
            } else {
                assert(n[a] == cur[a] && n[b] == cur[b]);
            }
        } else {
            if a == j {
                assert(n[b] == cur[b]);
            } else if b == j {
                assert(n[a] == cur[a]);
            } else {
                assert(n[a] == cur[a] && n[b] == cur[b]);
            }
        }
    }
}

/// Adding the extends of [`close_adds`] keeps a sound path set sound and
/// without repeated places, and never shortens it.
pub proof fn lemma_close_adds_ok<O, C, RE, LE, TE>(
    roots: Seq<Root<O, C, RE, LE, TE>>,
    ntok: nat,
    base: Seq<Entry<O, C, LE, TE>>,
    cur: Seq<Entry<O, C, LE, TE>>,
    xs: Seq<(super::ids::RootId, Option<super::ids::LabelId>, C)>,
    conv: Seq<C>,
    k: int,
)
    requires
        roots_ok(roots, ntok),
        all_ok(roots, cur),
        paths_distinct(cur),
        0 <= k,
        forall|m: int| 0 <= m < xs.len() ==> #[trigger] extend_ok(roots, xs[m]),
    ensures
        all_ok(roots, close_adds(roots, base, cur, xs, conv, k)),
        paths_distinct(close_adds(roots, base, cur, xs, conv, k)),
        close_adds(roots, base, cur, xs, conv, k).len() >= cur.len(),
    decreases xs.len() - k,
{
    if k < xs.len() {
        let e = ext_entry(roots, xs[k], conv);
        assert(extend_ok(roots, xs[k]));
        lemma_label_target_ok(roots, ntok, xs[k].0, xs[k].1);
        assert(entry_ok(roots, e));
        if find_path(base, e.0, 0) == -1 {
            lemma_ins_ok(roots, cur, e);
            lemma_close_adds_ok(roots, ntok, base, ins(cur, e), xs, conv, k + 1);
        } else {
            lemma_close_adds_ok(roots, ntok, base, cur, xs, conv, k + 1);
        }
    }
}

/// Closing a sound path set without repeated places ends within as many
/// steps as the grammar has places, and keeps it sound, without repeated
/// places, and no shorter.
pub proof fn lemma_close_from_ok<O, C, RE, LE, TE>(
    roots: Seq<Root<O, C, RE, LE, TE>>,
    ntok: nat,
    set: Seq<Entry<O, C, LE, TE>>,
    i: int,
    fuel: nat,
)
    requires
        roots_ok(roots, ntok),
        all_ok(roots, set),
        paths_distinct(set),
        0 <= i,
        i + fuel >= all_places(roots).len() + 1,
    ensures
        close_from(roots, set, i, fuel) is Some,
        all_ok(roots, close_from(roots, set, i, fuel)->0),
        paths_distinct(close_from(roots, set, i, fuel)->0),
        (close_from(roots, set, i, fuel)->0).len() >= set.len(),
    decreases fuel,
{
    if i < set.len() {
        lemma_set_places(roots, set);
        assert(entry_ok(roots, set[i]));
        lemma_entry_tree_ok(roots, ntok, set[i]);
        let xs = set[i].1.extends@;
        assert forall|m: int| 0 <= m < xs.len() implies #[trigger] extend_ok(roots, xs[m]) by {
            assert(extend_ok(roots, set[i].1.extends@[m]));
        }
        lemma_close_adds_ok(roots, ntok, set, set, xs, set[i].2, 0);
        let next = close_adds(roots, set, set, xs, set[i].2, 0);
        lemma_close_from_ok(roots, ntok, next, i + 1, (fuel - 1) as nat);
    }
}

/// Looking up a token that is not there finds nothing from `i` on.
pub proof fn lemma_find_tok_none<T>(ds: Seq<(TokenId, T)>, t: TokenId, i: int)
    requires
        0 <= i,
        find_tok(ds, t, i) == -1,
    ensures
        forall|k: int| i <= k < ds.len() ==> ds[k].0 != t,
    decreases ds.len() - i,
{
    if i < ds.len() {
        lemma_find_tok_none(ds, t, i + 1);
    }
}

/// Transitions fit for exploring: each leads to a sound, non-empty path set
/// without repeated places, no token has two, and every token is among the
/// first `ntok`.
pub open spec fn steps_ok<O, C, RE, LE, TE>(
    roots: Seq<Root<O, C, RE, LE, TE>>,
    ntok: nat,
    bt: Seq<(TokenId, LeafOrBranch<PathDeltaV<O, C, LE, TE>>)>,
) -> bool {
    &&& bt_ok(roots, bt)
    &&& forall|k: int| 0 <= k < bt.len() ==> paths_distinct(#[trigger] bt[k].1.spec_inner().0)
    &&& keys_distinct(bt)
    &&& forall|k: int| 0 <= k < bt.len() ==> (#[trigger] bt[k]).0.0 < ntok
}

/// The transition a sound leaf gives leads to one sound entry.
pub proof fn lemma_leaf_delta_ok<O, C, RE, LE, TE>(
    roots: Seq<Root<O, C, RE, LE, TE>>,
    ntok: nat,
    leaf: Leaf<O>,
    conv: Seq<C>,
    table_root: RootId,
    ext_root: RootId,
)
    requires
        roots_ok(roots, ntok),
        table_root.0 < roots.len(),
        ext_root.0 < roots.len(),
        leaf_ok(roots, ext_root, leaf),
    ensures
        all_ok(roots, leaf_delta(roots, leaf, conv, table_root, ext_root).0),
        paths_distinct(leaf_delta(roots, leaf, conv, table_root, ext_root).0),
        leaf_delta(roots, leaf, conv, table_root, ext_root).0.len() == 1,
{
    let next = leaf_delta(roots, leaf, conv, table_root, ext_root).0;
    assert(walk(roots[table_root.0 as int].tree, Seq::<TokenId>::empty()) == Some(roots[table_root.0 as int].tree));
    match leaf {
        Leaf::Goto(l, _) => {
            lemma_label_target_ok(roots, ntok, ext_root, Some(l));
        },
        Leaf::Retry(Some(l)) => {
            lemma_label_target_ok(roots, ntok, ext_root, Some(l));
        },
        _ => {},
    }
    assert(entry_ok(roots, next[0]));
    assert forall|i: int| 0 <= i < next.len() implies #[trigger] entry_ok(roots, next[i]) by {
        assert(i == 0);
    }
}

/// One [`tok_step`] from a sound entry keeps transitions fit for exploring.
pub proof fn lemma_tok_step_ok<O, C, RE, LE, TE>(
    roots: Seq<Root<O, C, RE, LE, TE>>,
    ntok: nat,
    bt: Seq<(TokenId, LeafOrBranch<PathDeltaV<O, C, LE, TE>>)>,
    e: Entry<O, C, LE, TE>,
    tok: TokenId,
    d: TreeDelta<O, C, LE, TE>,
    table_root: RootId,
)
    requires
        roots_ok(roots, ntok),
        table_root.0 < roots.len(),
        entry_ok(roots, e),
        steps_ok(roots, ntok, bt),
        tok.0 < ntok,
        match d {
            TreeDelta::Leaf(l, _) => leaf_ok(roots, e.0.0, l),
            TreeDelta::Branch(b) => walk(roots[e.0.0.0 as int].tree, e.0.1.push(tok)) == Some(b.tree),
        },
    ensures
        steps_ok(roots, ntok, tok_step(roots, bt, e, tok, d, table_root)),
{
    let j = find_tok(bt, tok, 0);
    lemma_find_tok_range(bt, tok, 0);
    let np: PathV = (e.0.0, e.0.1.push(tok));
    let r = tok_step(roots, bt, e, tok, d, table_root);
    let new_inner: PathDeltaV<O, C, LE, TE> = match d {
        TreeDelta::Leaf(l, _) => leaf_delta(roots, l, e.2, table_root, e.0.0),
        TreeDelta::Branch(b) => (seq![(np, b.tree, e.2)], Some((b.out, e.2))),
    };
    match d {
        TreeDelta::Leaf(l, _) => {
            lemma_leaf_delta_ok(roots, ntok, l, e.2, table_root, e.0.0);
        },
        TreeDelta::Branch(b) => {
            assert(entry_ok(roots, (np, b.tree, e.2)));
            assert forall|i: int| 0 <= i < new_inner.0.len() implies #[trigger] entry_ok(roots, new_inner.0[i]) by {
                assert(i == 0);
            }
        },
    }
    assert(all_ok(roots, new_inner.0) && paths_distinct(new_inner.0) && new_inner.0.len() > 0);
    if j == -1 {
        lemma_find_tok_none(bt, tok, 0);
        assert(r.len() == bt.len() + 1);
        assert forall|k: int| 0 <= k < r.len() implies {
            &&& all_ok(roots, #[trigger] r[k].1.spec_inner().0)
            &&& r[k].1.spec_inner().0.len() > 0
            &&& paths_distinct(r[k].1.spec_inner().0)
            &&& r[k].0.0 < ntok
        } by {
            if k < bt.len() {
                assert(r[k] == bt[k]);
                assert(all_ok(roots, bt[k].1.spec_inner().0));
                assert(paths_distinct(bt[k].1.spec_inner().0));
                assert(bt[k].0.0 < ntok);
            } else {
                assert(r[k].1.spec_inner() == new_inner);
            }
        }
        assert forall|a: int, b: int| 0 <= a < b < r.len() implies r[a].0 != r[b].0 by {
            if b < bt.len() {
                assert(r[a] == bt[a] && r[b] == bt[b]);
            } else {
                assert(r[a] == bt[a]);
            }
        }
    } else {
        assert(r.len() == bt.len());
        assert forall|k: int| 0 <= k < r.len() && k != j implies r[k] == bt[k] by {}
        assert(r[j].0 == tok);
        assert(all_ok(roots, bt[j].1.spec_inner().0));
        assert(paths_distinct(bt[j].1.spec_inner().0));
        match (d, bt[j].1) {
            (TreeDelta::Leaf(l, _), LeafOrBranch::Branch(_)) => {
                assert(r[j].1.spec_inner() == new_inner);
            },
            (TreeDelta::Branch(b), LeafOrBranch::Branch(pd)) => {
                if find_path(pd.0, np, 0) == -1 {
                    lemma_find_path(pd.0, np, 0);
                    let n = pd.0.push((np, b.tree, e.2));
                    assert(r[j].1.spec_inner().0 == n);
                    assert forall|i: int| 0 <= i < n.len() implies #[trigger] entry_ok(roots, n[i]) by {
                        if i < pd.0.len() {
                            assert(n[i] == pd.0[i]);
                        }
                    }
                    assert forall|a: int, c: int| 0 <= a < c < n.len() implies n[a].0 != n[c].0 by {
                        assert(n[a] == pd.0[a]);
                        if c < pd.0.len() {
                            assert(n[c] == pd.0[c]);
                        }
                    }
                } else {
                    assert(r == bt);
                }
            },
            _ => {
                assert(r == bt);
            },
        }
        assert forall|k: int| 0 <= k < r.len() implies {
            &&& all_ok(roots, #[trigger] r[k].1.spec_inner().0)
            &&& r[k].1.spec_inner().0.len() > 0
            &&& paths_distinct(r[k].1.spec_inner().0)
            &&& r[k].0.0 < ntok
        } by {
            if k != j {
                assert(r[k] == bt[k]);
                assert(all_ok(roots, bt[k].1.spec_inner().0));
                assert(paths_distinct(bt[k].1.spec_inner().0));
                assert(bt[k].0.0 < ntok);
            }
        }
        assert forall|a: int, b: int| 0 <= a < b < r.len() implies r[a].0 != r[b].0 by {
            assert(r[a].0 == bt[a].0 && r[b].0 == bt[b].0);
        }
    }
}

/// [`entry_steps`] from a sound entry keeps transitions fit for exploring.
pub proof fn lemma_entry_steps_ok<O, C, RE, LE, TE>(
    roots: Seq<Root<O, C, RE, LE, TE>>,
    ntok: nat,
    bt: Seq<(TokenId, LeafOrBranch<PathDeltaV<O, C, LE, TE>>)>,
    e: Entry<O, C, LE, TE>,
    k: int,
    table_root: RootId,
)
    requires
        roots_ok(roots, ntok),
        table_root.0 < roots.len(),
        entry_ok(roots, e),
        steps_ok(roots, ntok, bt),
        0 <= k,
    ensures
        steps_ok(roots, ntok, entry_steps(roots, bt, e, k, table_root)),
    decreases e.1.deltas@.len() - k,
{
    let ds = e.1.deltas@;
    if k < ds.len() {
        lemma_entry_tree_ok(roots, ntok, e);
        lemma_deltas_ok_at(roots, ntok, e.0.0, ds, 0, k);
        let tok = ds[k].0;
        match ds[k].1 {
            TreeDelta::Branch(b) => {
                lemma_find_tok_distinct(ds, k, 0);
                assert(branch_at(e.1, tok) == Some(b.tree));
                lemma_walk_push(roots[e.0.0.0 as int].tree, e.0.1, tok);
            },
            TreeDelta::Leaf(..) => {},
        }
        lemma_tok_step_ok(roots, ntok, bt, e, tok, ds[k].1, table_root);
        lemma_entry_steps_ok(roots, ntok, tok_step(roots, bt, e, tok, ds[k].1, table_root), e, k + 1, table_root);
    }
}

/// [`set_steps`] over a sound path set keeps transitions fit for exploring.
pub proof fn lemma_set_steps_ok<O, C, RE, LE, TE>(
    roots: Seq<Root<O, C, RE, LE, TE>>,
    ntok: nat,
    bt: Seq<(TokenId, LeafOrBranch<PathDeltaV<O, C, LE, TE>>)>,
    set: Seq<Entry<O, C, LE, TE>>,
    i: int,
    table_root: RootId,
)
    requires
        roots_ok(roots, ntok),
        table_root.0 < roots.len(),
        all_ok(roots, set),
        steps_ok(roots, ntok, bt),
        0 <= i,
    ensures
        steps_ok(roots, ntok, set_steps(roots, bt, set, i, table_root)),
    decreases set.len() - i,
{
    if i < set.len() {
        assert(entry_ok(roots, set[i]));
        lemma_entry_steps_ok(roots, ntok, bt, set[i], 0, table_root);
        lemma_set_steps_ok(roots, ntok, entry_steps(roots, bt, set[i], 0, table_root), set, i + 1, table_root);
    }
}

/// The path sets that the transitions of a sound, non-empty path set lead
/// to are sound, non-empty and without repeated places, and there are at
/// most one more of them than tokens.
pub proof fn lemma_successors_ok<O, C, RE, LE, TE>(
    roots: Seq<Root<O, C, RE, LE, TE>>,
    ntok: nat,
    set: Seq<Entry<O, C, LE, TE>>,
    table_root: RootId,
)
    requires
        roots_ok(roots, ntok),
        table_root.0 < roots.len(),
        all_ok(roots, set),
        set.len() > 0,
    ensures
        successors(path_set_delta(roots, set, table_root)).len() <= ntok + 1,
        forall|m: int|
            0 <= m < successors(path_set_delta(roots, set, table_root)).len() ==> {
                &&& all_ok(roots, #[trigger] successors(path_set_delta(roots, set, table_root))[m])
                &&& paths_distinct(successors(path_set_delta(roots, set, table_root))[m])
                &&& successors(path_set_delta(roots, set, table_root))[m].len() > 0
            },
{
    let d = path_set_delta(roots, set, table_root);
    let empty = Seq::<(TokenId, LeafOrBranch<PathDeltaV<O, C, LE, TE>>)>::empty();
    lemma_set_steps_ok(roots, ntok, empty, set, 0, table_root);
    assert(entry_ok(roots, set[0]));
    lemma_entry_tree_ok(roots, ntok, set[0]);
    lemma_leaf_delta_ok(roots, ntok, set[0].1.default, set[0].2, table_root, set[0].0.0);
    let keys = d.0.map_values(|x: (TokenId, LeafOrBranch<PathDeltaV<O, C, LE, TE>>)| x.0.0 as int);
    let u = Seq::new(ntok, |i: int| i);
    assert forall|i: int| 0 <= i < keys.len() implies u.contains(#[trigger] keys[i]) by {
        assert(d.0[i].0.0 < ntok);
        assert(u[keys[i]] == keys[i]);
    }
    assert forall|a: int, b: int| 0 <= a < keys.len() && 0 <= b < keys.len() && a != b implies keys[a] != keys[b] by {
        if a < b {
            assert(d.0[a].0 != d.0[b].0);
        } else {
            assert(d.0[b].0 != d.0[a].0);
        }
    }
    lemma_distinct_len(keys, u);
    let ss = successors(d);
    assert forall|m: int| 0 <= m < ss.len() implies {
        &&& all_ok(roots, #[trigger] ss[m])
        &&& paths_distinct(ss[m])
        &&& ss[m].len() > 0
    } by {
        if m < d.0.len() {
            assert(ss[m] == d.0[m].1.spec_inner().0);
            assert(all_ok(roots, d.0[m].1.spec_inner().0));
            assert(paths_distinct(d.0[m].1.spec_inner().0));
        } else {
            assert(ss[m] == d.1.0);
        }
    }
}

/// Looking up places that no state has finds nothing, and a failed lookup
/// means that no state from `i` on has them.
pub proof fn lemma_find_state_absent<O, C, LE, TE>(states: Seq<StateV<O, C, LE, TE>>, k: Seq<(u32, Seq<u32>)>, i: int)
    requires
        0 <= i,
        find_state(states, k, i) == -1,
    ensures
        forall|a: int| i <= a < states.len() ==> states[a].0 != k,
    decreases states.len() - i,
{
    if i < states.len() {
        lemma_find_state_absent(states, k, i + 1);
    }
}

/// Every place sequence that a state of a table can have: sequences of the
/// grammar's places no longer than the number of places.
pub open spec fn state_places<O, C, RE, LE, TE>(roots: Seq<Root<O, C, RE, LE, TE>>) -> Seq<Seq<(u32, Seq<u32>)>> {
    all_seqs(all_places(roots), all_places(roots).len())
}

/// States found so far: their place sequences are distinct and are among
/// [`state_places`].
pub open spec fn states_ok<O, C, RE, LE, TE>(
    roots: Seq<Root<O, C, RE, LE, TE>>,
    states: Seq<StateV<O, C, LE, TE>>,
) -> bool {
    &&& forall|a: int, b: int| 0 <= a < b < states.len() ==> states[a].0 != states[b].0
    &&& forall|a: int| 0 <= a < states.len() ==> state_places(roots).contains(#[trigger] states[a].0)
}

/// Path sets waiting to be explored: each sound, non-empty and without
/// repeated places.
pub open spec fn queue_ok<O, C, RE, LE, TE>(
    roots: Seq<Root<O, C, RE, LE, TE>>,
    q: Seq<Seq<Entry<O, C, LE, TE>>>,
) -> bool {
    forall|j: int| 0 <= j < q.len() ==> all_ok(roots, #[trigger] q[j]) && paths_distinct(q[j]) && q[j].len() > 0
}

/// A table has at most as many states as [`state_places`] has sequences.
pub proof fn lemma_states_bound<O, C, RE, LE, TE>(
    roots: Seq<Root<O, C, RE, LE, TE>>,
    states: Seq<StateV<O, C, LE, TE>>,
)
    requires
        states_ok(roots, states),
    ensures
        states.len() <= state_places(roots).len(),
{
    let keys = states.map_values(|s: StateV<O, C, LE, TE>| s.0);
    assert forall|i: int| 0 <= i < keys.len() implies state_places(roots).contains(#[trigger] keys[i]) by {
        assert(state_places(roots).contains(states[i].0));
    }
    assert forall|a: int, b: int| 0 <= a < keys.len() && 0 <= b < keys.len() && a != b implies keys[a] != keys[b] by {
        if a < b {
            assert(states[a].0 != states[b].0);
        } else {
            assert(states[b].0 != states[a].0);
        }
    }
    lemma_distinct_len(keys, state_places(roots));
}

/// Exploring from sound waiting path sets and sound states ends within
/// the given steps: enough to close any path set, to take every waiting
/// one, and for each state still to be found, to take the path sets it
/// adds.
pub proof fn lemma_explore_some<O, C, RE, LE, TE>(
    roots: Seq<Root<O, C, RE, LE, TE>>,
    ntok: nat,
    r: RootId,
    q: Seq<Seq<Entry<O, C, LE, TE>>>,
    seen: Map<Seq<(u32, Seq<u32>)>, u32>,
    states: Seq<StateV<O, C, LE, TE>>,
    fuel: nat,
)
    requires
        roots_ok(roots, ntok),
        r.0 < roots.len(),
        queue_ok(roots, q),
        states_ok(roots, states),
        fuel >= all_places(roots).len() + 1 + q.len() + (state_places(roots).len() - states.len()) * (ntok + 2),
    ensures
        explore(roots, r, q, seen, states, fuel) is Some,
    decreases fuel,
{
    let n = all_places(roots).len();
    let b = state_places(roots).len();
    lemma_states_bound(roots, states);
    let m = b - states.len();
    assert(m * (ntok + 2) >= 0) by (nonlinear_arith)
        requires
            m >= 0,
    ;
    if q.len() > 0 {
        let set = q[0];
        let rest = q.drop_first();
        assert(queue_ok(roots, rest)) by {
            assert forall|j: int| 0 <= j < rest.len() implies all_ok(roots, #[trigger] rest[j]) && paths_distinct(
                rest[j],
            ) && rest[j].len() > 0 by {
                assert(rest[j] == q[j + 1]);
            }
        }
        assert(all_ok(roots, q[0]) && paths_distinct(q[0]) && q[0].len() > 0);
        if seen.contains_key(places(set)) {
            lemma_explore_some(roots, ntok, r, rest, seen, states, (fuel - 1) as nat);
        } else {
            lemma_close_from_ok(roots, ntok, set, 0, fuel);
            let c = close_from(roots, set, 0, fuel)->0;
            let j = find_state(states, places(c), 0);
            let seen2 = seen.insert(places(set), if j != -1 { j as u32 } else { states.len() as u32 });
            if j != -1 {
                lemma_explore_some(roots, ntok, r, rest, seen2, states, (fuel - 1) as nat);
            } else {
                lemma_find_state_absent(states, places(c), 0);
                lemma_set_places(roots, c);
                lemma_all_seqs_has(all_places(roots), n, places(c));
                let d = path_set_delta(roots, c, r);
                lemma_successors_ok(roots, ntok, c, r);
                let ss = successors(d);
                let nq = rest + ss;
                assert(queue_ok(roots, nq)) by {
                    assert forall|k: int| 0 <= k < nq.len() implies all_ok(roots, #[trigger] nq[k]) && paths_distinct(
                        nq[k],
                    ) && nq[k].len() > 0 by {
                        if k < rest.len() {
                            assert(nq[k] == rest[k]);
                            assert(all_ok(roots, rest[k]));
                        } else {
                            assert(nq[k] == ss[k - rest.len()]);
                            assert(all_ok(roots, ss[k - rest.len()]));
                        }
                    }
                }
                let ns = states.push((places(c), d));
                assert(states_ok(roots, ns)) by {
                    assert forall|a: int| 0 <= a < ns.len() implies state_places(roots).contains(#[trigger] ns[a].0) by {
                        if a < states.len() {
                            assert(ns[a] == states[a]);
                        }
                    }
                    assert forall|a: int, e: int| 0 <= a < e < ns.len() implies ns[a].0 != ns[e].0 by {
                        assert(ns[a] == states[a]);
                        if e < states.len() {
                            assert(ns[e] == states[e]);
                        }
                    }
                }
                lemma_states_bound(roots, ns);
                assert((m - 1) * (ntok + 2) == m * (ntok + 2) - (ntok + 2)) by (nonlinear_arith);
                lemma_explore_some(roots, ntok, r, nq, seen2, ns, (fuel - 1) as nat);
            }
        }
    }
}

/// The exploration of the table of every root ends.
pub proof fn lemma_explored<O, C, RE, LE, TE>(roots: Seq<Root<O, C, RE, LE, TE>>, ntok: nat, r: RootId)
    requires
        roots_ok(roots, ntok),
        r.0 < roots.len(),
    ensures
        explored(roots, r) is Some,
{
    let q = seq![start_set(roots, r)];
    let s0 = start_set(roots, r);
    assert(walk(roots[r.0 as int].tree, Seq::<TokenId>::empty()) == Some(roots[r.0 as int].tree));
    assert(entry_ok(roots, s0[0]));
    assert(all_ok(roots, s0)) by {
        assert forall|i: int| 0 <= i < s0.len() implies #[trigger] entry_ok(roots, s0[i]) by {
            assert(i == 0);
        }
    }
    assert(queue_ok(roots, q)) by {
        assert forall|j: int| 0 <= j < q.len() implies all_ok(roots, #[trigger] q[j]) && paths_distinct(q[j])
            && q[j].len() > 0 by {
            assert(j == 0);
        }
    }
    let states = Seq::<StateV<O, C, LE, TE>>::empty();
    let fuel = (all_places(roots).len() + 2 + state_places(roots).len() * (ntok + 2)) as nat;
    lemma_explore_some(roots, ntok, r, q, Map::empty(), states, fuel);
    assert(explores_within(roots, r, fuel));
}

} // verus!
