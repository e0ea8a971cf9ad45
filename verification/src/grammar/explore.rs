use vstd::prelude::*;

use std::collections::VecDeque;

use super::flatten::{
    keys_distinct, lemma_path_set_delta_distinct,
    branch_at, close_from, conv_view, deltas_ok, explore, explored, explores_within, find_state,
    find_tok, lemma_deltas_ok_at, lemma_find_tok_range, lemma_walk_ok, lemma_walk_push,
    path_set_delta, place, places, start_set, successors, tree_ok, walk, Entry, LeafOrBranch, Path,
    PathData, PathDeltaV, StateV, TreeOutput, TreeStatePath,
};
use super::table::{Delta, DeltaKind, SparseState, SparseTable};
use super::tree::{TreeDelta, TreeMap};
use super::ids::{RootId, StateId, TokenId};
use super::keys::{
    key_index_contents, key_index_get_index_of, key_index_insert, key_index_new, key_map_contents, KeyMap,
    PlacesKey, PlacesV, StateNumbers,
};
use super::path_set::{
    all_ok, bt_ok, bt_view, close_set, copy_path, entry_ok, entry_view, lob_view, out_view,
    path_set_delta_exec, path_view, pd_view, roots_ok, set_view, PathDelta,
};
use super::tree::{Root, Tree};
use super::finite::lemma_explored;

verus! {

fn toks_u32(toks: &Vec<TokenId>) -> (r: Vec<u32>)
    ensures
        r@ == toks@.map_values(|t: TokenId| t.0),
{
    let mut r: Vec<u32> = Vec::new();
    let mut i: usize = 0;
    while i < toks.len()
        invariant
            i <= toks@.len(),
            r@ == toks@.take(i as int).map_values(|t: TokenId| t.0),
        decreases toks@.len() - i,
    {
        r.push(toks[i].0);
        proof {
            assert(toks@.take(i + 1) =~= toks@.take(i as int).push(toks@[i as int]));
            assert(r@ =~= toks@.take(i + 1).map_values(|t: TokenId| t.0));
        }
        i = i + 1;
    }
    proof {
        assert(toks@.take(toks@.len() as int) =~= toks@);
    }
    r
}

/// The places of a path set, as a map key.
pub(crate) fn places_exec<'t, O, C, LE, TE>(set: &Vec<(Path, PathData<'t, O, C, LE, TE>)>) -> (r: PlacesKey)
    ensures
        r.deep_view() == places(set_view(set@)),
{
    let ghost all = places(set_view(set@));
    let mut r: PlacesKey = Vec::new();
    let mut i: usize = 0;
    while i < set.len()
        invariant
            i <= set@.len(),
            all == places(set_view(set@)),
            r.deep_view() == all.take(i as int),
        decreases set@.len() - i,
    {
        let ts = toks_u32(&set[i].0.toks);
        let ghost before = r.deep_view();
        r.push((set[i].0.root.0, ts));
        proof {
            assert(ts.deep_view() =~= ts@);
            assert(all[i as int] == place(path_view(set@[i as int].0)));
            assert(r.deep_view() =~= before.push((set@[i as int].0.root.0, ts.deep_view())));
            assert(all.take(i + 1) =~= all.take(i as int).push(all[i as int]));
        }
        i = i + 1;
    }
    proof {
        assert(all.take(all.len() as int) =~= all);
    }
    r
}

/// The path set's places are known: they name a state already, or a path
/// set with them waits.
pub open spec fn known<O, C, LE, TE>(k: PlacesV, seen: StateNumbers, q: Seq<Seq<Entry<O, C, LE, TE>>>) -> bool {
    ||| seen.contains_key(k)
    ||| exists|j: int| 0 <= j < q.len() && places(#[trigger] q[j]) == k
}

/// Every transition of every state leads to known places.
pub open spec fn all_known<O, C, LE, TE>(
    states: Seq<StateV<O, C, LE, TE>>,
    seen: StateNumbers,
    q: Seq<Seq<Entry<O, C, LE, TE>>>,
) -> bool {
    forall|i: int| 0 <= i < states.len() ==> {
        &&& forall|k: int| 0 <= k < states[i].1.0.len() ==> known(
            places(#[trigger] states[i].1.0[k].1.spec_inner().0),
            seen,
            q,
        )
        &&& known(places(states[i].1.1.0), seen, q)
    }
}

/// Taking the first waiting path set and naming its places keeps every
/// known place known.
pub proof fn lemma_known_step<O, C, LE, TE>(
    k: PlacesV,
    seen: StateNumbers,
    seen2: StateNumbers,
    q: Seq<Seq<Entry<O, C, LE, TE>>>,
    q2: Seq<Seq<Entry<O, C, LE, TE>>>,
)
    requires
        known(k, seen, q),
        q.len() > 0,
        seen2.contains_key(places(q[0])),
        forall|x: PlacesV| seen.contains_key(x) ==> seen2.contains_key(x),
        q2.len() >= q.len() - 1,
        forall|j: int| 0 <= j < q.len() - 1 ==> q2[j] == q[j + 1],
    ensures
        known(k, seen2, q2),
{
    if !seen.contains_key(k) {
        let j = choose|j: int| 0 <= j < q.len() && places(#[trigger] q[j]) == k;
        if j > 0 {
            assert(q2[j - 1] == q[j]);
            assert(places(q2[j - 1]) == k);
        }
    }
}

/// An exploration never loses states.
pub proof fn lemma_explore_grows<O, C, RE, LE, TE>(
    roots: Seq<super::tree::Root<O, C, RE, LE, TE>>,
    r: super::ids::RootId,
    q: Seq<Seq<Entry<O, C, LE, TE>>>,
    seen: StateNumbers,
    states: Seq<StateV<O, C, LE, TE>>,
    fuel: nat,
)
    requires
        explore(roots, r, q, seen, states, fuel) is Some,
    ensures
        states.len() <= (explore(roots, r, q, seen, states, fuel)->0).1.len(),
        forall|i: int| 0 <= i < states.len() ==> (explore(roots, r, q, seen, states, fuel)->0).1[i] == #[trigger] states[i],
    decreases fuel,
{
    if q.len() > 0 && fuel > 0 {
        let set = q[0];
        let rest = q.drop_first();
        let k = places(set);
        if seen.contains_key(k) {
            lemma_explore_grows(roots, r, rest, seen, states, (fuel - 1) as nat);
        } else {
            match close_from(roots, set, 0, fuel) {
                None => {},
                Some(c) => {
                    let j = find_state(states, places(c), 0);
                    if j != -1 {
                        lemma_explore_grows(roots, r, rest, seen.insert(k, j as u32), states, (fuel - 1) as nat);
                    } else {
                        let d = path_set_delta(roots, c, r);
                        lemma_explore_grows(
                            roots,
                            r,
                            rest + successors(d),
                            seen.insert(k, states.len() as u32),
                            states.push((places(c), d)),
                            (fuel - 1) as nat,
                        );
                        assert forall|i: int| 0 <= i < states.len() implies (explore(roots, r, q, seen, states, fuel)->0).1[i]
                            == #[trigger] states[i] by {
                            assert(states.push((places(c), d))[i] == states[i]);
                        }
                    }
                },
            }
        }
    }
}

/// The first index holding `k` among states with distinct places is its
/// index.
pub proof fn lemma_find_state_distinct<O, C, LE, TE>(states: Seq<StateV<O, C, LE, TE>>, k: PlacesV, j: int, i: int)
    requires
        forall|a: int, b: int| 0 <= a < b < states.len() ==> states[a].0 != states[b].0,
        0 <= i <= j < states.len(),
        states[j].0 == k,
    ensures
        find_state(states, k, i) == j,
    decreases j - i,
{
    if i < j {
        lemma_find_state_distinct(states, k, j, i + 1);
    }
}

/// No state holds `k`.
pub proof fn lemma_find_state_none<O, C, LE, TE>(states: Seq<StateV<O, C, LE, TE>>, k: PlacesV, i: int)
    requires
        forall|a: int| 0 <= a < states.len() ==> states[a].0 != k,
        0 <= i,
    ensures
        find_state(states, k, i) == -1,
    decreases states.len() - i,
{
    if i < states.len() {
        lemma_find_state_none(states, k, i + 1);
    }
}

/// A state the exploration found, before its transitions are numbered: the
/// first place of its path set, and the places each transition leads to
/// with what it yields, by token and for other tokens.
pub struct Found<'t, O, C> {
    pub first: Path,
    pub by_token: Vec<(TokenId, PlacesKey, Option<TreeOutput<'t, O, C>>)>,
    pub default: (PlacesKey, Option<TreeOutput<'t, O, C>>),
}

/// A found state is the state `s` of the exploration.
pub open spec fn found_matches<'t, O, C, LE, TE>(f: Found<'t, O, C>, s: StateV<O, C, LE, TE>) -> bool {
    &&& s.0.len() > 0
    &&& place(path_view(f.first)) == s.0[0]
    &&& f.by_token@.len() == s.1.0.len()
    &&& forall|k: int|
        0 <= k < f.by_token@.len() ==> {
            &&& (#[trigger] f.by_token@[k]).0 == s.1.0[k].0
            &&& f.by_token@[k].1.deep_view() == places(s.1.0[k].1.spec_inner().0)
            &&& out_view(f.by_token@[k].2) == s.1.0[k].1.spec_inner().1
        }
    &&& f.default.0.deep_view() == places(s.1.1.0)
    &&& out_view(f.default.1) == s.1.1.1
}

/// A found state's first place names a root and leads to a subtree of it.
pub open spec fn first_ok<'t, O, C, RE, LE, TE>(roots: Seq<Root<O, C, RE, LE, TE>>, f: Found<'t, O, C>) -> bool {
    &&& f.first.root.0 < roots.len()
    &&& walk(roots[f.first.root.0 as int].tree, f.first.toks@) is Some
}

/// Waiting path sets as plain values.
pub open spec fn qview<'t, O, C, LE, TE>(q: Seq<Vec<(Path, PathData<'t, O, C, LE, TE>)>>) -> Seq<
    Seq<Entry<O, C, LE, TE>>,
> {
    q.map_values(|s: Vec<(Path, PathData<'t, O, C, LE, TE>)>| set_view(s@))
}

/// The result of a finished exploration, as the exploration itself gives
/// it: every place met names a state, and every transition leads to places
/// met.
pub open spec fn explore_done<'t, O, C, RE, LE, TE>(
    roots: Seq<Root<O, C, RE, LE, TE>>,
    seen: StateNumbers,
    found: Seq<Found<'t, O, C>>,
    target: (StateNumbers, Seq<StateV<O, C, LE, TE>>),
) -> bool {
    &&& seen == target.0
    &&& found.len() == target.1.len()
    &&& forall|i: int| 0 <= i < found.len() ==> found_matches(#[trigger] found[i], target.1[i]) && first_ok(roots, found[i])
    &&& all_known(target.1, target.0, Seq::empty())
    &&& forall|x: PlacesV| target.0.contains_key(x) ==> target.0[x] < target.1.len()
}

/// Explores the table of root `id`; see [`explore`].
fn explore_exec<'t, O, C, RE, LE, TE>(
    roots: &'t Vec<Root<O, C, RE, LE, TE>>,
    id: RootId,
    Ghost(ntok): Ghost<nat>,
    Ghost(fuel): Ghost<nat>,
) -> (r: Option<(KeyMap, Vec<Found<'t, O, C>>)>)
    requires
        roots_ok(roots@, ntok),
        id.0 < roots@.len(),
        explore(roots@, id, seq![start_set(roots@, id)], Map::empty(), Seq::empty(), fuel) is Some,
    ensures
        ({
            let target = explore(roots@, id, seq![start_set(roots@, id)], Map::empty(), Seq::empty(), fuel)->0;
            &&& r is Some <==> target.1.len() <= u32::MAX as int + 1
            &&& r matches Some(x) ==> explore_done(roots@, key_map_contents(x.0), x.1@, target)
            &&& r is Some ==> forall|i: int| 0 <= i < target.1.len() ==> keys_distinct(#[trigger] target.1[i].1.0)
        }),
{
    let ghost target = explore(roots@, id, seq![start_set(roots@, id)], Map::empty(), Seq::empty(), fuel)->0;
    let root_tree: &'t Tree<O, C, LE, TE> = &roots[id.0 as usize].tree;
    let toks0: Vec<TokenId> = Vec::new();
    let conv0: Vec<&'t C> = Vec::new();
    proof {
        assert(super::flatten::conv_view(conv0@) =~= Seq::<C>::empty());
    }
    let start = vec![(Path { root: id, toks: toks0 }, PathData { tree: root_tree, conversion: conv0 })];
    let mut q: VecDeque<Vec<(Path, PathData<'t, O, C, LE, TE>)>> = VecDeque::new();
    q.push_back(start);
    let mut closures = KeyMap::new();
    let mut index = key_index_new();
    let mut found: Vec<Found<'t, O, C>> = Vec::new();
    let ghost mut sts: Seq<StateV<O, C, LE, TE>> = Seq::empty();
    let ghost mut f: nat = fuel;
    proof {
        assert(set_view(start@)[0] == start_set(roots@, id)[0]);
        assert(set_view(start@) =~= start_set(roots@, id));
        assert(qview(q@) =~= seq![start_set(roots@, id)]);
        assert(walk(roots@[id.0 as int].tree, Seq::<TokenId>::empty()) == Some(*root_tree));
        assert(all_ok(roots@, set_view(start@))) by {
            assert forall|i: int| 0 <= i < set_view(start@).len() implies #[trigger] entry_ok(roots@, set_view(start@)[i]) by {
                assert(i == 0);
            }
        }
        assert(key_index_contents(index) =~= sts.map_values(|s: StateV<O, C, LE, TE>| s.0));
    }
    while q.len() > 0
        invariant
            roots_ok(roots@, ntok),
            id.0 < roots@.len(),
            explore(roots@, id, qview(q@), key_map_contents(closures), sts, f) == Some(target),
            target == explore(roots@, id, seq![start_set(roots@, id)], Map::empty(), Seq::empty(), fuel)->0,
            sts.len() <= u32::MAX as int + 1,
            forall|i: int| 0 <= i < sts.len() ==> keys_distinct(#[trigger] sts[i].1.0),
            key_index_contents(index) == sts.map_values(|s: StateV<O, C, LE, TE>| s.0),
            forall|a: int, b: int| 0 <= a < b < sts.len() ==> sts[a].0 != sts[b].0,
            found@.len() == sts.len(),
            forall|i: int| 0 <= i < found@.len() ==> found_matches(#[trigger] found@[i], sts[i]) && first_ok(roots@, found@[i]),
            forall|j: int| 0 <= j < q@.len() ==> (#[trigger] q@[j])@.len() > 0 && all_ok(roots@, set_view(q@[j]@)),
            forall|x: PlacesV| key_map_contents(closures).contains_key(x) ==> key_map_contents(closures)[x] < sts.len(),
            all_known(sts, key_map_contents(closures), qview(q@)),
        decreases f,
    {
        let ghost seen = key_map_contents(closures);
        let ghost qv = qview(q@);
        let ghost qs = q@;
        proof {
            lemma_explore_grows(roots@, id, qv, seen, sts, f);
            assert(f > 0);
        }
        let set = q.pop_front().unwrap();
        let ghost sv = set_view(set@);
        proof {
            assert(qs[0] == set);
            assert(qv[0] == sv);
            assert(qview(q@) =~= qv.drop_first());
        }
        let k = places_exec(&set);
        match closures.get(&k) {
            Some(_) => {
                proof {
                    assert forall|i: int| 0 <= i < sts.len() implies {
                        &&& forall|kk: int| 0 <= kk < sts[i].1.0.len() ==> known(
                            places(#[trigger] sts[i].1.0[kk].1.spec_inner().0),
                            key_map_contents(closures),
                            qview(q@),
                        )
                        &&& known(places(sts[i].1.1.0), key_map_contents(closures), qview(q@))
                    } by {
                        assert forall|kk: int| 0 <= kk < sts[i].1.0.len() implies known(
                            places(#[trigger] sts[i].1.0[kk].1.spec_inner().0),
                            key_map_contents(closures),
                            qview(q@),
                        ) by {
                            lemma_known_step(places(sts[i].1.0[kk].1.spec_inner().0), seen, seen, qv, qview(q@));
                        }
                        lemma_known_step(places(sts[i].1.1.0), seen, seen, qv, qview(q@));
                    }
                    f = (f - 1) as nat;
                }
            },
            None => {
                let mut set = set;
                close_set(roots, &mut set, Ghost(ntok), Ghost(f));
                let ghost cv = set_view(set@);
                let c = places_exec(&set);
                proof {
                    assert(set@.len() > 0);
                }
                match key_index_get_index_of(&index, &c) {
                    Some(j) => {
                        proof {
                            assert(sts.map_values(|s: StateV<O, C, LE, TE>| s.0)[j as int] == sts[j as int].0);
                            lemma_find_state_distinct(sts, places(cv), j as int, 0);
                        }
                        closures.insert(k, j as u32);
                        proof {
                            assert forall|i: int| 0 <= i < sts.len() implies {
                                &&& forall|kk: int| 0 <= kk < sts[i].1.0.len() ==> known(
                                    places(#[trigger] sts[i].1.0[kk].1.spec_inner().0),
                                    key_map_contents(closures),
                                    qview(q@),
                                )
                                &&& known(places(sts[i].1.1.0), key_map_contents(closures), qview(q@))
                            } by {
                                assert forall|kk: int| 0 <= kk < sts[i].1.0.len() implies known(
                                    places(#[trigger] sts[i].1.0[kk].1.spec_inner().0),
                                    key_map_contents(closures),
                                    qview(q@),
                                ) by {
                                    lemma_known_step(
                                        places(sts[i].1.0[kk].1.spec_inner().0),
                                        seen,
                                        key_map_contents(closures),
                                        qv,
                                        qview(q@),
                                    );
                                }
                                lemma_known_step(places(sts[i].1.1.0), seen, key_map_contents(closures), qv, qview(q@));
                            }
                            f = (f - 1) as nat;
                        }
                    },
                    None => {
                        proof {
                            assert forall|a: int| 0 <= a < sts.len() implies sts[a].0 != places(cv) by {
                                assert(sts.map_values(|s: StateV<O, C, LE, TE>| s.0)[a] == sts[a].0);
                            }
                            lemma_find_state_none(sts, places(cv), 0);
                        }
                        let n = found.len();
                        let ghost d = path_set_delta(roots@, cv, id);
                        let ghost nsts = sts.push((places(cv), d));
                        proof {
                            lemma_path_set_delta_distinct(roots@, cv, id);
                        }
                        let ghost nseen = seen.insert(places(sv), sts.len() as u32);
                        proof {
                            lemma_explore_grows(roots@, id, qv.drop_first() + successors(d), nseen, nsts, (f - 1) as nat);
                        }
                        if n as u64 > 0xFFFF_FFFFu64 {
                            proof {
                                assert(explore(roots@, id, qv.drop_first() + successors(d), nseen, nsts, (f - 1) as nat)
                                    == Some(target));
                                assert(nsts.len() == n + 1);
                                assert(n > 0xFFFF_FFFF);
                                assert(target.1.len() >= nsts.len());
                            }
                            return None;
                        }
                        let (bt, dd) = path_set_delta_exec(roots, &set, id, Ghost(ntok));
                        let first = copy_path(&set[0].0);
                        proof {
                            assert(cv[0] == entry_view(set@[0]));
                            assert(entry_ok(roots@, cv[0]));
                            assert(places(cv)[0] == place(path_view(first)));
                        }
                        let ghost bt0 = bt@;
                        let ghost btv = bt_view(bt@);
                        let ghost q0 = q@;
                        let mut bt = bt;
                        let mut by_token: Vec<(TokenId, PlacesKey, Option<TreeOutput<'t, O, C>>)> = Vec::new();
                        let ghost mut m: int = 0;
                        while bt.len() > 0
                            invariant
                                roots_ok(roots@, ntok),
                                0 <= m <= bt0.len(),
                                btv == bt_view(bt0),
                                bt_ok(roots@, btv),
                                bt@ == bt0.skip(m),
                                q@.len() == q0.len() + m,
                                forall|j: int| 0 <= j < q0.len() ==> q@[j] == q0[j],
                                forall|j: int| 0 <= j < m ==> set_view((#[trigger] q@[q0.len() + j])@) == btv[j].1.spec_inner().0,
                                forall|j: int| 0 <= j < q@.len() ==> (#[trigger] q@[j])@.len() > 0 && all_ok(roots@, set_view(q@[j]@)),
                                by_token@.len() == m,
                                forall|kk: int|
                                    0 <= kk < m ==> {
                                        &&& (#[trigger] by_token@[kk]).0 == btv[kk].0
                                        &&& by_token@[kk].1.deep_view() == places(btv[kk].1.spec_inner().0)
                                        &&& out_view(by_token@[kk].2) == btv[kk].1.spec_inner().1
                                    },
                            decreases bt@.len(),
                        {
                            let (t, lob) = bt.remove(0);
                            proof {
                                assert(bt0[m] == (t, lob));
                                assert(btv[m] == (t, lob_view(lob)));
                                assert(bt@ =~= bt0.skip(m + 1));
                                assert(all_ok(roots@, btv[m].1.spec_inner().0));
                            }
                            let pd = lob.into_inner();
                            proof {
                                assert(pd_view(pd) == btv[m].1.spec_inner());
                            }
                            let PathDelta { next, output } = pd;
                            let key = places_exec(&next);
                            by_token.push((t, key, output));
                            q.push_back(next);
                            proof {
                                m = m + 1;
                            }
                        }
                        let PathDelta { next: dn, output: dout } = dd;
                        let dkey = places_exec(&dn);
                        q.push_back(dn);
                        closures.insert(k, n as u32);
                        let ghost idx_before = key_index_contents(index);
                        key_index_insert(&mut index, c);
                        let fnd = Found { first, by_token, default: (dkey, dout) };
                        found.push(fnd);
                        proof {
                            assert(btv =~= d.0);
                            assert(qview(q@) =~= qv.drop_first() + successors(d)) by {
                                assert forall|j: int| 0 <= j < qview(q@).len() implies qview(q@)[j] == (qv.drop_first() + successors(d))[j] by {
                                    if j < q0.len() {
                                        assert(q@[j] == q0[j]);
                                    } else if j < q0.len() + m {
                                        assert(set_view(q@[q0.len() + (j - q0.len())]@) == btv[j - q0.len()].1.spec_inner().0);
                                    }
                                }
                            }
                            assert(found_matches(fnd, (places(cv), d)));
                            assert(found@[found@.len() - 1] == fnd);
                            assert(key_index_contents(index) =~= nsts.map_values(|s: StateV<O, C, LE, TE>| s.0));
                            assert(key_map_contents(closures) == nseen);
                            assert forall|a: int, b: int| 0 <= a < b < nsts.len() implies nsts[a].0 != nsts[b].0 by {
                                if b == sts.len() {
                                    assert(nsts[a] == sts[a]);
                                }
                            }
                            assert forall|i: int| 0 <= i < found@.len() implies found_matches(#[trigger] found@[i], nsts[i]) && first_ok(roots@, found@[i]) by {
                                if i < sts.len() {
                                    assert(nsts[i] == sts[i]);
                                }
                            }
                            let nq = qview(q@);
                            assert(nq == qv.drop_first() + successors(d));
                            assert forall|i: int| 0 <= i < nsts.len() implies {
                                &&& forall|kk: int| 0 <= kk < nsts[i].1.0.len() ==> known(
                                    places(#[trigger] nsts[i].1.0[kk].1.spec_inner().0),
                                    nseen,
                                    nq,
                                )
                                &&& known(places(nsts[i].1.1.0), nseen, nq)
                            } by {
                                if i < sts.len() {
                                    assert(nsts[i] == sts[i]);
                                    assert forall|kk: int| 0 <= kk < nsts[i].1.0.len() implies known(
                                        places(#[trigger] nsts[i].1.0[kk].1.spec_inner().0),
                                        nseen,
                                        nq,
                                    ) by {
                                        lemma_known_step(places(sts[i].1.0[kk].1.spec_inner().0), seen, nseen, qv, nq);
                                    }
                                    lemma_known_step(places(sts[i].1.1.0), seen, nseen, qv, nq);
                                } else {
                                    let base: int = qv.drop_first().len() as int;
                                    assert forall|kk: int| 0 <= kk < nsts[i].1.0.len() implies known(
                                        places(#[trigger] nsts[i].1.0[kk].1.spec_inner().0),
                                        nseen,
                                        nq,
                                    ) by {
                                        assert(nq[base + kk] == successors(d)[kk]);
                                        assert(places(nq[base + kk]) == places(nsts[i].1.0[kk].1.spec_inner().0));
                                    }
                                    assert(nq[base + d.0.len() as int] == successors(d)[d.0.len() as int]);
                                    assert(places(nq[base + d.0.len() as int]) == places(nsts[i].1.1.0));
                                }
                            }
                            sts = nsts;
                            f = (f - 1) as nat;
                        }
                    },
                }
            },
        }
    }
    proof {
        assert(qview(q@) =~= Seq::<Seq<Entry<O, C, LE, TE>>>::empty());
        assert(target.1 == sts);
    }
    Some((closures, found))
}

/// Walking a prefix of a walkable token path succeeds.
pub proof fn lemma_walk_prefix<O, C, LE, TE>(t: Tree<O, C, LE, TE>, s: Seq<TokenId>, n: int)
    requires
        walk(t, s) is Some,
        0 <= n <= s.len(),
    ensures
        walk(t, s.take(n)) is Some,
    decreases s.len() - n,
{
    if n == s.len() {
        assert(s.take(n) =~= s);
    } else {
        lemma_walk_prefix(t, s, n + 1);
        assert(s.take(n + 1) =~= s.take(n).push(s[n]));
        lemma_walk_push(t, s.take(n), s[n]);
    }
}

/// Where a state of the table of root `r` stands: the root's extra, its
/// tree's extra, and each token of the state's first place with its
/// definition and the extra of the subtree it leads to.
pub open spec fn tsp_matches<'t, O, C, TD, RE, LE, TE>(
    p: TreeStatePath<'t, TD, RE, TE>,
    roots: Seq<Root<O, C, RE, LE, TE>>,
    tokens: Seq<TD>,
    pl: (u32, Seq<u32>),
) -> bool {
    let root = roots[pl.0 as int];
    let toks = pl.1.map_values(|x: u32| TokenId(x));
    &&& *p.root == root.extra
    &&& *p.root_tree == root.tree.extra
    &&& p.path@.len() == toks.len()
    &&& forall|k: int|
        0 <= k < toks.len() ==> {
            &&& (#[trigger] p.path@[k]).0 == toks[k]
            &&& *p.path@[k].1 == tokens[toks[k].0 as int]
            &&& *p.path@[k].2 == (walk(root.tree, toks.take(k + 1))->0).extra
        }
}

/// Builds where a state stands; see [`tsp_matches`].
fn state_path<'t, O, C, TD, RE, LE, TE>(
    roots: &'t Vec<Root<O, C, RE, LE, TE>>,
    tokens: &'t Vec<TD>,
    p: &Path,
) -> (r: TreeStatePath<'t, TD, RE, TE>)
    requires
        roots_ok(roots@, tokens@.len()),
        p.root.0 < roots@.len(),
        walk(roots@[p.root.0 as int].tree, p.toks@) is Some,
    ensures
        tsp_matches(r, roots@, tokens@, place(path_view(*p))),
{
    let root: &'t Root<O, C, RE, LE, TE> = &roots[p.root.0 as usize];
    let ghost rt = root.tree;
    let ghost toks = p.toks@;
    proof {
        assert(place(path_view(*p)).1.map_values(|x: u32| TokenId(x)) =~= toks);
        assert(RootId(p.root.0 as int as u32) == p.root);
        assert(tree_ok(roots@, tokens@.len(), p.root, rt));
    }
    let mut cur: &'t Tree<O, C, LE, TE> = &root.tree;
    let mut path: Vec<(TokenId, &'t TD, &'t TE)> = Vec::new();
    let mut i: usize = 0;
    proof {
        assert(toks.take(0) =~= Seq::<TokenId>::empty());
    }
    while i < p.toks.len()
        invariant
            roots_ok(roots@, tokens@.len()),
            toks == p.toks@,
            rt == root.tree,
            tree_ok(roots@, tokens@.len(), p.root, rt),
            walk(rt, toks) is Some,
            i <= toks.len(),
            walk(rt, toks.take(i as int)) == Some(*cur),
            path@.len() == i,
            forall|k: int|
                0 <= k < i ==> {
                    &&& (#[trigger] path@[k]).0 == toks[k]
                    &&& *path@[k].1 == tokens@[toks[k].0 as int]
                    &&& *path@[k].2 == (walk(rt, toks.take(k + 1))->0).extra
                },
        decreases toks.len() - i,
    {
        let tok = p.toks[i];
        proof {
            lemma_walk_prefix(rt, toks, i + 1);
            assert(toks.take(i + 1) =~= toks.take(i as int).push(tok));
            lemma_walk_push(rt, toks.take(i as int), tok);
            lemma_walk_ok(roots@, tokens@.len(), p.root, rt, toks.take(i as int));
            lemma_find_tok_range(cur.deltas@, tok, 0);
        }
        let j = find_tok_in(&cur.deltas, tok);
        proof {
            lemma_deltas_ok_at(roots@, tokens@.len(), p.root, cur.deltas@, 0, j as int);
        }
        match &cur.deltas[j].1 {
            TreeDelta::Branch(b) => {
                cur = &b.tree;
            },
            TreeDelta::Leaf(..) => {
                proof {
                    assert(false);
                }
            },
        }
        path.push((tok, &tokens[tok.0 as usize], &cur.extra));
        i = i + 1;
    }
    proof {
        assert(toks.take(toks.len() as int) =~= toks);
    }
    TreeStatePath { root: &root.extra, root_tree: &root.tree.extra, path }
}

/// The index of the delta for a token the tree is known to have.
fn find_tok_in<O, C, LE, TE>(ds: &Vec<(TokenId, TreeDelta<O, C, LE, TE>)>, tok: TokenId) -> (r: usize)
    requires
        find_tok(ds@, tok, 0) != -1,
    ensures
        r == find_tok(ds@, tok, 0),
        r < ds@.len(),
{
    let mut i: usize = 0;
    while i < ds.len()
        invariant
            i <= ds@.len(),
            find_tok(ds@, tok, 0) == find_tok(ds@, tok, i as int),
        decreases ds@.len() - i,
    {
        if ds[i].0.0 == tok.0 {
            return i;
        }
        i = i + 1;
    }
    proof {
        assert(false);
    }
    0
}

/// A transition leads to the state its places name and yields what its
/// path set yields.
pub open spec fn delta_matches<'t, O, C>(
    d: Delta<TreeOutput<'t, O, C>>,
    next: PlacesV,
    out: Option<(O, Seq<C>)>,
    seen: StateNumbers,
) -> bool {
    &&& d.next.0 == seen[next]
    &&& match out {
        Some(x) => d.kind matches DeltaKind::Yield(t) && *t.output == x.0 && conv_view(t.conversion@) == x.1,
        None => d.kind is Continue,
    }
}

/// A table state has the transitions of the explored state `s`, numbered
/// by `seen`.
pub open spec fn state_matches<'t, O, C, SE, LE, TE>(
    st: SparseState<TokenId, TreeOutput<'t, O, C>, SE>,
    s: StateV<O, C, LE, TE>,
    seen: StateNumbers,
) -> bool {
    &&& st.delta@.len() == s.1.0.len()
    &&& forall|k: int|
        0 <= k < st.delta@.len() ==> {
            &&& (#[trigger] st.delta@[k]).0 == s.1.0[k].0
            &&& delta_matches(
                st.delta@[k].1,
                places(s.1.0[k].1.spec_inner().0),
                s.1.0[k].1.spec_inner().1,
                seen,
            )
        }
    &&& delta_matches(st.default_delta, places(s.1.1.0), s.1.1.1, seen)
}

fn number_delta<'t, O, C>(
    closures: &KeyMap,
    key: &PlacesKey,
    out: Option<TreeOutput<'t, O, C>>,
) -> (r: Delta<TreeOutput<'t, O, C>>)
    requires
        key_map_contents(*closures).contains_key(key.deep_view()),
    ensures
        delta_matches(r, key.deep_view(), out_view(out), key_map_contents(*closures)),
{
    let next = match closures.get(key) {
        Some(n) => n,
        None => {
            proof {
                assert(false);
            }
            0
        },
    };
    let kind = match out {
        Some(t) => DeltaKind::Yield(t),
        None => DeltaKind::Continue,
    };
    Delta { next: StateId(next), kind }
}

/// Every transition of the table leads to one of its states.
pub open spec fn table_closed<I, Out, SE>(t: SparseTable<I, Out, SE>) -> bool {
    forall|i: int|
        0 <= i < t.0@.len() ==> {
            &&& forall|k: int| 0 <= k < (#[trigger] t.0@[i]).delta@.len() ==> (#[trigger] t.0@[i].delta@[k]).1.next.0 < t.0@.len()
            &&& t.0@[i].default_delta.next.0 < t.0@.len()
        }
}

/// No state of the table has two transitions for one token.
pub open spec fn one_per_token<Out, SE>(t: SparseTable<TokenId, Out, SE>) -> bool {
    forall|i: int| 0 <= i < t.0@.len() ==> keys_distinct(#[trigger] t.0@[i].delta@)
}

/// An exploration from the start set has at least one state, and its first
/// state is the closure of the start set.
pub proof fn lemma_explore_start<O, C, RE, LE, TE>(roots: Seq<Root<O, C, RE, LE, TE>>, r: RootId, fuel: nat)
    requires
        explore(roots, r, seq![start_set(roots, r)], Map::empty(), Seq::empty(), fuel) is Some,
    ensures
        ({
            let res = explore(roots, r, seq![start_set(roots, r)], Map::empty(), Seq::empty(), fuel)->0;
            &&& res.1.len() >= 1
            &&& close_from(roots, start_set(roots, r), 0, fuel) is Some
            &&& res.1[0].0 == places(close_from(roots, start_set(roots, r), 0, fuel)->0)
        }),
{
    let q = seq![start_set(roots, r)];
    let seen = Map::<PlacesV, u32>::empty();
    let sts = Seq::<StateV<O, C, LE, TE>>::empty();
    assert(q.len() > 0);
    assert(fuel > 0);
    assert(!seen.contains_key(places(q[0])));
    let c = close_from(roots, q[0], 0, fuel)->0;
    assert(find_state(sts, places(c), 0) == -1);
    let d = path_set_delta(roots, c, r);
    lemma_explore_grows(
        roots,
        r,
        q.drop_first() + successors(d),
        seen.insert(places(q[0]), 0u32),
        sts.push((places(c), d)),
        (fuel - 1) as nat,
    );
    assert(sts.push((places(c), d))[0] == (places(c), d));
}

/// `e` is what `extra` may give for where a state with first place `pl`
/// stands.
pub open spec fn extra_for<'t, O, C, TD, RE, LE, TE, SE, F: FnMut(&TreeStatePath<'t, TD, RE, TE>) -> SE>(
    extra: F,
    roots: Seq<Root<O, C, RE, LE, TE>>,
    tokens: Seq<TD>,
    pl: (u32, Seq<u32>),
    e: SE,
) -> bool {
    exists|p: TreeStatePath<'t, TD, RE, TE>| #[trigger] tsp_matches(p, roots, tokens, pl) && call_ensures(extra, (&p,), e)
}

/// Two transitions lead to the same state and yield the same output with
/// the same conversions, or both yield nothing.
pub open spec fn same_delta<'t, O, C>(a: Delta<TreeOutput<'t, O, C>>, b: Delta<TreeOutput<'t, O, C>>) -> bool {
    &&& a.next == b.next
    &&& match (a.kind, b.kind) {
        (DeltaKind::Yield(x), DeltaKind::Yield(y)) => *x.output == *y.output && conv_view(x.conversion@) == conv_view(
            y.conversion@,
        ),
        (DeltaKind::Continue, DeltaKind::Continue) => true,
        _ => false,
    }
}

/// Two tables have the same states with the same transitions; each
/// state's extra may differ, as `extra` may give different values for one
/// place.
pub open spec fn same_transitions<'t, O, C, SE>(
    a: SparseTable<TokenId, TreeOutput<'t, O, C>, SE>,
    b: SparseTable<TokenId, TreeOutput<'t, O, C>, SE>,
) -> bool {
    &&& a.0@.len() == b.0@.len()
    &&& forall|i: int|
        0 <= i < a.0@.len() ==> {
            &&& (#[trigger] a.0@[i]).delta@.len() == b.0@[i].delta@.len()
            &&& forall|k: int|
                0 <= k < a.0@[i].delta@.len() ==> (#[trigger] a.0@[i].delta@[k]).0 == b.0@[i].delta@[k].0
                    && same_delta(a.0@[i].delta@[k].1, b.0@[i].delta@[k].1)
            &&& same_delta(a.0@[i].default_delta, b.0@[i].default_delta)
        }
}

impl<O, C, TD, RE, LE, TE> TreeMap<O, C, TD, RE, LE, TE> {
    /// Every root's tree is sound, and every root has an id.
    pub open spec fn flatten_ok(self) -> bool {
        roots_ok(self.roots@, self.tokens@.len())
    }

    /// The states of the table of root `id` can all have ids.
    pub open spec fn table_fits(self, id: RootId) -> bool {
        (explored(self.roots@, id)->0).1.len() <= u32::MAX as int + 1
    }

    /// `t` is the table of root `id`: its states are the explored states in
    /// order, with their transitions numbered, each state's extra given by
    /// `extra` for where the state stands.
    pub open spec fn table_matches<'t, SE, F: FnMut(&TreeStatePath<'t, TD, RE, TE>) -> SE>(
        self,
        id: RootId,
        t: SparseTable<TokenId, TreeOutput<'t, O, C>, SE>,
        extra: F,
    ) -> bool {
        let x = explored(self.roots@, id)->0;
        &&& t.0@.len() == x.1.len()
        &&& x.1.len() >= 1
        &&& forall|i: int| 0 <= i < t.0@.len() ==> state_matches(#[trigger] t.0@[i], x.1[i], x.0)
        &&& forall|i: int|
            0 <= i < t.0@.len() ==> extra_for(
                extra,
                self.roots@,
                self.tokens@,
                x.1[i].0[0],
                (#[trigger] t.0@[i]).extra,
            )
    }

    /// The table `flatten` gives for a root and the one `flatten_root`
    /// gives for it agree: any two tables of one root (see
    /// [`Self::table_matches`]) have the same states with the same
    /// transitions, and each state's extra is a value `extra` gives for the
    /// same place.
    pub proof fn lemma_flatten_agrees<'t, SE, F: FnMut(&TreeStatePath<'t, TD, RE, TE>) -> SE>(
        self,
        id: RootId,
        a: SparseTable<TokenId, TreeOutput<'t, O, C>, SE>,
        b: SparseTable<TokenId, TreeOutput<'t, O, C>, SE>,
        extra: F,
    )
        requires
            self.table_matches(id, a, extra),
            self.table_matches(id, b, extra),
        ensures
            same_transitions(a, b),
            forall|i: int|
                0 <= i < a.0@.len() ==> exists|pl: (u32, Seq<u32>)|
                    extra_for(extra, self.roots@, self.tokens@, pl, (#[trigger] a.0@[i]).extra) && extra_for(
                        extra,
                        self.roots@,
                        self.tokens@,
                        pl,
                        b.0@[i].extra,
                    ),
    {
        let x = explored(self.roots@, id)->0;
        assert forall|i: int| 0 <= i < a.0@.len() implies {
            &&& (#[trigger] a.0@[i]).delta@.len() == b.0@[i].delta@.len()
            &&& forall|k: int|
                0 <= k < a.0@[i].delta@.len() ==> (#[trigger] a.0@[i].delta@[k]).0 == b.0@[i].delta@[k].0
                    && same_delta(a.0@[i].delta@[k].1, b.0@[i].delta@[k].1)
            &&& same_delta(a.0@[i].default_delta, b.0@[i].default_delta)
        } by {
            assert(state_matches(a.0@[i], x.1[i], x.0));
            assert(state_matches(b.0@[i], x.1[i], x.0));
            assert forall|k: int| 0 <= k < a.0@[i].delta@.len() implies (#[trigger] a.0@[i].delta@[k]).0
                == b.0@[i].delta@[k].0 && same_delta(a.0@[i].delta@[k].1, b.0@[i].delta@[k].1) by {
                assert(b.0@[i].delta@[k] == b.0@[i].delta@[k]);
            }
        }
        assert forall|i: int| 0 <= i < a.0@.len() implies exists|pl: (u32, Seq<u32>)|
            extra_for(extra, self.roots@, self.tokens@, pl, (#[trigger] a.0@[i]).extra) && extra_for(
                extra,
                self.roots@,
                self.tokens@,
                pl,
                b.0@[i].extra,
            ) by {
            let pl = x.1[i].0[0];
            assert(extra_for(extra, self.roots@, self.tokens@, pl, a.0@[i].extra));
            assert(extra_for(extra, self.roots@, self.tokens@, pl, b.0@[i].extra));
        }
    }

    /// What `flatten` gives is, root by root, what `flatten_root` gives: a
    /// listing of tables like `flatten`'s (one per root, in root order, each
    /// the table of its root) holds at the place of each root a table with
    /// the same states and transitions as any table of that root.
    pub proof fn lemma_flatten_is_flatten_root<'t, SE, F: FnMut(&TreeStatePath<'t, TD, RE, TE>) -> SE>(
        self,
        v: Seq<(RootId, SparseTable<TokenId, TreeOutput<'t, O, C>, SE>)>,
        id: RootId,
        t: SparseTable<TokenId, TreeOutput<'t, O, C>, SE>,
        extra: F,
    )
        requires
            v.len() == self.roots@.len(),
            forall|i: int| 0 <= i < v.len() ==> (#[trigger] v[i]).0.0 == i && self.table_matches(v[i].0, v[i].1, extra),
            id.0 < self.roots@.len(),
            self.table_matches(id, t, extra),
        ensures
            v[id.0 as int].0 == id,
            same_transitions(v[id.0 as int].1, t),
    {
        let i = id.0 as int;
        assert(v[i].0.0 == i);
        assert(v[i].0 == id);
        self.lemma_flatten_agrees(id, v[i].1, t, extra);
    }

    fn flatten_root_with<'t, SE, F: FnMut(&TreeStatePath<'t, TD, RE, TE>) -> SE>(
        &'t self,
        id: RootId,
        extra: &mut F,
    ) -> (r: Option<SparseTable<TokenId, TreeOutput<'t, O, C>, SE>>)
        requires
            self.flatten_ok(),
            id.0 < self.roots@.len(),
            forall|p: &TreeStatePath<'t, TD, RE, TE>| call_requires(*old(extra), (p,)),
        ensures
            r is Some <==> self.table_fits(id),
            r matches Some(t) ==> self.table_matches(id, t, *old(extra)) && table_closed(t) && one_per_token(t),
            *final(extra) == *old(extra),
    {
        let ghost e0 = *extra;
        proof {
            lemma_explored(self.roots@, self.tokens@.len(), id);
        }
        let ghost fuel = choose|fuel: nat| explores_within(self.roots@, id, fuel);
        let ghost target = explored(self.roots@, id)->0;
        proof {
            lemma_explore_start(self.roots@, id, fuel);
        }
        let (closures, found) = match explore_exec(&self.roots, id, Ghost(self.tokens@.len()), Ghost(fuel)) {
            Some(x) => x,
            None => return None,
        };
        let ghost seen = key_map_contents(closures);
        let ghost f0 = found@;
        let mut found = found;
        let mut states: Vec<SparseState<TokenId, TreeOutput<'t, O, C>, SE>> = Vec::new();
        let ghost mut i: int = 0;
        while found.len() > 0
            invariant
                self.flatten_ok(),
                explore_done(self.roots@, seen, f0, target),
                seen == key_map_contents(closures),
                target == explored(self.roots@, id)->0,
                forall|p: &TreeStatePath<'t, TD, RE, TE>| call_requires(*extra, (p,)),
                *extra == e0,
                0 <= i <= f0.len(),
                found@ == f0.skip(i),
                states@.len() == i,
                forall|k: int| 0 <= k < i ==> state_matches(#[trigger] states@[k], target.1[k], seen),
                forall|k: int|
                    0 <= k < i ==> extra_for(
                        *extra,
                        self.roots@,
                        self.tokens@,
                        target.1[k].0[0],
                        (#[trigger] states@[k]).extra,
                    ),
            decreases found@.len(),
        {
            let fnd = found.remove(0);
            proof {
                assert(fnd == f0[i]);
                assert(found@ =~= f0.skip(i + 1));
                assert(found_matches(fnd, target.1[i]) && first_ok(self.roots@, fnd));
            }
            let Found { first, by_token, default } = fnd;
            let tsp = state_path(&self.roots, &self.tokens, &first);
            let e = (*extra)(&tsp);
            let ghost bt0 = by_token@;
            let ghost states_before = states@;
            let mut by_token = by_token;
            let mut delta: Vec<(TokenId, Delta<TreeOutput<'t, O, C>>)> = Vec::new();
            let ghost mut m: int = 0;
            while by_token.len() > 0
                invariant
                    explore_done(self.roots@, seen, f0, target),
                    seen == key_map_contents(closures),
                    0 <= i < f0.len(),
                    bt0 == f0[i].by_token@,
                    found_matches(f0[i], target.1[i]),
                    0 <= m <= bt0.len(),
                    by_token@ == bt0.skip(m),
                    delta@.len() == m,
                    forall|k: int|
                        0 <= k < m ==> {
                            &&& (#[trigger] delta@[k]).0 == target.1[i].1.0[k].0
                            &&& delta_matches(
                                delta@[k].1,
                                places(target.1[i].1.0[k].1.spec_inner().0),
                                target.1[i].1.0[k].1.spec_inner().1,
                                seen,
                            )
                        },
                decreases by_token@.len(),
            {
                let (t, key, out) = by_token.remove(0);
                proof {
                    assert(bt0[m] == (t, key, out));
                    assert(by_token@ =~= bt0.skip(m + 1));
                    assert(f0[i].by_token@[m] == bt0[m]);
                    assert(known::<O, C, LE, TE>(places(target.1[i].1.0[m].1.spec_inner().0), target.0, Seq::empty()));
                }
                let d = number_delta(&closures, &key, out);
                delta.push((t, d));
                proof {
                    m = m + 1;
                }
            }
            proof {
                assert(known::<O, C, LE, TE>(places(target.1[i].1.1.0), target.0, Seq::empty()));
            }
            let (dkey, dout) = default;
            let dd = number_delta(&closures, &dkey, dout);
            let st = SparseState { delta, default_delta: dd, extra: e };
            states.push(st);
            proof {
                assert(state_matches(st, target.1[i], seen));
                assert(tsp_matches(tsp, self.roots@, self.tokens@, target.1[i].0[0]));
                assert(states@[i].extra == e);
                assert(call_ensures(*extra, (&tsp,), e));
                assert(extra_for(*extra, self.roots@, self.tokens@, target.1[i].0[0], states@[i].extra));
                assert forall|k: int| 0 <= k < i implies extra_for(
                    *extra,
                    self.roots@,
                    self.tokens@,
                    target.1[k].0[0],
                    (#[trigger] states@[k]).extra,
                ) by {
                    assert(states@[k] == states_before[k]);
                }
                i = i + 1;
            }
        }
        let t = SparseTable(states);
        proof {
            assert forall|j: int| 0 <= j < t.0@.len() implies {
                &&& forall|k: int| 0 <= k < (#[trigger] t.0@[j]).delta@.len() ==> (#[trigger] t.0@[j].delta@[k]).1.next.0 < t.0@.len()
                &&& t.0@[j].default_delta.next.0 < t.0@.len()
            } by {
                assert(state_matches(t.0@[j], target.1[j], seen));
                assert forall|k: int| 0 <= k < t.0@[j].delta@.len() implies (#[trigger] t.0@[j].delta@[k]).1.next.0 < t.0@.len() by {
                    assert(known::<O, C, LE, TE>(places(target.1[j].1.0[k].1.spec_inner().0), target.0, Seq::empty()));
                }
                assert(known::<O, C, LE, TE>(places(target.1[j].1.1.0), target.0, Seq::empty()));
            }
            assert forall|j: int| 0 <= j < t.0@.len() implies keys_distinct(#[trigger] t.0@[j].delta@) by {
                assert(state_matches(t.0@[j], target.1[j], seen));
                assert(keys_distinct(target.1[j].1.0));
                assert forall|a: int, b: int| 0 <= a < b < t.0@[j].delta@.len() implies t.0@[j].delta@[a].0
                    != t.0@[j].delta@[b].0 by {
                    assert(t.0@[j].delta@[a].0 == target.1[j].1.0[a].0);
                    assert(t.0@[j].delta@[b].0 == target.1[j].1.0[b].0);
                }
            }
        }
        Some(t)
    }

    /// The table of root `id`, if the root exists: a deterministic automaton
    /// over token ids whose states are the path sets met exploring the root's
    /// grammar (see [`explore`]), numbered in the order they were met, the
    /// start first. Each transition yields the output of the leaf or branch
    /// it comes from, with the conversions of the extends it was reached
    /// through; each state's extra is what `extra` gives for where it stands.
    /// `None` when the root does not exist, or has more states than state
    /// ids can number. The map must be sound ([`Self::flatten_ok`]; see
    /// [`Self::check_flatten_ok`]), as a build may leave it otherwise.
    pub fn flatten_root<'t, SE, F: FnMut(&TreeStatePath<'t, TD, RE, TE>) -> SE>(
        &'t self,
        id: RootId,
        mut extra: F,
    ) -> (r: Option<SparseTable<TokenId, TreeOutput<'t, O, C>, SE>>)
        requires
            self.flatten_ok(),
            forall|p: &TreeStatePath<'t, TD, RE, TE>| call_requires(extra, (p,)),
        ensures
            r is Some <==> id.0 < self.roots@.len() && self.table_fits(id),
            r matches Some(t) ==> self.table_matches(id, t, extra) && table_closed(t) && one_per_token(t),
    {
        if id.0 as usize >= self.roots.len() {
            return None;
        }
        self.flatten_root_with(id, &mut extra)
    }

    /// The table of every root, in root order; see [`Self::flatten_root`].
    /// `None` when some root has more states than state ids can number.
    pub fn flatten<'t, SE, F: FnMut(&TreeStatePath<'t, TD, RE, TE>) -> SE>(&'t self, mut extra: F) -> (r: Option<Vec<
        (RootId, SparseTable<TokenId, TreeOutput<'t, O, C>, SE>),
    >>)
        requires
            self.flatten_ok(),
            forall|p: &TreeStatePath<'t, TD, RE, TE>| call_requires(extra, (p,)),
        ensures
            r is Some <==> forall|id: RootId| id.0 < self.roots@.len() ==> #[trigger] self.table_fits(id),
            r matches Some(v) ==> {
                &&& v@.len() == self.roots@.len()
                &&& forall|i: int|
                    0 <= i < v@.len() ==> (#[trigger] v@[i]).0.0 == i && self.table_matches(v@[i].0, v@[i].1, extra)
                        && table_closed(v@[i].1) && one_per_token(v@[i].1)
            },
    {
        let mut r: Vec<(RootId, SparseTable<TokenId, TreeOutput<'t, O, C>, SE>)> = Vec::new();
        let mut i: usize = 0;
        let ghost e0 = extra;
        while i < self.roots.len()
            invariant
                extra == e0,
                self.flatten_ok(),
                forall|id: RootId| id.0 < i ==> #[trigger] self.table_fits(id),
                forall|p: &TreeStatePath<'t, TD, RE, TE>| call_requires(extra, (p,)),
                i <= self.roots@.len(),
                r@.len() == i,
                forall|k: int|
                    0 <= k < r@.len() ==> (#[trigger] r@[k]).0.0 == k && self.table_matches(r@[k].0, r@[k].1, extra)
                        && table_closed(r@[k].1) && one_per_token(r@[k].1),
            decreases self.roots@.len() - i,
        {
            let id = RootId(i as u32);
            let t = match self.flatten_root_with(id, &mut extra) {
                Some(t) => t,
                None => return None,
            };
            r.push((id, t));
            i = i + 1;
        }
        Some(r)
    }
}

} // verus!
