use vstd::prelude::*;

use super::builder::{Name, TreeBuilder, TreeMapBuilder};
use super::compile::{lemma_tree_grows, tree_match, tree_state, BuildError, LSt, LabelMap, Res};
use super::tree::{Root, TreeMap};
use crate::accept::AcceptState;

verus! {

/// The names among the first `n` entries of `s` defined exactly once, with
/// their definition, in order.
pub open spec fn singles<V>(s: Seq<(Name, Vec<V>)>, n: int) -> Seq<(Name, V)>
    decreases n,
{
    if n <= 0 || n > s.len() {
        Seq::empty()
    } else {
        singles(s, n - 1) + if s[n - 1].1@.len() == 1 {
            seq![(s[n - 1].0, s[n - 1].1@[0])]
        } else {
            Seq::empty()
        }
    }
}

/// Every definition of the names among the first `n` entries of `s`
/// defined more (or less) than once, in order.
pub open spec fn doubles<V>(s: Seq<(Name, Vec<V>)>, n: int) -> Seq<(Name, V)>
    decreases n,
{
    if n <= 0 || n > s.len() {
        Seq::empty()
    } else {
        doubles(s, n - 1) + if s[n - 1].1@.len() != 1 {
            s[n - 1].1@.map_values(|v: V| (s[n - 1].0, v))
        } else {
            Seq::empty()
        }
    }
}

/// The id table of the first `n` entries of `s`: each name with its index
/// among the names defined exactly once, or `None` if it is not one of them.
pub open spec fn id_table<V>(s: Seq<(Name, Vec<V>)>, n: int) -> Seq<(Name, Option<u32>)>
    decreases n,
{
    if n <= 0 || n > s.len() {
        Seq::empty()
    } else {
        id_table(s, n - 1).push(
            (
                s[n - 1].0,
                if s[n - 1].1@.len() == 1 {
                    Some(singles(s, n - 1).len() as u32)
                } else {
                    None
                },
            ),
        )
    }
}

proof fn lemma_singles_mono<V>(s: Seq<(Name, Vec<V>)>, a: int, b: int)
    requires
        0 <= a <= b <= s.len(),
    ensures
        singles(s, a).len() <= singles(s, b).len(),
    decreases b,
{
    if a < b {
        lemma_singles_mono(s, a, b - 1);
    }
}

/// Splits definitions into the id table, the names defined once and the
/// definitions of the others.
fn split_defs<V>(defs: Vec<(Name, Vec<V>)>) -> (r: (
    Vec<(Name, Option<u32>)>,
    Vec<(Name, V)>,
    Vec<(Name, V)>,
))
    requires
        singles(defs@, defs@.len() as int).len() <= u32::MAX + 1,
    ensures
        r.0@ == id_table(defs@, defs@.len() as int),
        r.1@ == singles(defs@, defs@.len() as int),
        r.2@ == doubles(defs@, defs@.len() as int),
{
    let ghost all = defs@;
    let mut defs = defs;
    let mut ids: Vec<(Name, Option<u32>)> = Vec::new();
    let mut ones: Vec<(Name, V)> = Vec::new();
    let mut dups: Vec<(Name, V)> = Vec::new();
    let ghost mut k: int = 0;
    while defs.len() > 0
        invariant
            0 <= k <= all.len(),
            defs@ == all.skip(k),
            ids@ == id_table(all, k),
            ones@ == singles(all, k),
            dups@ == doubles(all, k),
            singles(all, all.len() as int).len() <= u32::MAX + 1,
        decreases defs@.len(),
    {
        let (n, mut vs) = defs.remove(0);
        proof {
            assert(all[k] == (n, vs));
            assert(defs@ =~= all.skip(k + 1));
            lemma_singles_mono(all, k + 1, all.len() as int);
        }
        if vs.len() == 1 {
            let v = vs.pop().unwrap();
            ids.push((n, Some(ones.len() as u32)));
            ones.push((n, v));
            proof {
                assert(ones@ =~= singles(all, k + 1));
                assert(dups@ =~= doubles(all, k + 1));
            }
        } else {
            ids.push((n, None));
            let ghost vsv = vs@;
            let ghost d0 = dups@;
            while vs.len() > 0
                invariant
                    vs@.len() <= vsv.len(),
                    vs@ == vsv.skip(vsv.len() - vs@.len()),
                    dups@ == d0 + vsv.take(vsv.len() - vs@.len()).map_values(|v: V| (n, v)),
                decreases vs@.len(),
            {
                let ghost done = vsv.len() - vs@.len();
                let v = vs.remove(0);
                dups.push((n, v));
                proof {
                    assert(vsv[done] == v);
                    assert(vs@ =~= vsv.skip(vsv.len() - vs@.len()));
                    assert(vsv.take(done + 1) =~= vsv.take(done).push(v));
                    assert(dups@ =~= d0 + vsv.take(vsv.len() - vs@.len()).map_values(|v: V| (n, v)));
                }
            }
            proof {
                assert(vsv.take(vsv.len() as int) =~= vsv);
                assert(dups@ =~= doubles(all, k + 1));
                assert(ones@ =~= singles(all, k + 1));
            }
        }
        proof {
            k = k + 1;
        }
    }
    proof {
        assert(k == all.len());
    }
    (ids, ones, dups)
}

/// The bookkeeping and errors after building the trees of the roots from
/// index `i` on, in order.
pub open spec fn roots_state<O: AcceptState, C, TD, RE, LE, TE>(
    rs: Seq<(Name, (TreeBuilder<O, C, LE, TE>, RE))>,
    i: int,
    tids: Seq<(Name, Option<u32>)>,
    rids: Seq<(Name, Option<u32>)>,
    st: LSt,
) -> (LSt, Seq<BuildError<TD, RE, LE, TE>>)
    decreases rs.len() - i,
{
    if i < 0 || i >= rs.len() {
        (st, Seq::empty())
    } else {
        let ts = tree_state::<O, C, TD, RE, LE, TE>(rs[i].1.0, rs[i].0, tids, rids, st);
        let rest = roots_state::<O, C, TD, RE, LE, TE>(rs, i + 1, tids, rids, ts.0);
        (rest.0, ts.1 + rest.1)
    }
}

/// `out` is what building the roots from index `i` on gives: each root's
/// tree built under its own name, with its extra.
pub open spec fn roots_match<O: AcceptState, C, TD, RE, LE, TE>(
    rs: Seq<(Name, (TreeBuilder<O, C, LE, TE>, RE))>,
    i: int,
    out: Seq<Root<O, C, RE, LE, TE>>,
    tids: Seq<(Name, Option<u32>)>,
    rids: Seq<(Name, Option<u32>)>,
    st: LSt,
) -> bool
    decreases rs.len() - i,
{
    if i < 0 || i >= rs.len() {
        out.len() == 0
    } else {
        let ts = tree_state::<O, C, TD, RE, LE, TE>(rs[i].1.0, rs[i].0, tids, rids, st);
        &&& out.len() > 0
        &&& tree_match::<O, C, TD, RE, LE, TE>(rs[i].1.0, out[0].tree, rs[i].0, tids, rids, st)
        &&& out[0].extra == rs[i].1.1
        &&& roots_match::<O, C, TD, RE, LE, TE>(rs, i + 1, out.drop_first(), tids, rids, ts.0)
    }
}

/// Building the roots from index `i` on never forgets a label name.
pub proof fn lemma_roots_grows<O: AcceptState, C, TD, RE, LE, TE>(
    rs: Seq<(Name, (TreeBuilder<O, C, LE, TE>, RE))>,
    i: int,
    tids: Seq<(Name, Option<u32>)>,
    rids: Seq<(Name, Option<u32>)>,
    st: LSt,
)
    ensures
        roots_state::<O, C, TD, RE, LE, TE>(rs, i, tids, rids, st).0.0.len() >= st.0.len(),
    decreases rs.len() - i,
{
    if 0 <= i < rs.len() {
        let ts = tree_state::<O, C, TD, RE, LE, TE>(rs[i].1.0, rs[i].0, tids, rids, st);
        lemma_tree_grows::<O, C, TD, RE, LE, TE>(rs[i].1.0, rs[i].0, tids, rids, st);
        lemma_roots_grows::<O, C, TD, RE, LE, TE>(rs, i + 1, tids, rids, ts.0);
    }
}

/// One error per further reference to `label` in root `root` among the
/// first `n` pending references.
pub open spec fn pending_errors<TD, RE, LE, TE>(p: Seq<(Name, Name)>, label: Name, root: Name, n: int) -> Seq<
    BuildError<TD, RE, LE, TE>,
>
    decreases n,
{
    if n <= 0 || n > p.len() {
        Seq::empty()
    } else {
        pending_errors(p, label, root, n - 1) + if p[n - 1] == (label, root) {
            seq![BuildError::UnknownLabel(root, label)]
        } else {
            Seq::empty()
        }
    }
}

/// The errors for the labels that stayed unresolved among the first `n`
/// entries of the bookkeeping: one per reference.
pub open spec fn unknown_label_errors<TD, RE, LE, TE>(st: LSt, n: int) -> Seq<BuildError<TD, RE, LE, TE>>
    decreases n,
{
    if n <= 0 || n > st.1.len() {
        Seq::empty()
    } else {
        let e = st.1[n - 1];
        unknown_label_errors(st, n - 1) + if e.2 == Res::Unresolved {
            seq![BuildError::UnknownLabel(e.1, e.0)] + pending_errors(st.2, e.0, e.1, st.2.len() as int)
        } else {
            Seq::empty()
        }
    }
}

/// The bookkeeping a build starts from.
pub open spec fn empty_lst() -> LSt {
    (Seq::empty(), Seq::empty(), Seq::empty())
}

fn build_roots<O: AcceptState, C, TD, RE, LE, TE>(
    good: Vec<(Name, (TreeBuilder<O, C, LE, TE>, RE))>,
    tids: &Vec<(Name, Option<u32>)>,
    rids: &Vec<(Name, Option<u32>)>,
    map: &mut LabelMap,
    errors: &mut Vec<BuildError<TD, RE, LE, TE>>,
) -> (r: Vec<Root<O, C, RE, LE, TE>>)
    requires
        roots_state::<O, C, TD, RE, LE, TE>(good@, 0, tids@, rids@, old(map).st()).0.0.len() <= u32::MAX + 1,
    ensures
        roots_match::<O, C, TD, RE, LE, TE>(good@, 0, r@, tids@, rids@, old(map).st()),
        final(map).st() == roots_state::<O, C, TD, RE, LE, TE>(good@, 0, tids@, rids@, old(map).st()).0,
        final(errors)@ == old(errors)@ + roots_state::<O, C, TD, RE, LE, TE>(
            good@,
            0,
            tids@,
            rids@,
            old(map).st(),
        ).1,
{
    let ghost g = good@;
    let ghost st0 = map.st();
    let ghost e0 = errors@;
    let ghost n0 = map.names@.len();
    let mut good = good;
    let mut out: Vec<Root<O, C, RE, LE, TE>> = Vec::new();
    let ghost mut i: int = 0;
    proof {
        assert forall|rest: Seq<Root<O, C, RE, LE, TE>>|
            #![trigger roots_match::<O, C, TD, RE, LE, TE>(g, 0, rest, tids@, rids@, st0)]
            roots_match::<O, C, TD, RE, LE, TE>(g, 0, out@ + rest, tids@, rids@, st0)
                == roots_match::<O, C, TD, RE, LE, TE>(g, 0, rest, tids@, rids@, st0) by {
            assert(out@ + rest =~= rest);
        }
    }
    while good.len() > 0
        invariant
            0 <= i <= g.len(),
            good@ == g.skip(i),
            roots_state::<O, C, TD, RE, LE, TE>(g, 0, tids@, rids@, st0).0
                == roots_state::<O, C, TD, RE, LE, TE>(g, i, tids@, rids@, map.st()).0,
            e0 + roots_state::<O, C, TD, RE, LE, TE>(g, 0, tids@, rids@, st0).1
                == errors@ + roots_state::<O, C, TD, RE, LE, TE>(g, i, tids@, rids@, map.st()).1,
            forall|rest: Seq<Root<O, C, RE, LE, TE>>|
                #![trigger roots_match::<O, C, TD, RE, LE, TE>(g, i, rest, tids@, rids@, map.st())]
                roots_match::<O, C, TD, RE, LE, TE>(g, 0, out@ + rest, tids@, rids@, st0)
                    == roots_match::<O, C, TD, RE, LE, TE>(g, i, rest, tids@, rids@, map.st()),
            roots_state::<O, C, TD, RE, LE, TE>(g, 0, tids@, rids@, st0).0.0.len() <= u32::MAX + 1,
        decreases good@.len(),
    {
        let ghost st = map.st();
        let ghost eb = errors@;
        let ghost ob = out@;
        let (name, (tb, extra)) = good.remove(0);
        proof {
            assert(g[i] == (name, (tb, extra)));
            assert(good@ =~= g.skip(i + 1));
        }
        proof {
            let ts = tree_state::<O, C, TD, RE, LE, TE>(tb, name, tids@, rids@, st);
            lemma_roots_grows::<O, C, TD, RE, LE, TE>(g, i + 1, tids@, rids@, ts.0);
        }
        let t = tb.build_tree::<TD, RE>(name, tids, rids, map, errors);
        let x = Root { tree: t, extra };
        out.push(x);
        proof {
            let ts = tree_state::<O, C, TD, RE, LE, TE>(tb, name, tids@, rids@, st);
            let here = roots_state::<O, C, TD, RE, LE, TE>(g, i, tids@, rids@, st);
            let next = roots_state::<O, C, TD, RE, LE, TE>(g, i + 1, tids@, rids@, map.st());
            assert(here.1 == ts.1 + next.1);
            assert(eb + here.1 =~= errors@ + next.1);
            assert forall|rest: Seq<Root<O, C, RE, LE, TE>>|
                #![trigger roots_match::<O, C, TD, RE, LE, TE>(g, i + 1, rest, tids@, rids@, map.st())]
                roots_match::<O, C, TD, RE, LE, TE>(g, 0, out@ + rest, tids@, rids@, st0)
                    == roots_match::<O, C, TD, RE, LE, TE>(g, i + 1, rest, tids@, rids@, map.st()) by {
                let xr = seq![x] + rest;
                assert(ob + xr =~= out@ + rest);
                assert(xr.drop_first() =~= rest);
                assert(roots_match::<O, C, TD, RE, LE, TE>(g, i, xr, tids@, rids@, st)
                    == roots_match::<O, C, TD, RE, LE, TE>(g, i + 1, rest, tids@, rids@, map.st()));
            }
            i = i + 1;
        }
    }
    proof {
        assert(roots_match::<O, C, TD, RE, LE, TE>(g, i, Seq::empty(), tids@, rids@, map.st()));
        assert(out@ + Seq::<Root<O, C, RE, LE, TE>>::empty() =~= out@);
        assert(errors@ + Seq::<BuildError<TD, RE, LE, TE>>::empty() =~= errors@);
    }
    out
}

fn report_unknown_labels<TD, RE, LE, TE>(map: &LabelMap, errors: &mut Vec<BuildError<TD, RE, LE, TE>>)
    ensures
        final(errors)@ == old(errors)@ + unknown_label_errors::<TD, RE, LE, TE>(map.st(), map.res@.len() as int),
{
    let mut j: usize = 0;
    while j < map.res.len()
        invariant
            j <= map.res@.len(),
            errors@ == old(errors)@ + unknown_label_errors::<TD, RE, LE, TE>(map.st(), j as int),
        decreases map.res@.len() - j,
    {
        let (label, root, res) = map.res[j];
        if res == Res::Unresolved {
            errors.push(BuildError::UnknownLabel(root, label));
            let ghost mid = errors@;
            let mut q: usize = 0;
            while q < map.pending.len()
                invariant
                    q <= map.pending@.len(),
                    errors@ == mid + pending_errors::<TD, RE, LE, TE>(map.pending@, label, root, q as int),
                decreases map.pending@.len() - q,
            {
                if map.pending[q].0 == label && map.pending[q].1 == root {
                    errors.push(BuildError::UnknownLabel(root, label));
                    proof {
                        assert(map.pending@[q as int] == (label, root));
                    }
                }
                proof {
                    assert(errors@ =~= mid + pending_errors::<TD, RE, LE, TE>(map.pending@, label, root, q + 1));
                }
                q = q + 1;
            }
            proof {
                assert(errors@ =~= old(errors)@ + unknown_label_errors::<TD, RE, LE, TE>(map.st(), j + 1));
            }
        } else {
            proof {
                assert(errors@ =~= old(errors)@ + unknown_label_errors::<TD, RE, LE, TE>(map.st(), j + 1));
            }
        }
        j = j + 1;
    }
}

fn second_of<V>(v: Vec<(Name, V)>) -> (r: Vec<V>)
    ensures
        r@ == v@.map_values(|e: (Name, V)| e.1),
{
    let ghost all = v@;
    let mut v = v;
    let mut out: Vec<V> = Vec::new();
    while v.len() > 0
        invariant
            v@.len() <= all.len(),
            v@ == all.skip(all.len() - v@.len()),
            out@ == all.take(all.len() - v@.len()).map_values(|e: (Name, V)| e.1),
        decreases v@.len(),
    {
        let ghost done = all.len() - v@.len();
        let (_, x) = v.remove(0);
        out.push(x);
        proof {
            assert(v@ =~= all.skip(all.len() - v@.len()));
            assert(all.take(done + 1) =~= all.take(done).push(all[done]));
            assert(out@ =~= all.take(all.len() - v@.len()).map_values(|e: (Name, V)| e.1));
        }
    }
    proof {
        assert(all.take(all.len() as int) =~= all);
    }
    out
}

fn report_duplicate_tokens<TD, RE, LE, TE>(
    dups: Vec<(Name, TD)>,
    errors: &mut Vec<BuildError<TD, RE, LE, TE>>,
)
    ensures
        final(errors)@ == old(errors)@ + dups@.map_values(
            |e: (Name, TD)| BuildError::<TD, RE, LE, TE>::DuplicateToken(e.0, e.1),
        ),
{
    let ghost all = dups@;
    let mut dups = dups;
    while dups.len() > 0
        invariant
            dups@.len() <= all.len(),
            dups@ == all.skip(all.len() - dups@.len()),
            errors@ == old(errors)@ + all.take(all.len() - dups@.len()).map_values(
                |e: (Name, TD)| BuildError::<TD, RE, LE, TE>::DuplicateToken(e.0, e.1),
            ),
        decreases dups@.len(),
    {
        let ghost done = all.len() - dups@.len();
        let (n, d) = dups.remove(0);
        errors.push(BuildError::DuplicateToken(n, d));
        proof {
            assert(dups@ =~= all.skip(all.len() - dups@.len()));
            assert(all.take(done + 1) =~= all.take(done).push(all[done]));
            assert(errors@ =~= old(errors)@ + all.take(all.len() - dups@.len()).map_values(
                |e: (Name, TD)| BuildError::<TD, RE, LE, TE>::DuplicateToken(e.0, e.1),
            ));
        }
    }
    proof {
        assert(all.take(all.len() as int) =~= all);
    }
}

fn report_duplicate_roots<O, C, TD, RE, LE, TE>(
    dups: Vec<(Name, (TreeBuilder<O, C, LE, TE>, RE))>,
    errors: &mut Vec<BuildError<TD, RE, LE, TE>>,
)
    ensures
        final(errors)@ == old(errors)@ + dups@.map_values(
            |e: (Name, (TreeBuilder<O, C, LE, TE>, RE))|
                BuildError::<TD, RE, LE, TE>::DuplicateRoot(e.0, e.1.1, e.1.0.extra),
        ),
{
    let ghost all = dups@;
    let mut dups = dups;
    while dups.len() > 0
        invariant
            dups@.len() <= all.len(),
            dups@ == all.skip(all.len() - dups@.len()),
            errors@ == old(errors)@ + all.take(all.len() - dups@.len()).map_values(
                |e: (Name, (TreeBuilder<O, C, LE, TE>, RE))|
                    BuildError::<TD, RE, LE, TE>::DuplicateRoot(e.0, e.1.1, e.1.0.extra),
            ),
        decreases dups@.len(),
    {
        let ghost done = all.len() - dups@.len();
        let (n, (tb, re)) = dups.remove(0);
        let TreeBuilder { deltas: _, extends: _, default: _, extra } = tb;
        errors.push(BuildError::DuplicateRoot(n, re, extra));
        proof {
            assert(dups@ =~= all.skip(all.len() - dups@.len()));
            assert(all.take(done + 1) =~= all.take(done).push(all[done]));
            assert(errors@ =~= old(errors)@ + all.take(all.len() - dups@.len()).map_values(
                |e: (Name, (TreeBuilder<O, C, LE, TE>, RE))|
                    BuildError::<TD, RE, LE, TE>::DuplicateRoot(e.0, e.1.1, e.1.0.extra),
            ));
        }
    }
    proof {
        assert(all.take(all.len() as int) =~= all);
    }
}

/// The errors building a definition reports, in order: every definition of
/// a token name not defined exactly once, the same for root names, the
/// errors met building each root's tree, and one error per reference to a
/// label that no branch of its root carries.
pub open spec fn build_errors<O: AcceptState, C, TD, RE, LE, TE>(
    ts: Seq<(Name, Vec<TD>)>,
    rs: Seq<(Name, Vec<(TreeBuilder<O, C, LE, TE>, RE)>)>,
) -> Seq<BuildError<TD, RE, LE, TE>> {
    let tids = id_table(ts, ts.len() as int);
    let rids = id_table(rs, rs.len() as int);
    let built = roots_state::<O, C, TD, RE, LE, TE>(singles(rs, rs.len() as int), 0, tids, rids, empty_lst());
    doubles(ts, ts.len() as int).map_values(|e: (Name, TD)| BuildError::<TD, RE, LE, TE>::DuplicateToken(e.0, e.1))
        + doubles(rs, rs.len() as int).map_values(
        |e: (Name, (TreeBuilder<O, C, LE, TE>, RE))|
            BuildError::<TD, RE, LE, TE>::DuplicateRoot(e.0, e.1.1, e.1.0.extra),
    ) + built.1 + unknown_label_errors::<TD, RE, LE, TE>(built.0, built.0.1.len() as int)
}

/// The label names a build meets, in the order it first meets them: their
/// ids are their indices.
pub open spec fn build_labels<O: AcceptState, C, TD, RE, LE, TE>(
    ts: Seq<(Name, Vec<TD>)>,
    rs: Seq<(Name, Vec<(TreeBuilder<O, C, LE, TE>, RE)>)>,
) -> Seq<Name> {
    let tids = id_table(ts, ts.len() as int);
    let rids = id_table(rs, rs.len() as int);
    roots_state::<O, C, TD, RE, LE, TE>(singles(rs, rs.len() as int), 0, tids, rids, empty_lst()).0.0
}

impl<O: AcceptState, C, TD, RE, LE, TE> TreeMapBuilder<O, C, TD, RE, LE, TE> {
    /// Builds every root of the definition, reporting what is wrong with it
    /// and leaving out what cannot be built: names defined more than once,
    /// unknown tokens and roots. Token and root ids number the names
    /// defined exactly once, in order; label ids number label names in the
    /// order they are first met. The builder is left empty.
    pub fn build_recoverable(&mut self, errors: &mut Vec<BuildError<TD, RE, LE, TE>>) -> (r: TreeMap<
        O,
        C,
        TD,
        RE,
        LE,
        TE,
    >)
        requires
            singles(old(self).tokens@, old(self).tokens@.len() as int).len() <= u32::MAX + 1,
            singles(old(self).roots@, old(self).roots@.len() as int).len() <= u32::MAX + 1,
            build_labels::<O, C, TD, RE, LE, TE>(old(self).tokens@, old(self).roots@).len() <= u32::MAX + 1,
        ensures
            ({
                let ts = old(self).tokens@;
                let rs = old(self).roots@;
                &&& r.tokens@ == singles(ts, ts.len() as int).map_values(|e: (Name, TD)| e.1)
                &&& roots_match::<O, C, TD, RE, LE, TE>(
                    singles(rs, rs.len() as int),
                    0,
                    r.roots@,
                    id_table(ts, ts.len() as int),
                    id_table(rs, rs.len() as int),
                    empty_lst(),
                )
                &&& final(errors)@ == old(errors)@ + build_errors::<O, C, TD, RE, LE, TE>(ts, rs)
            }),
            final(self).tokens@.len() == 0,
            final(self).roots@.len() == 0,
    {
        let ghost ts = self.tokens@;
        let ghost rs = self.roots@;
        let ghost e0 = errors@;
        let mut tokens_in: Vec<(Name, Vec<TD>)> = Vec::new();
        std::mem::swap(&mut tokens_in, &mut self.tokens);
        let mut roots_in: Vec<(Name, Vec<(TreeBuilder<O, C, LE, TE>, RE)>)> = Vec::new();
        std::mem::swap(&mut roots_in, &mut self.roots);
        let (tids, ones, dups) = split_defs(tokens_in);
        report_duplicate_tokens(dups, errors);
        let tokens = second_of(ones);
        let (rids, good, rdups) = split_defs(roots_in);
        report_duplicate_roots(rdups, errors);
        let mut map = LabelMap::new();
        let roots = build_roots(good, &tids, &rids, &mut map, errors);
        report_unknown_labels(&map, errors);
        proof {
            assert(errors@ =~= e0 + build_errors::<O, C, TD, RE, LE, TE>(ts, rs));
        }
        TreeMap { tokens, roots }
    }
}

} // verus!
