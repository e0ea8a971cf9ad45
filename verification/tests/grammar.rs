use wi_core::grammar::builder::{BranchBuilder, LeafBuilder, TreeBuilder, TreeMapBuilder};
use wi_core::grammar::compile::BuildError;
use wi_core::grammar::ids::{LabelId, RootId, TokenId};
use wi_core::grammar::table::DeltaKind;
use wi_core::grammar::tree::{Leaf, TreeDelta, TreeMap};

type Builder = TreeMapBuilder<Option<u32>, u32, &'static str, u32, u32, u32>;
type Errors = Vec<BuildError<&'static str, u32, u32, u32>>;
type GrammarMap = TreeMap<Option<u32>, u32, &'static str, u32, u32, u32>;

const A: u32 = 1;
const B: u32 = 2;
const C: u32 = 3;
const MAIN: u32 = 10;
const OTHER: u32 = 11;
const LOOP: u32 = 100;

/// Root MAIN: `a` yields 1; `b` (labelled LOOP) yields 2 and opens a subtree
/// where `c` yields 3 and goes back to LOOP, anything else retries from the
/// root.
fn main_tree() -> TreeBuilder<Option<u32>, u32, u32, u32> {
    let mut t = TreeBuilder::new(0);
    t.leaf_with_extra(A, LeafBuilder::Output(Some(1)), 7);
    let mut b = BranchBuilder::new(1);
    b.label(LOOP);
    b.out(Some(2));
    b.tree.leaf_with_extra(C, LeafBuilder::Goto(LOOP, Some(Some(3))), 8);
    b.tree.default(LeafBuilder::Retry(None));
    t.branch_with_extra(B, b);
    t
}

fn simple_builder() -> Builder {
    let mut m: Builder = GrammarMap::builder();
    m.token(A, "a");
    m.token(B, "b");
    m.token(C, "c");
    m.root_with_extra(MAIN, 50, main_tree());
    m
}

fn build(mut m: Builder) -> (GrammarMap, Errors) {
    let mut errors = Vec::new();
    let map = m.build_recoverable(&mut errors);
    assert!(m.tokens.is_empty());
    assert!(m.roots.is_empty());
    (map, errors)
}

#[test]
fn build_simple_grammar() {
    let (map, errors) = build(simple_builder());
    assert!(errors.is_empty());
    assert_eq!(map.as_tokens(), &["a", "b", "c"][..]);
    assert_eq!(map.roots.len(), 1);
    let root = map.root(RootId(0)).unwrap();
    assert_eq!(*root.extra(), 50);
    let tree = root.as_tree();
    assert_eq!(*tree.extra(), 0);
    assert!(matches!(tree.default(), Leaf::Output(None)));
    let ds = tree.deltas();
    assert_eq!(ds.len(), 2);
    assert_eq!(ds[0].0, TokenId(0));
    assert!(matches!(ds[0].1, TreeDelta::Leaf(Leaf::Output(Some(1)), 7)));
    assert_eq!(ds[1].0, TokenId(1));
    match &ds[1].1 {
        TreeDelta::Branch(b) => {
            assert_eq!(b.label(), Some(LabelId(0)));
            assert_eq!(*b.out(), Some(2));
            let sub = b.as_tree();
            assert_eq!(*sub.extra(), 1);
            assert_eq!(sub.deltas().len(), 1);
            assert_eq!(sub.deltas()[0].0, TokenId(2));
            assert!(matches!(sub.deltas()[0].1, TreeDelta::Leaf(Leaf::Goto(LabelId(0), Some(3)), 8)));
            assert!(matches!(sub.default(), Leaf::Retry(None)));
        },
        _ => panic!("expected a branch"),
    }
}

#[test]
fn token_and_root_ids_follow_definition_order() {
    let (map, _) = build(simple_builder());
    assert_eq!(map.token(TokenId(1)), Some(&"b"));
    assert_eq!(map.token(TokenId(3)), None);
    let ids = map.root_ids();
    assert_eq!(ids, vec![RootId(0)]);
    let toks = map.tokens();
    assert_eq!(toks.len(), 3);
    assert_eq!(toks[2].0, TokenId(2));
    assert_eq!(*toks[2].1, "c");
    assert!(map.root(RootId(1)).is_none());
}

#[test]
fn duplicate_token_is_reported_once_per_definition_and_dropped() {
    let mut m = simple_builder();
    m.token(A, "again");
    let (map, errors) = build(m);
    assert_eq!(errors.len(), 2);
    assert!(matches!(errors[0], BuildError::DuplicateToken(A, "a")));
    assert!(matches!(errors[1], BuildError::DuplicateToken(A, "again")));
    assert_eq!(map.as_tokens(), &["b", "c"][..]);
    // `a` is known but unusable: its delta is dropped without an error.
    let tree = map.root(RootId(0)).unwrap().as_tree();
    assert_eq!(tree.deltas().len(), 1);
    assert_eq!(tree.deltas()[0].0, TokenId(0));
}

#[test]
fn duplicate_root_is_reported() {
    let mut m = simple_builder();
    m.root_with_extra(MAIN, 51, TreeBuilder::new(9));
    let (map, errors) = build(m);
    assert_eq!(errors.len(), 2);
    assert!(matches!(errors[0], BuildError::DuplicateRoot(MAIN, 50, 0)));
    assert!(matches!(errors[1], BuildError::DuplicateRoot(MAIN, 51, 9)));
    assert_eq!(map.roots.len(), 0);
}

#[test]
fn duplicate_deltas_are_reported_and_dropped() {
    let mut m = TreeMapBuilder::<Option<u32>, u32, &'static str, u32, u32, u32>::new();
    m.token(A, "a");
    let mut t = TreeBuilder::new(0);
    t.leaf_with_extra(A, LeafBuilder::Output(Some(1)), 1);
    t.branch_with_extra(A, BranchBuilder::new(2));
    m.root_with_extra(MAIN, 0, t);
    let (map, errors) = build(m);
    assert_eq!(errors.len(), 2);
    assert!(matches!(errors[0], BuildError::DuplicateLeaf(MAIN, A, 1)));
    assert!(matches!(errors[1], BuildError::DuplicateBranch(MAIN, A, 2)));
    assert!(map.root(RootId(0)).unwrap().as_tree().deltas().is_empty());
}

#[test]
fn duplicate_label_is_reported_for_both_branches_and_again_after() {
    let mut m = TreeMapBuilder::<Option<u32>, u32, &'static str, u32, u32, u32>::new();
    m.token(A, "a");
    m.token(B, "b");
    m.token(C, "c");
    let mut t = TreeBuilder::new(0);
    for tok in [A, B, C] {
        let mut b = BranchBuilder::new(tok);
        b.label(LOOP);
        t.branch_with_extra(tok, b);
    }
    m.root_with_extra(MAIN, 0, t);
    let (_, errors) = build(m);
    assert_eq!(errors.len(), 3);
    for e in &errors {
        assert!(matches!(e, BuildError::DuplicateLabel(MAIN, LOOP)));
    }
}

#[test]
fn unknown_token_root_and_label_are_reported() {
    let mut m = TreeMapBuilder::<Option<u32>, u32, &'static str, u32, u32, u32>::new();
    m.token(A, "a");
    let mut t = TreeBuilder::new(0);
    t.leaf_with_extra(B, LeafBuilder::Output(None), 0);
    t.leaf_with_extra(A, LeafBuilder::Goto(LOOP, None), 0);
    t.extend(OTHER, None, 5);
    t.default(LeafBuilder::Retry(Some(LOOP)));
    m.root_with_extra(MAIN, 0, t);
    let (map, errors) = build(m);
    assert_eq!(errors.len(), 4);
    assert!(matches!(errors[0], BuildError::UnknownToken(B)));
    assert!(matches!(errors[1], BuildError::UnknownRoot(OTHER)));
    // One error for the label's first reference and one for each further one.
    assert!(matches!(errors[2], BuildError::UnknownLabel(MAIN, LOOP)));
    assert!(matches!(errors[3], BuildError::UnknownLabel(MAIN, LOOP)));
    let tree = map.root(RootId(0)).unwrap().as_tree();
    assert_eq!(tree.deltas().len(), 1);
    assert!(tree.extends().is_empty());
    // The missing goto output defaults to the advance output.
    assert!(matches!(tree.deltas()[0].1, TreeDelta::Leaf(Leaf::Goto(LabelId(0), None), 0)));
}

#[test]
fn label_referenced_before_its_branch_resolves() {
    let mut m = TreeMapBuilder::<Option<u32>, u32, &'static str, u32, u32, u32>::new();
    m.token(A, "a");
    m.token(B, "b");
    let mut t = TreeBuilder::new(0);
    t.leaf_with_extra(A, LeafBuilder::Goto(LOOP, Some(Some(1))), 0);
    let mut b = BranchBuilder::new(1);
    b.label(LOOP);
    t.branch_with_extra(B, b);
    m.root_with_extra(MAIN, 0, t);
    let (map, errors) = build(m);
    assert!(errors.is_empty());
    let root = map.root(RootId(0)).unwrap();
    let found = root.try_resolve_label(Some(LabelId(0))).unwrap();
    assert_eq!(*found.extra(), 1);
    let (t2, path) = root.resolve_label_path(Some(LabelId(0)));
    assert_eq!(*t2.extra(), 1);
    assert_eq!(path, vec![TokenId(1)]);
    assert!(root.try_resolve_label(Some(LabelId(7))).is_none());
    assert_eq!(*root.resolve_label(None).extra(), 0);
}

#[test]
fn extends_name_roots_by_id() {
    let mut m = simple_builder();
    let mut t = TreeBuilder::new(20);
    t.extend(MAIN, Some(LOOP), 42);
    m.root_with_extra(OTHER, 60, t);
    let (map, errors) = build(m);
    // An extend's label is looked up among the extending root's own labels.
    assert_eq!(errors.len(), 1);
    assert!(matches!(errors[0], BuildError::UnknownLabel(OTHER, LOOP)));
    let other = map.root(RootId(1)).unwrap().as_tree();
    assert_eq!(other.extends().len(), 1);
    assert_eq!(other.extends()[0].0, RootId(0));
    assert_eq!(other.extends()[0].1, Some(LabelId(0)));
    assert_eq!(other.extends()[0].2, 42);
}

#[test]
fn unused_tokens_and_labels() {
    let mut m = simple_builder();
    m.token(4, "d");
    let (map, errors) = build(m);
    assert!(errors.is_empty());
    let unused = map.unused_tokens();
    assert_eq!(unused.len(), 1);
    assert_eq!(unused[0].0, TokenId(3));
    assert_eq!(*unused[0].1, "d");
    // LOOP is used by the goto in its own subtree.
    assert!(map.unused_labels().is_empty());
    assert_eq!(map.labels().len(), 1);
}

#[test]
fn labels_lists_each_labelled_branch_once() {
    // MAIN has LOOP under `b`; OTHER has label 101 under `a` and, inside
    // it, label 102 under `c`.
    let mut m = simple_builder();
    let mut t = TreeBuilder::new(20);
    let mut outer = BranchBuilder::new(21);
    outer.label(101);
    outer.out(Some(4));
    let mut inner = BranchBuilder::new(22);
    inner.label(102);
    inner.out(Some(5));
    outer.tree.branch_with_extra(C, inner);
    t.branch_with_extra(A, outer);
    m.root_with_extra(OTHER, 60, t);
    let (map, errors) = build(m);
    assert!(errors.is_empty());
    let labels = map.labels();
    assert_eq!(labels.len(), 3);
    assert_eq!(labels[0].0, RootId(0));
    assert_eq!(labels[1].0, RootId(1));
    assert_eq!(labels[2].0, RootId(1));
    assert_eq!(labels[1].3 .1, vec![TokenId(0)]);
    assert_eq!(labels[2].3 .1, vec![TokenId(0), TokenId(2)]);
}

#[test]
fn flatten_simple_grammar() {
    let (map, errors) = build(simple_builder());
    assert!(errors.is_empty());
    let table = map.flatten_root(RootId(0), |p| p.path.len()).unwrap();
    assert_eq!(table.0.len(), 2);

    let s0 = table.state(wi_core::grammar::ids::StateId::start()).unwrap();
    assert_eq!(*s0.extra(), 0);
    let d = s0.delta();
    assert_eq!(d.len(), 2);
    assert_eq!(d[0].0, TokenId(0));
    assert_eq!(d[0].1.next.as_u32(), 0);
    match &d[0].1.kind {
        DeltaKind::Yield(o) => {
            assert_eq!(*o.output, Some(1));
            assert!(o.conversion.is_empty());
        },
        DeltaKind::Continue => panic!("expected an output"),
    }
    assert_eq!(d[1].0, TokenId(1));
    assert_eq!(d[1].1.next.as_u32(), 1);
    assert!(matches!(&d[1].1.kind, DeltaKind::Yield(o) if *o.output == Some(2)));
    assert_eq!(s0.default_delta().next.as_u32(), 0);
    assert!(matches!(&s0.default_delta().kind, DeltaKind::Yield(o) if o.output.is_none()));

    let s1 = &table.0[1];
    assert_eq!(*s1.extra(), 1);
    assert_eq!(s1.delta().len(), 1);
    assert_eq!(s1.delta()[0].0, TokenId(2));
    // The goto leads back to the labelled subtree itself.
    assert_eq!(s1.delta()[0].1.next.as_u32(), 1);
    assert!(matches!(&s1.delta()[0].1.kind, DeltaKind::Yield(o) if *o.output == Some(3)));
    // Retry from the root: back to the start, yielding nothing.
    assert_eq!(s1.default_delta().next.as_u32(), 0);
    assert!(matches!(s1.default_delta().kind, DeltaKind::Continue));

    assert!(map.flatten_root(RootId(1), |p| p.path.len()).is_none());

    // `extra` may keep state: here it numbers the states in the order it
    // is called for them.
    let mut calls = 0;
    let table = map
        .flatten_root(RootId(0), |_p| {
            calls += 1;
            calls
        })
        .unwrap();
    assert_eq!(calls, 2);
    assert_eq!(*table.0[0].extra(), 1);
    assert_eq!(*table.0[1].extra(), 2);
}

#[test]
fn flatten_extended_root_carries_conversions() {
    let mut m = simple_builder();
    let mut t = TreeBuilder::new(20);
    t.extend(MAIN, None, 42);
    m.root_with_extra(OTHER, 60, t);
    let (map, errors) = build(m);
    assert!(errors.is_empty());
    let tables = map.flatten(|p| *p.root).expect("every table fits");
    assert_eq!(tables.len(), 2);
    assert_eq!(tables[1].0, RootId(1));
    let table = &tables[1].1;
    let s0 = &table.0[0];
    assert_eq!(*s0.extra(), 60);
    assert_eq!(s0.delta().len(), 2);
    match &s0.delta()[0].1.kind {
        DeltaKind::Yield(o) => {
            assert_eq!(*o.output, Some(1));
            assert_eq!(o.conversion, vec![&42]);
        },
        DeltaKind::Continue => panic!("expected an output"),
    }
    // Every transition leads to a state of the table.
    for s in &table.0 {
        for (_, d) in s.delta() {
            assert!((d.next.as_u32() as usize) < table.0.len());
        }
        assert!((s.default_delta().next.as_u32() as usize) < table.0.len());
    }
}

#[test]
fn builder_starts_empty() {
    let b: Builder = GrammarMap::builder();
    assert!(b.tokens.is_empty());
    assert!(b.roots.is_empty());
}

#[test]
fn flatten_ends_on_roots_that_extend_each_other() {
    let mut m: Builder = GrammarMap::builder();
    m.token(A, "a");
    m.token(B, "b");
    let mut main = TreeBuilder::new(0);
    main.leaf_with_extra(A, LeafBuilder::Output(Some(1)), 0);
    main.extend(OTHER, None, 5);
    m.root_with_extra(MAIN, 0, main);
    let mut other = TreeBuilder::new(1);
    other.leaf_with_extra(B, LeafBuilder::Output(Some(2)), 0);
    other.extend(MAIN, None, 6);
    m.root_with_extra(OTHER, 1, other);
    let (map, errors) = build(m);
    assert!(errors.is_empty());
    let tables = map.flatten(|p| *p.root).expect("every table fits");
    assert_eq!(tables.len(), 2);
    for (_, table) in &tables {
        assert_eq!(table.0.len(), 1);
        assert_eq!(table.0[0].delta().len(), 2);
    }
    // From MAIN, `b` is reached through MAIN's extend of OTHER.
    match &tables[0].1 .0[0].delta()[1].1.kind {
        DeltaKind::Yield(o) => {
            assert_eq!(*o.output, Some(2));
            assert_eq!(o.conversion, vec![&5]);
        },
        DeltaKind::Continue => panic!("expected an output"),
    }
}

#[test]
fn built_grammars_are_checked_before_flattening() {
    let (map, errors) = build(simple_builder());
    assert!(errors.is_empty());
    assert!(map.check_flatten_ok());

    // OTHER carries label 101 and extends MAIN at 101: the label is known,
    // so the build reports nothing, yet MAIN has no subtree labelled 101.
    let mut m = simple_builder();
    let mut t = TreeBuilder::new(20);
    let mut b = BranchBuilder::new(21);
    b.label(101);
    b.out(Some(4));
    t.branch_with_extra(A, b);
    t.extend(MAIN, Some(101), 5);
    m.root_with_extra(OTHER, 60, t);
    let (map, errors) = build(m);
    assert!(errors.is_empty());
    assert!(!map.check_flatten_ok());
}

#[test]
fn flatten_gives_each_root_table_flatten_root_gives() {
    let mut m = simple_builder();
    let mut t = TreeBuilder::new(20);
    t.extend(MAIN, None, 42);
    m.root_with_extra(OTHER, 60, t);
    let (map, errors) = build(m);
    assert!(errors.is_empty());
    let tables = map.flatten(|p| p.path.len()).expect("every table fits");
    assert_eq!(tables.len(), 2);
    for (i, (id, table)) in tables.iter().enumerate() {
        assert_eq!(*id, RootId(i as u32));
        let single = map.flatten_root(*id, |p| p.path.len()).unwrap();
        assert_eq!(table.0.len(), single.0.len());
        for (a, b) in table.0.iter().zip(single.0.iter()) {
            assert_eq!(a.extra(), b.extra());
            assert_eq!(a.delta().len(), b.delta().len());
            for ((ta, da), (tb, db)) in a.delta().iter().zip(b.delta().iter()) {
                assert_eq!(ta, tb);
                assert_eq!(da.next.as_u32(), db.next.as_u32());
                match (&da.kind, &db.kind) {
                    (DeltaKind::Yield(x), DeltaKind::Yield(y)) => {
                        assert_eq!(x.output, y.output);
                        assert_eq!(x.conversion, y.conversion);
                    },
                    (DeltaKind::Continue, DeltaKind::Continue) => {},
                    _ => panic!("transitions differ"),
                }
            }
            assert_eq!(a.default_delta().next.as_u32(), b.default_delta().next.as_u32());
        }
    }
}
