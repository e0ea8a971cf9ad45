use vstd::prelude::*;

verus! {

/// The places of a path set as plain numbers, as a map key.
pub type PlacesKey = Vec<(u32, Vec<u32>)>;

/// The places of a path set as plain numbers.
pub type PlacesV = Seq<(u32, Seq<u32>)>;

/// State numbers by path-set places.
pub type StateNumbers = Map<PlacesV, u32>;

/// A map from path-set places to state numbers, held in a `hashbrown`
/// hash map.
#[verifier::external_body]
pub struct KeyMap {
    inner: hashbrown::HashMap<PlacesKey, u32>,
}

/// The entries a [`KeyMap`] holds.
pub uninterp spec fn key_map_contents(m: KeyMap) -> StateNumbers;

impl KeyMap {
    /// `hashbrown::HashMap::new`: a map that holds nothing.
    #[verifier::external_body]
    pub(crate) fn new() -> (r: KeyMap)
        ensures
            key_map_contents(r) == StateNumbers::empty(),
    {
        KeyMap { inner: hashbrown::HashMap::new() }
    }

    /// `hashbrown::HashMap::get`: the value held for the key, if any.
    #[verifier::external_body]
    pub(crate) fn get(&self, k: &PlacesKey) -> (r: Option<u32>)
        ensures
            r is Some <==> key_map_contents(*self).contains_key(k.deep_view()),
            r matches Some(v) ==> v == key_map_contents(*self)[k.deep_view()],
    {
        self.inner.get(k).copied()
    }

    /// `hashbrown::HashMap::insert`: holds the value for the key from now on.
    #[verifier::external_body]
    pub(crate) fn insert(&mut self, k: PlacesKey, v: u32)
        ensures
            key_map_contents(*final(self)) == key_map_contents(*old(self)).insert(k.deep_view(), v),
    {
        self.inner.insert(k, v);
    }
}

/// `indexmap::IndexSet`, declared so that it can be held and handed on.
#[verifier::external_type_specification]
#[verifier::external_body]
#[verifier::reject_recursive_types(T)]
#[verifier::reject_recursive_types(S)]
pub struct ExIndexSet<T, S>(indexmap::IndexSet<T, S>);

/// Path-set places in the order they were first inserted.
pub type KeyIndex = indexmap::IndexSet<PlacesKey>;

/// The keys a [`KeyIndex`] holds, in insertion order.
pub uninterp spec fn key_index_contents(s: indexmap::IndexSet<PlacesKey>) -> Seq<PlacesV>;

/// `indexmap::IndexSet::new`: a set that holds nothing.
#[verifier::external_body]
pub(crate) fn key_index_new() -> (r: indexmap::IndexSet<PlacesKey>)
    ensures
        key_index_contents(r) == Seq::<PlacesV>::empty(),
{
    indexmap::IndexSet::new()
}

/// `indexmap::IndexSet::get_index_of`: the position of the key, if held.
#[verifier::external_body]
pub(crate) fn key_index_get_index_of(s: &indexmap::IndexSet<PlacesKey>, k: &PlacesKey) -> (r: Option<usize>)
    ensures
        r is None <==> !key_index_contents(*s).contains(k.deep_view()),
        r matches Some(i) ==> i < key_index_contents(*s).len() && key_index_contents(*s)[i as int] == k.deep_view(),
{
    s.get_index_of(k)
}

/// `indexmap::IndexSet::insert`: adds the key last if it is not held, and
/// tells whether it was added.
#[verifier::external_body]
pub(crate) fn key_index_insert(s: &mut indexmap::IndexSet<PlacesKey>, k: PlacesKey) -> (r: bool)
    ensures
        r == !key_index_contents(*old(s)).contains(k.deep_view()),
        key_index_contents(*final(s)) == if r {
            key_index_contents(*old(s)).push(k.deep_view())
        } else {
            key_index_contents(*old(s))
        },
{
    s.insert(k)
}

} // verus!
