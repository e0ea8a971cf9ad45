use vstd::prelude::*;

verus! {

/// An element a selection can hold. No kind of element exists yet, so no
/// value of it can be made outside this crate.
pub struct Element(());

/// A set of selected elements that can grow and shrink. Each change is a
/// function of the selection and the elements.
pub trait Selection: Sized {
    /// The selection after the elements were added.
    spec fn spec_union(&self, it: Seq<Element>) -> Self;

    /// The selection after the elements were taken out.
    spec fn spec_difference(&self, it: Seq<Element>) -> Self;

    fn union(&mut self, it: Vec<Element>)
        ensures
            *final(self) == old(self).spec_union(it@),
    ;

    fn difference(&mut self, it: Vec<Element>)
        ensures
            *final(self) == old(self).spec_difference(it@),
    ;
}

/// Selection helpers.
pub trait SelectionExt: Selection + Sized {
    /// The selection with union and difference swapped.
    fn inverted(self) -> (r: Invert<Self>)
        ensures
            r.0 == self,
    {
        Invert(self)
    }
}

impl<T: Selection> SelectionExt for T {}

/// A selection that holds nothing and ignores changes.
pub struct NullSelection;

impl Selection for NullSelection {
    open spec fn spec_union(&self, it: Seq<Element>) -> Self {
        NullSelection
    }

    open spec fn spec_difference(&self, it: Seq<Element>) -> Self {
        NullSelection
    }

    fn union(&mut self, it: Vec<Element>) {
    }

    fn difference(&mut self, it: Vec<Element>) {
    }
}

/// A selection with union and difference swapped.
pub struct Invert<T>(pub T);

impl<T: Selection> Selection for Invert<T> {
    open spec fn spec_union(&self, it: Seq<Element>) -> Self {
        Invert(self.0.spec_difference(it))
    }

    open spec fn spec_difference(&self, it: Seq<Element>) -> Self {
        Invert(self.0.spec_union(it))
    }

    fn union(&mut self, it: Vec<Element>) {
        self.0.difference(it);
    }

    fn difference(&mut self, it: Vec<Element>) {
        self.0.union(it);
    }
}

/// Inverting a selection twice changes nothing: union and difference act
/// on the inner selection as they would on it directly.
pub proof fn lemma_invert_twice<T: Selection>(s: T, it: Seq<Element>)
    ensures
        Invert(Invert(s)).spec_union(it) == Invert(Invert(s.spec_union(it))),
        Invert(Invert(s)).spec_difference(it) == Invert(Invert(s.spec_difference(it))),
{
}

} // verus!
