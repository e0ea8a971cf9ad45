use vstd::prelude::*;

verus! {

/// The first item, if any; a second item, if any, is handed to `err`, which
/// is called once with it.
pub fn get_one<T, F: FnOnce(T)>(items: Vec<T>, err: F) -> (r: Option<T>)
    requires
        items@.len() >= 2 ==> call_requires(err, (items@[1],)),
    ensures
        items@.len() == 0 ==> r is None,
        items@.len() > 0 ==> r == Some(items@[0]),
        items@.len() >= 2 ==> call_ensures(err, (items@[1],), ()),
{
    let mut items = items;
    if items.len() == 0 {
        return None;
    }
    let first = items.remove(0);
    if items.len() > 0 {
        let second = items.remove(0);
        err(second);
    }
    Some(first)
}

} // verus!
