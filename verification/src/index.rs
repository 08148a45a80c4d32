//! The ordered key index: an `indexmap::IndexSet` of strings, with the contracts that the
//! rest of the crate relies on.
//!
//! Everything in this file is believed, not proved. Each function is a single call into
//! `indexmap`; its contract restates the documentation of the method it calls.

use indexmap::IndexSet;
use vstd::prelude::*;

verus! {

/// `indexmap::IndexSet`, taken as it is: nothing of its inside is seen. What an index of
/// strings holds is named by [`index_keys`].
#[verifier::external_type_specification]
#[verifier::external_body]
#[verifier::reject_recursive_types(T)]
#[verifier::reject_recursive_types(S)]
pub struct ExIndexSet<T, S>(IndexSet<T, S>);

/// The keys that an index holds, in insertion order.
pub uninterp spec fn index_keys(index: IndexSet<String>) -> Seq<Seq<char>>;

/// `IndexSet::new`: a new index holds no key.
#[verifier::external_body]
pub(crate) fn index_new() -> (index: IndexSet<String>)
    ensures
        index_keys(index) == Seq::<Seq<char>>::empty(),
{
    IndexSet::new()
}

/// `IndexSet::get_index_of`: the position of `key`, if the index holds it.
#[verifier::external_body]
pub(crate) fn index_position(index: &IndexSet<String>, key: &str) -> (found: Option<usize>)
    ensures
        match found {
            Some(i) => i < index_keys(*index).len() && index_keys(*index)[i as int] == key@,
            None => !index_keys(*index).contains(key@),
        },
{
    index.get_index_of(key)
}

/// `IndexSet::insert_full`: a key that is already held stays where it is and the call
/// returns its position and `false`; a new key goes to the end and the call returns
/// that position and `true`.
#[verifier::external_body]
pub(crate) fn index_insert(index: &mut IndexSet<String>, key: String) -> (placed: (
    usize,
    bool,
))
    ensures
        placed.1 == !index_keys(*old(index)).contains(key@),
        placed.1 ==> index_keys(*final(index)) == index_keys(*old(index)).push(key@)
            && placed.0 == index_keys(*old(index)).len(),
        !placed.1 ==> index_keys(*final(index)) == index_keys(*old(index))
            && placed.0 < index_keys(*old(index)).len()
            && index_keys(*old(index))[placed.0 as int] == key@,
{
    index.insert_full(key)
}

/// `IndexSet::shift_remove_full`: removes `key` if it is held, moving every later key one
/// position down, and returns the position it had and the key itself.
#[verifier::external_body]
pub(crate) fn index_remove(index: &mut IndexSet<String>, key: &str) -> (removed: Option<
    (usize, String),
>)
    ensures
        match removed {
            Some((i, k)) => i < index_keys(*old(index)).len()
                && index_keys(*old(index))[i as int] == key@
                && k@ == key@
                && index_keys(*final(index)) == index_keys(*old(index)).remove(i as int),
            None => !index_keys(*old(index)).contains(key@)
                && index_keys(*final(index)) == index_keys(*old(index)),
        },
{
    index.shift_remove_full(key)
}

} // verus!
