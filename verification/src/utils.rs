//! Sets of texts that keep the order in which the texts were inserted.

use indexmap::IndexSet;
use vstd::prelude::*;

verus! {

/// `indexmap::IndexSet`: a set that keeps the order in which its items were inserted. What a
/// set of texts holds is [`text_set_items`].
#[verifier::external_type_specification]
#[verifier::external_body]
#[verifier::reject_recursive_types(T)]
#[verifier::reject_recursive_types(S)]
pub struct ExIndexSet<T, S>(indexmap::IndexSet<T, S>);

/// The texts that a set of texts holds, in the order in which they were inserted.
pub uninterp spec fn text_set_items(set: IndexSet<String>) -> Seq<Seq<char>>;

/// `indexmap::IndexSet::new`: a set that holds nothing.
#[verifier::external_body]
pub(crate) fn text_set_new() -> (set: IndexSet<String>)
    ensures
        text_set_items(set) == Seq::<Seq<char>>::empty(),
{
    IndexSet::new()
}

/// `indexmap::IndexSet::insert`: a text that the set holds already leaves the set as it is,
/// and `false` comes back; any other text is inserted behind those that the set holds, and
/// `true` comes back.
#[verifier::external_body]
pub(crate) fn text_set_insert(set: &mut IndexSet<String>, value: String) -> (inserted: bool)
    ensures
        inserted == !text_set_items(*old(set)).contains(value@),
        text_set_items(*final(set)) == (if inserted {
            text_set_items(*old(set)).push(value@)
        } else {
            text_set_items(*old(set))
        }),
{
    set.insert(value)
}

/// `indexmap::IndexSet::shift_remove`: a text that the set holds is removed, the texts behind
/// it move up in their order, and `true` comes back; for any other text the set stays as it
/// is, and `false` comes back.
#[verifier::external_body]
pub(crate) fn text_set_shift_remove(set: &mut IndexSet<String>, value: &String) -> (removed: bool)
    ensures
        removed == text_set_items(*old(set)).contains(value@),
        text_set_items(*final(set)) == (if removed {
            text_set_items(*old(set)).remove(text_set_items(*old(set)).index_of(value@))
        } else {
            text_set_items(*old(set))
        }),
{
    set.shift_remove(value)
}

/// `indexmap::IndexSet::iter`: the texts of the set in the order in which they were inserted.
#[verifier::external_body]
pub(crate) fn text_set_to_vec(set: &IndexSet<String>) -> (items: Vec<String>)
    ensures
        items@.len() == text_set_items(*set).len(),
        forall|i: int| 0 <= i < items@.len() ==> (#[trigger] items@[i])@ == text_set_items(*set)[i],
{
    set.iter().cloned().collect()
}

} // verus!
