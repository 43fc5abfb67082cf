//! Compressed sets of task identifiers.
//!
//! Every secondary table of the queue maps a key to a set of task ids held in
//! a `roaring::RoaringBitmap`. The bitmap itself is not verified: this module
//! states, for each of its operations that the queue uses, what the operation
//! does to the set of ids that the bitmap holds. Everything else in the
//! library is proved from these statements.

use vstd::prelude::*;
use roaring::RoaringBitmap;

verus! {

#[verifier::external_type_specification]
#[verifier::external_body]
pub struct ExRoaringBitmap(RoaringBitmap);

/// The set of ids that a bitmap holds.
pub uninterp spec fn ids(bitmap: RoaringBitmap) -> Set<u32>;

/// The ids from `first` to `last`, both included.
pub open spec fn span(first: u32, last: u32) -> Set<u32> {
    Set::new(|id: u32| first <= id <= last)
}

/// Whether `top` is in `set` and no id of `set` is greater.
pub open spec fn is_greatest(set: Set<u32>, top: u32) -> bool {
    &&& set.contains(top)
    &&& forall|id: u32| set.contains(id) ==> id <= top
}

/// `RoaringBitmap::new`: a bitmap that holds no id.
#[verifier::external_body]
pub(crate) fn bitmap_new() -> (bitmap: RoaringBitmap)
    ensures
        ids(bitmap) == Set::<u32>::empty(),
{
    RoaringBitmap::new()
}

/// `RoaringBitmap::clone`: a bitmap that holds the same ids.
#[verifier::external_body]
pub(crate) fn bitmap_clone(bitmap: &RoaringBitmap) -> (copy: RoaringBitmap)
    ensures
        ids(copy) == ids(*bitmap),
{
    bitmap.clone()
}

/// `RoaringBitmap::insert`: adds `value` to the set and tells whether it was
/// absent before.
#[verifier::external_body]
pub(crate) fn bitmap_insert(bitmap: &mut RoaringBitmap, value: u32) -> (added: bool)
    ensures
        ids(*final(bitmap)) == ids(*old(bitmap)).insert(value),
        added == !ids(*old(bitmap)).contains(value),
{
    bitmap.insert(value)
}

/// `RoaringBitmap::remove`: takes `value` out of the set and tells whether it
/// was present before.
#[verifier::external_body]
pub(crate) fn bitmap_remove(bitmap: &mut RoaringBitmap, value: u32) -> (removed: bool)
    ensures
        ids(*final(bitmap)) == ids(*old(bitmap)).remove(value),
        removed == ids(*old(bitmap)).contains(value),
{
    bitmap.remove(value)
}

/// `RoaringBitmap::insert_range` on the inclusive range from `first` to
/// `last`: adds every id of the range to the set. A range whose start lies
/// after its end is empty and adds nothing.
#[verifier::external_body]
pub(crate) fn bitmap_insert_span(bitmap: &mut RoaringBitmap, first: u32, last: u32)
    ensures
        ids(*final(bitmap)) == ids(*old(bitmap)).union(span(first, last)),
{
    bitmap.insert_range(first..=last);
}

/// `RoaringBitmap::contains`: whether `value` is in the set.
#[verifier::external_body]
pub(crate) fn bitmap_contains(bitmap: &RoaringBitmap, value: u32) -> (found: bool)
    ensures
        found == ids(*bitmap).contains(value),
{
    bitmap.contains(value)
}

/// `RoaringBitmap::max`: the greatest id of the set, or `None` when the set
/// is empty.
#[verifier::external_body]
pub(crate) fn bitmap_max(bitmap: &RoaringBitmap) -> (top: Option<u32>)
    ensures
        match top {
            Some(id) => is_greatest(ids(*bitmap), id),
            None => ids(*bitmap) == Set::<u32>::empty(),
        },
{
    bitmap.max()
}

/// `|=` with a borrowed right-hand side (`BitOrAssign<&RoaringBitmap>`): the
/// set becomes its union with the other set.
#[verifier::external_body]
pub(crate) fn bitmap_union_with(bitmap: &mut RoaringBitmap, other: &RoaringBitmap)
    ensures
        ids(*final(bitmap)) == ids(*old(bitmap)).union(ids(*other)),
{
    *bitmap |= other;
}

/// `&=` with a borrowed right-hand side (`BitAndAssign<&RoaringBitmap>`): the
/// set becomes its intersection with the other set.
#[verifier::external_body]
pub(crate) fn bitmap_intersect_with(bitmap: &mut RoaringBitmap, other: &RoaringBitmap)
    ensures
        ids(*final(bitmap)) == ids(*old(bitmap)).intersect(ids(*other)),
{
    *bitmap &= other;
}

/// `RoaringBitmap::iter`, collected: the ids of the set from the smallest to
/// the greatest, each once.
#[verifier::external_body]
pub(crate) fn bitmap_to_vec(bitmap: &RoaringBitmap) -> (list: Vec<u32>)
    ensures
        forall|i: int, j: int| 0 <= i < j < list.len() ==> list[i] < list[j],
        forall|id: u32| list@.contains(id) <==> ids(*bitmap).contains(id),
{
    bitmap.iter().collect()
}

} // verus!
