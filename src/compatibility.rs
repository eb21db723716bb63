use vstd::prelude::*;

use crate::table::{Handle, HandleTable, Slots};

verus! {

/// A type whose values can be exported across the boundary as a handle and
/// later reconstructed or destroyed from it, each handle exactly once.
///
/// A value is exported as bytes in a [`HandleTable`]; the spec functions say
/// which bytes, which bytes can be read back, and what destroying a handle
/// releases.
pub trait Compatibility: Sized + View {
    /// The bytes that a value with model `v` is exported as.
    spec fn exported(v: Self::V) -> Seq<u8>;

    /// Whether a value can be reconstructed from `b`.
    spec fn readable(b: Seq<u8>) -> bool;

    /// The model of the value reconstructed from readable bytes `b`.
    spec fn read(b: Seq<u8>) -> Self::V;

    /// Whether a value with model `v` comes back unchanged from its export.
    spec fn intact(v: Self::V) -> bool;

    /// Whether `h` may be destroyed in a table with model `t`.
    spec fn releasable(t: Slots, h: Handle) -> bool;

    /// The table after destroying `h` in a table with model `t`.
    spec fn released(t: Slots, h: Handle) -> Slots;

    /// An intact value is read back from its own export.
    proof fn lemma_round_trip(v: Self::V)
        requires
            Self::intact(v),
        ensures
            Self::readable(Self::exported(v)),
            Self::read(Self::exported(v)) == v,
    ;

    /// Destroying a handle empties its slot, keeps the table's length, and
    /// only ever empties slots.
    proof fn lemma_release_frees(t: Slots, h: Handle)
        requires
            Self::releasable(t, h),
        ensures
            h < t.len(),
            t[h as int] is Some,
            Self::released(t, h).len() == t.len(),
            Self::released(t, h)[h as int] is None,
            forall|i: int|
                0 <= i < t.len() && #[trigger] Self::released(t, h)[i] is Some ==> Self::released(
                    t,
                    h,
                )[i] == t[i],
    ;

    /// Moves `self` out into the table and returns the handle that owns it.
    fn into_raw_pointer(self, table: &mut HandleTable) -> (h: Handle)
        ensures
            h == old(table)@.len(),
            final(table)@ == old(table)@.push(Some(Self::exported(self@))),
    ;

    /// Consumes `h` and returns the value it owned.
    fn from_raw_pointer(h: Handle, table: &mut HandleTable) -> (v: Self)
        requires
            old(table).holds(h),
            Self::readable(old(table).bytes(h)),
        ensures
            v@ == Self::read(old(table).bytes(h)),
            final(table)@ == old(table)@.update(h as int, None),
    ;

    /// Consumes `h` and releases what it owned, returning nothing.
    fn free_raw_pointer(h: Handle, table: &mut HandleTable)
        requires
            Self::releasable(old(table)@, h),
        ensures
            final(table)@ == Self::released(old(table)@, h),
    ;
}

/// The default way to destroy a handle: reconstruct the value and drop it,
/// so that nothing of its normal teardown is skipped.
pub fn discard<T: Compatibility>(h: Handle, table: &mut HandleTable)
    requires
        old(table).holds(h),
        T::readable(old(table).bytes(h)),
    ensures
        final(table)@ == old(table)@.update(h as int, None),
{
    let _ = T::from_raw_pointer(h, table);
}

/// Exporting an intact value leaves a live handle whose bytes read back as
/// that value.
pub proof fn lemma_export_then_reclaim<T: Compatibility>(v: T::V, before: Slots)
    requires
        T::intact(v),
    ensures
        ({
            let after = before.push(Some(T::exported(v)));
            let h = before.len() as int;
            &&& after[h] is Some
            &&& T::readable(after[h]->Some_0)
            &&& T::read(after[h]->Some_0) == v
        }),
{
    T::lemma_round_trip(v);
}

} // verus!
