use std::marker::PhantomData;

use vstd::bytes::{
    lemma_auto_spec_u64_to_from_le_bytes, spec_u64_from_le_bytes, spec_u64_to_le_bytes,
    u64_from_le_bytes, u64_to_le_bytes,
};
use vstd::prelude::*;
use vstd::slice::slice_subrange;
use vstd::string::to_string_from_display_ensures;

use crate::compatibility::Compatibility;
use crate::table::{live_count_of, Handle, HandleTable, Slots};

verus! {

/// Which way a fallible computation went.
#[derive(Clone, Copy, Debug, PartialEq, Eq, Structural)]
pub enum Status {
    Success,
    Failure,
}

/// The single byte that carries a [`Status`] across the boundary.
pub open spec fn status_byte(s: Status) -> u8 {
    match s {
        Status::Success => 0,
        Status::Failure => 1,
    }
}

/// The outcome of a fallible computation, ready for the host: a status and
/// one handle.
///
/// On success the handle owns the value, of type `T`. On failure it owns the
/// error rendered as text (a `String` handle): the error's type and structure
/// do not cross the boundary, only its rendering does.
///
/// Destroying the envelope's own handle releases the failure text with it,
/// but never the success value: the host keeps that handle and consumes it
/// separately through `T`'s own operations.
pub struct FfiResult<T: Compatibility> {
    pub status: Status,
    pub value: Handle,
    pub phantom: PhantomData<T>,
}

impl<T: Compatibility> View for FfiResult<T> {
    type V = (Status, Handle);

    open spec fn view(&self) -> (Status, Handle) {
        (self.status, self.value)
    }
}

impl<T: Compatibility> FfiResult<T> {
    /// Projects an outcome whose error is already rendered as text.
    pub fn from_text_error(result: Result<T, String>, table: &mut HandleTable) -> (r: Self)
        ensures
            r.value == old(table)@.len(),
            match result {
                Ok(v) => {
                    &&& r.status == Status::Success
                    &&& final(table)@ == old(table)@.push(Some(T::exported(v@)))
                },
                Err(m) => {
                    &&& r.status == Status::Failure
                    &&& final(table)@ == old(table)@.push(
                        Some(<String as Compatibility>::exported(m@)),
                    )
                },
            },
    {
        match result {
            Ok(v) => FfiResult {
                status: Status::Success,
                value: v.into_raw_pointer(table),
                phantom: PhantomData,
            },
            Err(m) => FfiResult {
                status: Status::Failure,
                value: m.into_raw_pointer(table),
                phantom: PhantomData,
            },
        }
    }

    /// Projects an outcome: on success the value is exported, on failure the
    /// error's `to_string` rendering is.
    pub fn from<S: core::fmt::Display>(result: Result<T, S>, table: &mut HandleTable) -> (r: Self)
        ensures
            r.value == old(table)@.len(),
            match result {
                Ok(v) => {
                    &&& r.status == Status::Success
                    &&& final(table)@ == old(table)@.push(Some(T::exported(v@)))
                },
                Err(e) => {
                    &&& r.status == Status::Failure
                    &&& exists|m: String|
                        {
                            &&& to_string_from_display_ensures::<S>(&e, m)
                            &&& final(table)@ == old(table)@.push(
                                Some(<String as Compatibility>::exported(m@)),
                            )
                        }
                },
            },
    {
        match result {
            Ok(v) => Self::from_text_error(Ok(v), table),
            Err(e) => {
                let m = e.to_string();
                let r = Self::from_text_error(Err(m), table);
                assert(to_string_from_display_ensures::<S>(&e, m));
                r
            },
        }
    }
}

/// An envelope is one status byte followed by its handle in little-endian
/// order.
impl<T: Compatibility> Compatibility for FfiResult<T> {
    open spec fn exported(v: (Status, Handle)) -> Seq<u8> {
        seq![status_byte(v.0)] + spec_u64_to_le_bytes(v.1)
    }

    /// Any status byte but 0 and 1 is an invalid state.
    open spec fn readable(b: Seq<u8>) -> bool {
        b.len() == 9 && (b[0] == 0 || b[0] == 1)
    }

    open spec fn read(b: Seq<u8>) -> (Status, Handle) {
        (
            if b[0] == 0 {
                Status::Success
            } else {
                Status::Failure
            },
            spec_u64_from_le_bytes(b.subrange(1, 9)),
        )
    }

    open spec fn intact(v: (Status, Handle)) -> bool {
        true
    }

    /// A failure envelope owns its text, which must still be live.
    open spec fn releasable(t: Slots, h: Handle) -> bool {
        &&& h < t.len()
        &&& t[h as int] is Some
        &&& Self::readable(t[h as int]->Some_0)
        &&& Self::read(t[h as int]->Some_0).0 == Status::Failure ==> {
            let inner = Self::read(t[h as int]->Some_0).1;
            &&& inner != h
            &&& <String as Compatibility>::releasable(t, inner)
        }
    }

    /// Releases the envelope, and its text on failure; the success value is
    /// left live.
    open spec fn released(t: Slots, h: Handle) -> Slots {
        let e = Self::read(t[h as int]->Some_0);
        if e.0 == Status::Failure {
            <String as Compatibility>::released(t.update(h as int, None), e.1)
        } else {
            t.update(h as int, None)
        }
    }

    proof fn lemma_round_trip(v: (Status, Handle)) {
        lemma_auto_spec_u64_to_from_le_bytes();
        let b = Self::exported(v);
        assert(b.subrange(1, 9) =~= spec_u64_to_le_bytes(v.1));
    }

    proof fn lemma_release_frees(t: Slots, h: Handle) {
    }

    fn into_raw_pointer(self, table: &mut HandleTable) -> (h: Handle) {
        let mut b: Vec<u8> = Vec::new();
        match self.status {
            Status::Success => b.push(0u8),
            Status::Failure => b.push(1u8),
        }
        let mut le = u64_to_le_bytes(self.value);
        b.append(&mut le);
        assert(b@ =~= Self::exported(self@));
        table.export(b)
    }

    fn from_raw_pointer(h: Handle, table: &mut HandleTable) -> (v: Self) {
        let b = table.reclaim(h);
        let status = if b[0] == 0u8 {
            Status::Success
        } else {
            Status::Failure
        };
        let value = u64_from_le_bytes(slice_subrange(b.as_slice(), 1, 9));
        FfiResult { status, value, phantom: PhantomData }
    }

    fn free_raw_pointer(h: Handle, table: &mut HandleTable) {
        let e = Self::from_raw_pointer(h, table);
        match e.status {
            Status::Failure => String::free_raw_pointer(e.value, table),
            Status::Success => {},
        }
    }
}

proof fn lemma_live_count_push(s: Slots, slot: Option<Seq<u8>>)
    ensures
        live_count_of(s.push(slot)) == live_count_of(s) + if slot is Some {
            1nat
        } else {
            0nat
        },
{
    assert(s.push(slot).drop_last() =~= s);
}

/// Every envelope carries status byte 0 or 1, reads back with the status it
/// was built with, and bytes with any other status byte cannot be read.
pub proof fn lemma_discriminant_domain<T: Compatibility>(e: (Status, Handle), b: Seq<u8>)
    ensures
        FfiResult::<T>::exported(e)[0] == 0 || FfiResult::<T>::exported(e)[0] == 1,
        FfiResult::<T>::readable(FfiResult::<T>::exported(e)),
        FfiResult::<T>::read(FfiResult::<T>::exported(e)).0 == e.0,
        b.len() > 0 && b[0] != 0 && b[0] != 1 ==> !FfiResult::<T>::readable(b),
{
    FfiResult::<T>::lemma_round_trip(e);
}

/// Destroying a success envelope, exported right after its value, releases
/// the envelope alone: the value's handle stays live and still reads back as
/// the value.
pub proof fn lemma_success_envelope_keeps_payload<T: Compatibility>(v: T::V, before: Slots)
    requires
        T::intact(v),
        before.len() + 2 <= u64::MAX,
    ensures
        ({
            let inner = before.len() as Handle;
            let with_value = before.push(Some(T::exported(v)));
            let h = with_value.len() as Handle;
            let exported = with_value.push(
                Some(FfiResult::<T>::exported((Status::Success, inner))),
            );
            let after = FfiResult::<T>::released(exported, h);
            &&& FfiResult::<T>::releasable(exported, h)
            &&& after == with_value.push(None)
            &&& after[inner as int] is Some
            &&& T::readable(after[inner as int]->Some_0)
            &&& T::read(after[inner as int]->Some_0) == v
            &&& live_count_of(after) == live_count_of(before) + 1
        }),
{
    let inner = before.len() as Handle;
    let with_value = before.push(Some(T::exported(v)));
    let h = with_value.len() as Handle;
    let e = (Status::Success, inner);
    let exported = with_value.push(Some(FfiResult::<T>::exported(e)));
    FfiResult::<T>::lemma_round_trip(e);
    T::lemma_round_trip(v);
    assert(exported.update(h as int, None) =~= with_value.push(None));
    lemma_live_count_push(before, Some(T::exported(v)));
    lemma_live_count_push(with_value, None);
}

/// Destroying a failure envelope, exported right after its text, releases
/// both: no slot that the projection filled stays live.
pub proof fn lemma_failure_envelope_frees_all<T: Compatibility>(m: Seq<char>, before: Slots)
    requires
        before.len() + 2 <= u64::MAX,
    ensures
        ({
            let inner = before.len() as Handle;
            let with_text = before.push(Some(<String as Compatibility>::exported(m)));
            let h = with_text.len() as Handle;
            let exported = with_text.push(
                Some(FfiResult::<T>::exported((Status::Failure, inner))),
            );
            let after = FfiResult::<T>::released(exported, h);
            &&& FfiResult::<T>::releasable(exported, h)
            &&& after == before.push(None).push(None)
            &&& live_count_of(after) == live_count_of(before)
        }),
{
    let inner = before.len() as Handle;
    let with_text = before.push(Some(<String as Compatibility>::exported(m)));
    let h = with_text.len() as Handle;
    let e = (Status::Failure, inner);
    let exported = with_text.push(Some(FfiResult::<T>::exported(e)));
    FfiResult::<T>::lemma_round_trip(e);
    assert(exported.update(h as int, None).update(inner as int, None) =~= before.push(
        None,
    ).push(None));
    lemma_live_count_push(before, None);
    lemma_live_count_push(before.push(None), None);
}

} // verus!
