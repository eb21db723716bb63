use vstd::prelude::*;

verus! {

/// An opaque token for one exported buffer: the index of its slot in a
/// [`HandleTable`]. It carries no type information.
pub type Handle = u64;

/// The model of a [`HandleTable`]: one entry per handle ever issued, holding
/// the exported bytes while the handle is live and `None` once it is consumed.
pub type Slots = Seq<Option<Seq<u8>>>;

/// The number of live handles among `s`.
pub open spec fn live_count_of(s: Slots) -> nat
    decreases s.len(),
{
    if s.len() == 0 {
        0
    } else {
        live_count_of(s.drop_last()) + if s.last() is Some {
            1nat
        } else {
            0nat
        }
    }
}

/// The exported memory on this side of the boundary. Exporting appends a
/// slot; consuming a handle empties its slot for good, so no handle is ever
/// issued twice.
pub struct HandleTable {
    slots: Vec<Option<Vec<u8>>>,
}

impl View for HandleTable {
    type V = Slots;

    closed spec fn view(&self) -> Slots {
        self.slots@.map_values(|s: Option<Vec<u8>>| match s {
            Some(b) => Some(b@),
            None => None,
        })
    }
}

impl HandleTable {
    /// Whether `h` was issued and has not been consumed yet.
    pub open spec fn holds(&self, h: Handle) -> bool {
        h < self@.len() && self@[h as int] is Some
    }

    /// The bytes exported under `h`.
    pub open spec fn bytes(&self, h: Handle) -> Seq<u8> {
        self@[h as int]->Some_0
    }

    /// A table in which nothing has been exported.
    pub fn new() -> (t: Self)
        ensures
            t@ == Seq::<Option<Seq<u8>>>::empty(),
    {
        let t = HandleTable { slots: Vec::new() };
        assert(t@ =~= Seq::<Option<Seq<u8>>>::empty());
        t
    }

    /// Takes ownership of `bytes` and hands out a fresh handle for them.
    pub fn export(&mut self, bytes: Vec<u8>) -> (h: Handle)
        ensures
            h == old(self)@.len(),
            final(self)@ == old(self)@.push(Some(bytes@)),
    {
        let h: u64 = self.slots.len() as u64;
        let ghost b = bytes@;
        self.slots.push(Some(bytes));
        assert(self@ =~= old(self)@.push(Some(b)));
        h
    }

    /// Consumes `h` and gives its bytes back to the caller.
    pub fn reclaim(&mut self, h: Handle) -> (bytes: Vec<u8>)
        requires
            old(self).holds(h),
        ensures
            bytes@ == old(self).bytes(h),
            final(self)@ == old(self)@.update(h as int, None),
    {
        assert(old(self)@.len() == old(self).slots@.len());
        assert(old(self)@[h as int] == match old(self).slots@[h as int] {
            Some(b) => Some(b@),
            None => None,
        });
        let len: usize = self.slots.len();
        assert(h < len);
        let i: usize = h as usize;
        self.slots.push(None);
        let slot = self.slots.swap_remove(i);
        assert(slot == old(self).slots@[h as int]);
        assert(self.slots@ =~= old(self).slots@.update(h as int, None));
        assert(self@ =~= old(self)@.update(h as int, None));
        match slot {
            Some(b) => b,
            None => {
                assert(false);
                Vec::new()
            },
        }
    }

    /// Consumes `h` and releases its bytes.
    pub fn release(&mut self, h: Handle)
        requires
            old(self).holds(h),
        ensures
            final(self)@ == old(self)@.update(h as int, None),
    {
        let _ = self.reclaim(h);
    }

    /// Whether `h` is live: a query for hosts and tests, not a safety check.
    pub fn is_live(&self, h: Handle) -> (r: bool)
        ensures
            r == self.holds(h),
    {
        if h < self.slots.len() as u64 {
            self.slots[h as usize].is_some()
        } else {
            false
        }
    }

    /// How many handles are live, so that a leak can be observed.
    pub fn live_count(&self) -> (n: usize)
        ensures
            n == live_count_of(self@),
    {
        let mut n: usize = 0;
        let mut i: usize = 0;
        while i < self.slots.len()
            invariant
                i <= self.slots.len(),
                n == live_count_of(self@.take(i as int)),
                n <= i,
            decreases self.slots.len() - i,
        {
            assert(self@.take(i + 1).drop_last() =~= self@.take(i as int));
            if self.slots[i].is_some() {
                n = n + 1;
            }
            i = i + 1;
        }
        assert(self@.take(i as int) =~= self@);
        n
    }
}

} // verus!
