//! A fixed-capacity ring of power-of-two size. Read and write cursors only
//! grow apart by at most the capacity; an element's slot is its cursor
//! masked with `capacity - 1`, which is why the capacity must be a power of
//! two (no division on the hot path).
use vstd::prelude::*;

verus! {

/// Accepted capacities: non-zero powers of two up to 2^31.
pub open spec fn valid_ring_capacity(c: u32) -> bool {
    c != 0 && c & ((c - 1) as u32) == 0 && c <= 0x8000_0000
}

/// Slot of cursor position `v` when `v` lies within one wrap of the
/// capacity, i.e. `0 <= v < 2 * cap`.
pub open spec fn ring_slot(v: int, cap: int) -> int {
    if v < cap {
        v
    } else {
        v - cap
    }
}

/// Masking with `cap - 1` reduces a cursor within `[0, 2 * cap)` to its
/// slot, provided `cap` is a power of two.
proof fn lemma_mask_is_slot(v: u32, c: u32)
    requires
        c != 0,
        c & ((c - 1) as u32) == 0,
        v < c + c,
    ensures
        v & ((c - 1) as u32) == ring_slot(v as int, c as int),
{
    assert((c != 0 && c & ((c - 1) as u32) == 0 && v < c + c) ==> v & ((c - 1) as u32) == (if v < c {
        v
    } else {
        (v - c) as u32
    })) by (bit_vector);
}

pub struct RingBuffer<T> {
    read: u32,
    write: u32,
    array: Vec<T>,
}

impl<T: Copy + Default> RingBuffer<T> {
    /// The fixed capacity.
    pub closed spec fn capacity(&self) -> int {
        self.array@.len() as int
    }

    /// Internal invariant: the backing array has a valid capacity, the read
    /// cursor has been reduced below it, and the cursors are at most one
    /// capacity apart.
    pub closed spec fn well_formed(&self) -> bool {
        &&& valid_ring_capacity(self.array@.len() as u32)
        &&& self.array@.len() <= 0x8000_0000
        &&& self.read < self.array@.len()
        &&& self.read <= self.write
        &&& self.write - self.read <= self.array@.len()
    }
}

impl<T: Copy + Default> View for RingBuffer<T> {
    type V = Seq<T>;

    /// The buffered elements, oldest first.
    closed spec fn view(&self) -> Seq<T> {
        Seq::new(
            (self.write - self.read) as nat,
            |i: int| self.array@[ring_slot(self.read + i, self.array@.len() as int)],
        )
    }
}

impl<T: Copy + Default> RingBuffer<T> {
    /// Builds an empty ring of the requested capacity; capacities of zero,
    /// of a non-power-of-two, or above 2^31 are rejected.
    pub fn new(capacity: u32) -> (r: Option<RingBuffer<T>>)
        ensures
            r is Some <==> valid_ring_capacity(capacity),
            r matches Some(b) ==> b.well_formed() && b@ == Seq::<T>::empty() && b.capacity()
                == capacity,
    {
        if capacity == 0 || capacity & (capacity - 1) != 0 || capacity > 2147483648 {
            return None;
        }
        let buf = RingBuffer { read: 0u32, write: 0u32, array: vec![T::default(); capacity as usize] };
        proof {
            assert(buf@ =~= Seq::<T>::empty());
        }
        Some(buf)
    }

    /// Slot of cursor `val`.
    fn mask(&self, val: u32) -> (i: usize)
        requires
            self.well_formed(),
            val < self.capacity() + self.capacity(),
        ensures
            i == ring_slot(val as int, self.capacity()),
            i < self.array@.len(),
    {
        proof {
            lemma_mask_is_slot(val, self.array.len() as u32);
        }
        (val & (self.array.len() as u32 - 1)) as usize
    }

    /// Appends `val` at the write cursor; fails (returning `false`, with the
    /// buffer unchanged) exactly when the ring is full.
    pub fn push(&mut self, val: T) -> (ok: bool)
        requires
            old(self).well_formed(),
        ensures
            final(self).well_formed(),
            final(self).capacity() == old(self).capacity(),
            ok <==> old(self)@.len() < old(self).capacity(),
            ok ==> final(self)@ == old(self)@.push(val),
            !ok ==> *final(self) == *old(self),
    {
        if self.full() {
            return false;
        }
        let i = self.mask(self.write);
        self.write = self.write + 1;
        let slot = &mut self.array[i];
        *slot = val;
        proof {
            assert forall|j: int| 0 <= j < old(self)@.len() implies self@[j] == old(self)@[j] by {
                assert(ring_slot(self.read + j, self.array@.len() as int) != ring_slot(
                    old(self).write as int,
                    self.array@.len() as int,
                ));
            }
            assert(self@ =~= old(self)@.push(val));
        }
        true
    }

    /// The oldest element, or `None` when the ring is empty.
    pub fn peek(&self) -> (r: Option<T>)
        requires
            self.well_formed(),
        ensures
            r == (if self@.len() > 0 {
                Some(self@[0])
            } else {
                None::<T>
            }),
    {
        if self.empty() {
            return None;
        }
        let i = self.mask(self.read);
        Some(self.array[i])
    }

    /// Removes and returns the oldest element; fails (returning `None`, with
    /// the buffer unchanged) exactly when the ring is empty.
    pub fn shift(&mut self) -> (r: Option<T>)
        requires
            old(self).well_formed(),
        ensures
            final(self).well_formed(),
            final(self).capacity() == old(self).capacity(),
            r == (if old(self)@.len() > 0 {
                Some(old(self)@[0])
            } else {
                None::<T>
            }),
            old(self)@.len() > 0 ==> final(self)@ == old(self)@.subrange(1, old(self)@.len() as int),
            old(self)@.len() == 0 ==> *final(self) == *old(self),
    {
        if self.empty() {
            return None;
        }
        let i = self.mask(self.read);
        let val = self.array[i];
        let cap = self.array.len() as u32;
        self.read = self.read + 1;
        if self.read == cap {
            // Both cursors are reduced by one capacity; every slot, and the
            // length, are unchanged by this.
            self.read = 0;
            self.write = self.write - cap;
        }
        proof {
            assert(self@ =~= old(self)@.subrange(1, old(self)@.len() as int));
        }
        Some(val)
    }

    /// How many elements are buffered.
    pub fn len(&self) -> (n: u32)
        requires
            self.well_formed(),
        ensures
            n == self@.len(),
    {
        self.write - self.read
    }

    /// Whether nothing is buffered.
    pub fn empty(&self) -> (r: bool)
        requires
            self.well_formed(),
        ensures
            r <==> self@.len() == 0,
    {
        self.read == self.write
    }

    /// Whether the ring is at capacity.
    pub fn full(&self) -> (r: bool)
        requires
            self.well_formed(),
        ensures
            r <==> self@.len() == self.capacity(),
    {
        self.len() == self.array.len() as u32
    }
}

} // verus!
