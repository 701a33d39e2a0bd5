//! The payload ring shared by the in-kernel producer and the user-space consumer: a
//! fixed-capacity queue of equally sized byte records. A record is reserved, written
//! whole and published in one step, so a reader sees either all of it or nothing.
//!
//! In the kernel the ring is a BPF ring-buffer map, reached through aya-ebpf's
//! `RingBuf`; that crate builds only for the BPF target, so it cannot be called from
//! here. `Ring` models the map's behaviour as the classifier and the consumer rely on it:
//! bounded byte capacity, whole records, first in first out.
use vstd::prelude::*;

verus! {

/// Number of records the ring is sized for.
pub const RING_RECORDS: usize = 16;

/// Upper bound on the ring's byte capacity (256 KiB).
pub const RING_MAX_BYTES: usize = 262144;

/// The ring's byte capacity for records of `size` bytes: room for `RING_RECORDS` of
/// them, capped at `RING_MAX_BYTES`.
pub open spec fn ring_capacity(size: int) -> int {
    if RING_RECORDS * size <= RING_MAX_BYTES {
        RING_RECORDS * size
    } else {
        RING_MAX_BYTES as int
    }
}

/// A power of two.
pub open spec fn is_pow2(n: int) -> bool
    decreases n,
{
    if n <= 0 {
        false
    } else if n == 1 {
        true
    } else {
        n % 2 == 0 && is_pow2(n / 2)
    }
}

/// Whether `n` is a power of two.
pub fn is_power_of_two(n: usize) -> (r: bool)
    ensures
        r == is_pow2(n as int),
{
    if n == 0 {
        return false;
    }
    let mut m: usize = n;
    while m > 1
        invariant
            m >= 1,
            is_pow2(n as int) == is_pow2(m as int),
        decreases m,
    {
        if m % 2 != 0 {
            return false;
        }
        m = m / 2;
    }
    true
}

/// Computes the ring's byte capacity for records of `size` bytes.
pub fn ring_byte_size(size: usize) -> (r: usize)
    ensures
        r == ring_capacity(size as int),
{
    if size <= RING_MAX_BYTES / RING_RECORDS {
        RING_RECORDS * size
    } else {
        RING_MAX_BYTES
    }
}

/// A bounded queue of records that all have the same length.
pub struct Ring {
    entries: Vec<Vec<u8>>,
    element_size: usize,
    byte_capacity: usize,
}

impl View for Ring {
    type V = Seq<Seq<u8>>;

    /// The published records, oldest first.
    closed spec fn view(&self) -> Seq<Seq<u8>> {
        self.entries@.map_values(|e: Vec<u8>| e@)
    }
}

impl Ring {
    /// The length of every record.
    pub closed spec fn record_size(&self) -> nat {
        self.element_size as nat
    }

    /// The capacity in bytes.
    pub closed spec fn capacity_bytes(&self) -> nat {
        self.byte_capacity as nat
    }

    /// The capacity is a power of two, the records fit in it, and every record has the
    /// ring's record size.
    pub closed spec fn wf(&self) -> bool {
        &&& self.element_size > 0
        &&& self.byte_capacity == ring_capacity(self.element_size as int)
        &&& is_pow2(self.byte_capacity as int)
        &&& self.entries@.len() * self.element_size <= self.byte_capacity
        &&& forall|i: int|
            0 <= i < self.entries@.len() ==> (#[trigger] self.entries@[i])@.len()
                == self.element_size
    }

    /// Whether one more record fits.
    pub open spec fn has_room_spec(&self) -> bool {
        (self@.len() + 1) * self.record_size() <= self.capacity_bytes()
    }

    /// An empty ring for records of `element_size` bytes, whose byte capacity must be a
    /// power of two.
    pub fn new(element_size: usize) -> (r: Ring)
        requires
            element_size > 0,
            is_pow2(ring_capacity(element_size as int)),
        ensures
            r.wf(),
            r@ == Seq::<Seq<u8>>::empty(),
            r.record_size() == element_size,
            r.capacity_bytes() == ring_capacity(element_size as int),
            is_pow2(r.capacity_bytes() as int),
    {
        let r = Ring {
            entries: Vec::new(),
            element_size,
            byte_capacity: ring_byte_size(element_size),
        };
        assert(r@ =~= Seq::<Seq<u8>>::empty());
        r
    }

    pub fn element_size(&self) -> (r: usize)
        ensures
            r == self.record_size(),
    {
        self.element_size
    }

    pub fn capacity(&self) -> (r: usize)
        ensures
            r == self.capacity_bytes(),
    {
        self.byte_capacity
    }

    /// Number of published records not yet consumed.
    pub fn len(&self) -> (r: usize)
        ensures
            r == self@.len(),
    {
        self.entries.len()
    }

    /// Whether a reservation would succeed now.
    pub fn has_room(&self) -> (r: bool)
        requires
            self.wf(),
        ensures
            r == self.has_room_spec(),
    {
        let n: usize = self.entries.len();
        assert(n * self.element_size <= self.byte_capacity);
        if self.byte_capacity - n * self.element_size >= self.element_size {
            assert((n + 1) * self.element_size == n * self.element_size + self.element_size)
                by (nonlinear_arith);
            true
        } else {
            assert((n + 1) * self.element_size == n * self.element_size + self.element_size)
                by (nonlinear_arith);
            false
        }
    }

    /// Publishes a record written in full into a reserved slot.
    pub fn submit(&mut self, element: Vec<u8>)
        requires
            old(self).wf(),
            old(self).has_room_spec(),
            element@.len() == old(self).record_size(),
        ensures
            final(self).wf(),
            final(self)@ == old(self)@.push(element@),
            final(self).record_size() == old(self).record_size(),
            final(self).capacity_bytes() == old(self).capacity_bytes(),
    {
        let ghost before = self.entries@;
        self.entries.push(element);
        assert(self@ =~= old(self)@.push(element@));
        assert((before.len() + 1) * self.element_size <= self.byte_capacity);
    }

    /// Takes the oldest published record, if any.
    pub fn next(&mut self) -> (r: Option<Vec<u8>>)
        requires
            old(self).wf(),
        ensures
            final(self).wf(),
            final(self).record_size() == old(self).record_size(),
            final(self).capacity_bytes() == old(self).capacity_bytes(),
            old(self)@.len() == 0 ==> r is None && final(self)@ == old(self)@,
            old(self)@.len() > 0 ==> (r matches Some(e) && e@ == old(self)@[0] && e@.len()
                == old(self).record_size() && final(self)@ == old(self)@.drop_first()),
    {
        if self.entries.len() == 0 {
            None
        } else {
            let ghost before = self.entries@;
            let e = self.entries.remove(0);
            assert(self@ =~= old(self)@.drop_first());
            assert(e@ == before[0]@);
            assert((before.len() - 1) * self.element_size <= before.len() * self.element_size)
                by (nonlinear_arith)
                requires
                    before.len() >= 1,
            ;
            Some(e)
        }
    }

    /// Every record in a well-formed ring has exactly the ring's record size.
    pub proof fn lemma_records_have_record_size(&self)
        requires
            self.wf(),
        ensures
            forall|i: int| 0 <= i < self@.len() ==> (#[trigger] self@[i]).len() == self.record_size(),
    {
        assert forall|i: int| 0 <= i < self@.len() implies (#[trigger] self@[i]).len()
            == self.record_size() by {
            assert(self@[i] == self.entries@[i]@);
        }
    }
}

} // verus!
