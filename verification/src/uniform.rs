//! Ring of uniform buffers for per-submit plain data.
//!
//! Three buffers of equal capacity are used in turn, so that a submit never
//! writes the buffer the previous submit may still be reading. When the data
//! outgrows them, all three are recreated at the next power of two (at least
//! 256 bytes).

use vstd::prelude::*;
use crate::align::{is_pow2_u64, next_power_of_two};

verus! {

/// Number of buffers in the ring.
pub const UNIFORM_BUFFER_COUNT: usize = 3;

/// Ring of uniform buffers; `B` is the GPU buffer.
pub struct UniformBuffer<B> {
    /// The ring; a slot is empty until first used.
    pub buffers: Vec<Option<B>>,
    /// Capacity of every buffer in bytes.
    pub capacity: u64,
    /// Slot used by the latest submit.
    pub current_index: usize,
}

impl<B> UniformBuffer<B> {
    /// The ring has its three slots and a valid current slot.
    pub open spec fn wf(&self) -> bool {
        &&& self.buffers@.len() == UNIFORM_BUFFER_COUNT
        &&& self.current_index < UNIFORM_BUFFER_COUNT
    }

    /// An empty ring of capacity 0.
    pub fn new() -> (u: Self)
        ensures
            u.wf(),
            u.capacity == 0,
            u.current_index == 0,
            forall|i: int| 0 <= i < 3 ==> u.buffers@[i] is None,
    {
        let mut buffers: Vec<Option<B>> = Vec::new();
        buffers.push(None);
        buffers.push(None);
        buffers.push(None);
        UniformBuffer { buffers, capacity: 0, current_index: 0 }
    }

    /// Moves to the next slot of the ring and makes sure it holds a buffer of
    /// at least `size` bytes, creating buffers with `create(slot, capacity)`.
    /// When the capacity is too small, every slot gets a new buffer of the
    /// smallest power-of-two capacity that holds `max(size, 256)` bytes;
    /// otherwise only an empty current slot gets one. Returns the buffer and
    /// its slot.
    pub fn ensure_capacity<F: Fn(usize, u64) -> B>(&mut self, size: u64, create: F) -> (r: (&B, usize))
        requires
            old(self).wf(),
            size <= 0x8000_0000_0000_0000,
            forall|i: usize, c: u64| i < 3 ==> #[trigger] create.requires((i, c)),
        ensures
            final(self).wf(),
            r.1 == (old(self).current_index + 1) % 3,
            final(self).current_index == r.1,
            final(self).buffers@[r.1 as int] == Some(*r.0),
            final(self).capacity >= size,
            final(self).capacity >= old(self).capacity,
            old(self).capacity < size ==> {
                let m = if size < 256 { 256 } else { size };
                &&& is_pow2_u64(final(self).capacity as int)
                &&& final(self).capacity >= m
                &&& final(self).capacity / 2 < m
                &&& forall|i: int| 0 <= i < 3 ==> (#[trigger] final(self).buffers@[i] matches Some(b)
                    && create.ensures((i as usize, final(self).capacity), b))
            },
            old(self).capacity >= size ==> {
                &&& final(self).capacity == old(self).capacity
                &&& old(self).buffers@[r.1 as int] is Some ==> final(self).buffers@ == old(self).buffers@
                &&& old(self).buffers@[r.1 as int] is None ==> {
                    &&& final(self).buffers@[r.1 as int] matches Some(b)
                    &&& create.ensures((r.1, old(self).capacity), b)
                    &&& forall|i: int| 0 <= i < 3 && i != r.1 ==> #[trigger] final(self).buffers@[i] == old(self).buffers@[i]
                }
            },
    {
        self.current_index = (self.current_index + 1) % UNIFORM_BUFFER_COUNT;
        if self.capacity < size {
            let m = if size < 256 { 256 } else { size };
            let new_capacity = next_power_of_two(m);
            let mut i: usize = 0;
            while i < UNIFORM_BUFFER_COUNT
                invariant
                    0 <= i <= 3,
                    self.buffers@.len() == 3,
                    self.current_index == (old(self).current_index + 1) % 3,
                    forall|c: usize, d: u64| c < 3 ==> #[trigger] create.requires((c, d)),
                    forall|k: int| 0 <= k < i ==> (#[trigger] self.buffers@[k] matches Some(b)
                        && create.ensures((k as usize, new_capacity), b)),
                decreases 3 - i,
            {
                let b = create(i, new_capacity);
                self.buffers.set(i, Some(b));
                i = i + 1;
            }
            self.capacity = new_capacity;
        } else if self.buffers[self.current_index].is_none() {
            let index = self.current_index;
            let b = create(index, self.capacity);
            self.buffers.set(index, Some(b));
        }
        let index = self.current_index;
        match &self.buffers[index] {
            Some(b) => (b, index),
            None => vstd::pervasive::unreached(),
        }
    }
}

/// The ring visits every slot: three successive submits use three distinct
/// slots, and the fourth returns to the slot of the first.
pub proof fn lemma_ring_visits_every_slot(start: usize)
    requires
        start < UNIFORM_BUFFER_COUNT,
    ensures
        ({
            let a = (start + 1) % 3;
            let b = (a + 1) % 3;
            let c = (b + 1) % 3;
            &&& a != b && b != c && a != c
            &&& (c + 1) % 3 == a
        }),
{
}

} // verus!
