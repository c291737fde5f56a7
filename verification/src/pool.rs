//! A fixed-capacity pool of frame-buffer slots with move-only ownership.
//! An allocation yields exclusive ownership of one slot together with a
//! freshly default-initialized (all-black) image; the slot is returned to
//! the free set explicitly. The number of simultaneously live allocations
//! can never exceed the capacity fixed at construction.

use crate::color::black;
use crate::image::Image;
use vstd::prelude::*;

verus! {

/// Exclusive, move-only ownership of one pool slot and its image.
/// Handles cannot be copied or constructed outside the pool.
pub struct FrameHandle {
    slot: usize,
    image: Image,
}

impl View for FrameHandle {
    type V = Seq<crate::color::Color>;

    closed spec fn view(&self) -> Seq<crate::color::Color> {
        self.image@
    }
}

impl FrameHandle {
    /// The index of the pool slot this handle owns.
    pub closed spec fn slot_id(&self) -> int {
        self.slot as int
    }

    /// Read-only access to the owned image.
    pub fn image(&self) -> (img: &Image)
        ensures
            img@ == self@,
    {
        &self.image
    }

    /// Exclusive access to the owned image.
    pub fn image_mut(&mut self) -> (img: &mut Image)
        ensures
            img@ == old(self)@,
            final(self)@ == final(img)@,
            final(self).slot_id() == old(self).slot_id(),
    {
        &mut self.image
    }
}

/// Allocation failure: every slot is in use. For the display controller
/// this is fatal, because the display, receive and publish paths must
/// always be able to hold a buffer each.
#[derive(Clone, Copy, PartialEq, Eq, Structural, Debug)]
pub enum PoolError {
    Exhausted,
}

/// The fixed set of frame-buffer slots. Its state is which slots are
/// currently handed out.
pub struct FramePool {
    used: Vec<bool>,
}

impl FramePool {
    /// How many slots the pool was built with.
    pub closed spec fn capacity(&self) -> int {
        self.used@.len() as int
    }

    /// Whether slot `s` is currently handed out.
    pub closed spec fn slot_used(&self, s: int) -> bool {
        0 <= s < self.used@.len() && self.used@[s]
    }

    /// A pool with `capacity` slots, all free.
    pub fn new(capacity: usize) -> (p: FramePool)
        ensures
            p.capacity() == capacity,
            forall|s: int| !p.slot_used(s),
    {
        let mut used: Vec<bool> = Vec::new();
        let mut n: usize = 0;
        while n < capacity
            invariant
                n <= capacity,
                used@.len() == n,
                forall|s: int| 0 <= s < n ==> !used@[s],
            decreases capacity - n,
        {
            used.push(false);
            n += 1;
        }
        FramePool { used }
    }

    /// Hands out the lowest free slot with a default (all-black) image,
    /// or reports exhaustion if and only if every slot is in use.
    pub fn allocate(&mut self) -> (r: Result<FrameHandle, PoolError>)
        ensures
            final(self).capacity() == old(self).capacity(),
            match r {
                Ok(h) => {
                    &&& 0 <= h.slot_id() < old(self).capacity()
                    &&& !old(self).slot_used(h.slot_id())
                    &&& forall|s: int|
                        final(self).slot_used(s) <==> (old(self).slot_used(s) || s == h.slot_id())
                    &&& h@.len() == 64
                    &&& forall|i: int| 0 <= i < 64 ==> h@[i] == black()
                },
                Err(e) => {
                    &&& e == PoolError::Exhausted
                    &&& *final(self) == *old(self)
                    &&& forall|s: int| 0 <= s < old(self).capacity() ==> old(self).slot_used(s)
                },
            },
    {
        let n = self.used.len();
        let mut i: usize = 0;
        while i < n
            invariant
                i <= n,
                n == self.used@.len(),
                forall|s: int| 0 <= s < i ==> self.used@[s],
                *self == *old(self),
            decreases n - i,
        {
            if !self.used[i] {
                self.used[i] = true;
                return Ok(FrameHandle { slot: i, image: Image::default() });
            }
            i += 1;
        }
        Err(PoolError::Exhausted)
    }

    /// Takes a handle back, freeing its slot for reuse. The handle is
    /// consumed: ownership ends here.
    pub fn release(&mut self, handle: FrameHandle)
        requires
            old(self).slot_used(handle.slot_id()),
        ensures
            final(self).capacity() == old(self).capacity(),
            forall|s: int|
                final(self).slot_used(s) <==> (old(self).slot_used(s) && s != handle.slot_id()),
    {
        let FrameHandle { slot, image: _ } = handle;
        self.used[slot] = false;
    }
}

} // verus!
