//! The instance registry: a map from an opaque 64-bit handle to a stored
//! instance, with double-free and stale-handle detection.
//!
//! A handle encodes a slot index and a per-slot generation stamp in one flat
//! integer. Destroying a handle bumps its slot's generation, so a stale handle
//! from a destroyed slot can never alias an instance created later in the same
//! slot: every handle a caller ever held either resolves to the instance it
//! was minted for, or fails with `InvalidHandle`.

use vstd::prelude::*;

use crate::error::AnnotatorError;

verus! {

/// The number of generations (and of slots) a registry can address: handles
/// pack the slot index into the upper and the generation into the lower
/// 32 bits.
pub const GENERATION_SPAN: u64 = 0x1_0000_0000;

/// One slot of the table. `generation` counts how often the slot has been
/// vacated; it is bumped exactly on destroy, so it can reach
/// `GENERATION_SPAN`, at which point the slot is exhausted and never reused.
struct Slot<T> {
    generation: u64,
    value: Option<T>,
}

/// The registry. Handles minted by [`Registry::create`] stay valid until
/// [`Registry::destroy`]; destroyed or never-minted handles are always
/// rejected.
pub struct Registry<T> {
    slots: Vec<Slot<T>>,
}

/// The slot index a handle refers to.
pub closed spec fn handle_index(h: u64) -> int {
    h as int / GENERATION_SPAN as int
}

/// The generation stamp carried by a handle.
pub closed spec fn handle_generation(h: u64) -> int {
    h as int % GENERATION_SPAN as int
}

/// A handle is exactly its index and generation packed together: the two
/// projections are bounded, and they determine the handle.
broadcast proof fn lemma_handle_unpack(h: u64)
    ensures
        0 <= #[trigger] handle_index(h) < GENERATION_SPAN,
        0 <= handle_generation(h) < GENERATION_SPAN,
        h == handle_index(h) * (GENERATION_SPAN as int) + handle_generation(h),
{
    assert(0 <= h as int / 0x1_0000_0000 < 0x1_0000_0000 && 0 <= h as int % 0x1_0000_0000
        < 0x1_0000_0000 && h as int == (h as int / 0x1_0000_0000) * 0x1_0000_0000 + h as int
        % 0x1_0000_0000) by (nonlinear_arith);
}

/// Packing an index and a generation into a handle is inverted exactly by
/// `handle_index` and `handle_generation`, and stays within 64 bits.
proof fn lemma_handle_pack(i: u64, g: u64)
    requires
        i < GENERATION_SPAN,
        g < GENERATION_SPAN,
    ensures
        i * GENERATION_SPAN + g <= u64::MAX,
        handle_index((i * GENERATION_SPAN + g) as u64) == i,
        handle_generation((i * GENERATION_SPAN + g) as u64) == g,
{
    assert(i * 0x1_0000_0000 + g < 0x1_0000_0000_0000_0000 && (i * 0x1_0000_0000 + g) as int
        / 0x1_0000_0000 == i && (i * 0x1_0000_0000 + g) as int % 0x1_0000_0000 == g)
        by (nonlinear_arith)
        requires
            i < 0x1_0000_0000,
            g < 0x1_0000_0000,
    ;
}

impl<T> Registry<T> {
    /// Structural well-formedness: the table can address every slot, and no
    /// generation counter has run past its exhaustion mark.
    pub closed spec fn wf(&self) -> bool {
        &&& self.slots@.len() <= GENERATION_SPAN
        &&& forall|i: int|
            0 <= i < self.slots@.len() ==> (#[trigger] self.slots@[i].generation)
                <= GENERATION_SPAN
    }

    /// How many slots the table holds. Grows by at most one per `create` and
    /// never shrinks.
    pub closed spec fn slot_count(&self) -> int {
        self.slots@.len() as int
    }

    /// Whether `h` currently resolves to a stored instance.
    pub closed spec fn is_live(&self, h: u64) -> bool {
        &&& 0 <= handle_index(h) < self.slots@.len()
        &&& self.slots@[handle_index(h)].generation == handle_generation(h)
        &&& self.slots@[handle_index(h)].value is Some
    }

    /// The instance `h` resolves to, where `h` is live.
    pub closed spec fn value_of(&self, h: u64) -> T
        recommends
            self.is_live(h),
    {
        self.slots@[handle_index(h)].value->0
    }

    /// Whether `h` was destroyed at some point in this registry's history: its
    /// slot has moved past the generation the handle carries. A retired handle
    /// is never live again, and `create` never mints one.
    pub closed spec fn retired(&self, h: u64) -> bool {
        &&& 0 <= handle_index(h) < self.slots@.len()
        &&& handle_generation(h) < self.slots@[handle_index(h)].generation
    }

    /// A retired handle does not resolve: destroying a handle permanently
    /// invalidates it, whatever is created afterwards.
    pub proof fn lemma_retired_not_live(&self, h: u64)
        requires
            self.retired(h),
        ensures
            !self.is_live(h),
    {
    }

    /// An empty registry: nothing is live, nothing is retired.
    pub fn new() -> (r: Registry<T>)
        ensures
            r.wf(),
            r.slot_count() == 0,
            forall|h: u64| !r.is_live(h),
            forall|h: u64| !r.retired(h),
    {
        Registry { slots: Vec::new() }
    }

    /// How many slots the table holds, so that a caller can test the capacity
    /// precondition of [`Registry::create`] before calling it.
    pub fn slot_len(&self) -> (r: usize)
        ensures
            r == self.slot_count(),
    {
        self.slots.len()
    }

    /// Stores `value` under a freshly minted handle and returns that handle.
    /// The handle was neither live nor ever destroyed before this call, and
    /// every other handle keeps its state and its instance.
    pub fn create(&mut self, value: T) -> (h: u64)
        requires
            old(self).wf(),
            old(self).slot_count() < GENERATION_SPAN,
        ensures
            final(self).wf(),
            !old(self).is_live(h),
            !old(self).retired(h),
            final(self).is_live(h),
            final(self).value_of(h) == value,
            forall|g: u64| g != h ==> final(self).is_live(g) == old(self).is_live(g),
            forall|g: u64|
                g != h && old(self).is_live(g) ==> final(self).value_of(g) == old(
                    self,
                ).value_of(g),
            forall|g: u64| final(self).retired(g) == old(self).retired(g),
            old(self).slot_count() <= final(self).slot_count() <= old(self).slot_count() + 1,
    {
        broadcast use lemma_handle_unpack;

        let n = self.slots.len();
        let mut i: usize = 0;
        // Reuse the first vacated slot that is not exhausted.
        while i < n
            invariant
                *self == *old(self),
                old(self).wf(),
                old(self).slot_count() < GENERATION_SPAN,
                i <= n,
                n == self.slots@.len(),
                forall|j: int|
                    0 <= j < i ==> !((#[trigger] self.slots@[j].value) is None
                        && self.slots@[j].generation < GENERATION_SPAN),
            decreases n - i,
        {
            if self.slots[i].value.is_none() && self.slots[i].generation < GENERATION_SPAN {
                let g = self.slots[i].generation;
                proof {
                    lemma_handle_pack(i as u64, g);
                }
                let h = (i as u64) * GENERATION_SPAN + g;
                self.slots[i] = Slot { generation: g, value: Some(value) };
                return h;
            }
            i += 1;
        }
        // No slot to reuse: open a fresh one at generation zero.
        proof {
            lemma_handle_pack(n as u64, 0);
        }
        let h = (n as u64) * GENERATION_SPAN;
        self.slots.push(Slot { generation: 0, value: Some(value) });
        h
    }

    /// Resolves a handle for read-only use of the stored instance. Succeeds
    /// exactly on live handles; a handle that was never minted or was already
    /// destroyed fails with `InvalidHandle`.
    pub fn lookup(&self, handle: u64) -> (r: Result<&T, AnnotatorError>)
        requires
            self.wf(),
        ensures
            self.is_live(handle) ==> r is Ok && *r->Ok_0 == self.value_of(handle),
            !self.is_live(handle) ==> r is Err && r->Err_0 is InvalidHandle,
    {
        broadcast use lemma_handle_unpack;

        let idx = handle / GENERATION_SPAN;
        let g = handle % GENERATION_SPAN;
        if idx < self.slots.len() as u64 {
            let slot = &self.slots[idx as usize];
            if slot.generation == g {
                match &slot.value {
                    Some(v) => Ok(v),
                    None => Err(AnnotatorError::InvalidHandle),
                }
            } else {
                Err(AnnotatorError::InvalidHandle)
            }
        } else {
            Err(AnnotatorError::InvalidHandle)
        }
    }

    /// Removes and drops the instance behind a live handle, retiring the
    /// handle for good; all other handles keep their state and instance. A
    /// repeated destroy of the same handle, or a destroy of a handle that was
    /// never minted, fails with `InvalidHandle` and changes nothing.
    pub fn destroy(&mut self, handle: u64) -> (r: Result<(), AnnotatorError>)
        requires
            old(self).wf(),
        ensures
            final(self).wf(),
            old(self).is_live(handle) ==> {
                &&& r is Ok
                &&& !final(self).is_live(handle)
                &&& final(self).retired(handle)
                &&& forall|g: u64| g != handle ==> final(self).is_live(g) == old(self).is_live(g)
                &&& forall|g: u64|
                    g != handle && old(self).is_live(g) ==> final(self).value_of(g) == old(
                        self,
                    ).value_of(g)
                &&& forall|g: u64|
                    final(self).retired(g) == (old(self).retired(g) || g == handle)
            },
            !old(self).is_live(handle) ==> r is Err && r->Err_0 is InvalidHandle && *final(self)
                == *old(self),
            final(self).slot_count() == old(self).slot_count(),
    {
        broadcast use lemma_handle_unpack;

        let idx = handle / GENERATION_SPAN;
        let g = handle % GENERATION_SPAN;
        if idx < self.slots.len() as u64 {
            let slot_generation = self.slots[idx as usize].generation;
            let live = slot_generation == g && self.slots[idx as usize].value.is_some();
            if live {
                self.slots[idx as usize] = Slot { generation: g + 1, value: None };
                Ok(())
            } else {
                Err(AnnotatorError::InvalidHandle)
            }
        } else {
            Err(AnnotatorError::InvalidHandle)
        }
    }
}

} // verus!
