//! The backend contract over its two variants: the in-process engine and the
//! sandboxed one. The variant is chosen once, when the bridge is set up.

use vstd::prelude::*;
use crate::error::BackendError;
use crate::native_backend::NativeBackend;
use crate::native_kernel::BUFFER_SIZE;
use crate::wasm_backend::{
    overlap_hazard,
    whole_vectors,
    WasmBackend,
};

verus! {

/// An engine behind the backend contract.
pub enum Backend {
    Native(NativeBackend),
    Wasm(WasmBackend),
}

impl Backend {
    /// The engine is well formed.
    pub open spec fn wf(&self) -> bool {
        match self {
            Backend::Native(native) => native.wf(),
            Backend::Wasm(wasm) => wasm.wf(),
        }
    }

    /// Bytes per region.
    pub open spec fn capacity(&self) -> usize {
        match self {
            Backend::Native(_) => BUFFER_SIZE,
            Backend::Wasm(wasm) => wasm.layout().cap,
        }
    }

    /// Where the input region starts in the memory that the host addresses.
    pub open spec fn input_offset(&self) -> usize {
        match self {
            Backend::Native(_) => 0,
            Backend::Wasm(wasm) => wasm.layout().input_offset,
        }
    }

    /// Where the output region starts in the memory that the host addresses.
    pub open spec fn output_offset(&self) -> usize {
        match self {
            Backend::Native(_) => BUFFER_SIZE,
            Backend::Wasm(wasm) => wasm.layout().output_offset,
        }
    }

    /// `after` is the same variant as `self`, with the same layout.
    pub open spec fn same_engine(&self, after: &Self) -> bool {
        match (self, after) {
            (Backend::Native(_), Backend::Native(_)) => true,
            (Backend::Wasm(before), Backend::Wasm(then)) => before.settled(then),
            _ => false,
        }
    }

    /// A well-formed backend has a positive capacity, and capacity and offsets
    /// fit 32-bit positions.
    pub proof fn lemma_layout_bounds(&self)
        requires
            self.wf(),
        ensures
            0 < self.capacity() <= i32::MAX,
            self.input_offset() <= i32::MAX,
            self.output_offset() <= i32::MAX,
    {
        match self {
            Backend::Native(_) => {},
            Backend::Wasm(wasm) => {
                wasm.lemma_layout_bounds();
            },
        }
    }

    pub fn get_cap(&self) -> (cap: usize)
        ensures
            cap == self.capacity(),
    {
        match self {
            Backend::Native(native) => native.get_cap(),
            Backend::Wasm(wasm) => wasm.get_cap(),
        }
    }

    pub fn get_input_offset(&self) -> (offset: usize)
        ensures
            offset == self.input_offset(),
    {
        match self {
            Backend::Native(native) => native.get_input_offset(),
            Backend::Wasm(wasm) => wasm.get_input_offset(),
        }
    }

    pub fn get_output_offset(&self) -> (offset: usize)
        ensures
            offset == self.output_offset(),
    {
        match self {
            Backend::Native(native) => native.get_output_offset(),
            Backend::Wasm(wasm) => wasm.get_output_offset(),
        }
    }

    /// Whether the regions overlap without being one and the same. The regions
    /// of the in-process engine never overlap.
    pub fn has_overlap_hazard(&self) -> (hazard: bool)
        requires
            self.wf(),
        ensures
            hazard == (match self {
                Backend::Native(_) => false,
                Backend::Wasm(wasm) => overlap_hazard(wasm.layout()),
            }),
    {
        match self {
            Backend::Native(_) => false,
            Backend::Wasm(wasm) => wasm.has_overlap_hazard(),
        }
    }

    /// Announces how far the input has been filled. Whatever the engine, a
    /// negative position is ignored and the call succeeds.
    pub fn set_write_head(&mut self, pos: i32) -> (r: Result<(), BackendError>)
        requires
            old(self).wf(),
        ensures
            final(self).wf(),
            old(self).same_engine(final(self)),
            pos < 0 ==> r is Ok,
            match (*old(self), *final(self)) {
                (Backend::Native(before), Backend::Native(after)) => before.announced(
                    &after,
                    pos,
                    r,
                ),
                (Backend::Wasm(before), Backend::Wasm(after)) => {
                    &&& pos < 0 ==> after.memory() == before.memory()
                    &&& r matches Err(e) ==> e is EngineTrapped
                },
                _ => true,
            },
    {
        match self {
            Backend::Native(native) => native.set_write_head(pos),
            Backend::Wasm(wasm) => wasm.set_write_head(pos),
        }
    }

    /// Lets the engine consume what is unread; returns the engine's count of
    /// bytes consumed. Whatever the engine, a count that comes back is not
    /// negative and a whole number of vectors.
    pub fn process_tensor_stream(&mut self) -> (r: Result<i32, BackendError>)
        requires
            old(self).wf(),
        ensures
            final(self).wf(),
            old(self).same_engine(final(self)),
            r matches Ok(count) ==> whole_vectors(count),
            match (*old(self), *final(self)) {
                (Backend::Native(before), Backend::Native(after)) => before.streamed(&after, r),
                (Backend::Wasm(_), Backend::Wasm(_)) => r matches Err(e) ==> e is EngineTrapped || e
                    is MalformedReply,
                _ => true,
            },
    {
        match self {
            Backend::Native(native) => native.process_tensor_stream(),
            Backend::Wasm(wasm) => wasm.process_tensor_stream(),
        }
    }

    /// Batched addition over `count` vectors at the read head. An engine that
    /// does not offer it does nothing.
    pub fn vector_add_batch(&mut self, count: i32) -> (r: Result<(), BackendError>)
        requires
            old(self).wf(),
        ensures
            final(self).wf(),
            old(self).same_engine(final(self)),
            match (*old(self), *final(self)) {
                (Backend::Native(before), Backend::Native(after)) => before.batch_added(
                    &after,
                    count,
                    r,
                ),
                (Backend::Wasm(before), Backend::Wasm(after)) => {
                    &&& !before.layout().capabilities.batch_add ==> r.is_ok() && after.memory()
                        == before.memory()
                    &&& r matches Err(e) ==> e is EngineTrapped
                },
                _ => true,
            },
    {
        match self {
            Backend::Native(native) => native.vector_add_batch(count),
            Backend::Wasm(wasm) => wasm.vector_add_batch(count),
        }
    }

    /// Batched dot product over `count` vectors at the read head. An engine
    /// that does not offer it answers 0.
    pub fn vector_dot_batch(&mut self, count: i32) -> (r: Result<i32, BackendError>)
        requires
            old(self).wf(),
        ensures
            final(self).wf(),
            old(self).same_engine(final(self)),
            match (*old(self), *final(self)) {
                (Backend::Native(before), Backend::Native(after)) => *final(self) == *old(self)
                    && after.same_state(&before) && r == Ok::<i32, BackendError>(
                    before.batch_dot(count),
                ),
                (Backend::Wasm(before), Backend::Wasm(after)) => {
                    &&& !before.layout().capabilities.batch_dot ==> r == Ok::<i32, BackendError>(0)
                        && after.memory() == before.memory()
                    &&& r matches Err(e) ==> e is EngineTrapped
                },
                _ => true,
            },
    {
        match self {
            Backend::Native(native) => native.vector_dot_batch(count),
            Backend::Wasm(wasm) => wasm.vector_dot_batch(count),
        }
    }

    /// Whether the engine's sentinels are unmodified: 0 means corrupted. An
    /// engine that offers no check is taken to be healthy.
    pub fn check_integrity(&mut self) -> (r: Result<i32, BackendError>)
        requires
            old(self).wf(),
        ensures
            final(self).wf(),
            old(self).same_engine(final(self)),
            match (*old(self), *final(self)) {
                (Backend::Native(before), Backend::Native(after)) => *final(self) == *old(self)
                    && after.same_state(&before) && r == Ok::<i32, BackendError>(
                    if before.kernel.intact() {
                        1i32
                    } else {
                        0i32
                    },
                ),
                (Backend::Wasm(before), Backend::Wasm(after)) => {
                    &&& !before.layout().capabilities.integrity_check ==> r == Ok::<
                        i32,
                        BackendError,
                    >(1) && after.memory() == before.memory()
                    &&& r matches Err(e) ==> e is EngineTrapped
                },
                _ => true,
            },
    {
        match self {
            Backend::Native(native) => native.check_integrity(),
            Backend::Wasm(wasm) => wasm.check_integrity(),
        }
    }

    /// Raw write at `offset` of the memory that the host addresses. It fails
    /// where the range lies within neither region.
    pub fn write_bytes(&mut self, offset: usize, data: &[u8]) -> (r: Result<(), BackendError>)
        requires
            old(self).wf(),
        ensures
            final(self).wf(),
            old(self).same_engine(final(self)),
            match (*old(self), *final(self)) {
                (Backend::Native(before), Backend::Native(after)) => before.wrote(
                    &after,
                    offset,
                    data@,
                    r,
                ),
                (Backend::Wasm(before), Backend::Wasm(after)) => before.wrote(
                    &after,
                    offset,
                    data@,
                    r,
                ),
                _ => true,
            },
    {
        match self {
            Backend::Native(native) => native.write_bytes(offset, data),
            Backend::Wasm(wasm) => wasm.write_bytes(offset, data),
        }
    }

    /// Raw read at `offset` of the memory that the host addresses. It fails
    /// where the range lies within neither region.
    pub fn read_bytes(&mut self, offset: usize, len: usize) -> (r: Result<Vec<u8>, BackendError>)
        requires
            old(self).wf(),
        ensures
            final(self).wf(),
            old(self).same_engine(final(self)),
            r matches Ok(found) ==> found@.len() == len,
            match (*old(self), *final(self)) {
                (Backend::Native(before), Backend::Native(after)) => *final(self) == *old(self)
                    && after.same_state(&before) && before.was_read(offset, len, r),
                (Backend::Wasm(before), Backend::Wasm(after)) => before.was_read(
                    &after,
                    offset,
                    len,
                    r,
                ),
                _ => true,
            },
    {
        match self {
            Backend::Native(native) => native.read_bytes(offset, len),
            Backend::Wasm(wasm) => wasm.read_bytes(offset, len),
        }
    }
}

} // verus!
